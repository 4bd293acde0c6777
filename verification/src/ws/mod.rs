pub mod messages;
pub mod session;
