pub mod order_book;
pub mod dealer;
pub mod scoring;
pub mod engine;
pub mod laws;
