pub mod stub;
