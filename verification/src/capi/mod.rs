pub mod driver;
pub mod ring;
pub mod types;
