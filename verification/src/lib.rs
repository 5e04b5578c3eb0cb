pub mod scanner;
pub mod token;
