pub mod classifier;
pub mod guards;
pub mod scanner;
pub mod shell;
