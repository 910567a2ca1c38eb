pub mod classifier;
pub mod guards;
pub mod paths;
pub mod scanner;
