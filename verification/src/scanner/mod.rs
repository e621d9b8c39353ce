pub mod scanner;

pub use self::scanner::{AnonymityLevel, ScanResult, Scanner, ScannerBuilder};
