pub mod common;
pub mod digits;
pub mod net;
pub mod options;
pub mod protocols;
pub mod proxy;
pub mod proxy_list;
pub mod reporters;
pub mod scanner;
pub mod text;
pub mod transport;

pub use common::types::ProxyType;
pub use scanner::{ScanResult, Scanner, ScannerBuilder};
