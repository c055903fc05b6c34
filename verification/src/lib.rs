//! A component that sends HTTP requests for a host in the background: the host pushes
//! batches of tasks, fetches the results and confirms that it has them.
pub mod addin;
pub mod cache;
pub mod clock;
pub mod http_engine;
pub mod https;
pub mod json;
pub mod laws;
pub mod meaning;
pub mod parser;
pub mod pem;
pub mod queue;
pub mod storage;
pub mod text;
pub mod utils;

pub use addin::NetworkAddIn;
