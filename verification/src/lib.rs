pub mod executor;
pub mod filter;
pub mod formatter;
pub mod headers;
pub mod html;
pub mod jsonenc;
pub mod pipeline;
pub mod request;
pub mod sink;
pub mod text;
pub mod throttle;
pub mod tool;
pub mod types;
pub mod url;
