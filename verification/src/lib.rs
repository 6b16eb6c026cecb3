//! The decision-making core of FerrumPHP, a PHP application server.
pub mod chunk;
pub mod cli;
pub mod headers;
pub mod net;
pub mod path;
pub mod php;
pub mod text;
