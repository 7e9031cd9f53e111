pub mod strutil;
pub mod table;
pub mod registry;
pub mod render;
pub mod passwd;
pub mod hashing;
pub mod codec;
pub mod plan;
pub mod model;
pub mod dispatch;
