//! A local content-delivery layer for a media client: custom resource
//! locators (`once://`, `content://`, `thumb://`) are resolved to binary
//! content through an in-memory buffer cache, with a task registry that
//! coordinates background thumbnail generation so that at most one fetch
//! per locator is ever in flight.

pub mod bytes;
pub mod cache;
pub mod kv;
pub mod locator;
pub mod paths;
pub mod registry;
pub mod resolver;
pub mod settings;
