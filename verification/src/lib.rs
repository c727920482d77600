//! A typed client core for a MediaWiki-style `action=query` API: request
//! construction, response interpretation, continuation-driven iteration and
//! redirect resolution.
pub mod decode;
pub mod error;
pub mod http;
pub mod iter;
pub mod json;
pub mod page;
pub mod query;
pub mod reply;
pub mod text;
pub mod wiki;

pub use crate::error::WikiError;
pub use crate::iter::Iter;
pub use crate::page::Page;
pub use crate::reply::WikiResponse;
pub use crate::wiki::Wikipedia;
