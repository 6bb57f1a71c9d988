//! The class model and its loader.

pub mod attribute_info;
pub mod context;
pub mod field;
pub mod layout;
pub mod method;
pub mod model;
pub mod native;
pub mod pool;
pub mod reader;

pub use self::context::Context;
pub use self::model::Class;
pub use self::reader::Reader;
