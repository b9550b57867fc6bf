pub mod value;
pub mod merge;
pub mod flatten;
pub mod schema;
pub mod decode;
pub mod load;
pub mod laws;
pub mod catalog;
