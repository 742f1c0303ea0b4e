pub mod cache;
pub mod changes;
pub mod dates;
pub mod machine;
pub mod parse;
pub mod permits;
pub mod pkg_reader;
pub mod range;
pub mod registry;
pub mod strmap;
pub mod version;
