pub mod error;
pub mod model;
pub mod read;
pub mod syntax;
pub mod text;
pub mod utils;
pub mod vocabs;
pub mod writer;
