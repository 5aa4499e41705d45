pub mod event;
pub mod laws;
pub mod machine;
pub mod xml;
