pub mod ast;
pub mod check_laws;
pub mod environment;
pub mod error;
pub mod full_types;
pub mod span;
pub mod text;
pub mod typechecker;
pub mod typed;
pub mod typing;
