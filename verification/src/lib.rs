//! A compiler from a small S-expression language describing reaction
//! networks into an in-memory model: one interned universe of entities and,
//! for every declared site, a list of reaction rules.

pub mod ast;
pub mod entity;
pub mod grammar_laws;
pub mod ground;
pub mod ground_laws;
pub mod lexer;
pub mod model;
pub mod parser;
pub mod reaction;
pub mod site;
pub mod source;
pub mod state;
pub mod token;
pub mod validate;

pub use entity::{Entity, EntitySet};
pub use ground::Ground;
pub use model::Ersatz;
pub use reaction::Reaction;
pub use site::Site;
pub use source::Source;
pub use state::State;
