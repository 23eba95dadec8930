//! Background measurement jobs with a single-flight status cell, the parser
//! for their result artifact, and the decisions around DNS record sync.

pub mod artifact;
pub mod configure;
pub mod job;
pub mod namesilo;
pub mod response;
pub mod runner;
pub mod state;
mod text;
