//! Query planning, natural-language filter extraction and pagination rules
//! for a service that searches demographic profiles.

pub mod filters;
pub mod handlers;
pub mod nlp;
pub mod services;
pub mod utils;
pub mod text;
