//! Turns the JSON description of an API function into documentation
//! comments.

pub mod api_docs_generator;
pub mod normal_form;
pub mod schema;
pub mod signature;
pub mod transform_input;
