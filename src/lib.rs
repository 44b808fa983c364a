use vstd::prelude::*;

pub mod ast;
pub mod builders;
pub mod classify;
pub mod connector_error;
pub mod datamodel;
pub mod introspection;
pub mod laws;
pub mod model_builder;
pub mod dedup;
pub mod naming;
pub mod native_types;
pub mod schema;

verus! {

} // verus!
