use vstd::prelude::*;

pub mod backoff;
pub mod duration;
pub mod fatal_alert;
pub mod http;
pub mod json;
pub mod jwt;
pub mod setup_llm;
pub mod text;

verus! {

} // verus!
