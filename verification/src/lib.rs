use vstd::prelude::*;

pub mod text;
pub mod model;
pub mod path;
pub mod detect;
pub mod exec;
pub mod scan;
pub mod graph;
pub mod output;
pub mod json;
pub mod cli;

verus! {
}
