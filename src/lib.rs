use vstd::prelude::*;

pub mod handler;
pub mod history;
pub mod parser;
pub mod render;
mod text;

verus! {

} // verus!
