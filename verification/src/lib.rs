use vstd::prelude::*;

pub mod decimal;
pub mod help;
pub mod rawmode;
pub mod terminal;
pub mod text;

verus! {

} // verus!
