//! Colour of a worker's progress bar: the phase it is in.
use vstd::prelude::*;

verus! {

#[derive(Debug, Clone, Copy, PartialEq, Eq)]
pub enum BarColor {
    CYAN,
    MAGENTA,
    RED,
    GREEN,
}

impl Default for BarColor {
    fn default() -> (r: Self)
        ensures
            r == BarColor::CYAN,
    {
        BarColor::CYAN
    }
}

} // verus!
