use vstd::prelude::*;

verus! {

/// Multi-measure rest.
#[derive(Clone, Copy, PartialEq, Eq, Debug, Structural)]
pub struct MultipleRest {
    /// Number of measures of rest.
    pub count: u8,
    /// Draw with church-rest symbols.
    pub use_symbols: bool,
}

} // verus!
