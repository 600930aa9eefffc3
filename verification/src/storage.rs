//! Keys the user chose to keep.

use vstd::prelude::*;

verus! {

/// A generated key saved to the vault, with what it was generated as.
#[derive(Debug, Clone)]
pub struct SavedKey {
    pub gen_type: String,
    pub length: usize,
    pub entropy_bits: u32,
    pub value: String,
}

impl View for SavedKey {
    type V = (Seq<char>, usize, u32, Seq<char>);

    open spec fn view(&self) -> Self::V {
        (self.gen_type@, self.length, self.entropy_bits, self.value@)
    }
}

} // verus!
