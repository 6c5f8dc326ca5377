use vstd::prelude::*;

verus! {

/// The picture processing unit; it holds no state yet.
pub struct Ppu {}

impl Ppu {
    #[allow(dead_code)]
    fn new() {
    }
}

} // verus!
