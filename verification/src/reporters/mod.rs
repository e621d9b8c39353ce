use vstd::prelude::*;
use crate::scanner::ScanResult;

verus! {

/// Something that presents scan results.
pub trait Reporter {
    fn report(&self, results: &[ScanResult]);
}

} // verus!
