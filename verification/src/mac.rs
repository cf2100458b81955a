//! The MAC capability: computing and verifying message authentication
//! codes. Consumed by applications; no implementation is supplied here.
use vstd::prelude::*;

use crate::errors::TinkError;

verus! {

/// The MAC capability an algorithm implementation must satisfy.
pub trait Mac {
    fn compute_mac(data: &[u8]) -> Result<Vec<u8>, TinkError>;

    fn verify_mac(mac: &[u8], data: &[u8]) -> Result<(), TinkError>;
}

} // verus!
