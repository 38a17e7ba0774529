//! Random tokens, drawn with the `rand` crate.

use vstd::prelude::*;
use rand::distributions::Alphanumeric;
use rand::{thread_rng, Rng};

verus! {

/// An ASCII letter or digit.
pub open spec fn is_alphanumeric(b: u8) -> bool {
    (48 <= b <= 57) || (65 <= b <= 90) || (97 <= b <= 122)
}

/// A token of `n` ASCII letters and digits.
pub open spec fn is_token(s: Seq<u8>, n: nat) -> bool {
    s.len() == n && forall|i: int| 0 <= i < s.len() ==> is_alphanumeric(#[trigger] s[i])
}

/// `Rng::sample_iter` over `Alphanumeric` on `thread_rng()`: each sample is one of the
/// 62 ASCII letters and digits, and `take(n)` of the endless iterator gives `n` of them.
/// Which ones is left open.
#[verifier::external_body]
pub(crate) fn sample_alphanumeric(n: usize) -> (r: Vec<u8>)
    ensures
        is_token(r@, n as nat),
{
    let mut rng = thread_rng();
    rng.sample_iter(&Alphanumeric).take(n).map(|c: char| c as u8).collect()
}

} // verus!
