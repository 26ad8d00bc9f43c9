use vstd::prelude::*;
use rand::Rng;

verus! {

/// True for the ASCII letters and digits.
pub open spec fn is_ascii_alphanumeric(c: char) -> bool {
    ('a' <= c && c <= 'z') || ('A' <= c && c <= 'Z') || ('0' <= c && c <= '9')
}

/// A random suffix for the file names of new notes: seven characters drawn from the ASCII
/// letters and digits by `rand`'s thread generator and its `Alphanumeric` distribution.
/// Which characters come out is left unsaid: it is chance.
#[verifier::external_body]
pub fn rand_suffix() -> (s: String)
    ensures
        s@.len() == 7,
        forall|i: int| 0 <= i < 7 ==> is_ascii_alphanumeric(#[trigger] s@[i]),
{
    rand::thread_rng().sample_iter(&rand::distributions::Alphanumeric).take(7).map(char::from).collect()
}

} // verus!
