use vstd::prelude::*;

verus! {

/// What bcrypt says of a password and a stored hash: whether the password
/// is the one that was hashed, or why the hash cannot be read.
pub uninterp spec fn bcrypt_verdict(password: Seq<char>, hash: Seq<char>) -> Result<bool, Seq<char>>;

/// `bcrypt::verify` takes the cost and the salt from the stored hash,
/// hashes the password with them and compares; it fails, with an error
/// that is handed on as its text, where the stored hash is malformed. The
/// answer depends on the two texts alone.
#[verifier::external_body]
pub(crate) fn bcrypt_verify(password: &str, hash: &str) -> (r: Result<bool, String>)
    ensures
        match r {
            Ok(same) => bcrypt_verdict(password@, hash@) == Ok::<bool, Seq<char>>(same),
            Err(why) => bcrypt_verdict(password@, hash@) == Err::<bool, Seq<char>>(why@),
        },
{
    match bcrypt::verify(password, hash) {
        Ok(same) => Ok(same),
        Err(why) => Err(why.to_string()),
    }
}

/// `bcrypt::hash` hashes the password with a salt that it draws at random,
/// so that two calls differ; it fails, with an error that is handed on as its
/// text, where the cost is out of range or no randomness can be had.
/// Nothing is promised of the result.
#[verifier::external_body]
pub(crate) fn bcrypt_hash(password: &str, cost: u32) -> (r: Result<String, String>) {
    match bcrypt::hash(password, cost) {
        Ok(hashed) => Ok(hashed),
        Err(why) => Err(why.to_string()),
    }
}

/// A number below `bound`, drawn at random: what
/// `rand::Rng::gen_range` gives for the range from 0 up to, and without,
/// `bound`. An empty range makes it panic, so the bound is positive.
#[verifier::external_body]
pub(crate) fn random_below(bound: u32) -> (r: u32)
    requires
        bound > 0,
    ensures
        r < bound,
{
    rand::Rng::gen_range(&mut rand::thread_rng(), 0..bound)
}

} // verus!
