//! The difficulty predicate: does a digest start with the required number
//! of `'0'` characters?

use vstd::prelude::*;
use vstd::string::StrSliceExecFns;

verus! {

/// A digest meets a difficulty when it is at least that many characters
/// long and they are all `'0'`.  Difficulty 0 is met by every digest; a
/// digest shorter than the difficulty never meets it.
pub open spec fn meets_spec(digest: Seq<char>, difficulty: u32) -> bool {
    &&& difficulty <= digest.len()
    &&& forall|i: int| 0 <= i < difficulty ==> digest[i] == '0'
}

/// Decides whether the first `difficulty` characters of `hash` are all
/// `'0'`.
pub fn meets_difficulty(hash: &str, difficulty: u32) -> (r: bool)
    ensures
        r == meets_spec(hash@, difficulty),
{
    if difficulty == 0 {
        return true;
    }
    let len: usize = hash.unicode_len();
    if len < difficulty as usize {
        return false;
    }
    let mut i: usize = 0;
    while i < difficulty as usize
        invariant
            difficulty as usize <= len,
            len == hash@.len(),
            i <= difficulty,
            forall|j: int| 0 <= j < i ==> hash@[j] == '0',
        decreases difficulty - i,
    {
        if hash.get_char(i) != '0' {
            assert(!(hash@[i as int] == '0'));
            return false;
        }
        i = i + 1;
    }
    true
}

} // verus!
