//! Admission: decides from what is known of a path whether it may
//! be overwritten.

use vstd::prelude::*;
use crate::error::ShredError;

verus! {

/// What the file system reports about a path.
#[derive(Clone, Copy, Debug, PartialEq, Eq, Structural)]
pub struct PathFacts {
    /// Something exists at the path, after following links.
    pub exists: bool,
    /// The path itself is a symbolic link.
    pub is_symlink: bool,
    /// The path leads to a regular file.
    pub is_file: bool,
    /// The file's permissions forbid writing.
    pub read_only: bool,
    /// The file's length in bytes.
    pub len: u64,
}

/// What remains to be done for an admitted path.
#[derive(Clone, Copy, Debug, PartialEq, Eq, Structural)]
pub struct Admission {
    /// The file is empty: the operator is told so, nothing is aborted.
    pub warn_empty: bool,
    /// The operator must confirm before the file is touched.
    pub needs_confirmation: bool,
}

/// The first condition that `facts` fails, if any, in admission order.
pub open spec fn first_refusal(facts: PathFacts) -> Option<ShredError> {
    if !facts.exists {
        Some(ShredError::NotFound)
    } else if facts.is_symlink {
        Some(ShredError::RefusedSymlink)
    } else if !facts.is_file {
        Some(ShredError::NotAFile)
    } else if facts.read_only {
        Some(ShredError::ReadOnly)
    } else {
        None
    }
}

/// The outcome of admission for a path with `facts`.
pub open spec fn admission_of(facts: PathFacts, force: bool) -> Result<Admission, ShredError> {
    match first_refusal(facts) {
        Some(e) => Err(e),
        None => Ok(Admission { warn_empty: facts.len == 0, needs_confirmation: !force }),
    }
}

/// Admits a path when it exists, is no symbolic link, is a regular file and
/// is writable, tested in that order. An admitted empty file is flagged for a warning; without
/// `force` the operator must still confirm.
pub fn validate_file(facts: &PathFacts, force: bool) -> (r: Result<Admission, ShredError>)
    ensures
        r == admission_of(*facts, force),
{
    if !facts.exists {
        Err(ShredError::NotFound)
    } else if facts.is_symlink {
        Err(ShredError::RefusedSymlink)
    } else if !facts.is_file {
        Err(ShredError::NotAFile)
    } else if facts.read_only {
        Err(ShredError::ReadOnly)
    } else {
        Ok(Admission { warn_empty: facts.len == 0, needs_confirmation: !force })
    }
}

/// A symbolic link is refused whatever it points at, with or without `force`.
pub proof fn lemma_symlink_refused(facts: PathFacts, force: bool)
    requires
        facts.exists,
        facts.is_symlink,
    ensures
        admission_of(facts, force) == Err::<Admission, ShredError>(ShredError::RefusedSymlink),
{
}

/// A read-only regular file is refused, with or without `force`.
pub proof fn lemma_read_only_refused(facts: PathFacts, force: bool)
    requires
        facts.exists,
        !facts.is_symlink,
        facts.is_file,
        facts.read_only,
    ensures
        admission_of(facts, force) == Err::<Admission, ShredError>(ShredError::ReadOnly),
{
}

/// Unicode's White_Space characters, which trimming removes.
pub open spec fn is_white_space(c: char) -> bool {
    let u = c as u32;
    (0x9 <= u <= 0xD) || u == 0x20 || u == 0x85 || u == 0xA0 || u == 0x1680 || (0x2000 <= u
        <= 0x200A) || u == 0x2028 || u == 0x2029 || u == 0x202F || u == 0x205F || u == 0x3000
}

fn white_space(c: char) -> (r: bool)
    ensures
        r == is_white_space(c),
{
    let u = c as u32;
    (0x9 <= u && u <= 0xD) || u == 0x20 || u == 0x85 || u == 0xA0 || u == 0x1680 || (0x2000 <= u
        && u <= 0x200A) || u == 0x2028 || u == 0x2029 || u == 0x202F || u == 0x205F || u == 0x3000
}

/// An answer confirms when, white space at both ends removed, it is the
/// single letter `y` in either case.
pub open spec fn confirms(s: Seq<char>) -> bool {
    exists|k: int|
        0 <= k < s.len() && (s[k] == 'y' || s[k] == 'Y') && forall|i: int|
            0 <= i < s.len() && i != k ==> is_white_space(#[trigger] s[i])
}

/// The characters of a string, in order.
pub(crate) fn chars_of(s: &str) -> (r: Vec<char>)
    ensures
        r@ == s@,
{
    let n = s.unicode_len();
    let mut cs: Vec<char> = Vec::new();
    let mut k: usize = 0;
    while k < n
        invariant
            k <= n == s@.len(),
            cs@ == s@.take(k as int),
        decreases n - k,
    {
        cs.push(s.get_char(k));
        k = k + 1;
        assert(cs@ =~= s@.take(k as int));
    }
    assert(s@.take(n as int) =~= s@);
    cs
}

/// Whether the operator's answer to the confirmation prompt admits the file.
pub fn answer_confirms(answer: &str) -> (r: bool)
    ensures
        r == confirms(answer@),
{
    let cs = chars_of(answer);
    let n = cs.len();
    let mut lo: usize = 0;
    while lo < n && white_space(cs[lo])
        invariant
            lo <= n == cs@.len(),
            forall|i: int| 0 <= i < lo ==> is_white_space(#[trigger] cs@[i]),
        decreases n - lo,
    {
        lo = lo + 1;
    }
    let mut hi: usize = n;
    while hi > lo && white_space(cs[hi - 1])
        invariant
            lo <= hi <= n == cs@.len(),
            forall|i: int| hi <= i < n ==> is_white_space(#[trigger] cs@[i]),
            lo < n ==> !is_white_space(cs@[lo as int]),
        decreases hi,
    {
        hi = hi - 1;
    }
    let r = hi - lo == 1 && (cs[lo] == 'y' || cs[lo] == 'Y');
    proof {
        if r {
            assert forall|i: int| 0 <= i < cs@.len() && i != lo implies is_white_space(
                #[trigger] cs@[i],
            ) by {}
        } else if confirms(cs@) {
            let k = choose|k: int|
                0 <= k < cs@.len() && (cs@[k] == 'y' || cs@[k] == 'Y') && forall|i: int|
                    0 <= i < cs@.len() && i != k ==> is_white_space(#[trigger] cs@[i]);
            assert(!is_white_space(cs@[k]));
            if (lo as int) < k {
                assert(is_white_space(cs@[lo as int]));
            }
            assert(lo == k);
            if (hi as int) > k + 1 {
                assert(is_white_space(cs@[hi - 1]));
            }
            assert(hi == k + 1);
        }
    }
    r
}

/// The last step of admission: the operator's answer, when one was asked for.
pub fn confirm_answer(answer: &str) -> (r: Result<(), ShredError>)
    ensures
        r is Ok <==> confirms(answer@),
        r is Err ==> r->Err_0 == ShredError::AbortedByUser,
{
    if answer_confirms(answer) {
        Ok(())
    } else {
        Err(ShredError::AbortedByUser)
    }
}

} // verus!
