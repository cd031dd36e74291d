//! The identity obfuscator: before a file's entry is removed, the file is
//! renamed, in its own directory, to a random name of the same length.

use vstd::prelude::*;
use crate::error::ShredError;

verus! {

/// The final component of a path, as `Path::file_name` gives it.
pub uninterp spec fn file_name_of(path: Seq<char>) -> Option<Seq<char>>;

/// The path without its final component, as `Path::parent` gives it.
pub uninterp spec fn parent_of(path: Seq<char>) -> Option<Seq<char>>;

/// A directory path and a name joined, as `Path::join` gives it.
pub uninterp spec fn joined(dir: Seq<char>, name: Seq<char>) -> Seq<char>;

/// Relies on `std::path::Path::file_name`: the final component of the path,
/// if it has one (a path read from a `str` is valid UTF-8 throughout).
#[verifier::external_body]
fn file_name(path: &str) -> (r: Option<String>)
    ensures
        r is Some <==> file_name_of(path@) is Some,
        r is Some ==> r->0@ == file_name_of(path@)->0,
{
    std::path::Path::new(path).file_name().map(|n| n.to_string_lossy().into_owned())
}

/// Relies on `std::path::Path::parent`: the path without its final
/// component, if it has one.
#[verifier::external_body]
fn parent(path: &str) -> (r: Option<String>)
    ensures
        r is Some <==> parent_of(path@) is Some,
        r is Some ==> r->0@ == parent_of(path@)->0,
{
    std::path::Path::new(path).parent().map(|p| p.to_string_lossy().into_owned())
}

/// Relies on `std::path::Path::join`: `name` appended to `dir`.
#[verifier::external_body]
fn join(dir: &str, name: &str) -> (r: String)
    ensures
        r@ == joined(dir@, name@),
{
    std::path::Path::new(dir).join(name).to_string_lossy().into_owned()
}

/// Number of letters that an obscured name is drawn from: `a` to `z`.
pub const ALPHABET_LEN: u8 = 26;

/// Relies on rand's `random_range`: a value drawn uniformly from
/// `0..bound`, which must not be empty.
#[verifier::external_body]
fn random_below(bound: u8) -> (r: u8)
    requires
        bound > 0,
    ensures
        r < bound,
{
    rand::random_range(0u8..bound)
}

/// Relies on `String`'s `FromIterator<char>`: the characters in order.
#[verifier::external_body]
fn string_of(cs: &Vec<char>) -> (r: String)
    ensures
        r@ == cs@,
{
    cs.iter().collect()
}

/// The letter with index `i` of `a..=z`.
pub open spec fn letter_at(i: u8) -> char {
    (97 + i) as u8 as char
}

pub open spec fn is_lower_letter(c: char) -> bool {
    'a' <= c <= 'z'
}

/// The directory that holds the file at `path`: its parent, or `.` where
/// the parent is missing or empty (a bare file name).
pub open spec fn directory_of(path: Seq<char>) -> Seq<char> {
    match parent_of(path) {
        Some(d) => if d.len() == 0 {
            seq!['.']
        } else {
            d
        },
        None => seq!['.'],
    }
}

/// Where an obscured file is renamed to, and the directory to flush.
pub struct ObscurePlan {
    pub directory: String,
    pub new_name: String,
    pub new_path: String,
}

/// The name spelt by letter indices in `0..ALPHABET_LEN`.
pub fn letters_from(indices: &Vec<u8>) -> (r: String)
    requires
        forall|i: int| 0 <= i < indices@.len() ==> indices@[i] < ALPHABET_LEN,
    ensures
        r@ == indices@.map_values(|i: u8| letter_at(i)),
{
    let mut cs: Vec<char> = Vec::new();
    let mut k: usize = 0;
    while k < indices.len()
        invariant
            k <= indices@.len(),
            forall|i: int| 0 <= i < indices@.len() ==> indices@[i] < ALPHABET_LEN,
            cs@ == indices@.take(k as int).map_values(|i: u8| letter_at(i)),
        decreases indices@.len() - k,
    {
        let c = (97 + indices[k]) as char;
        cs.push(c);
        k = k + 1;
        assert(cs@ =~= indices@.take(k as int).map_values(|i: u8| letter_at(i)));
    }
    assert(indices@.take(k as int) =~= indices@);
    string_of(&cs)
}

/// A fresh random name of `len` lowercase letters.
pub fn random_name(len: usize) -> (r: String)
    ensures
        r@.len() == len,
        forall|i: int| 0 <= i < len ==> is_lower_letter(#[trigger] r@[i]),
{
    let mut indices: Vec<u8> = Vec::new();
    let mut k: usize = 0;
    while k < len
        invariant
            k <= len,
            indices@.len() == k,
            forall|i: int| 0 <= i < k ==> indices@[i] < ALPHABET_LEN,
        decreases len - k,
    {
        indices.push(random_below(ALPHABET_LEN));
        k = k + 1;
    }
    let r = letters_from(&indices);
    assert forall|i: int| 0 <= i < len implies is_lower_letter(#[trigger] r@[i]) by {
        assert(r@[i] == letter_at(indices@[i]));
    }
    r
}

/// Plans the renaming of the file at `path`: the directory that holds it,
/// a random name of as many characters as its own, and the path that joins
/// the two. Fails with `InvalidName` when the path has no final component.
pub fn wipe_filename(path: &str) -> (r: Result<ObscurePlan, ShredError>)
    ensures
        r is Err <==> file_name_of(path@) is None,
        r is Err ==> r->Err_0 == ShredError::InvalidName,
        r is Ok ==> {
            let p = r->Ok_0;
            &&& p.directory@ == directory_of(path@)
            &&& p.new_name@.len() == file_name_of(path@)->0.len()
            &&& forall|i: int| 0 <= i < p.new_name@.len() ==> is_lower_letter(#[trigger] p.new_name@[i])
            &&& p.new_path@ == joined(p.directory@, p.new_name@)
        },
{
    let name = match file_name(path) {
        Some(n) => n,
        None => return Err(ShredError::InvalidName),
    };
    proof {
        reveal_strlit(".");
    }
    let directory = match parent(path) {
        Some(d) => if d.as_str().unicode_len() == 0 {
            ".".to_owned()
        } else {
            d
        },
        None => ".".to_owned(),
    };
    assert(directory@ == directory_of(path@));
    let count = name.as_str().unicode_len();
    let new_name = random_name(count);
    let new_path = join(directory.as_str(), new_name.as_str());
    Ok(ObscurePlan { directory, new_name, new_path })
}

} // verus!
