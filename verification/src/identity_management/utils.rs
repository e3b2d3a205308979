//! Random identifiers.

use rand::Rng;
use vstd::prelude::*;

verus! {

/// What can go wrong with an identity on its way to or from text.
#[derive(Debug)]
pub enum IdentityError {
    /// The identity could not be written out; the reason is attached.
    SerializationError(String),
    /// The text could not be read as an identity; the reason is attached.
    DeserializationError(String),
    /// A random identifier of no length was asked for.
    InvalidLength,
}

/// The characters that a random identifier is made of: the ASCII letters and
/// digits.
pub open spec fn is_id_char(c: char) -> bool {
    ||| 'a' <= c <= 'z'
    ||| 'A' <= c <= 'Z'
    ||| '0' <= c <= '9'
}

/// `Rng::gen_range` of the thread's random number generator on the range
/// from zero to `bound`. Claimed of it: the number is below `bound`.
#[verifier::external_body]
fn random_below(bound: usize) -> (n: usize)
    requires
        bound > 0,
    ensures
        n < bound,
{
    rand::thread_rng().gen_range(0..bound)
}

/// `String::push`: appends one character.
#[verifier::external_body]
fn push_char(s: &mut String, c: char)
    ensures
        final(s)@ == old(s)@.push(c),
{
    s.push(c)
}

/// The `n`-th character of the alphabet: the small letters, then the
/// capitals, then the digits.
pub fn id_char(n: usize) -> (c: char)
    requires
        n < 62,
    ensures
        is_id_char(c),
        c == id_char_at(n as int),
{
    if n < 26 {
        (('a' as u8) + (n as u8)) as char
    } else if n < 52 {
        (('A' as u8) + ((n - 26) as u8)) as char
    } else {
        (('0' as u8) + ((n - 52) as u8)) as char
    }
}

/// The `n`-th character of the alphabet.
pub open spec fn id_char_at(n: int) -> char {
    if n < 26 {
        (('a' as u8) + n) as u8 as char
    } else if n < 52 {
        (('A' as u8) + (n - 26)) as u8 as char
    } else {
        (('0' as u8) + (n - 52)) as u8 as char
    }
}

/// An identifier made of the characters that the alphabet has at the given
/// indices.
pub fn id_from_indices(indices: &Vec<usize>) -> (id: String)
    requires
        forall|i: int| 0 <= i < indices@.len() ==> indices@[i] < 62,
    ensures
        id@.len() == indices@.len(),
        forall|i: int| 0 <= i < id@.len() ==> id@[i] == id_char_at(indices@[i] as int),
        forall|i: int| 0 <= i < id@.len() ==> is_id_char(#[trigger] id@[i]),
{
    let mut id = String::new();
    let mut i: usize = 0;
    while i < indices.len()
        invariant
            i <= indices@.len(),
            forall|k: int| 0 <= k < indices@.len() ==> indices@[k] < 62,
            id@.len() == i,
            forall|k: int| 0 <= k < i ==> id@[k] == id_char_at(indices@[k] as int),
            forall|k: int| 0 <= k < i ==> is_id_char(#[trigger] id@[k]),
        decreases indices@.len() - i,
    {
        push_char(&mut id, id_char(indices[i]));
        i += 1;
    }
    id
}

/// A random identifier of `length` letters and digits. A length of zero is
/// refused.
pub fn generate_random_id(length: usize) -> (r: Result<String, IdentityError>)
    ensures
        length == 0 ==> r matches Err(IdentityError::InvalidLength),
        length != 0 ==> {
            &&& r matches Ok(id)
            &&& id@.len() == length
            &&& forall|i: int| 0 <= i < id@.len() ==> is_id_char(#[trigger] id@[i])
        },
{
    if length == 0 {
        return Err(IdentityError::InvalidLength);
    }
    let mut indices: Vec<usize> = Vec::new();
    let mut i: usize = 0;
    while i < length
        invariant
            i <= length,
            indices@.len() == i,
            forall|k: int| 0 <= k < i ==> indices@[k] < 62,
        decreases length - i,
    {
        indices.push(random_below(62));
        i += 1;
    }
    Ok(id_from_indices(&indices))
}

} // verus!
