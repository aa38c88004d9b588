//! Object keys: a random identifier followed by a dot and a file extension.

use vstd::prelude::*;

verus! {

/// Number of characters of the random part of an object key.
pub const RANDOM_ID_LENGTH: usize = 10;

/// A character of the URL-safe alphabet that random identifiers are drawn from.
pub open spec fn is_id_char(c: char) -> bool {
    c == '_' || c == '-' || ('0' <= c && c <= '9') || ('a' <= c && c <= 'z') || ('A' <= c
        && c <= 'Z')
}

/// `id` has the shape of a random identifier.
pub open spec fn is_random_id(id: Seq<char>) -> bool {
    &&& id.len() == RANDOM_ID_LENGTH
    &&& forall|i: int| 0 <= i < id.len() ==> is_id_char(#[trigger] id[i])
}

/// The key made of identifier `id` and file extension `extension`.
pub open spec fn key_of(id: Seq<char>, extension: Seq<char>) -> Seq<char> {
    id + seq!['.'] + extension
}

/// Relies on nanoid::format, called with nanoid's default random source and
/// its URL-safe alphabet: it returns exactly the requested number of
/// characters, each one from that alphabet.
#[verifier::external_body]
fn random_identifier() -> (r: String)
    ensures
        is_random_id(r@),
{
    nanoid::format(nanoid::rngs::default, &nanoid::alphabet::SAFE, RANDOM_ID_LENGTH)
}

/// Joins an identifier and a file extension into an object key.
pub fn object_key(id: &str, extension: &str) -> (r: String)
    ensures
        r@ == key_of(id@, extension@),
{
    let mut key = String::from_str(id);
    proof {
        reveal_strlit(".");
    }
    key.append(".");
    key.append(extension);
    key
}

/// A fresh object key: a random identifier, a dot, then `file_extension`.
pub fn generate_random_key(file_extension: &str) -> (r: String)
    ensures
        exists|id: Seq<char>| is_random_id(id) && r@ == key_of(id, file_extension@),
{
    let id = random_identifier();
    let key = object_key(id.as_str(), file_extension);
    assert(is_random_id(id@) && key@ == key_of(id@, file_extension@));
    key
}

} // verus!
