//! Text helpers shared by the font store and the resource cache.

use vstd::prelude::*;

verus! {

/// What `str::to_lowercase` returns for a given character sequence. The
/// result depends on the characters alone.
pub uninterp spec fn lower_of(s: Seq<char>) -> Seq<char>;

/// Relies on `str::to_lowercase`: the Unicode lowercase form of a string,
/// a deterministic function of its characters.
#[verifier::external_body]
pub fn lowercase(s: &str) -> (r: String)
    ensures
        r@ == lower_of(s@),
{
    s.to_lowercase()
}

/// What `String::from_utf8` decodes a byte sequence to: `Some` with the
/// character sequence when the bytes are valid UTF-8, `None` otherwise.
pub uninterp spec fn utf8_of(bytes: Seq<u8>) -> Option<Seq<char>>;

/// Relies on `String::from_utf8`: decodes bytes as UTF-8 text, a
/// deterministic function of the bytes.
#[verifier::external_body]
pub fn decode_utf8(bytes: Vec<u8>) -> (r: Option<String>)
    ensures
        match r {
            Some(s) => utf8_of(bytes@) == Some(s@),
            None => utf8_of(bytes@) is None,
        },
{
    String::from_utf8(bytes).ok()
}

/// Whether two string slices spell the same character sequence.
pub fn str_eq(a: &str, b: &str) -> (r: bool)
    ensures
        r == (a@ == b@),
{
    let oa: String = a.to_owned();
    let ob: String = b.to_owned();
    oa == ob
}

} // verus!
