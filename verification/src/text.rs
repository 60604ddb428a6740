//! Decoding of fixed-size C string fields of the native records.
//!
//! Names and version strings arrive as NUL-padded byte arrays.  The scan
//! for the terminator is verified; only the UTF-8 validation itself is
//! delegated to the standard library through one trusted wrapper, whose
//! result is named by `utf8_decoded`.

use vstd::prelude::*;

use crate::error::DecodeError;

verus! {

/// What `String::from_utf8` returns on a byte sequence: the decoded
/// characters when the bytes are valid UTF-8, nothing otherwise.  The
/// result depends on the bytes alone.
pub uninterp spec fn utf8_decoded(bytes: Seq<u8>) -> Option<Seq<char>>;

/// Relies on `String::from_utf8`: it succeeds exactly on valid UTF-8 and
/// returns the decoded characters of the input bytes.
#[verifier::external_body]
fn utf8_to_string(bytes: Vec<u8>) -> (r: Option<String>)
    ensures
        r is Some <==> utf8_decoded(bytes@) is Some,
        r matches Some(s) ==> utf8_decoded(bytes@) == Some(s@),
{
    String::from_utf8(bytes).ok()
}

/// Index of the first NUL byte of `s`, or the length when none occurs:
/// where the text of a NUL-padded field ends.
pub open spec fn spec_c_strlen(s: Seq<u8>) -> int
    decreases s.len(),
{
    if s.len() == 0 {
        0
    } else if s[0] == 0 {
        0
    } else {
        1 + spec_c_strlen(s.skip(1))
    }
}

/// The text bytes of a NUL-padded field: everything before the first NUL.
pub open spec fn spec_c_prefix(s: Seq<u8>) -> Seq<u8> {
    s.take(spec_c_strlen(s))
}

/// `spec_c_strlen` really points at the first NUL: everything before it
/// is nonzero, and it is either the length or a NUL position.
proof fn lemma_c_strlen(s: Seq<u8>)
    ensures
        0 <= spec_c_strlen(s) <= s.len(),
        forall|i: int| 0 <= i < spec_c_strlen(s) ==> s[i] != 0,
        spec_c_strlen(s) < s.len() ==> s[spec_c_strlen(s)] == 0,
    decreases s.len(),
{
    if s.len() > 0 && s[0] != 0 {
        lemma_c_strlen(s.skip(1));
        assert forall|i: int| 0 <= i < spec_c_strlen(s) implies s[i] != 0 by {
            if i > 0 {
                assert(s.skip(1)[i - 1] == s[i]);
                assert(s.skip(1)[i - 1] != 0);
            }
        }
        if spec_c_strlen(s) < s.len() {
            assert(s.skip(1)[spec_c_strlen(s) - 1] == s[spec_c_strlen(s)]);
        }
    }
}

/// Decode a NUL-padded byte field into a `String`: the bytes before the
/// first NUL must be valid UTF-8, else the field is `InvalidTextEncoding`.
pub fn decode_c_string(bytes: &Vec<u8>) -> (r: Result<String, DecodeError>)
    ensures
        r is Ok <==> utf8_decoded(spec_c_prefix(bytes@)) is Some,
        r matches Ok(s) ==> utf8_decoded(spec_c_prefix(bytes@)) == Some(s@),
        r is Err ==> r == Err::<String, DecodeError>(DecodeError::InvalidTextEncoding),
{
    proof {
        lemma_c_strlen(bytes@);
    }
    let len: usize = bytes.len();
    let mut prefix: Vec<u8> = Vec::new();
    let mut i: usize = 0;
    while i < len && bytes[i] != 0
        invariant
            i <= len,
            len == bytes@.len(),
            prefix@ == bytes@.take(i as int),
            forall|j: int| 0 <= j < i ==> bytes@[j] != 0,
        decreases len - i,
    {
        prefix.push(bytes[i]);
        proof {
            assert(prefix@ =~= bytes@.take(i as int + 1));
        }
        i = i + 1;
    }
    proof {
        lemma_c_strlen(bytes@);
        if i < len {
            lemma_c_strlen_converse(bytes@, i as int);
        } else {
            if spec_c_strlen(bytes@) < len {
                assert(bytes@[spec_c_strlen(bytes@)] == 0);
            }
        }
        assert(i as int == spec_c_strlen(bytes@));
        assert(prefix@ == spec_c_prefix(bytes@));
    }
    match utf8_to_string(prefix) {
        Some(s) => Ok(s),
        None => Err(DecodeError::InvalidTextEncoding),
    }
}

/// If everything before `i` is nonzero and `s[i]` is zero, then `i` is
/// the first NUL.
proof fn lemma_c_strlen_converse(s: Seq<u8>, i: int)
    requires
        0 <= i < s.len(),
        s[i] == 0,
        forall|j: int| 0 <= j < i ==> s[j] != 0,
    ensures
        spec_c_strlen(s) == i,
{
    lemma_c_strlen(s);
    if spec_c_strlen(s) < i {
        assert(s[spec_c_strlen(s)] == 0);
    }
    if spec_c_strlen(s) > i {
        assert(s[i] != 0);
    }
}

} // verus!
