//! From keys to file name stems.
//!
//! A key is hashed with SHA-256, the hash is written in standard base64, and
//! every path separator is taken out of that text. The stem never holds a `/`,
//! whatever the key holds.

use base64::engine::general_purpose::STANDARD;
use base64::engine::Engine;
use sha2::{Digest, Sha256};
use vstd::prelude::*;
use vstd::std_specs::iter::IteratorSpec;
use vstd::string::StringSliceAdditionalSpecFns;

verus! {

broadcast use vstd::string::group_string_axioms;

/// The character that separates the components of a path.
pub open spec fn is_separator(c: char) -> bool {
    c == '/'
}

/// `text` without its path separators, the other characters in their order.
pub open spec fn strip_separators(text: Seq<char>) -> Seq<char> {
    text.filter(|c: char| !is_separator(c))
}

/// `String::push` appends one character to the end of the string.
pub assume_specification[ String::push ](s: &mut String, c: char)
    ensures
        final(s)@ == old(s)@.push(c),
;

/// Removes every `/` from `input`.
pub fn into_valid_file_name(input: &str) -> (name: String)
    ensures
        name@ == strip_separators(input@),
{
    let mut name = String::new();
    let mut rest = input.chars();
    let ghost mut seen: int = 0;
    proof {
        reveal(Seq::filter);
        assert(input@.take(0) =~= Seq::<char>::empty());
        assert(input@.skip(0) =~= input@);
    }
    loop
        invariant
            0 <= seen <= input@.len(),
            rest.obeys_prophetic_iter_laws(),
            rest.remaining() == input@.skip(seen),
            name@ == strip_separators(input@.take(seen)),
        ensures
            name@ == strip_separators(input@),
        decreases input@.len() - seen,
    {
        match rest.next() {
            Some(c) => {
                proof {
                    reveal(Seq::filter);
                    let longer = input@.take(seen + 1);
                    assert(longer.drop_last() =~= input@.take(seen));
                    assert(longer.last() == c);
                    assert(input@.skip(seen).drop_first() =~= input@.skip(seen + 1));
                    seen = seen + 1;
                }
                if c != '/' {
                    name.push(c);
                }
            },
            None => {
                proof {
                    assert(input@.take(seen) =~= input@);
                }
                break ;
            },
        }
    }
    name
}

/// The SHA-256 hash of `data`.
pub uninterp spec fn sha256(data: Seq<u8>) -> Seq<u8>;

/// `data` written in base64, with the standard alphabet and padding.
pub uninterp spec fn base64_standard(data: Seq<u8>) -> Seq<char>;

/// The number of bytes in a SHA-256 hash.
pub const HASH_BYTES: usize = 32;

/// An upper bound on the length of a stem: the base64 text of one hash.
pub const MAX_STEM_LEN: usize = 44;

/// The characters of standard base64: letters, digits, `+`, `/`, and the
/// padding `=`.
pub open spec fn is_base64_char(c: char) -> bool {
    ||| 'A' <= c <= 'Z'
    ||| 'a' <= c <= 'z'
    ||| '0' <= c <= '9'
    ||| c == '+'
    ||| c == '/'
    ||| c == '='
}

/// The characters a stem can hold: those of base64 but the separator.
pub open spec fn is_stem_char(c: char) -> bool {
    is_base64_char(c) && !is_separator(c)
}

/// The stem of `key`: the base64 text of the SHA-256 hash of the key's
/// bytes, without its separators.
pub open spec fn key_digest(key: Seq<char>) -> Seq<char> {
    strip_separators(base64_standard(sha256(vstd::utf8::encode_utf8(key))))
}

/// Calls `sha2::Sha256::digest`. Trusted: the bytes returned are the SHA-256
/// hash of `data`, and there are 32 of them.
#[verifier::external_body]
fn sha256_digest(data: &[u8]) -> (hash: Vec<u8>)
    ensures
        hash@ == sha256(data@),
        hash@.len() == HASH_BYTES,
{
    Sha256::digest(data).to_vec()
}

/// Calls `encode` of `base64::engine::general_purpose::STANDARD`. Trusted:
/// the text returned is the padded standard base64 of `data`, of four
/// characters for every three bytes begun, all of them from the base64
/// alphabet or `=`. The length is required to fit, since `encode` panics
/// where it does not.
#[verifier::external_body]
fn base64_encode(data: &[u8]) -> (text: String)
    requires
        4 * ((data@.len() + 2) / 3) <= usize::MAX,
    ensures
        text@ == base64_standard(data@),
        text@.len() == 4 * ((data@.len() + 2) / 3),
        forall|i: int| 0 <= i < text@.len() ==> is_base64_char(#[trigger] text@[i]),
{
    STANDARD.encode(data)
}

/// Every character that `strip_separators` keeps was in the text, and is no
/// separator; and it keeps no more characters than there were.
pub proof fn lemma_strip_separators(text: Seq<char>)
    ensures
        strip_separators(text).len() <= text.len(),
        forall|i: int|
            0 <= i < strip_separators(text).len() ==> {
                &&& !is_separator(#[trigger] strip_separators(text)[i])
                &&& text.contains(strip_separators(text)[i])
            },
{
    let keep = |c: char| !is_separator(c);
    let stripped = text.filter(keep);
    text.lemma_filter_len(keep);
    assert forall|i: int| 0 <= i < stripped.len() implies {
        &&& !is_separator(#[trigger] stripped[i])
        &&& text.contains(stripped[i])
    } by {
        text.lemma_filter_pred(keep, i);
        assert(stripped.contains(stripped[i]));
        text.lemma_filter_contains_rev(keep, stripped[i]);
    }
}

/// The file name stem of `key`.
pub fn hash_key(key: &str) -> (stem: String)
    ensures
        stem@ == key_digest(key@),
        stem@.len() <= MAX_STEM_LEN,
        forall|i: int| 0 <= i < stem@.len() ==> is_stem_char(#[trigger] stem@[i]),
{
    let hash = sha256_digest(key.as_bytes());
    let encoded = base64_encode(hash.as_slice());
    let stem = into_valid_file_name(encoded.as_str());
    proof {
        lemma_strip_separators(encoded@);
        assert forall|i: int| 0 <= i < stem@.len() implies is_stem_char(#[trigger] stem@[i]) by {
            let c = stem@[i];
            assert(encoded@.contains(c));
            let j = choose|j: int| 0 <= j < encoded@.len() && encoded@[j] == c;
            assert(is_base64_char(encoded@[j]));
        }
    }
    stem
}

} // verus!
