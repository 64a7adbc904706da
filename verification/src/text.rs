//! Character-level helpers for option identifiers and tokens: kebab-case
//! conversion of identifiers and construction of long-form flag tokens.

use vstd::prelude::*;
use vstd::string::{StrSliceExecFns, StringExecFns, StringSliceAdditionalSpecFns};

verus! {

/// Replace every underscore by a hyphen, character for character.
pub open spec fn kebab_map(s: Seq<char>) -> Seq<char> {
    s.map_values(|c: char| if c == '_' { '-' } else { c })
}

/// The long-form flag token for an option identifier: `--` followed by the
/// kebab-case identifier.
pub open spec fn long_flag(id: Seq<char>) -> Seq<char> {
    "--"@ + kebab_map(id)
}

/// Relies on `str::replace` with a `char` pattern: every occurrence of the
/// character is replaced, character for character.
#[verifier::external_body]
fn replace_underscores(s: &str) -> (r: String)
    ensures
        r@ == kebab_map(s@),
{
    s.replace('_', "-")
}

/// Relies on `String::from_utf8`: a vector of bytes below 128 is valid
/// UTF-8 and decodes to the string whose characters are exactly those bytes.
#[verifier::external_body]
pub(crate) fn ascii_string(bytes: &Vec<u8>) -> (r: String)
    requires
        forall|i: int| 0 <= i < bytes@.len() ==> bytes@[i] < 128,
    ensures
        r@ == bytes@.map_values(|b: u8| b as char),
{
    String::from_utf8(bytes.clone()).unwrap()
}

/// Kebab-case an option identifier. The ASCII case — every identifier of
/// the schema — is computed and proved here; other identifiers go through
/// the standard replacement.
pub fn kebab(id: &str) -> (r: String)
    ensures
        r@ == kebab_map(id@),
{
    if !id.is_ascii() {
        return replace_underscores(id);
    }
    broadcast use vstd::string::is_ascii_spec_bytes;

    let bytes: &[u8] = id.as_bytes();
    let n: usize = bytes.len();
    let mut out: Vec<u8> = Vec::new();
    let mut i: usize = 0;
    while i < n
        invariant
            vstd::string::is_ascii(id),
            bytes@ == id.spec_bytes(),
            n == bytes@.len(),
            bytes@.len() == id@.len(),
            forall|j: int| 0 <= j < id@.len() ==> bytes@[j] == id@[j] as u8,
            forall|j: int| 0 <= j < id@.len() ==> bytes@[j] < 128,
            i <= n,
            out@.len() == i,
            forall|j: int|
                0 <= j < i ==> out@[j] == (if bytes@[j] == 95u8 {
                    45u8
                } else {
                    bytes@[j]
                }),
        decreases n - i,
    {
        let b: u8 = bytes[i];
        if b == 95u8 {
            out.push(45u8);
        } else {
            out.push(b);
        }
        i += 1;
    }
    assert(forall|j: int| 0 <= j < out@.len() ==> out@[j] < 128);
    let r = ascii_string(&out);
    proof {
        assert(r@ =~= kebab_map(id@)) by {
            assert forall|j: int| 0 <= j < id@.len() implies r@[j] == kebab_map(id@)[j] by {
                let c = id@[j];
                assert('\0' <= c <= '\u{7f}');
                if c == '_' {
                    assert(bytes@[j] == 95u8);
                    assert(r@[j] == 45u8 as char);
                    assert(45u8 as char == '-');
                } else {
                    assert(bytes@[j] == c as u8);
                    assert(bytes@[j] != 95u8);
                    assert(r@[j] == (c as u8) as char);
                    assert((c as u8) as char == c);
                }
            }
        }
    }
    r
}

/// Build the long-form flag token `--<kebab-case-identifier>`.
pub fn make_long_flag(id: &str) -> (r: String)
    ensures
        r@ == long_flag(id@),
        r@ == "--"@ + kebab_map(id@),
{
    let k = kebab(id);
    let r = String::from_str("--").concat(k.as_str());
    r
}

/// The character sequences of a sequence of strings.
pub open spec fn strs(v: Seq<String>) -> Seq<Seq<char>> {
    v.map_values(|s: String| s@)
}

pub proof fn lemma_strs_push(v: Seq<String>, x: String)
    ensures
        strs(v.push(x)) =~= strs(v).push(x@),
{
    assert forall|j: int| 0 <= j < v.len() + 1 implies strs(v.push(x))[j] == strs(v).push(x@)[j] by {
        if j < v.len() {
            assert(v.push(x)[j] == v[j]);
        } else {
            assert(v.push(x)[j] == x);
        }
    }
}

/// Whether a vector of strings contains the given string.
pub fn contains_str(v: &Vec<String>, x: &String) -> (r: bool)
    ensures
        r == strs(v@).contains(x@),
{
    let n: usize = v.len();
    let mut i: usize = 0;
    while i < n
        invariant
            i <= n == v@.len(),
            forall|j: int| 0 <= j < i ==> strs(v@)[j] != x@,
        decreases n - i,
    {
        if string_eq(&v[i], x) {
            assert(strs(v@)[i as int] == x@);
            return true;
        }
        i += 1;
    }
    assert forall|j: int| 0 <= j < strs(v@).len() implies strs(v@)[j] != x@ by {}
    false
}

/// Equality of two strings, decided by their character sequences.
pub fn string_eq(a: &String, b: &String) -> (r: bool)
    ensures
        r == (a@ == b@),
{
    a.eq(b)
}

/// Equality of a string against a string slice.
pub fn str_lit_eq(a: &String, lit: &str) -> (r: bool)
    ensures
        r == (a@ == lit@),
{
    a.eq(&lit.to_owned())
}

} // verus!
