//! Decimal rendering and parsing of unsigned values, used for numeric
//! option values and for the rendered default of the worker-count option.

use vstd::prelude::*;
use vstd::string::StrSliceExecFns;

verus! {

/// The decimal digit character for a value below ten.
pub open spec fn digit_char(d: nat) -> char
    recommends
        d < 10,
{
    ((48 + d) as u8) as char
}

/// The decimal digit sequence of a value, most significant digit first.
pub open spec fn dec_str(n: nat) -> Seq<char>
    decreases n,
{
    if n < 10 {
        seq![digit_char(n)]
    } else {
        dec_str(n / 10).push(digit_char(n % 10))
    }
}

/// The decimal digit bytes of a value, most significant digit first.
pub open spec fn dec_bytes(n: nat) -> Seq<u8>
    decreases n,
{
    if n < 10 {
        seq![(48 + n) as u8]
    } else {
        dec_bytes(n / 10).push((48 + n % 10) as u8)
    }
}

pub proof fn lemma_dec_bytes_range(n: nat)
    ensures
        forall|i: int| 0 <= i < dec_bytes(n).len() ==> 48 <= #[trigger] dec_bytes(n)[i] < 58,
    decreases n,
{
    if n >= 10 {
        lemma_dec_bytes_range(n / 10);
        assert forall|i: int| 0 <= i < dec_bytes(n).len() implies 48 <= #[trigger] dec_bytes(
            n,
        )[i] < 58 by {
            if i == dec_bytes(n).len() - 1 {
                assert(dec_bytes(n)[i] == (48 + n % 10) as u8);
            } else {
                assert(dec_bytes(n)[i] == dec_bytes(n / 10)[i]);
            }
        }
    } else {
        assert(dec_bytes(n)[0] == (48 + n) as u8);
    }
}

pub proof fn lemma_dec_bytes_chars(n: nat)
    ensures
        dec_bytes(n).map_values(|b: u8| b as char) =~= dec_str(n),
    decreases n,
{
    if n >= 10 {
        lemma_dec_bytes_chars(n / 10);
    }
}

fn push_dec(n: usize, out: &mut Vec<u8>)
    ensures
        final(out)@ == old(out)@ + dec_bytes(n as nat),
    decreases n,
{
    if n >= 10 {
        proof {
            assert(n / 10 < n) by (nonlinear_arith)
                requires
                    n >= 10,
            ;
        }
        push_dec(n / 10, out);
    }
    let d: u8 = (n % 10) as u8;
    out.push(48 + d);
    proof {
        assert(out@ =~= old(out)@ + dec_bytes(n as nat));
    }
}

/// Render a value in decimal.
pub fn usize_to_string(n: usize) -> (r: String)
    ensures
        r@ == dec_str(n as nat),
{
    let mut out: Vec<u8> = Vec::new();
    push_dec(n, &mut out);
    proof {
        lemma_dec_bytes_range(n as nat);
        lemma_dec_bytes_chars(n as nat);
    }
    let r = crate::text::ascii_string(&out);
    r
}

/// Whether every character of a sequence is a decimal digit.
pub open spec fn is_digits(s: Seq<char>) -> bool {
    forall|i: int| 0 <= i < s.len() ==> '0' <= #[trigger] s[i] <= '9'
}

/// The numeric value of a sequence of decimal digit characters.
pub open spec fn dec_val(s: Seq<char>) -> nat
    decreases s.len(),
{
    if s.len() == 0 {
        0
    } else {
        dec_val(s.drop_last()) * 10 + ((s.last() as int - 48) as nat)
    }
}

proof fn lemma_dec_val_prefix_le(s: Seq<char>, i: int)
    requires
        0 <= i <= s.len(),
        is_digits(s),
    ensures
        dec_val(s.take(i)) <= dec_val(s),
    decreases s.len() - i,
{
    if i < s.len() {
        let t = s.take(i + 1);
        assert(t.drop_last() =~= s.take(i));
        assert(dec_val(t) == dec_val(s.take(i)) * 10 + (t.last() as nat - 48));
        assert(dec_val(s.take(i)) * 10 >= dec_val(s.take(i))) by (nonlinear_arith);
        assert(s.take(s.len() as int) =~= s);
        lemma_dec_val_prefix_le(s, i + 1);
    } else {
        assert(s.take(i) =~= s);
    }
}

/// Parse a decimal value, rejecting empty input, non-digit characters and
/// values above `usize::MAX`.
pub fn parse_usize(s: &str) -> (r: Option<usize>)
    ensures
        r is Some ==> s@.len() > 0 && is_digits(s@) && r->0 as nat == dec_val(s@),
        r is None ==> !(s@.len() > 0 && is_digits(s@) && dec_val(s@) <= usize::MAX),
{
    let n: usize = s.unicode_len();
    if n == 0 {
        return None;
    }
    let mut acc: usize = 0;
    let mut i: usize = 0;
    while i < n
        invariant
            0 < n == s@.len(),
            i <= n,
            is_digits(s@.take(i as int)),
            acc as nat == dec_val(s@.take(i as int)),
        decreases n - i,
    {
        let c: char = s.get_char(i);
        if !(c >= '0' && c <= '9') {
            proof {
                assert(s@.take(n as int) =~= s@);
                assert(s@[i as int] == c);
            }
            return None;
        }
        let d: u32 = c as u32 - 48;
        if acc > (usize::MAX - d as usize) / 10 {
            proof {
                let p = s@.take(i as int + 1);
                assert(p.drop_last() =~= s@.take(i as int));
                assert(p.last() == c);
                assert(dec_val(p) == acc as nat * 10 + (c as nat - 48));
                assert(acc as nat > (usize::MAX - d as usize) / 10);
                assert(acc as nat * 10 + (c as nat - 48) > usize::MAX) by (nonlinear_arith)
                    requires
                        acc as nat > ((usize::MAX - d as usize) / 10) as nat,
                        d as nat == c as nat - 48,
                        d < 10,
                        usize::MAX >= 10,
                ;
                if s@.len() > 0 && is_digits(s@) {
                    lemma_dec_val_prefix_le(s@, i as int + 1);
                }
            }
            return None;
        }
        proof {
            assert(acc as nat * 10 + d as nat <= usize::MAX) by (nonlinear_arith)
                requires
                    acc as nat <= ((usize::MAX - d as usize) / 10) as nat,
                    d < 10,
            ;
        }
        acc = acc * 10 + d as usize;
        proof {
            let p = s@.take(i as int + 1);
            assert(p.drop_last() =~= s@.take(i as int));
            assert(p.last() == c);
        }
        i += 1;
    }
    proof {
        assert(s@.take(n as int) =~= s@);
    }
    Some(acc)
}

} // verus!
