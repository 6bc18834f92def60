//! Decimal reading and writing of the integer-typed scalars.
//!
//! The grammar is plain base ten: one or more digits, with a single leading
//! `-` for negative signed values.  Rendering always produces the canonical
//! form (no sign for zero, no leading zeros except for zero itself), so
//! parsing a rendered value gives the value back.

use vstd::prelude::*;

use crate::text::push_char;

verus! {

pub open spec fn spec_is_digit(c: char) -> bool {
    48 <= c as u32 <= 57
}

pub open spec fn spec_digit_val(c: char) -> nat {
    (c as u32 - 48) as nat
}

pub open spec fn spec_digit_char(d: nat) -> char {
    ((48 + d) as u8) as char
}

pub open spec fn spec_all_digits(s: Seq<char>) -> bool {
    forall|i: int| 0 <= i < s.len() ==> spec_is_digit(#[trigger] s[i])
}

/// The number written by a digit string, most significant digit first.
pub open spec fn spec_digits_val(s: Seq<char>) -> nat
    decreases s.len(),
{
    if s.len() == 0 {
        0
    } else {
        spec_digits_val(s.drop_last()) * 10 + spec_digit_val(s.last())
    }
}

pub open spec fn spec_parse_u64(s: Seq<char>) -> Option<u64> {
    if s.len() > 0 && spec_all_digits(s) && spec_digits_val(s) <= u64::MAX {
        Some(spec_digits_val(s) as u64)
    } else {
        None
    }
}

pub open spec fn spec_parse_u8(s: Seq<char>) -> Option<u8> {
    if s.len() > 0 && spec_all_digits(s) && spec_digits_val(s) <= u8::MAX {
        Some(spec_digits_val(s) as u8)
    } else {
        None
    }
}

pub open spec fn spec_parse_i64(s: Seq<char>) -> Option<i64> {
    if s.len() >= 1 && s[0] == '-' {
        let d = s.subrange(1, s.len() as int);
        if d.len() > 0 && spec_all_digits(d) && spec_digits_val(d) <= 0x8000000000000000 {
            Some((0 - spec_digits_val(d)) as i64)
        } else {
            None
        }
    } else {
        if s.len() > 0 && spec_all_digits(s) && spec_digits_val(s) <= i64::MAX {
            Some(spec_digits_val(s) as i64)
        } else {
            None
        }
    }
}

/// The canonical decimal form of a number.
pub open spec fn spec_render_u64(n: nat) -> Seq<char>
    decreases n,
{
    if n < 10 {
        seq![spec_digit_char(n)]
    } else {
        spec_render_u64(n / 10).push(spec_digit_char(n % 10))
    }
}

pub open spec fn spec_render_i64(n: int) -> Seq<char> {
    if n < 0 {
        seq!['-'] + spec_render_u64((0 - n) as nat)
    } else {
        spec_render_u64(n as nat)
    }
}

/// A longer digit string never writes a smaller number.
proof fn lemma_digits_val_prefix(s: Seq<char>, i: int)
    requires
        0 <= i <= s.len(),
    ensures
        spec_digits_val(s.take(i)) <= spec_digits_val(s),
    decreases s.len() - i,
{
    if i < s.len() {
        lemma_digits_val_prefix(s, i + 1);
        assert(s.take(i + 1).drop_last() =~= s.take(i));
        assert(s.take(i + 1).last() == s[i]);
    } else {
        assert(s.take(i) =~= s);
    }
}

pub fn parse_u64(s: &str) -> (r: Option<u64>)
    ensures
        r == spec_parse_u64(s@),
{
    let n = s.unicode_len();
    if n == 0 {
        return None;
    }
    let mut acc: u64 = 0;
    let mut i: usize = 0;
    while i < n
        invariant
            i <= n,
            n == s@.len(),
            spec_all_digits(s@.take(i as int)),
            acc == spec_digits_val(s@.take(i as int)),
        decreases n - i,
    {
        let c = s.get_char(i);
        let u = c as u32;
        if u < 48 || u > 57 {
            return None;
        }
        let d = (u - 48) as u64;
        if acc > u64::MAX / 10 || (acc == u64::MAX / 10 && d > u64::MAX % 10) {
            proof {
                assert(s@.take(i + 1).drop_last() =~= s@.take(i as int));
                assert(spec_digits_val(s@.take(i + 1)) > u64::MAX);
                if spec_all_digits(s@) {
                    lemma_digits_val_prefix(s@, i + 1);
                }
            }
            return None;
        }
        acc = acc * 10 + d;
        i = i + 1;
        proof {
            assert(s@.take(i as int).drop_last() =~= s@.take(i as int - 1));
        }
    }
    proof {
        assert(s@.take(n as int) =~= s@);
    }
    Some(acc)
}

pub fn parse_u8(s: &str) -> (r: Option<u8>)
    ensures
        r == spec_parse_u8(s@),
{
    match parse_u64(s) {
        Some(v) => if v <= 255 {
            Some(v as u8)
        } else {
            None
        },
        None => {
            proof {
                if s@.len() > 0 && spec_all_digits(s@) {
                    assert(spec_digits_val(s@) > u64::MAX);
                }
            }
            None
        },
    }
}

pub fn parse_i64(s: &str) -> (r: Option<i64>)
    ensures
        r == spec_parse_i64(s@),
{
    let n = s.unicode_len();
    if n >= 1 && s.get_char(0) == '-' {
        let rest = s.substring_char(1, n);
        match parse_u64(rest) {
            Some(m) => {
                if m == 0x8000000000000000 {
                    Some(i64::MIN)
                } else if m < 0x8000000000000000 {
                    Some(-(m as i64))
                } else {
                    None
                }
            },
            None => {
                proof {
                    if rest@.len() > 0 && spec_all_digits(rest@) {
                        assert(spec_digits_val(rest@) > u64::MAX);
                    }
                }
                None
            },
        }
    } else {
        match parse_u64(s) {
            Some(m) => if m <= i64::MAX as u64 {
                Some(m as i64)
            } else {
                None
            },
            None => {
                proof {
                    if s@.len() > 0 && spec_all_digits(s@) {
                        assert(spec_digits_val(s@) > u64::MAX);
                    }
                }
                None
            },
        }
    }
}

fn digit_char(d: u64) -> (r: char)
    requires
        d < 10,
    ensures
        r == spec_digit_char(d as nat),
{
    ((48 + d as u32) as u8) as char
}

pub fn render_u64(n: u64) -> (r: String)
    ensures
        r@ == spec_render_u64(n as nat),
    decreases n,
{
    if n < 10 {
        let mut s = String::new();
        push_char(&mut s, digit_char(n));
        proof {
            assert(s@ =~= seq![spec_digit_char(n as nat)]);
        }
        s
    } else {
        let mut s = render_u64(n / 10);
        push_char(&mut s, digit_char(n % 10));
        s
    }
}

pub fn render_i64(v: i64) -> (r: String)
    ensures
        r@ == spec_render_i64(v as int),
{
    if v >= 0 {
        let r = render_u64(v as u64);
        r
    } else {
        let mag: u64 = if v == i64::MIN {
            0x8000000000000000
        } else {
            (-v) as u64
        };
        let mut s = String::from_str("-");
        s.append(render_u64(mag).as_str());
        proof {
            reveal_strlit("-");
            assert(s@ =~= seq!['-'] + spec_render_u64(mag as nat));
        }
        s
    }
}

pub fn render_u8(v: u8) -> (r: String)
    ensures
        r@ == spec_render_u64(v as nat),
{
    render_u64(v as u64)
}

/// A rendered number is all digits and reads back as itself.
pub proof fn lemma_render_u64_digits(n: nat)
    ensures
        spec_render_u64(n).len() >= 1,
        spec_all_digits(spec_render_u64(n)),
        spec_digits_val(spec_render_u64(n)) == n,
    decreases n,
{
    if n < 10 {
        assert(spec_render_u64(n).drop_last() =~= Seq::<char>::empty());
        assert((spec_digit_char(n) as u32) == 48 + n);
        assert(spec_render_u64(n).last() == spec_digit_char(n));
        assert(spec_digit_val(spec_digit_char(n)) == n);
        assert(spec_digits_val(spec_render_u64(n)) == spec_digits_val(Seq::<char>::empty()) * 10
            + spec_digit_val(spec_digit_char(n)));
    } else {
        lemma_render_u64_digits(n / 10);
        assert(spec_render_u64(n).drop_last() =~= spec_render_u64(n / 10));
        assert((spec_digit_char(n % 10) as u32) == 48 + n % 10);
        vstd::arithmetic::div_mod::lemma_fundamental_div_mod(n as int, 10);
    }
}

/// Reading back a written `u64` gives the number itself.
pub proof fn lemma_parse_render_u64(n: u64)
    ensures
        spec_parse_u64(spec_render_u64(n as nat)) == Some(n),
{
    lemma_render_u64_digits(n as nat);
}

/// Reading back a written `u8` gives the number itself.
pub proof fn lemma_parse_render_u8(n: u8)
    ensures
        spec_parse_u8(spec_render_u64(n as nat)) == Some(n),
{
    lemma_render_u64_digits(n as nat);
}

/// Reading back a written `i64` gives the number itself.
pub proof fn lemma_parse_render_i64(v: i64)
    ensures
        spec_parse_i64(spec_render_i64(v as int)) == Some(v),
{
    if v >= 0 {
        lemma_render_u64_digits(v as nat);
        let s = spec_render_i64(v as int);
        assert(s[0] != '-') by {
            assert(spec_is_digit(s[0]));
        }
    } else {
        let mag = (0 - v) as nat;
        lemma_render_u64_digits(mag);
        let s = spec_render_i64(v as int);
        assert(s.subrange(1, s.len() as int) =~= spec_render_u64(mag));
    }
}

} // verus!
