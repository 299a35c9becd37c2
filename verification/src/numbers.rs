//! Decimal numerals: rendering integers as decimal text and parsing decimal
//! text back, with exact character-level specifications. These underpin the
//! gateway frame encoder (sequence numbers, intents) and the parsing of
//! numeric fields that the remote service transmits as strings.

use vstd::prelude::*;

verus! {

/// The character for a single decimal digit value.
pub open spec fn dec_digit_char(d: int) -> char {
    if d == 0 {
        '0'
    } else if d == 1 {
        '1'
    } else if d == 2 {
        '2'
    } else if d == 3 {
        '3'
    } else if d == 4 {
        '4'
    } else if d == 5 {
        '5'
    } else if d == 6 {
        '6'
    } else if d == 7 {
        '7'
    } else if d == 8 {
        '8'
    } else {
        '9'
    }
}

pub open spec fn is_dec_digit(c: char) -> bool {
    '0' <= c && c <= '9'
}

/// Numeric value of a decimal digit character.
pub open spec fn dec_val(c: char) -> int {
    c as int - '0' as int
}

/// The canonical decimal numeral of a natural number (no leading zeros,
/// except that zero itself is "0").
pub open spec fn u64_dec_seq(n: nat) -> Seq<char>
    decreases n,
{
    if n < 10 {
        seq![dec_digit_char(n as int)]
    } else {
        u64_dec_seq(n / 10) + seq![dec_digit_char((n % 10) as int)]
    }
}

/// The canonical decimal numeral of an integer: a minus sign for negatives.
pub open spec fn int_dec_seq(v: int) -> Seq<char> {
    if v >= 0 {
        u64_dec_seq(v as nat)
    } else {
        seq!['-'] + u64_dec_seq((-v) as nat)
    }
}

pub open spec fn all_dec_digits(s: Seq<char>) -> bool {
    forall|i: int| 0 <= i < s.len() ==> is_dec_digit(#[trigger] s[i])
}

/// The value denoted by a sequence of decimal digit characters
/// (most significant first; the empty sequence denotes zero).
pub open spec fn seq_dec_val(s: Seq<char>) -> int
    decreases s.len(),
{
    if s.len() == 0 {
        0
    } else {
        seq_dec_val(s.drop_last()) * 10 + dec_val(s.last())
    }
}

pub proof fn lemma_seq_dec_val_nonneg(s: Seq<char>)
    requires
        all_dec_digits(s),
    ensures
        seq_dec_val(s) >= 0,
    decreases s.len(),
{
    if s.len() > 0 {
        assert(all_dec_digits(s.drop_last()));
        lemma_seq_dec_val_nonneg(s.drop_last());
    }
}

/// The value of a longer prefix of a digit string is at least the value of
/// a shorter one.
pub proof fn lemma_seq_dec_val_prefix_mono(s: Seq<char>, i: int, j: int)
    requires
        all_dec_digits(s),
        0 <= i <= j <= s.len(),
    ensures
        seq_dec_val(s.subrange(0, i)) <= seq_dec_val(s.subrange(0, j)),
    decreases j - i,
{
    if i < j {
        lemma_seq_dec_val_prefix_mono(s, i, j - 1);
        let t = s.subrange(0, j);
        assert(t.drop_last() =~= s.subrange(0, j - 1));
        assert(all_dec_digits(s.subrange(0, j - 1)));
        lemma_seq_dec_val_nonneg(s.subrange(0, j - 1));
    }
}

/// Appends one decimal digit character.
fn append_dec_digit(out: &mut String, d: u64)
    requires
        d < 10,
    ensures
        final(out)@ == old(out)@ + seq![dec_digit_char(d as int)],
{
    if d == 0 {
        proof {
            reveal_strlit("0");
        }
        out.append("0");
    } else if d == 1 {
        proof {
            reveal_strlit("1");
        }
        out.append("1");
    } else if d == 2 {
        proof {
            reveal_strlit("2");
        }
        out.append("2");
    } else if d == 3 {
        proof {
            reveal_strlit("3");
        }
        out.append("3");
    } else if d == 4 {
        proof {
            reveal_strlit("4");
        }
        out.append("4");
    } else if d == 5 {
        proof {
            reveal_strlit("5");
        }
        out.append("5");
    } else if d == 6 {
        proof {
            reveal_strlit("6");
        }
        out.append("6");
    } else if d == 7 {
        proof {
            reveal_strlit("7");
        }
        out.append("7");
    } else if d == 8 {
        proof {
            reveal_strlit("8");
        }
        out.append("8");
    } else {
        proof {
            reveal_strlit("9");
        }
        out.append("9");
    }
    proof {
        assert(out@ =~= old(out)@ + seq![dec_digit_char(d as int)]);
    }
}

/// Appends the decimal numeral of `n`.
pub fn append_dec_u64(out: &mut String, n: u64)
    ensures
        final(out)@ == old(out)@ + u64_dec_seq(n as nat),
    decreases n,
{
    if n < 10 {
        append_dec_digit(out, n);
    } else {
        append_dec_u64(out, n / 10);
        append_dec_digit(out, n % 10);
        proof {
            assert(out@ =~= old(out)@ + u64_dec_seq(n as nat));
        }
    }
}

/// Renders `n` as its decimal numeral.
pub fn u64_to_dec(n: u64) -> (r: String)
    ensures
        r@ == u64_dec_seq(n as nat),
{
    let mut out = String::new();
    append_dec_u64(&mut out, n);
    proof {
        assert(out@ =~= u64_dec_seq(n as nat));
    }
    out
}

/// Appends the decimal numeral of `v`, with a minus sign if negative.
pub fn append_dec_i64(out: &mut String, v: i64)
    ensures
        final(out)@ == old(out)@ + int_dec_seq(v as int),
{
    if v >= 0 {
        append_dec_u64(out, v as u64);
    } else {
        proof {
            reveal_strlit("-");
        }
        out.append("-");
        let m: u64 = if v == i64::MIN {
            9223372036854775808u64
        } else {
            (-v) as u64
        };
        append_dec_u64(out, m);
        proof {
            assert(out@ =~= old(out)@ + int_dec_seq(v as int));
        }
    }
}

/// Parses a string of decimal digits into a `u64`.
///
/// Returns `Some` exactly when the string is nonempty, holds decimal digits
/// only, and denotes a value that fits in a `u64`.
pub fn parse_u64_dec(s: &str) -> (r: Option<u64>)
    ensures
        match r {
            Some(v) => s@.len() > 0 && all_dec_digits(s@) && v as int == seq_dec_val(s@),
            None => s@.len() == 0 || !all_dec_digits(s@) || seq_dec_val(s@) > u64::MAX,
        },
{
    let len = s.unicode_len();
    if len == 0 {
        return None;
    }
    let mut acc: u64 = 0;
    let mut i: usize = 0;
    while i < len
        invariant
            0 <= i <= len,
            len == s@.len(),
            all_dec_digits(s@.subrange(0, i as int)),
            acc as int == seq_dec_val(s@.subrange(0, i as int)),
        decreases len - i,
    {
        let c = s.get_char(i);
        let cu: u32 = c as u32;
        if cu < 48 || cu > 57 {
            assert(!is_dec_digit(s@[i as int]));
            return None;
        }
        let d: u64 = (cu - 48) as u64;
        assert(is_dec_digit(s@[i as int]) && d as int == dec_val(s@[i as int]));
        let wide: u128 = acc as u128 * 10 + d as u128;
        proof {
            assert(s@.subrange(0, i + 1).drop_last() =~= s@.subrange(0, i as int));
            assert(all_dec_digits(s@.subrange(0, i + 1)));
            assert(seq_dec_val(s@.subrange(0, i + 1)) == acc as int * 10 + d as int);
        }
        if wide > u64::MAX as u128 {
            proof {
                if all_dec_digits(s@) {
                    lemma_seq_dec_val_prefix_mono(s@, i + 1, len as int);
                    assert(s@.subrange(0, len as int) =~= s@);
                }
            }
            return None;
        }
        acc = wide as u64;
        i = i + 1;
    }
    proof {
        assert(s@.subrange(0, len as int) =~= s@);
    }
    Some(acc)
}

/// The character for a single hexadecimal digit value, in upper case.
pub open spec fn hex_digit_char(d: int) -> char {
    if d == 0 {
        '0'
    } else if d == 1 {
        '1'
    } else if d == 2 {
        '2'
    } else if d == 3 {
        '3'
    } else if d == 4 {
        '4'
    } else if d == 5 {
        '5'
    } else if d == 6 {
        '6'
    } else if d == 7 {
        '7'
    } else if d == 8 {
        '8'
    } else if d == 9 {
        '9'
    } else if d == 10 {
        'A'
    } else if d == 11 {
        'B'
    } else if d == 12 {
        'C'
    } else if d == 13 {
        'D'
    } else if d == 14 {
        'E'
    } else {
        'F'
    }
}

/// Appends one upper-case hexadecimal digit character.
pub fn append_hex_digit(out: &mut String, d: u32)
    requires
        d < 16,
    ensures
        final(out)@ == old(out)@ + seq![hex_digit_char(d as int)],
{
    if d == 0 {
        proof {
            reveal_strlit("0");
        }
        out.append("0");
    } else if d == 1 {
        proof {
            reveal_strlit("1");
        }
        out.append("1");
    } else if d == 2 {
        proof {
            reveal_strlit("2");
        }
        out.append("2");
    } else if d == 3 {
        proof {
            reveal_strlit("3");
        }
        out.append("3");
    } else if d == 4 {
        proof {
            reveal_strlit("4");
        }
        out.append("4");
    } else if d == 5 {
        proof {
            reveal_strlit("5");
        }
        out.append("5");
    } else if d == 6 {
        proof {
            reveal_strlit("6");
        }
        out.append("6");
    } else if d == 7 {
        proof {
            reveal_strlit("7");
        }
        out.append("7");
    } else if d == 8 {
        proof {
            reveal_strlit("8");
        }
        out.append("8");
    } else if d == 9 {
        proof {
            reveal_strlit("9");
        }
        out.append("9");
    } else if d == 10 {
        proof {
            reveal_strlit("A");
        }
        out.append("A");
    } else if d == 11 {
        proof {
            reveal_strlit("B");
        }
        out.append("B");
    } else if d == 12 {
        proof {
            reveal_strlit("C");
        }
        out.append("C");
    } else if d == 13 {
        proof {
            reveal_strlit("D");
        }
        out.append("D");
    } else if d == 14 {
        proof {
            reveal_strlit("E");
        }
        out.append("E");
    } else {
        proof {
            reveal_strlit("F");
        }
        out.append("F");
    }
    proof {
        assert(out@ =~= old(out)@ + seq![hex_digit_char(d as int)]);
    }
}

/// Compares two texts character by character.
pub fn str_eq(a: &str, b: &str) -> (r: bool)
    ensures
        r == (a@ == b@),
{
    let la = a.unicode_len();
    let lb = b.unicode_len();
    if la != lb {
        return false;
    }
    let mut i: usize = 0;
    while i < la
        invariant
            0 <= i <= la,
            la == a@.len(),
            la == b@.len(),
            forall|j: int| 0 <= j < i ==> a@[j] == b@[j],
        decreases la - i,
    {
        let ca = a.get_char(i);
        let cb = b.get_char(i);
        if ca != cb {
            return false;
        }
        i = i + 1;
    }
    proof {
        assert(a@ =~= b@);
    }
    true
}

} // verus!
