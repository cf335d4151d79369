//! Small verified text helpers the protocol needs: string comparison,
//! decimal parsing for the upload chunk count, and hex comparison of digests.

use vstd::prelude::*;
use vstd::string::StrSliceExecFns;

verus! {

/// True exactly when the two strings hold the same characters.
pub fn str_is(s: &str, t: &str) -> (r: bool)
    ensures
        r == (s@ == t@),
{
    let a = s.to_owned();
    let b = t.to_owned();
    a == b
}

/// One decimal digit.
pub open spec fn spec_is_digit(c: char) -> bool {
    '0' <= c <= '9'
}

/// The numeric value of a digit character.
pub open spec fn spec_digit_val(c: char) -> nat {
    (c as nat - '0' as nat) as nat
}

/// Every character of `s` is a decimal digit.
pub open spec fn spec_all_digits(s: Seq<char>) -> bool {
    forall|i: int| 0 <= i < s.len() ==> spec_is_digit(#[trigger] s[i])
}

/// The value of a digit string, most significant digit first.
pub open spec fn spec_decimal_val(s: Seq<char>) -> nat
    decreases s.len(),
{
    if s.len() == 0 {
        0
    } else {
        spec_decimal_val(s.drop_last()) * 10 + spec_digit_val(s.last())
    }
}

/// A longer digit string never has a smaller value: the value of a prefix is
/// at most the value of the whole string.
proof fn lemma_decimal_prefix_le(s: Seq<char>, i: int)
    requires
        0 <= i <= s.len(),
    ensures
        spec_decimal_val(s.take(i)) <= spec_decimal_val(s),
    decreases s.len() - i,
{
    if i < s.len() {
        assert(s.take(i + 1).drop_last() =~= s.take(i));
        assert(spec_decimal_val(s.take(i)) <= spec_decimal_val(s.take(i + 1)));
        lemma_decimal_prefix_le(s, i + 1);
    } else {
        assert(s.take(i) =~= s);
    }
}

/// Parses an unsigned decimal count. Returns the value exactly when the text
/// is one or more decimal digits and the value fits a `usize`; anything else
/// is rejected.
pub fn parse_usize(s: &str) -> (r: Option<usize>)
    ensures
        match r {
            Some(n) => s@.len() > 0 && spec_all_digits(s@) && n == spec_decimal_val(s@),
            None => s@.len() == 0 || !spec_all_digits(s@) || spec_decimal_val(s@) > usize::MAX,
        },
{
    let len = s.unicode_len();
    if len == 0 {
        return None;
    }
    let mut acc: usize = 0;
    let mut i: usize = 0;
    while i < len
        invariant
            0 <= i <= len,
            len == s@.len(),
            spec_all_digits(s@.take(i as int)),
            acc == spec_decimal_val(s@.take(i as int)),
        decreases len - i,
    {
        let c = s.get_char(i);
        if c < '0' || c > '9' {
            assert(!spec_is_digit(s@[i as int]));
            return None;
        }
        let d = (c as u32 - '0' as u32) as usize;
        assert(d == spec_digit_val(s@[i as int]) && d <= 9);
        if acc > (usize::MAX - d) / 10 {
            proof {
                assert(acc * 10 + d > usize::MAX) by (nonlinear_arith)
                    requires
                        acc > (usize::MAX - d) / 10,
                        d <= 9,
                ;
                assert(s@.take(i as int + 1).drop_last() =~= s@.take(i as int));
                assert(spec_decimal_val(s@.take(i as int + 1)) > usize::MAX);
                lemma_decimal_prefix_le(s@, i as int + 1);
            }
            return None;
        }
        proof {
            assert(acc * 10 + d <= usize::MAX) by (nonlinear_arith)
                requires
                    acc <= (usize::MAX - d) / 10,
                    d <= 9,
            ;
            assert(s@.take(i as int + 1).drop_last() =~= s@.take(i as int));
        }
        acc = acc * 10 + d;
        i = i + 1;
    }
    proof {
        assert(s@.take(len as int) =~= s@);
    }
    Some(acc)
}

/// The lower-case hex character for a value below 16.
pub open spec fn spec_hex_digit(n: nat) -> char {
    if n < 10 {
        (('0' as nat + n) as u8) as char
    } else if n < 16 {
        (('a' as nat + n - 10) as u8) as char
    } else {
        '0'
    }
}

/// Two lower-case hex characters for each byte, high nibble first.
pub open spec fn spec_hex_of_bytes(s: Seq<u8>) -> Seq<char>
    decreases s.len(),
{
    if s.len() == 0 {
        Seq::empty()
    } else {
        spec_hex_of_bytes(s.drop_last())
            + seq![
            spec_hex_digit(s.last() as nat / 16),
            spec_hex_digit(s.last() as nat % 16),
        ]
    }
}

proof fn lemma_hex_len(s: Seq<u8>)
    ensures
        spec_hex_of_bytes(s).len() == 2 * s.len(),
    decreases s.len(),
{
    if s.len() > 0 {
        lemma_hex_len(s.drop_last());
    }
}

/// Characters `2i` and `2i + 1` of the hex rendering are the two nibbles of
/// byte `i`.
proof fn lemma_hex_index(s: Seq<u8>, i: int)
    requires
        0 <= i < s.len(),
    ensures
        spec_hex_of_bytes(s)[2 * i] == spec_hex_digit(s[i] as nat / 16),
        spec_hex_of_bytes(s)[2 * i + 1] == spec_hex_digit(s[i] as nat % 16),
    decreases s.len(),
{
    lemma_hex_len(s.drop_last());
    if i == s.len() - 1 {
    } else {
        lemma_hex_index(s.drop_last(), i);
    }
}

/// One executable hex digit.
fn hex_digit(n: u8) -> (c: char)
    requires
        n < 16,
    ensures
        c == spec_hex_digit(n as nat),
{
    if n < 10 {
        (48 + n) as char
    } else {
        (87 + n) as char
    }
}

/// True exactly when `hex` is the lower-case hex rendering of `data`, two
/// characters per byte.
pub fn hex_matches(data: &[u8], hex: &str) -> (r: bool)
    ensures
        r == (hex@ == spec_hex_of_bytes(data@)),
{
    proof {
        lemma_hex_len(data@);
    }
    let n = hex.unicode_len();
    if data.len() > usize::MAX / 2 || n != 2 * data.len() {
        return false;
    }
    let mut i: usize = 0;
    while i < data.len()
        invariant
            0 <= i <= data@.len(),
            n == hex@.len() == 2 * data@.len(),
            spec_hex_of_bytes(data@).len() == 2 * data@.len(),
            forall|k: int| 0 <= k < 2 * i ==> #[trigger] hex@[k] == spec_hex_of_bytes(data@)[k],
        decreases data@.len() - i,
    {
        let b = data[i];
        let hi = hex_digit(b / 16);
        let lo = hex_digit(b % 16);
        proof {
            lemma_hex_index(data@, i as int);
        }
        if hex.get_char(2 * i) != hi || hex.get_char(2 * i + 1) != lo {
            return false;
        }
        i = i + 1;
    }
    proof {
        assert(hex@ =~= spec_hex_of_bytes(data@));
    }
    true
}

} // verus!
