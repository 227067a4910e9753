//! Bytes of text: numbers in decimal, runs of spaces, and the reading of a
//! recorded score.

use vstd::prelude::*;
use vstd::string::StringSliceAdditionalSpecFns;

verus! {

/// The digits of `n` in decimal, as ASCII, without leading zeros.
pub open spec fn decimal(n: nat) -> Seq<u8>
    decreases n,
{
    if n < 10 {
        seq![(48 + n) as u8]
    } else {
        decimal(n / 10).push((48 + n % 10) as u8)
    }
}

/// `n` spaces.
pub open spec fn spaces(n: nat) -> Seq<u8> {
    Seq::new(n, |i: int| 32u8)
}

/// Whether every byte is an ASCII digit.
pub open spec fn all_digits(s: Seq<u8>) -> bool {
    forall|i: int| 0 <= i < s.len() ==> 48 <= #[trigger] s[i] <= 57
}

/// The number that a run of digits writes.
pub open spec fn digits_value(s: Seq<u8>) -> nat
    decreases s.len(),
{
    if s.len() == 0 {
        0
    } else {
        (digits_value(s.drop_last()) * 10 + (s.last() - 48)) as nat
    }
}

/// The digits of a recorded score: the text itself, or what follows one
/// leading plus sign.
pub open spec fn unsigned_part(s: Seq<u8>) -> Seq<u8> {
    if s.len() > 0 && s[0] == 43 {
        s.drop_first()
    } else {
        s
    }
}

/// The score that a text records: it is made of at least one digit and
/// nothing else but for a plus sign in front, and writes a number that
/// 32 bits hold. Any other text records none.
pub open spec fn parse_spec(s: Seq<u8>) -> Option<u32> {
    let digits = unsigned_part(s);
    if digits.len() > 0 && all_digits(digits) && digits_value(digits) <= u32::MAX {
        Some(digits_value(digits) as u32)
    } else {
        None
    }
}

/// A longer run of digits writes no smaller number than its beginning.
proof fn lemma_digits_grow(s: Seq<u8>, n: int)
    requires
        all_digits(s),
        0 <= n <= s.len(),
    ensures
        digits_value(s.subrange(0, n)) <= digits_value(s),
    decreases s.len() - n,
{
    if n == s.len() {
        assert(s.subrange(0, n) =~= s);
    } else {
        let longer = s.subrange(0, n + 1);
        assert(longer.drop_last() =~= s.subrange(0, n));
        assert(longer.last() == s[n]);
        lemma_digits_grow(s, n + 1);
    }
}

/// The decimal digits of a number are digits, and write that number.
pub proof fn lemma_decimal_digits(n: nat)
    ensures
        decimal(n).len() > 0,
        all_digits(decimal(n)),
        digits_value(decimal(n)) == n,
    decreases n,
{
    let digits = decimal(n);
    if n < 10 {
        assert(digits.drop_last() =~= Seq::<u8>::empty());
        assert(digits.last() == 48 + n);
        assert(digits_value(digits.drop_last()) == 0);
    } else {
        lemma_decimal_digits(n / 10);
        assert(digits.drop_last() =~= decimal(n / 10));
        assert(digits.last() == 48 + n % 10);
        assert(digits_value(digits) == digits_value(digits.drop_last()) * 10 + (digits.last()
            - 48));
    }
}

/// A score that is recorded in decimal is read back as it was.
pub proof fn lemma_record_reads_back(score: u32)
    ensures
        parse_spec(decimal(score as nat)) == Some(score),
{
    lemma_decimal_digits(score as nat);
    assert(decimal(score as nat)[0] != 43);
}

/// Appends the bytes of `text`.
pub fn push_text(out: &mut Vec<u8>, text: &str)
    ensures
        final(out)@ == old(out)@ + text.spec_bytes(),
{
    out.extend_from_slice(text.as_bytes());
    proof {
        assert(out@ =~= old(out)@ + text.spec_bytes());
    }
}

/// Appends `n` spaces.
pub fn push_spaces(out: &mut Vec<u8>, n: usize)
    ensures
        final(out)@ == old(out)@ + spaces(n as nat),
{
    let mut i: usize = 0;
    while i < n
        invariant
            i <= n,
            out@ == old(out)@ + spaces(i as nat),
        decreases n - i,
    {
        out.push(32u8);
        i += 1;
        proof {
            assert(out@ =~= old(out)@ + spaces(i as nat));
        }
    }
}

/// Appends `n` in decimal.
pub fn push_decimal(out: &mut Vec<u8>, n: u32)
    ensures
        final(out)@ == old(out)@ + decimal(n as nat),
    decreases n,
{
    if n >= 10 {
        push_decimal(out, n / 10);
    }
    out.push(48u8 + (n % 10) as u8);
    proof {
        assert(out@ =~= old(out)@ + decimal(n as nat));
    }
}

/// Reads a recorded score.
pub fn parse_high_score(content: &Vec<u8>) -> (score: Option<u32>)
    ensures
        score == parse_spec(content@),
{
    let start: usize = if content.len() > 0 && content[0] == 43u8 {
        1
    } else {
        0
    };
    let ghost digits = unsigned_part(content@);
    proof {
        assert(digits =~= content@.subrange(start as int, content@.len() as int));
    }
    if start == content.len() {
        return None;
    }
    let mut value: u32 = 0;
    let mut i: usize = start;
    while i < content.len()
        invariant
            start <= i <= content.len(),
            digits == unsigned_part(content@),
            digits == content@.subrange(start as int, content@.len() as int),
            all_digits(digits.subrange(0, i - start)),
            value == digits_value(digits.subrange(0, i - start)),
        decreases content.len() - i,
    {
        let byte = content[i];
        let ghost shorter = digits.subrange(0, i - start);
        let ghost longer = digits.subrange(0, i + 1 - start);
        proof {
            assert(longer.drop_last() =~= shorter);
            assert(longer.last() == byte);
            assert(digits[i - start] == byte);
        }
        if byte < 48u8 || byte > 57u8 {
            assert(!(48 <= digits[i - start] <= 57));
            return None;
        }
        let digit: u32 = (byte - 48u8) as u32;
        if value > (u32::MAX - digit) / 10 {
            proof {
                assert(digits_value(longer) > u32::MAX);
                if all_digits(digits) {
                    lemma_digits_grow(digits, i + 1 - start);
                }
            }
            return None;
        }
        value = value * 10 + digit;
        i += 1;
    }
    proof {
        assert(digits.subrange(0, digits.len() as int) =~= digits);
    }
    Some(value)
}

} // verus!
