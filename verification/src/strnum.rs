//! Decimal reading and writing of identifiers.
//!
//! The numeric-id mode of a vocabulary treats a name as the decimal spelling
//! of its identifier.  Reading and writing decimal strings is specified
//! exactly, and the round trip is proved, which makes the virtual reverse
//! mapping of the numeric mode a real bidirectional dictionary.

use vstd::prelude::*;

verus! {

/// Whether a character is a decimal digit.
pub open spec fn spec_is_digit(c: char) -> bool {
    48 <= c as u32 <= 57
}

/// The value of a decimal digit character.
pub open spec fn spec_digit_val(c: char) -> nat {
    (c as u32 - 48) as nat
}

/// Whether every character of a sequence is a decimal digit.
pub open spec fn spec_all_digits(s: Seq<char>) -> bool {
    forall|i: int| 0 <= i < s.len() ==> spec_is_digit(#[trigger] s[i])
}

/// The number spelled by a sequence of decimal digits (most significant
/// first); the empty sequence spells zero.
pub open spec fn spec_num_of(s: Seq<char>) -> nat
    decreases s.len(),
{
    if s.len() == 0 {
        0
    } else {
        spec_num_of(s.drop_last()) * 10 + spec_digit_val(s.last())
    }
}

/// The canonical decimal spelling of a number: no leading zeros, and the
/// single digit `0` for zero.
pub open spec fn spec_decimal_of(v: nat) -> Seq<char>
    decreases v,
{
    if v < 10 {
        seq![spec_digit_char(v)]
    } else {
        spec_decimal_of(v / 10).push(spec_digit_char(v % 10))
    }
}

/// The digit character of a value below ten.
pub open spec fn spec_digit_char(d: nat) -> char {
    ((d + 48) as u8) as char
}

/// A prefix of a digit string spells at most what the whole string spells.
proof fn lemma_num_of_prefix(s: Seq<char>, i: int)
    requires
        0 <= i <= s.len(),
    ensures
        spec_num_of(s.take(i)) <= spec_num_of(s),
    decreases s.len() - i,
{
    if i < s.len() {
        lemma_num_of_prefix(s, i + 1);
        assert(s.take(i + 1).drop_last() =~= s.take(i));
        assert(s.take(i + 1).last() == s[i]);
        assert(spec_num_of(s.take(i)) <= spec_num_of(s.take(i + 1)));
    } else {
        assert(s.take(i) =~= s);
    }
}

/// Reads a string as a non-negative decimal number.  Succeeds exactly on
/// non-empty all-digit strings whose value fits in 32 bits, and then returns
/// that value.
pub fn parse_u32(name: &str) -> (r: Option<u32>)
    ensures
        r.is_some() <==> (name@.len() > 0 && spec_all_digits(name@) && spec_num_of(name@)
            <= u32::MAX),
        r.is_some() ==> r.unwrap() == spec_num_of(name@),
{
    let n = name.unicode_len();
    if n == 0 {
        return None;
    }
    let mut acc: u32 = 0;
    let mut i: usize = 0;
    while i < n
        invariant
            n == name@.len(),
            0 <= i <= n,
            spec_all_digits(name@.take(i as int)),
            acc == spec_num_of(name@.take(i as int)),
        decreases n - i,
    {
        let c = name.get_char(i);
        let code = c as u32;
        if code < 48 || code > 57 {
            proof {
                assert(!spec_is_digit(name@[i as int]));
            }
            return None;
        }
        let d = code - 48;
        if acc > (u32::MAX - d) / 10 {
            proof {
                assert(name@.take(i as int + 1).drop_last() =~= name@.take(i as int));
                assert(spec_num_of(name@.take(i as int + 1)) > u32::MAX);
                lemma_num_of_prefix(name@, i as int + 1);
            }
            return None;
        }
        acc = acc * 10 + d;
        i = i + 1;
        proof {
            assert(name@.take(i as int).drop_last() =~= name@.take(i as int - 1));
            assert(name@.take(i as int).last() == name@[i as int - 1]);
        }
    }
    proof {
        assert(name@.take(n as int) =~= name@);
    }
    Some(acc)
}

/// Returns the one-character string of a digit value.
fn digit_str(d: u32) -> (r: &'static str)
    requires
        d < 10,
    ensures
        r@ =~= seq![spec_digit_char(d as nat)],
{
    proof {
        reveal_strlit("0");
        reveal_strlit("1");
        reveal_strlit("2");
        reveal_strlit("3");
        reveal_strlit("4");
        reveal_strlit("5");
        reveal_strlit("6");
        reveal_strlit("7");
        reveal_strlit("8");
        reveal_strlit("9");
    }
    match d {
        0 => "0",
        1 => "1",
        2 => "2",
        3 => "3",
        4 => "4",
        5 => "5",
        6 => "6",
        7 => "7",
        8 => "8",
        _ => "9",
    }
}

/// Writes a number as its canonical decimal string.
pub fn u32_to_decimal(v: u32) -> (r: String)
    ensures
        r@ == spec_decimal_of(v as nat),
    decreases v,
{
    if v < 10 {
        String::from_str(digit_str(v))
    } else {
        let prefix = u32_to_decimal(v / 10);
        let r = prefix.concat(digit_str(v % 10));
        proof {
            assert(r@ =~= spec_decimal_of((v / 10) as nat).push(spec_digit_char((v % 10) as nat)));
        }
        r
    }
}

/// The canonical decimal spelling of a number reads back as that number.
pub proof fn lemma_decimal_round_trip(v: nat)
    ensures
        spec_decimal_of(v).len() > 0,
        spec_all_digits(spec_decimal_of(v)),
        spec_num_of(spec_decimal_of(v)) == v,
    decreases v,
{
    if v < 10 {
        let s = spec_decimal_of(v);
        assert(s =~= seq![spec_digit_char(v)]);
        assert(s.drop_last() =~= Seq::<char>::empty());
        assert(spec_num_of(s.drop_last()) == 0);
        assert(s.last() == spec_digit_char(v));
        assert(spec_num_of(s) == spec_num_of(s.drop_last()) * 10 + spec_digit_val(s.last()));
        assert(spec_digit_val(spec_digit_char(v)) == v);
    } else {
        lemma_decimal_round_trip(v / 10);
        let s = spec_decimal_of(v);
        assert(s.drop_last() =~= spec_decimal_of(v / 10));
        assert(v == (v / 10) * 10 + (v % 10)) by (nonlinear_arith);
        assert(spec_num_of(s) == (v / 10) * 10 + (v % 10));
    }
}

/// Distinct numbers have distinct canonical decimal spellings.
pub proof fn lemma_decimal_injective(a: nat, b: nat)
    requires
        a != b,
    ensures
        spec_decimal_of(a) != spec_decimal_of(b),
{
    lemma_decimal_round_trip(a);
    lemma_decimal_round_trip(b);
}

} // verus!
