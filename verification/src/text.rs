//! Decimal and hexadecimal renderings of machine integers, and their inverse
//! parsers, each proved against a small mathematical model of digit strings.

use vstd::prelude::*;
use vstd::string::*;

verus! {

/// `c` is an ASCII decimal digit.
pub open spec fn is_dec_digit(c: char) -> bool {
    48 <= c as u32 <= 57
}

/// `c` is an ASCII hexadecimal digit, either case.
pub open spec fn is_hex_digit(c: char) -> bool {
    is_dec_digit(c) || (97 <= c as u32 <= 102) || (65 <= c as u32 <= 70)
}

/// Numeric value of a decimal digit character.
pub open spec fn dec_digit_val(c: char) -> nat {
    (c as u32 - 48) as nat
}

/// Numeric value of a hexadecimal digit character.
pub open spec fn hex_digit_val(c: char) -> nat {
    if is_dec_digit(c) {
        dec_digit_val(c)
    } else if 97 <= c as u32 <= 102 {
        (c as u32 - 87) as nat
    } else {
        (c as u32 - 55) as nat
    }
}

/// The decimal digit character for a value below ten.
pub open spec fn dec_digit_char(d: nat) -> char {
    if d == 0 { '0' } else if d == 1 { '1' } else if d == 2 { '2' }
    else if d == 3 { '3' } else if d == 4 { '4' } else if d == 5 { '5' }
    else if d == 6 { '6' } else if d == 7 { '7' } else if d == 8 { '8' }
    else { '9' }
}

/// The lowercase hexadecimal digit character for a value below sixteen.
pub open spec fn hex_digit_char(d: nat) -> char {
    if d < 10 { dec_digit_char(d) }
    else if d == 10 { 'a' } else if d == 11 { 'b' } else if d == 12 { 'c' }
    else if d == 13 { 'd' } else if d == 14 { 'e' } else { 'f' }
}

/// Decimal rendering of `n`, most significant digit first, no leading zeros
/// (a single `'0'` for zero).
pub open spec fn dec_of(n: nat) -> Seq<char>
    decreases n,
{
    if n < 10 {
        seq![dec_digit_char(n)]
    } else {
        dec_of(n / 10) + seq![dec_digit_char(n % 10)]
    }
}

/// Lowercase hexadecimal rendering of `n`, no `0x` prefix, no leading zeros
/// (a single `'0'` for zero).
pub open spec fn hex_of(n: nat) -> Seq<char>
    decreases n,
{
    if n < 16 {
        seq![hex_digit_char(n)]
    } else {
        hex_of(n / 16) + seq![hex_digit_char(n % 16)]
    }
}

/// The number a digit string denotes in base ten (digits assumed decimal).
pub open spec fn dec_value(s: Seq<char>) -> nat
    decreases s.len(),
{
    if s.len() == 0 {
        0
    } else {
        dec_value(s.drop_last()) * 10 + dec_digit_val(s.last())
    }
}

/// The number a digit string denotes in base sixteen (digits assumed hex).
pub open spec fn hex_value(s: Seq<char>) -> nat
    decreases s.len(),
{
    if s.len() == 0 {
        0
    } else {
        hex_value(s.drop_last()) * 16 + hex_digit_val(s.last())
    }
}

/// Every character of a hexadecimal rendering is a hex digit, the rendering is
/// non-empty, and reading it back in base sixteen gives the number itself.
pub proof fn lemma_hex_of(n: nat)
    ensures
        hex_of(n).len() >= 1,
        forall|i: int| 0 <= i < hex_of(n).len() ==> is_hex_digit(#[trigger] hex_of(n)[i]),
        hex_value(hex_of(n)) == n,
    decreases n,
{
    if n < 16 {
        assert(hex_of(n) =~= seq![hex_digit_char(n)]);
        assert(hex_of(n).drop_last() =~= Seq::<char>::empty());
        assert(hex_digit_val(hex_digit_char(n)) == n);
        assert(hex_value(hex_of(n)) == hex_value(Seq::<char>::empty()) * 16 + n);
    } else {
        lemma_hex_of(n / 16);
        assert(hex_of(n) =~= hex_of(n / 16).push(hex_digit_char(n % 16)));
        assert(hex_of(n).drop_last() =~= hex_of(n / 16));
        assert(hex_digit_val(hex_digit_char(n % 16)) == n % 16);
        assert(hex_value(hex_of(n)) == hex_value(hex_of(n / 16)) * 16 + (n % 16));
        assert(n / 16 * 16 + n % 16 == n);
    }
}

/// Appending digits never shrinks the base-sixteen value: the value of a
/// prefix is a lower bound for the value of the whole string.
pub proof fn lemma_hex_value_prefix(s: Seq<char>, i: int)
    requires
        0 <= i <= s.len(),
    ensures
        hex_value(s.take(i)) <= hex_value(s),
    decreases s.len() - i,
{
    if i < s.len() {
        lemma_hex_value_prefix(s, i + 1);
        assert(s.take(i + 1).drop_last() =~= s.take(i));
        assert(hex_value(s.take(i + 1)) == hex_value(s.take(i)) * 16 + hex_digit_val(s[i]));
        assert(hex_value(s.take(i)) * 16 >= hex_value(s.take(i))) by (nonlinear_arith);
    } else {
        assert(s.take(i) =~= s);
    }
}

/// Same bound for base ten.
pub proof fn lemma_dec_value_prefix(s: Seq<char>, i: int)
    requires
        0 <= i <= s.len(),
    ensures
        dec_value(s.take(i)) <= dec_value(s),
    decreases s.len() - i,
{
    if i < s.len() {
        lemma_dec_value_prefix(s, i + 1);
        assert(s.take(i + 1).drop_last() =~= s.take(i));
        assert(dec_value(s.take(i + 1)) == dec_value(s.take(i)) * 10 + dec_digit_val(s[i]));
        assert(dec_value(s.take(i)) * 10 >= dec_value(s.take(i))) by (nonlinear_arith);
    } else {
        assert(s.take(i) =~= s);
    }
}

/// One-character string holding the decimal digit for `d`.
pub fn dec_digit_str(d: u8) -> (r: &'static str)
    requires
        d < 10,
    ensures
        r@ =~= seq![dec_digit_char(d as nat)],
{
    proof {
        reveal_strlit("0"); reveal_strlit("1"); reveal_strlit("2");
        reveal_strlit("3"); reveal_strlit("4"); reveal_strlit("5");
        reveal_strlit("6"); reveal_strlit("7"); reveal_strlit("8");
        reveal_strlit("9");
    }
    match d {
        0 => "0", 1 => "1", 2 => "2", 3 => "3", 4 => "4",
        5 => "5", 6 => "6", 7 => "7", 8 => "8", _ => "9",
    }
}

/// One-character string holding the lowercase hexadecimal digit for `d`.
pub fn hex_digit_str(d: u8) -> (r: &'static str)
    requires
        d < 16,
    ensures
        r@ =~= seq![hex_digit_char(d as nat)],
{
    proof {
        reveal_strlit("a"); reveal_strlit("b"); reveal_strlit("c");
        reveal_strlit("d"); reveal_strlit("e"); reveal_strlit("f");
    }
    if d < 10 {
        dec_digit_str(d)
    } else {
        match d {
            10 => "a", 11 => "b", 12 => "c", 13 => "d", 14 => "e", _ => "f",
        }
    }
}

/// Decimal rendering of a `u64`.
pub fn u64_to_dec(n: u64) -> (r: String)
    ensures
        r@ == dec_of(n as nat),
    decreases n,
{
    if n < 10 {
        String::from_str(dec_digit_str(n as u8))
    } else {
        let mut s = u64_to_dec(n / 10);
        s.append(dec_digit_str((n % 10) as u8));
        proof {
            assert(dec_of((n / 10) as nat) + seq![dec_digit_char((n % 10) as nat)]
                =~= dec_of(n as nat));
        }
        s
    }
}

/// Lowercase minimal hexadecimal rendering of a `u64`.
pub fn u64_to_hex(n: u64) -> (r: String)
    ensures
        r@ == hex_of(n as nat),
    decreases n,
{
    if n < 16 {
        String::from_str(hex_digit_str(n as u8))
    } else {
        let mut s = u64_to_hex(n / 16);
        s.append(hex_digit_str((n % 16) as u8));
        proof {
            assert(hex_of((n / 16) as nat) + seq![hex_digit_char((n % 16) as nat)]
                =~= hex_of(n as nat));
        }
        s
    }
}

/// Character-for-character string comparison.
pub fn str_eq(a: &str, b: &str) -> (r: bool)
    ensures
        r <==> a@ == b@,
{
    let n = a.unicode_len();
    let m = b.unicode_len();
    if n != m {
        return false;
    }
    let mut i: usize = 0;
    while i < n
        invariant
            0 <= i <= n,
            n == a@.len(),
            n == b@.len(),
            forall|j: int| 0 <= j < i ==> a@[j] == b@[j],
        decreases n - i,
    {
        if a.get_char(i) != b.get_char(i) {
            return false;
        }
        i = i + 1;
    }
    proof {
        assert(a@ =~= b@);
    }
    true
}

/// Runtime test matching `is_hex_digit`, returning the digit's value.
fn hex_digit_of_char(c: char) -> (r: Option<u8>)
    ensures
        r is Some <==> is_hex_digit(c),
        r matches Some(v) ==> v as nat == hex_digit_val(c),
{
    let u = c as u32;
    if 48 <= u && u <= 57 {
        Some((u - 48) as u8)
    } else if 97 <= u && u <= 102 {
        Some((u - 87) as u8)
    } else if 65 <= u && u <= 70 {
        Some((u - 55) as u8)
    } else {
        None
    }
}

/// Parses an entire string as an unsigned base-sixteen number. Succeeds
/// exactly when the string is non-empty, every character is a hexadecimal
/// digit (either case), and the denoted value fits in a `u64`; no prefix such
/// as `0x` is recognised.
pub fn parse_hex_u64(s: &str) -> (r: Option<u64>)
    ensures
        r is Some <==> (s@.len() >= 1
            && (forall|i: int| 0 <= i < s@.len() ==> is_hex_digit(#[trigger] s@[i]))
            && hex_value(s@) <= u64::MAX),
        r matches Some(v) ==> v as nat == hex_value(s@),
{
    let n = s.unicode_len();
    if n == 0 {
        return None;
    }
    let mut acc: u64 = 0;
    let mut i: usize = 0;
    while i < n
        invariant
            0 <= i <= n,
            n == s@.len(),
            acc as nat == hex_value(s@.take(i as int)),
            forall|j: int| 0 <= j < i ==> is_hex_digit(#[trigger] s@[j]),
        decreases n - i,
    {
        let c = s.get_char(i);
        match hex_digit_of_char(c) {
            None => {
                return None;
            },
            Some(d) => {
                if acc > (u64::MAX - d as u64) / 16 {
                    proof {
                        assert(hex_value(s@.take(i as int + 1))
                            == hex_value(s@.take(i as int)) * 16 + hex_digit_val(c)) by {
                            assert(s@.take(i as int + 1).drop_last() =~= s@.take(i as int));
                        }
                        assert(acc as nat * 16 + d as nat > u64::MAX) by (nonlinear_arith)
                            requires acc > (u64::MAX - d as u64) / 16, d < 16;
                        lemma_hex_value_prefix(s@, i as int + 1);
                    }
                    return None;
                }
                proof {
                    assert(acc as nat * 16 + d as nat <= u64::MAX) by (nonlinear_arith)
                        requires acc <= (u64::MAX - d as u64) / 16, d < 16;
                    assert(s@.take(i as int + 1).drop_last() =~= s@.take(i as int));
                }
                acc = acc * 16 + d as u64;
                i = i + 1;
            },
        }
    }
    proof {
        assert(s@.take(n as int) =~= s@);
    }
    Some(acc)
}

} // verus!
