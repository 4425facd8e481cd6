//! Names in byte buffers and numbers in names.
use vstd::prelude::*;
use vstd::utf8;
use vstd::string::StringExecFns;
use vstd::string::StrSliceExecFns;

verus! {

/// The bytes in front of the first zero byte.
pub open spec fn until_nul(s: Seq<u8>) -> Seq<u8>
    decreases s.len(),
{
    if s.len() == 0 || s[0] == 0 {
        Seq::empty()
    } else {
        seq![s[0]] + until_nul(s.drop_first())
    }
}

/// The text of a byte string: empty where the bytes are not UTF-8.
pub open spec fn text_or_empty(s: Seq<u8>) -> Seq<char> {
    if utf8::valid_utf8(s) {
        utf8::decode_utf8(s)
    } else {
        Seq::empty()
    }
}

/// The text in front of the first zero byte.
pub open spec fn nul_text(s: Seq<u8>) -> Seq<char> {
    text_or_empty(until_nul(s))
}

/// What stands in front of the first zero byte is a front of the bytes.
pub proof fn lemma_until_nul(s: Seq<u8>, n: int)
    requires
        0 <= n <= s.len(),
        forall|i: int| 0 <= i < n ==> s[i] != 0,
        n < s.len() ==> s[n] == 0,
    ensures
        until_nul(s) == s.take(n),
    decreases n,
{
    if n > 0 {
        let t = s.drop_first();
        assert forall|i: int| 0 <= i < n - 1 implies t[i] != 0 by {
            assert(t[i] == s[i + 1]);
        }
        lemma_until_nul(t, n - 1);
        assert(seq![s[0]] + t.take(n - 1) =~= s.take(n));
    } else {
        assert(s.take(0) =~= Seq::<u8>::empty());
    }
}

/// How many bytes stand in front of the first zero byte.
pub fn nul_position(s: &[u8]) -> (r: usize)
    ensures
        r <= s@.len(),
        until_nul(s@) == s@.take(r as int),
{
    let mut n: usize = 0;
    while n < s.len() && s[n] != 0
        invariant
            n <= s@.len(),
            forall|i: int| 0 <= i < n ==> s@[i] != 0,
        decreases s@.len() - n,
    {
        n = n + 1;
    }
    proof {
        lemma_until_nul(s@, n as int);
    }
    n
}

/// `core::str::from_utf8`: the text that the bytes encode, or nothing where
/// they are not UTF-8.
#[verifier::external_body]
pub(crate) fn text_of_bytes(s: &[u8]) -> (r: Option<String>)
    ensures
        match r {
            Some(t) => utf8::valid_utf8(s@) && t@ == utf8::decode_utf8(s@),
            None => !utf8::valid_utf8(s@),
        },
{
    match core::str::from_utf8(s) {
        Ok(t) => Some(t.to_owned()),
        Err(_) => None,
    }
}

/// The text in front of the first zero byte, empty where it is not UTF-8.
pub fn nul_string(s: &[u8]) -> (r: String)
    ensures
        r@ == nul_text(s@),
{
    let n: usize = nul_position(s);
    let front = vstd::slice::slice_subrange(s, 0, n);
    assert(front@ =~= s@.take(n as int));
    match text_of_bytes(front) {
        Some(t) => t,
        None => String::new(),
    }
}

/// The character of a decimal digit.
pub open spec fn digit_char(d: int) -> char {
    (48 + d) as char
}

/// The decimal digits of `n`.
pub open spec fn decimal(n: nat) -> Seq<char>
    decreases n,
{
    if n < 10 {
        seq![digit_char(n as int)]
    } else {
        decimal(n / 10).push(digit_char((n % 10) as int))
    }
}

/// The decimal digits of `n`, with zeros in front up to `width` characters.
pub open spec fn padded_decimal(n: nat, width: nat) -> Seq<char> {
    let d = decimal(n);
    if d.len() >= width {
        d
    } else {
        Seq::new((width - d.len()) as nat, |i: int| '0') + d
    }
}

pub open spec fn is_digit(c: char) -> bool {
    '0' <= c <= '9'
}

/// The number that decimal digits spell.
pub open spec fn digits_value(s: Seq<char>) -> nat
    decreases s.len(),
{
    if s.len() == 0 {
        0
    } else {
        10 * digits_value(s.drop_last()) + (s.last() as int - 48) as nat
    }
}

fn push_digit(s: &mut String, d: u8)
    requires
        d < 10,
    ensures
        final(s)@ == old(s)@.push(digit_char(d as int)),
{
    proof {
        reveal_strlit("0");
        reveal_strlit("1");
        reveal_strlit("2");
        reveal_strlit("3");
        reveal_strlit("4");
        reveal_strlit("5");
        reveal_strlit("6");
        reveal_strlit("7");
        reveal_strlit("8");
        reveal_strlit("9");
    }
    let ghost before = s@;
    let t: &str = match d {
        0 => "0",
        1 => "1",
        2 => "2",
        3 => "3",
        4 => "4",
        5 => "5",
        6 => "6",
        7 => "7",
        8 => "8",
        _ => "9",
    };
    assert(t@ =~= seq![digit_char(d as int)]);
    s.append(t);
    assert(s@ =~= before.push(digit_char(d as int)));
}

/// Appends the decimal digits of `n`.
pub fn push_decimal(s: &mut String, n: u64)
    ensures
        final(s)@ == old(s)@ + decimal(n as nat),
    decreases n,
{
    let ghost before = s@;
    if n < 10 {
        push_digit(s, n as u8);
        assert(s@ =~= before + decimal(n as nat));
    } else {
        push_decimal(s, n / 10);
        push_digit(s, (n % 10) as u8);
        assert(s@ =~= before + decimal(n as nat));
    }
}

/// Appends the decimal digits of `n`, with zeros in front up to `width`.
pub fn push_padded_decimal(s: &mut String, n: u64, width: usize)
    ensures
        final(s)@ == old(s)@ + padded_decimal(n as nat, width as nat),
{
    let ghost before = s@;
    let mut digits: usize = 1;
    let mut rest: u64 = n;
    let ghost full = decimal(n as nat);
    while rest >= 10
        invariant
            1 <= digits <= 21,
            full.len() == decimal(rest as nat).len() + (digits - 1),
            rest as int * power10((digits - 1) as nat) <= n,
        decreases rest,
    {
        proof {
            let d = (digits - 1) as nat;
            assert(decimal(rest as nat) == decimal(rest as nat / 10).push(
                digit_char((rest as nat % 10) as int),
            ));
            lemma_power10_bound(d);
            assert(power10(d + 1) == 10 * power10(d));
            assert((rest as int / 10) * power10(d + 1) <= rest as int * power10(d))
                by (nonlinear_arith)
                requires
                    power10(d + 1) == 10 * power10(d),
                    power10(d) >= 0,
            ;
            lemma_power10_bound(d + 1);
            if digits >= 20 {
                assert(rest as int / 10 >= 1);
                assert((rest as int / 10) * power10(d + 1) >= power10(d + 1)) by (nonlinear_arith)
                    requires
                        rest as int / 10 >= 1,
                        power10(d + 1) >= 0,
                ;
            }
        }
        rest = rest / 10;
        digits = digits + 1;
    }
    let mut k: usize = digits;
    while k < width
        invariant
            digits <= k,
            s@ =~= before + Seq::new((k - digits) as nat, |i: int| '0'),
            k <= width || k == digits,
        decreases width - k,
    {
        push_digit(s, 0);
        k = k + 1;
    }
    push_decimal(s, n);
    assert(s@ =~= before + padded_decimal(n as nat, width as nat));
}

pub open spec fn power10(n: nat) -> int
    decreases n,
{
    if n == 0 {
        1
    } else {
        10 * power10((n - 1) as nat)
    }
}

proof fn lemma_power10_bound(n: nat)
    ensures
        power10(n) >= 1,
        n >= 20 ==> power10(n) > u64::MAX,
    decreases n,
{
    if n > 0 {
        lemma_power10_bound((n - 1) as nat);
        if n == 20 {
            reveal_with_fuel(power10, 21);
        }
    }
}

/// How many of the last characters are decimal digits.
pub open spec fn trailing_digits(s: Seq<char>) -> nat
    decreases s.len(),
{
    if s.len() > 0 && is_digit(s.last()) {
        1 + trailing_digits(s.drop_last())
    } else {
        0
    }
}

pub proof fn lemma_trailing_digits(s: Seq<char>, n: int)
    requires
        0 <= n <= s.len(),
        forall|i: int| s.len() - n <= i < s.len() ==> is_digit(s[i]),
        n < s.len() ==> !is_digit(s[s.len() - n - 1]),
    ensures
        trailing_digits(s) == n,
    decreases s.len(),
{
    if s.len() > 0 && n > 0 {
        let t = s.drop_last();
        assert(s[s.len() - 1] == s.last());
        assert forall|i: int| t.len() - (n - 1) <= i < t.len() implies is_digit(t[i]) by {
            assert(t[i] == s[i]);
        }
        lemma_trailing_digits(t, n - 1);
    }
}

/// The last characters that are counted are digits.
pub proof fn lemma_trailing_are_digits(s: Seq<char>)
    ensures
        trailing_digits(s) <= s.len(),
        forall|i: int| s.len() - trailing_digits(s) <= i < s.len() ==> is_digit(s[i]),
    decreases s.len(),
{
    if s.len() > 0 && is_digit(s.last()) {
        let t = s.drop_last();
        lemma_trailing_are_digits(t);
        assert forall|i: int| s.len() - trailing_digits(s) <= i < s.len() implies is_digit(s[i]) by {
            if i < s.len() - 1 {
                assert(s[i] == t[i]);
            }
        }
    }
}

/// How many of the last characters are decimal digits.
pub fn count_trailing_digits(s: &str) -> (r: usize)
    ensures
        r == trailing_digits(s@),
        r <= s@.len(),
{
    let len: usize = s.unicode_len();
    let mut n: usize = 0;
    while n < len
        invariant
            n <= len,
            len == s@.len(),
            forall|i: int| s@.len() - n <= i < s@.len() ==> is_digit(s@[i]),
        decreases len - n,
    {
        let c: char = s.get_char(len - n - 1);
        if !('0' <= c && c <= '9') {
            proof {
                lemma_trailing_digits(s@, n as int);
            }
            return n;
        }
        n = n + 1;
    }
    proof {
        lemma_trailing_digits(s@, n as int);
    }
    n
}

/// The number that decimal digits spell, or nothing where it does not fit.
pub fn parse_digits(s: &str) -> (r: Option<u64>)
    requires
        forall|i: int| 0 <= i < s@.len() ==> is_digit(#[trigger] s@[i]),
    ensures
        r == if digits_value(s@) <= u64::MAX {
            Some(digits_value(s@) as u64)
        } else {
            None
        },
{
    let len: usize = s.unicode_len();
    let mut v: u64 = 0;
    let mut i: usize = 0;
    while i < len
        invariant
            i <= len,
            len == s@.len(),
            v == digits_value(s@.take(i as int)),
            forall|k: int| 0 <= k < s@.len() ==> is_digit(#[trigger] s@[k]),
        decreases len - i,
    {
        let c: char = s.get_char(i);
        let d: u64 = c as u64 - 48;
        proof {
            let t = s@.take(i + 1);
            assert(t.drop_last() =~= s@.take(i as int));
            assert(t.last() == c);
            lemma_digits_grow(s@, i + 1);
        }
        match v.checked_mul(10) {
            None => {
                return None;
            },
            Some(w) => {
                match w.checked_add(d) {
                    None => {
                        return None;
                    },
                    Some(x) => {
                        v = x;
                    },
                }
            },
        }
        i = i + 1;
    }
    assert(s@.take(i as int) =~= s@);
    Some(v)
}

/// More digits do not make a smaller number.
proof fn lemma_digits_grow(s: Seq<char>, i: int)
    requires
        0 <= i <= s.len(),
        forall|k: int| 0 <= k < s.len() ==> is_digit(#[trigger] s[k]),
    ensures
        digits_value(s.take(i)) <= digits_value(s),
    decreases s.len() - i,
{
    if i == s.len() {
        assert(s.take(i) =~= s);
    } else {
        lemma_digits_grow(s, i + 1);
        let t = s.take(i + 1);
        assert(t.drop_last() =~= s.take(i));
        assert(is_digit(s[i]));
    }
}

/// The digits of a number spell the number.
pub proof fn law_decimal_spells(n: nat)
    ensures
        digits_value(decimal(n)) == n,
        forall|i: int| 0 <= i < decimal(n).len() ==> is_digit(#[trigger] decimal(n)[i]),
    decreases n,
{
    if n >= 10 {
        law_decimal_spells(n / 10);
        let d = decimal(n);
        assert(d.drop_last() =~= decimal(n / 10));
        assert forall|i: int| 0 <= i < d.len() implies is_digit(#[trigger] d[i]) by {
            if i < d.len() - 1 {
                assert(d[i] == decimal(n / 10)[i]);
            }
        }
    } else {
        let d = decimal(n);
        assert(d.drop_last() =~= Seq::<char>::empty());
        assert(digits_value(d.drop_last()) == 0);
    }
}

} // verus!
