//! Plain-text encodings shared by the signing code: lower-case
//! hexadecimal and unsigned decimal rendering.

use vstd::prelude::*;
use vstd::string::*;

verus! {

/// The character that stands for the hexadecimal digit `d` (`0`-`9`, `a`-`f`).
pub open spec fn hex_char(d: u8) -> char {
    if d < 10 {
        (48 + d) as char
    } else {
        (87 + d) as char
    }
}

/// Lower-case hexadecimal rendering of a byte string, two characters per
/// byte, high nibble first.
pub open spec fn hex_lower(bytes: Seq<u8>) -> Seq<char>
    decreases bytes.len(),
{
    if bytes.len() == 0 {
        Seq::empty()
    } else {
        let b = bytes.last();
        hex_lower(bytes.drop_last()) + seq![hex_char(b / 16), hex_char(b % 16)]
    }
}

/// The decimal digits (values `0`-`9`) of `n`, most significant first,
/// without leading zeros; `0` has the single digit `0`.
pub open spec fn decimal_digits(n: nat) -> Seq<u8>
    decreases n,
{
    if n < 10 {
        seq![n as u8]
    } else {
        decimal_digits(n / 10).push((n % 10) as u8)
    }
}

/// Decimal rendering of `n` as text.
pub open spec fn decimal_text(n: nat) -> Seq<char> {
    decimal_digits(n).map_values(|d: u8| hex_char(d))
}

/// Decimal rendering of `n` as ASCII bytes.
pub open spec fn decimal_ascii(n: nat) -> Seq<u8> {
    decimal_digits(n).map_values(|d: u8| (48 + d) as u8)
}

/// Appends the character of the hexadecimal digit `d` to `s`.
pub fn push_hex_digit(s: &mut String, d: u8)
    requires
        d < 16,
    ensures
        final(s)@ == old(s)@ + seq![hex_char(d)],
{
    let lit: &str = match d {
        0 => "0",
        1 => "1",
        2 => "2",
        3 => "3",
        4 => "4",
        5 => "5",
        6 => "6",
        7 => "7",
        8 => "8",
        9 => "9",
        10 => "a",
        11 => "b",
        12 => "c",
        13 => "d",
        14 => "e",
        _ => "f",
    };
    proof {
        reveal_strlit("0");
        reveal_strlit("1");
        reveal_strlit("2");
        reveal_strlit("3");
        reveal_strlit("4");
        reveal_strlit("5");
        reveal_strlit("6");
        reveal_strlit("7");
        reveal_strlit("8");
        reveal_strlit("9");
        reveal_strlit("a");
        reveal_strlit("b");
        reveal_strlit("c");
        reveal_strlit("d");
        reveal_strlit("e");
        reveal_strlit("f");
    }
    assert(lit@ == seq![hex_char(d)]);
    s.append(lit);
}


/// The decimal digits of `n` (values `0`-`9`), most significant first.
pub fn decimal_digits_of(n: u64) -> (digits: Vec<u8>)
    ensures
        digits@ == decimal_digits(n as nat),
    decreases n,
{
    if n < 10 {
        let mut digits: Vec<u8> = Vec::new();
        digits.push(n as u8);
        digits
    } else {
        let mut digits = decimal_digits_of(n / 10);
        digits.push((n % 10) as u8);
        digits
    }
}

/// Appends the decimal rendering of `n` to `s`.
pub fn push_decimal(s: &mut String, n: u64)
    ensures
        final(s)@ == old(s)@ + decimal_text(n as nat),
{
    let digits = decimal_digits_of(n);
    proof {
        lemma_decimal_digits_below_ten(n as nat);
    }
    let len = digits.len();
    let mut i: usize = 0;
    while i < len
        invariant
            len == digits@.len(),
            digits@ == decimal_digits(n as nat),
            i <= len,
            forall|k: int| 0 <= k < len ==> #[trigger] digits@[k] < 10,
            s@ == old(s)@ + decimal_text(n as nat).take(i as int),
        decreases len - i,
    {
        push_hex_digit(s, digits[i]);
        assert(decimal_text(n as nat).take(i as int + 1) =~= decimal_text(n as nat).take(
            i as int,
        ).push(hex_char(digits@[i as int])));
        i = i + 1;
    }
    assert(decimal_text(n as nat).take(len as int) =~= decimal_text(n as nat));
}

/// Every decimal digit is below ten.
pub proof fn lemma_decimal_digits_below_ten(n: nat)
    ensures
        forall|k: int| 0 <= k < decimal_digits(n).len() ==> #[trigger] decimal_digits(n)[k] < 10,
    decreases n,
{
    if n >= 10 {
        lemma_decimal_digits_below_ten(n / 10);
        let prev = decimal_digits(n / 10);
        assert forall|k: int| 0 <= k < decimal_digits(n).len() implies #[trigger] decimal_digits(
            n,
        )[k] < 10 by {
            if k < prev.len() {
                assert(decimal_digits(n)[k] == prev[k]);
            }
        }
    }
}

/// Appends the lower-case hexadecimal rendering of `bytes` to `s`.
pub fn push_hex_lower(s: &mut String, bytes: &[u8])
    ensures
        final(s)@ == old(s)@ + hex_lower(bytes@),
{
    let len = bytes.len();
    let mut i: usize = 0;
    while i < len
        invariant
            len == bytes@.len(),
            i <= len,
            s@ == old(s)@ + hex_lower(bytes@.take(i as int)),
        decreases len - i,
    {
        let b = bytes[i];
        push_hex_digit(s, b / 16);
        push_hex_digit(s, b % 16);
        assert(bytes@.take(i as int + 1).drop_last() =~= bytes@.take(i as int));
        i = i + 1;
    }
    assert(bytes@.take(len as int) =~= bytes@);
}


/// `prefix` followed by `detail`, as an owned string.
pub fn prefixed(prefix: &str, detail: &String) -> (r: String)
    ensures
        r@ == prefix@ + detail@,
{
    let head = String::from_str(prefix);
    head.concat(detail.as_str())
}


/// The number whose decimal digits (most significant first) are `digits`.
pub open spec fn digits_value(digits: Seq<u8>) -> nat
    decreases digits.len(),
{
    if digits.len() == 0 {
        0
    } else {
        digits_value(digits.drop_last()) * 10 + digits.last() as nat
    }
}

/// Reading the decimal digits of `n` back gives `n`.
pub proof fn lemma_decimal_digits_value(n: nat)
    ensures
        digits_value(decimal_digits(n)) == n,
        decimal_digits(n).len() > 0,
    decreases n,
{
    if n >= 10 {
        lemma_decimal_digits_value(n / 10);
        assert(decimal_digits(n).drop_last() =~= decimal_digits(n / 10));
        assert(decimal_digits(n).last() == (n % 10) as u8);
        assert(((n % 10) as u8) as nat == n % 10);
        assert(n == (n / 10) * 10 + n % 10) by (nonlinear_arith);
        assert(digits_value(decimal_digits(n)) == digits_value(decimal_digits(n / 10)) * 10 + (n
            % 10));
    } else {
        let d = decimal_digits(n);
        assert(d.drop_last() =~= Seq::<u8>::empty());
        assert(digits_value(d.drop_last()) == 0);
        assert((n as u8) as nat == n);
        assert(d.last() == n as u8);
        assert(digits_value(d) == digits_value(d.drop_last()) * 10 + d.last() as nat);
    }
}

/// Two numbers with the same decimal digits are equal.
pub proof fn lemma_decimal_digits_injective(a: nat, b: nat)
    requires
        decimal_digits(a) == decimal_digits(b),
    ensures
        a == b,
{
    lemma_decimal_digits_value(a);
    lemma_decimal_digits_value(b);
}

/// Distinct hexadecimal digits have distinct characters.
pub proof fn lemma_hex_char_injective(a: u8, b: u8)
    requires
        a < 16,
        b < 16,
        hex_char(a) == hex_char(b),
    ensures
        a == b,
{
}

/// Two numbers with the same decimal text are equal.
pub proof fn lemma_decimal_text_injective(a: nat, b: nat)
    requires
        decimal_text(a) == decimal_text(b),
    ensures
        a == b,
{
    lemma_decimal_digits_below_ten(a);
    lemma_decimal_digits_below_ten(b);
    let da = decimal_digits(a);
    let db = decimal_digits(b);
    assert(da.len() == decimal_text(a).len());
    assert(db.len() == decimal_text(b).len());
    assert forall|k: int| 0 <= k < da.len() implies da[k] == db[k] by {
        assert(decimal_text(a)[k] == hex_char(da[k]));
        assert(decimal_text(b)[k] == hex_char(db[k]));
        lemma_hex_char_injective(da[k], db[k]);
    }
    assert(da =~= db);
    lemma_decimal_digits_injective(a, b);
}

/// Every character of a decimal text is an ASCII digit.
pub proof fn lemma_decimal_text_is_digits(n: nat)
    ensures
        decimal_text(n).len() > 0,
        forall|k: int|
            0 <= k < decimal_text(n).len() ==> '0' <= #[trigger] decimal_text(n)[k] <= '9',
{
    lemma_decimal_digits_below_ten(n);
    lemma_decimal_digits_value(n);
    assert forall|k: int| 0 <= k < decimal_text(n).len() implies '0' <= #[trigger] decimal_text(
        n,
    )[k] <= '9' by {
        assert(decimal_text(n)[k] == hex_char(decimal_digits(n)[k]));
    }
}

/// Every byte of a decimal ASCII rendering is an ASCII digit.
pub proof fn lemma_decimal_ascii_is_digits(n: nat)
    ensures
        forall|k: int| 0 <= k < decimal_ascii(n).len() ==> 48 <= #[trigger] decimal_ascii(n)[k] <= 57,
{
    lemma_decimal_digits_below_ten(n);
    assert forall|k: int| 0 <= k < decimal_ascii(n).len() implies 48 <= #[trigger] decimal_ascii(
        n,
    )[k] <= 57 by {
        assert(decimal_ascii(n)[k] == (48 + decimal_digits(n)[k]) as u8);
    }
}

/// Two numbers with the same decimal ASCII rendering are equal.
pub proof fn lemma_decimal_ascii_injective(a: nat, b: nat)
    requires
        decimal_ascii(a) == decimal_ascii(b),
    ensures
        a == b,
{
    lemma_decimal_digits_below_ten(a);
    lemma_decimal_digits_below_ten(b);
    let da = decimal_digits(a);
    let db = decimal_digits(b);
    assert(da.len() == decimal_ascii(a).len());
    assert(db.len() == decimal_ascii(b).len());
    assert forall|k: int| 0 <= k < da.len() implies da[k] == db[k] by {
        assert(decimal_ascii(a)[k] == (48 + da[k]) as u8);
        assert(decimal_ascii(b)[k] == (48 + db[k]) as u8);
    }
    assert(da =~= db);
    lemma_decimal_digits_injective(a, b);
}

/// The hexadecimal rendering has two characters per byte.
pub proof fn lemma_hex_lower_len(bytes: Seq<u8>)
    ensures
        hex_lower(bytes).len() == 2 * bytes.len(),
    decreases bytes.len(),
{
    if bytes.len() > 0 {
        lemma_hex_lower_len(bytes.drop_last());
    }
}

/// Two byte strings with the same hexadecimal rendering are equal.
pub proof fn lemma_hex_lower_injective(a: Seq<u8>, b: Seq<u8>)
    requires
        hex_lower(a) == hex_lower(b),
    ensures
        a == b,
    decreases a.len(),
{
    lemma_hex_lower_len(a);
    lemma_hex_lower_len(b);
    if a.len() > 0 {
        let ha = hex_lower(a.drop_last());
        let hb = hex_lower(b.drop_last());
        lemma_hex_lower_len(a.drop_last());
        lemma_hex_lower_len(b.drop_last());
        let n = hex_lower(a).len();
        assert(hex_lower(a).take(n - 2) =~= ha);
        assert(hex_lower(b).take(n - 2) =~= hb);
        lemma_hex_lower_injective(a.drop_last(), b.drop_last());
        let x = a.last();
        let y = b.last();
        assert(hex_lower(a)[n - 2] == hex_char(x / 16));
        assert(hex_lower(b)[n - 2] == hex_char(y / 16));
        assert(hex_lower(a)[n - 1] == hex_char(x % 16));
        assert(hex_lower(b)[n - 1] == hex_char(y % 16));
        lemma_hex_char_injective(x / 16, y / 16);
        lemma_hex_char_injective(x % 16, y % 16);
        assert(x == y);
        assert(a =~= a.drop_last().push(x));
        assert(b =~= b.drop_last().push(y));
    }
}

} // verus!
