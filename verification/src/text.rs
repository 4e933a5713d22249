//! Text helpers: models of optional and listed strings, decimal numbers and string order.

use vstd::prelude::*;
use vstd::string::*;

verus! {

/// The characters of an optional string.
pub open spec fn opt_text(value: Option<String>) -> Option<Seq<char>> {
    match value {
        Some(s) => Some(s@),
        None => None,
    }
}

/// The characters of each string of a list.
pub open spec fn texts(values: Seq<String>) -> Seq<Seq<char>> {
    values.map_values(|s: String| s@)
}

/// A copy of an optional string.
pub fn copy_opt(value: &Option<String>) -> (r: Option<String>)
    ensures
        opt_text(r) == opt_text(*value),
{
    match value {
        Some(s) => Some(s.clone()),
        None => None,
    }
}

/// The characters of a string, as a vector.
pub fn chars_of(s: &str) -> (r: Vec<char>)
    ensures
        r@ == s@,
{
    let mut out: Vec<char> = Vec::new();
    for c in it: s.chars()
        invariant
            it.seq() == s@,
            out@ == s@.take(it.index()),
    {
        out.push(c);
        assert(s@.take(it.index() + 1) == s@.take(it.index()).push(c));
    }
    out
}

/// How two strings stand to each other in the order of their characters.
#[derive(Debug, Clone, Copy, PartialEq, Eq, Structural)]
pub enum TextOrder {
    Before,
    Same,
    After,
}

/// Whether `a` comes before `b` when both are compared character by character,
/// a proper prefix coming first.
pub open spec fn precedes(a: Seq<char>, b: Seq<char>) -> bool
    decreases a.len(),
{
    if b.len() == 0 {
        false
    } else if a.len() == 0 {
        true
    } else {
        a[0] < b[0] || (a[0] == b[0] && precedes(a.drop_first(), b.drop_first()))
    }
}

/// Compares two strings in the order of their characters.
pub fn text_order(a: &str, b: &str) -> (r: TextOrder)
    ensures
        r == TextOrder::Before <==> precedes(a@, b@),
        r == TextOrder::Same <==> a@ == b@,
        r == TextOrder::After <==> precedes(b@, a@),
{
    let mut xs = a.chars();
    let mut ys = b.chars();
    loop
        invariant
            vstd::std_specs::iter::IteratorSpec::obeys_prophetic_iter_laws(&xs),
            vstd::std_specs::iter::IteratorSpec::obeys_prophetic_iter_laws(&ys),
            vstd::std_specs::iter::IteratorSpec::decrease(&xs) is Some,
            precedes(a@, b@) <==> precedes(vstd::std_specs::iter::IteratorSpec::remaining(&xs), vstd::std_specs::iter::IteratorSpec::remaining(&ys)),
            precedes(b@, a@) <==> precedes(vstd::std_specs::iter::IteratorSpec::remaining(&ys), vstd::std_specs::iter::IteratorSpec::remaining(&xs)),
            a@ == b@ <==> vstd::std_specs::iter::IteratorSpec::remaining(&xs) == vstd::std_specs::iter::IteratorSpec::remaining(&ys),
        decreases vstd::std_specs::iter::IteratorSpec::decrease(&xs)->0,
    {
        let ghost xr = vstd::std_specs::iter::IteratorSpec::remaining(&xs);
        let ghost yr = vstd::std_specs::iter::IteratorSpec::remaining(&ys);
        let x = xs.next();
        let y = ys.next();
        match (x, y) {
            (None, None) => {
                assert(xr =~= yr);
                return TextOrder::Same;
            },
            (None, Some(_)) => {
                return TextOrder::Before;
            },
            (Some(_), None) => {
                return TextOrder::After;
            },
            (Some(c), Some(d)) => {
                if c < d {
                    return TextOrder::Before;
                }
                if d < c {
                    return TextOrder::After;
                }
                proof {
                    assert(xr == seq![c] + vstd::std_specs::iter::IteratorSpec::remaining(&xs));
                    assert(yr == seq![d] + vstd::std_specs::iter::IteratorSpec::remaining(&ys));
                }
            },
        }
    }
}

/// Whether two strings hold the same characters.
pub fn same_text(a: &str, b: &str) -> (r: bool)
    ensures
        r == (a@ == b@),
{
    match text_order(a, b) {
        TextOrder::Same => true,
        _ => false,
    }
}

/// No string comes before itself.
pub proof fn precedes_is_irreflexive(a: Seq<char>)
    ensures
        !precedes(a, a),
    decreases a.len(),
{
    if a.len() > 0 {
        precedes_is_irreflexive(a.drop_first());
    }
}

/// The order of strings is transitive.
pub proof fn precedes_is_transitive(a: Seq<char>, b: Seq<char>, c: Seq<char>)
    requires
        precedes(a, b),
        precedes(b, c),
    ensures
        precedes(a, c),
    decreases a.len(),
{
    if a.len() > 0 && a[0] == b[0] && b[0] == c[0] {
        precedes_is_transitive(a.drop_first(), b.drop_first(), c.drop_first());
    }
}

/// Of two different strings one comes before the other.
pub proof fn precedes_is_total(a: Seq<char>, b: Seq<char>)
    ensures
        a == b || precedes(a, b) || precedes(b, a),
    decreases a.len(),
{
    if a.len() == 0 || b.len() == 0 {
        if a.len() == b.len() {
            assert(a =~= b);
        }
    } else if a[0] == b[0] {
        precedes_is_total(a.drop_first(), b.drop_first());
        if a.drop_first() == b.drop_first() {
            assert(a =~= seq![a[0]] + a.drop_first());
            assert(b =~= seq![b[0]] + b.drop_first());
        }
    }
}

/// The character of a decimal digit.
pub open spec fn digit_char(digit: int) -> char {
    (48 + digit) as char
}

/// A natural number in decimal, without leading zeros.
pub open spec fn nat_text(n: int) -> Seq<char>
    decreases n,
{
    if n < 10 {
        seq![digit_char(n)]
    } else {
        nat_text(n / 10).push(digit_char(n % 10))
    }
}

/// An integer in decimal, with a minus sign where it is negative.
pub open spec fn int_text(n: int) -> Seq<char> {
    if n < 0 {
        seq!['-'] + nat_text(-n)
    } else {
        nat_text(n)
    }
}

/// The text of one decimal digit.
fn digit_text(digit: u64) -> (r: &'static str)
    requires
        digit < 10,
    ensures
        r@ == seq![digit_char(digit as int)],
{
    proof {
        reveal_strlit("0");
        reveal_strlit("1");
        reveal_strlit("2");
        reveal_strlit("3");
        reveal_strlit("4");
        reveal_strlit("5");
        reveal_strlit("6");
        reveal_strlit("7");
        reveal_strlit("8");
        reveal_strlit("9");
    }
    match digit {
        0 => "0",
        1 => "1",
        2 => "2",
        3 => "3",
        4 => "4",
        5 => "5",
        6 => "6",
        7 => "7",
        8 => "8",
        _ => "9",
    }
}

/// Writes a natural number in decimal.
pub fn unsigned_text(n: u64) -> (r: String)
    ensures
        r@ == nat_text(n as int),
    decreases n,
{
    if n < 10 {
        digit_text(n).to_owned()
    } else {
        unsigned_text(n / 10).concat(digit_text(n % 10))
    }
}

/// Writes an integer in decimal.
pub fn signed_text(n: i64) -> (r: String)
    ensures
        r@ == int_text(n as int),
{
    if n >= 0 {
        unsigned_text(n as u64)
    } else {
        proof {
            reveal_strlit("-");
        }
        let magnitude: u64 = (-(n as i128)) as u64;
        let sign: String = "-".to_owned();
        let digits = unsigned_text(magnitude);
        sign.concat(digits.as_str())
    }
}

/// Whether a character is a decimal digit.
pub open spec fn is_digit(c: char) -> bool {
    '0' <= c && c <= '9'
}

/// The number that a run of decimal digits stands for.
pub open spec fn digits_value(s: Seq<char>) -> int
    decreases s.len(),
{
    if s.len() == 0 {
        0
    } else {
        digits_value(s.drop_last()) * 10 + (s.last() as int - 48)
    }
}

/// The digits of a decimal number that may start with a sign.
pub open spec fn unsigned_part(s: Seq<char>) -> Seq<char> {
    if s.len() > 0 && (s[0] == '-' || s[0] == '+') {
        s.drop_first()
    } else {
        s
    }
}

/// The number that a decimal text stands for: an optional sign and at least one digit,
/// nothing else, with a value that fits in 64 bits.
pub open spec fn decimal_i64(s: Seq<char>) -> Option<i64> {
    let digits = unsigned_part(s);
    let magnitude = digits_value(digits);
    let value = if s.len() > 0 && s[0] == '-' {
        -magnitude
    } else {
        magnitude
    };
    if digits.len() > 0 && (forall|i: int| 0 <= i < digits.len() ==> is_digit(#[trigger] digits[i]))
        && i64::MIN <= value <= i64::MAX {
        Some(value as i64)
    } else {
        None
    }
}

/// Reads the first `end` characters as a decimal number.
pub fn parse_decimal(chars: &Vec<char>, end: usize) -> (r: Option<i64>)
    requires
        end <= chars@.len(),
    ensures
        r == decimal_i64(chars@.take(end as int)),
{
    let ghost whole = chars@.take(end as int);
    let ghost digits = unsigned_part(whole);
    let negative: bool = end > 0 && chars[0] == '-';
    let start: usize = if end > 0 && (chars[0] == '-' || chars[0] == '+') {
        1
    } else {
        0
    };
    assert(digits =~= chars@.subrange(start as int, end as int));
    if start == end {
        return None;
    }
    let mut magnitude: u64 = 0;
    let mut too_large: bool = false;
    let mut i: usize = start;
    while i < end
        invariant
            start <= i <= end <= chars@.len(),
            digits == unsigned_part(chars@.take(end as int)),
            digits == chars@.subrange(start as int, end as int),
            forall|j: int| 0 <= j < i - start ==> is_digit(#[trigger] digits[j]),
            digits_value(digits.take(i - start)) >= 0,
            !too_large ==> magnitude == digits_value(digits.take(i - start)) && magnitude
                <= 0x8000_0000_0000_0000,
            too_large ==> digits_value(digits.take(i - start)) > 0x8000_0000_0000_0000,
        decreases end - i,
    {
        let c = chars[i];
        assert(digits[i - start] == c);
        if !('0' <= c && c <= '9') {
            return None;
        }
        let digit: u64 = c as u64 - 48;
        proof {
            assert(digits.take(i - start + 1).drop_last() =~= digits.take(i - start));
            assert(digits.take(i - start + 1).last() == c);
        }
        if !too_large {
            let next: u128 = magnitude as u128 * 10 + digit as u128;
            if next > 0x8000_0000_0000_0000 {
                too_large = true;
            } else {
                magnitude = next as u64;
            }
        }
        i = i + 1;
    }
    assert(digits.take(end - start) =~= digits);
    if too_large {
        None
    } else if negative {
        Some((-(magnitude as i128)) as i64)
    } else if magnitude <= 0x7fff_ffff_ffff_ffff {
        Some(magnitude as i64)
    } else {
        None
    }
}

/// The digits written for a natural number stand for that number.
pub proof fn nat_text_reads_back(n: int)
    requires
        n >= 0,
    ensures
        nat_text(n).len() > 0,
        forall|i: int| 0 <= i < nat_text(n).len() ==> is_digit(#[trigger] nat_text(n)[i]),
        digits_value(nat_text(n)) == n,
    decreases n,
{
    if n < 10 {
        assert(nat_text(n).drop_last() =~= Seq::<char>::empty());
        assert(digits_value(Seq::<char>::empty()) == 0);
    } else {
        nat_text_reads_back(n / 10);
        assert(nat_text(n).drop_last() =~= nat_text(n / 10));
    }
}

/// Reading a written 64 bit integer gives that integer back.
pub proof fn int_text_reads_back(n: i64)
    ensures
        decimal_i64(int_text(n as int)) == Some(n),
{
    if n < 0 {
        nat_text_reads_back(-(n as int));
        assert(unsigned_part(int_text(n as int)) =~= nat_text(-(n as int)));
    } else {
        nat_text_reads_back(n as int);
        assert(is_digit(nat_text(n as int)[0]));
    }
}

/// Of two texts the one with the smaller character where they first differ comes first, and a text
/// comes before those that it begins.
pub proof fn the_first_difference_decides(a: Seq<char>, b: Seq<char>, i: int)
    requires
        0 <= i <= a.len(),
        i < b.len(),
        a.take(i) == b.take(i),
        i < a.len() ==> a[i] < b[i],
    ensures
        precedes(a, b),
    decreases i,
{
    if i > 0 {
        assert(a[0] == a.take(i)[0] && b[0] == b.take(i)[0]);
        assert(a.drop_first().take(i - 1) =~= a.take(i).drop_first());
        assert(b.drop_first().take(i - 1) =~= b.take(i).drop_first());
        the_first_difference_decides(a.drop_first(), b.drop_first(), i - 1);
    }
}

/// A digit at the end of a run of digits makes it stand for ten times as much and that digit.
/// Nothing stands for zero.
pub proof fn digits_count_by_ten(digits: Seq<char>, digit: char)
    ensures
        digits_value(Seq::<char>::empty()) == 0,
        is_digit(digit) ==> digits_value(digits.push(digit)) == 10 * digits_value(digits) + (
        digit as int - '0' as int),
{
    assert(digits.push(digit).drop_last() =~= digits);
}

/// Every run of digits is read as the number that it stands for, with a sign or without, as long
/// as that number fits.
pub proof fn digits_are_read_with_their_sign(digits: Seq<char>)
    requires
        digits.len() > 0,
        forall|i: int| 0 <= i < digits.len() ==> is_digit(#[trigger] digits[i]),
    ensures
        ({
            let value = digits_value(digits);
            let fits = value <= i64::MAX;
            &&& value >= 0
            &&& fits ==> decimal_i64(digits) == Some(value as i64)
            &&& fits ==> decimal_i64(seq!['+'] + digits) == Some(value as i64)
            &&& !fits ==> decimal_i64(digits) is None && decimal_i64(seq!['+'] + digits) is None
            &&& -value >= i64::MIN ==> decimal_i64(seq!['-'] + digits) == Some((-value) as i64)
            &&& -value < i64::MIN ==> decimal_i64(seq!['-'] + digits) is None
        }),
{
    assert(is_digit(digits[0]));
    assert(unsigned_part(digits) == digits);
    assert(unsigned_part(seq!['+'] + digits) =~= digits);
    assert(unsigned_part(seq!['-'] + digits) =~= digits);
    digits_are_not_negative(digits);
}

/// Digits stand for no negative number.
proof fn digits_are_not_negative(digits: Seq<char>)
    requires
        forall|i: int| 0 <= i < digits.len() ==> is_digit(#[trigger] digits[i]),
    ensures
        digits_value(digits) >= 0,
    decreases digits.len(),
{
    if digits.len() > 0 {
        assert(is_digit(digits[digits.len() - 1]));
        assert forall|i: int| 0 <= i < digits.drop_last().len() implies is_digit(
            #[trigger] digits.drop_last()[i],
        ) by {
            assert(is_digit(digits[i]));
        }
        digits_are_not_negative(digits.drop_last());
    }
}

/// What is read as a number has only digits, after a sign at most, and at least one of them.
pub proof fn only_digits_are_numbers(s: Seq<char>, i: int)
    requires
        decimal_i64(s) is Some,
    ensures
        s.len() > 0,
        0 <= i < s.len() ==> '0' <= s[i] <= '9' || (i == 0 && s.len() > 1 && (s[0] == '-' || s[0]
            == '+')),
{
    let digits = unsigned_part(s);
    if 0 <= i < s.len() {
        if digits.len() == s.len() {
            assert(is_digit(digits[i]));
        } else if i > 0 {
            assert(is_digit(digits[i - 1]));
        }
    }
}

/// A number is written without zeros in front.
pub proof fn numbers_do_not_begin_with_zero(n: int)
    requires
        n > 0,
    ensures
        nat_text(n)[0] != '0',
    decreases n,
{
    if n >= 10 {
        numbers_do_not_begin_with_zero(n / 10);
        nat_text_reads_back(n / 10);
    }
}

/// The model of an optional text is a text exactly where there is one, and that text.
pub proof fn optional_texts_are_kept(value: Option<String>)
    ensures
        opt_text(value) is Some <==> value is Some,
        value matches Some(s) ==> opt_text(value) == Some(s@),
{
}

} // verus!
