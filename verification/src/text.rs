//! Rendering of unsigned numbers as text, for the names of the files that
//! the fuzzer keeps.

use vstd::prelude::*;
use vstd::string::StringExecFns;

verus! {

/// The character for one digit below sixteen, lower-case from ten on.
pub open spec fn digit_char(digit: int) -> char
    recommends
        0 <= digit < 16,
{
    if digit == 0 {
        '0'
    } else if digit == 1 {
        '1'
    } else if digit == 2 {
        '2'
    } else if digit == 3 {
        '3'
    } else if digit == 4 {
        '4'
    } else if digit == 5 {
        '5'
    } else if digit == 6 {
        '6'
    } else if digit == 7 {
        '7'
    } else if digit == 8 {
        '8'
    } else if digit == 9 {
        '9'
    } else if digit == 10 {
        'a'
    } else if digit == 11 {
        'b'
    } else if digit == 12 {
        'c'
    } else if digit == 13 {
        'd'
    } else if digit == 14 {
        'e'
    } else {
        'f'
    }
}

/// `number` in base sixteen: lower-case, most significant digit first, no
/// leading zeros, and `"0"` for zero.
pub open spec fn hex_text(number: nat) -> Seq<char>
    decreases number,
{
    if number < 16 {
        seq![digit_char(number as int)]
    } else {
        hex_text(number / 16).push(digit_char((number % 16) as int))
    }
}

/// `number` in base ten: most significant digit first, no leading zeros, and
/// `"0"` for zero.
pub open spec fn decimal_text(number: nat) -> Seq<char>
    decreases number,
{
    if number < 10 {
        seq![digit_char(number as int)]
    } else {
        decimal_text(number / 10).push(digit_char((number % 10) as int))
    }
}

/// Distinct digits have distinct characters.
pub proof fn lemma_digit_char_injective(a: int, b: int)
    requires
        0 <= a < 16,
        0 <= b < 16,
        digit_char(a) == digit_char(b),
    ensures
        a == b,
{
}

/// A number has at least two hexadecimal digits exactly from sixteen on.
pub proof fn lemma_hex_text_len(number: nat)
    ensures
        hex_text(number).len() >= 1,
        number >= 16 <==> hex_text(number).len() >= 2,
    decreases number,
{
    if number >= 16 {
        lemma_hex_text_len(number / 16);
    }
}

/// Distinct numbers have distinct hexadecimal renderings.
pub proof fn lemma_hex_text_injective(a: nat, b: nat)
    requires
        hex_text(a) == hex_text(b),
    ensures
        a == b,
    decreases a,
{
    lemma_hex_text_len(a);
    lemma_hex_text_len(b);
    if a < 16 {
        assert(hex_text(a)[0] == digit_char(a as int));
        assert(hex_text(b)[0] == digit_char(b as int));
        lemma_digit_char_injective(a as int, b as int);
    } else {
        let head_a = hex_text(a / 16);
        let head_b = hex_text(b / 16);
        let last_a = digit_char((a % 16) as int);
        let last_b = digit_char((b % 16) as int);
        assert(head_a.push(last_a) == head_b.push(last_b));
        assert(head_a.push(last_a).drop_last() =~= head_a);
        assert(head_b.push(last_b).drop_last() =~= head_b);
        assert(head_a.push(last_a).last() == last_a);
        assert(head_b.push(last_b).last() == last_b);
        lemma_hex_text_injective(a / 16, b / 16);
        lemma_digit_char_injective((a % 16) as int, (b % 16) as int);
    }
}

/// A number has at least two decimal digits exactly from ten on.
pub proof fn lemma_decimal_text_len(number: nat)
    ensures
        decimal_text(number).len() >= 1,
        number >= 10 <==> decimal_text(number).len() >= 2,
    decreases number,
{
    if number >= 10 {
        lemma_decimal_text_len(number / 10);
    }
}

/// Distinct numbers have distinct decimal renderings.
pub proof fn lemma_decimal_text_injective(a: nat, b: nat)
    requires
        decimal_text(a) == decimal_text(b),
    ensures
        a == b,
    decreases a,
{
    lemma_decimal_text_len(a);
    lemma_decimal_text_len(b);
    if a < 10 {
        assert(decimal_text(a)[0] == digit_char(a as int));
        assert(decimal_text(b)[0] == digit_char(b as int));
        lemma_digit_char_injective(a as int, b as int);
    } else {
        let head_a = decimal_text(a / 10);
        let head_b = decimal_text(b / 10);
        let last_a = digit_char((a % 10) as int);
        let last_b = digit_char((b % 10) as int);
        assert(head_a.push(last_a) == head_b.push(last_b));
        assert(head_a.push(last_a).drop_last() =~= head_a);
        assert(head_b.push(last_b).drop_last() =~= head_b);
        assert(head_a.push(last_a).last() == last_a);
        assert(head_b.push(last_b).last() == last_b);
        lemma_decimal_text_injective(a / 10, b / 10);
        lemma_digit_char_injective((a % 10) as int, (b % 10) as int);
    }
}

/// The one-character text of a digit.
fn digit_text(digit: u64) -> (text: &'static str)
    requires
        digit < 16,
    ensures
        text@ == seq![digit_char(digit as int)],
{
    proof {
        reveal_strlit("0");
        reveal_strlit("1");
        reveal_strlit("2");
        reveal_strlit("3");
        reveal_strlit("4");
        reveal_strlit("5");
        reveal_strlit("6");
        reveal_strlit("7");
        reveal_strlit("8");
        reveal_strlit("9");
        reveal_strlit("a");
        reveal_strlit("b");
        reveal_strlit("c");
        reveal_strlit("d");
        reveal_strlit("e");
        reveal_strlit("f");
    }
    let text = if digit == 0 {
        "0"
    } else if digit == 1 {
        "1"
    } else if digit == 2 {
        "2"
    } else if digit == 3 {
        "3"
    } else if digit == 4 {
        "4"
    } else if digit == 5 {
        "5"
    } else if digit == 6 {
        "6"
    } else if digit == 7 {
        "7"
    } else if digit == 8 {
        "8"
    } else if digit == 9 {
        "9"
    } else if digit == 10 {
        "a"
    } else if digit == 11 {
        "b"
    } else if digit == 12 {
        "c"
    } else if digit == 13 {
        "d"
    } else if digit == 14 {
        "e"
    } else {
        "f"
    };
    assert(text@ =~= seq![digit_char(digit as int)]);
    text
}

/// Renders `number` in lower-case hexadecimal.
pub fn to_hex(number: u64) -> (text: String)
    ensures
        text@ == hex_text(number as nat),
{
    let mut rest = number;
    let mut tail = String::new();
    assert(hex_text(number as nat) =~= hex_text(rest as nat) + tail@);
    while rest >= 16
        invariant
            hex_text(number as nat) == hex_text(rest as nat) + tail@,
        decreases rest,
    {
        let low = digit_text(rest % 16);
        let ghost before = tail@;
        tail = String::from_str(low).concat(tail.as_str());
        assert(hex_text(rest as nat) + before =~= hex_text((rest / 16) as nat) + tail@);
        rest = rest / 16;
    }
    let text = String::from_str(digit_text(rest)).concat(tail.as_str());
    assert(text@ =~= hex_text(rest as nat) + tail@);
    text
}

/// Renders `number` in decimal.
pub fn to_decimal(number: u64) -> (text: String)
    ensures
        text@ == decimal_text(number as nat),
{
    let mut rest = number;
    let mut tail = String::new();
    assert(decimal_text(number as nat) =~= decimal_text(rest as nat) + tail@);
    while rest >= 10
        invariant
            decimal_text(number as nat) == decimal_text(rest as nat) + tail@,
        decreases rest,
    {
        let low = digit_text(rest % 10);
        let ghost before = tail@;
        tail = String::from_str(low).concat(tail.as_str());
        assert(decimal_text(rest as nat) + before =~= decimal_text((rest / 10) as nat) + tail@);
        rest = rest / 10;
    }
    let text = String::from_str(digit_text(rest)).concat(tail.as_str());
    assert(text@ =~= decimal_text(rest as nat) + tail@);
    text
}

} // verus!
