//! Numbers as decimal text.

use vstd::prelude::*;
use vstd::string::StringExecFns;

verus! {

/// The character of a decimal digit.
pub open spec fn digit(d: int) -> char
    recommends
        0 <= d < 10,
{
    if d == 0 {
        '0'
    } else if d == 1 {
        '1'
    } else if d == 2 {
        '2'
    } else if d == 3 {
        '3'
    } else if d == 4 {
        '4'
    } else if d == 5 {
        '5'
    } else if d == 6 {
        '6'
    } else if d == 7 {
        '7'
    } else if d == 8 {
        '8'
    } else {
        '9'
    }
}

/// The decimal digits of `n`, without leading zeros.
pub open spec fn decimal(n: nat) -> Seq<char>
    decreases n,
{
    if n < 10 {
        seq![digit(n as int)]
    } else {
        decimal(n / 10).push(digit((n % 10) as int))
    }
}

/// The text of one decimal digit.
fn digit_text(d: u64) -> (res: &'static str)
    requires
        d < 10,
    ensures
        res@ == seq![digit(d as int)],
{
    proof {
        reveal_strlit("0");
        reveal_strlit("1");
        reveal_strlit("2");
        reveal_strlit("3");
        reveal_strlit("4");
        reveal_strlit("5");
        reveal_strlit("6");
        reveal_strlit("7");
        reveal_strlit("8");
        reveal_strlit("9");
    }
    let res = if d == 0 {
        "0"
    } else if d == 1 {
        "1"
    } else if d == 2 {
        "2"
    } else if d == 3 {
        "3"
    } else if d == 4 {
        "4"
    } else if d == 5 {
        "5"
    } else if d == 6 {
        "6"
    } else if d == 7 {
        "7"
    } else if d == 8 {
        "8"
    } else {
        "9"
    };
    assert(res@ =~= seq![digit(d as int)]);
    res
}

/// Appends the decimal digits of `n` to `text`.
pub fn append_decimal(text: &mut String, n: u64)
    ensures
        final(text)@ == old(text)@ + decimal(n as nat),
    decreases n,
{
    if n >= 10 {
        append_decimal(text, n / 10);
    }
    text.append(digit_text(n % 10));
    assert(final(text)@ =~= old(text)@ + decimal(n as nat));
}

/// Appends one space to `text`.
pub fn append_space(text: &mut String)
    ensures
        final(text)@ == old(text)@.push(' '),
{
    proof {
        reveal_strlit(" ");
    }
    text.append(" ");
    assert(final(text)@ =~= old(text)@.push(' '));
}

/// The head of a plain-text image of the given size: the format tag, the
/// width and the height, and the largest level, on three lines.
pub open spec fn spec_image_header(image_width: u64, image_height: u64) -> Seq<char> {
    seq!['P', '3', '\n'] + decimal(image_width as nat).push(' ') + decimal(image_height as nat)
        + seq!['\n', '2', '5', '5']
}

/// The head of a plain-text image of the given size, without a line end
/// after its last line.
pub fn image_header(image_width: u64, image_height: u64) -> (res: String)
    ensures
        res@ == spec_image_header(image_width, image_height),
{
    proof {
        reveal_strlit("P3\n");
        reveal_strlit("\n255");
    }
    let mut text = String::new();
    text.append("P3\n");
    append_decimal(&mut text, image_width);
    append_space(&mut text);
    append_decimal(&mut text, image_height);
    text.append("\n255");
    assert(text@ =~= spec_image_header(image_width, image_height));
    text
}

} // verus!
