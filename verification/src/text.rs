//! Building message texts: decimal numbers, positions, joined lines.

use vstd::prelude::*;

verus! {

/// The character that writes the digit `d`.
pub open spec fn digit_char(d: nat) -> char {
    if d == 0 {
        '0'
    } else if d == 1 {
        '1'
    } else if d == 2 {
        '2'
    } else if d == 3 {
        '3'
    } else if d == 4 {
        '4'
    } else if d == 5 {
        '5'
    } else if d == 6 {
        '6'
    } else if d == 7 {
        '7'
    } else if d == 8 {
        '8'
    } else {
        '9'
    }
}

/// `n` written in base ten, without leading zeros.
pub open spec fn decimal(n: nat) -> Seq<char>
    decreases n,
{
    if n < 10 {
        seq![digit_char(n)]
    } else {
        decimal(n / 10).push(digit_char(n % 10))
    }
}

/// A message with the position it is about in front of it.
pub open spec fn located(line: nat, column: nat, message: Seq<char>) -> Seq<char> {
    "[Line "@ + decimal(line) + ", Col "@ + decimal(column) + "] "@ + message
}

/// The lines of `lines` with a line feed between each two.
pub open spec fn joined(lines: Seq<Seq<char>>) -> Seq<char>
    decreases lines.len(),
{
    if lines.len() == 0 {
        Seq::empty()
    } else if lines.len() == 1 {
        lines[0]
    } else {
        joined(lines.drop_last()) + "\n"@ + lines.last()
    }
}

/// The texts of `strings`, in order.
pub open spec fn string_views(strings: Seq<String>) -> Seq<Seq<char>> {
    Seq::new(strings.len(), |i: int| strings[i]@)
}

/// `text` as the `Debug` formatting of `str` writes it: between double
/// quotes, with the characters that need it escaped.
pub uninterp spec fn quoted(text: Seq<char>) -> Seq<char>;

/// Formats `text` with `str`'s `Debug` implementation. What that writes
/// depends on the text alone; it is only named here.
#[verifier::external_body]
pub(crate) fn quoted_string(text: &str) -> (r: String)
    ensures
        r@ == quoted(text@),
{
    format!("{:?}", text)
}

/// The one-character text for a digit below ten.
fn digit_text(d: usize) -> (r: &'static str)
    requires
        d < 10,
    ensures
        r@ == seq![digit_char(d as nat)],
{
    proof {
        reveal_strlit("0");
        reveal_strlit("1");
        reveal_strlit("2");
        reveal_strlit("3");
        reveal_strlit("4");
        reveal_strlit("5");
        reveal_strlit("6");
        reveal_strlit("7");
        reveal_strlit("8");
        reveal_strlit("9");
    }
    let r = if d == 0 {
        "0"
    } else if d == 1 {
        "1"
    } else if d == 2 {
        "2"
    } else if d == 3 {
        "3"
    } else if d == 4 {
        "4"
    } else if d == 5 {
        "5"
    } else if d == 6 {
        "6"
    } else if d == 7 {
        "7"
    } else if d == 8 {
        "8"
    } else {
        "9"
    };
    assert(r@ =~= seq![digit_char(d as nat)]);
    r
}

/// Writes `n` in base ten.
pub fn decimal_string(n: usize) -> (r: String)
    ensures
        r@ == decimal(n as nat),
    decreases n,
{
    if n < 10 {
        String::from_str(digit_text(n))
    } else {
        let mut text = decimal_string(n / 10);
        let last = digit_text(n % 10);
        text.append(last);
        assert(text@ =~= decimal(n as nat));
        text
    }
}

/// Puts the position `line`, `column` in front of `message`.
pub fn located_string(line: usize, column: usize, message: &str) -> (r: String)
    ensures
        r@ == located(line as nat, column as nat, message@),
{
    let mut text = String::from_str("[Line ");
    let line_text = decimal_string(line);
    text.append(line_text.as_str());
    text.append(", Col ");
    let column_text = decimal_string(column);
    text.append(column_text.as_str());
    text.append("] ");
    text.append(message);
    text
}

/// Puts `heading` on a line of its own above the lines of `lines`.
pub fn report_string(heading: &str, lines: &[String]) -> (r: String)
    ensures
        r@ == heading@ + "\n"@ + joined(string_views(lines@)),
{
    let mut text = String::from_str(heading);
    text.append("\n");
    let ghost head = text@;
    let mut i: usize = 0;
    while i < lines.len()
        invariant
            i <= lines.len(),
            text@ == head + joined(string_views(lines@).take(i as int)),
        decreases lines.len() - i,
    {
        proof {
            let all = string_views(lines@);
            assert(all.take(i + 1).drop_last() =~= all.take(i as int));
            assert(all.take(i + 1).last() == lines@[i as int]@);
            if i == 0 {
                assert(joined(all.take(0)) =~= Seq::<char>::empty());
                assert(all.take(1)[0] == lines@[0]@);
            }
        }
        if i > 0 {
            text.append("\n");
        }
        text.append(lines[i].as_str());
        proof {
            let all = string_views(lines@);
            assert(text@ =~= head + joined(all.take(i + 1)));
        }
        i = i + 1;
    }
    proof {
        let all = string_views(lines@);
        assert(all.take(lines@.len() as int) =~= all);
    }
    text
}

} // verus!
