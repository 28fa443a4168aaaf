//! Rendering an error together with its chain of causes.

use vstd::prelude::*;
use vstd::string::StringExecFns;

verus! {

/// An error message with the messages of its underlying causes, from the
/// closest cause outward.
pub struct ErrorStack {
    pub message: String,
    pub sources: Vec<String>,
}

pub open spec fn bullet_line(s: Seq<char>) -> Seq<char> {
    "  - "@ + s
}

/// The cause messages as bullet lines joined by newlines.
pub open spec fn stack_lines(sources: Seq<Seq<char>>) -> Seq<char>
    decreases sources.len(),
{
    if sources.len() == 0 {
        Seq::empty()
    } else if sources.len() == 1 {
        bullet_line(sources[0])
    } else {
        stack_lines(sources.drop_last()) + "\n"@ + bullet_line(sources.last())
    }
}

pub open spec fn error_stack_text(message: Seq<char>, sources: Seq<Seq<char>>) -> Seq<char> {
    if sources.len() == 0 {
        message
    } else {
        message + "\n\nError stack:\n"@ + stack_lines(sources)
    }
}

pub open spec fn digit_char(d: int) -> char {
    if d == 0 {
        '0'
    } else if d == 1 {
        '1'
    } else if d == 2 {
        '2'
    } else if d == 3 {
        '3'
    } else if d == 4 {
        '4'
    } else if d == 5 {
        '5'
    } else if d == 6 {
        '6'
    } else if d == 7 {
        '7'
    } else if d == 8 {
        '8'
    } else {
        '9'
    }
}

/// The decimal digits of a nonnegative number, most significant first.
pub open spec fn decimal_chars(n: int) -> Seq<char>
    decreases n,
{
    if n < 0 {
        Seq::empty()
    } else if n < 10 {
        seq![digit_char(n)]
    } else {
        decimal_chars(n / 10) + seq![digit_char(n % 10)]
    }
}

fn digit_str(d: u16) -> (r: &'static str)
    requires
        d < 10,
    ensures
        r@ == seq![digit_char(d as int)],
{
    proof {
        reveal_strlit("0");
        reveal_strlit("1");
        reveal_strlit("2");
        reveal_strlit("3");
        reveal_strlit("4");
        reveal_strlit("5");
        reveal_strlit("6");
        reveal_strlit("7");
        reveal_strlit("8");
        reveal_strlit("9");
        assert(("0")@ =~= seq![digit_char(0)]);
        assert(("1")@ =~= seq![digit_char(1)]);
        assert(("2")@ =~= seq![digit_char(2)]);
        assert(("3")@ =~= seq![digit_char(3)]);
        assert(("4")@ =~= seq![digit_char(4)]);
        assert(("5")@ =~= seq![digit_char(5)]);
        assert(("6")@ =~= seq![digit_char(6)]);
        assert(("7")@ =~= seq![digit_char(7)]);
        assert(("8")@ =~= seq![digit_char(8)]);
        assert(("9")@ =~= seq![digit_char(9)]);
    }
    match d {
        0 => "0",
        1 => "1",
        2 => "2",
        3 => "3",
        4 => "4",
        5 => "5",
        6 => "6",
        7 => "7",
        8 => "8",
        _ => "9",
    }
}

/// A status code as decimal text.
pub fn u16_to_decimal(v: u16) -> (r: String)
    ensures
        r@ == decimal_chars(v as int),
    decreases v,
{
    if v < 10 {
        String::from_str(digit_str(v))
    } else {
        let mut s = u16_to_decimal(v / 10);
        s.append(digit_str(v % 10));
        s
    }
}

/// Formats an error and all its causes, one bullet line per cause.
pub fn error_stack_fmt(err: &ErrorStack) -> (r: String)
    ensures
        r@ == error_stack_text(err.message@, err.sources.deep_view()),
{
    if err.sources.len() == 0 {
        proof {
            assert(err.sources.deep_view().len() == 0);
        }
        return err.message.clone();
    }
    let mut out = err.message.clone();
    out.append("\n\nError stack:\n");
    let ghost all = err.sources.deep_view();
    let mut i: usize = 0;
    while i < err.sources.len()
        invariant
            0 <= i <= err.sources.len(),
            all == err.sources.deep_view(),
            all.len() == err.sources.len(),
            forall|j: int| 0 <= j < all.len() ==> all[j] == err.sources@[j]@,
            out@ == err.message@ + "\n\nError stack:\n"@ + stack_lines(all.subrange(0, i as int)),
        decreases err.sources.len() - i,
    {
        if i > 0 {
            out.append("\n");
        }
        out.append("  - ");
        out.append(err.sources[i].as_str());
        proof {
            let pref = all.subrange(0, i as int);
            let cur = all.subrange(0, i + 1);
            assert(cur.drop_last() =~= pref);
            assert(cur.last() == all[i as int]);
            if i == 0 {
                assert(stack_lines(cur) == bullet_line(all[0]));
                assert(out@ =~= err.message@ + "\n\nError stack:\n"@ + stack_lines(cur));
            } else {
                assert(stack_lines(cur) == stack_lines(pref) + "\n"@ + bullet_line(all[i as int]));
                assert(out@ =~= err.message@ + "\n\nError stack:\n"@ + stack_lines(cur));
            }
        }
        i = i + 1;
    }
    proof {
        assert(all.subrange(0, all.len() as int) =~= all);
    }
    out
}

} // verus!
