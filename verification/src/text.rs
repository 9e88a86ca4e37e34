use vstd::prelude::*;

verus! {

/// Decimal digits of `n`, most significant first.
pub open spec fn spec_decimal(n: int) -> Seq<char>
    decreases n,
{
    if n <= 0 {
        seq![]
    } else {
        spec_decimal(n / 10).push(spec_digit_char(n % 10))
    }
}

/// The character for one decimal digit.
pub open spec fn spec_digit_char(d: int) -> char {
    if d == 0 {
        '0'
    } else if d == 1 {
        '1'
    } else if d == 2 {
        '2'
    } else if d == 3 {
        '3'
    } else if d == 4 {
        '4'
    } else if d == 5 {
        '5'
    } else if d == 6 {
        '6'
    } else if d == 7 {
        '7'
    } else if d == 8 {
        '8'
    } else {
        '9'
    }
}

/// The canonical text of a number: "0" for zero, otherwise its decimal
/// digits with no leading zero.
pub open spec fn spec_u64_text(n: int) -> Seq<char> {
    if n == 0 {
        seq!['0']
    } else {
        spec_decimal(n)
    }
}

fn digit_str(d: u64) -> (r: &'static str)
    requires
        d < 10,
    ensures
        r@ =~= seq![spec_digit_char(d as int)],
{
    proof {
        reveal_strlit("0");
        reveal_strlit("1");
        reveal_strlit("2");
        reveal_strlit("3");
        reveal_strlit("4");
        reveal_strlit("5");
        reveal_strlit("6");
        reveal_strlit("7");
        reveal_strlit("8");
        reveal_strlit("9");
    }
    if d == 0 {
        "0"
    } else if d == 1 {
        "1"
    } else if d == 2 {
        "2"
    } else if d == 3 {
        "3"
    } else if d == 4 {
        "4"
    } else if d == 5 {
        "5"
    } else if d == 6 {
        "6"
    } else if d == 7 {
        "7"
    } else if d == 8 {
        "8"
    } else {
        "9"
    }
}

fn push_decimal(n: u64, out: &mut String)
    ensures
        final(out)@ == old(out)@ + spec_decimal(n as int),
    decreases n,
{
    if n == 0 {
        proof {
            assert(out@ =~= old(out)@ + spec_decimal(0));
        }
        return ;
    }
    push_decimal(n / 10, out);
    let d = digit_str(n % 10);
    out.append(d);
    proof {
        assert(out@ =~= old(out)@ + spec_decimal(n as int));
    }
}

/// Render a number as decimal text.
pub fn u64_to_text(n: u64) -> (r: String)
    ensures
        r@ == spec_u64_text(n as int),
{
    let mut s = String::new();
    if n == 0 {
        s.append(digit_str(0));
        proof {
            assert(s@ =~= seq!['0']);
        }
        return s;
    }
    push_decimal(n, &mut s);
    proof {
        assert(s@ =~= spec_decimal(n as int));
    }
    s
}

/// One line of rich text: the line itself plus whether it is highlighted.
#[derive(Clone, Debug, PartialEq, Eq)]
pub struct TextLine {
    pub line: String,
    pub highlighted: bool,
}

/// A block of lines to be rendered by a display layer outside this crate.
#[derive(Clone, Debug, PartialEq, Eq)]
pub struct Text {
    pub lines: Vec<TextLine>,
}

impl Text {
    pub fn new() -> (t: Text)
        ensures
            t.lines@.len() == 0,
    {
        Text { lines: Vec::new() }
    }

    pub fn add_line(&mut self, line: String)
        ensures
            final(self).lines@ == old(self).lines@.push(
                TextLine { line, highlighted: false },
            ),
    {
        self.lines.push(TextLine { line, highlighted: false });
    }

    pub fn add_styled_line(&mut self, line: String)
        ensures
            final(self).lines@ == old(self).lines@.push(TextLine { line, highlighted: true }),
    {
        self.lines.push(TextLine { line, highlighted: true });
    }

    pub fn num_lines(&self) -> (n: usize)
        ensures
            n == self.lines@.len(),
    {
        self.lines.len()
    }
}

} // verus!
