//! Message templates and their rendered text.
//!
//! An error keeps the template of its message and the values that fill it, so
//! a contract can say exactly which message an error carries. The text itself
//! is put together on demand.
use vstd::prelude::*;

verus! {

/// A value that fills one `{}` of a message template.
#[derive(Clone, Copy, Debug, PartialEq, Eq)]
pub enum Arg {
    /// A number, written in decimal.
    Num(i128),
    /// A fixed word.
    Word(&'static str),
    /// A four-character code, written as text.
    FourCc([u8; 4]),
}

/// A message: a template with as many values as it has `{}` in it.
#[derive(Clone, Copy, Debug, PartialEq, Eq)]
pub enum Detail {
    /// A message without values.
    Plain(&'static str),
    /// A message with one value.
    One(&'static str, Arg),
    /// A message with two values.
    Two(&'static str, Arg, Arg),
    /// A message with three values.
    Three(&'static str, Arg, Arg, Arg),
    /// A message with four values.
    Four(&'static str, Arg, Arg, Arg, Arg),
    /// A message with five values.
    Five(&'static str, Arg, Arg, Arg, Arg, Arg),
    /// A message with six values.
    Six(&'static str, Arg, Arg, Arg, Arg, Arg, Arg),
}

/// The text that `String::from_utf8_lossy` makes of some bytes.
pub uninterp spec fn utf8_lossy(bytes: Seq<u8>) -> Seq<char>;

/// The digit that stands for `d` in decimal.
pub open spec fn digit_char(d: nat) -> char {
    if d == 0 {
        '0'
    } else if d == 1 {
        '1'
    } else if d == 2 {
        '2'
    } else if d == 3 {
        '3'
    } else if d == 4 {
        '4'
    } else if d == 5 {
        '5'
    } else if d == 6 {
        '6'
    } else if d == 7 {
        '7'
    } else if d == 8 {
        '8'
    } else {
        '9'
    }
}

/// `n` in decimal, without leading zeros.
pub open spec fn digits(n: nat) -> Seq<char>
    decreases n,
{
    if n < 10 {
        seq![digit_char(n)]
    } else {
        digits(n / 10).push(digit_char(n % 10))
    }
}

/// `n` in decimal, with a minus sign where it is negative.
pub open spec fn decimal(n: int) -> Seq<char> {
    if n < 0 {
        seq!['-'] + digits((-n) as nat)
    } else {
        digits(n as nat)
    }
}

impl Arg {
    /// The text of the value.
    pub open spec fn text(self) -> Seq<char> {
        match self {
            Arg::Num(n) => decimal(n as int),
            Arg::Word(w) => w@,
            Arg::FourCc(code) => utf8_lossy(code@),
        }
    }
}

/// The template with each `{}` replaced, from left to right, by a value.
pub open spec fn fill(template: Seq<char>, args: Seq<Arg>) -> Seq<char>
    decreases template.len(),
{
    if template.len() == 0 {
        Seq::empty()
    } else if template.len() >= 2 && template[0] == '{' && template[1] == '}' && args.len() > 0 {
        args[0].text() + fill(template.skip(2), args.skip(1))
    } else {
        seq![template[0]] + fill(template.skip(1), args)
    }
}

impl Detail {
    /// The template of the message.
    pub open spec fn template(self) -> Seq<char> {
        match self {
            Detail::Plain(t) => t@,
            Detail::One(t, ..) => t@,
            Detail::Two(t, ..) => t@,
            Detail::Three(t, ..) => t@,
            Detail::Four(t, ..) => t@,
            Detail::Five(t, ..) => t@,
            Detail::Six(t, ..) => t@,
        }
    }

    /// The values of the message, in the order in which they fill it.
    pub open spec fn args(self) -> Seq<Arg> {
        match self {
            Detail::Plain(_) => Seq::empty(),
            Detail::One(_, a) => seq![a],
            Detail::Two(_, a, b) => seq![a, b],
            Detail::Three(_, a, b, c) => seq![a, b, c],
            Detail::Four(_, a, b, c, d) => seq![a, b, c, d],
            Detail::Five(_, a, b, c, d, e) => seq![a, b, c, d, e],
            Detail::Six(_, a, b, c, d, e, f) => seq![a, b, c, d, e, f],
        }
    }

    /// The text of the message.
    pub open spec fn text(self) -> Seq<char> {
        fill(self.template(), self.args())
    }

    /// Renders the message.
    pub fn render(&self) -> (message: String)
        ensures
            message@ == self.text(),
    {
        let mut args: Vec<Arg> = Vec::new();
        let template: &'static str = match *self {
            Detail::Plain(t) => t,
            Detail::One(t, a) => {
                args.push(a);
                t
            },
            Detail::Two(t, a, b) => {
                args.push(a);
                args.push(b);
                t
            },
            Detail::Three(t, a, b, c) => {
                args.push(a);
                args.push(b);
                args.push(c);
                t
            },
            Detail::Four(t, a, b, c, d) => {
                args.push(a);
                args.push(b);
                args.push(c);
                args.push(d);
                t
            },
            Detail::Five(t, a, b, c, d, e) => {
                args.push(a);
                args.push(b);
                args.push(c);
                args.push(d);
                args.push(e);
                t
            },
            Detail::Six(t, a, b, c, d, e, f) => {
                args.push(a);
                args.push(b);
                args.push(c);
                args.push(d);
                args.push(e);
                args.push(f);
                t
            },
        };
        assert(args@ =~= self.args());
        fill_template(template, &args)
    }
}

/// `std::string::String::push` appends one character.
pub assume_specification[ String::push ](s: &mut String, c: char)
    ensures
        final(s)@ == old(s)@.push(c),
;

/// `String::from_utf8_lossy` of the standard library, as an owned string: the
/// text that it makes of the bytes has the name `utf8_lossy`.
#[verifier::external_body]
fn string_from_utf8_lossy(bytes: &[u8]) -> (text: String)
    ensures
        text@ == utf8_lossy(bytes@),
{
    String::from_utf8_lossy(bytes).into_owned()
}

/// Appends `n` in decimal.
fn push_digits(out: &mut String, n: u128)
    ensures
        final(out)@ == old(out)@ + digits(n as nat),
    decreases n,
{
    if n >= 10 {
        push_digits(out, n / 10);
    }
    let d: u128 = n % 10;
    let c: char = if d == 0 {
        '0'
    } else if d == 1 {
        '1'
    } else if d == 2 {
        '2'
    } else if d == 3 {
        '3'
    } else if d == 4 {
        '4'
    } else if d == 5 {
        '5'
    } else if d == 6 {
        '6'
    } else if d == 7 {
        '7'
    } else if d == 8 {
        '8'
    } else {
        '9'
    };
    out.push(c);
    assert(out@ =~= old(out)@ + digits(n as nat));
}

/// Appends the text of a value.
fn push_arg(out: &mut String, arg: Arg)
    ensures
        final(out)@ == old(out)@ + arg.text(),
{
    match arg {
        Arg::Num(n) => {
            if n < 0 {
                out.push('-');
                let magnitude: u128 = if n == i128::MIN {
                    0x8000_0000_0000_0000_0000_0000_0000_0000u128
                } else {
                    (-n) as u128
                };
                push_digits(out, magnitude);
            } else {
                push_digits(out, n as u128);
            }
            assert(out@ =~= old(out)@ + arg.text());
        },
        Arg::Word(w) => {
            out.append(w);
        },
        Arg::FourCc(code) => {
            let text: String = string_from_utf8_lossy(code.as_slice());
            out.append(text.as_str());
        },
    }
}

/// Fills a template.
fn fill_template(template: &str, args: &Vec<Arg>) -> (message: String)
    ensures
        message@ == fill(template@, args@),
{
    let mut out: String = String::new();
    let mut chars: Vec<char> = Vec::new();
    let n: usize = template.unicode_len();
    let mut k: usize = 0;
    while k < n
        invariant
            k <= n,
            n == template@.len(),
            chars@ == template@.subrange(0, k as int),
        decreases n - k,
    {
        chars.push(template.get_char(k));
        k = k + 1;
        assert(chars@ =~= template@.subrange(0, k as int));
    }
    assert(chars@ =~= template@);
    let mut i: usize = 0;
    let mut used: usize = 0;
    assert(template@.skip(0) =~= template@);
    assert(args@.skip(0) =~= args@);
    assert(out@ + fill(template@.skip(0), args@.skip(0)) =~= fill(template@, args@));
    while i < n
        invariant
            i <= n,
            n == template@.len(),
            chars@ == template@,
            used <= args@.len(),
            out@ + fill(template@.skip(i as int), args@.skip(used as int)) == fill(template@, args@),
        decreases n - i,
    {
        let ghost rest = template@.skip(i as int);
        let ghost left = args@.skip(used as int);
        let ghost before = out@;
        if n - i >= 2 && chars[i] == '{' && chars[i + 1] == '}' && used < args.len() {
            let arg: Arg = args[used];
            push_arg(&mut out, arg);
            proof {
                assert(rest.skip(2) =~= template@.skip(i + 2));
                assert(left.skip(1) =~= args@.skip(used + 1));
                assert(left[0] == arg);
                assert(fill(rest, left) == arg.text() + fill(rest.skip(2), left.skip(1)));
                assert(before + (arg.text() + fill(rest.skip(2), left.skip(1))) =~= (before
                    + arg.text()) + fill(rest.skip(2), left.skip(1)));
            }
            i = i + 2;
            used = used + 1;
        } else {
            let c: char = chars[i];
            out.push(c);
            proof {
                assert(rest.skip(1) =~= template@.skip(i + 1));
                assert(rest[0] == c);
                assert(left.len() == args@.len() - used);
                assert(fill(rest, left) == seq![c] + fill(rest.skip(1), left));
                assert(before + (seq![c] + fill(rest.skip(1), left)) =~= before.push(c) + fill(
                    rest.skip(1),
                    left,
                ));
            }
            i = i + 1;
        }
    }
    assert(out@ + fill(template@.skip(n as int), args@.skip(used as int)) =~= out@);
    out
}

} // verus!
