//! What messages say.
#[allow(unused_imports)]
use crate::text::{decimal, digits, fill, Arg, Detail};
use vstd::prelude::*;

verus! {

/// The number that decimal digits stand for.
pub open spec fn number_of(text: Seq<char>) -> int
    decreases text.len(),
{
    if text.len() == 0 {
        0
    } else {
        10 * number_of(text.drop_last()) + (text.last() as int - '0' as int)
    }
}

/// Whether a text has no place for a value.
pub open spec fn is_plain(text: Seq<char>) -> bool {
    forall|k: int| 0 <= k < text.len() ==> #[trigger] text[k] != '{'
}

/// The decimal digits of a number stand for it, are nothing but digits, and
/// begin with a zero only for zero itself. A number below zero has a minus sign
/// in front of them.
pub proof fn lemma_number_is_readable(n: int)
    ensures
        n >= 0 ==> number_of(decimal(n)) == n,
        n < 0 ==> decimal(n)[0] == '-' && number_of(decimal(n).skip(1)) == -n,
        n > 0 ==> decimal(n)[0] != '0',
        n >= 0 ==> forall|k: int|
            0 <= k < decimal(n).len() ==> '0' <= #[trigger] decimal(n)[k] && decimal(n)[k] <= '9',
{
    if n >= 0 {
        lemma_digits_are_readable(n as nat);
    } else {
        lemma_digits_are_readable((-n) as nat);
        assert(decimal(n).skip(1) =~= digits((-n) as nat));
    }
}

/// The decimal digits of a number stand for it.
proof fn lemma_digits_are_readable(n: nat)
    ensures
        number_of(digits(n)) == n,
        digits(n).len() > 0,
        n > 0 ==> digits(n)[0] != '0',
        forall|k: int|
            0 <= k < digits(n).len() ==> '0' <= #[trigger] digits(n)[k] && digits(n)[k] <= '9',
    decreases n,
{
    reveal_with_fuel(number_of, 2);
    if n < 10 {
        assert(digits(n).drop_last() =~= Seq::<char>::empty());
    } else {
        lemma_digits_are_readable(n / 10);
        assert(digits(n).drop_last() =~= digits(n / 10));
    }
}

/// A value stands where the template has its place, between the words that
/// stand around that place; what is behind is filled with the next values.
pub proof fn lemma_value_in_place(before: Seq<char>, behind: Seq<char>, args: Seq<Arg>)
    requires
        is_plain(before),
        args.len() > 0,
    ensures
        fill(before + seq!['{', '}'] + behind, args) == before + args[0].text() + fill(
            behind,
            args.skip(1),
        ),
    decreases before.len(),
{
    let template = before + seq!['{', '}'] + behind;
    if before.len() == 0 {
        assert(template.skip(2) =~= behind);
        assert(before + args[0].text() =~= args[0].text());
    } else {
        lemma_value_in_place(before.skip(1), behind, args);
        assert(template.skip(1) =~= before.skip(1) + seq!['{', '}'] + behind);
        assert(template[0] == before[0]);
        assert(before + args[0].text() + fill(behind, args.skip(1)) =~= seq![before[0]] + (
        before.skip(1) + args[0].text() + fill(behind, args.skip(1))));
    }
}

/// Words without a place for a value stay as they are.
pub proof fn lemma_words_stay(words: Seq<char>, args: Seq<Arg>)
    requires
        is_plain(words),
    ensures
        fill(words, args) == words,
    decreases words.len(),
{
    if words.len() > 0 {
        lemma_words_stay(words.skip(1), args);
        assert(words =~= seq![words[0]] + words.skip(1));
    }
}

/// A message has its values in the order in which they are given, one for each
/// place of its template.
pub proof fn lemma_values_in_order(detail: Detail)
    ensures
        match detail {
            Detail::Plain(t) => detail.template() == t@ && detail.args().len() == 0,
            Detail::One(t, a) => detail.template() == t@ && detail.args().len() == 1
                && detail.args()[0] == a,
            Detail::Two(t, a, b) => detail.template() == t@ && detail.args().len() == 2
                && detail.args()[0] == a && detail.args()[1] == b,
            Detail::Three(t, a, b, c) => detail.template() == t@ && detail.args().len() == 3
                && detail.args()[0] == a && detail.args()[1] == b && detail.args()[2] == c,
            Detail::Four(t, a, b, c, d) => detail.template() == t@ && detail.args().len() == 4
                && detail.args()[0] == a && detail.args()[1] == b && detail.args()[2] == c
                && detail.args()[3] == d,
            Detail::Five(t, a, b, c, d, e) => detail.template() == t@ && detail.args().len() == 5
                && detail.args()[0] == a && detail.args()[1] == b && detail.args()[2] == c
                && detail.args()[3] == d && detail.args()[4] == e,
            Detail::Six(t, a, b, c, d, e, f) => detail.template() == t@ && detail.args().len() == 6
                && detail.args()[0] == a && detail.args()[1] == b && detail.args()[2] == c
                && detail.args()[3] == d && detail.args()[4] == e && detail.args()[5] == f,
        },
        detail.text() == fill(detail.template(), detail.args()),
{
}

/// A message of two values reads: the words before the first value, that value,
/// the words between them, the second value, and the words behind.
pub proof fn lemma_message_of_two(
    template: &'static str,
    first: Arg,
    second: Arg,
    words: (Seq<char>, Seq<char>, Seq<char>),
)
    requires
        template@ == words.0 + seq!['{', '}'] + (words.1 + seq!['{', '}'] + words.2),
        is_plain(words.0),
        is_plain(words.1),
        is_plain(words.2),
    ensures
        Detail::Two(template, first, second).text() == words.0 + first.text() + (words.1
            + second.text() + words.2),
{
    let args = seq![first, second];
    lemma_value_in_place(words.0, words.1 + seq!['{', '}'] + words.2, args);
    assert(args.skip(1) =~= seq![second]);
    lemma_value_in_place(words.1, words.2, seq![second]);
    lemma_words_stay(words.2, seq![second].skip(1));
}

} // verus!
