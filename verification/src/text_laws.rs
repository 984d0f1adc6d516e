//! What holds of every text that is searched, replaced, padded, trimmed or printed.

use vstd::prelude::*;

use crate::text::{
    contains_text, decimal, digit, missing, occurs_at, repeated, replaced, trimmed, trimmed_end,
    trimmed_start, two_digits, white_space,
};

verus! {

/// A text stands in another exactly where the other is something, the text, and
/// something more.
pub proof fn occurrences_split_a_text(before: Seq<char>, needle: Seq<char>, after: Seq<char>)
    ensures
        occurs_at((before + needle) + after, before.len() as int, needle),
        contains_text((before + needle) + after, needle),
{
    let hay = (before + needle) + after;
    assert(hay.subrange(before.len() as int, (before.len() + needle.len()) as int) =~= needle);
}

/// Where a text stands in another, the other is split there by it.
pub proof fn occurrences_are_splits(hay: Seq<char>, at: int, needle: Seq<char>)
    requires
        occurs_at(hay, at, needle),
    ensures
        0 <= at <= hay.len(),
        at + needle.len() <= hay.len(),
        hay == (hay.take(at) + needle) + hay.skip(at + needle.len()),
        forall|i: int| 0 <= i < needle.len() ==> hay[at + i] == #[trigger] needle[i],
{
    assert(hay =~= (hay.take(at) + hay.subrange(at, at + needle.len())) + hay.skip(
        at + needle.len(),
    ));
    assert forall|i: int| 0 <= i < needle.len() implies hay[at + i] == #[trigger] needle[i] by {
        assert(hay.subrange(at, at + needle.len())[i] == hay[at + i]);
    }
}

/// A text that does not occur is not replaced: everything stays.
pub proof fn nothing_to_replace(hay: Seq<char>, from: Seq<char>, to: Seq<char>)
    requires
        !contains_text(hay, from),
    ensures
        replaced(hay, from, to) == hay,
    decreases hay.len(),
{
    if from.len() > 0 && hay.len() >= from.len() {
        let rest = hay.skip(1);
        assert forall|at: int| !occurs_at(rest, at, from) by {
            if occurs_at(rest, at, from) {
                assert(hay.subrange(at + 1, at + 1 + from.len()) =~= rest.subrange(
                    at,
                    at + from.len(),
                ));
                assert(occurs_at(hay, at + 1, from));
            }
        }
        nothing_to_replace(rest, from, to);
        assert(hay =~= seq![hay[0]] + rest);
    }
}

/// The first occurrence of a text is replaced, what stands before it stays, and
/// what stands behind it is treated in the same way.
pub proof fn the_first_occurrence_is_replaced(
    before: Seq<char>,
    from: Seq<char>,
    after: Seq<char>,
    to: Seq<char>,
)
    requires
        from.len() > 0,
        forall|at: int|
            0 <= at < before.len() ==> !occurs_at((before + from) + after, at, from),
    ensures
        replaced((before + from) + after, from, to) == (before + to) + replaced(after, from, to),
    decreases before.len(),
{
    let hay = (before + from) + after;
    if before.len() == 0 {
        assert(hay.subrange(0, from.len() as int) =~= from);
        assert(occurs_at(hay, 0, from));
        assert(hay.skip(from.len() as int) =~= after);
        assert(to + replaced(after, from, to) =~= (before + to) + replaced(after, from, to));
    } else {
        let rest = before.skip(1);
        assert(hay.skip(1) =~= (rest + from) + after);
        assert forall|at: int| 0 <= at < rest.len() implies !occurs_at(
            (rest + from) + after,
            at,
            from,
        ) by {
            if occurs_at((rest + from) + after, at, from) {
                assert(hay.subrange(at + 1, at + 1 + from.len()) =~= ((rest + from)
                    + after).subrange(at, at + from.len()));
                assert(occurs_at(hay, at + 1, from));
            }
        }
        the_first_occurrence_is_replaced(rest, from, after, to);
        assert(!occurs_at(hay, 0, from));
        assert(seq![hay[0]] + ((rest + to) + replaced(after, from, to)) =~= (before + to)
            + replaced(after, from, to));
    }
}

/// A text that is replaced by itself stays.
pub proof fn replacing_by_the_same_changes_nothing(hay: Seq<char>, from: Seq<char>)
    ensures
        replaced(hay, from, from) == hay,
    decreases hay.len(),
{
    if from.len() > 0 && hay.len() >= from.len() {
        if occurs_at(hay, 0, from) {
            replacing_by_the_same_changes_nothing(hay.skip(from.len() as int), from);
            assert(hay =~= hay.subrange(0, from.len() as int) + hay.skip(from.len() as int));
        } else {
            replacing_by_the_same_changes_nothing(hay.skip(1), from);
            assert(hay =~= seq![hay[0]] + hay.skip(1));
        }
    }
}

/// The number that a text of decimal digits writes.
pub open spec fn number_of(s: Seq<char>) -> int
    decreases s.len(),
{
    if s.len() == 0 {
        0
    } else {
        10 * number_of(s.drop_last()) + (s.last() as int - '0' as int)
    }
}

/// Whether a text is decimal digits alone.
pub open spec fn digits_alone(s: Seq<char>) -> bool {
    forall|i: int| 0 <= i < s.len() ==> '0' <= #[trigger] s[i] <= '9'
}

/// The digits are those from `0` to `9`.
pub proof fn digits_follow_zero(d: nat)
    requires
        d < 10,
    ensures
        digit(d) as int == '0' as int + d,
        '0' <= digit(d) <= '9',
{
}

/// A number is printed as digits that write it, without a zero before them.
pub proof fn numbers_are_printed_as_they_are(n: nat)
    ensures
        number_of(decimal(n)) == n,
        digits_alone(decimal(n)),
        decimal(n).len() > 0,
        decimal(n).len() > 1 ==> decimal(n)[0] != '0',
    decreases n,
{
    let s = decimal(n);
    if n < 10 {
        digits_follow_zero(n);
        assert(s.drop_last() =~= Seq::empty());
        assert(number_of(s.drop_last()) == 0);
    } else {
        numbers_are_printed_as_they_are(n / 10);
        digits_follow_zero(n % 10);
        assert(s.drop_last() =~= decimal(n / 10));
        let front = decimal(n / 10);
        assert(s[0] == front[0]);
        if n / 10 < 10 {
            digits_follow_zero(n / 10);
        } else {
            numbers_are_printed_as_they_are(n / 10 / 10);
            assert(front == decimal(n / 10 / 10).push(digit(n / 10 % 10)));
        }
    }
}

/// Different numbers are printed differently.
pub proof fn printed_numbers_tell_them_apart(a: nat, b: nat)
    requires
        decimal(a) == decimal(b),
    ensures
        a == b,
{
    numbers_are_printed_as_they_are(a);
    numbers_are_printed_as_they_are(b);
}

/// A number below one hundred is padded to two digits that write it.
pub proof fn two_digits_write_the_number(n: nat)
    requires
        n < 100,
    ensures
        two_digits(n).len() == 2,
        digits_alone(two_digits(n)),
        number_of(two_digits(n)) == n,
{
    let s = two_digits(n);
    digits_follow_zero(n / 10);
    digits_follow_zero(n % 10);
    assert(s.drop_last() =~= seq![s[0]]);
    assert(s.drop_last().drop_last() =~= Seq::empty());
    assert(number_of(s.drop_last().drop_last()) == 0);
    assert(number_of(s.drop_last()) == n / 10);
}

/// A text is padded to a width exactly where it is shorter, and to no more.
pub proof fn padding_reaches_the_width(s: Seq<char>, width: nat)
    ensures
        ({
            let padded = repeated(' ', missing(s.len(), width)) + s;
            &&& s.len() >= width ==> padded == s
            &&& s.len() < width ==> padded.len() == width
            &&& padded.skip(padded.len() - s.len()) == s
            &&& forall|i: int| 0 <= i < padded.len() - s.len() ==> #[trigger] padded[i] == ' '
        }),
{
    let padded = repeated(' ', missing(s.len(), width)) + s;
    assert(padded.skip(padded.len() - s.len()) =~= s);
    if s.len() >= width {
        assert(padded =~= s);
    }
}

/// How much is missing for a width, with what is there, makes up the width where
/// there is not more already.
pub proof fn missing_makes_up_the_width(len: nat, width: nat)
    ensures
        len <= width ==> len + missing(len, width) == width,
        len > width ==> missing(len, width) == 0,
{
}

/// The characters that are white space.
pub proof fn the_white_space_characters(ch: char)
    ensures
        white_space(ch) <==> {
            ||| ch == ' ' || ch == '\t' || ch == '\n' || ch == '\r'
            ||| ch == '\u{b}' || ch == '\u{c}' || ch == '\u{85}' || ch == '\u{a0}'
            ||| ch == '\u{1680}' || '\u{2000}' <= ch <= '\u{200a}'
            ||| ch == '\u{2028}' || ch == '\u{2029}' || ch == '\u{202f}'
            ||| ch == '\u{205f}' || ch == '\u{3000}'
        },
        '!' <= ch <= '~' ==> !white_space(ch),
{
}

/// Whether a text is white space alone.
pub open spec fn all_white(s: Seq<char>) -> bool {
    forall|i: int| 0 <= i < s.len() ==> white_space(#[trigger] s[i])
}

/// Whether a text neither starts nor ends with white space.
pub open spec fn tight(s: Seq<char>) -> bool {
    s.len() > 0 ==> !white_space(s[0]) && !white_space(s.last())
}

/// White space before a text does not matter.
proof fn lemma_trimmed_start(a: Seq<char>, t: Seq<char>)
    requires
        all_white(a),
        t.len() > 0 ==> !white_space(t[0]),
    ensures
        trimmed_start(a + t) == t,
    decreases a.len(),
{
    if a.len() == 0 {
        assert(a + t =~= t);
    } else {
        assert(white_space((a + t)[0])) by {
            assert(white_space(a[0]));
        }
        assert((a + t).skip(1) =~= a.skip(1) + t);
        assert forall|i: int| 0 <= i < a.skip(1).len() implies white_space(
            #[trigger] a.skip(1)[i],
        ) by {
            assert(white_space(a[i + 1]));
        }
        lemma_trimmed_start(a.skip(1), t);
    }
}

/// White space behind a text does not matter.
proof fn lemma_trimmed_end(t: Seq<char>, b: Seq<char>)
    requires
        all_white(b),
        t.len() > 0 ==> !white_space(t.last()),
    ensures
        trimmed_end(t + b) == t,
    decreases b.len(),
{
    if b.len() == 0 {
        assert(t + b =~= t);
    } else {
        assert(white_space((t + b).last())) by {
            assert(white_space(b.last()));
        }
        assert((t + b).drop_last() =~= t + b.drop_last());
        assert forall|i: int| 0 <= i < b.drop_last().len() implies white_space(
            #[trigger] b.drop_last()[i],
        ) by {
            assert(white_space(b[i]));
        }
        lemma_trimmed_end(t, b.drop_last());
    }
}

/// A text keeps everything but the white space around it: what stands between the
/// first and the last character that is none stays, with the white space in it.
pub proof fn trimming_takes_the_white_space_around(a: Seq<char>, t: Seq<char>, b: Seq<char>)
    requires
        all_white(a),
        all_white(b),
        tight(t),
    ensures
        trimmed((a + t) + b) == t,
{
    if t.len() == 0 {
        let all = a + b;
        assert((a + t) + b =~= all + t);
        assert forall|i: int| 0 <= i < all.len() implies white_space(#[trigger] all[i]) by {
            if i < a.len() {
                assert(white_space(a[i]));
            } else {
                assert(white_space(b[i - a.len()]));
            }
        }
        lemma_trimmed_start(all, t);
    } else {
        assert((a + t) + b =~= a + (t + b));
        assert((t + b)[0] == t[0]);
        lemma_trimmed_start(a, t + b);
        lemma_trimmed_end(t, b);
    }
}

/// Every text is some white space, what is left when it is trimmed, and some white
/// space; and trimming again changes nothing.
pub proof fn every_text_can_be_trimmed(s: Seq<char>) -> (around: (Seq<char>, Seq<char>))
    ensures
        all_white(around.0),
        all_white(around.1),
        tight(trimmed(s)),
        s == (around.0 + trimmed(s)) + around.1,
        trimmed(trimmed(s)) == trimmed(s),
{
    let a = lemma_start_splits(s);
    let b = lemma_end_splits(trimmed_start(s));
    let t = trimmed(s);
    if t.len() > 0 {
        assert(trimmed_start(s)[0] == t[0]);
    }
    assert((Seq::<char>::empty() + t) + Seq::<char>::empty() =~= t);
    trimming_takes_the_white_space_around(Seq::empty(), t, Seq::empty());
    assert(s =~= (a + t) + b);
    (a, b)
}

/// A text is some white space and what is left without it.
proof fn lemma_start_splits(s: Seq<char>) -> (a: Seq<char>)
    ensures
        all_white(a),
        s == a + trimmed_start(s),
        trimmed_start(s).len() > 0 ==> !white_space(trimmed_start(s)[0]),
    decreases s.len(),
{
    if s.len() > 0 && white_space(s[0]) {
        let rest = lemma_start_splits(s.skip(1));
        let a = seq![s[0]] + rest;
        assert(s =~= a + trimmed_start(s)) by {
            assert(s =~= seq![s[0]] + s.skip(1));
        }
        assert forall|i: int| 0 <= i < a.len() implies white_space(#[trigger] a[i]) by {
            if i > 0 {
                assert(white_space(rest[i - 1]));
            }
        }
        a
    } else {
        assert(s =~= Seq::<char>::empty() + s);
        Seq::empty()
    }
}

/// A text is what is left without the white space behind it, and that.
proof fn lemma_end_splits(s: Seq<char>) -> (b: Seq<char>)
    ensures
        all_white(b),
        s == trimmed_end(s) + b,
        trimmed_end(s).len() > 0 ==> !white_space(trimmed_end(s).last()),
    decreases s.len(),
{
    if s.len() > 0 && white_space(s.last()) {
        let rest = lemma_end_splits(s.drop_last());
        let b = rest + seq![s.last()];
        assert(s =~= trimmed_end(s) + b) by {
            assert(s =~= s.drop_last() + seq![s.last()]);
        }
        assert forall|i: int| 0 <= i < b.len() implies white_space(#[trigger] b[i]) by {
            if i < rest.len() {
                assert(white_space(rest[i]));
            }
        }
        b
    } else {
        assert(s =~= s + Seq::<char>::empty());
        Seq::empty()
    }
}

} // verus!
