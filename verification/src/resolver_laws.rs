//! What holds of every pattern, topic and address.

use vstd::prelude::*;

use crate::chunks::lemma_flatten_cons;
use crate::pattern::{
    captured, fits, full_groups, greedier, greedy_match, misaligned, piece_text, regex_captures,
    regex_compiles, splits, Piece,
};
use crate::resolver::{
    canonical, conclusion, fill_one, filled, first_wildcard_at, lemma_next_wildcard, next_wildcard,
    all_took_part, groups_take_part, resolution, result_text, settled, valid_pattern, values_of,
    wildcard_at, wildcard_len, ResolverError,
};
use crate::wildcard::{
    bare_pattern, expression, first_piece, letters, pieces_of, plain_pattern,
    unambiguous_without_marker_letters, width,
};
use crate::text::{contains_text, occurs_at};
use crate::text_laws::nothing_to_replace;

verus! {

/// Matching is settled: a text has one outcome under the pieces of a pattern.
pub proof fn one_outcome(
    pieces: Seq<Piece>,
    text: Seq<char>,
    a: Option<Seq<Option<Seq<char>>>>,
    b: Option<Seq<Option<Seq<char>>>>,
)
    requires
        greedy_match(pieces, text, a),
        greedy_match(pieces, text, b),
    ensures
        a == b,
{
    if a is Some && b is Some {
        let p = choose|parts: Seq<Seq<char>>|
            {
                &&& #[trigger] splits(pieces, parts, text)
                &&& forall|other: Seq<Seq<char>>|
                    splits(pieces, other, text) ==> #[trigger] greedier(parts, other)
                &&& a->0 == full_groups(text, captured(pieces, parts))
            };
        let q = choose|parts: Seq<Seq<char>>|
            {
                &&& #[trigger] splits(pieces, parts, text)
                &&& forall|other: Seq<Seq<char>>|
                    splits(pieces, other, text) ==> #[trigger] greedier(parts, other)
                &&& b->0 == full_groups(text, captured(pieces, parts))
            };
        assert(greedier(p, q));
        assert(greedier(q, p));
        if p != q {
            let i = choose|i: int|
                {
                    &&& 0 <= i < p.len()
                    &&& i < q.len()
                    &&& q.take(i) == p.take(i)
                    &&& #[trigger] q[i].len() < p[i].len()
                };
            let j = choose|j: int|
                {
                    &&& 0 <= j < q.len()
                    &&& j < p.len()
                    &&& p.take(j) == q.take(j)
                    &&& #[trigger] p[j].len() < q[j].len()
                };
            if i < j {
                assert(p.take(j)[i] == q.take(j)[i]);
            } else if j < i {
                assert(p.take(i)[j] == q.take(i)[j]);
            }
        }
    }
}

/// A remote pattern without a wildcard is the address as it stands, whatever the
/// topic's wildcards stand for.
pub proof fn remote_without_wildcard_is_kept(remote: Seq<char>, values: Seq<Seq<char>>)
    requires
        !remote.contains('*'),
    ensures
        filled(remote, values) == remote,
    decreases values.len(),
{
    assert forall|at: int| !first_wildcard_at(remote, at) by {
        if wildcard_at(remote, at) {
            assert(remote.contains(remote[at]));
            if remote[at] != '*' {
                assert(remote.contains(remote[at + 1]));
            }
        }
    }
    if values.len() > 0 {
        remote_without_wildcard_is_kept(remote, values.drop_first());
    }
}

/// One part for each character.
spec fn singles(text: Seq<char>) -> Seq<Seq<char>> {
    text.map_values(|ch: char| seq![ch])
}

proof fn lemma_singles(text: Seq<char>)
    ensures
        singles(text).flatten() == text,
    decreases text.len(),
{
    if text.len() > 0 {
        let rest = text.drop_first();
        lemma_singles(rest);
        assert(singles(text) =~= seq![seq![text[0]]] + singles(rest));
        lemma_flatten_cons(seq![text[0]], singles(rest));
        assert(seq![text[0]] + rest =~= text);
    } else {
        assert(singles(text).flatten() =~= text);
    }
}

/// A text without wildcards before a double wildcard, or alone.
proof fn lemma_literal_pieces(text: Seq<char>, tail: Seq<char>)
    requires
        !text.contains('*'),
        tail.len() == 0 || (tail.len() == 2 && tail[0] == '*' && tail[1] == '*'),
    ensures
        pieces_of(text + tail) == letters(text) + pieces_of(tail),
    decreases text.len(),
{
    let local = text + tail;
    if text.len() == 0 {
        assert(local =~= tail);
        assert(letters(text) + pieces_of(tail) =~= pieces_of(tail));
    } else {
        let rest = text.drop_first();
        assert forall|i: int| 0 <= i < text.len() implies text[i] != '*' by {
            assert(text.contains(text[i]));
        }
        assert(!rest.contains('*'));
        assert(first_piece(local) == Piece::Literal(text[0])) by {
            if text.len() > 1 {
                assert(local[1] == text[1]);
            }
        }
        assert(local.skip(1) =~= rest + tail);
        lemma_literal_pieces(rest, tail);
        assert(letters(text) =~= seq![Piece::Literal(text[0])] + letters(rest));
        assert(pieces_of(local) =~= letters(text) + pieces_of(tail));
    }
}

/// Parts for literal pieces are the characters themselves.
proof fn lemma_literal_parts(text: Seq<char>, more: Seq<Piece>, parts: Seq<Seq<char>>)
    requires
        parts.len() == text.len() + more.len(),
        forall|i: int|
            0 <= i < parts.len() ==> fits((letters(text) + more)[i], #[trigger] parts[i]),
    ensures
        parts == singles(text) + parts.skip(text.len() as int),
        parts.flatten() == text + parts.skip(text.len() as int).flatten(),
        captured(letters(text) + more, parts) == captured(more, parts.skip(text.len() as int)),
    decreases text.len(),
{
    let pieces = letters(text) + more;
    assert forall|i: int| 0 <= i < text.len() implies parts[i] == seq![text[i]] by {
        assert(pieces[i] == Piece::Literal(text[i]));
    }
    assert(parts =~= singles(text) + parts.skip(text.len() as int));
    lemma_singles(text);
    vstd::seq_lib::lemma_flatten_concat(singles(text), parts.skip(text.len() as int));
    if text.len() > 0 {
        let rest = text.drop_first();
        assert(pieces.drop_first() =~= letters(rest) + more);
        let later = parts.drop_first();
        assert forall|i: int| 0 <= i < later.len() implies fits(
            (letters(rest) + more)[i],
            #[trigger] later[i],
        ) by {
            assert(later[i] == parts[i + 1]);
            assert((letters(rest) + more)[i] == pieces[i + 1]);
        }
        lemma_literal_parts(rest, more, later);
        assert(later.skip(rest.len() as int) =~= parts.skip(text.len() as int));
        assert(pieces[0] == Piece::Literal(text[0]));
    } else {
        assert(pieces =~= more);
        assert(parts.skip(0) =~= parts);
    }
}

/// A pattern without wildcards matches itself and nothing else, and the remote
/// pattern is then the address as it stands.
pub proof fn exact_pattern_matches_itself(
    local: Seq<char>,
    remote: Seq<char>,
    topic: Seq<char>,
    outcome: Option<Seq<Option<Seq<char>>>>,
)
    requires
        !local.contains('*'),
        greedy_match(pieces_of(local), topic, outcome),
    ensures
        outcome is Some <==> topic == local,
        topic == local ==> conclusion(remote, outcome) == Ok::<_, ResolverError>(
            remote,
        ),
{
    let none = Seq::<char>::empty();
    lemma_literal_pieces(local, none);
    assert(local + none =~= local);
    let pieces = pieces_of(local);
    assert(pieces =~= letters(local) + Seq::<Piece>::empty());
    lemma_singles(local);
    if topic == local {
        assert(splits(pieces, singles(local), topic));
    }
    if let Some(groups) = outcome {
        let parts = choose|parts: Seq<Seq<char>>|
            {
                &&& #[trigger] splits(pieces, parts, topic)
                &&& forall|other: Seq<Seq<char>>|
                    splits(pieces, other, topic) ==> #[trigger] greedier(parts, other)
                &&& groups == full_groups(topic, captured(pieces, parts))
            };
        lemma_literal_parts(local, Seq::<Piece>::empty(), parts);
        assert(parts.skip(local.len() as int).flatten() =~= none);
        assert(parts.flatten() =~= local);
        assert(captured(pieces, parts).len() == 0);
        assert(values_of(groups).len() == 0);
    }
}

/// A pattern that ends in `**` forwards what follows its prefix: the topic
/// matches where it starts with the prefix and goes on in one line, even with
/// nothing, and the address is the remote base followed by the rest.
pub proof fn prefix_pattern_forwards_the_rest(
    prefix: Seq<char>,
    base: Seq<char>,
    topic: Seq<char>,
    outcome: Option<Seq<Option<Seq<char>>>>,
)
    requires
        !prefix.contains('*'),
        !base.contains('*'),
        base.len() > 0 ==> base.last() != '$',
        greedy_match(pieces_of(prefix + seq!['*', '*']), topic, outcome),
    ensures
        outcome is Some <==> prefix.is_prefix_of(topic) && !topic.skip(
            prefix.len() as int,
        ).contains('\n'),
        outcome is Some ==> conclusion(base + seq!['*', '*'], outcome) == Ok::<
            _,
            ResolverError,
        >(base + topic.skip(prefix.len() as int)),
{
    let stars = seq!['*', '*'];
    let n = prefix.len() as int;
    lemma_literal_pieces(prefix, stars);
    assert(pieces_of(stars) =~= seq![Piece::Rest]) by {
        assert(first_piece(stars) == Piece::Rest);
        assert(pieces_of(stars.skip(2)).len() == 0);
    }
    let more = seq![Piece::Rest];
    let pieces = pieces_of(prefix + stars);
    assert(pieces == letters(prefix) + more);
    lemma_singles(prefix);
    if prefix.is_prefix_of(topic) && !topic.skip(n).contains('\n') {
        let tail = seq![topic.skip(n)];
        let parts = singles(prefix) + tail;
        vstd::seq_lib::lemma_flatten_concat(singles(prefix), tail);
        tail.lemma_flatten_one_element();
        assert(parts.flatten() =~= topic);
        assert forall|i: int| 0 <= i < pieces.len() implies fits(pieces[i], #[trigger] parts[i]) by {
            if i < n {
                assert(pieces[i] == Piece::Literal(prefix[i]));
            } else {
                assert(pieces[i] == Piece::Rest);
            }
        }
        assert(splits(pieces, parts, topic));
    }
    if let Some(groups) = outcome {
        let parts = choose|parts: Seq<Seq<char>>|
            {
                &&& #[trigger] splits(pieces, parts, topic)
                &&& forall|other: Seq<Seq<char>>|
                    splits(pieces, other, topic) ==> #[trigger] greedier(parts, other)
                &&& groups == full_groups(topic, captured(pieces, parts))
            };
        lemma_literal_parts(prefix, more, parts);
        let tail = parts.skip(n);
        assert(tail.len() == 1);
        tail.lemma_flatten_one_element();
        assert(topic =~= prefix + tail[0]);
        assert(topic.skip(n) =~= tail[0]);
        assert(pieces[n] == Piece::Rest);
        assert(fits(pieces[n], parts[n]));
        assert(captured(more, tail) =~= seq![tail[0]]) by {
            assert(captured(more.drop_first(), tail.drop_first()).len() == 0);
        }
        let values = values_of(groups);
        assert(values =~= seq![tail[0]]);
        let remote = base + stars;
        assert forall|i: int| 0 <= i < base.len() implies !wildcard_at(remote, i) by {
            assert(base.contains(base[i]));
            assert(remote[i] == base[i]);
            if i + 1 < base.len() {
                assert(base.contains(base[i + 1]));
                assert(remote[i + 1] == base[i + 1]);
            }
        }
        assert(first_wildcard_at(remote, base.len() as int));
        lemma_next_wildcard(remote, base.len() as int);
        assert(fill_one(remote, tail[0]) =~= base + tail[0]);
        assert(filled(remote, values) == filled(fill_one(remote, values[0]), values.drop_first()));
        assert(values.drop_first().len() == 0);
    }
}

/// How many slashes a text holds.
pub open spec fn slashes(text: Seq<char>) -> nat {
    text.filter(|ch: char| ch == '/').len()
}

proof fn lemma_slashes_add(a: Seq<char>, b: Seq<char>)
    ensures
        slashes(a + b) == slashes(a) + slashes(b),
{
    Seq::filter_distributes_over_add(a, b, |ch: char| ch == '/');
}

proof fn lemma_no_slash(text: Seq<char>)
    requires
        !text.contains('/'),
    ensures
        slashes(text) == 0,
{
    text.lemma_all_neg_filter_empty(|ch: char| ch == '/');
}

/// The part of a piece other than `**` holds as many slashes as its own text.
proof fn lemma_part_slashes(local: Seq<char>, parts: Seq<Seq<char>>)
    requires
        parts.len() == pieces_of(local).len(),
        forall|i: int|
            0 <= i < parts.len() ==> fits(pieces_of(local)[i], #[trigger] parts[i]) && !(pieces_of(
                local,
            )[i] is Rest),
    ensures
        slashes(parts.flatten()) == slashes(local),
    decreases local.len(),
{
    let pieces = pieces_of(local);
    if local.len() == 0 {
        assert(parts.flatten() =~= local);
    } else {
        let piece = first_piece(local);
        let n = width(piece);
        let rest = local.skip(n);
        assert(pieces == seq![piece] + pieces_of(rest));
        assert(pieces[0] == piece);
        let later = parts.drop_first();
        assert forall|i: int| 0 <= i < later.len() implies fits(
            pieces_of(rest)[i],
            #[trigger] later[i],
        ) && !(pieces_of(rest)[i] is Rest) by {
            assert(later[i] == parts[i + 1]);
            assert(pieces_of(rest)[i] == pieces[i + 1]);
        }
        lemma_part_slashes(rest, later);
        assert(parts.flatten() == parts[0] + later.flatten());
        lemma_slashes_add(parts[0], later.flatten());
        assert(local =~= local.take(n) + rest);
        lemma_slashes_add(local.take(n), rest);
        assert(fits(piece, parts[0]));
        if piece is Literal {
            assert(local.take(n) =~= parts[0]);
        } else {
            lemma_no_slash(parts[0]);
            assert forall|k: int| 0 <= k < n implies local.take(n)[k] != '/' by {}
            lemma_no_slash(local.take(n));
        }
    }
}

/// Without `**`, a pattern matches topics of as many segments as it has itself:
/// each `*` stands for exactly one.
pub proof fn segments_are_kept(
    local: Seq<char>,
    topic: Seq<char>,
    outcome: Option<Seq<Option<Seq<char>>>>,
)
    requires
        forall|i: int| 0 <= i < pieces_of(local).len() ==> !(#[trigger] pieces_of(local)[i] is Rest),
        greedy_match(pieces_of(local), topic, outcome),
    ensures
        outcome is Some ==> slashes(topic) == slashes(local),
{
    if let Some(groups) = outcome {
        let parts = choose|parts: Seq<Seq<char>>|
            {
                &&& #[trigger] splits(pieces_of(local), parts, topic)
                &&& forall|other: Seq<Seq<char>>|
                    splits(pieces_of(local), other, topic) ==> #[trigger] greedier(parts, other)
                &&& groups == full_groups(topic, captured(pieces_of(local), parts))
            };
        assert forall|i: int| 0 <= i < parts.len() implies fits(
            pieces_of(local)[i],
            #[trigger] parts[i],
        ) && !(pieces_of(local)[i] is Rest) by {
            assert(!(pieces_of(local)[i] is Rest));
        }
        lemma_part_slashes(local, parts);
    }
}

/// Filling the wildcards of a pattern with the parts of a topic, behind a text
/// that is filled already.
proof fn lemma_fill_back(done: Seq<char>, local: Seq<char>, parts: Seq<Seq<char>>)
    requires
        parts.len() == pieces_of(local).len(),
        forall|i: int| 0 <= i < parts.len() ==> fits(pieces_of(local)[i], #[trigger] parts[i]),
        forall|i: int| 0 <= i < parts.len() ==> !(#[trigger] parts[i]).contains('*'),
        !done.contains('*'),
        !misaligned(local),
        done.len() > 0 && local.len() > 0 && local[0] == '*' ==> done.last() != '$',
    ensures
        filled(done + local, captured(pieces_of(local), parts)) == done + parts.flatten(),
    decreases local.len(),
{
    let pieces = pieces_of(local);
    if local.len() == 0 {
        assert(done + local =~= done + parts.flatten());
        assert(captured(pieces, parts).len() == 0);
    } else {
        let piece = first_piece(local);
        let n = width(piece);
        let rest = local.skip(n);
        let part = parts[0];
        let later = parts.drop_first();
        let next = done + part;
        assert(pieces == seq![piece] + pieces_of(rest));
        assert(pieces.drop_first() =~= pieces_of(rest));
        assert(pieces[0] == piece);
        assert(fits(piece, part));
        assert(!part.contains('*'));
        assert forall|i: int| 0 <= i < later.len() implies fits(
            pieces_of(rest)[i],
            #[trigger] later[i],
        ) && !later[i].contains('*') by {
            assert(later[i] == parts[i + 1]);
            assert(pieces_of(rest)[i] == pieces[i + 1]);
        }
        assert(!next.contains('*')) by {
            if next.contains('*') {
                let k = choose|k: int| 0 <= k < next.len() && next[k] == '*';
                if k < done.len() {
                    assert(done.contains(done[k]));
                } else {
                    assert(part.contains(part[k - done.len()]));
                }
            }
        }
        assert(!misaligned(rest)) by {
            if misaligned(rest) {
                let k = choose|k: int|
                    0 <= k && k + 2 < rest.len() && #[trigger] rest[k] != '/' && rest[k + 1] == '*'
                        && rest[k + 2] == '*';
                assert(local[n + k] != '/');
            }
        }
        assert(next.len() > 0 && rest.len() > 0 && rest[0] == '*' ==> next.last() != '$') by {
            if rest.len() > 0 && rest[0] == '*' {
                assert(local[n] == '*');
                // Behind `**` another asterisk would be misaligned.
                if piece is Rest {
                    assert(local[0] != '/');
                }
                // A dollar sign before one asterisk belongs to it, before two it
                // would be misaligned.
                if piece is Literal && local[0] == '$' {
                    assert(local.len() > 2 && local[2] == '*');
                    assert(local[0] != '/');
                }
                assert(piece is Literal);
                assert(part == seq![local[0]]);
                assert(next.last() == local[0]);
            }
        }
        lemma_fill_back(next, rest, later);
        assert(parts.flatten() == part + later.flatten());
        assert(next + later.flatten() =~= done + parts.flatten());
        let text = done + local;
        if piece is Literal {
            assert(part == seq![local[0]]);
            assert(next + rest =~= text);
        } else {
            let at = done.len() as int;
            assert forall|i: int| 0 <= i < at implies !wildcard_at(text, i) by {
                assert(done.contains(done[i]));
                assert(text[i] == done[i]);
                if i + 1 < at {
                    assert(done.contains(done[i + 1]));
                    assert(text[i + 1] == done[i + 1]);
                } else {
                    assert(text[i + 1] == local[0]);
                    assert(done.last() == done[i]);
                }
            }
            assert(text[at] == local[0]);
            if local.len() > 1 {
                assert(text[at + 1] == local[1]);
            }
            assert(wildcard_at(text, at));
            assert(first_wildcard_at(text, at));
            lemma_next_wildcard(text, at);
            assert(wildcard_len(text, at) == n);
            assert(fill_one(text, part) =~= next + rest);
            let values = captured(pieces, parts);
            assert(values[0] == part);
            assert(values.drop_first() =~= captured(pieces_of(rest), later));
        }
    }
}

/// A pattern that is its own remote pattern gives every topic back, where the
/// topic holds no wildcard itself.
pub proof fn pattern_resolves_to_the_topic(
    local: Seq<char>,
    topic: Seq<char>,
    outcome: Option<Seq<Option<Seq<char>>>>,
)
    requires
        valid_pattern(local),
        !topic.contains('*'),
        greedy_match(pieces_of(local), topic, outcome),
    ensures
        outcome is Some ==> conclusion(local, outcome) == Ok::<_, ResolverError>(
            topic,
        ),
{
    if let Some(groups) = outcome {
        let pieces = pieces_of(local);
        let parts = choose|parts: Seq<Seq<char>>|
            {
                &&& #[trigger] splits(pieces, parts, topic)
                &&& forall|other: Seq<Seq<char>>|
                    splits(pieces, other, topic) ==> #[trigger] greedier(parts, other)
                &&& groups == full_groups(topic, captured(pieces, parts))
            };
        assert forall|i: int| 0 <= i < parts.len() implies !(#[trigger] parts[i]).contains('*') by {
            if parts[i].contains('*') {
                lemma_part_in_text(parts, i, '*');
            }
        }
        let none = Seq::<char>::empty();
        lemma_fill_back(none, local, parts);
        assert(none + local =~= local);
        assert(none + parts.flatten() =~= topic);
        assert(values_of(groups) =~= captured(pieces, parts));
    }
}

/// What a part holds, the whole text holds.
proof fn lemma_part_in_text(parts: Seq<Seq<char>>, i: int, ch: char)
    requires
        0 <= i < parts.len(),
        parts[i].contains(ch),
    ensures
        parts.flatten().contains(ch),
    decreases parts.len(),
{
    let rest = parts.drop_first();
    let text = parts.flatten();
    assert(text == parts[0] + rest.flatten());
    if i == 0 {
        let k = choose|k: int| 0 <= k < parts[0].len() && parts[0][k] == ch;
        assert(text[k] == ch);
    } else {
        assert(rest[i - 1] == parts[i]);
        lemma_part_in_text(rest, i - 1, ch);
        let k = choose|k: int| 0 <= k < rest.flatten().len() && rest.flatten()[k] == ch;
        assert(text[parts[0].len() + k] == ch);
    }
}

/// Each error comes where it is due: the topic is looked at first, then the
/// pattern. The remote pattern never decides whether there is an address, nor
/// which error there is.
pub proof fn errors_come_where_due(
    local: Seq<char>,
    remote: Seq<char>,
    other: Seq<char>,
    topic: Seq<char>,
)
    ensures
        resolution(local, remote, topic) == Err::<Seq<char>, _>(ResolverError::NonCanonicalPath)
            <==> !canonical(topic),
        resolution(local, remote, topic) == Err::<Seq<char>, _>(ResolverError::InvalidPattern)
            <==> canonical(topic) && !(valid_pattern(local) && regex_compiles(expression(local))),
        resolution(local, remote, topic) is Ok <==> resolution(local, other, topic) is Ok,
        resolution(local, remote, topic) is Err ==> resolution(local, remote, topic) == resolution(
            local,
            other,
            topic,
        ),
{
}

/// A pattern made of wildcards and plain characters, up to a thousand of them, is
/// refused exactly where it is malformed, whatever the remote pattern is.
pub proof fn bare_patterns_are_refused_where_malformed(
    local: Seq<char>,
    remote: Seq<char>,
    other: Seq<char>,
    topic: Seq<char>,
)
    requires
        bare_pattern(local),
        local.len() <= 1000,
        settled(local, remote, topic, resolution(local, remote, topic)),
    ensures
        resolution(local, remote, topic) == Err::<Seq<char>, _>(ResolverError::NonCanonicalPath)
            <==> !canonical(topic),
        resolution(local, remote, topic) == Err::<Seq<char>, _>(ResolverError::InvalidPattern)
            <==> canonical(topic) && !valid_pattern(local),
        resolution(local, remote, topic) is Ok <==> resolution(local, other, topic) is Ok,
        resolution(local, remote, topic) is Err ==> resolution(local, remote, topic) == resolution(
            local,
            other,
            topic,
        ),
{
    errors_come_where_due(local, remote, other, topic);
}

/// Whether `w` is one of the three wildcards, and the first of the text `a + w + b`.
pub open spec fn first_wildcard(a: Seq<char>, w: Seq<char>, b: Seq<char>) -> bool {
    &&& !a.contains('*')
    &&& {
        ||| w == seq!['$', '*']
        ||| w == seq!['*', '*'] && (a.len() > 0 ==> a.last() != '$')
        ||| w == seq!['*'] && (a.len() > 0 ==> a.last() != '$') && (b.len() > 0 ==> b[0] != '*')
    }
}

/// The first wildcard of a text is found where it stands, whichever of the three it
/// is.
pub proof fn first_wildcard_is_found(a: Seq<char>, w: Seq<char>, b: Seq<char>)
    requires
        first_wildcard(a, w, b),
    ensures
        next_wildcard(a + w + b) == Some(a.len() as int),
        wildcard_len(a + w + b, a.len() as int) == w.len(),
{
    let s = a + w + b;
    let at = a.len() as int;
    assert(s[at] == w[0]);
    if w.len() == 2 {
        assert(s[at + 1] == w[1]);
    } else if b.len() > 0 {
        assert(s[at + 1] == b[0]);
    }
    assert forall|i: int| 0 <= i < at implies !wildcard_at(s, i) by {
        assert(a.contains(a[i]));
        assert(s[i] == a[i]);
        if i + 1 < at {
            assert(a.contains(a[i + 1]));
            assert(s[i + 1] == a[i + 1]);
        }
    }
    assert(first_wildcard_at(s, at));
    lemma_next_wildcard(s, at);
}

/// Each value takes the place of the next wildcard, of whatever kind that is, and
/// whatever the value holds; the text around stays, and the other values fill what
/// comes of it.
pub proof fn each_value_fills_the_next_wildcard(
    a: Seq<char>,
    w: Seq<char>,
    b: Seq<char>,
    value: Seq<char>,
    others: Seq<Seq<char>>,
)
    requires
        first_wildcard(a, w, b),
    ensures
        filled(a + w + b, seq![value] + others) == filled(a + value + b, others),
{
    let s = a + w + b;
    first_wildcard_is_found(a, w, b);
    assert(s.take(a.len() as int) =~= a);
    assert(s.skip((a.len() + w.len()) as int) =~= b);
    let values = seq![value] + others;
    assert(values[0] == value);
    assert(values.drop_first() =~= others);
    assert(fill_one(s, value) == a + value + b);
}

/// Without a value nothing is filled.
pub proof fn nothing_fills_without_values(text: Seq<char>)
    ensures
        filled(text, Seq::empty()) == text,
{
}

/// A text without wildcards, before anything that leaves them apart.
proof fn lemma_literals_before(text: Seq<char>, tail: Seq<char>)
    requires
        !text.contains('*'),
        text.len() > 0 && tail.len() > 0 && tail[0] == '*' ==> text.last() != '$',
    ensures
        pieces_of(text + tail) == letters(text) + pieces_of(tail),
    decreases text.len(),
{
    let local = text + tail;
    if text.len() == 0 {
        assert(local =~= tail);
        assert(letters(text) + pieces_of(tail) =~= pieces_of(tail));
    } else {
        let rest = text.drop_first();
        assert forall|i: int| 0 <= i < text.len() implies text[i] != '*' by {
            assert(text.contains(text[i]));
        }
        assert(!rest.contains('*'));
        assert(first_piece(local) == Piece::Literal(text[0])) by {
            if text.len() > 1 {
                assert(local[1] == text[1]);
            } else if tail.len() > 0 {
                assert(local[1] == tail[0]);
                assert(text.last() == text[0]);
            }
        }
        assert(local.skip(1) =~= rest + tail);
        if rest.len() > 0 {
            assert(rest.last() == text.last());
        }
        lemma_literals_before(rest, tail);
        assert(letters(text) =~= seq![Piece::Literal(text[0])] + letters(rest));
        assert(pieces_of(local) =~= letters(text) + pieces_of(tail));
    }
}

/// The group that a wildcard stands for.
pub open spec fn wildcard_piece(w: Seq<char>) -> Piece {
    if w == seq!['*', '*'] {
        Piece::Rest
    } else if w == seq!['*'] {
        Piece::Segment
    } else {
        Piece::Fragment
    }
}

/// A pattern is read from the left: the text before its first wildcard stands for
/// itself, the wildcard for its group, and what follows is read in the same way.
pub proof fn patterns_are_read_from_the_left(a: Seq<char>, w: Seq<char>, b: Seq<char>)
    requires
        first_wildcard(a, w, b),
        w == seq!['$', '*'] && b.len() > 0 ==> b[0] != '*',
    ensures
        pieces_of(a + w + b) == letters(a) + seq![wildcard_piece(w)] + pieces_of(b),
{
    assert(a + w + b =~= a + (w + b));
    assert((w + b)[0] == w[0]);
    lemma_literals_before(a, w + b);
    let tail = w + b;
    if w.len() == 2 {
        assert(tail[1] == w[1]);
        if b.len() > 0 {
            assert(tail[2] == b[0]);
        }
    } else if b.len() > 0 {
        assert(tail[1] == b[0]);
    }
    assert(first_piece(tail) == wildcard_piece(w));
    assert(tail.skip(w.len() as int) =~= b);
    assert(pieces_of(tail) =~= seq![wildcard_piece(w)] + pieces_of(b));
    assert(letters(a) + (seq![wildcard_piece(w)] + pieces_of(b)) =~= letters(a)
        + seq![wildcard_piece(w)] + pieces_of(b));
}

/// Whether a wildcard can stand for a text: `**` for any on one line, `*` for one
/// that is not empty and holds no slash, `$*` for one without a slash.
pub open spec fn can_stand_for(w: Seq<char>, text: Seq<char>) -> bool {
    if w == seq!['*', '*'] {
        !text.contains('\n')
    } else if w == seq!['*'] {
        text.len() > 0 && !text.contains('/')
    } else {
        !text.contains('/')
    }
}

/// A pattern with one wildcard matches exactly the topics that hold, in place of
/// the wildcard, a text that the wildcard can stand for; and that text, whatever it
/// holds, fills the remote pattern.
pub proof fn one_wildcard_stands_for_one_text(
    a: Seq<char>,
    w: Seq<char>,
    b: Seq<char>,
    remote: Seq<char>,
    topic: Seq<char>,
    text: Seq<char>,
    outcome: Option<Seq<Option<Seq<char>>>>,
)
    requires
        first_wildcard(a, w, b),
        !b.contains('*'),
        greedy_match(pieces_of(a + w + b), topic, outcome),
    ensures
        topic == a + text + b && can_stand_for(w, text) ==> conclusion(remote, outcome) == Ok::<
            _,
            ResolverError,
        >(filled(remote, seq![text])),
        outcome is Some ==> exists|c: Seq<char>|
            topic == #[trigger] (a + c) + b && can_stand_for(w, c),
{
    let piece = wildcard_piece(w);
    let pieces = pieces_of(a + w + b);
    if b.len() > 0 {
        assert(b.contains(b[0]));
    }
    patterns_are_read_from_the_left(a, w, b);
    lemma_literals_before(b, Seq::empty());
    assert(b + Seq::<char>::empty() =~= b);
    assert(pieces_of(Seq::<char>::empty()).len() == 0);
    assert(pieces_of(b) =~= letters(b));
    let more = seq![piece] + letters(b);
    assert(pieces =~= letters(a) + more);
    lemma_singles(a);
    lemma_singles(b);
    if topic == a + text + b && can_stand_for(w, text) {
        let tail = seq![text] + singles(b);
        let parts = singles(a) + tail;
        vstd::seq_lib::lemma_flatten_concat(singles(a), tail);
        lemma_flatten_cons(text, singles(b));
        assert(parts.flatten() =~= topic);
        assert forall|i: int| 0 <= i < pieces.len() implies fits(pieces[i], #[trigger] parts[i]) by {
            if i < a.len() {
                assert(pieces[i] == Piece::Literal(a[i]));
                assert(parts[i] == seq![a[i]]);
            } else if i == a.len() {
                assert(pieces[i] == piece);
                assert(parts[i] == text);
            } else {
                let k = i - a.len() - 1;
                assert(pieces[i] == letters(b)[k]);
                assert(parts[i] == singles(b)[k]);
            }
        }
        assert(splits(pieces, parts, topic));
    }
    if let Some(groups) = outcome {
        let parts = choose|parts: Seq<Seq<char>>|
            {
                &&& #[trigger] splits(pieces, parts, topic)
                &&& forall|other: Seq<Seq<char>>|
                    splits(pieces, other, topic) ==> #[trigger] greedier(parts, other)
                &&& groups == full_groups(topic, captured(pieces, parts))
            };
        lemma_literal_parts(a, more, parts);
        let tail = parts.skip(a.len() as int);
        let last = tail.drop_first();
        let c = tail[0];
        assert(tail.len() == 1 + b.len());
        assert forall|i: int| 0 <= i < last.len() implies fits(
            (letters(b) + Seq::<Piece>::empty())[i],
            #[trigger] last[i],
        ) by {
            assert(last[i] == parts[a.len() + 1 + i]);
            assert(pieces[a.len() + 1 + i] == letters(b)[i]);
        }
        lemma_literal_parts(b, Seq::<Piece>::empty(), last);
        assert(last.skip(b.len() as int).flatten() =~= Seq::<char>::empty());
        assert(last.flatten() =~= b);
        assert(tail.flatten() == c + last.flatten());
        assert(topic =~= (a + c) + b);
        assert(pieces[a.len() as int] == piece);
        assert(fits(piece, parts[a.len() as int]));
        assert(can_stand_for(w, c));
        assert(more.drop_first() =~= letters(b));
        assert(letters(b) + Seq::<Piece>::empty() =~= letters(b));
        assert(captured(letters(b), last).len() == 0);
        assert(captured(more, tail) =~= seq![c]);
        assert(values_of(groups) =~= seq![c]);
        if topic == a + text + b {
            assert(c =~= topic.subrange(a.len() as int, topic.len() - b.len()));
            assert(text =~= topic.subrange(a.len() as int, topic.len() - b.len()));
        }
    }
}

/// What matching finds decides: where it finds nothing there is no address, and
/// where it finds groups, their texts fill the remote pattern in order.
pub proof fn captures_decide(
    local: Seq<char>,
    remote: Seq<char>,
    topic: Seq<char>,
    values: Seq<Seq<char>>,
)
    requires
        canonical(topic),
        valid_pattern(local),
        regex_compiles(expression(local)),
    ensures
        regex_captures(expression(local), topic) is None ==> resolution(local, remote, topic)
            == Err::<Seq<char>, _>(ResolverError::NoMatch),
        regex_captures(expression(local), topic) == Some(
            full_groups(topic, values),
        ) ==> resolution(local, remote, topic) == Ok::<_, ResolverError>(filled(remote, values)),
{
    let groups = full_groups(topic, values);
    assert(groups.skip(1) =~= values.map_values(|p: Seq<char>| Some(p)));
    assert(values_of(groups) =~= values);
}

/// A path is canonical exactly where no two slashes stand side by side and no two
/// asterisks stand behind a character other than a slash; a pattern must not end in
/// a slash either.
pub proof fn canonical_by_characters(path: Seq<char>)
    ensures
        canonical(path) <==> {
            &&& forall|i: int|
                0 <= i && i + 1 < path.len() ==> !(#[trigger] path[i] == '/' && path[i + 1] == '/')
            &&& forall|i: int|
                0 <= i && i + 2 < path.len() ==> !(#[trigger] path[i] != '/' && path[i + 1] == '*'
                    && path[i + 2] == '*')
        },
        valid_pattern(path) <==> canonical(path) && (path.len() > 0 ==> path.last() != '/'),
{
    reveal_strlit("//");
    assert("//"@ =~= seq!['/', '/']);
    if contains_text(path, "//"@) {
        let at = choose|at: int| occurs_at(path, at, "//"@);
        let pair = path.subrange(at, at + 2);
        assert(pair[0] == '/' && pair[1] == '/');
        assert(path[at] == pair[0] && path[at + 1] == pair[1]);
    }
    if exists|i: int| 0 <= i && i + 1 < path.len() && #[trigger] path[i] == '/' && path[i + 1]
        == '/' {
        let i = choose|i: int|
            0 <= i && i + 1 < path.len() && #[trigger] path[i] == '/' && path[i + 1] == '/';
        assert(path.subrange(i, i + 2) =~= "//"@);
        assert(occurs_at(path, i, "//"@));
    }
}

/// A pattern of letters, digits, dashes, underscores, dots, slashes and asterisks,
/// without the letters at which the marker names start, is plain.
pub proof fn ordinary_patterns_are_plain(local: Seq<char>)
    requires
        forall|i: int|
            0 <= i < local.len() ==> {
                let ch = #[trigger] local[i];
                ||| 'a' <= ch <= 'z'
                ||| 'A' <= ch <= 'Z'
                ||| '0' <= ch <= '9'
                ||| ch == '-'
                ||| ch == '_'
                ||| ch == '.'
                ||| ch == '/'
                ||| ch == '*'
            },
        !local.contains('D'),
        !local.contains('S'),
        !local.contains('F'),
    ensures
        plain_pattern(local),
{
    unambiguous_without_marker_letters(local);
    crate::wildcard::lemma_pieces_hold(local);
    crate::wildcard::lemma_pieces_well_read(local);
    let pieces = pieces_of(local);
    assert forall|i: int| 0 <= i < pieces.len() implies crate::pattern::writable(
        #[trigger] pieces[i],
    ) by {
        if let Piece::Literal(ch) = pieces[i] {
            assert(local.contains(ch));
            let k = choose|k: int| 0 <= k < local.len() && local[k] == ch;
            assert(local[k] == ch);
        }
    }
}

/// From topic to address with one wildcard on each side, of whatever kinds: a
/// well-formed pattern up to a thousand characters gives every canonical topic that
/// it matches the address in which the topic's text stands for the wildcard, with
/// the text around it kept; a topic that it does not match has none.
pub proof fn one_wildcard_resolution(
    a: Seq<char>,
    w: Seq<char>,
    b: Seq<char>,
    before: Seq<char>,
    v: Seq<char>,
    after: Seq<char>,
    topic: Seq<char>,
    text: Seq<char>,
)
    requires
        first_wildcard(a, w, b),
        !b.contains('*'),
        first_wildcard(before, v, after),
        plain_pattern(a + w + b),
        valid_pattern(a + w + b),
        (a + w + b).len() <= 1000,
        canonical(topic),
        settled(
            a + w + b,
            before + v + after,
            topic,
            resolution(a + w + b, before + v + after, topic),
        ),
    ensures
        topic == a + text + b && can_stand_for(w, text) ==> resolution(
            a + w + b,
            before + v + after,
            topic,
        ) == Ok::<_, ResolverError>(before + text + after),
        (forall|c: Seq<char>| topic != #[trigger] (a + c) + b || !can_stand_for(w, c)) ==> resolution(
            a + w + b,
            before + v + after,
            topic,
        ) == Err::<Seq<char>, _>(ResolverError::NoMatch),
{
    let local = a + w + b;
    let remote = before + v + after;
    let result = resolution(local, remote, topic);
    let outcome = choose|outcome: Option<Seq<Option<Seq<char>>>>| #[trigger]
        greedy_match(pieces_of(local), topic, outcome) && result == conclusion(remote, outcome);
    one_wildcard_stands_for_one_text(a, w, b, remote, topic, text, outcome);
    each_value_fills_the_next_wildcard(before, v, after, text, Seq::empty());
    assert(seq![text] + Seq::<Seq<char>>::empty() =~= seq![text]);
}

/// The groups of a match are the whole text and what each wildcard stands for; the
/// values are all but the first, in their order. A group that took no part is told
/// from one that is empty.
pub proof fn groups_give_their_texts(whole: Seq<char>, values: Seq<Seq<char>>)
    ensures
        values_of(seq![Some(whole)] + values.map_values(|v: Seq<char>| Some(v))) == values,
        all_took_part(seq![Some(whole)] + values.map_values(|v: Seq<char>| Some(v))),
        full_groups(whole, values) == seq![Some(whole)] + values.map_values(
            |v: Seq<char>| Some(v),
        ),
{
    let groups = seq![Some(whole)] + values.map_values(|v: Seq<char>| Some(v));
    assert(groups.skip(1) =~= values.map_values(|v: Seq<char>| Some(v)));
    assert(values_of(groups) =~= values);
    assert(full_groups(whole, values) =~= groups);
}

/// A group is left out exactly where a well-formed pattern matches a canonical topic
/// and some group behind the whole text is missing.
pub proof fn when_a_group_is_left_out(local: Seq<char>, topic: Seq<char>)
    ensures
        groups_take_part(local, topic) <==> !(canonical(topic) && valid_pattern(local)
            && regex_compiles(expression(local)) && (regex_captures(
            expression(local),
            topic,
        ) matches Some(groups) && exists|i: int|
            1 <= i < groups.len() && #[trigger] groups[i] is None)),
{
}

/// What the groups of some pieces capture is what the first of them capture,
/// followed by what the others do; a character captures nothing, and every wildcard
/// captures the text that it stands for, also where that is empty.
pub proof fn groups_capture_in_order(
    first: Seq<Piece>,
    last: Seq<Piece>,
    parts: Seq<Seq<char>>,
    others: Seq<Seq<char>>,
    piece: Piece,
    text: Seq<char>,
)
    requires
        parts.len() == first.len(),
    ensures
        captured(first + last, parts + others) == captured(first, parts) + captured(last, others),
        piece is Literal ==> captured(seq![piece], seq![text]).len() == 0,
        !(piece is Literal) ==> captured(seq![piece], seq![text]) == seq![text],
    decreases first.len(),
{
    assert(seq![piece].drop_first() =~= Seq::empty());
    assert(captured(Seq::<Piece>::empty(), seq![text].drop_first()).len() == 0);
    if first.len() == 0 {
        assert(first + last =~= last);
        assert(parts + others =~= others);
        assert(captured(first, parts) + captured(last, others) =~= captured(last, others));
    } else {
        assert((first + last).drop_first() =~= first.drop_first() + last);
        assert((parts + others).drop_first() =~= parts.drop_first() + others);
        groups_capture_in_order(
            first.drop_first(),
            last,
            parts.drop_first(),
            others,
            piece,
            text,
        );
        assert((parts + others)[0] == parts[0]);
        assert(captured(first + last, parts + others) =~= captured(first, parts) + captured(
            last,
            others,
        ));
    }
}

/// The text of every piece in an expression: the dot is escaped, and the wildcards
/// are the groups for a run, a segment and a part of a segment.
pub proof fn pieces_are_written_so(ch: char)
    ensures
        piece_text(Piece::Literal('.')) == "\\."@,
        ch != '.' ==> piece_text(Piece::Literal(ch)) == seq![ch],
        piece_text(Piece::Rest) == "(.*)"@,
        piece_text(Piece::Segment) == "([^/]+)"@,
        piece_text(Piece::Fragment) == "([^/]*)"@,
{
    reveal_strlit("\\.");
    reveal_strlit("(.*)");
    reveal_strlit("([^/]+)");
    reveal_strlit("([^/]*)");
    assert(piece_text(Piece::Literal('.')) =~= "\\."@);
    assert(piece_text(Piece::Rest) =~= "(.*)"@);
    assert(piece_text(Piece::Segment) =~= "([^/]+)"@);
    assert(piece_text(Piece::Fragment) =~= "([^/]*)"@);
}

/// A result is told as it is: an address by its text, and an error as the same error.
pub proof fn results_are_told_as_they_are(url: String, error: ResolverError)
    ensures
        result_text(Ok(url)) == Ok::<_, ResolverError>(url@),
        result_text(Err(error)) == Err::<Seq<char>, _>(error),
{
}

/// Whether a character of a pattern has a meaning of its own in an expression.
pub open spec fn has_meaning(ch: char) -> bool {
    ch == '\\' || ch == '+' || ch == '?' || ch == '(' || ch == ')' || ch == '|' || ch == '^' || ch
        == '[' || ch == ']' || ch == '{' || ch == '}'
}

/// Every character of a pattern but for the wildcards is a piece of it.
proof fn lemma_characters_are_pieces(local: Seq<char>, at: int)
    requires
        0 <= at < local.len(),
        local[at] != '*',
        local[at] != '$',
    ensures
        pieces_of(local).contains(Piece::Literal(local[at])),
    decreases local.len(),
{
    let piece = first_piece(local);
    let rest = local.skip(width(piece));
    let pieces = pieces_of(local);
    assert(pieces == seq![piece] + pieces_of(rest));
    if at == 0 {
        assert(pieces[0] == Piece::Literal(local[0]));
    } else {
        assert(at >= width(piece));
        assert(rest[at - width(piece)] == local[at]);
        lemma_characters_are_pieces(rest, at - width(piece));
        let k = choose|k: int|
            0 <= k < pieces_of(rest).len() && pieces_of(rest)[k] == Piece::Literal(local[at]);
        assert(pieces[k + 1] == pieces_of(rest)[k]);
    }
}

/// A pattern without a dollar sign is bare exactly where no character of it has a
/// meaning of its own in an expression: the wildcards, the dot and every other
/// character, of whatever script, are free.
pub proof fn bare_by_characters(local: Seq<char>)
    requires
        !local.contains('$'),
    ensures
        bare_pattern(local) <==> forall|i: int|
            0 <= i < local.len() ==> !has_meaning(#[trigger] local[i]),
{
    let pieces = pieces_of(local);
    crate::wildcard::lemma_pieces_hold(local);
    crate::wildcard::lemma_pieces_well_read(local);
    if bare_pattern(local) {
        assert forall|i: int| 0 <= i < local.len() implies !has_meaning(#[trigger] local[i]) by {
            assert(local.contains(local[i]));
            if local[i] != '*' {
                lemma_characters_are_pieces(local, i);
                let k = choose|k: int| 0 <= k < pieces.len() && pieces[k] == Piece::Literal(
                    local[i],
                );
                assert(crate::pattern::writable(pieces[k]));
            }
        }
    }
    if forall|i: int| 0 <= i < local.len() ==> !has_meaning(#[trigger] local[i]) {
        assert forall|i: int| 0 <= i < pieces.len() implies crate::pattern::writable(
            #[trigger] pieces[i],
        ) by {
            if let Piece::Literal(ch) = pieces[i] {
                assert(local.contains(ch));
                let k = choose|k: int| 0 <= k < local.len() && local[k] == ch;
                assert(!has_meaning(local[k]));
            }
        }
    }
}

/// What does not hold a character of a text does not hold the text.
proof fn lemma_character_missing(hay: Seq<char>, needle: Seq<char>, at: int)
    requires
        0 <= at < needle.len(),
        !hay.contains(needle[at]),
    ensures
        !contains_text(hay, needle),
{
    if contains_text(hay, needle) {
        let k = choose|k: int| occurs_at(hay, k, needle);
        assert(hay.subrange(k, k + needle.len())[at] == hay[k + at]);
        assert(hay.contains(hay[k + at]));
    }
}

/// A pattern without dots, asterisks and underscores stands in its expression as it
/// is, whatever else it holds, an expression of its own among it.
pub proof fn other_text_is_kept(local: Seq<char>)
    requires
        !local.contains('.'),
        !local.contains('*'),
        !local.contains('_'),
    ensures
        expression(local) == seq!['^'] + local + seq!['$'],
{
    reveal_strlit(".");
    reveal_strlit("**");
    reveal_strlit("$*");
    reveal_strlit("*");
    reveal_strlit("___DOUBLE___");
    reveal_strlit("___SINGLE___");
    reveal_strlit("___FRAG___");
    reveal_strlit("^");
    reveal_strlit("$");
    lemma_character_missing(local, "."@, 0);
    lemma_character_missing(local, "**"@, 0);
    lemma_character_missing(local, "$*"@, 1);
    lemma_character_missing(local, "*"@, 0);
    lemma_character_missing(local, "___DOUBLE___"@, 0);
    lemma_character_missing(local, "___SINGLE___"@, 0);
    lemma_character_missing(local, "___FRAG___"@, 0);
    nothing_to_replace(local, "."@, "\\."@);
    nothing_to_replace(local, "**"@, "___DOUBLE___"@);
    nothing_to_replace(local, "$*"@, "___FRAG___"@);
    nothing_to_replace(local, "*"@, "___SINGLE___"@);
    nothing_to_replace(local, "___DOUBLE___"@, "(.*)"@);
    nothing_to_replace(local, "___SINGLE___"@, "([^/]+)"@);
    nothing_to_replace(local, "___FRAG___"@, "([^/]*)"@);
    assert("^"@ =~= seq!['^']);
    assert("$"@ =~= seq!['$']);
}

/// Of two ways to split a text, the greedier has the longer part where they first
/// differ.
pub proof fn the_greedier_is_longer_first(parts: Seq<Seq<char>>, other: Seq<Seq<char>>) -> (i: int)
    requires
        greedier(parts, other),
        parts != other,
    ensures
        0 <= i < parts.len(),
        i < other.len(),
        parts[i].len() > other[i].len(),
        forall|k: int| 0 <= k < i ==> parts[k] == #[trigger] other[k],
{
    let i = choose|i: int|
        {
            &&& 0 <= i < parts.len()
            &&& i < other.len()
            &&& other.take(i) == parts.take(i)
            &&& #[trigger] other[i].len() < parts[i].len()
        };
    assert forall|k: int| 0 <= k < i implies parts[k] == #[trigger] other[k] by {
        assert(other.take(i)[k] == other[k]);
        assert(parts.take(i)[k] == parts[k]);
    }
    i
}

/// The text of three parts.
proof fn lemma_three_parts(parts: Seq<Seq<char>>)
    requires
        parts.len() == 3,
    ensures
        parts.flatten() == parts[0] + parts[1] + parts[2],
{
    let two = parts.drop_first();
    let one = two.drop_first();
    assert(one.drop_first().flatten() =~= Seq::<char>::empty());
    assert(one.flatten() =~= parts[2]);
    assert(two.flatten() =~= parts[1] + parts[2]);
    assert(parts.flatten() =~= parts[0] + parts[1] + parts[2]);
}

/// Of two runs with a character between them, the first takes as much as it can: it
/// stands for all before the last such character, and the second for what is behind
/// it.
pub proof fn the_first_run_takes_the_most(
    before: Seq<char>,
    c: char,
    behind: Seq<char>,
    outcome: Option<Seq<Option<Seq<char>>>>,
)
    requires
        !before.contains('\n'),
        !behind.contains('\n'),
        !behind.contains(c),
        greedy_match(
            seq![Piece::Rest, Piece::Literal(c), Piece::Rest],
            before + seq![c] + behind,
            outcome,
        ),
    ensures
        outcome matches Some(groups) && values_of(groups) == seq![before, behind],
{
    let pieces = seq![Piece::Rest, Piece::Literal(c), Piece::Rest];
    let topic = before + seq![c] + behind;
    let wanted = seq![before, seq![c], behind];
    lemma_three_parts(wanted);
    assert(splits(pieces, wanted, topic));
    let groups = outcome->0;
    let parts = choose|parts: Seq<Seq<char>>|
        {
            &&& #[trigger] splits(pieces, parts, topic)
            &&& forall|other: Seq<Seq<char>>|
                splits(pieces, other, topic) ==> #[trigger] greedier(parts, other)
            &&& groups == full_groups(topic, captured(pieces, parts))
        };
    lemma_three_parts(parts);
    assert(fits(pieces[1], parts[1]));
    if parts != wanted {
        let i = the_greedier_is_longer_first(parts, wanted);
        let at = parts[0].len() as int;
        assert(topic[at] == c);
        if i == 0 {
            assert(wanted[0] == before);
            assert(at > before.len());
            assert(parts[1] == seq![c]);
            assert(at < topic.len());
            assert(topic[at] == behind[at - before.len() - 1]);
            assert(behind[at - before.len() - 1] == c);
            assert(behind.contains(c));
        } else {
            assert(parts[0] == wanted[0]);
            assert(parts[1].len() == 1);
            assert(i == 2);
            assert(topic.len() == before.len() + 1 + parts[2].len());
        }
    }
    let (first, rest) = (pieces.drop_first(), parts.drop_first());
    let (last, end) = (first.drop_first(), rest.drop_first());
    assert(captured(last.drop_first(), end.drop_first()).len() == 0);
    assert(captured(last, end) =~= seq![behind]);
    assert(captured(first, rest) =~= seq![behind]);
    assert(captured(pieces, parts) =~= seq![before, behind]);
    assert(groups.skip(1) =~= seq![before, behind].map_values(|p: Seq<char>| Some(p)));
    assert(values_of(groups) =~= seq![before, behind]);
}

} // verus!
