//! Topic patterns with wildcards, and the expressions that they are turned into.
//!
//! `**` stands for any run of characters, `*` for one segment, and `$*` for a
//! part of a segment. Each is first replaced by a marker and the markers by
//! groups, so that no replacement touches what an earlier one put in.

use vstd::prelude::*;

use crate::chunks::{
    lemma_flatten_cons, lemma_locate, lemma_occurs_is_prefix, lemma_replaced_chunks,
    lemma_replaced_copies,
};
use crate::pattern::{
    anchored, piece_text, piece_weight, pieces_text, weight, writable, Piece,
};
use crate::text::{joined, occurs_at, replace_all, replaced};

verus! {

/// The piece at which a topic pattern starts. Asterisks are read in pairs, so a
/// dollar sign belongs to a single asterisk only.
pub open spec fn first_piece(local: Seq<char>) -> Piece {
    if local[0] == '*' {
        if local.len() > 1 && local[1] == '*' {
            Piece::Rest
        } else {
            Piece::Segment
        }
    } else if local[0] == '$' && local.len() > 1 && local[1] == '*' && !(local.len() > 2
        && local[2] == '*') {
        Piece::Fragment
    } else {
        Piece::Literal(local[0])
    }
}

/// How many characters of the pattern a piece takes.
pub open spec fn width(piece: Piece) -> int {
    match piece {
        Piece::Rest | Piece::Fragment => 2,
        _ => 1,
    }
}

/// The pieces of a topic pattern: its wildcards, read from the left, and the
/// characters between them.
pub open spec fn pieces_of(local: Seq<char>) -> Seq<Piece>
    decreases local.len(),
{
    if local.len() == 0 {
        Seq::empty()
    } else {
        seq![first_piece(local)] + pieces_of(local.skip(width(first_piece(local))))
    }
}

/// The pattern with dots escaped and wildcards replaced by markers.
pub open spec fn marked(local: Seq<char>) -> Seq<char> {
    let escaped = replaced(local, "."@, "\\."@);
    let doubles = replaced(escaped, "**"@, "___DOUBLE___"@);
    let fragments = replaced(doubles, "$*"@, "___FRAG___"@);
    replaced(fragments, "*"@, "___SINGLE___"@)
}

/// The expression of a topic pattern.
pub open spec fn expression(local: Seq<char>) -> Seq<char> {
    let doubles = replaced(marked(local), "___DOUBLE___"@, "(.*)"@);
    let singles = replaced(doubles, "___SINGLE___"@, "([^/]+)"@);
    let fragments = replaced(singles, "___FRAG___"@, "([^/]*)"@);
    "^"@ + fragments + "$"@
}

/// The text of a piece after each step of the rewriting.
pub open spec fn staged(piece: Piece, stage: int) -> Seq<char> {
    match piece {
        Piece::Literal(ch) => if ch == '.' && stage >= 1 {
            "\\."@
        } else {
            seq![ch]
        },
        Piece::Rest => if stage < 2 {
            "**"@
        } else if stage < 5 {
            "___DOUBLE___"@
        } else {
            "(.*)"@
        },
        Piece::Segment => if stage < 4 {
            "*"@
        } else if stage < 6 {
            "___SINGLE___"@
        } else {
            "([^/]+)"@
        },
        Piece::Fragment => if stage < 3 {
            "$*"@
        } else if stage < 7 {
            "___FRAG___"@
        } else {
            "([^/]*)"@
        },
    }
}

/// The texts of the pieces after each step of the rewriting: after the fourth, all
/// wildcards are markers; the fifth to the seventh put the groups in their place.
pub open spec fn row(pieces: Seq<Piece>, stage: int) -> Seq<Seq<char>> {
    pieces.map_values(|p: Piece| staged(p, stage))
}

/// Whether `marker` starts in the texts of the pieces only where it is such a text
/// itself.
pub open spec fn marks_only(marks: Seq<Seq<char>>, marker: Seq<char>) -> bool {
    forall|i: int, p: int|
        0 <= i < marks.len() && 0 <= p < marks[i].len() && #[trigger] occurs_at(
            marks.skip(i).flatten(),
            p,
            marker,
        ) ==> marks[i] == marker
}

/// Whether each marker can be told from the text around it at the step that
/// replaces it.
pub open spec fn unambiguous(local: Seq<char>) -> bool {
    &&& marks_only(row(pieces_of(local), 4), "___DOUBLE___"@)
    &&& marks_only(row(pieces_of(local), 5), "___SINGLE___"@)
    &&& marks_only(row(pieces_of(local), 6), "___FRAG___"@)
}

/// Whether a topic pattern is made of wildcards, dots and characters that mean
/// themselves in an expression.
pub open spec fn bare_pattern(local: Seq<char>) -> bool {
    forall|i: int| 0 <= i < pieces_of(local).len() ==> writable(#[trigger] pieces_of(local)[i])
}

/// Whether a bare pattern holds nothing that can be taken for a marker.
pub open spec fn plain_pattern(local: Seq<char>) -> bool {
    unambiguous(local) && bare_pattern(local)
}

/// The piece of a character that stands for itself.
pub open spec fn letter(ch: char) -> Piece {
    Piece::Literal(ch)
}

/// The pieces of a text whose characters stand for themselves.
pub open spec fn letters(text: Seq<char>) -> Seq<Piece> {
    text.map_values(|ch: char| letter(ch))
}

/// A piece with its marker written out in characters.
pub open spec fn spelled_piece(piece: Piece) -> Seq<Piece> {
    match piece {
        Piece::Literal(ch) => letters(seq![ch]),
        Piece::Rest => letters("___DOUBLE___"@),
        Piece::Segment => letters("___SINGLE___"@),
        Piece::Fragment => letters("___FRAG___"@),
    }
}

/// The pieces with their markers written out in characters.
pub open spec fn spelled_out(pieces: Seq<Piece>) -> Seq<Piece>
    decreases pieces.len(),
{
    if pieces.len() == 0 {
        Seq::empty()
    } else {
        spelled_piece(pieces[0]) + spelled_out(pieces.drop_first())
    }
}

/// The pieces with every occurrence of a marker, found from the left without
/// overlap, replaced by a group.
pub open spec fn regrouped(pieces: Seq<Piece>, marker: Seq<char>, group: Piece) -> Seq<Piece>
    decreases pieces.len(),
{
    if pieces.len() == 0 || marker.len() == 0 {
        pieces
    } else if letters(marker).is_prefix_of(pieces) {
        seq![group] + regrouped(pieces.skip(marker.len() as int), marker, group)
    } else {
        seq![pieces[0]] + regrouped(pieces.drop_first(), marker, group)
    }
}

/// The pieces that the expression of a bare pattern is made of. Where the pattern
/// holds nothing that can be taken for a marker, they are those of the pattern;
/// else a marker in its text stands for a group too.
pub open spec fn expression_pieces(local: Seq<char>) -> Seq<Piece> {
    let marked = spelled_out(pieces_of(local));
    let doubles = regrouped(marked, "___DOUBLE___"@, Piece::Rest);
    let singles = regrouped(doubles, "___SINGLE___"@, Piece::Segment);
    regrouped(singles, "___FRAG___"@, Piece::Fragment)
}

/// The expression of a topic pattern.
pub fn expression_of(local: &str) -> (r: String)
    ensures
        r@ == expression(local@),
{
    proof {
        reveal_strlit(".");
        reveal_strlit("**");
        reveal_strlit("$*");
        reveal_strlit("*");
        reveal_strlit("___DOUBLE___");
        reveal_strlit("___SINGLE___");
        reveal_strlit("___FRAG___");
    }
    let escaped = replace_all(local, ".", "\\.");
    let doubles = replace_all(&escaped, "**", "___DOUBLE___");
    let fragments = replace_all(&doubles, "$*", "___FRAG___");
    let marked = replace_all(&fragments, "*", "___SINGLE___");
    let doubles = replace_all(&marked, "___DOUBLE___", "(.*)");
    let singles = replace_all(&doubles, "___SINGLE___", "([^/]+)");
    let fragments = replace_all(&singles, "___FRAG___", "([^/]*)");
    joined(&joined("^", &fragments), "$")
}

/// The pieces of a pattern hold its characters.
proof fn lemma_pieces_source(local: Seq<char>)
    ensures
        row(pieces_of(local), 0).flatten() == local,
    decreases local.len(),
{
    reveal_strlit("**");
    reveal_strlit("*");
    reveal_strlit("$*");
    if local.len() == 0 {
        assert(row(pieces_of(local), 0).flatten() =~= local);
    } else {
        let n = width(first_piece(local));
        let rest = pieces_of(local.skip(n));
        let pieces = pieces_of(local);
        lemma_pieces_source(local.skip(n));
        assert(pieces == seq![pieces[0]] + rest);
        assert(row(pieces, 0) =~= seq![staged(pieces[0], 0)] + row(rest, 0));
        lemma_flatten_cons(staged(pieces[0], 0), row(rest, 0));
        assert(staged(pieces[0], 0) =~= local.take(n));
        assert(local =~= local.take(n) + local.skip(n));
    }
}

/// Which pieces can stand behind which.
pub open spec fn well_read(pieces: Seq<Piece>) -> bool {
    forall|i: int|
        0 <= i && i + 1 < pieces.len() ==> {
            &&& (#[trigger] pieces[i] is Segment || pieces[i] is Fragment) ==> !(pieces[i
                + 1] is Rest) && !(pieces[i + 1] is Segment)
            &&& pieces[i] == Piece::Literal('$') ==> !(pieces[i + 1] is Segment)
        }
}

/// The pieces of a pattern stand behind each other as they were read, and no
/// asterisk is left.
pub proof fn lemma_pieces_well_read(local: Seq<char>)
    ensures
        well_read(pieces_of(local)),
        forall|i: int| 0 <= i < pieces_of(local).len() ==> pieces_of(local)[i] != Piece::Literal('*'),
        local.len() > 0 ==> pieces_of(local).len() > 0,
    decreases local.len(),
{
    if local.len() > 0 {
        let n = width(first_piece(local));
        let later = local.skip(n);
        let rest = pieces_of(later);
        let pieces = pieces_of(local);
        lemma_pieces_well_read(later);
        assert(pieces == seq![pieces[0]] + rest);
        assert forall|i: int| 0 <= i && i + 1 < pieces.len() implies {
            &&& (#[trigger] pieces[i] is Segment || pieces[i] is Fragment) ==> !(pieces[i
                + 1] is Rest) && !(pieces[i + 1] is Segment)
            &&& pieces[i] == Piece::Literal('$') ==> !(pieces[i + 1] is Segment)
        } by {
            if i > 0 {
                assert(pieces[i] == rest[i - 1]);
                assert(pieces[i + 1] == rest[i]);
            } else {
                assert(pieces[1] == rest[0]);
            }
        }
        assert forall|i: int| 0 <= i < pieces.len() implies pieces[i] != Piece::Literal('*') by {
            if i > 0 {
                assert(pieces[i] == rest[i - 1]);
            }
        }
    }
}

/// The first characters of a row, from piece `i` on.
proof fn lemma_row_head(pieces: Seq<Piece>, stage: int, i: int)
    requires
        0 <= i < pieces.len(),
    ensures
        row(pieces, stage).skip(i).flatten() == staged(pieces[i], stage) + row(
            pieces,
            stage,
        ).skip(i + 1).flatten(),
        row(pieces, stage)[i] == staged(pieces[i], stage),
{
    let r = row(pieces, stage);
    assert(r.skip(i).drop_first() == r.skip(i + 1));
    assert(r.skip(i)[0] == staged(pieces[i], stage));
}

/// One step of the rewriting, from `stage` to the next.
spec fn step_from(stage: int) -> Seq<char> {
    if stage == 0 {
        "."@
    } else if stage == 1 {
        "**"@
    } else if stage == 2 {
        "$*"@
    } else if stage == 3 {
        "*"@
    } else if stage == 4 {
        "___DOUBLE___"@
    } else if stage == 5 {
        "___SINGLE___"@
    } else {
        "___FRAG___"@
    }
}

spec fn step_to(stage: int) -> Seq<char> {
    if stage == 0 {
        "\\."@
    } else if stage == 1 {
        "___DOUBLE___"@
    } else if stage == 2 {
        "___FRAG___"@
    } else if stage == 3 {
        "___SINGLE___"@
    } else if stage == 4 {
        "(.*)"@
    } else if stage == 5 {
        "([^/]+)"@
    } else {
        "([^/]*)"@
    }
}

/// Whether a step replaces a piece.
spec fn step_hits(piece: Piece, stage: int) -> bool {
    if stage == 0 {
        piece == Piece::Literal('.')
    } else if stage == 1 || stage == 4 {
        piece is Rest
    } else if stage == 2 || stage == 6 {
        piece is Fragment
    } else {
        piece is Segment
    }
}

proof fn lemma_literals()
    ensures
        "."@ == seq!['.'],
        "\\."@ == seq!['\\', '.'],
        "**"@ == seq!['*', '*'],
        "$*"@ == seq!['$', '*'],
        "*"@ == seq!['*'],
        "___DOUBLE___"@ == seq!['_', '_', '_', 'D', 'O', 'U', 'B', 'L', 'E', '_', '_', '_'],
        "___SINGLE___"@ == seq!['_', '_', '_', 'S', 'I', 'N', 'G', 'L', 'E', '_', '_', '_'],
        "___FRAG___"@ == seq!['_', '_', '_', 'F', 'R', 'A', 'G', '_', '_', '_'],
        "(.*)"@ == seq!['(', '.', '*', ')'],
        "([^/]+)"@ == seq!['(', '[', '^', '/', ']', '+', ')'],
        "([^/]*)"@ == seq!['(', '[', '^', '/', ']', '*', ')'],
        "^"@ == seq!['^'],
        "$"@ == seq!['$'],
{
    reveal_strlit(".");
    reveal_strlit("\\.");
    reveal_strlit("**");
    reveal_strlit("$*");
    reveal_strlit("*");
    reveal_strlit("___DOUBLE___");
    reveal_strlit("___SINGLE___");
    reveal_strlit("___FRAG___");
    reveal_strlit("(.*)");
    reveal_strlit("([^/]+)");
    reveal_strlit("([^/]*)");
    reveal_strlit("^");
    reveal_strlit("$");
    assert("."@ =~= seq!['.']);
    assert("\\."@ =~= seq!['\\', '.']);
    assert("**"@ =~= seq!['*', '*']);
    assert("$*"@ =~= seq!['$', '*']);
    assert("*"@ =~= seq!['*']);
    assert("___DOUBLE___"@ =~= seq!['_', '_', '_', 'D', 'O', 'U', 'B', 'L', 'E', '_', '_', '_']);
    assert("___SINGLE___"@ =~= seq!['_', '_', '_', 'S', 'I', 'N', 'G', 'L', 'E', '_', '_', '_']);
    assert("___FRAG___"@ =~= seq!['_', '_', '_', 'F', 'R', 'A', 'G', '_', '_', '_']);
    assert("(.*)"@ =~= seq!['(', '.', '*', ')']);
    assert("([^/]+)"@ =~= seq!['(', '[', '^', '/', ']', '+', ')']);
    assert("([^/]*)"@ =~= seq!['(', '[', '^', '/', ']', '*', ')']);
    assert("^"@ =~= seq!['^']);
    assert("$"@ =~= seq!['$']);
}

/// No wildcard starts in a piece that the first four steps leave alone.
proof fn lemma_no_early_hit(pieces: Seq<Piece>, stage: int, i: int, p: int)
    requires
        0 <= stage < 4,
        well_read(pieces),
        forall|k: int| 0 <= k < pieces.len() ==> pieces[k] != Piece::Literal('*'),
        0 <= i < pieces.len(),
        !step_hits(pieces[i], stage),
        0 <= p < staged(pieces[i], stage).len(),
    ensures
        !occurs_at(row(pieces, stage).skip(i).flatten(), p, step_from(stage)),
{
    lemma_literals();
    lemma_row_head(pieces, stage, i);
    let text = row(pieces, stage).skip(i).flatten();
    let head = staged(pieces[i], stage);
    let tail = row(pieces, stage).skip(i + 1).flatten();
    let from = step_from(stage);
    if occurs_at(text, p, from) {
        assert(text.subrange(p, p + from.len())[0] == text[p]);
        assert(text[p] == head[p]);
        if stage == 1 || stage == 2 {
            assert(text.subrange(p, p + from.len())[1] == text[p + 1]);
            if p + 1 == head.len() {
                assert(text[p + 1] == tail[0]);
                if i + 1 < pieces.len() {
                    lemma_row_head(pieces, stage, i + 1);
                    assert(pieces[i] == pieces[i]);
                    assert(staged(pieces[i + 1], stage).len() > 0);
                    assert(tail[0] == staged(pieces[i + 1], stage)[0]);
                } else {
                    assert(row(pieces, stage).skip(i + 1).len() == 0);
                    assert(tail.len() == 0);
                }
            }
        }
    }
}

/// No marker starts in a piece that the last three steps leave alone, where the
/// marker can be told from the text around it.
proof fn lemma_no_late_hit(pieces: Seq<Piece>, stage: int, i: int, p: int)
    requires
        4 <= stage < 7,
        marks_only(row(pieces, stage), step_from(stage)),
        0 <= i < pieces.len(),
        !step_hits(pieces[i], stage),
        0 <= p < staged(pieces[i], stage).len(),
    ensures
        !occurs_at(row(pieces, stage).skip(i).flatten(), p, step_from(stage)),
{
    lemma_literals();
    let now = row(pieces, stage);
    let from = step_from(stage);
    if occurs_at(now.skip(i).flatten(), p, from) {
        assert(now[i] == staged(pieces[i], stage));
        assert(now[i] == from);
        assert(from.len() >= 10);
        assert(now[i][3] == from[3]);
    }
}

/// One step of the rewriting goes piece by piece.
proof fn lemma_step(pieces: Seq<Piece>, stage: int)
    requires
        0 <= stage < 7,
        well_read(pieces),
        forall|k: int| 0 <= k < pieces.len() ==> pieces[k] != Piece::Literal('*'),
        stage >= 4 ==> marks_only(row(pieces, stage), step_from(stage)),
    ensures
        replaced(row(pieces, stage).flatten(), step_from(stage), step_to(stage)) == row(
            pieces,
            stage + 1,
        ).flatten(),
{
    lemma_literals();
    let chunks = row(pieces, stage);
    let after = row(pieces, stage + 1);
    let from = step_from(stage);
    let to = step_to(stage);
    assert forall|i: int| 0 <= i < chunks.len() implies {
        ||| chunks[i] == from && #[trigger] after[i] == to
        ||| after[i] == chunks[i] && forall|p: int|
            0 <= p < chunks[i].len() ==> !occurs_at(chunks.skip(i).flatten(), p, from)
    } by {
        assert(chunks[i] == staged(pieces[i], stage));
        assert(after[i] == staged(pieces[i], stage + 1));
        if step_hits(pieces[i], stage) {
            assert(chunks[i] == from && after[i] == to);
        } else {
            assert(after[i] == chunks[i]);
            assert forall|p: int| 0 <= p < chunks[i].len() implies !occurs_at(
                chunks.skip(i).flatten(),
                p,
                from,
            ) by {
                if stage < 4 {
                    lemma_no_early_hit(pieces, stage, i, p);
                } else {
                    lemma_no_late_hit(pieces, stage, i, p);
                }
            }
        }
    }
    lemma_replaced_chunks(chunks, after, from, to);
}

/// A topic pattern is turned into the expression of its pieces: `**` into a group
/// for any run, `*` into one for a segment, `$*` into one for a part of a
/// segment, and every other character into itself, the dot escaped. This holds
/// of every pattern whose text cannot be taken for a marker.
pub proof fn expression_matches_pieces(local: Seq<char>)
    requires
        unambiguous(local),
    ensures
        expression(local) == anchored(pieces_of(local)),
{
    let pieces = pieces_of(local);
    lemma_literals();
    lemma_pieces_source(local);
    lemma_pieces_well_read(local);
    lemma_step(pieces, 0);
    lemma_step(pieces, 1);
    lemma_step(pieces, 2);
    lemma_step(pieces, 3);
    lemma_step(pieces, 4);
    lemma_step(pieces, 5);
    lemma_step(pieces, 6);
    assert(row(pieces, 7) =~= pieces.map_values(|p: Piece| piece_text(p))) by {
        assert forall|i: int| 0 <= i < pieces.len() implies row(pieces, 7)[i] == piece_text(
            pieces[i],
        ) by {}
    }
    assert(row(pieces, 7).flatten() == pieces_text(pieces));
}

/// The characters that markers are made of.
spec fn mark_char(ch: char) -> bool {
    ch == '_' || 'A' <= ch <= 'Z'
}

/// The text of a piece and of those behind it.
proof fn lemma_text_cons(pieces: Seq<Piece>)
    requires
        pieces.len() > 0,
    ensures
        pieces_text(pieces) == piece_text(pieces[0]) + pieces_text(pieces.drop_first()),
{
    let f = |p: Piece| piece_text(p);
    assert(pieces.map_values(f).drop_first() == pieces.drop_first().map_values(f));
    assert(pieces.map_values(f)[0] == piece_text(pieces[0]));
}

/// The text of pieces and of those behind them.
proof fn lemma_text_concat(a: Seq<Piece>, b: Seq<Piece>)
    ensures
        pieces_text(a + b) == pieces_text(a) + pieces_text(b),
    decreases a.len(),
{
    if a.len() == 0 {
        assert(a + b =~= b);
        assert(pieces_text(a) =~= Seq::<char>::empty());
        assert(pieces_text(a) + pieces_text(b) =~= pieces_text(b));
    } else {
        lemma_text_cons(a + b);
        lemma_text_cons(a);
        assert((a + b).drop_first() =~= a.drop_first() + b);
        lemma_text_concat(a.drop_first(), b);
        assert(piece_text(a[0]) + (pieces_text(a.drop_first()) + pieces_text(b)) =~= piece_text(
            a[0],
        ) + pieces_text(a.drop_first()) + pieces_text(b));
    }
}

/// The text of the characters of a marker is the marker.
proof fn lemma_letters_text(text: Seq<char>)
    requires
        forall|i: int| 0 <= i < text.len() ==> #[trigger] text[i] != '.',
    ensures
        pieces_text(letters(text)) == text,
    decreases text.len(),
{
    if text.len() == 0 {
        assert(pieces_text(letters(text)) =~= text);
    } else {
        lemma_text_cons(letters(text));
        assert(letters(text).drop_first() =~= letters(text.drop_first()));
        lemma_letters_text(text.drop_first());
        assert(text =~= seq![text[0]] + text.drop_first());
    }
}

/// A marker that stands first in the text of pieces stands there in characters.
proof fn lemma_marker_is_spelled(pieces: Seq<Piece>, marker: Seq<char>)
    requires
        forall|i: int| 0 <= i < marker.len() ==> mark_char(#[trigger] marker[i]),
        marker.is_prefix_of(pieces_text(pieces)),
    ensures
        letters(marker).is_prefix_of(pieces),
    decreases marker.len(),
{
    if marker.len() > 0 {
        if pieces.len() == 0 {
            assert(pieces_text(pieces).len() == 0);
        }
        lemma_text_cons(pieces);
        let rest = pieces.drop_first();
        let later = marker.drop_first();
        let text = pieces_text(pieces);
        assert(marker[0] == text[0]);
        assert(mark_char(marker[0]));
        assert(text[0] == piece_text(pieces[0])[0]);
        assert(pieces[0] == letter(marker[0]));
        assert(piece_text(pieces[0]).len() == 1);
        assert(later =~= pieces_text(rest).subrange(0, later.len() as int)) by {
            assert forall|k: int| 0 <= k < later.len() implies later[k] == pieces_text(rest)[k] by {
                assert(marker[k + 1] == text[k + 1]);
            }
        }
        lemma_marker_is_spelled(rest, later);
        assert forall|k: int| 0 <= k < marker.len() implies letters(marker)[k] == pieces[k] by {
            if k > 0 {
                assert(letters(later)[k - 1] == rest[k - 1]);
            }
        }
        assert(letters(marker) =~= pieces.subrange(0, marker.len() as int));
    }
}

/// Replacing a marker in the text of pieces replaces it in the pieces.
proof fn lemma_regrouped_text(pieces: Seq<Piece>, marker: Seq<char>, group: Piece)
    requires
        marker.len() > 0,
        forall|i: int| 0 <= i < marker.len() ==> mark_char(#[trigger] marker[i]),
    ensures
        replaced(pieces_text(pieces), marker, piece_text(group)) == pieces_text(
            regrouped(pieces, marker, group),
        ),
    decreases pieces.len(),
{
    let text = pieces_text(pieces);
    if pieces.len() == 0 {
        assert(text.len() == 0);
    } else if letters(marker).is_prefix_of(pieces) {
        let rest = pieces.skip(marker.len() as int);
        assert(pieces =~= letters(marker) + rest);
        lemma_text_concat(letters(marker), rest);
        lemma_letters_text(marker);
        assert(text.subrange(0, marker.len() as int) =~= marker);
        assert(text.skip(marker.len() as int) =~= pieces_text(rest));
        lemma_regrouped_text(rest, marker, group);
        let after = regrouped(rest, marker, group);
        lemma_text_cons(seq![group] + after);
        assert((seq![group] + after).drop_first() =~= after);
    } else {
        let rest = pieces.drop_first();
        let head = piece_text(pieces[0]);
        lemma_text_cons(pieces);
        assert forall|p: int| 0 <= p < head.len() implies !occurs_at(
            head + pieces_text(rest),
            p,
            marker,
        ) by {
            if occurs_at(text, p, marker) {
                assert(text.subrange(p, p + marker.len())[0] == text[p]);
                assert(text[p] == head[p]);
                assert(mark_char(marker[0]));
                if p == 0 {
                    lemma_occurs_is_prefix(text, 0, marker);
                    assert(text.skip(0) =~= text);
                    lemma_marker_is_spelled(pieces, marker);
                }
            }
        }
        lemma_replaced_copies(head, pieces_text(rest), marker, piece_text(group));
        lemma_regrouped_text(rest, marker, group);
        let after = regrouped(rest, marker, group);
        lemma_text_cons(seq![pieces[0]] + after);
        assert((seq![pieces[0]] + after).drop_first() =~= after);
    }
}

/// Writing the markers out in characters gives the text of the fourth step.
proof fn lemma_spelled_text(pieces: Seq<Piece>)
    ensures
        pieces_text(spelled_out(pieces)) == row(pieces, 4).flatten(),
    decreases pieces.len(),
{
    lemma_literals();
    if pieces.len() == 0 {
        assert(pieces_text(spelled_out(pieces)) =~= row(pieces, 4).flatten());
    } else {
        let rest = pieces.drop_first();
        lemma_spelled_text(rest);
        lemma_text_concat(spelled_piece(pieces[0]), spelled_out(rest));
        assert(row(pieces, 4).drop_first() =~= row(rest, 4));
        assert(row(pieces, 4)[0] == staged(pieces[0], 4));
        match pieces[0] {
            Piece::Literal(ch) => {
                let one = letters(seq![ch]);
                lemma_text_cons(one);
                assert(one.drop_first() =~= Seq::<Piece>::empty());
                assert(pieces_text(Seq::<Piece>::empty()) =~= Seq::<char>::empty());
                assert(pieces_text(one) =~= staged(pieces[0], 4));
            },
            Piece::Rest => lemma_letters_text("___DOUBLE___"@),
            Piece::Segment => lemma_letters_text("___SINGLE___"@),
            Piece::Fragment => lemma_letters_text("___FRAG___"@),
        }
    }
}

/// A topic pattern is turned into an expression of characters and the three
/// groups, whatever text it holds.
pub proof fn expression_is_made_of_pieces(local: Seq<char>)
    ensures
        expression(local) == anchored(expression_pieces(local)),
{
    let pieces = pieces_of(local);
    lemma_literals();
    lemma_pieces_source(local);
    lemma_pieces_well_read(local);
    lemma_step(pieces, 0);
    lemma_step(pieces, 1);
    lemma_step(pieces, 2);
    lemma_step(pieces, 3);
    lemma_spelled_text(pieces);
    let marked = spelled_out(pieces);
    let doubles = regrouped(marked, "___DOUBLE___"@, Piece::Rest);
    let singles = regrouped(doubles, "___SINGLE___"@, Piece::Segment);
    lemma_regrouped_text(marked, "___DOUBLE___"@, Piece::Rest);
    lemma_regrouped_text(doubles, "___SINGLE___"@, Piece::Segment);
    lemma_regrouped_text(singles, "___FRAG___"@, Piece::Fragment);
}

/// The pieces of a bare pattern's expression can be written down, and their weight
/// is at most twelve for each character of the pattern.
pub proof fn expression_pieces_of_bare_pattern(local: Seq<char>)
    requires
        bare_pattern(local),
    ensures
        forall|i: int|
            0 <= i < expression_pieces(local).len() ==> writable(
                #[trigger] expression_pieces(local)[i],
            ),
        weight(expression_pieces(local)) <= 12 * local.len(),
{
    lemma_literals();
    let pieces = pieces_of(local);
    lemma_pieces_len(local);
    lemma_spelled_weight(pieces);
    let marked = spelled_out(pieces);
    let doubles = regrouped(marked, "___DOUBLE___"@, Piece::Rest);
    let singles = regrouped(doubles, "___SINGLE___"@, Piece::Segment);
    lemma_regrouped_weight(marked, "___DOUBLE___"@, Piece::Rest);
    lemma_regrouped_weight(doubles, "___SINGLE___"@, Piece::Segment);
    lemma_regrouped_weight(singles, "___FRAG___"@, Piece::Fragment);
}

proof fn lemma_weight_cons(pieces: Seq<Piece>)
    requires
        pieces.len() > 0,
    ensures
        weight(pieces) == piece_weight(pieces[0]) + weight(pieces.drop_first()),
{
}

proof fn lemma_weight_concat(a: Seq<Piece>, b: Seq<Piece>)
    ensures
        weight(a + b) == weight(a) + weight(b),
    decreases a.len(),
{
    if a.len() == 0 {
        assert(a + b =~= b);
    } else {
        assert((a + b).drop_first() =~= a.drop_first() + b);
        lemma_weight_concat(a.drop_first(), b);
    }
}

proof fn lemma_letters_weight(text: Seq<char>)
    ensures
        weight(letters(text)) == text.len(),
    decreases text.len(),
{
    if text.len() > 0 {
        assert(letters(text).drop_first() =~= letters(text.drop_first()));
        lemma_letters_weight(text.drop_first());
    }
}

proof fn lemma_spelled_weight(pieces: Seq<Piece>)
    requires
        forall|i: int| 0 <= i < pieces.len() ==> writable(#[trigger] pieces[i]),
    ensures
        weight(spelled_out(pieces)) <= 12 * pieces.len(),
        forall|i: int|
            0 <= i < spelled_out(pieces).len() ==> writable(#[trigger] spelled_out(pieces)[i]),
    decreases pieces.len(),
{
    lemma_literals();
    if pieces.len() > 0 {
        let rest = pieces.drop_first();
        assert forall|i: int| 0 <= i < rest.len() implies writable(#[trigger] rest[i]) by {
            assert(rest[i] == pieces[i + 1]);
        }
        lemma_spelled_weight(rest);
        let head = spelled_piece(pieces[0]);
        lemma_weight_concat(head, spelled_out(rest));
        let text = match pieces[0] {
            Piece::Literal(ch) => seq![ch],
            Piece::Rest => "___DOUBLE___"@,
            Piece::Segment => "___SINGLE___"@,
            Piece::Fragment => "___FRAG___"@,
        };
        assert(head == letters(text));
        lemma_letters_weight(text);
        assert(writable(pieces[0]));
        assert forall|i: int| 0 <= i < spelled_out(pieces).len() implies writable(
            #[trigger] spelled_out(pieces)[i],
        ) by {
            if i < head.len() {
                assert(spelled_out(pieces)[i] == letter(text[i]));
                assert(mark_char(text[i]) || pieces[0] == letter(text[i]));
            } else {
                assert(spelled_out(pieces)[i] == spelled_out(rest)[i - head.len()]);
            }
        }
    }
}

proof fn lemma_regrouped_weight(pieces: Seq<Piece>, marker: Seq<char>, group: Piece)
    requires
        marker.len() >= 10,
        !(group is Literal),
        forall|i: int| 0 <= i < pieces.len() ==> writable(#[trigger] pieces[i]),
    ensures
        weight(regrouped(pieces, marker, group)) <= weight(pieces),
        forall|i: int|
            0 <= i < regrouped(pieces, marker, group).len() ==> writable(
                #[trigger] regrouped(pieces, marker, group)[i],
            ),
    decreases pieces.len(),
{
    if pieces.len() > 0 {
        let taken = letters(marker).is_prefix_of(pieces);
        let n = if taken {
            marker.len() as int
        } else {
            1
        };
        let first = if taken {
            group
        } else {
            pieces[0]
        };
        let rest = pieces.skip(n);
        assert(pieces.drop_first() =~= pieces.skip(1));
        assert forall|i: int| 0 <= i < rest.len() implies writable(#[trigger] rest[i]) by {
            assert(rest[i] == pieces[i + n]);
        }
        lemma_regrouped_weight(rest, marker, group);
        assert(pieces =~= pieces.take(n) + rest);
        lemma_weight_concat(pieces.take(n), rest);
        if taken {
            assert(pieces.take(n) =~= letters(marker));
            lemma_letters_weight(marker);
        } else {
            lemma_weight_cons(pieces.take(n));
            assert(weight(pieces.take(n).drop_first()) == 0);
        }
        let after = regrouped(rest, marker, group);
        lemma_weight_cons(seq![first] + after);
        assert((seq![first] + after).drop_first() =~= after);
        assert(regrouped(pieces, marker, group) == seq![first] + after);
        assert(writable(pieces[0]));
        assert forall|i: int| 0 <= i < (seq![first] + after).len() implies writable(
            #[trigger] (seq![first] + after)[i],
        ) by {
            if i > 0 {
                assert((seq![first] + after)[i] == after[i - 1]);
            }
        }
    }
}

/// A pattern has no more pieces than characters.
pub proof fn lemma_pieces_len(local: Seq<char>)
    ensures
        pieces_of(local).len() <= local.len(),
    decreases local.len(),
{
    if local.len() > 0 {
        lemma_pieces_len(local.skip(width(first_piece(local))));
    }
}

/// A pattern without the letters at which the marker names start cannot be taken
/// for a marker.
pub proof fn unambiguous_without_marker_letters(local: Seq<char>)
    requires
        !local.contains('D'),
        !local.contains('S'),
        !local.contains('F'),
    ensures
        unambiguous(local),
{
    lemma_literals();
    let pieces = pieces_of(local);
    lemma_pieces_hold(local);
    lemma_marks_only(pieces, 4);
    lemma_marks_only(pieces, 5);
    lemma_marks_only(pieces, 6);
}

/// The literal pieces of a pattern are characters of it.
pub proof fn lemma_pieces_hold(local: Seq<char>)
    ensures
        forall|i: int|
            0 <= i < pieces_of(local).len() ==> (#[trigger] pieces_of(
                local,
            )[i] matches Piece::Literal(ch) ==> local.contains(ch)),
    decreases local.len(),
{
    if local.len() > 0 {
        let n = width(first_piece(local));
        let later = local.skip(n);
        let pieces = pieces_of(local);
        let rest = pieces_of(later);
        lemma_pieces_hold(later);
        assert(pieces == seq![pieces[0]] + rest);
        assert forall|i: int| 0 <= i < pieces.len() implies (
        #[trigger] pieces[i] matches Piece::Literal(ch) ==> local.contains(ch)) by {
            if i > 0 {
                assert(pieces[i] == rest[i - 1]);
                if let Piece::Literal(ch) = rest[i - 1] {
                    assert(later.contains(ch));
                    let k = choose|k: int| 0 <= k < later.len() && later[k] == ch;
                    assert(local[n + k] == ch);
                }
            } else {
                assert(local.contains(local[0]));
            }
        }
    }
}

proof fn lemma_marks_only(pieces: Seq<Piece>, stage: int)
    requires
        4 <= stage < 7,
        forall|i: int|
            0 <= i < pieces.len() ==> (#[trigger] pieces[i] matches Piece::Literal(ch) ==> ch != 'D'
                && ch != 'S' && ch != 'F'),
    ensures
        marks_only(row(pieces, stage), step_from(stage)),
{
    lemma_literals();
    let marks = row(pieces, stage);
    let marker = step_from(stage);
    assert forall|i: int, p: int|
        0 <= i < marks.len() && 0 <= p < marks[i].len() && #[trigger] occurs_at(
            marks.skip(i).flatten(),
            p,
            marker,
        ) implies marks[i] == marker by {
        let later = marks.skip(i);
        let text = later.flatten();
        assert(text.subrange(p, p + marker.len())[3] == text[p + 3]);
        let (j, off) = lemma_locate(later, p + 3);
        let piece = pieces[i + j];
        assert(later[j] == staged(piece, stage));
        assert(pieces[i + j] == piece);
        assert(later[j][off] == marker[3]);
        assert(later[j] == marker && off == 3);
        if j > 0 {
            let head = later.take(j);
            assert(head.drop_first() == later.take(j).skip(1));
            assert(head[0] == marks[i]);
            assert(head.flatten() == head[0] + head.drop_first().flatten());
            assert(head.flatten().len() >= marks[i].len());
        }
    }
}

} // verus!
