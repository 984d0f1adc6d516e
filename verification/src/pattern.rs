//! Regular expressions: the calls into the `regex` crate, and what they mean for
//! the shapes of expression that this library builds.

use regex::Regex;
use vstd::prelude::*;

use crate::text::occurs_at;

verus! {

/// One piece of an expression: a character that stands for itself, or one of
/// the three groups.
pub enum Piece {
    /// A character that stands for itself.
    Literal(char),
    /// `(.*)`: any run of characters on one line.
    Rest,
    /// `([^/]+)`: a run of characters without a slash, at least one.
    Segment,
    /// `([^/]*)`: a run of characters without a slash.
    Fragment,
}

/// Whether a character means itself in an expression.
pub open spec fn verbatim(ch: char) -> bool {
    &&& ch != '\\' && ch != '.' && ch != '+' && ch != '*' && ch != '?'
    &&& ch != '(' && ch != ')' && ch != '|' && ch != '^' && ch != '$'
    &&& ch != '[' && ch != ']' && ch != '{' && ch != '}'
}

/// Whether a piece can be written down: a literal is a dot, which is escaped, or
/// a character that means itself.
pub open spec fn writable(piece: Piece) -> bool {
    match piece {
        Piece::Literal(ch) => ch == '.' || verbatim(ch),
        _ => true,
    }
}

/// The text of one piece.
pub open spec fn piece_text(piece: Piece) -> Seq<char> {
    match piece {
        Piece::Literal(ch) => if ch == '.' {
            seq!['\\', '.']
        } else {
            seq![ch]
        },
        Piece::Rest => seq!['(', '.', '*', ')'],
        Piece::Segment => seq!['(', '[', '^', '/', ']', '+', ')'],
        Piece::Fragment => seq!['(', '[', '^', '/', ']', '*', ')'],
    }
}

/// The texts of the pieces, one after the other.
pub open spec fn pieces_text(pieces: Seq<Piece>) -> Seq<char> {
    pieces.map_values(|p: Piece| piece_text(p)).flatten()
}

/// The expression that matches the pieces against a whole text.
pub open spec fn anchored(pieces: Seq<Piece>) -> Seq<char> {
    seq!['^'] + pieces_text(pieces) + seq!['$']
}

/// How much of an expression a piece takes up: a group counts for ten characters.
pub open spec fn piece_weight(piece: Piece) -> nat {
    if piece is Literal {
        1
    } else {
        10
    }
}

/// How much of an expression some pieces take up.
pub open spec fn weight(pieces: Seq<Piece>) -> nat
    decreases pieces.len(),
{
    if pieces.len() == 0 {
        0
    } else {
        piece_weight(pieces[0]) + weight(pieces.drop_first())
    }
}

/// Whether `part` is a text that the piece can stand for.
pub open spec fn fits(piece: Piece, part: Seq<char>) -> bool {
    match piece {
        Piece::Literal(ch) => part == seq![ch],
        Piece::Rest => !part.contains('\n'),
        Piece::Segment => part.len() > 0 && !part.contains('/'),
        Piece::Fragment => !part.contains('/'),
    }
}

/// Whether `parts`, one for each piece, make up the text.
pub open spec fn splits(pieces: Seq<Piece>, parts: Seq<Seq<char>>, text: Seq<char>) -> bool {
    &&& parts.len() == pieces.len()
    &&& forall|i: int| 0 <= i < pieces.len() ==> fits(pieces[i], #[trigger] parts[i])
    &&& parts.flatten() == text
}

/// Whether `parts` is at least as greedy as `other`: where the two first differ,
/// `parts` has the longer one.
pub open spec fn greedier(parts: Seq<Seq<char>>, other: Seq<Seq<char>>) -> bool {
    ||| other == parts
    ||| exists|i: int|
        {
            &&& 0 <= i < parts.len()
            &&& i < other.len()
            &&& other.take(i) == parts.take(i)
            &&& #[trigger] other[i].len() < parts[i].len()
        }
}

/// The parts that stand for groups, in order.
pub open spec fn captured(pieces: Seq<Piece>, parts: Seq<Seq<char>>) -> Seq<Seq<char>>
    decreases pieces.len(),
{
    if pieces.len() == 0 || parts.len() == 0 {
        Seq::empty()
    } else if pieces[0] is Literal {
        captured(pieces.drop_first(), parts.drop_first())
    } else {
        seq![parts[0]] + captured(pieces.drop_first(), parts.drop_first())
    }
}

/// The groups of a match of the whole text: the text, then each captured part.
pub open spec fn full_groups(text: Seq<char>, parts: Seq<Seq<char>>) -> Seq<Option<Seq<char>>> {
    seq![Some(text)] + parts.map_values(|p: Seq<char>| Some(p))
}

/// What matching the pieces against a whole text comes to: no match where no
/// split exists, else the groups of the greediest split.
pub open spec fn greedy_match(
    pieces: Seq<Piece>,
    text: Seq<char>,
    outcome: Option<Seq<Option<Seq<char>>>>,
) -> bool {
    match outcome {
        None => forall|parts: Seq<Seq<char>>| !splits(pieces, parts, text),
        Some(groups) => exists|parts: Seq<Seq<char>>|
            {
                &&& #[trigger] splits(pieces, parts, text)
                &&& forall|other: Seq<Seq<char>>|
                    splits(pieces, other, text) ==> #[trigger] greedier(parts, other)
                &&& groups == full_groups(text, captured(pieces, parts))
            },
    }
}

/// Whether a double wildcard stands behind a character other than a slash.
pub open spec fn misaligned(path: Seq<char>) -> bool {
    exists|i: int|
        0 <= i && i + 2 < path.len() && #[trigger] path[i] != '/' && path[i + 1] == '*' && path[i
            + 2] == '*'
}

/// The characters of the host label of a tunnel.
pub open spec fn label_char(ch: char) -> bool {
    ||| 'a' <= ch <= 'z'
    ||| 'A' <= ch <= 'Z'
    ||| '0' <= ch <= '9'
    ||| ch == '-'
}

/// Whether `line[from..to]` is the address of a tunnel: the scheme, a label that
/// is not empty, and the domain.
pub open spec fn tunnel_address(line: Seq<char>, from: int, to: int) -> bool {
    let label = from + "https://"@.len();
    let domain = to - ".trycloudflare.com"@.len();
    &&& label < domain
    &&& occurs_at(line, from, "https://"@)
    &&& occurs_at(line, domain, ".trycloudflare.com"@)
    &&& forall|i: int| label <= i < domain ==> label_char(#[trigger] line[i])
}

/// Whether `outcome` gives the first tunnel address of the line.
pub open spec fn first_address(line: Seq<char>, outcome: Option<Seq<Option<Seq<char>>>>) -> bool {
    match outcome {
        None => forall|from: int, to: int| !tunnel_address(line, from, to),
        Some(groups) => exists|from: int, to: int|
            {
                &&& #[trigger] tunnel_address(line, from, to)
                &&& forall|f: int, t: int|
                    #[trigger] tunnel_address(line, f, t) ==> from <= f
                &&& groups == seq![Some(line.subrange(from, to))]
            },
    }
}

/// The texts of the groups of a match.
pub open spec fn group_texts(groups: Seq<Option<String>>) -> Seq<Option<Seq<char>>> {
    groups.map_values(
        |g: Option<String>|
            match g {
                Some(s) => Some(s@),
                None => None,
            },
    )
}

/// The outcome of a search, in texts.
pub open spec fn outcome_texts(found: Option<Vec<Option<String>>>) -> Option<
    Seq<Option<Seq<char>>>,
> {
    match found {
        Some(groups) => Some(group_texts(groups@)),
        None => None,
    }
}

/// The error of the `regex` crate.
#[verifier::external_type_specification]
#[verifier::external_body]
pub struct ExRegexError(regex::Error);

/// Whether `Regex::new` takes an expression.
pub uninterp spec fn regex_compiles(expression: Seq<char>) -> bool;

/// What `Regex::captures` finds for an expression and a text: the groups of the
/// first match, the whole match first; a group that took no part is `None`.
pub uninterp spec fn regex_captures(expression: Seq<char>, text: Seq<char>) -> Option<
    Seq<Option<Seq<char>>>,
>;

/// `Regex::new` and `Regex::is_match`, for the one expression `[^/]\*\*`: it is
/// taken, and matches where two asterisks stand behind a character other than a
/// slash.
#[verifier::external_body]
pub(crate) fn matches_anywhere(expression: &str, text: &str) -> (r: Result<bool, regex::Error>)
    requires
        expression@ == "[^/]\\*\\*"@,
    ensures
        r is Ok && r->Ok_0 == misaligned(text@),
{
    Ok(Regex::new(expression)?.is_match(text))
}

/// `Regex::new` and `Regex::captures`: the groups of the first match.
///
/// An expression made of literals and the three groups between `^` and `$`
/// matches a text that can be split among its pieces, and its groups hold the
/// parts of the greediest split, as the crate documents of `*` and `+`. Twelve
/// thousand characters, where a group counts for ten, stay far below the ten
/// megabytes at which the crate refuses an expression: a character takes up to
/// four states of the automaton, and a group some thirty. The expression for
/// tunnel addresses is taken and finds the first of them.
#[verifier::external_body]
pub(crate) fn first_captures(expression: &str, text: &str) -> (r: Result<
    Option<Vec<Option<String>>>,
    regex::Error,
>)
    ensures
        r is Ok <==> regex_compiles(expression@),
        r matches Ok(found) ==> outcome_texts(found) == regex_captures(expression@, text@),
        forall|pieces: Seq<Piece>|
            (expression@ == #[trigger] anchored(pieces) && (forall|i: int|
                0 <= i < pieces.len() ==> writable(#[trigger] pieces[i]))) ==> {
                &&& weight(pieces) <= 12_000 ==> r is Ok
                &&& r matches Ok(found) ==> greedy_match(pieces, text@, outcome_texts(found))
            },
        expression@ == "https://[a-zA-Z0-9-]+\\.trycloudflare\\.com"@ ==> r is Ok
            && first_address(text@, outcome_texts(r->Ok_0)),
{
    Ok(
        Regex::new(expression)?.captures(text).map(
            |groups|
                groups.iter().map(|group| group.map(|m| m.as_str().to_string())).collect(),
        ),
    )
}

} // verus!
