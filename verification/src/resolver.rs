//! From a topic to the address that it is forwarded to.

use vstd::prelude::*;
use vstd::utf8::encode_utf8;

use crate::pattern::{
    first_captures, greedy_match, group_texts, matches_anywhere, misaligned, outcome_texts,
    regex_captures, regex_compiles, Piece,
};
use crate::text::{chars_of, contains, contains_text, string_of};
use crate::wildcard::{
    bare_pattern, expression, expression_is_made_of_pieces, expression_matches_pieces,
    expression_of, expression_pieces, expression_pieces_of_bare_pattern, pieces_of, plain_pattern,
};

verus! {

/// Why a topic has no address.
#[derive(Debug, Clone, Copy, PartialEq, Eq, Structural)]
pub enum ResolverError {
    /// The topic does not match the pattern.
    NoMatch,
    /// The pattern is malformed.
    InvalidPattern,
    /// The topic is not in canonical form.
    NonCanonicalPath,
}

/// Whether a path is in canonical form: no empty segment inside it, and no
/// double wildcard that is only a part of a segment.
pub open spec fn canonical(path: Seq<char>) -> bool {
    path.len() == 0 || (!contains_text(path, "//"@) && !misaligned(path))
}

/// Whether a path is a well-formed topic pattern: canonical, and without a slash
/// at its end.
pub open spec fn valid_pattern(path: Seq<char>) -> bool {
    path.len() == 0 || (path.last() != '/' && !contains_text(path, "//"@) && !misaligned(path))
}

/// Whether a wildcard starts at index `at`.
pub open spec fn wildcard_at(s: Seq<char>, at: int) -> bool {
    &&& 0 <= at < s.len()
    &&& s[at] == '*' || (s[at] == '$' && at + 1 < s.len() && s[at + 1] == '*')
}

/// Whether the first wildcard starts at index `at`.
pub open spec fn first_wildcard_at(s: Seq<char>, at: int) -> bool {
    &&& wildcard_at(s, at)
    &&& forall|i: int| 0 <= i < at ==> !wildcard_at(s, i)
}

/// Where the first wildcard starts.
pub open spec fn next_wildcard(s: Seq<char>) -> Option<int> {
    if exists|at: int| first_wildcard_at(s, at) {
        Some(choose|at: int| first_wildcard_at(s, at))
    } else {
        None
    }
}

/// The length of the wildcard that starts at index `at`.
pub open spec fn wildcard_len(s: Seq<char>, at: int) -> int {
    if at + 1 < s.len() && s[at + 1] == '*' {
        2
    } else {
        1
    }
}

/// `s` with its first wildcard replaced by `value`.
pub open spec fn fill_one(s: Seq<char>, value: Seq<char>) -> Seq<char> {
    match next_wildcard(s) {
        Some(at) => s.take(at) + value + s.skip(at + wildcard_len(s, at)),
        None => s,
    }
}

/// `s` with one wildcard after the other replaced by the values, in order. Each
/// search starts again from the left.
pub open spec fn filled(s: Seq<char>, values: Seq<Seq<char>>) -> Seq<char>
    decreases values.len(),
{
    if values.len() == 0 {
        s
    } else {
        filled(fill_one(s, values[0]), values.drop_first())
    }
}

/// The texts of the groups after the whole match.
pub open spec fn values_of(groups: Seq<Option<Seq<char>>>) -> Seq<Seq<char>> {
    if groups.len() == 0 {
        Seq::empty()
    } else {
        groups.skip(1).map_values(|g: Option<Seq<char>>| g->0)
    }
}

/// Whether every group after the whole match took part in it.
pub open spec fn all_took_part(groups: Seq<Option<Seq<char>>>) -> bool {
    forall|i: int| 1 <= i < groups.len() ==> #[trigger] groups[i] is Some
}

/// The address for what matching a topic found.
pub open spec fn conclusion(
    remote: Seq<char>,
    outcome: Option<Seq<Option<Seq<char>>>>,
) -> Result<Seq<char>, ResolverError> {
    match outcome {
        Some(groups) => Ok(filled(remote, values_of(groups))),
        None => Err(ResolverError::NoMatch),
    }
}

/// The address of a topic under a pattern.
pub open spec fn resolution(local: Seq<char>, remote: Seq<char>, topic: Seq<char>) -> Result<
    Seq<char>,
    ResolverError,
> {
    if !canonical(topic) {
        Err(ResolverError::NonCanonicalPath)
    } else if !valid_pattern(local) || !regex_compiles(expression(local)) {
        Err(ResolverError::InvalidPattern)
    } else {
        conclusion(remote, regex_captures(expression(local), topic))
    }
}

/// Whether no group of the pattern is left out when the topic matches. Only a
/// pattern with groups of its own can leave one out.
pub open spec fn groups_take_part(local: Seq<char>, topic: Seq<char>) -> bool {
    canonical(topic) && valid_pattern(local) && regex_compiles(expression(local)) ==> (
    regex_captures(expression(local), topic) matches Some(groups) ==> all_took_part(groups))
}

/// What is settled of a pattern made of wildcards and plain characters: up to a
/// thousand characters it is taken, and the address comes from the greediest
/// split of the topic among the pieces of its expression. These are the pieces of
/// the pattern itself where nothing in it can be taken for a marker.
pub open spec fn settled(
    local: Seq<char>,
    remote: Seq<char>,
    topic: Seq<char>,
    result: Result<Seq<char>, ResolverError>,
) -> bool {
    bare_pattern(local) && canonical(topic) && valid_pattern(local) ==> {
        &&& local.len() <= 1000 ==> regex_compiles(expression(local))
        &&& regex_compiles(expression(local)) ==> split_decides(
            expression_pieces(local),
            remote,
            topic,
            result,
        )
        &&& regex_compiles(expression(local)) && plain_pattern(local) ==> split_decides(
            pieces_of(local),
            remote,
            topic,
            result,
        )
    }
}

/// Whether a result comes from the greediest split of the topic among the pieces.
pub open spec fn split_decides(
    pieces: Seq<Piece>,
    remote: Seq<char>,
    topic: Seq<char>,
    result: Result<Seq<char>, ResolverError>,
) -> bool {
    exists|outcome: Option<Seq<Option<Seq<char>>>>| #[trigger]
        greedy_match(pieces, topic, outcome) && result == conclusion(remote, outcome)
}

/// A result, its address as a text.
pub open spec fn result_text(r: Result<String, ResolverError>) -> Result<Seq<char>, ResolverError> {
    match r {
        Ok(s) => Ok(s@),
        Err(e) => Err(e),
    }
}

/// Whether a double wildcard stands behind a character other than a slash.
fn is_misaligned(path: &str) -> (r: bool)
    ensures
        r == misaligned(path@),
{
    match matches_anywhere("[^/]\\*\\*", path) {
        Ok(found) => found,
        Err(_) => true,
    }
}

/// Whether a path is in canonical form.
pub fn is_canonical(path: &str) -> (r: bool)
    ensures
        r == canonical(path@),
{
    if path.is_empty() {
        return true;
    }
    if contains(path, "//") {
        return false;
    }
    // It captures "misaligned" wildcards like 'events**' or 'a**'
    !is_misaligned(path)
}

/// Whether a path is a well-formed topic pattern.
pub fn is_valid_zenoh(path: &str) -> (r: bool)
    ensures
        r == valid_pattern(path@),
{
    if path.is_empty() {
        return true;
    }
    let len: usize = path.unicode_len();
    if path.get_char(len - 1) == '/' || contains(path, "//") {
        return false;
    }
    !is_misaligned(path)
}

/// The first wildcard of a text, and the index of the character at which it
/// starts.
fn wildcard_index(s: &str) -> (r: Option<(&'static str, usize)>)
    ensures
        match r {
            Some((wildcard, at)) => {
                &&& next_wildcard(s@) == Some(at as int)
                &&& at + wildcard@.len() <= s@.len()
                &&& wildcard@.len() == wildcard_len(s@, at as int)
                &&& wildcard@ == s@.subrange(at as int, at + wildcard@.len())
            },
            None => next_wildcard(s@) is None,
        },
{
    proof {
        reveal_strlit("**");
        reveal_strlit("$*");
        reveal_strlit("*");
    }
    let v = chars_of(s);
    let mut i: usize = 0;
    while i < v.len()
        invariant
            v@ == s@,
            i <= v.len(),
            forall|k: int| 0 <= k < i ==> !wildcard_at(s@, k),
        decreases v.len() - i,
    {
        let star_next = i + 1 < v.len() && v[i + 1] == '*';
        if v[i] == '*' || (v[i] == '$' && star_next) {
            let wildcard = if v[i] == '$' {
                "$*"
            } else if star_next {
                "**"
            } else {
                "*"
            };
            proof {
                assert(first_wildcard_at(s@, i as int));
                lemma_next_wildcard(s@, i as int);
                reveal_strlit("**");
                reveal_strlit("$*");
                reveal_strlit("*");
                assert(wildcard@ =~= s@.subrange(i as int, i + wildcard@.len()));
            }
            return Some((wildcard, i));
        }
        i += 1;
    }
    proof {
        assert forall|at: int| !first_wildcard_at(s@, at) by {
            if wildcard_at(s@, at) {
                assert(0 <= at < i);
            }
        }
    }
    None
}

/// Only one index is the first.
pub proof fn lemma_next_wildcard(s: Seq<char>, at: int)
    requires
        first_wildcard_at(s, at),
    ensures
        next_wildcard(s) == Some(at),
{
    let other = choose|k: int| first_wildcard_at(s, k);
    assert(first_wildcard_at(s, other));
    if other < at {
        assert(!wildcard_at(s, other));
    } else if at < other {
        assert(!wildcard_at(s, at));
    }
}

/// The first wildcard of a text, and the offset in bytes at which it starts.
pub fn find_next_wildcard(s: &str) -> (r: Option<(&'static str, usize)>)
    ensures
        match r {
            Some((wildcard, offset)) => {
                &&& next_wildcard(s@) matches Some(at)
                &&& wildcard@ == s@.subrange(at, at + wildcard_len(s@, at))
                &&& offset == encode_utf8(s@.take(at)).len()
            },
            None => next_wildcard(s@) is None,
        },
{
    match wildcard_index(s) {
        Some((wildcard, at)) => {
            let before = s.substring_char(0, at);
            assert(before@ == s@.take(at as int));
            Some((wildcard, before.as_bytes().len()))
        },
        None => None,
    }
}

/// `remote` with one wildcard after the other replaced by the values, in order.
pub fn fill_wildcards(remote: &str, values: &Vec<String>) -> (r: String)
    ensures
        r@ == filled(remote@, values@.map_values(|s: String| s@)),
{
    let mut result = remote.to_string();
    let ghost texts = values@.map_values(|s: String| s@);
    let mut i: usize = 0;
    assert(texts.skip(0) == texts);
    while i < values.len()
        invariant
            i <= values.len(),
            texts == values@.map_values(|s: String| s@),
            filled(result@, texts.skip(i as int)) == filled(remote@, texts),
        decreases values.len() - i,
    {
        let ghost before = result@;
        if let Some((wildcard, at)) = wildcard_index(&result) {
            let v = chars_of(&result);
            let end: usize = at + wildcard.unicode_len();
            let mut next = string_of(&v, 0, at);
            next.append(&values[i]);
            next.append(&string_of(&v, end, v.len()));
            proof {
                assert(next@ =~= fill_one(before, texts[i as int]));
            }
            result = next;
        }
        proof {
            assert(texts.skip(i as int)[0] == texts[i as int]);
            assert(texts.skip(i as int).drop_first() == texts.skip(i + 1));
        }
        i += 1;
    }
    assert(texts.skip(i as int).len() == 0);
    result
}

/// The address for what matching a topic found: the remote pattern with its
/// wildcards filled by the groups.
pub fn map_captures(remote: &str, found: &Option<Vec<Option<String>>>) -> (r: Result<
    String,
    ResolverError,
>)
    requires
        outcome_texts(*found) matches Some(groups) ==> all_took_part(groups),
    ensures
        result_text(r) == conclusion(remote@, outcome_texts(*found)),
{
    match found {
        Some(groups) => {
            let ghost texts = outcome_texts(*found)->0;
            let mut values: Vec<String> = Vec::new();
            let mut i: usize = 1;
            while i < groups.len()
                invariant
                    1 <= i,
                    groups.len() >= 1 ==> i <= groups.len(),
                    groups.len() == 0 ==> i == 1,
                    texts == outcome_texts(*found)->0,
                    *found == Some(*groups),
                    all_took_part(texts),
                    texts.len() == groups.len(),
                    values.len() == i - 1,
                    forall|k: int| 0 <= k < values.len() ==> #[trigger] values@[k]@ == texts[k + 1]->0,
                decreases groups.len() - i,
            {
                assert(texts[i as int] is Some);
                match &groups[i] {
                    Some(value) => {
                        values.push(value.clone());
                    },
                    None => {
                        assert(false);
                    },
                }
                i += 1;
            }
            proof {
                assert(values@.map_values(|s: String| s@) =~= values_of(texts));
            }
            Ok(fill_wildcards(remote, &values))
        },
        None => Err(ResolverError::NoMatch),
    }
}

/// The address of a topic: `topic` is matched against `local_pattern`, and what
/// the wildcards stand for is put into the wildcards of `remote_pattern`.
///
/// A pattern with groups of its own can leave one of them out of a match; such a
/// pattern and topic are refused by the precondition, which
/// [`try_resolve_zenoh_url`] tests.
pub fn resolve_zenoh_url(local_pattern: &str, remote_pattern: &str, topic: &str) -> (r: Result<
    String,
    ResolverError,
>)
    requires
        bare_pattern(local_pattern@) || groups_take_part(local_pattern@, topic@),
    ensures
        result_text(r) == resolution(local_pattern@, remote_pattern@, topic@),
        settled(local_pattern@, remote_pattern@, topic@, result_text(r)),
        groups_take_part(local_pattern@, topic@),
{
    if !is_canonical(topic) {
        return Err(ResolverError::NonCanonicalPath);
    }
    if !is_valid_zenoh(local_pattern) {
        return Err(ResolverError::InvalidPattern);
    }
    let expression = expression_of(local_pattern);
    proof {
        expression_is_made_of_pieces(local_pattern@);
        if bare_pattern(local_pattern@) {
            expression_pieces_of_bare_pattern(local_pattern@);
        }
        if plain_pattern(local_pattern@) {
            expression_matches_pieces(local_pattern@);
        }
    }
    match first_captures(&expression, topic) {
        Ok(found) => {
            let ghost outcome = outcome_texts(found);
            assert(bare_pattern(local_pattern@) ==> greedy_match(
                expression_pieces(local_pattern@),
                topic@,
                outcome,
            ));
            assert(plain_pattern(local_pattern@) ==> greedy_match(
                pieces_of(local_pattern@),
                topic@,
                outcome,
            ));
            assert(bare_pattern(local_pattern@) ==> (outcome matches Some(groups)
                ==> all_took_part(groups)));
            map_captures(remote_pattern, &found)
        },
        Err(_) => Err(ResolverError::InvalidPattern),
    }
}

/// Whether every group after the whole match took part in it.
fn groups_present(groups: &Vec<Option<String>>) -> (r: bool)
    ensures
        r == all_took_part(group_texts(groups@)),
{
    let ghost texts = group_texts(groups@);
    let mut i: usize = 1;
    while i < groups.len()
        invariant
            1 <= i,
            texts == group_texts(groups@),
            forall|k: int| 1 <= k < i ==> #[trigger] texts[k] is Some,
        decreases groups.len() - i,
    {
        if groups[i].is_none() {
            assert(texts[i as int] is None);
            return false;
        }
        assert(texts[i as int] is Some);
        i += 1;
    }
    true
}

/// The address of a topic, or `None` where a group of the pattern is left out of
/// the match.
pub fn try_resolve_zenoh_url(local_pattern: &str, remote_pattern: &str, topic: &str) -> (r: Option<
    Result<String, ResolverError>,
>)
    ensures
        r is Some <==> groups_take_part(local_pattern@, topic@),
        r matches Some(result) ==> {
            &&& result_text(result) == resolution(local_pattern@, remote_pattern@, topic@)
            &&& settled(local_pattern@, remote_pattern@, topic@, result_text(result))
        },
{
    if is_canonical(topic) && is_valid_zenoh(local_pattern) {
        let expression = expression_of(local_pattern);
        if let Ok(Some(groups)) = first_captures(&expression, topic) {
            if !groups_present(&groups) {
                return None;
            }
        }
    }
    Some(resolve_zenoh_url(local_pattern, remote_pattern, topic))
}

} // verus!
