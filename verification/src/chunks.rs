//! Facts about texts that are cut into chunks.

use vstd::prelude::*;

use crate::text::{occurs_at, replaced};

verus! {

/// A chunk put before the others stands before their text.
pub proof fn lemma_flatten_cons(chunk: Seq<char>, rest: Seq<Seq<char>>)
    ensures
        (seq![chunk] + rest).flatten() == chunk + rest.flatten(),
{
    let all = seq![chunk] + rest;
    assert(all.drop_first() == rest);
    assert(all[0] == chunk);
}

/// `text.subrange(at, ..)` starts with `needle` where `needle` occurs at `at`.
pub proof fn lemma_occurs_is_prefix(hay: Seq<char>, at: int, needle: Seq<char>)
    requires
        0 <= at <= hay.len(),
    ensures
        occurs_at(hay, at, needle) <==> needle.is_prefix_of(hay.skip(at)),
{
    if at + needle.len() <= hay.len() {
        assert(hay.skip(at).subrange(0, needle.len() as int) == hay.subrange(
            at,
            at + needle.len(),
        ));
    }
}

/// Replacing copies a stretch in which no occurrence starts.
pub proof fn lemma_replaced_copies(head: Seq<char>, tail: Seq<char>, from: Seq<char>, to: Seq<char>)
    requires
        from.len() > 0,
        forall|p: int| 0 <= p < head.len() ==> !occurs_at(head + tail, p, from),
    ensures
        replaced(head + tail, from, to) == head + replaced(tail, from, to),
    decreases head.len(),
{
    let hay = head + tail;
    if head.len() == 0 {
        assert(hay == tail);
        assert(head + replaced(tail, from, to) == replaced(tail, from, to));
    } else if hay.len() < from.len() {
        assert(replaced(tail, from, to) == tail);
    } else {
        let shorter = head.skip(1);
        assert(hay.skip(1) == shorter + tail);
        assert(!occurs_at(hay, 0, from));
        assert forall|p: int| 0 <= p < shorter.len() implies !occurs_at(
            shorter + tail,
            p,
            from,
        ) by {
            assert(!occurs_at(hay, p + 1, from));
            if p + from.len() <= (shorter + tail).len() {
                assert((shorter + tail).subrange(p, p + from.len()) == hay.subrange(
                    p + 1,
                    p + 1 + from.len(),
                ));
            }
        }
        lemma_replaced_copies(shorter, tail, from, to);
        assert(hay[0] == head[0]);
        assert(seq![head[0]] + (shorter + replaced(tail, from, to)) == head + replaced(
            tail,
            from,
            to,
        ));
    }
}

/// Replacing goes chunk by chunk where each marked chunk is an occurrence and no
/// other occurrence starts in a chunk that is not marked.
pub proof fn lemma_replaced_chunks(
    chunks: Seq<Seq<char>>,
    after: Seq<Seq<char>>,
    from: Seq<char>,
    to: Seq<char>,
)
    requires
        from.len() > 0,
        after.len() == chunks.len(),
        forall|i: int|
            0 <= i < chunks.len() ==> {
                ||| chunks[i] == from && #[trigger] after[i] == to
                ||| after[i] == chunks[i] && forall|p: int|
                    0 <= p < chunks[i].len() ==> !occurs_at(chunks.skip(i).flatten(), p, from)
            },
    ensures
        replaced(chunks.flatten(), from, to) == after.flatten(),
    decreases chunks.len(),
{
    if chunks.len() > 0 {
        let rest = chunks.drop_first();
        let rest_after = after.drop_first();
        assert(chunks.skip(0) == chunks);
        assert forall|i: int| 0 <= i < rest.len() implies {
            ||| rest[i] == from && #[trigger] rest_after[i] == to
            ||| rest_after[i] == rest[i] && forall|p: int|
                0 <= p < rest[i].len() ==> !occurs_at(rest.skip(i).flatten(), p, from)
        } by {
            assert(rest.skip(i) == chunks.skip(i + 1));
            assert(rest_after[i] == after[i + 1]);
        }
        lemma_replaced_chunks(rest, rest_after, from, to);
        let hay = chunks.flatten();
        assert(hay == chunks[0] + rest.flatten());
        assert(after[0] == after[0]);
        if chunks[0] == from && after[0] == to {
            assert(hay.subrange(0, from.len() as int) == from);
            assert(hay.skip(from.len() as int) == rest.flatten());
        } else {
            lemma_replaced_copies(chunks[0], rest.flatten(), from, to);
        }
    }
}

/// Where a character of a cut text stands: in which chunk, and where in it.
pub proof fn lemma_locate(chunks: Seq<Seq<char>>, at: int) -> (r: (int, int))
    requires
        0 <= at < chunks.flatten().len(),
    ensures
        0 <= r.0 < chunks.len(),
        0 <= r.1 < chunks[r.0].len(),
        chunks[r.0][r.1] == chunks.flatten()[at],
        at == chunks.take(r.0).flatten().len() + r.1,
    decreases chunks.len(),
{
    let first = chunks[0];
    let rest = chunks.drop_first();
    assert(chunks.flatten() == first + rest.flatten());
    if at < first.len() {
        assert(chunks.take(0).flatten().len() == 0);
        (0, at)
    } else {
        let (j, off) = lemma_locate(rest, at - first.len());
        let head = chunks.take(j + 1);
        assert(head.drop_first() == rest.take(j));
        assert(head[0] == first);
        assert(head.flatten() == first + rest.take(j).flatten());
        (j + 1, off)
    }
}

} // verus!
