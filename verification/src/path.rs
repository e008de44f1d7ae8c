//! Request paths, cut into their pieces.
//!
//! A path is read left to right. Every `/` ends the piece that is being
//! read; a piece that would be empty is dropped, so `/a//b/` and `a/b` have
//! the same two pieces.

use crate::text::push_char;
use vstd::prelude::*;

verus! {

/// What has been read of a path so far: the pieces that are complete, and
/// the characters of the piece that is still open.
pub struct Reading {
    pub closed: Seq<Seq<char>>,
    pub open: Seq<char>,
}

/// The reading after one more character.
pub open spec fn read_char(before: Reading, c: char) -> Reading {
    if c != '/' {
        Reading { closed: before.closed, open: before.open.push(c) }
    } else if before.open.len() == 0 {
        before
    } else {
        Reading { closed: before.closed.push(before.open), open: Seq::empty() }
    }
}

/// The reading after the first `upto` characters of `path`.
pub open spec fn reading(path: Seq<char>, upto: int) -> Reading
    decreases upto,
{
    if upto <= 0 {
        Reading { closed: Seq::empty(), open: Seq::empty() }
    } else {
        read_char(reading(path, upto - 1), path[upto - 1])
    }
}

/// The pieces of a path: its maximal runs of characters other than `/`.
pub open spec fn pieces(path: Seq<char>) -> Seq<Seq<char>> {
    let end = reading(path, path.len() as int);
    if end.open.len() == 0 {
        end.closed
    } else {
        end.closed.push(end.open)
    }
}

/// The texts held by a sequence of strings.
pub open spec fn texts(strings: Seq<String>) -> Seq<Seq<char>> {
    strings.map_values(|s: String| s@)
}

/// A piece of a path: not empty, and without a `/`.
pub open spec fn is_piece(text: Seq<char>) -> bool {
    text.len() > 0 && forall|k: int| 0 <= k < text.len() ==> text[k] != '/'
}

/// A reading in which every closed piece is a piece and the open part has
/// no `/`.
pub open spec fn is_clean(r: Reading) -> bool {
    &&& forall|i: int| 0 <= i < r.closed.len() ==> is_piece(#[trigger] r.closed[i])
    &&& forall|k: int| 0 <= k < r.open.len() ==> r.open[k] != '/'
}

/// Reading one more character keeps a reading clean.
pub proof fn read_char_keeps_clean(before: Reading, c: char)
    requires
        is_clean(before),
    ensures
        is_clean(read_char(before, c)),
{
    let after = read_char(before, c);
    if c != '/' {
        assert forall|k: int| 0 <= k < after.open.len() implies after.open[k] != '/' by {
            if k < before.open.len() {
                assert(after.open[k] == before.open[k]);
            }
        }
    } else if before.open.len() > 0 {
        assert forall|i: int| 0 <= i < after.closed.len() implies is_piece(
            #[trigger] after.closed[i],
        ) by {
            if i < before.closed.len() {
                assert(after.closed[i] == before.closed[i]);
            } else {
                assert(after.closed[i] == before.open);
            }
        }
    }
}

/// Every reading of a path is clean.
pub proof fn reading_is_clean(path: Seq<char>, upto: int)
    ensures
        is_clean(reading(path, upto)),
    decreases upto,
{
    if upto > 0 {
        reading_is_clean(path, upto - 1);
        read_char_keeps_clean(reading(path, upto - 1), path[upto - 1]);
    }
}

/// No piece of a path is empty, and none holds a `/`.
pub proof fn pieces_are_pieces(path: Seq<char>)
    ensures
        forall|i: int| 0 <= i < pieces(path).len() ==> is_piece(#[trigger] pieces(path)[i]),
{
    reading_is_clean(path, path.len() as int);
    let end = reading(path, path.len() as int);
    assert forall|i: int| 0 <= i < pieces(path).len() implies is_piece(
        #[trigger] pieces(path)[i],
    ) by {
        if i < end.closed.len() {
            assert(pieces(path)[i] == end.closed[i]);
        } else {
            assert(pieces(path)[i] == end.open);
        }
    }
}

/// Reading on after a `/`, or from the start: where nothing is open after
/// `head`, the reading of `head` followed by `rest` is the reading of
/// `rest` with the pieces of `head` before it.
pub proof fn reading_goes_on(head: Seq<char>, rest: Seq<char>, upto: int)
    requires
        reading(head, head.len() as int).open.len() == 0,
        0 <= upto <= rest.len(),
    ensures
        reading(head + rest, head.len() + upto).closed == reading(head, head.len() as int).closed
            + reading(rest, upto).closed,
        reading(head + rest, head.len() + upto).open == reading(rest, upto).open,
    decreases upto,
{
    let whole = head + rest;
    if upto == 0 {
        reading_reads_its_prefix(whole, head, head.len() as int);
        assert(reading(head, head.len() as int).closed + Seq::<Seq<char>>::empty() =~= reading(
            head,
            head.len() as int,
        ).closed);
    } else {
        reading_goes_on(head, rest, upto - 1);
        assert(whole[head.len() + upto - 1] == rest[upto - 1]);
        let before = reading(rest, upto - 1);
        let kept = reading(head, head.len() as int).closed;
        assert((kept + before.closed).push(before.open) =~= kept + before.closed.push(before.open));
    }
}

/// A reading goes by the characters read and by nothing after them.
pub proof fn reading_reads_its_prefix(a: Seq<char>, b: Seq<char>, upto: int)
    requires
        0 <= upto <= a.len(),
        upto <= b.len(),
        forall|k: int| 0 <= k < upto ==> a[k] == b[k],
    ensures
        reading(a, upto) == reading(b, upto),
    decreases upto,
{
    if upto > 0 {
        reading_reads_its_prefix(a, b, upto - 1);
    }
}

/// The pieces of two paths joined by a `/` are the pieces of the first
/// followed by the pieces of the second.
pub proof fn pieces_of_joined_paths(first: Seq<char>, second: Seq<char>)
    ensures
        pieces(first + seq!['/'] + second) == pieces(first) + pieces(second),
{
    let head = first + seq!['/'];
    reading_reads_its_prefix(head, first, first.len() as int);
    assert(head[first.len() as int] == '/');
    assert(reading(head, head.len() as int) == read_char(reading(first, first.len() as int), '/'));
    assert(reading(head, head.len() as int).closed == pieces(first));
    reading_goes_on(head, second, second.len() as int);
    let end = reading(second, second.len() as int);
    assert((pieces(first) + end.closed).push(end.open) =~= pieces(first) + end.closed.push(end.open));
    assert((head + second).len() == head.len() + second.len());
}

/// Cuts a path into its pieces.
pub fn split_path(path: &str) -> (parts: Vec<String>)
    ensures
        texts(parts@) == pieces(path@),
{
    let mut parts: Vec<String> = Vec::new();
    let mut open = String::new();
    for c in iter: path.chars()
        invariant
            iter.seq() == path@,
            texts(parts@) == reading(path@, iter.index() as int).closed,
            open@ == reading(path@, iter.index() as int).open,
    {
        if c != '/' {
            push_char(&mut open, c);
        } else if !open.as_str().is_empty() {
            let ghost before = parts@;
            parts.push(open);
            open = String::new();
            assert(texts(parts@) =~= texts(before).push(reading(path@, iter.index() as int).open));
        }
    }
    if !open.as_str().is_empty() {
        let ghost before = parts@;
        parts.push(open);
        assert(texts(parts@) =~= texts(before).push(reading(path@, path@.len() as int).open));
    }
    parts
}

} // verus!
