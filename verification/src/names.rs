//! Canonical crate names.
//!
//! A crate keeps the spelling it was first published under, but is looked up
//! by a canonical form in which ASCII letters are lower-cased and `_` is
//! written `-`, so that `Foo_Bar`, `foo-bar` and `FOO_bar` name one crate.

use crate::text::push_char;
use vstd::prelude::*;

verus! {

/// The canonical form of one character.
pub open spec fn canonical_char(c: char) -> char {
    if 'A' <= c && c <= 'Z' {
        ((c as u8) + 32) as u8 as char
    } else if c == '_' {
        '-'
    } else {
        c
    }
}

/// The canonical form of a name: every character replaced by its canonical
/// form, in place.
pub open spec fn canonical(name: Seq<char>) -> Seq<char> {
    Seq::new(name.len(), |i: int| canonical_char(name[i]))
}

fn canonical_char_of(c: char) -> (folded: char)
    ensures
        folded == canonical_char(c),
{
    if 'A' <= c && c <= 'Z' {
        let byte: u8 = c as u8;
        (byte + 32) as char
    } else if c == '_' {
        '-'
    } else {
        c
    }
}

/// Normalises a crate name to the key under which the crate is stored.
pub fn canonical_name(name: &str) -> (canon: String)
    ensures
        canon@ == canonical(name@),
{
    let mut canon = String::new();
    for c in iter: name.chars()
        invariant
            iter.seq() == name@,
            canon@ == canonical(name@.subrange(0, iter.index() as int)),
    {
        push_char(&mut canon, canonical_char_of(c));
        assert(canon@ =~= canonical(name@.subrange(0, iter.index() + 1)));
    }
    assert(name@.subrange(0, name@.len() as int) =~= name@);
    canon
}

/// Canonicalising twice changes nothing more.
pub proof fn canonical_is_idempotent(name: Seq<char>)
    ensures
        canonical(canonical(name)) == canonical(name),
{
    assert forall|c: char| canonical_char(canonical_char(c)) == canonical_char(c) by {
        canonical_char_is_idempotent(c);
    }
    assert(canonical(canonical(name)) =~= canonical(name));
}

/// A canonical character is its own canonical form.
pub proof fn canonical_char_is_idempotent(c: char)
    ensures
        canonical_char(canonical_char(c)) == canonical_char(c),
{
}

/// A canonical name has as many characters as the spelling it came from.
pub proof fn canonical_keeps_length(name: Seq<char>)
    ensures
        canonical(name).len() == name.len(),
{
}

} // verus!
