//! Route patterns.
//!
//! A pattern is written like a path. Of its pieces, one that starts with `:`
//! is a parameter and stands for any one piece of a path; one that starts
//! with `*` stands for everything that remains of the path, so nothing
//! written after it is kept; any other piece is a literal and stands for
//! itself.

use crate::path::{pieces, split_path, texts};
use crate::text::{after_first, same_text};
use vstd::prelude::*;

verus! {

/// One piece of a pattern.
#[derive(Clone, Debug, PartialEq, Eq)]
pub enum Segment {
    /// Matches the piece that has exactly this text.
    Literal(String),
    /// Matches any one piece, and gives it this name.
    Param(String),
    /// Matches all the pieces from here on, and gives them this name.
    Rest(String),
}

/// A segment, as contracts see it.
pub enum SegmentView {
    Literal(Seq<char>),
    Param(Seq<char>),
    Rest(Seq<char>),
}

impl View for Segment {
    type V = SegmentView;

    open spec fn view(&self) -> SegmentView {
        match self {
            Segment::Literal(text) => SegmentView::Literal(text@),
            Segment::Param(name) => SegmentView::Param(name@),
            Segment::Rest(name) => SegmentView::Rest(name@),
        }
    }
}

/// A parameter bound to the piece of the path that it matched.
#[derive(Clone, Debug, PartialEq, Eq)]
pub struct Binding {
    pub name: String,
    pub value: String,
}

impl View for Binding {
    type V = (Seq<char>, Seq<char>);

    open spec fn view(&self) -> (Seq<char>, Seq<char>) {
        (self.name@, self.value@)
    }
}

/// A route pattern: its segments, first to last.
#[derive(Clone, Debug, PartialEq, Eq)]
pub struct Pattern {
    pub segments: Vec<Segment>,
}

impl View for Pattern {
    type V = Seq<SegmentView>;

    open spec fn view(&self) -> Seq<SegmentView> {
        self.segments@.map_values(|s: Segment| s@)
    }
}

/// The bindings held by a sequence, as contracts see them.
pub open spec fn bound(bindings: Seq<Binding>) -> Seq<(Seq<char>, Seq<char>)> {
    bindings.map_values(|b: Binding| b@)
}

/// The segment that one piece of a pattern's text stands for.
pub open spec fn segment_of(piece: Seq<char>) -> SegmentView {
    if piece.len() > 0 && piece[0] == ':' {
        SegmentView::Param(piece.subrange(1, piece.len() as int))
    } else if piece.len() > 0 && piece[0] == '*' {
        SegmentView::Rest(piece.subrange(1, piece.len() as int))
    } else {
        SegmentView::Literal(piece)
    }
}

/// The pattern that the first `upto` pieces of a pattern's text give:
/// one segment for each piece, up to and including the first `*` piece.
pub open spec fn pattern_upto(parts: Seq<Seq<char>>, upto: int) -> Seq<SegmentView>
    decreases upto,
{
    if upto <= 0 {
        Seq::empty()
    } else {
        let before = pattern_upto(parts, upto - 1);
        if before.len() > 0 && before.last() is Rest {
            before
        } else {
            before.push(segment_of(parts[upto - 1]))
        }
    }
}

/// The pattern that a text denotes.
pub open spec fn pattern_of(text: Seq<char>) -> Seq<SegmentView> {
    pattern_upto(pieces(text), pieces(text).len() as int)
}

/// How general a segment is: a literal least, a `*` most.
pub open spec fn rank(segment: SegmentView) -> int {
    match segment {
        SegmentView::Literal(_) => 0,
        SegmentView::Param(_) => 1,
        SegmentView::Rest(_) => 2,
    }
}

/// Whether a segment accepts a piece of a path.
pub open spec fn admits(segment: SegmentView, piece: Seq<char>) -> bool {
    segment matches SegmentView::Literal(text) ==> text == piece
}

/// Whether a pattern ends in a `*` segment.
pub open spec fn is_open_ended(pattern: Seq<SegmentView>) -> bool {
    pattern.len() > 0 && pattern.last() is Rest
}

/// Whether a pattern matches the pieces of a path: segment by segment, with
/// nothing left over unless the pattern ends in a `*`, which then takes at
/// least one piece. A `*` that is not the last segment, which no text
/// denotes, takes one piece like a parameter.
pub open spec fn fits(pattern: Seq<SegmentView>, parts: Seq<Seq<char>>) -> bool {
    &&& if is_open_ended(pattern) {
        parts.len() >= pattern.len()
    } else {
        parts.len() == pattern.len()
    }
    &&& forall|i: int| 0 <= i < pattern.len() ==> admits(#[trigger] pattern[i], parts[i])
}

/// Whether `a` is the more specific of two patterns, comparing from segment
/// `from` on: at the first segment where their ranks differ `a` has the
/// lower one, or there is no such segment and `a` is the longer.
pub open spec fn outranks_from(a: Seq<SegmentView>, b: Seq<SegmentView>, from: int) -> bool
    decreases a.len() - from,
{
    if from < 0 || from >= a.len() || from >= b.len() {
        a.len() > b.len()
    } else if rank(a[from]) != rank(b[from]) {
        rank(a[from]) < rank(b[from])
    } else {
        outranks_from(a, b, from + 1)
    }
}

/// Whether `a` is more specific than `b`.
pub open spec fn outranks(a: Seq<SegmentView>, b: Seq<SegmentView>) -> bool {
    outranks_from(a, b, 0)
}

/// Whether two patterns have the same length and, place by place, segments
/// of the same rank.
pub open spec fn same_shape(a: Seq<SegmentView>, b: Seq<SegmentView>) -> bool {
    &&& a.len() == b.len()
    &&& forall|i: int| 0 <= i < a.len() ==> rank(#[trigger] a[i]) == rank(b[i])
}

/// Whether two patterns differ at most in the names they give: they have
/// the same shape and the same literals.
pub open spec fn overlaps(a: Seq<SegmentView>, b: Seq<SegmentView>) -> bool {
    &&& same_shape(a, b)
    &&& forall|i: int| 0 <= i < a.len() && (#[trigger] a[i]) is Literal ==> a[i] == b[i]
}

/// The parameters that the first `upto` segments of a pattern bind on a
/// path, in the order of the segments.
pub open spec fn bindings_upto(pattern: Seq<SegmentView>, parts: Seq<Seq<char>>, upto: int) -> Seq<
    (Seq<char>, Seq<char>),
>
    decreases upto,
{
    if upto <= 0 {
        Seq::empty()
    } else {
        let before = bindings_upto(pattern, parts, upto - 1);
        match pattern[upto - 1] {
            SegmentView::Param(name) => before.push((name, parts[upto - 1])),
            _ => before,
        }
    }
}

/// The parameters that a pattern binds on a path: one for each parameter
/// segment that has a piece of the path to stand for.
pub open spec fn bindings(pattern: Seq<SegmentView>, parts: Seq<Seq<char>>) -> Seq<
    (Seq<char>, Seq<char>),
> {
    if pattern.len() <= parts.len() {
        bindings_upto(pattern, parts, pattern.len() as int)
    } else {
        bindings_upto(pattern, parts, parts.len() as int)
    }
}

/// The value bound to a name: that of the last binding with the name, or
/// `None` where no binding has it.
pub open spec fn value_of(bindings: Seq<(Seq<char>, Seq<char>)>, name: Seq<char>) -> Option<
    Seq<char>,
>
    decreases bindings.len(),
{
    if bindings.len() == 0 {
        None
    } else if bindings.last().0 == name {
        Some(bindings.last().1)
    } else {
        value_of(bindings.drop_last(), name)
    }
}

/// The pieces that the closing `*` of a pattern takes; none where the
/// pattern has no such segment.
pub open spec fn tail(pattern: Seq<SegmentView>, parts: Seq<Seq<char>>) -> Seq<Seq<char>> {
    if is_open_ended(pattern) && parts.len() >= pattern.len() {
        parts.subrange(pattern.len() - 1, parts.len() as int)
    } else {
        Seq::empty()
    }
}

/// The comparison from segment `from` on is transitive.
pub proof fn outranks_is_transitive_from(
    a: Seq<SegmentView>,
    b: Seq<SegmentView>,
    c: Seq<SegmentView>,
    from: int,
)
    requires
        outranks_from(a, b, from),
        outranks_from(b, c, from),
    ensures
        outranks_from(a, c, from),
    decreases a.len() - from,
{
    if 0 <= from < a.len() && from < b.len() && from < c.len() {
        if rank(a[from]) == rank(b[from]) && rank(b[from]) == rank(c[from]) {
            outranks_is_transitive_from(a, b, c, from + 1);
        }
    }
}

/// The more specific of the more specific is more specific.
pub proof fn outranks_is_transitive(a: Seq<SegmentView>, b: Seq<SegmentView>, c: Seq<SegmentView>)
    requires
        outranks(a, b),
        outranks(b, c),
    ensures
        outranks(a, c),
{
    outranks_is_transitive_from(a, b, c, 0);
}

/// Of two patterns that agree in rank before `from`, one outranks the
/// other, or they have the same shape: one of the three and no two.
pub proof fn outranks_is_total_from(a: Seq<SegmentView>, b: Seq<SegmentView>, from: int)
    requires
        0 <= from,
        forall|i: int| 0 <= i < from && i < a.len() && i < b.len() ==> rank(#[trigger] a[i]) == rank(b[i]),
    ensures
        outranks_from(a, b, from) || outranks_from(b, a, from) || same_shape(a, b),
        !(outranks_from(a, b, from) && outranks_from(b, a, from)),
        same_shape(a, b) ==> !outranks_from(a, b, from) && !outranks_from(b, a, from),
    decreases a.len() - from,
{
    if from < a.len() && from < b.len() {
        if rank(a[from]) == rank(b[from]) {
            outranks_is_total_from(a, b, from + 1);
        }
    }
}

/// Of two patterns one outranks the other, or they have the same shape: one
/// of the three and no two.
pub proof fn outranks_is_total(a: Seq<SegmentView>, b: Seq<SegmentView>)
    ensures
        outranks(a, b) || outranks(b, a) || same_shape(a, b),
        !(outranks(a, b) && outranks(b, a)),
        same_shape(a, b) ==> !outranks(a, b) && !outranks(b, a),
{
    outranks_is_total_from(a, b, 0);
}

/// Which of two patterns is the more specific depends on their shapes
/// alone.
pub proof fn outranks_goes_by_shape_from(
    a: Seq<SegmentView>,
    b: Seq<SegmentView>,
    c: Seq<SegmentView>,
    from: int,
)
    requires
        same_shape(b, c),
    ensures
        outranks_from(a, b, from) == outranks_from(a, c, from),
        outranks_from(b, a, from) == outranks_from(c, a, from),
    decreases a.len() - from, b.len() - from,
{
    if 0 <= from < a.len() && from < b.len() {
        assert(rank(b[from]) == rank(c[from]));
        if rank(a[from]) == rank(b[from]) {
            outranks_goes_by_shape_from(a, b, c, from + 1);
        }
    }
}

/// Which of two patterns is the more specific depends on their shapes
/// alone.
pub proof fn outranks_goes_by_shape(a: Seq<SegmentView>, b: Seq<SegmentView>, c: Seq<SegmentView>)
    requires
        same_shape(b, c),
    ensures
        outranks(a, b) == outranks(a, c),
        outranks(b, a) == outranks(c, a),
{
    outranks_goes_by_shape_from(a, b, c, 0);
}

/// Two patterns of the same shape that match the same path overlap: where
/// one has a literal the other has the same one.
pub proof fn same_shape_on_one_path_overlaps(
    a: Seq<SegmentView>,
    b: Seq<SegmentView>,
    parts: Seq<Seq<char>>,
)
    requires
        same_shape(a, b),
        fits(a, parts),
        fits(b, parts),
    ensures
        overlaps(a, b),
{
    assert forall|i: int| 0 <= i < a.len() && (#[trigger] a[i]) is Literal implies a[i] == b[i] by {
        assert(rank(a[i]) == rank(b[i]));
        assert(admits(a[i], parts[i]));
        assert(admits(b[i], parts[i]));
    }
}

/// Patterns that overlap match the same paths.
pub proof fn overlapping_patterns_match_alike(
    a: Seq<SegmentView>,
    b: Seq<SegmentView>,
    parts: Seq<Seq<char>>,
)
    requires
        overlaps(a, b),
    ensures
        fits(a, parts) == fits(b, parts),
{
    if a.len() > 0 {
        assert(rank(a[a.len() - 1]) == rank(b[a.len() - 1]));
    }
    if fits(a, parts) {
        assert forall|i: int| 0 <= i < b.len() implies admits(#[trigger] b[i], parts[i]) by {
            assert(rank(a[i]) == rank(b[i]));
            assert(admits(a[i], parts[i]));
        }
    }
    if fits(b, parts) {
        assert forall|i: int| 0 <= i < a.len() implies admits(#[trigger] a[i], parts[i]) by {
            assert(rank(a[i]) == rank(b[i]));
            assert(admits(b[i], parts[i]));
        }
    }
}

/// In the pattern that a text denotes only the last segment can be a `*`.
pub proof fn parsed_pattern_closes_once(parts: Seq<Seq<char>>, upto: int)
    ensures
        forall|i: int|
            0 <= i < pattern_upto(parts, upto).len() && (#[trigger] pattern_upto(parts, upto)[i]) is Rest
                ==> i == pattern_upto(parts, upto).len() - 1,
    decreases upto,
{
    if upto > 0 {
        parsed_pattern_closes_once(parts, upto - 1);
    }
}

/// A pattern that has no `*` segment.
pub open spec fn is_closed(pattern: Seq<SegmentView>) -> bool {
    forall|i: int| 0 <= i < pattern.len() ==> !((#[trigger] pattern[i]) is Rest)
}

/// Reading a pattern on: where the pieces `head` give a pattern without a
/// `*`, the pieces `head` followed by `rest` give that pattern followed by
/// the pattern of `rest`.
pub proof fn pattern_goes_on(head: Seq<Seq<char>>, rest: Seq<Seq<char>>, upto: int)
    requires
        is_closed(pattern_upto(head, head.len() as int)),
        0 <= upto <= rest.len(),
    ensures
        pattern_upto(head + rest, head.len() + upto) == pattern_upto(head, head.len() as int)
            + pattern_upto(rest, upto),
    decreases upto,
{
    let whole = head + rest;
    let first = pattern_upto(head, head.len() as int);
    if upto == 0 {
        pattern_reads_its_prefix(whole, head, head.len() as int);
        assert(first + Seq::<SegmentView>::empty() =~= first);
    } else {
        pattern_goes_on(head, rest, upto - 1);
        let before = pattern_upto(rest, upto - 1);
        assert(whole[head.len() + upto - 1] == rest[upto - 1]);
        if before.len() > 0 {
            assert((first + before).last() == before.last());
        } else {
            assert(first + before =~= first);
            if first.len() > 0 {
                assert(!(first[first.len() - 1] is Rest));
            }
        }
        let segment = segment_of(rest[upto - 1]);
        assert((first + before).push(segment) =~= first + before.push(segment));
    }
}

/// The pattern of some pieces goes by those pieces alone.
pub proof fn pattern_reads_its_prefix(a: Seq<Seq<char>>, b: Seq<Seq<char>>, upto: int)
    requires
        0 <= upto <= a.len(),
        upto <= b.len(),
        forall|k: int| 0 <= k < upto ==> a[k] == b[k],
    ensures
        pattern_upto(a, upto) == pattern_upto(b, upto),
    decreases upto,
{
    if upto > 0 {
        pattern_reads_its_prefix(a, b, upto - 1);
    }
}

/// Joining the texts of two patterns with a `/` joins the patterns,
/// provided that the first has no `*` segment.
pub proof fn pattern_of_joined_texts(first: Seq<char>, second: Seq<char>)
    requires
        is_closed(pattern_of(first)),
    ensures
        pattern_of(first + seq!['/'] + second) == pattern_of(first) + pattern_of(second),
{
    crate::path::pieces_of_joined_paths(first, second);
    pattern_goes_on(pieces(first), pieces(second), pieces(second).len() as int);
    assert((pieces(first) + pieces(second)).len() == pieces(first).len() + pieces(second).len());
}

/// Looks up the value bound to a name.
pub fn lookup(bindings: &Vec<Binding>, name: &str) -> (value: Option<String>)
    ensures
        crate::response::text_of(value) == value_of(bound(bindings@), name@),
{
    let wanted = name.to_owned();
    let mut i: usize = bindings.len();
    assert(bound(bindings@).subrange(0, i as int) =~= bound(bindings@));
    while i > 0
        invariant
            i <= bindings.len(),
            wanted@ == name@,
            value_of(bound(bindings@), name@) == value_of(
                bound(bindings@).subrange(0, i as int),
                name@,
            ),
        decreases i,
    {
        i = i - 1;
        let ghost upto = bound(bindings@).subrange(0, i + 1);
        assert(upto.last() == bindings@[i as int]@);
        assert(upto.drop_last() =~= bound(bindings@).subrange(0, i as int));
        if same_text(&bindings[i].name, &wanted) {
            return Some(bindings[i].value.clone());
        }
    }
    assert(bound(bindings@).subrange(0, 0).len() == 0);
    None
}

impl Segment {
    /// Reads one piece of a pattern's text.
    pub fn parse(piece: &String) -> (segment: Segment)
        ensures
            segment@ == segment_of(piece@),
    {
        if piece.as_str().is_empty() {
            return Segment::Literal(piece.clone());
        }
        let first = piece.as_str().get_char(0);
        if first == ':' {
            Segment::Param(after_first(piece))
        } else if first == '*' {
            Segment::Rest(after_first(piece))
        } else {
            Segment::Literal(piece.clone())
        }
    }

    /// A copy of the segment.
    pub fn copy(&self) -> (copy: Segment)
        ensures
            copy@ == self@,
    {
        match self {
            Segment::Literal(text) => Segment::Literal(text.clone()),
            Segment::Param(name) => Segment::Param(name.clone()),
            Segment::Rest(name) => Segment::Rest(name.clone()),
        }
    }

    /// How general the segment is.
    pub fn rank(&self) -> (r: u8)
        ensures
            r == rank(self@),
    {
        match self {
            Segment::Literal(_) => 0,
            Segment::Param(_) => 1,
            Segment::Rest(_) => 2,
        }
    }

    /// Whether the segment accepts a piece of a path.
    pub fn admits(&self, piece: &String) -> (yes: bool)
        ensures
            yes == admits(self@, piece@),
    {
        match self {
            Segment::Literal(text) => same_text(text, piece),
            _ => true,
        }
    }
}

impl Pattern {
    /// Reads a pattern from its text.
    pub fn parse(text: &str) -> (pattern: Pattern)
        ensures
            pattern@ == pattern_of(text@),
    {
        let parts = split_path(text);
        let mut segments: Vec<Segment> = Vec::new();
        let mut closed = false;
        let mut i: usize = 0;
        while i < parts.len()
            invariant
                i <= parts.len(),
                segments@.map_values(|s: Segment| s@) == pattern_upto(texts(parts@), i as int),
                closed == is_open_ended(pattern_upto(texts(parts@), i as int)),
            decreases parts.len() - i,
        {
            if !closed {
                let segment = Segment::parse(&parts[i]);
                closed = segment.rank() == 2;
                let ghost before = segments@;
                segments.push(segment);
                assert(segments@.map_values(|s: Segment| s@) =~= before.map_values(
                    |s: Segment| s@,
                ).push(segment@));
            }
            i = i + 1;
        }
        Pattern { segments }
    }

    /// This pattern followed by another.
    pub fn followed_by(&self, other: &Pattern) -> (joined: Pattern)
        ensures
            joined@ == self@ + other@,
    {
        let mut segments: Vec<Segment> = Vec::new();
        let mut i: usize = 0;
        while i < self.segments.len()
            invariant
                i <= self.segments.len(),
                segments@.map_values(|s: Segment| s@) == self@.subrange(0, i as int),
            decreases self.segments.len() - i,
        {
            let ghost before = segments@;
            let segment = self.segments[i].copy();
            assert(segment@ == self@[i as int]);
            segments.push(segment);
            assert(segments@.map_values(|s: Segment| s@) =~= before.map_values(
                |s: Segment| s@,
            ).push(segment@));
            i = i + 1;
            assert(segments@.map_values(|s: Segment| s@) =~= self@.subrange(0, i as int));
        }
        assert(self@.subrange(0, self.segments.len() as int) =~= self@);
        assert(self@ + other@.subrange(0, 0) =~= self@);
        let mut j: usize = 0;
        while j < other.segments.len()
            invariant
                j <= other.segments.len(),
                segments@.map_values(|s: Segment| s@) == self@ + other@.subrange(0, j as int),
            decreases other.segments.len() - j,
        {
            let ghost before = segments@;
            let segment = other.segments[j].copy();
            assert(segment@ == other@[j as int]);
            segments.push(segment);
            assert(segments@.map_values(|s: Segment| s@) =~= before.map_values(
                |s: Segment| s@,
            ).push(segment@));
            j = j + 1;
            assert(segments@.map_values(|s: Segment| s@) =~= self@ + other@.subrange(0, j as int));
        }
        assert(other@.subrange(0, other.segments.len() as int) =~= other@);
        Pattern { segments }
    }

    /// Whether the pattern ends in a `*` segment.
    pub fn is_open_ended(&self) -> (yes: bool)
        ensures
            yes == is_open_ended(self@),
    {
        let n: usize = self.segments.len();
        n > 0 && self.segments[n - 1].rank() == 2
    }

    /// Whether the pattern matches the pieces of a path.
    pub fn fits(&self, parts: &Vec<String>) -> (yes: bool)
        ensures
            yes == fits(self@, texts(parts@)),
    {
        let n: usize = self.segments.len();
        if self.is_open_ended() {
            if parts.len() < n {
                return false;
            }
        } else if parts.len() != n {
            return false;
        }
        let mut i: usize = 0;
        while i < n
            invariant
                n == self.segments.len(),
                n <= parts.len(),
                i <= n,
                forall|k: int| 0 <= k < i ==> admits(#[trigger] self@[k], texts(parts@)[k]),
            decreases n - i,
        {
            if !self.segments[i].admits(&parts[i]) {
                assert(!admits(self@[i as int], texts(parts@)[i as int]));
                return false;
            }
            i = i + 1;
        }
        true
    }

    /// Whether this pattern is more specific than another.
    pub fn outranks(&self, other: &Pattern) -> (yes: bool)
        ensures
            yes == outranks(self@, other@),
    {
        let mut i: usize = 0;
        while i < self.segments.len() && i < other.segments.len()
            invariant
                i <= self.segments.len(),
                i <= other.segments.len(),
                outranks(self@, other@) == outranks_from(self@, other@, i as int),
            decreases self.segments.len() - i,
        {
            let mine: u8 = self.segments[i].rank();
            let theirs: u8 = other.segments[i].rank();
            if mine != theirs {
                return mine < theirs;
            }
            i = i + 1;
        }
        self.segments.len() > other.segments.len()
    }

    /// Whether this pattern and another differ at most in the names they
    /// give.
    pub fn overlaps(&self, other: &Pattern) -> (yes: bool)
        ensures
            yes == overlaps(self@, other@),
    {
        let n: usize = self.segments.len();
        if other.segments.len() != n {
            return false;
        }
        let mut i: usize = 0;
        while i < n
            invariant
                n == self.segments.len(),
                n == other.segments.len(),
                i <= n,
                forall|k: int| 0 <= k < i ==> rank(#[trigger] self@[k]) == rank(other@[k]),
                forall|k: int| 0 <= k < i && (#[trigger] self@[k]) is Literal ==> self@[k] == other@[k],
            decreases n - i,
        {
            if self.segments[i].rank() != other.segments[i].rank() {
                assert(rank(self@[i as int]) != rank(other@[i as int]));
                return false;
            }
            match (&self.segments[i], &other.segments[i]) {
                (Segment::Literal(mine), Segment::Literal(theirs)) => {
                    if !same_text(mine, theirs) {
                        assert(self@[i as int] is Literal && self@[i as int] != other@[i as int]);
                        return false;
                    }
                },
                _ => {},
            }
            i = i + 1;
        }
        true
    }

    /// The parameters that the pattern binds on a path.
    pub fn bind(&self, parts: &Vec<String>) -> (found: Vec<Binding>)
        ensures
            bound(found@) == bindings(self@, texts(parts@)),
    {
        let n: usize = if self.segments.len() <= parts.len() {
            self.segments.len()
        } else {
            parts.len()
        };
        let mut found: Vec<Binding> = Vec::new();
        let mut i: usize = 0;
        while i < n
            invariant
                n <= self.segments.len(),
                n <= parts.len(),
                i <= n,
                bound(found@) == bindings_upto(self@, texts(parts@), i as int),
            decreases n - i,
        {
            match &self.segments[i] {
                Segment::Param(name) => {
                    let ghost before = found@;
                    let binding = Binding { name: name.clone(), value: parts[i].clone() };
                    found.push(binding);
                    assert(bound(found@) =~= bound(before).push(binding@));
                },
                _ => {},
            }
            i = i + 1;
        }
        found
    }

    /// The pieces that the closing `*` of the pattern takes.
    pub fn tail(&self, parts: &Vec<String>) -> (rest: Vec<String>)
        ensures
            texts(rest@) == tail(self@, texts(parts@)),
    {
        let n: usize = self.segments.len();
        let mut rest: Vec<String> = Vec::new();
        if !self.is_open_ended() || parts.len() < n {
            assert(texts(rest@) =~= Seq::<Seq<char>>::empty());
            return rest;
        }
        let mut i: usize = n - 1;
        while i < parts.len()
            invariant
                0 < n <= parts.len(),
                n - 1 <= i <= parts.len(),
                texts(rest@) == texts(parts@).subrange(n - 1, i as int),
            decreases parts.len() - i,
        {
            let ghost before = rest@;
            rest.push(parts[i].clone());
            assert(texts(rest@) =~= texts(before).push(parts@[i as int]@));
            i = i + 1;
            assert(texts(rest@) =~= texts(parts@).subrange(n - 1, i as int));
        }
        rest
    }
}

} // verus!
