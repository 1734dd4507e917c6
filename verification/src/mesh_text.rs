//! The framing of the plain-text mesh format.
//!
//! A mesh text opens with a line that holds the number of triangles. Each
//! triangle then takes three lines, one for each vertex, and each of them
//! starts with the three coordinates of the vertex, separated by blanks.
//! This module finds where those coordinates stand; turning their characters
//! into numbers is left to the caller.
//!
//! The text is read as bytes. Lines end at a line feed. A blank is any
//! character that Unicode counts as white space, in its UTF-8 form.

use vstd::prelude::*;

verus! {

/// A run of bytes in a text: from `start` up to, not including, `end`.
#[derive(Clone, Copy, Debug, PartialEq, Eq)]
pub struct Span {
    pub start: usize,
    pub end: usize,
}

/// Where the three coordinates of one vertex stand.
#[derive(Clone, Copy, Debug, PartialEq, Eq)]
pub struct VertexText {
    pub x: Span,
    pub y: Span,
    pub z: Span,
}

/// Where the three vertices of one triangle stand.
#[derive(Clone, Copy, Debug, PartialEq, Eq)]
pub struct TriangleText {
    pub a: VertexText,
    pub b: VertexText,
    pub c: VertexText,
}

/// Why a text is no mesh.
#[derive(Clone, Copy, Debug, PartialEq, Eq)]
pub enum MeshError {
    /// The first line is not a triangle count that fits the machine.
    Count,
    /// The triangle with this index lacks a coordinate on one of its lines.
    Vertex(usize),
}

/// A blank of one byte: space, tab, line feed, vertical tab, form feed,
/// carriage return.
pub open spec fn is_space(b: u8) -> bool {
    b == 32 || (9 <= b && b <= 13)
}

/// A blank of two bytes: the next-line mark or the no-break space.
pub open spec fn is_pair_blank(a: u8, b: u8) -> bool {
    a == 0xc2 && (b == 0x85 || b == 0xa0)
}

/// A blank of three bytes: the ogham space mark, the spaces of fixed width,
/// the line and paragraph separators, the narrow no-break space, the medium
/// mathematical space or the ideographic space.
pub open spec fn is_triple_blank(a: u8, b: u8, c: u8) -> bool {
    ||| a == 0xe1 && b == 0x9a && c == 0x80
    ||| a == 0xe2 && b == 0x80 && (0x80 <= c && c <= 0x8a)
    ||| a == 0xe2 && b == 0x80 && (c == 0xa8 || c == 0xa9 || c == 0xaf)
    ||| a == 0xe2 && b == 0x81 && c == 0x9f
    ||| a == 0xe3 && b == 0x80 && c == 0x80
}

/// The number of bytes of the blank that starts at `at` and ends no later
/// than `end`; zero where no blank starts there.
pub open spec fn blank_len(text: Seq<u8>, at: int, end: int) -> int {
    if end - at >= 1 && is_space(text[at]) {
        1
    } else if end - at >= 2 && is_pair_blank(text[at], text[at + 1]) {
        2
    } else if end - at >= 3 && is_triple_blank(text[at], text[at + 1], text[at + 2]) {
        3
    } else {
        0
    }
}

/// The number of bytes of the blank that ends at `end` and starts no
/// earlier than `start`; zero where no blank ends there.
pub open spec fn blank_len_before(text: Seq<u8>, start: int, end: int) -> int {
    if end - start >= 1 && is_space(text[end - 1]) {
        1
    } else if end - start >= 2 && is_pair_blank(text[end - 2], text[end - 1]) {
        2
    } else if end - start >= 3 && is_triple_blank(text[end - 3], text[end - 2], text[end - 1]) {
        3
    } else {
        0
    }
}

/// A decimal digit.
pub open spec fn is_digit(b: u8) -> bool {
    48 <= b && b <= 57
}

/// The end of the line that `from` stands in: the place of the next line
/// feed, or the end of the text.
pub open spec fn line_end(text: Seq<u8>, from: int) -> int
    decreases text.len() - from,
{
    if from >= text.len() {
        text.len() as int
    } else if text[from] == 10 {
        from
    } else {
        line_end(text, from + 1)
    }
}

/// The start of the line after the one that `from` stands in. Past the last
/// line every further line is empty and starts at the end of the text.
pub open spec fn next_line(text: Seq<u8>, from: int) -> int {
    let e = line_end(text, from);
    if e < text.len() {
        e + 1
    } else {
        e
    }
}

/// The start of line `n`, counted from zero.
pub open spec fn line_start(text: Seq<u8>, n: nat) -> int
    decreases n,
{
    if n == 0 {
        0
    } else {
        next_line(text, line_start(text, (n - 1) as nat))
    }
}

/// The first place at or after `from`, before `end`, where no blank starts,
/// going from blank to blank; `end` if there is none.
pub open spec fn skip_spaces(text: Seq<u8>, from: int, end: int) -> int
    decreases end - from,
{
    if from >= end {
        end
    } else if blank_len(text, from, end) == 0 {
        from
    } else {
        skip_spaces(text, from + blank_len(text, from, end), end)
    }
}

/// The first place at or after `from`, before `end`, where a blank starts;
/// `end` if there is none.
pub open spec fn skip_word(text: Seq<u8>, from: int, end: int) -> int
    decreases end - from,
{
    if from >= end {
        end
    } else if blank_len(text, from, end) != 0 {
        from
    } else {
        skip_word(text, from + 1, end)
    }
}

/// `end` moved back over the blanks that stand before it, no further than
/// `start`.
pub open spec fn trim_end(text: Seq<u8>, start: int, end: int) -> int
    decreases end - start,
{
    if end <= start {
        start
    } else if blank_len_before(text, start, end) == 0 {
        end
    } else {
        trim_end(text, start, end - blank_len_before(text, start, end))
    }
}

/// The number that a run of decimal digits writes.
pub open spec fn decimal(digits: Seq<u8>) -> nat
    decreases digits.len(),
{
    if digits.len() == 0 {
        0
    } else {
        decimal(digits.drop_last()) * 10 + (digits.last() - 48) as nat
    }
}

/// Every byte is a decimal digit.
pub open spec fn all_digits(s: Seq<u8>) -> bool {
    forall|i: int| 0 <= i < s.len() ==> is_digit(#[trigger] s[i])
}

/// The span is a word of the text: not empty, inside the text, and no blank
/// lies within it.
pub open spec fn is_word(text: Seq<u8>, span: Span) -> bool {
    &&& span.start < span.end <= text.len()
    &&& forall|i: int|
        span.start <= i < span.end ==> #[trigger] blank_len(text, i, span.end as int) == 0
}

/// The first three words of the line from `start` to `end`, if it has three.
pub open spec fn vertex_words(text: Seq<u8>, start: int, end: int) -> Option<VertexText> {
    let x0 = skip_spaces(text, start, end);
    let x1 = skip_word(text, x0, end);
    let y0 = skip_spaces(text, x1, end);
    let y1 = skip_word(text, y0, end);
    let z0 = skip_spaces(text, y1, end);
    let z1 = skip_word(text, z0, end);
    if x0 < end && y0 < end && z0 < end {
        Some(
            VertexText {
                x: Span { start: x0 as usize, end: x1 as usize },
                y: Span { start: y0 as usize, end: y1 as usize },
                z: Span { start: z0 as usize, end: z1 as usize },
            },
        )
    } else {
        None
    }
}

/// The line number of vertex `v` of triangle `k`: after the count line, each
/// triangle has one line for each of its three vertices.
pub open spec fn vertex_line(k: nat, v: nat) -> nat {
    1 + 3 * k + v
}

/// Vertex `v` of triangle `k`, if its line has three words.
pub open spec fn vertex_at(text: Seq<u8>, k: nat, v: nat) -> Option<VertexText> {
    let s = line_start(text, vertex_line(k, v));
    vertex_words(text, s, line_end(text, s))
}

/// Triangle `k`, if each of its three vertex lines has three words.
pub open spec fn triangle_at(text: Seq<u8>, k: nat) -> Option<TriangleText> {
    match (vertex_at(text, k, 0), vertex_at(text, k, 1), vertex_at(text, k, 2)) {
        (Some(a), Some(b), Some(c)) => Some(TriangleText { a, b, c }),
        _ => None,
    }
}

/// The triangle count that the first line states: blanks around it are
/// dropped, a plus sign may lead, and what is left must be decimal digits
/// whose number fits the machine's word.
pub open spec fn count_of(text: Seq<u8>) -> Option<nat> {
    let e = line_end(text, 0);
    let s = skip_spaces(text, 0, e);
    let t = trim_end(text, s, e);
    let d = if s < t && text[s] == 43 {
        s + 1
    } else {
        s
    };
    let digits = text.subrange(d, t);
    if d < t && all_digits(digits) && decimal(digits) <= usize::MAX {
        Some(decimal(digits))
    } else {
        None
    }
}

/// Every coordinate of the vertex is a word of the text.
pub open spec fn vertex_is_words(text: Seq<u8>, v: VertexText) -> bool {
    is_word(text, v.x) && is_word(text, v.y) && is_word(text, v.z)
}

/// Every coordinate of the triangle is a word of the text.
pub open spec fn triangle_is_words(text: Seq<u8>, t: TriangleText) -> bool {
    vertex_is_words(text, t.a) && vertex_is_words(text, t.b) && vertex_is_words(text, t.c)
}

/// A longer run of digits writes no smaller number than its beginning.
proof fn lemma_decimal_grows(digits: Seq<u8>, j: int)
    requires
        0 <= j <= digits.len(),
    ensures
        decimal(digits.subrange(0, j)) <= decimal(digits),
    decreases digits.len() - j,
{
    if j == digits.len() {
        assert(digits.subrange(0, j) =~= digits);
    } else {
        let rest = digits.drop_last();
        lemma_decimal_grows(rest, j);
        assert(rest.subrange(0, j) =~= digits.subrange(0, j));
    }
}

fn byte_is_space(b: u8) -> (r: bool)
    ensures
        r == is_space(b),
{
    b == 32 || (9 <= b && b <= 13)
}

fn bytes_are_pair_blank(a: u8, b: u8) -> (r: bool)
    ensures
        r == is_pair_blank(a, b),
{
    a == 0xc2 && (b == 0x85 || b == 0xa0)
}

fn bytes_are_triple_blank(a: u8, b: u8, c: u8) -> (r: bool)
    ensures
        r == is_triple_blank(a, b, c),
{
    (a == 0xe1 && b == 0x9a && c == 0x80) || (a == 0xe2 && b == 0x80 && (0x80 <= c && c <= 0x8a))
        || (a == 0xe2 && b == 0x80 && (c == 0xa8 || c == 0xa9 || c == 0xaf)) || (a == 0xe2 && b
        == 0x81 && c == 0x9f) || (a == 0xe3 && b == 0x80 && c == 0x80)
}

fn blank_at(text: &[u8], at: usize, end: usize) -> (n: usize)
    requires
        at <= end <= text@.len(),
    ensures
        n == blank_len(text@, at as int, end as int),
        n <= end - at,
{
    let room: usize = end - at;
    if room >= 1 && byte_is_space(text[at]) {
        1
    } else if room >= 2 && bytes_are_pair_blank(text[at], text[at + 1]) {
        2
    } else if room >= 3 && bytes_are_triple_blank(text[at], text[at + 1], text[at + 2]) {
        3
    } else {
        0
    }
}

fn blank_before(text: &[u8], start: usize, end: usize) -> (n: usize)
    requires
        start <= end <= text@.len(),
    ensures
        n == blank_len_before(text@, start as int, end as int),
        n <= end - start,
{
    let room: usize = end - start;
    if room >= 1 && byte_is_space(text[end - 1]) {
        1
    } else if room >= 2 && bytes_are_pair_blank(text[end - 2], text[end - 1]) {
        2
    } else if room >= 3 && bytes_are_triple_blank(text[end - 3], text[end - 2], text[end - 1]) {
        3
    } else {
        0
    }
}

fn find_line_end(text: &[u8], from: usize) -> (e: usize)
    requires
        from <= text@.len(),
    ensures
        e == line_end(text@, from as int),
        from <= e <= text@.len(),
{
    let mut i: usize = from;
    while i < text.len() && text[i] != 10
        invariant
            from <= i <= text@.len(),
            line_end(text@, i as int) == line_end(text@, from as int),
        decreases text@.len() - i,
    {
        i = i + 1;
    }
    i
}

fn step_line(text: &[u8], from: usize) -> (next: usize)
    requires
        from <= text@.len(),
    ensures
        next == next_line(text@, from as int),
        from <= next <= text@.len(),
{
    let e: usize = find_line_end(text, from);
    if e < text.len() {
        e + 1
    } else {
        e
    }
}

fn find_word_start(text: &[u8], from: usize, end: usize) -> (w: usize)
    requires
        from <= end <= text@.len(),
    ensures
        w == skip_spaces(text@, from as int, end as int),
        from <= w <= end,
        w < end ==> blank_len(text@, w as int, end as int) == 0,
{
    let mut i: usize = from;
    while i < end && blank_at(text, i, end) != 0
        invariant
            from <= i <= end <= text@.len(),
            skip_spaces(text@, i as int, end as int) == skip_spaces(text@, from as int, end as int),
        decreases end - i,
    {
        i = i + blank_at(text, i, end);
    }
    i
}

fn find_word_end(text: &[u8], from: usize, end: usize) -> (w: usize)
    requires
        from <= end <= text@.len(),
    ensures
        w == skip_word(text@, from as int, end as int),
        from <= w <= end,
        forall|i: int| from <= i < w ==> #[trigger] blank_len(text@, i, w as int) == 0,
        from < end && blank_len(text@, from as int, end as int) == 0 ==> from < w,
{
    let mut i: usize = from;
    while i < end && blank_at(text, i, end) == 0
        invariant
            from <= i <= end <= text@.len(),
            skip_word(text@, i as int, end as int) == skip_word(text@, from as int, end as int),
            forall|j: int| from <= j < i ==> #[trigger] blank_len(text@, j, end as int) == 0,
        decreases end - i,
    {
        i = i + 1;
    }
    assert forall|j: int| from <= j < i implies #[trigger] blank_len(text@, j, i as int) == 0 by {
        assert(blank_len(text@, j, end as int) == 0);
    }
    i
}

fn find_trim_end(text: &[u8], start: usize, end: usize) -> (t: usize)
    requires
        start <= end <= text@.len(),
    ensures
        t == trim_end(text@, start as int, end as int),
        start <= t <= end,
{
    let mut i: usize = end;
    while i > start && blank_before(text, start, i) != 0
        invariant
            start <= i <= end <= text@.len(),
            trim_end(text@, start as int, i as int) == trim_end(text@, start as int, end as int),
        decreases i - start,
    {
        i = i - blank_before(text, start, i);
    }
    i
}

/// The first three words of the line from `start` to `end`.
fn vertex_spans(text: &[u8], start: usize, end: usize) -> (r: Option<VertexText>)
    requires
        start <= end <= text@.len(),
    ensures
        r == vertex_words(text@, start as int, end as int),
        r matches Some(v) ==> vertex_is_words(text@, v),
{
    let x0: usize = find_word_start(text, start, end);
    let x1: usize = find_word_end(text, x0, end);
    let y0: usize = find_word_start(text, x1, end);
    let y1: usize = find_word_end(text, y0, end);
    let z0: usize = find_word_start(text, y1, end);
    let z1: usize = find_word_end(text, z0, end);
    if x0 < end && y0 < end && z0 < end {
        Some(
            VertexText {
                x: Span { start: x0, end: x1 },
                y: Span { start: y0, end: y1 },
                z: Span { start: z0, end: z1 },
            },
        )
    } else {
        None
    }
}

/// The triangle count that the first line of `text` states.
pub fn read_count(text: &[u8]) -> (r: Option<usize>)
    ensures
        match r {
            Some(n) => count_of(text@) == Some(n as nat),
            None => count_of(text@) is None,
        },
{
    let e: usize = find_line_end(text, 0);
    let s: usize = find_word_start(text, 0, e);
    let t: usize = find_trim_end(text, s, e);
    let mut d: usize = s;
    if s < t && text[s] == 43 {
        d = s + 1;
    }
    if d >= t {
        return None;
    }
    let ghost digits = text@.subrange(d as int, t as int);
    let mut acc: usize = 0;
    let mut i: usize = d;
    assert(text@.subrange(d as int, i as int) =~= Seq::<u8>::empty());
    while i < t
        invariant
            d <= i <= t <= text@.len(),
            digits == text@.subrange(d as int, t as int),
            count_of(text@) == (if all_digits(digits) && decimal(digits) <= usize::MAX {
                Some(decimal(digits))
            } else {
                None
            }),
            all_digits(text@.subrange(d as int, i as int)),
            acc == decimal(text@.subrange(d as int, i as int)),
        decreases t - i,
    {
        let b: u8 = text[i];
        if b < 48 || b > 57 {
            assert(digits[i - d] == b);
            return None;
        }
        let v: usize = (b - 48) as usize;
        let ghost before = text@.subrange(d as int, i as int);
        let ghost after = text@.subrange(d as int, i + 1);
        assert(after.drop_last() =~= before);
        assert(after.last() == b);
        assert(decimal(after) == decimal(before) * 10 + v);
        if acc > (usize::MAX - v) / 10 {
            proof {
                lemma_decimal_grows(digits, i + 1 - d);
                assert(digits.subrange(0, i + 1 - d) =~= after);
            }
            return None;
        }
        acc = acc * 10 + v;
        assert forall|j: int| 0 <= j < after.len() implies is_digit(#[trigger] after[j]) by {
            if j < before.len() {
                assert(after[j] == before[j]);
            }
        }
        i = i + 1;
    }
    assert(text@.subrange(d as int, i as int) =~= digits);
    Some(acc)
}

/// Finds the coordinates of every triangle that `text` holds.
///
/// The text is a mesh when its first line states a count and each of that
/// many triangles has three words on each of its three lines. The
/// result then gives the triangles in order. Otherwise the error tells
/// whether the count is at fault, or which triangle is the first to lack a
/// coordinate.
pub fn read_layout(text: &[u8]) -> (r: Result<Vec<TriangleText>, MeshError>)
    ensures
        match r {
            Ok(triangles) => {
                &&& count_of(text@) == Some(triangles@.len())
                &&& forall|k: int|
                    0 <= k < triangles@.len() ==> triangle_at(text@, k as nat) == Some(
                        #[trigger] triangles@[k],
                    )
                &&& forall|k: int|
                    0 <= k < triangles@.len() ==> triangle_is_words(text@, #[trigger] triangles@[k])
            },
            Err(MeshError::Count) => count_of(text@) is None,
            Err(MeshError::Vertex(k)) => {
                &&& count_of(text@) matches Some(n) && k < n
                &&& triangle_at(text@, k as nat) is None
                &&& forall|j: int| 0 <= j < k ==> (#[trigger] triangle_at(text@, j as nat)) is Some
            },
        },
{
    let n: usize = match read_count(text) {
        Some(n) => n,
        None => {
            return Err(MeshError::Count);
        },
    };
    let mut triangles: Vec<TriangleText> = Vec::new();
    let mut pos: usize = step_line(text, 0);
    let mut k: usize = 0;
    assert(line_start(text@, 1) == next_line(text@, line_start(text@, 0)));
    while k < n
        invariant
            k <= n,
            count_of(text@) == Some(n as nat),
            pos <= text@.len(),
            pos == line_start(text@, (1 + 3 * k) as nat),
            triangles@.len() == k,
            forall|j: int|
                0 <= j < k ==> triangle_at(text@, j as nat) == Some(#[trigger] triangles@[j]),
            forall|j: int| 0 <= j < k ==> triangle_is_words(text@, #[trigger] triangles@[j]),
        decreases n - k,
    {
        let ghost base: nat = (1 + 3 * k) as nat;
        assert(line_start(text@, base + 1) == next_line(text@, line_start(text@, base)));
        assert(line_start(text@, base + 2) == next_line(text@, line_start(text@, base + 1)));
        assert(line_start(text@, base + 3) == next_line(text@, line_start(text@, base + 2)));
        assert(vertex_line(k as nat, 0) == base);
        assert(vertex_line(k as nat, 1) == base + 1);
        assert(vertex_line(k as nat, 2) == base + 2);
        let la: usize = pos;
        let a: Option<VertexText> = vertex_spans(text, la, find_line_end(text, la));
        let lb: usize = step_line(text, la);
        let b: Option<VertexText> = vertex_spans(text, lb, find_line_end(text, lb));
        let lc: usize = step_line(text, lb);
        let c: Option<VertexText> = vertex_spans(text, lc, find_line_end(text, lc));
        assert(a == vertex_at(text@, k as nat, 0));
        assert(b == vertex_at(text@, k as nat, 1));
        assert(c == vertex_at(text@, k as nat, 2));
        match (a, b, c) {
            (Some(a), Some(b), Some(c)) => {
                triangles.push(TriangleText { a, b, c });
            },
            _ => {
                assert forall|j: int| 0 <= j < k implies (#[trigger] triangle_at(
                    text@,
                    j as nat,
                )) is Some by {
                    assert(triangle_at(text@, j as nat) == Some(triangles@[j]));
                }
                return Err(MeshError::Vertex(k));
            },
        }
        pos = step_line(text, lc);
        k = k + 1;
    }
    Ok(triangles)
}

} // verus!
