//! The match-overlay engine: decodes a raw line's embedded style escapes
//! into base spans, finds every pattern's match ranges in the plain text,
//! and sweeps them into a single non-overlapping list of styled spans.

use vstd::prelude::*;
use crate::pattern::{find_in, match_ranges_of, Pattern};

verus! {

/// The declaration of `ratatui::style::Style`, so a base style decoded from
/// a line's escape sequences can be carried through the engine. The value is
/// opaque: the engine copies it, never inspects it.
#[verifier::external_type_specification]
#[verifier::external_body]
pub struct ExStyle(ratatui::style::Style);

/// Relies on `ratatui::style::Style`'s derived `Clone` (the type is `Copy`):
/// cloning returns the same value.
pub assume_specification[ <ratatui::style::Style as Clone>::clone ](
    s: &ratatui::style::Style,
) -> (r: ratatui::style::Style)
    ensures
        r == *s,
;

/// Number of distinct display colors in the palette; pattern colors cycle
/// through it by list position.
pub const PALETTE_LEN: usize = 10;

/// Palette slot for the pattern at list position `i`.
pub open spec fn spec_color(i: usize) -> usize {
    i % PALETTE_LEN
}

/// Palette slot shown for the pattern at `index` in the pattern list.
pub fn pattern_color(index: usize) -> (r: usize)
    ensures
        r == spec_color(index),
        r < PALETTE_LEN,
{
    index % PALETTE_LEN
}

/// One styled segment of a rendered line: its bytes, the base style decoded
/// from the line's own escape sequences, and the palette slot of the pattern
/// that claimed it, if any.
pub struct Span {
    /// The segment's bytes.
    pub text: Vec<u8>,
    /// The base style the segment carried in the source line.
    pub style: ratatui::style::Style,
    /// Palette slot overriding the foreground color, for a matched segment.
    pub color: Option<usize>,
}

/// One rendered byte with the style and overlay color it is shown with;
/// the unit the engine's contracts are stated over.
pub struct Cell {
    /// The byte.
    pub byte: u8,
    /// Its base style.
    pub style: ratatui::style::Style,
    /// Its overlay palette slot, if a pattern claimed it.
    pub color: Option<usize>,
}

/// The cells of one span: each of its bytes under the span's style and color.
pub open spec fn span_cells(s: Span) -> Seq<Cell> {
    s.text@.map(|i: int, b: u8| Cell { byte: b, style: s.style, color: s.color })
}

/// The cells of a span list, in order.
pub open spec fn cells(spans: Seq<Span>) -> Seq<Cell>
    decreases spans.len(),
{
    if spans.len() == 0 {
        Seq::empty()
    } else {
        cells(spans.drop_last()) + span_cells(spans.last())
    }
}

/// The bytes of a cell sequence: the visible text, styles stripped.
pub open spec fn bytes_of(cs: Seq<Cell>) -> Seq<u8> {
    cs.map(|i: int, c: Cell| c.byte)
}

/// Appending one span appends its cells.
pub proof fn lemma_cells_push(spans: Seq<Span>, s: Span)
    ensures
        cells(spans.push(s)) == cells(spans) + span_cells(s),
{
    assert(spans.push(s).drop_last() =~= spans);
    assert(spans.push(s).last() == s);
}

/// `bytes_of` distributes over concatenation.
pub proof fn lemma_bytes_of_add(x: Seq<Cell>, y: Seq<Cell>)
    ensures
        bytes_of(x + y) == bytes_of(x) + bytes_of(y),
{
    assert(bytes_of(x + y) =~= bytes_of(x) + bytes_of(y));
}

/// The visible text of a raw line once its embedded style escapes are
/// decoded: a function of the line's bytes alone.
pub uninterp spec fn ansi_plain_of(line: Seq<u8>) -> Seq<u8>;

/// Relies on `ansi_to_tui::IntoText::into_text`: decoding a line's ANSI
/// style escapes yields styled spans whose concatenated contents are the
/// line's visible text, a function of the input bytes alone. The first
/// decoded line is used (input lines carry no newline); when decoding fails
/// the whole raw line is kept as one unstyled span.
#[verifier::external_body]
fn decode_ansi(line: &Vec<u8>) -> (r: Vec<Span>)
    ensures
        bytes_of(cells(r@)) == ansi_plain_of(line@),
        forall|j: int| 0 <= j < r@.len() ==> (#[trigger] r@[j]).color is None,
{
    match ansi_to_tui::IntoText::into_text(line) {
        Ok(text) => match text.lines.into_iter().next() {
            Some(l) => l
                .spans
                .into_iter()
                .map(|sp| Span { text: sp.content.into_owned().into_bytes(), style: sp.style, color: None })
                .collect(),
            None => Vec::new(),
        },
        Err(_) => vec![Span { text: line.clone(), style: ratatui::style::Style::default(), color: None }],
    }
}

/// Concatenates the spans' bytes: the plain visible text of the line.
pub fn line_plain_text(spans: &Vec<Span>) -> (r: Vec<u8>)
    ensures
        r@ == bytes_of(cells(spans@)),
{
    let mut out: Vec<u8> = Vec::new();
    let mut i: usize = 0;
    while i < spans.len()
        invariant
            0 <= i <= spans@.len(),
            out@ == bytes_of(cells(spans@.take(i as int))),
        decreases spans@.len() - i,
    {
        out.extend_from_slice(spans[i].text.as_slice());
        proof {
            let pre = spans@.take(i as int);
            let sp = spans@[i as int];
            assert(spans@.take(i + 1).drop_last() =~= pre);
            assert(spans@.take(i + 1).last() == sp);
            lemma_bytes_of_add(cells(pre), span_cells(sp));
            assert(bytes_of(span_cells(sp)) =~= sp.text@);
        }
        i += 1;
    }
    proof {
        assert(spans@.take(spans@.len() as int) =~= spans@);
    }
    out
}

/// One tagged match: a byte range of the plain text claimed by the pattern
/// at `index` in the list.
#[derive(Clone, Copy, Debug, PartialEq, Eq, Structural)]
pub struct MatchRange {
    /// First byte of the match.
    pub start: usize,
    /// One past the last byte of the match.
    pub end: usize,
    /// Position of the matching pattern in the pattern list.
    pub index: usize,
}

/// The non-empty ranges of one pattern's match list, tagged with the
/// pattern's position.
pub open spec fn tag_ranges(rs: Seq<(usize, usize)>, idx: usize) -> Seq<MatchRange>
    decreases rs.len(),
{
    if rs.len() == 0 {
        Seq::empty()
    } else {
        tag_ranges(rs.drop_last(), idx) + if rs.last().0 < rs.last().1 {
            seq![MatchRange { start: rs.last().0, end: rs.last().1, index: idx }]
        } else {
            Seq::empty()
        }
    }
}

/// Every pattern's non-empty match ranges in `text`, tagged with the
/// pattern's position, patterns in list order.
pub open spec fn all_ranges(patterns: Seq<Pattern>, text: Seq<u8>) -> Seq<MatchRange>
    decreases patterns.len(),
{
    if patterns.len() == 0 {
        Seq::empty()
    } else {
        all_ranges(patterns.drop_last(), text) + tag_ranges(
            match_ranges_of(
                patterns.last().spec_text(),
                patterns.last().spec_case_sensitive(),
                text,
            ),
            (patterns.len() - 1) as usize,
        )
    }
}

/// A range fits the plain text and is non-empty, and its tag points into the
/// pattern list.
pub open spec fn range_valid(r: MatchRange, text_len: int, n_patterns: int) -> bool {
    r.start < r.end <= text_len && r.index < n_patterns
}

/// Collects every pattern's non-empty match ranges in `text`, tagged with
/// the pattern's position.
pub fn find_ranges(patterns: &Vec<Pattern>, text: &Vec<u8>) -> (r: Vec<MatchRange>)
    ensures
        r@ == all_ranges(patterns@, text@),
        forall|k: int|
            0 <= k < r@.len() ==> range_valid(
                #[trigger] r@[k],
                text@.len() as int,
                patterns@.len() as int,
            ),
{
    let mut out: Vec<MatchRange> = Vec::new();
    let mut i: usize = 0;
    while i < patterns.len()
        invariant
            0 <= i <= patterns@.len(),
            out@ == all_ranges(patterns@.take(i as int), text@),
            forall|k: int|
                0 <= k < out@.len() ==> range_valid(
                    #[trigger] out@[k],
                    text@.len() as int,
                    patterns@.len() as int,
                ),
        decreases patterns@.len() - i,
    {
        let found = find_in(&patterns[i], text);
        let ghost mrs = match_ranges_of(
            patterns@[i as int].spec_text(),
            patterns@[i as int].spec_case_sensitive(),
            text@,
        );
        let mut j: usize = 0;
        while j < found.len()
            invariant
                0 <= j <= found@.len(),
                found@ == mrs,
                forall|k: int| 0 <= k < found@.len() ==> #[trigger] found@[k].0 <= found@[k].1
                    <= text@.len(),
                i < patterns@.len(),
                out@ == all_ranges(patterns@.take(i as int), text@) + tag_ranges(
                    mrs.take(j as int),
                    i,
                ),
                forall|k: int|
                    0 <= k < out@.len() ==> range_valid(
                        #[trigger] out@[k],
                        text@.len() as int,
                        patterns@.len() as int,
                    ),
            decreases found@.len() - j,
        {
            let (s, e) = found[j];
            proof {
                assert(mrs.take(j + 1).drop_last() =~= mrs.take(j as int));
                assert(mrs.take(j + 1).last() == mrs[j as int]);
            }
            if s < e {
                out.push(MatchRange { start: s, end: e, index: i });
            }
            proof {
                assert(out@ =~= all_ranges(patterns@.take(i as int), text@) + tag_ranges(
                    mrs.take(j + 1),
                    i,
                ));
            }
            j += 1;
        }
        proof {
            assert(mrs.take(mrs.len() as int) =~= mrs);
            assert(patterns@.take(i + 1).drop_last() =~= patterns@.take(i as int));
            assert(patterns@.take(i + 1).last() == patterns@[i as int]);
            assert(out@ =~= all_ranges(patterns@.take(i + 1), text@));
        }
        i += 1;
    }
    proof {
        assert(patterns@.take(patterns@.len() as int) =~= patterns@);
    }
    out
}

/// Range order for the sweep: by start, then by pattern position, then by
/// end; a total order on tagged ranges.
pub open spec fn range_le(x: MatchRange, y: MatchRange) -> bool {
    ||| x.start < y.start
    ||| (x.start == y.start && x.index < y.index)
    ||| (x.start == y.start && x.index == y.index && x.end <= y.end)
}

/// Sorted under `range_le`.
pub open spec fn ranges_sorted(rs: Seq<MatchRange>) -> bool {
    forall|u: int, v: int| 0 <= u < v < rs.len() ==> range_le(#[trigger] rs[u], #[trigger] rs[v])
}

/// `range_le` is a total order.
pub proof fn lemma_range_le_total()
    ensures
        vstd::relations::total_ordering(|x: MatchRange, y: MatchRange| range_le(x, y)),
{
}

/// Sorts tagged ranges by `range_le`; the result is exactly the
/// specification-level sort of the input.
pub fn sort_ranges(rs: Vec<MatchRange>) -> (out: Vec<MatchRange>)
    ensures
        out@ == rs@.sort_by(|x: MatchRange, y: MatchRange| range_le(x, y)),
        ranges_sorted(out@),
        out@.to_multiset() == rs@.to_multiset(),
{
    broadcast use vstd::seq_lib::group_to_multiset_ensures;

    let mut out: Vec<MatchRange> = Vec::new();
    let mut i: usize = 0;
    while i < rs.len()
        invariant
            0 <= i <= rs@.len(),
            ranges_sorted(out@),
            out@.to_multiset() == rs@.take(i as int).to_multiset(),
        decreases rs@.len() - i,
    {
        let x = rs[i];
        let mut p: usize = 0;
        while p < out.len() && range_le_exec(&out[p], &x)
            invariant
                0 <= p <= out@.len(),
                forall|k: int| 0 <= k < p ==> range_le(#[trigger] out@[k], x),
        decreases out@.len() - p,
        {
            p += 1;
        }
        proof {
            let prev = out@;
            let inserted = prev.insert(p as int, x);
            assert forall|u: int, v: int| 0 <= u < v < inserted.len() implies range_le(
                inserted[u],
                inserted[v],
            ) by {
                if v < p {
                    assert(inserted[u] == prev[u]);
                    assert(inserted[v] == prev[v]);
                } else if u > p {
                    assert(inserted[u] == prev[u - 1]);
                    assert(inserted[v] == prev[v - 1]);
                } else if u < p && v == p {
                    assert(inserted[u] == prev[u]);
                    assert(inserted[v] == x);
                } else if u < p && v > p {
                    assert(inserted[u] == prev[u]);
                    assert(inserted[v] == prev[v - 1]);
                    if p < prev.len() {
                        assert(range_le(prev[u], prev[v - 1]));
                    }
                } else {
                    assert(u == p && v > p);
                    assert(inserted[u] == x);
                    assert(inserted[v] == prev[v - 1]);
                    assert(p < prev.len());
                    assert(!range_le(prev[p as int], x));
                    assert(range_le(x, prev[p as int]));
                    if v - 1 > p {
                        assert(range_le(prev[p as int], prev[v - 1]));
                    }
                }
            }
            vstd::seq_lib::to_multiset_insert(prev, p as int, x);
            vstd::seq_lib::to_multiset_build(rs@.take(i as int), x);
            assert(inserted.to_multiset() == prev.to_multiset().insert(x));
            assert(rs@.take(i + 1) =~= rs@.take(i as int).push(x));
        }
        out.insert(p, x);
        i += 1;
    }
    proof {
        let rle = |x: MatchRange, y: MatchRange| range_le(x, y);
        assert(rs@.take(rs@.len() as int) =~= rs@);
        lemma_range_le_total();
        assert(vstd::relations::sorted_by(out@, rle));
        rs@.lemma_sort_by_ensures(rle);
        vstd::seq_lib::lemma_sorted_unique(out@, rs@.sort_by(rle), rle);
    }
    out
}

/// Executable comparison matching `range_le`.
fn range_le_exec(x: &MatchRange, y: &MatchRange) -> (r: bool)
    ensures
        r == range_le(*x, *y),
{
    x.start < y.start || (x.start == y.start && x.index < y.index) || (x.start == y.start
        && x.index == y.index && x.end <= y.end)
}

/// `cells` distributes over concatenation.
pub proof fn lemma_cells_add(x: Seq<Span>, y: Seq<Span>)
    ensures
        cells(x + y) == cells(x) + cells(y),
    decreases y.len(),
{
    if y.len() == 0 {
        assert(x + y =~= x);
        assert(cells(x) + cells(y) =~= cells(x));
    } else {
        lemma_cells_add(x, y.drop_last());
        assert((x + y).drop_last() =~= x + y.drop_last());
        assert((x + y).last() == y.last());
        assert(cells(x) + (cells(y.drop_last()) + span_cells(y.last())) =~= (cells(x) + cells(
            y.drop_last(),
        )) + span_cells(y.last()));
    }
}

/// One more span extends the cells of a prefix by that span's cells.
pub proof fn lemma_cells_take_succ(spans: Seq<Span>, k: int)
    requires
        0 <= k < spans.len(),
    ensures
        cells(spans.take(k + 1)) == cells(spans.take(k)) + span_cells(spans[k]),
{
    assert(spans.take(k + 1).drop_last() =~= spans.take(k));
    assert(spans.take(k + 1).last() == spans[k]);
}

/// A prefix's cells are a prefix of the whole list's cells.
pub proof fn lemma_cells_prefix(spans: Seq<Span>, k: int)
    requires
        0 <= k <= spans.len(),
    ensures
        cells(spans.take(k)).len() <= cells(spans).len(),
        forall|j: int|
            0 <= j < cells(spans.take(k)).len() ==> cells(spans)[j] == #[trigger] cells(
                spans.take(k),
            )[j],
    decreases spans.len() - k,
{
    if k == spans.len() {
        assert(spans.take(k) =~= spans);
    } else {
        lemma_cells_prefix(spans, k + 1);
        lemma_cells_take_succ(spans, k);
        assert forall|j: int| 0 <= j < cells(spans.take(k)).len() implies cells(spans)[j]
            == cells(spans.take(k))[j] by {
            assert(cells(spans.take(k + 1))[j] == cells(spans.take(k))[j]);
            assert(cells(spans)[j] == cells(spans.take(k + 1))[j]);
        }
    }
}

/// When every span is uncolored, so is every cell.
pub proof fn lemma_cells_color_none(spans: Seq<Span>)
    requires
        forall|j: int| 0 <= j < spans.len() ==> (#[trigger] spans[j]).color is None,
    ensures
        forall|t: int| 0 <= t < cells(spans).len() ==> (#[trigger] cells(spans)[t]).color is None,
    decreases spans.len(),
{
    if spans.len() > 0 {
        assert(forall|j: int|
            0 <= j < spans.drop_last().len() ==> (#[trigger] spans.drop_last()[j]).color
                is None);
        lemma_cells_color_none(spans.drop_last());
    }
}

/// Copies the bytes `[s, e)` of `src`.
fn copy_byte_range(src: &Vec<u8>, s: usize, e: usize) -> (out: Vec<u8>)
    requires
        s <= e <= src@.len(),
    ensures
        out@ == src@.subrange(s as int, e as int),
{
    let mut out: Vec<u8> = Vec::new();
    let mut q: usize = s;
    while q < e
        invariant
            s <= q <= e <= src@.len(),
            out@ == src@.subrange(s as int, q as int),
        decreases e - q,
    {
        out.push(src[q]);
        proof {
            assert(src@.subrange(s as int, q + 1) =~= src@.subrange(s as int, q as int).push(
                src@[q as int],
            ));
        }
        q += 1;
    }
    out
}

/// Copies the cells `[start, end)` of `base` into fresh spans, split at the
/// same base-span boundaries, keeping each cell's byte and style; `color`,
/// when given, replaces every copied cell's overlay color.
pub fn slice_spans(base: &Vec<Span>, start: usize, end: usize, color: Option<usize>) -> (out: Vec<
    Span,
>)
    requires
        start <= end <= cells(base@).len() <= usize::MAX,
    ensures
        cells(out@).len() == end - start,
        forall|t: int|
            0 <= t < end - start ==> {
                let oc = #[trigger] cells(out@)[t];
                let bc = cells(base@)[start + t];
                oc.byte == bc.byte && oc.style == bc.style && oc.color == (if color is Some {
                    color
                } else {
                    bc.color
                })
            },
{
    let ghost target = cells(base@);
    let mut out: Vec<Span> = Vec::new();
    let mut offset: usize = 0;
    let mut k: usize = 0;
    while k < base.len() && offset < end
        invariant
            start <= end <= target.len() <= usize::MAX,
            target == cells(base@),
            0 <= k <= base@.len(),
            offset == cells(base@.take(k as int)).len(),
            cells(out@).len() == (if offset <= start {
                0int
            } else if offset >= end {
                end - start
            } else {
                offset - start
            }),
            forall|t: int|
                0 <= t < cells(out@).len() ==> {
                    let oc = #[trigger] cells(out@)[t];
                    let bc = target[start + t];
                    oc.byte == bc.byte && oc.style == bc.style && oc.color == (if color
                        is Some {
                        color
                    } else {
                        bc.color
                    })
                },
        decreases base@.len() - k,
    {
        let ghost pre_out = out@;
        let ghost pre_off = offset as int;
        let len = base[k].text.len();
        proof {
            lemma_cells_take_succ(base@, k as int);
            lemma_cells_prefix(base@, k + 1);
            assert(cells(base@.take(k + 1)).len() == pre_off + len);
            assert(pre_off + len <= target.len());
        }
        if offset + len > start {
            let s = if start > offset {
                start - offset
            } else {
                0
            };
            let e = if end < offset + len {
                end - offset
            } else {
                len
            };
            let piece = copy_byte_range(&base[k].text, s, e);
            let piece_color = match color {
                Some(c) => Some(c),
                None => base[k].color,
            };
            let span = Span { text: piece, style: base[k].style.clone(), color: piece_color };
            proof {
                lemma_cells_push(out@, span);
            }
            out.push(span);
            proof {
                let sc = span_cells(base@[k as int]);
                let pre_len = cells(pre_out).len() as int;
                assert(cells(out@) == cells(pre_out) + span_cells(span));
                assert(span_cells(span).len() == e - s);
                assert forall|t: int| 0 <= t < cells(out@).len() implies {
                    let oc = #[trigger] cells(out@)[t];
                    let bc = target[start + t];
                    oc.byte == bc.byte && oc.style == bc.style && oc.color == (if color
                        is Some {
                        color
                    } else {
                        bc.color
                    })
                } by {
                    if t < pre_len {
                        assert(cells(out@)[t] == cells(pre_out)[t]);
                    } else {
                        let tp = t - pre_len;
                        assert(cells(out@)[t] == span_cells(span)[tp]);
                        assert(span_cells(span)[tp].byte == span.text@[tp]);
                        assert(span.text@[tp] == base@[k as int].text@[s + tp]);
                        assert(start + t == pre_off + s + tp);
                        assert(target[pre_off + s + tp] == cells(base@.take(k + 1))[pre_off + s
                            + tp]);
                        assert(cells(base@.take(k + 1))[pre_off + s + tp] == sc[s + tp]);
                        assert(sc[s + tp].byte == base@[k as int].text@[s + tp]);
                        assert(sc[s + tp].style == base@[k as int].style);
                        assert(sc[s + tp].color == base@[k as int].color);
                    }
                }
            }
        }
        offset = offset + len;
        k += 1;
    }
    proof {
        if k == base@.len() {
            assert(base@.take(k as int) =~= base@);
        }
    }
    out
}

/// Whether range `r` claims byte position `t`.
pub open spec fn covers(r: MatchRange, t: int) -> bool {
    r.start <= t < r.end
}

/// The overlay color the sweep gives byte `t`: the color of the first range
/// in `rs` that covers `t`, or none.
pub open spec fn sweep_color(rs: Seq<MatchRange>, t: int) -> Option<usize>
    decreases rs.len(),
{
    if rs.len() == 0 {
        None
    } else if covers(rs[0], t) {
        Some(spec_color(rs[0].index))
    } else {
        sweep_color(rs.drop_first(), t)
    }
}

/// A byte no range covers gets no overlay color.
pub proof fn lemma_sweep_none(rs: Seq<MatchRange>, t: int)
    requires
        forall|j: int| 0 <= j < rs.len() ==> !covers(#[trigger] rs[j], t),
    ensures
        sweep_color(rs, t) is None,
    decreases rs.len(),
{
    if rs.len() > 0 {
        assert(forall|j: int|
            0 <= j < rs.drop_first().len() ==> rs.drop_first()[j] == #[trigger] rs[j + 1]);
        lemma_sweep_none(rs.drop_first(), t);
    }
}

/// The first covering range decides the color.
pub proof fn lemma_sweep_hit(rs: Seq<MatchRange>, k: int, t: int)
    requires
        0 <= k < rs.len(),
        forall|j: int| 0 <= j < k ==> !covers(#[trigger] rs[j], t),
        covers(rs[k], t),
    ensures
        sweep_color(rs, t) == Some(spec_color(rs[k].index)),
    decreases k,
{
    if k > 0 {
        assert(forall|j: int|
            0 <= j < rs.drop_first().len() ==> rs.drop_first()[j] == #[trigger] rs[j + 1]);
        assert(rs.drop_first()[k - 1] == rs[k]);
        lemma_sweep_hit(rs.drop_first(), k - 1, t);
    }
}

/// How one output cell relates to its base cell: byte and style are kept,
/// and the overlay color is the sweep's choice for that position, falling
/// back to the base cell's own color where no range covers it.
pub open spec fn cell_target(oc: Cell, bc: Cell, rs: Seq<MatchRange>, t: int) -> bool {
    &&& oc.byte == bc.byte
    &&& oc.style == bc.style
    &&& oc.color == (match sweep_color(rs, t) {
        Some(c) => Some(c),
        None => bc.color,
    })
}

/// Sweeps the sorted ranges over the base spans: every byte keeps its base
/// style, and each byte covered by some range is colored by the first range
/// in `rs` that covers it.
pub fn compose(base: &Vec<Span>, rs: &Vec<MatchRange>, total: usize) -> (out: Vec<Span>)
    requires
        ranges_sorted(rs@),
        total == cells(base@).len(),
        forall|j: int| 0 <= j < rs@.len() ==> (#[trigger] rs@[j]).start < rs@[j].end <= total,
    ensures
        cells(out@).len() == cells(base@).len(),
        forall|t: int|
            0 <= t < cells(base@).len() ==> cell_target(
                #[trigger] cells(out@)[t],
                cells(base@)[t],
                rs@,
                t,
            ),
{
    let ghost target = cells(base@);
    let mut out: Vec<Span> = Vec::new();
    let mut cursor: usize = 0;
    let mut k: usize = 0;
    while k < rs.len()
        invariant
            ranges_sorted(rs@),
            total == cells(base@).len(),
            forall|j: int| 0 <= j < rs@.len() ==> (#[trigger] rs@[j]).start < rs@[j].end
                <= total,
            target == cells(base@),
            0 <= k <= rs@.len(),
            cursor <= total,
            cells(out@).len() == cursor,
            forall|t: int|
                0 <= t < cursor ==> cell_target(#[trigger] cells(out@)[t], target[t], rs@, t),
            forall|j: int| 0 <= j < k ==> (#[trigger] rs@[j]).end <= cursor,
        decreases rs@.len() - k,
    {
        let r = rs[k];
        if r.end > cursor {
            let s = if r.start < cursor {
                cursor
            } else {
                r.start
            };
            if cursor < s {
                let ghost pre = out@;
                let mut gap = slice_spans(base, cursor, s, None);
                let ghost gap_v = gap@;
                proof {
                    lemma_cells_add(pre, gap_v);
                }
                out.append(&mut gap);
                proof {
                    assert forall|t: int| cursor <= t < s implies cell_target(
                        cells(out@)[t],
                        target[t],
                        rs@,
                        t,
                    ) by {
                        assert(cells(out@) == cells(pre) + cells(gap_v));
                        assert(cells(out@)[t] == cells(gap_v)[t - cursor]);
                        assert forall|j: int| 0 <= j < rs@.len() implies !covers(
                            #[trigger] rs@[j],
                            t,
                        ) by {
                            if j < k {
                            } else {
                                assert(range_le(rs@[k as int], rs@[j]) || j == k);
                                assert(rs@[j].start >= rs@[k as int].start);
                            }
                        }
                        lemma_sweep_none(rs@, t);
                    }
                }
            }
            let ghost pre2 = out@;
            let mut piece = slice_spans(base, s, r.end, Some(pattern_color(r.index)));
            let ghost piece_v = piece@;
            proof {
                lemma_cells_add(pre2, piece_v);
            }
            out.append(&mut piece);
            proof {
                assert forall|t: int| s <= t < r.end implies cell_target(
                    cells(out@)[t],
                    target[t],
                    rs@,
                    t,
                ) by {
                    assert(cells(out@) == cells(pre2) + cells(piece_v));
                    assert(cells(out@)[t] == cells(piece_v)[t - s]);
                    assert(covers(rs@[k as int], t));
                    lemma_sweep_hit(rs@, k as int, t);
                }
                assert(forall|t: int|
                    0 <= t < cells(pre2).len() ==> cells(out@)[t] == #[trigger] cells(pre2)[t]);
            }
            cursor = r.end;
        }
        k += 1;
    }
    if cursor < total {
        let ghost pre3 = out@;
        let mut tail = slice_spans(base, cursor, total, None);
        let ghost tail_v = tail@;
        proof {
            lemma_cells_add(pre3, tail_v);
        }
        out.append(&mut tail);
        proof {
            assert forall|t: int| cursor <= t < total implies cell_target(
                cells(out@)[t],
                target[t],
                rs@,
                t,
            ) by {
                assert(cells(out@) == cells(pre3) + cells(tail_v));
                assert(cells(out@)[t] == cells(tail_v)[t - cursor]);
                lemma_sweep_none(rs@, t);
            }
        }
    }
    out
}


/// The sorted tagged ranges the engine sweeps for `line` under `patterns`.
pub open spec fn sorted_ranges_of(patterns: Seq<Pattern>, line: Seq<u8>) -> Seq<MatchRange> {
    all_ranges(patterns, ansi_plain_of(line)).sort_by(
        |x: MatchRange, y: MatchRange| range_le(x, y),
    )
}

/// Renders one raw line under the pattern list: decodes its style escapes,
/// finds every pattern's matches in the visible text, and returns styled
/// spans whose bytes are exactly the visible text, each byte colored by the
/// first range of the sorted match list that covers it.
pub fn highlight_line(line: &Vec<u8>, patterns: &Vec<Pattern>) -> (out: Vec<Span>)
    ensures
        bytes_of(cells(out@)) == ansi_plain_of(line@),
        forall|t: int|
            0 <= t < cells(out@).len() ==> (#[trigger] cells(out@)[t]).color == sweep_color(
                sorted_ranges_of(patterns@, line@),
                t,
            ),
{
    broadcast use vstd::seq_lib::group_to_multiset_ensures;

    let base = decode_ansi(line);
    let plain = line_plain_text(&base);
    let found = find_ranges(patterns, &plain);
    let ghost rle = |x: MatchRange, y: MatchRange| range_le(x, y);
    let sorted = sort_ranges(found);
    proof {
        assert forall|j: int| 0 <= j < sorted@.len() implies range_valid(
            #[trigger] sorted@[j],
            plain@.len() as int,
            patterns@.len() as int,
        ) by {
            assert(sorted@.contains(sorted@[j]));
            assert(sorted@.to_multiset().count(sorted@[j]) > 0);
            assert(found@.contains(sorted@[j]));
            let w = choose|w: int| 0 <= w < found@.len() && found@[w] == sorted@[j];
            assert(range_valid(found@[w], plain@.len() as int, patterns@.len() as int));
        }
        assert(cells(base@).len() == plain@.len());
    }
    let total = plain.len();
    let out = compose(&base, &sorted, total);
    proof {
        assert(bytes_of(cells(out@)) =~= bytes_of(cells(base@)));
        lemma_cells_color_none(base@);
        assert forall|t: int| 0 <= t < cells(out@).len() implies (#[trigger] cells(out@)[t]).color
            == sweep_color(sorted_ranges_of(patterns@, line@), t) by {
            assert(cell_target(cells(out@)[t], cells(base@)[t], sorted@, t));
            assert(cells(base@)[t].color is None);
        }
    }
    out
}

/// Whether any active pattern matches somewhere in the raw line; the
/// predicate behind the optional filter-only mode, applied before
/// highlighting.
pub fn line_matches_patterns(line: &Vec<u8>, patterns: &Vec<Pattern>) -> (r: bool)
    ensures
        r == exists|j: int|
            0 <= j < patterns@.len() && match_ranges_of(
                (#[trigger] patterns@[j]).spec_text(),
                patterns@[j].spec_case_sensitive(),
                line@,
            ).len() > 0,
{
    let mut i: usize = 0;
    while i < patterns.len()
        invariant
            0 <= i <= patterns@.len(),
            forall|j: int|
                0 <= j < i ==> match_ranges_of(
                    (#[trigger] patterns@[j]).spec_text(),
                    patterns@[j].spec_case_sensitive(),
                    line@,
                ).len() == 0,
        decreases patterns@.len() - i,
    {
        if patterns[i].is_match(line) {
            return true;
        }
        i += 1;
    }
    false
}

/// Law: the output spans of a line tile its cells — the spans' lengths sum
/// to the whole, each span covers exactly the stretch after the spans before
/// it, with no gap and no overlap.
pub proof fn lemma_spans_partition(spans: Seq<Span>, k: int)
    requires
        0 <= k < spans.len(),
    ensures
        cells(spans.take(k)).len() + spans[k].text@.len() == cells(spans.take(k + 1)).len(),
        cells(spans.take(k + 1)).len() <= cells(spans).len(),
        forall|t: int|
            0 <= t < spans[k].text@.len() ==> cells(spans)[cells(spans.take(k)).len() + t]
                == #[trigger] span_cells(spans[k])[t],
{
    lemma_cells_take_succ(spans, k);
    lemma_cells_prefix(spans, k + 1);
    assert forall|t: int| 0 <= t < spans[k].text@.len() implies cells(spans)[cells(
        spans.take(k),
    ).len() + t] == #[trigger] span_cells(spans[k])[t] by {
        assert(cells(spans.take(k + 1))[cells(spans.take(k)).len() + t] == span_cells(
            spans[k],
        )[t]);
        assert(cells(spans)[cells(spans.take(k)).len() + t] == cells(spans.take(k + 1))[cells(
            spans.take(k),
        ).len() + t]);
    }
}

/// Law: on a byte covered by several match ranges, the first covering range
/// of the sorted list wins, and it is least under `range_le` among all
/// covering ranges — earliest start first, then the earliest-registered
/// pattern.
pub proof fn lemma_earlier_pattern_wins(rs: Seq<MatchRange>, k: int, t: int)
    requires
        ranges_sorted(rs),
        0 <= k < rs.len(),
        covers(rs[k], t),
        forall|j: int| 0 <= j < k ==> !covers(#[trigger] rs[j], t),
    ensures
        sweep_color(rs, t) == Some(spec_color(rs[k].index)),
        forall|j: int| 0 <= j < rs.len() && covers(#[trigger] rs[j], t) ==> range_le(rs[k], rs[j]),
{
    lemma_sweep_hit(rs, k, t);
    assert forall|j: int| 0 <= j < rs.len() && covers(#[trigger] rs[j], t) implies range_le(
        rs[k],
        rs[j],
    ) by {
        if j < k {
            assert(!covers(rs[j], t));
        } else if j == k {
        } else {
            assert(range_le(rs[k], rs[j]));
        }
    }
}

} // verus!
