//! Soft-wrap: reflow styled segments into width-bounded sub-lines measured
//! in display columns.
use vstd::prelude::*;

use crate::preview_doc::line_view;
use crate::preview_doc::seg_view;
use crate::preview_doc::lines_view;
use crate::preview_doc::SegmentStyle;
use crate::preview_doc::StyledPreviewLine;
use crate::preview_doc::StyledPreviewSegment;
use crate::text::chars_of;
use crate::text::string_from_chars;

verus! {

/// The display width of one character: a function of the character alone.
pub uninterp spec fn char_display_width(c: char) -> usize;

/// Relies on `unicode_width::UnicodeWidthChar::width`: the displayed column
/// width of a character, `None` for a control character; never more than
/// three columns, the crate's documented single-character maximum.
#[verifier::external_body]
pub fn display_width(c: char) -> (r: Option<usize>)
    ensures
        match r {
            Some(w) => w == char_display_width(c) && w <= 3,
            None => char_display_width(c) == 0,
        },
{
    unicode_width::UnicodeWidthChar::width(c)
}

/// The effective width of one character: its display width, a control
/// character counting as zero columns.
pub fn effective_width(c: char) -> (r: usize)
    ensures
        r == char_display_width(c),
        r <= 3,
{
    match display_width(c) {
        Some(w) => w,
        None => 0,
    }
}

/// A guard on the wrap width so column arithmetic stays inside a machine
/// word even for absurd viewports.
pub const WRAP_WIDTH_CAP: usize = 0x4000_0000;

/// The wrap width actually used: at least one column, at most the guard.
pub open spec fn spec_wrap_width(width: int) -> int {
    if width < 1 {
        1
    } else if width > WRAP_WIDTH_CAP {
        WRAP_WIDTH_CAP as int
    } else {
        width
    }
}

/// The lines built so far, the line being filled, and its width.
pub struct WrapAcc {
    pub wrapped: Seq<Seq<(Seq<char>, SegmentStyle)>>,
    pub current: Seq<(Seq<char>, SegmentStyle)>,
    pub current_width: int,
}

/// A wrap state inside one span: the run of characters not yet emitted and
/// its width.
pub struct ChunkAcc {
    pub acc: WrapAcc,
    pub chunk: Seq<char>,
    pub chunk_width: int,
}

/// One character of a span folded into the wrap state: the pending line is
/// flushed when the character no longer fits, the character joins the run,
/// and a run that fills the line is emitted at once.
pub open spec fn spec_wrap_char(st: ChunkAcc, c: char, style: SegmentStyle, w: int) -> ChunkAcc {
    let cw = char_display_width(c) as int;
    let pending = st.acc.current_width + st.chunk_width + cw;
    let st1 = if pending > w && (st.acc.current_width > 0 || st.chunk_width > 0) {
        let cur = if st.chunk.len() > 0 {
            st.acc.current.push((st.chunk, style))
        } else {
            st.acc.current
        };
        ChunkAcc {
            acc: WrapAcc {
                wrapped: st.acc.wrapped.push(cur),
                current: Seq::empty(),
                current_width: 0,
            },
            chunk: Seq::empty(),
            chunk_width: 0,
        }
    } else {
        st
    };
    let st2 = ChunkAcc { chunk: st1.chunk.push(c), chunk_width: st1.chunk_width + cw, acc: st1.acc };
    if st2.acc.current_width + st2.chunk_width >= w {
        ChunkAcc {
            acc: WrapAcc {
                wrapped: st2.acc.wrapped.push(st2.acc.current.push((st2.chunk, style))),
                current: Seq::empty(),
                current_width: 0,
            },
            chunk: Seq::empty(),
            chunk_width: 0,
        }
    } else {
        st2
    }
}

/// A span's characters folded into the wrap state, in order.
pub open spec fn spec_wrap_chars(st: ChunkAcc, text: Seq<char>, style: SegmentStyle, w: int) -> ChunkAcc
    decreases text.len(),
{
    if text.len() == 0 {
        st
    } else {
        spec_wrap_chars(spec_wrap_char(st, text[0], style, w), text.drop_first(), style, w)
    }
}

/// One span folded into the wrap state; empty spans are dropped, and a run
/// left over at the span's end joins the line being filled.
pub open spec fn spec_wrap_span(acc: WrapAcc, seg: (Seq<char>, SegmentStyle), w: int) -> WrapAcc {
    if seg.0.len() == 0 {
        acc
    } else {
        let st = spec_wrap_chars(ChunkAcc { acc, chunk: Seq::empty(), chunk_width: 0 }, seg.0, seg.1, w);
        if st.chunk.len() > 0 {
            WrapAcc {
                wrapped: st.acc.wrapped,
                current: st.acc.current.push((st.chunk, seg.1)),
                current_width: st.acc.current_width + st.chunk_width,
            }
        } else {
            st.acc
        }
    }
}

/// Every span folded into the wrap state, in order.
pub open spec fn spec_wrap_spans(acc: WrapAcc, spans: Seq<(Seq<char>, SegmentStyle)>, w: int) -> WrapAcc
    decreases spans.len(),
{
    if spans.len() == 0 {
        acc
    } else {
        spec_wrap_span(spec_wrap_spans(acc, spans.drop_last(), w), spans.last(), w)
    }
}

/// What wrapping a line of styled spans yields: the emitted lines, the line
/// still being filled appended if it holds anything, and never no lines at
/// all.
pub open spec fn spec_wrap_styled_spans(spans: Seq<(Seq<char>, SegmentStyle)>, width: int) -> Seq<
    Seq<(Seq<char>, SegmentStyle)>,
> {
    let w = spec_wrap_width(width);
    let acc = spec_wrap_spans(
        WrapAcc { wrapped: Seq::empty(), current: Seq::empty(), current_width: 0 },
        spans,
        w,
    );
    let out = if acc.current.len() > 0 {
        acc.wrapped.push(acc.current)
    } else {
        acc.wrapped
    };
    if out.len() == 0 {
        seq![Seq::<(Seq<char>, SegmentStyle)>::empty()]
    } else {
        out
    }
}

/// Reflow one line of styled spans into sub-lines of at most `width`
/// display columns; a non-absent input line never wraps to no output lines,
/// no output run is empty, the characters are kept in order, and every
/// sub-line fits the width whenever every input character does.
pub fn wrap_styled_spans(spans: &StyledPreviewLine, width: usize) -> (r: Vec<StyledPreviewLine>)
    ensures
        lines_view(r@) == spec_wrap_styled_spans(line_view(*spans), width as int),
        r@.len() >= 1,
        spec_lines_chars(lines_view(r@)) == spec_line_chars(line_view(*spans)),
        spec_no_empty_segments(lines_view(r@)),
        spec_spans_fit(line_view(*spans), spec_wrap_width(width as int)) ==> spec_lines_fit(
            lines_view(r@),
            spec_wrap_width(width as int),
        ),
{
    proof {
        lemma_wrap_preserves_text(line_view(*spans), width as int);
        if spec_spans_fit(line_view(*spans), spec_wrap_width(width as int)) {
            lemma_wrap_lines_fit(line_view(*spans), width as int);
        }
    }
    let wrap_width: usize = if width < 1 {
        1
    } else if width > WRAP_WIDTH_CAP {
        WRAP_WIDTH_CAP
    } else {
        width
    };
    let ghost w = wrap_width as int;
    let ghost init = WrapAcc { wrapped: Seq::empty(), current: Seq::empty(), current_width: 0 };
    let mut wrapped: Vec<StyledPreviewLine> = Vec::new();
    let mut current: StyledPreviewLine = Vec::new();
    let mut current_width: usize = 0;
    let n = spans.len();
    let mut i: usize = 0;
    proof {
        assert(line_view(*spans).take(0) =~= Seq::<(Seq<char>, SegmentStyle)>::empty());
        assert(lines_view(wrapped@) =~= init.wrapped);
        assert(line_view(current) =~= init.current);
    }
    while i < n
        invariant
            i <= n,
            n == spans@.len(),
            1 <= wrap_width <= WRAP_WIDTH_CAP,
            w == wrap_width as int,
            w == spec_wrap_width(width as int),
            ({
                let acc = spec_wrap_spans(init, line_view(*spans).take(i as int), w);
                &&& lines_view(wrapped@) == acc.wrapped
                &&& line_view(current) == acc.current
                &&& current_width as int == acc.current_width
            }),
            current_width < wrap_width,
        decreases n - i,
    {
        let ghost spans_v = line_view(*spans);
        proof {
            assert(spans_v.take(i + 1).drop_last() =~= spans_v.take(i as int));
            assert(spans_v.take(i + 1).last() == spans_v[i as int]);
            assert(spans_v[i as int] == (spans@[i as int].text@, spans@[i as int].style));
        }
        let seg_chars = chars_of(spans[i].text.as_str());
        let style = spans[i].style;
        if seg_chars.len() == 0 {
            i = i + 1;
            continue ;
        }
        let ghost acc0 = spec_wrap_spans(init, spans_v.take(i as int), w);
        let ghost seg = spans_v[i as int];
        let mut chunk: Vec<char> = Vec::new();
        let mut chunk_width: usize = 0;
        let m = seg_chars.len();
        let mut j: usize = 0;
        proof {
            assert(seg.0.skip(0) =~= seg.0);
        }
        while j < m
            invariant
                j <= m,
                m == seg_chars@.len(),
                seg_chars@ == seg.0,
                style == seg.1,
                1 <= wrap_width <= WRAP_WIDTH_CAP,
                w == wrap_width as int,
                ({
                    let st = spec_wrap_chars(
                        ChunkAcc { acc: acc0, chunk: Seq::empty(), chunk_width: 0 },
                        seg.0.take(j as int),
                        style,
                        w,
                    );
                    &&& lines_view(wrapped@) == st.acc.wrapped
                    &&& line_view(current) == st.acc.current
                    &&& current_width as int == st.acc.current_width
                    &&& chunk@ == st.chunk
                    &&& chunk_width as int == st.chunk_width
                }),
                current_width + chunk_width < wrap_width,
            decreases m - j,
        {
            let ghost st_j = spec_wrap_chars(
                ChunkAcc { acc: acc0, chunk: Seq::empty(), chunk_width: 0 },
                seg.0.take(j as int),
                style,
                w,
            );
            proof {
                assert(seg.0.take(j + 1).drop_last() =~= seg.0.take(j as int));
                assert(seg.0.take(j + 1).last() == seg.0[j as int]);
                lemma_wrap_chars_snoc(
                    ChunkAcc { acc: acc0, chunk: Seq::empty(), chunk_width: 0 },
                    seg.0.take(j + 1),
                    style,
                    w,
                );
                assert(spec_wrap_chars(
                    ChunkAcc { acc: acc0, chunk: Seq::empty(), chunk_width: 0 },
                    seg.0.take(j + 1),
                    style,
                    w,
                ) == spec_wrap_char(st_j, seg.0[j as int], style, w));
            }
            let c = seg_chars[j];
            let cw = effective_width(c);
            let ghost st1 = (if st_j.acc.current_width + st_j.chunk_width + char_display_width(c)
                > w && (st_j.acc.current_width > 0 || st_j.chunk_width > 0) {
                ChunkAcc {
                    acc: WrapAcc {
                        wrapped: st_j.acc.wrapped.push(
                            if st_j.chunk.len() > 0 {
                                st_j.acc.current.push((st_j.chunk, style))
                            } else {
                                st_j.acc.current
                            },
                        ),
                        current: Seq::empty(),
                        current_width: 0,
                    },
                    chunk: Seq::empty(),
                    chunk_width: 0,
                }
            } else {
                st_j
            });
            let pending = current_width + chunk_width + cw;
            if pending > wrap_width && (current_width > 0 || chunk_width > 0) {
                let ghost lv_before = line_view(current);
                if chunk.len() > 0 {
                    let piece = StyledPreviewSegment { text: string_from_chars(&chunk), style };
                    current.push(piece);
                    proof {
                        assert(line_view(current) =~~= lv_before.push((chunk@, style)));
                    }
                    chunk = Vec::new();
                }
                chunk_width = 0;
                let ghost wv0 = lines_view(wrapped@);
                let ghost lv_cur = line_view(current);
                wrapped.push(current);
                proof {
                    assert(lines_view(wrapped@) =~~= wv0.push(lv_cur));
                }
                current = Vec::new();
                current_width = 0;
                proof {
                    assert(line_view(current) =~= Seq::<(Seq<char>, SegmentStyle)>::empty());
                    assert(chunk@ =~= Seq::<char>::empty());
                }
            }
            proof {
                assert(lines_view(wrapped@) == st1.acc.wrapped);
                assert(line_view(current) == st1.acc.current);
                assert(current_width as int == st1.acc.current_width);
                assert(chunk@ == st1.chunk);
                assert(chunk_width as int == st1.chunk_width);
            }
            chunk.push(c);
            chunk_width = chunk_width + cw;
            let ghost st2 = ChunkAcc {
                chunk: st1.chunk.push(c),
                chunk_width: st1.chunk_width + char_display_width(c),
                acc: st1.acc,
            };
            proof {
                assert(chunk@ == st2.chunk);
                assert(chunk_width as int == st2.chunk_width);
            }
            if current_width + chunk_width >= wrap_width {
                let ghost lv_before = line_view(current);
                let piece = StyledPreviewSegment { text: string_from_chars(&chunk), style };
                current.push(piece);
                proof {
                    assert(line_view(current) =~~= lv_before.push((chunk@, style)));
                }
                chunk = Vec::new();
                chunk_width = 0;
                let ghost wv0 = lines_view(wrapped@);
                let ghost lv_cur = line_view(current);
                wrapped.push(current);
                proof {
                    assert(lines_view(wrapped@) =~~= wv0.push(lv_cur));
                }
                current = Vec::new();
                current_width = 0;
                proof {
                    assert(line_view(current) =~= Seq::<(Seq<char>, SegmentStyle)>::empty());
                    assert(chunk@ =~= Seq::<char>::empty());
                }
            }
            proof {
                let st_next = spec_wrap_char(st_j, seg.0[j as int], style, w);
                assert(lines_view(wrapped@) == st_next.acc.wrapped);
                assert(line_view(current) == st_next.acc.current);
                assert(current_width as int == st_next.acc.current_width);
                assert(chunk@ == st_next.chunk);
                assert(chunk_width as int == st_next.chunk_width);
            }
            j = j + 1;
        }
        proof {
            assert(seg.0.take(m as int) =~= seg.0);
        }
        if chunk.len() > 0 {
            let ghost lv_before = line_view(current);
            let piece = StyledPreviewSegment { text: string_from_chars(&chunk), style };
            current.push(piece);
            proof {
                assert(line_view(current) =~~= lv_before.push((chunk@, style)));
            }
            current_width = current_width + chunk_width;
        }
        i = i + 1;
    }
    proof {
        assert(line_view(*spans).take(n as int) =~= line_view(*spans));
    }
    if current.len() > 0 {
        let ghost wv0 = lines_view(wrapped@);
        let ghost lv_cur = line_view(current);
        wrapped.push(current);
        proof {
            assert(lines_view(wrapped@) =~~= wv0.push(lv_cur));
        }
    }
    if wrapped.len() == 0 {
        wrapped.push(Vec::new());
        proof {
            assert(lines_view(wrapped@) =~~= seq![Seq::<(Seq<char>, SegmentStyle)>::empty()]);
        }
    }
    wrapped
}

/// The display width of a run of characters.
pub open spec fn spec_chars_width(s: Seq<char>) -> int
    decreases s.len(),
{
    if s.len() == 0 {
        0
    } else {
        char_display_width(s[0]) + spec_chars_width(s.drop_first())
    }
}

/// The display width of one line: the widths of its runs added up.
pub open spec fn spec_line_width(l: Seq<(Seq<char>, SegmentStyle)>) -> int
    decreases l.len(),
{
    if l.len() == 0 {
        0
    } else {
        spec_chars_width(l[0].0) + spec_line_width(l.drop_first())
    }
}

/// The characters of a line, in order, styles forgotten.
pub open spec fn spec_line_chars(l: Seq<(Seq<char>, SegmentStyle)>) -> Seq<char>
    decreases l.len(),
{
    if l.len() == 0 {
        Seq::empty()
    } else {
        l[0].0 + spec_line_chars(l.drop_first())
    }
}

/// The characters of a sequence of lines, in order.
pub open spec fn spec_lines_chars(ls: Seq<Seq<(Seq<char>, SegmentStyle)>>) -> Seq<char>
    decreases ls.len(),
{
    if ls.len() == 0 {
        Seq::empty()
    } else {
        spec_line_chars(ls[0]) + spec_lines_chars(ls.drop_first())
    }
}

/// Whether every character of `s` fits in `w` columns.
pub open spec fn spec_chars_fit(s: Seq<char>, w: int) -> bool {
    forall|i: int| 0 <= i < s.len() ==> #[trigger] char_display_width(s[i]) <= w
}

/// Whether every character of every span fits in `w` columns.
pub open spec fn spec_spans_fit(spans: Seq<(Seq<char>, SegmentStyle)>, w: int) -> bool {
    forall|i: int| 0 <= i < spans.len() ==> spec_chars_fit((#[trigger] spans[i]).0, w)
}

/// Whether every line occupies at most `w` columns.
pub open spec fn spec_lines_fit(ls: Seq<Seq<(Seq<char>, SegmentStyle)>>, w: int) -> bool {
    forall|i: int| 0 <= i < ls.len() ==> spec_line_width(#[trigger] ls[i]) <= w
}

/// Whether a line holds no empty run.
pub open spec fn spec_line_has_no_empty_segment(l: Seq<(Seq<char>, SegmentStyle)>) -> bool {
    forall|j: int| 0 <= j < l.len() ==> (#[trigger] l[j]).0.len() > 0
}

/// Whether no line holds an empty run.
pub open spec fn spec_no_empty_segments(ls: Seq<Seq<(Seq<char>, SegmentStyle)>>) -> bool {
    forall|i: int| 0 <= i < ls.len() ==> spec_line_has_no_empty_segment(#[trigger] ls[i])
}

/// Appending a character adds its width.
proof fn lemma_chars_width_push(s: Seq<char>, c: char)
    ensures
        spec_chars_width(s.push(c)) == spec_chars_width(s) + char_display_width(c),
    decreases s.len(),
{
    if s.len() == 0 {
        assert(s.push(c)[0] == c);
        assert(s.push(c).drop_first() =~= Seq::<char>::empty());
        assert(spec_chars_width(Seq::<char>::empty()) == 0);
    } else {
        assert(s.push(c)[0] == s[0]);
        assert(s.push(c).drop_first() =~= s.drop_first().push(c));
        lemma_chars_width_push(s.drop_first(), c);
    }
}

/// Appending a run adds its width.
proof fn lemma_line_width_push(l: Seq<(Seq<char>, SegmentStyle)>, seg: (Seq<char>, SegmentStyle))
    ensures
        spec_line_width(l.push(seg)) == spec_line_width(l) + spec_chars_width(seg.0),
    decreases l.len(),
{
    if l.len() == 0 {
        assert(l.push(seg)[0] == seg);
        assert(l.push(seg).drop_first() =~= Seq::<(Seq<char>, SegmentStyle)>::empty());
        assert(spec_line_width(Seq::<(Seq<char>, SegmentStyle)>::empty()) == 0);
    } else {
        assert(l.push(seg)[0] == l[0]);
        assert(l.push(seg).drop_first() =~= l.drop_first().push(seg));
        lemma_line_width_push(l.drop_first(), seg);
    }
}

/// Appending a run appends its characters.
proof fn lemma_line_chars_push(l: Seq<(Seq<char>, SegmentStyle)>, seg: (Seq<char>, SegmentStyle))
    ensures
        spec_line_chars(l.push(seg)) == spec_line_chars(l) + seg.0,
    decreases l.len(),
{
    if l.len() == 0 {
        assert(l.push(seg)[0] == seg);
        assert(l.push(seg).drop_first() =~= Seq::<(Seq<char>, SegmentStyle)>::empty());
        assert(spec_line_chars(Seq::<(Seq<char>, SegmentStyle)>::empty()) =~= Seq::<char>::empty());
        assert(spec_line_chars(l.push(seg)) =~= spec_line_chars(l) + seg.0);
    } else {
        assert(l.push(seg)[0] == l[0]);
        assert(l.push(seg).drop_first() =~= l.drop_first().push(seg));
        lemma_line_chars_push(l.drop_first(), seg);
        assert(l[0].0 + (spec_line_chars(l.drop_first()) + seg.0) =~= (l[0].0 + spec_line_chars(
            l.drop_first(),
        )) + seg.0);
    }
}

/// Appending a line appends its characters.
proof fn lemma_lines_chars_push(ls: Seq<Seq<(Seq<char>, SegmentStyle)>>, l: Seq<(Seq<char>, SegmentStyle)>)
    ensures
        spec_lines_chars(ls.push(l)) == spec_lines_chars(ls) + spec_line_chars(l),
    decreases ls.len(),
{
    if ls.len() == 0 {
        assert(ls.push(l)[0] == l);
        assert(ls.push(l).drop_first() =~= Seq::<Seq<(Seq<char>, SegmentStyle)>>::empty());
        assert(spec_lines_chars(Seq::<Seq<(Seq<char>, SegmentStyle)>>::empty())
            =~= Seq::<char>::empty());
        assert(spec_lines_chars(ls.push(l)) =~= spec_lines_chars(ls) + spec_line_chars(l));
    } else {
        assert(ls.push(l)[0] == ls[0]);
        assert(ls.push(l).drop_first() =~= ls.drop_first().push(l));
        lemma_lines_chars_push(ls.drop_first(), l);
        assert(spec_line_chars(ls[0]) + (spec_lines_chars(ls.drop_first()) + spec_line_chars(l))
            =~= (spec_line_chars(ls[0]) + spec_lines_chars(ls.drop_first())) + spec_line_chars(l));
    }
}

/// Shape facts the fold keeps inside one span: the tracked widths read the
/// true widths, the line being filled has room, and every emitted line fits.
spec fn wrap_char_inv(st: ChunkAcc, w: int) -> bool {
    &&& st.chunk_width == spec_chars_width(st.chunk)
    &&& st.acc.current_width == spec_line_width(st.acc.current)
    &&& st.acc.current_width + st.chunk_width < w
    &&& spec_lines_fit(st.acc.wrapped, w)
}

/// Every character the fold state holds, in order.
spec fn wrap_state_chars(st: ChunkAcc) -> Seq<char> {
    spec_lines_chars(st.acc.wrapped) + spec_line_chars(st.acc.current) + st.chunk
}

/// No run of the fold state is empty.
spec fn wrap_state_no_empty(st: ChunkAcc) -> bool {
    spec_no_empty_segments(st.acc.wrapped) && spec_line_has_no_empty_segment(st.acc.current)
}

/// One fold step keeps every character (appending the new one), keeps runs
/// non-empty, and keeps every emitted line inside the width.
proof fn lemma_wrap_char_props(st: ChunkAcc, c: char, style: SegmentStyle, w: int)
    requires
        w >= 1,
    ensures
        wrap_state_chars(spec_wrap_char(st, c, style, w)) == wrap_state_chars(st).push(c),
        wrap_state_no_empty(st) ==> wrap_state_no_empty(spec_wrap_char(st, c, style, w)),
        (wrap_char_inv(st, w) && char_display_width(c) <= w) ==> wrap_char_inv(
            spec_wrap_char(st, c, style, w),
            w,
        ),
{
    let cw = char_display_width(c) as int;
    let pending = st.acc.current_width + st.chunk_width + cw;
    let flushed1 = pending > w && (st.acc.current_width > 0 || st.chunk_width > 0);
    let cur = if st.chunk.len() > 0 {
        st.acc.current.push((st.chunk, style))
    } else {
        st.acc.current
    };
    let st1 = if flushed1 {
        ChunkAcc {
            acc: WrapAcc {
                wrapped: st.acc.wrapped.push(cur),
                current: Seq::empty(),
                current_width: 0,
            },
            chunk: Seq::empty(),
            chunk_width: 0,
        }
    } else {
        st
    };
    if flushed1 {
        lemma_lines_chars_push(st.acc.wrapped, cur);
        if st.chunk.len() > 0 {
            lemma_line_chars_push(st.acc.current, (st.chunk, style));
            lemma_line_width_push(st.acc.current, (st.chunk, style));
        } else {
            assert(st.chunk =~= Seq::<char>::empty());
            assert(spec_line_chars(cur) + st.chunk =~= spec_line_chars(cur));
        }
        assert(wrap_state_chars(st1) =~= wrap_state_chars(st));
        if wrap_state_no_empty(st) {
            assert forall|i: int| 0 <= i < st1.acc.wrapped.len() implies spec_line_has_no_empty_segment(
                #[trigger] st1.acc.wrapped[i],
            ) by {
                if i < st.acc.wrapped.len() {
                } else {
                    assert(st1.acc.wrapped[i] == cur);
                    assert forall|j: int| 0 <= j < cur.len() implies (#[trigger] cur[j]).0.len()
                        > 0 by {
                        if j < st.acc.current.len() {
                            assert(cur[j] == st.acc.current[j]);
                        }
                    }
                }
            }
        }
        if wrap_char_inv(st, w) && cw <= w {
            assert(spec_line_width(cur) == st.acc.current_width + st.chunk_width);
            assert forall|i: int| 0 <= i < st1.acc.wrapped.len() implies spec_line_width(
                #[trigger] st1.acc.wrapped[i],
            ) <= w by {
                if i == st.acc.wrapped.len() {
                    assert(st1.acc.wrapped[i] == cur);
                }
            }
            assert(spec_line_width(Seq::<(Seq<char>, SegmentStyle)>::empty()) == 0);
            assert(spec_chars_width(Seq::<char>::empty()) == 0);
        }
    }
    let st2 = ChunkAcc { chunk: st1.chunk.push(c), chunk_width: st1.chunk_width + cw, acc: st1.acc };
    lemma_chars_width_push(st1.chunk, c);
    assert(wrap_state_chars(st2) =~= wrap_state_chars(st1).push(c));
    let flushed2 = st2.acc.current_width + st2.chunk_width >= w;
    if flushed2 {
        let emitted = st2.acc.current.push((st2.chunk, style));
        let result = spec_wrap_char(st, c, style, w);
        lemma_lines_chars_push(st2.acc.wrapped, emitted);
        lemma_line_chars_push(st2.acc.current, (st2.chunk, style));
        lemma_line_width_push(st2.acc.current, (st2.chunk, style));
        assert(wrap_state_chars(result) =~= wrap_state_chars(st2));
        if wrap_state_no_empty(st) {
            assert forall|i: int| 0 <= i < result.acc.wrapped.len() implies spec_line_has_no_empty_segment(
                #[trigger] result.acc.wrapped[i],
            ) by {
                if i < st2.acc.wrapped.len() {
                } else {
                    assert(result.acc.wrapped[i] == emitted);
                    assert(st2.chunk.len() > 0);
                    assert forall|j: int| 0 <= j < emitted.len() implies (#[trigger] emitted[j]).0.len()
                        > 0 by {
                        if j < st2.acc.current.len() {
                            assert(emitted[j] == st2.acc.current[j]);
                        }
                    }
                }
            }
            assert(spec_line_has_no_empty_segment(Seq::<(Seq<char>, SegmentStyle)>::empty()));
        }
        if wrap_char_inv(st, w) && cw <= w {
            // The emitted line fits: after a flush the run is the one
            // character, and without one the pending sum was at most `w`.
            assert(spec_line_width(emitted) == st2.acc.current_width + st2.chunk_width);
            assert(spec_line_width(emitted) <= w);
            assert forall|i: int| 0 <= i < result.acc.wrapped.len() implies spec_line_width(
                #[trigger] result.acc.wrapped[i],
            ) <= w by {
                if i == st2.acc.wrapped.len() {
                    assert(result.acc.wrapped[i] == emitted);
                }
            }
            assert(spec_line_width(Seq::<(Seq<char>, SegmentStyle)>::empty()) == 0);
            assert(spec_chars_width(Seq::<char>::empty()) == 0);
        }
    }
}

/// Folding a span's characters appends exactly those characters, keeps runs
/// non-empty, and keeps every emitted line inside the width.
proof fn lemma_wrap_chars_props(st: ChunkAcc, text: Seq<char>, style: SegmentStyle, w: int)
    requires
        w >= 1,
    ensures
        wrap_state_chars(spec_wrap_chars(st, text, style, w)) == wrap_state_chars(st) + text,
        wrap_state_no_empty(st) ==> wrap_state_no_empty(spec_wrap_chars(st, text, style, w)),
        (wrap_char_inv(st, w) && spec_chars_fit(text, w)) ==> wrap_char_inv(
            spec_wrap_chars(st, text, style, w),
            w,
        ),
    decreases text.len(),
{
    if text.len() == 0 {
        assert(wrap_state_chars(st) + text =~= wrap_state_chars(st));
    } else {
        lemma_wrap_char_props(st, text[0], style, w);
        let step = spec_wrap_char(st, text[0], style, w);
        lemma_wrap_chars_props(step, text.drop_first(), style, w);
        assert(wrap_state_chars(st).push(text[0]) + text.drop_first() =~= wrap_state_chars(st)
            + text);
        if spec_chars_fit(text, w) {
            assert forall|i: int| 0 <= i < text.drop_first().len() implies #[trigger] char_display_width(
                text.drop_first()[i],
            ) <= w by {
                assert(text.drop_first()[i] == text[i + 1]);
            }
        }
    }
}

/// Shape facts the fold keeps between spans.
spec fn wrap_span_inv(acc: WrapAcc, w: int) -> bool {
    &&& acc.current_width == spec_line_width(acc.current)
    &&& acc.current_width < w
    &&& spec_lines_fit(acc.wrapped, w)
}

/// Every character an accumulator holds, in order.
spec fn acc_chars(acc: WrapAcc) -> Seq<char> {
    spec_lines_chars(acc.wrapped) + spec_line_chars(acc.current)
}

/// No run of an accumulator is empty.
spec fn acc_no_empty(acc: WrapAcc) -> bool {
    spec_no_empty_segments(acc.wrapped) && spec_line_has_no_empty_segment(acc.current)
}

/// Folding one span appends exactly its characters, keeps runs non-empty,
/// and keeps every emitted line inside the width.
proof fn lemma_wrap_span_props(acc: WrapAcc, seg: (Seq<char>, SegmentStyle), w: int)
    requires
        w >= 1,
    ensures
        acc_chars(spec_wrap_span(acc, seg, w)) == acc_chars(acc) + seg.0,
        acc_no_empty(acc) ==> acc_no_empty(spec_wrap_span(acc, seg, w)),
        (wrap_span_inv(acc, w) && spec_chars_fit(seg.0, w)) ==> wrap_span_inv(
            spec_wrap_span(acc, seg, w),
            w,
        ),
{
    if seg.0.len() == 0 {
        assert(acc_chars(acc) + seg.0 =~= acc_chars(acc));
    } else {
        let st0 = ChunkAcc { acc, chunk: Seq::empty(), chunk_width: 0 };
        assert(spec_chars_width(Seq::<char>::empty()) == 0);
        assert(wrap_state_chars(st0) =~= acc_chars(acc));
        lemma_wrap_chars_props(st0, seg.0, seg.1, w);
        let st = spec_wrap_chars(st0, seg.0, seg.1, w);
        if st.chunk.len() > 0 {
            let result = spec_wrap_span(acc, seg, w);
            lemma_line_chars_push(st.acc.current, (st.chunk, seg.1));
            lemma_line_width_push(st.acc.current, (st.chunk, seg.1));
            assert(acc_chars(result) =~= wrap_state_chars(st));
            if acc_no_empty(acc) {
                assert forall|j: int| 0 <= j < result.current.len() implies (
                #[trigger] result.current[j]).0.len() > 0 by {
                    if j < st.acc.current.len() {
                        assert(result.current[j] == st.acc.current[j]);
                    }
                }
            }
        } else {
            assert(st.chunk =~= Seq::<char>::empty());
            assert(acc_chars(st.acc) =~= wrap_state_chars(st));
        }
    }
}

/// Folding every span appends exactly the spans' characters, keeps runs
/// non-empty, and keeps every emitted line inside the width.
proof fn lemma_wrap_spans_props(acc: WrapAcc, spans: Seq<(Seq<char>, SegmentStyle)>, w: int)
    requires
        w >= 1,
    ensures
        acc_chars(spec_wrap_spans(acc, spans, w)) == acc_chars(acc) + spec_line_chars(spans),
        acc_no_empty(acc) ==> acc_no_empty(spec_wrap_spans(acc, spans, w)),
        (wrap_span_inv(acc, w) && spec_spans_fit(spans, w)) ==> wrap_span_inv(
            spec_wrap_spans(acc, spans, w),
            w,
        ),
    decreases spans.len(),
{
    if spans.len() == 0 {
        assert(spec_line_chars(spans) =~= Seq::<char>::empty());
        assert(acc_chars(acc) + spec_line_chars(spans) =~= acc_chars(acc));
    } else {
        lemma_wrap_spans_props(acc, spans.drop_last(), w);
        let mid = spec_wrap_spans(acc, spans.drop_last(), w);
        lemma_wrap_span_props(mid, spans.last(), w);
        assert(spans =~= spans.drop_last().push(spans.last()));
        lemma_line_chars_push(spans.drop_last(), spans.last());
        assert((acc_chars(acc) + spec_line_chars(spans.drop_last())) + spans.last().0
            =~= acc_chars(acc) + (spec_line_chars(spans.drop_last()) + spans.last().0));
        if spec_spans_fit(spans, w) {
            assert forall|i: int| 0 <= i < spans.drop_last().len() implies spec_chars_fit(
                (#[trigger] spans.drop_last()[i]).0,
                w,
            ) by {
                assert(spans.drop_last()[i] == spans[i]);
            }
            assert(spec_chars_fit(spans.last().0, w)) by {
                assert(spans.last() == spans[spans.len() - 1]);
            }
        }
    }
}

/// Soft-wrap preserves the text: the characters of the wrapped lines, read
/// in order, are exactly the characters of the input spans, and no wrapped
/// line holds an empty run.
pub proof fn lemma_wrap_preserves_text(spans: Seq<(Seq<char>, SegmentStyle)>, width: int)
    ensures
        spec_lines_chars(spec_wrap_styled_spans(spans, width)) == spec_line_chars(spans),
        spec_no_empty_segments(spec_wrap_styled_spans(spans, width)),
{
    let w = spec_wrap_width(width);
    let init = WrapAcc { wrapped: Seq::empty(), current: Seq::empty(), current_width: 0 };
    assert(acc_chars(init) =~= Seq::<char>::empty());
    assert(spec_line_width(Seq::<(Seq<char>, SegmentStyle)>::empty()) == 0);
    lemma_wrap_spans_props(init, spans, w);
    let folded = spec_wrap_spans(init, spans, w);
    assert(acc_chars(init) + spec_line_chars(spans) =~= spec_line_chars(spans));
    let out = if folded.current.len() > 0 {
        folded.wrapped.push(folded.current)
    } else {
        folded.wrapped
    };
    if folded.current.len() > 0 {
        lemma_lines_chars_push(folded.wrapped, folded.current);
        assert(spec_lines_chars(out) =~= acc_chars(folded));
        assert forall|i: int| 0 <= i < out.len() implies spec_line_has_no_empty_segment(
            #[trigger] out[i],
        ) by {
            if i < folded.wrapped.len() {
                assert(out[i] == folded.wrapped[i]);
            } else {
                assert(out[i] == folded.current);
            }
        }
    } else {
        assert(spec_line_chars(folded.current) =~= Seq::<char>::empty());
        assert(spec_lines_chars(out) =~= acc_chars(folded));
    }
    if out.len() == 0 {
        let shown = seq![Seq::<(Seq<char>, SegmentStyle)>::empty()];
        assert(spec_line_chars(Seq::<(Seq<char>, SegmentStyle)>::empty()) =~= Seq::<char>::empty());
        assert(shown[0] =~= Seq::<(Seq<char>, SegmentStyle)>::empty());
        assert(shown.drop_first() =~= Seq::<Seq<(Seq<char>, SegmentStyle)>>::empty());
        assert(spec_lines_chars(Seq::<Seq<(Seq<char>, SegmentStyle)>>::empty())
            =~= Seq::<char>::empty());
        assert(spec_lines_chars(shown) =~= Seq::<char>::empty());
        assert(spec_lines_chars(out) =~= Seq::<char>::empty());
        assert(spec_line_has_no_empty_segment(Seq::<(Seq<char>, SegmentStyle)>::empty()));
    }
}

/// Soft-wrap fits the width: whenever every character of the input fits in
/// the effective wrap width, every wrapped line occupies at most that width.
/// (A character wider than the wrap width itself cannot be split and is the
/// one case a line may exceed it.)
pub proof fn lemma_wrap_lines_fit(spans: Seq<(Seq<char>, SegmentStyle)>, width: int)
    requires
        spec_spans_fit(spans, spec_wrap_width(width)),
    ensures
        spec_lines_fit(spec_wrap_styled_spans(spans, width), spec_wrap_width(width)),
{
    let w = spec_wrap_width(width);
    let init = WrapAcc { wrapped: Seq::empty(), current: Seq::empty(), current_width: 0 };
    assert(spec_line_width(Seq::<(Seq<char>, SegmentStyle)>::empty()) == 0);
    lemma_wrap_spans_props(init, spans, w);
    let folded = spec_wrap_spans(init, spans, w);
    let out = if folded.current.len() > 0 {
        folded.wrapped.push(folded.current)
    } else {
        folded.wrapped
    };
    assert forall|i: int| 0 <= i < out.len() implies spec_line_width(#[trigger] out[i]) <= w by {
        if i < folded.wrapped.len() {
            assert(out[i] == folded.wrapped[i]);
        } else {
            assert(out[i] == folded.current);
        }
    }
    if out.len() == 0 {
        assert(spec_line_width(Seq::<(Seq<char>, SegmentStyle)>::empty()) == 0);
    }
}

/// Folding one more character is one more step of the fold.
proof fn lemma_wrap_chars_snoc(st: ChunkAcc, text: Seq<char>, style: SegmentStyle, w: int)
    requires
        text.len() > 0,
    ensures
        spec_wrap_chars(st, text, style, w) == spec_wrap_char(
            spec_wrap_chars(st, text.drop_last(), style, w),
            text.last(),
            style,
            w,
        ),
    decreases text.len(),
{
    if text.len() == 1 {
        assert(text.drop_last() =~= Seq::<char>::empty());
        assert(text.drop_first() =~= Seq::<char>::empty());
        assert(spec_wrap_chars(st, text.drop_last(), style, w) == st);
        assert(spec_wrap_chars(st, text, style, w) == spec_wrap_chars(
            spec_wrap_char(st, text[0], style, w),
            text.drop_first(),
            style,
            w,
        ));
        assert(spec_wrap_chars(spec_wrap_char(st, text[0], style, w), text.drop_first(), style, w)
            == spec_wrap_char(st, text[0], style, w));
        assert(text.last() == text[0]);
    } else {
        lemma_wrap_chars_snoc(spec_wrap_char(st, text[0], style, w), text.drop_first(), style, w);
        assert(text.drop_first().drop_last() =~= text.drop_last().drop_first());
        assert(text.drop_last()[0] == text[0]);
        assert(text.drop_first().last() == text.last());
        assert(spec_wrap_chars(st, text, style, w) == spec_wrap_chars(
            spec_wrap_char(st, text[0], style, w),
            text.drop_first(),
            style,
            w,
        ));
        assert(spec_wrap_chars(st, text.drop_last(), style, w) == spec_wrap_chars(
            spec_wrap_char(st, text[0], style, w),
            text.drop_last().drop_first(),
            style,
            w,
        ));
    }
}

} // verus!
