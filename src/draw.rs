//! Drawing a layout: the title box, then for each lane its top box, bottom
//! box and lifeline, then each signal's label and connector.
use vstd::prelude::*;
use crate::ast::{ArrowType, LineType, SignalType};
use crate::layout::{
    canvas_height, canvas_height_of, canvas_width, canvas_width_of, lane_center, layout_wf,
    max_h, sum_h, text_bbox, text_fits, text_w, title_height, title_rect, LaneS, Layout,
    LayoutS, Rectangle, RowS, ACTOR_MARGIN, ACTOR_PADDING, DIAGRAM_MARGIN, FONT_SIZE,
    SELF_SIGNAL_WIDTH, SIGNAL_MARGIN, SIGNAL_PADDING, TITLE_MARGIN, TITLE_PADDING,
};
use crate::paper::{
    elements_view, points_view, Element, ElementS, MarkerEnd, Paper, PaperS, Path, Rect, Text,
    TextAnchor,
};

verus! {

pub open spec fn dash_pattern() -> Seq<char> {
    seq!['6', 'p', 'x', ',', '2', 'p', 'x']
}

pub open spec fn word_none() -> Seq<char> {
    seq!['n', 'o', 'n', 'e']
}

pub open spec fn word_white() -> Seq<char> {
    seq!['w', 'h', 'i', 't', 'e']
}

/// Coordinates far inside the 64-bit range.
pub open spec fn small(v: int) -> bool {
    -0x1000000000000000 <= v <= 0x1000000000000000
}

/// A straight connector from `(x1, y1)` to `(x2, y2)`.
pub open spec fn line_elem(
    x1: int,
    y1: int,
    x2: int,
    y2: int,
    marker: Option<MarkerEnd>,
    dash: bool,
) -> ElementS {
    ElementS::Path {
        x: x1,
        y: y1,
        points: seq![(x2, y2)],
        marker,
        dash: if dash {
            Some(dash_pattern())
        } else {
            None
        },
    }
}

/// An outlined box inset by `margin`, with its text inside it at `padding`.
pub open spec fn box_elems(
    x: int,
    y: int,
    w: int,
    h: int,
    text: Seq<char>,
    margin: int,
    padding: int,
) -> Seq<ElementS> {
    let bx = x + margin;
    let by = y + margin;
    let bw = w - 2 * margin;
    let bh = h - 2 * margin;
    seq![
        ElementS::Path {
            x: bx,
            y: by,
            points: seq![(bx + bw, by), (bx + bw, by + bh), (bx, by + bh), (bx, by)],
            marker: None,
            dash: None,
        },
        ElementS::Text { x: bx + padding, y: by + padding, text, anchor: None },
    ]
}

/// A label on a translucent white background, to the right of `x` when
/// `left` holds, else ending left of it.
pub open spec fn label_elems(
    text: Seq<char>,
    x: int,
    y: int,
    margin: int,
    padding: int,
    left: bool,
) -> Seq<ElementS> {
    let lx = if left {
        x + margin + padding
    } else {
        x - (margin + padding)
    };
    let ly = y + margin + padding;
    let w = text_w(text);
    seq![
        ElementS::Rect {
            x: if left {
                lx
            } else {
                lx - w
            },
            y: ly,
            w,
            h: FONT_SIZE + margin + padding,
            r: None,
            stroke: Some(word_none()),
            stroke_width: Some(0),
            fill: Some(word_white()),
            fill_opacity: Some(70),
        },
        ElementS::Text {
            x: lx,
            y: ly,
            text,
            anchor: Some(
                if left {
                    TextAnchor::Start
                } else {
                    TextAnchor::End
                },
            ),
        },
    ]
}

/// The arrowhead of a signal type.
pub open spec fn marker_of(t: SignalType) -> Option<MarkerEnd> {
    match t.arrow {
        ArrowType::Plain => None,
        ArrowType::Normal => Some(MarkerEnd::ArrowBlock),
        ArrowType::Open => Some(MarkerEnd::ArrowOpen),
    }
}

pub open spec fn dashed(t: SignalType) -> bool {
    t.line == LineType::Dot
}

pub open spec fn title_elems(title: Option<Seq<char>>) -> Seq<ElementS> {
    match title {
        Some(t) => {
            let r = title_rect(t);
            box_elems(r.x as int, r.y as int, r.w as int, r.h as int, t, TITLE_MARGIN as int, TITLE_PADDING as int)
        },
        None => seq![],
    }
}

/// A lane's top box at `y`, its bottom box below the `sh` high signal area,
/// and the lifeline between them.
pub open spec fn lane_elems(l: LaneS, y: int, sh: int) -> Seq<ElementS> {
    box_elems(l.x, y, l.w, l.h, l.display, ACTOR_MARGIN as int, ACTOR_PADDING as int) + box_elems(
        l.x,
        y + l.h + sh,
        l.w,
        l.h,
        l.display,
        ACTOR_MARGIN as int,
        ACTOR_PADDING as int,
    ) + seq![
        line_elem(
            lane_center(l),
            y + l.h - ACTOR_MARGIN,
            lane_center(l),
            y + l.h + ACTOR_MARGIN + sh,
            None,
            false,
        ),
    ]
}

pub open spec fn lanes_elems(lanes: Seq<LaneS>, y: int, sh: int) -> Seq<ElementS>
    decreases lanes.len(),
{
    if lanes.len() == 0 {
        seq![]
    } else {
        lanes_elems(lanes.drop_last(), y, sh) + lane_elems(lanes.last(), y, sh)
    }
}

/// A signal row whose area starts at `top`: a self-signal is an elbow of
/// three stretches out to the right, any other a single connector.
pub open spec fn row_elems(r: RowS, top: int) -> Seq<ElementS> {
    let ry = r.y + top;
    let m = SIGNAL_MARGIN as int;
    let p = SIGNAL_PADDING as int;
    let sw = SELF_SIGNAL_WIDTH as int;
    if r.from == r.to {
        label_elems(r.message, r.x_from + sw, ry, m, p, true) + seq![
            line_elem(r.x_from, ry + m, r.x_from + sw, ry + m, None, dashed(r.kind)),
            line_elem(r.x_from + sw, ry + m, r.x_from + sw, ry + r.h, None, dashed(r.kind)),
            line_elem(r.x_from + sw, ry + r.h, r.x_from, ry + r.h, marker_of(r.kind), dashed(r.kind)),
        ]
    } else {
        label_elems(r.message, r.x_from, ry, m, p, r.x_from < r.x_to) + seq![
            line_elem(r.x_from, ry + r.h, r.x_to, ry + r.h, marker_of(r.kind), dashed(r.kind)),
        ]
    }
}

pub open spec fn rows_elems(rows: Seq<RowS>, top: int) -> Seq<ElementS>
    decreases rows.len(),
{
    if rows.len() == 0 {
        seq![]
    } else {
        rows_elems(rows.drop_last(), top) + row_elems(rows.last(), top)
    }
}

/// The drawing of a layout.
pub open spec fn paper_of(l: LayoutS) -> PaperS {
    let y = title_height(l.title) + DIAGRAM_MARGIN;
    PaperS {
        w: canvas_width_of(l),
        h: canvas_height_of(l),
        elements: title_elems(l.title) + lanes_elems(l.lanes, y, sum_h(l.rows)) + rows_elems(
            l.rows,
            y + max_h(l.lanes),
        ),
    }
}

fn draw_line(
    paper: &mut Paper,
    x1: i64,
    y1: i64,
    x2: i64,
    y2: i64,
    marker_end: Option<MarkerEnd>,
    dash: bool,
)
    ensures
        final(paper)@ == (PaperS {
            elements: old(paper)@.elements.push(
                line_elem(x1 as int, y1 as int, x2 as int, y2 as int, marker_end, dash),
            ),
            ..old(paper)@
        }),
{
    let mut path = Path::new(x1, y1).line_to(x2, y2);
    if let Some(marker_end) = marker_end {
        path = path.with_marker_end(marker_end);
    }
    if dash {
        path = path.with_stroke_dasharray("6px,2px");
        proof {
            reveal_strlit("6px,2px");
            assert("6px,2px"@ =~= dash_pattern());
        }
    }
    let ghost before = paper.elements@;
    let e = Element::Path(path);
    paper.push(e);
    proof {
        assert(points_view(path.points@) =~= seq![(x2 as int, y2 as int)]);
        assert(elements_view(paper.elements@) =~= elements_view(before).push(e@));
    }
}

fn draw_text_box(
    paper: &mut Paper,
    rect: &Rectangle,
    text: &Vec<char>,
    margin: i64,
    padding: i64,
)
    requires
        small(rect.x as int) && small(rect.y as int) && small(rect.w as int) && small(
            rect.h as int,
        ),
        0 <= margin <= 100 && 0 <= padding <= 100,
    ensures
        final(paper)@ == (PaperS {
            elements: old(paper)@.elements + box_elems(
                rect.x as int,
                rect.y as int,
                rect.w as int,
                rect.h as int,
                text@,
                margin as int,
                padding as int,
            ),
            ..old(paper)@
        }),
{
    let x = rect.x + margin;
    let y = rect.y + margin;
    let w = rect.w - 2 * margin;
    let h = rect.h - 2 * margin;
    let path = Path::new(x, y).line_to(x + w, y).line_to(x + w, y + h).line_to(x, y + h).line_to(
        x,
        y,
    );
    let ghost before = paper.elements@;
    let e1 = Element::Path(path);
    paper.push(e1);
    let e2 = Element::Text(Text::new(x + padding, y + padding, crate::ast::copy_chars(text)));
    paper.push(e2);
    proof {
        assert(points_view(path.points@) =~= seq![
            ((x + w) as int, y as int),
            ((x + w) as int, (y + h) as int),
            (x as int, (y + h) as int),
            (x as int, y as int),
        ]);
        assert(elements_view(paper.elements@) =~= elements_view(before) + seq![e1@, e2@]);
    }
}

fn draw_text(
    paper: &mut Paper,
    text: &Vec<char>,
    x: i64,
    y: i64,
    margin: i64,
    padding: i64,
    anchor_left: bool,
)
    requires
        small(x as int) && small(y as int),
        0 <= margin <= 100 && 0 <= padding <= 100,
        text_fits(text@),
    ensures
        final(paper)@ == (PaperS {
            elements: old(paper)@.elements + label_elems(
                text@,
                x as int,
                y as int,
                margin as int,
                padding as int,
                anchor_left,
            ),
            ..old(paper)@
        }),
{
    let x = if anchor_left {
        x + margin + padding
    } else {
        x - (margin + padding)
    };
    let y = y + margin + padding;
    let anchor = if anchor_left {
        TextAnchor::Start
    } else {
        TextAnchor::End
    };
    let bbox = text_bbox(text);
    let rect = Rect::new(
        if anchor_left {
            x
        } else {
            x - bbox.w
        },
        y,
        bbox.w,
        bbox.h + margin + padding,
    ).with_stroke("none").with_stroke_width(0).with_fill("white").with_fill_opacity(70);
    proof {
        reveal_strlit("none");
        reveal_strlit("white");
        assert("none"@ =~= word_none());
        assert("white"@ =~= word_white());
    }
    let ghost before = paper.elements@;
    let e1 = Element::Rect(rect);
    paper.push(e1);
    let e2 = Element::Text(
        Text::new(x, y, crate::ast::copy_chars(text)).with_text_anchor(anchor),
    );
    paper.push(e2);
    proof {
        assert(elements_view(paper.elements@) =~= elements_view(before) + seq![e1@, e2@]);
    }
}

fn marker_for(t: &SignalType) -> (r: Option<MarkerEnd>)
    ensures
        r == marker_of(*t),
{
    match t.arrow_type() {
        ArrowType::Normal => Some(MarkerEnd::ArrowBlock),
        ArrowType::Open => Some(MarkerEnd::ArrowOpen),
        ArrowType::Plain => None,
    }
}

fn draw_title(paper: &mut Paper, l: &Layout)
    requires
        layout_wf(l),
    ensures
        final(paper)@ == (PaperS { elements: old(paper)@.elements + title_elems(l@.title), ..old(paper)@ }),
{
    match &l.title {
        Some((title, rectangle)) => {
            proof {
                crate::layout::lemma_text_w_bound(title.text@);
            }
            draw_text_box(paper, rectangle, &title.text, TITLE_MARGIN, TITLE_PADDING);
        },
        None => {
            assert(old(paper)@.elements + title_elems(l@.title) =~= old(paper)@.elements);
        },
    }
}

fn draw_actor(paper: &mut Paper, l: &Layout, y: i64, signal_height: i64)
    requires
        layout_wf(l),
        0 <= y <= 100,
        signal_height == sum_h(l@.rows),
    ensures
        final(paper)@ == (PaperS {
            elements: old(paper)@.elements + lanes_elems(l@.lanes, y as int, signal_height as int),
            ..old(paper)@
        }),
{
    let ghost start = paper@.elements;
    let ghost lv = l@.lanes;
    proof {
        assert(l.rows.len() * 56 <= crate::layout::MAX_STATEMENTS * 56) by (nonlinear_arith)
            requires
                l.rows.len() <= crate::layout::MAX_STATEMENTS,
        ;
        assert(start + lanes_elems(lv.take(0), y as int, signal_height as int) =~= start);
    }
    let mut i: usize = 0;
    while i < l.lanes.len()
        invariant
            i <= l.lanes.len(),
            layout_wf(l),
            lv == l@.lanes,
            0 <= y <= 100,
            0 <= signal_height <= 56 * crate::layout::MAX_STATEMENTS,
            paper@ == (PaperS {
                elements: start + lanes_elems(lv.take(i as int), y as int, signal_height as int),
                ..old(paper)@
            }),
        decreases l.lanes.len() - i,
    {
        let lane = &l.lanes[i];
        proof {
            crate::layout::lemma_lane_bounds(lv, i as int);
            assert(lv[i as int] == lane@);
            assert((i + 1) * (32 * crate::layout::MAX_TEXT) <= 2 * crate::layout::MAX_STATEMENTS * (32
                * crate::layout::MAX_TEXT)) by (nonlinear_arith)
                requires
                    i < l.lanes.len(),
                    l.lanes.len() <= 2 * crate::layout::MAX_STATEMENTS,
            ;
        }
        let mut rectangle = lane.rect;
        rectangle.y = y;
        draw_text_box(paper, &rectangle, &lane.display.name, ACTOR_MARGIN, ACTOR_PADDING);
        rectangle.y = y + rectangle.h + signal_height;
        draw_text_box(paper, &rectangle, &lane.display.name, ACTOR_MARGIN, ACTOR_PADDING);
        let cx = rectangle.center_x();
        draw_line(
            paper,
            cx,
            y + rectangle.h - ACTOR_MARGIN,
            cx,
            y + rectangle.h + ACTOR_MARGIN + signal_height,
            None,
            false,
        );
        proof {
            assert(lv.take(i + 1).drop_last() =~= lv.take(i as int));
            assert(lv.take(i + 1).last() == lane@);
            let a = lanes_elems(lv.take(i as int), y as int, signal_height as int);
            let b = lane_elems(lane@, y as int, signal_height as int);
            assert(paper@.elements =~= start + (a + b));
        }
        i = i + 1;
    }
    assert(lv.take(l.lanes.len() as int) =~= lv);
}

fn draw_row(paper: &mut Paper, row: &crate::layout::Row, top: i64)
    requires
        0 <= top <= 200,
        0 <= row.y <= 56 * crate::layout::MAX_STATEMENTS,
        row.h == 56,
        0 <= row.x_from <= 64 * crate::layout::MAX_STATEMENTS * 32 * crate::layout::MAX_TEXT,
        0 <= row.x_to <= 64 * crate::layout::MAX_STATEMENTS * 32 * crate::layout::MAX_TEXT,
        text_fits(row.signal.message@),
    ensures
        final(paper)@ == (PaperS { elements: old(paper)@.elements + row_elems(row@, top as int), ..old(paper)@ }),
{
    let ghost start = paper@.elements;
    let ry = row.y + top;
    let kind = row.signal.signal();
    let dash = kind.line_type() == LineType::Dot;
    let marker = marker_for(kind);
    if crate::ast::chars_eq(&row.signal.from.name, &row.signal.to.name) {
        let x = row.x_from;
        draw_text(paper, &row.signal.message, x + SELF_SIGNAL_WIDTH, ry, SIGNAL_MARGIN, SIGNAL_PADDING, true);
        draw_line(paper, x, ry + SIGNAL_MARGIN, x + SELF_SIGNAL_WIDTH, ry + SIGNAL_MARGIN, None, dash);
        draw_line(paper, x + SELF_SIGNAL_WIDTH, ry + SIGNAL_MARGIN, x + SELF_SIGNAL_WIDTH, ry + row.h, None, dash);
        draw_line(paper, x + SELF_SIGNAL_WIDTH, ry + row.h, x, ry + row.h, marker, dash);
        proof {
            assert(paper@.elements =~= start + row_elems(row@, top as int));
        }
    } else {
        draw_text(paper, &row.signal.message, row.x_from, ry, SIGNAL_MARGIN, SIGNAL_PADDING, row.x_from < row.x_to);
        draw_line(paper, row.x_from, ry + row.h, row.x_to, ry + row.h, marker, dash);
        proof {
            assert(paper@.elements =~= start + row_elems(row@, top as int));
        }
    }
}

fn draw_signals(paper: &mut Paper, l: &Layout, top: i64)
    requires
        layout_wf(l),
        0 <= top <= 200,
    ensures
        final(paper)@ == (PaperS { elements: old(paper)@.elements + rows_elems(l@.rows, top as int), ..old(paper)@ }),
{
    let ghost start = paper@.elements;
    let ghost rv = l@.rows;
    proof {
        assert(start + rows_elems(rv.take(0), top as int) =~= start);
    }
    let mut i: usize = 0;
    while i < l.rows.len()
        invariant
            i <= l.rows.len(),
            layout_wf(l),
            rv == l@.rows,
            0 <= top <= 200,
            paper@ == (PaperS {
                elements: start + rows_elems(rv.take(i as int), top as int),
                ..old(paper)@
            }),
        decreases l.rows.len() - i,
    {
        let row = &l.rows[i];
        assert(rv[i as int] == row@);
        draw_row(paper, row, top);
        proof {
            assert(rv.take(i + 1).drop_last() =~= rv.take(i as int));
            assert(rv.take(i + 1).last() == row@);
            let a = rows_elems(rv.take(i as int), top as int);
            assert(paper@.elements =~= start + (a + row_elems(row@, top as int)));
        }
        i = i + 1;
    }
    assert(rv.take(l.rows.len() as int) =~= rv);
}

/// Draws a layout: the canvas sized to it, then the title, the lanes and the
/// signals, in that order.
pub fn draw(l: &Layout) -> (r: Paper)
    requires
        layout_wf(l),
    ensures
        r@ == paper_of(l@),
{
    proof {
        crate::layout::lemma_max_h_packed(l@.lanes);
        assert(0 <= l.rows.len() * 56 <= crate::layout::MAX_STATEMENTS * 56) by (nonlinear_arith)
            requires l.rows.len() <= crate::layout::MAX_STATEMENTS;
    }
    let title_height: i64 = match &l.title {
        Some((_, r)) => r.h,
        None => 0,
    };
    let y = title_height + DIAGRAM_MARGIN;
    let signal_height: i64 = (l.rows.len() as i64) * (FONT_SIZE + (SIGNAL_MARGIN + SIGNAL_PADDING) * 2);
    let actor_height: i64 = if l.lanes.len() == 0 {
        0
    } else {
        FONT_SIZE + (ACTOR_MARGIN + ACTOR_PADDING) * 2
    };
    let mut paper = Paper::builder().w(canvas_width(l)).h(canvas_height(l)).build();
    draw_title(&mut paper, l);
    draw_actor(&mut paper, l, y, signal_height);
    draw_signals(&mut paper, l, y + actor_height);
    proof {
        let t = title_elems(l@.title);
        let a = lanes_elems(l@.lanes, y as int, signal_height as int);
        let b = rows_elems(l@.rows, (y + actor_height) as int);
        assert(paper@.elements =~= t + a + b);
    }
    paper
}

} // verus!
