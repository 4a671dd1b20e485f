//! The two layout passes: the title box, one lane per actor in first-use
//! order, and one row per signal in source order.
use vstd::prelude::*;
use vstd::utf8::{encode_scalar, encode_utf8};
use crate::ast::{Actor, ActorS, Document, Signal, SignalType, Statement, StatementS, Title, copy_chars};

verus! {

pub const FONT_SIZE: i64 = 16;

pub const DIAGRAM_MARGIN: i64 = 10;

pub const ACTOR_MARGIN: i64 = 10;

pub const ACTOR_PADDING: i64 = 10;

pub const SIGNAL_MARGIN: i64 = 10;

pub const SIGNAL_PADDING: i64 = 10;

pub const TITLE_MARGIN: i64 = 0;

pub const TITLE_PADDING: i64 = 5;

pub const SELF_SIGNAL_WIDTH: i64 = 20;

/// Largest measured width, and largest length, of a text that is laid out.
pub const MAX_TEXT: usize = 16777216;

/// Largest number of statements that is laid out.
pub const MAX_STATEMENTS: usize = 16777216;

/// The displayed width in columns of a text.
pub uninterp spec fn display_width_of(s: Seq<char>) -> nat;

/// Relies on unicode_width's `UnicodeWidthStr::width` for the displayed width
/// of a text in columns; the text is handed over as a `String`.
#[verifier::external_body]
fn display_width(t: &Vec<char>) -> (r: usize)
    ensures
        r == display_width_of(t@),
{
    let s: String = t.iter().collect();
    unicode_width::UnicodeWidthStr::width(s.as_str())
}

/// Width of a text's bounding box: half the font size per column, and 6 more
/// units for every 5 bytes of its UTF-8 encoding.
pub open spec fn text_w(s: Seq<char>) -> int {
    display_width_of(s) * (FONT_SIZE / 2) + (encode_utf8(s).len() / 5) * 6
}

/// The UTF-8 encoding of a text is at most 4 bytes per character.
pub proof fn lemma_utf8_len_bound(s: Seq<char>)
    ensures
        encode_utf8(s).len() <= 4 * s.len(),
    decreases s.len(),
{
    if s.len() > 0 {
        lemma_utf8_len_bound(s.drop_first());
    }
}

/// Number of bytes in the UTF-8 encoding of a character.
pub fn char_utf8_len(c: char) -> (r: usize)
    ensures
        r == encode_scalar(c as u32).len(),
{
    let v = c as u32;
    if v <= 0x7F {
        1
    } else if v <= 0x7FF {
        2
    } else if v <= 0xFFFF {
        3
    } else {
        4
    }
}

/// Number of bytes in the UTF-8 encoding of a text.
pub fn utf8_len(t: &Vec<char>) -> (r: usize)
    requires
        t.len() <= MAX_TEXT,
    ensures
        r == encode_utf8(t@).len(),
{
    let n = t.len();
    let mut i: usize = n;
    let mut acc: usize = 0;
    assert(t@.subrange(n as int, n as int) =~= Seq::<char>::empty());
    while i > 0
        invariant
            i <= n == t.len() <= MAX_TEXT,
            acc == encode_utf8(t@.subrange(i as int, n as int)).len(),
            acc <= 4 * (n - i),
        decreases i,
    {
        let k = char_utf8_len(t[i - 1]);
        proof {
            let x = t@.subrange(i - 1, n as int);
            assert(x.drop_first() =~= t@.subrange(i as int, n as int));
            assert(x[0] == t@[i - 1]);
        }
        acc = acc + k;
        i = i - 1;
    }
    assert(t@.subrange(0, n as int) =~= t@);
    acc
}

pub open spec fn text_fits(s: Seq<char>) -> bool {
    display_width_of(s) <= MAX_TEXT && s.len() <= MAX_TEXT
}

pub open spec fn statement_fits(st: StatementS) -> bool {
    match st {
        StatementS::Title(t) => text_fits(t),
        StatementS::Signal(a, _, b, m) => text_fits(a) && text_fits(b) && text_fits(m),
        StatementS::Participant(a, d) => text_fits(a) && (d is Some ==> text_fits(d->0)),
        StatementS::Note(_) => true,
    }
}

/// The document is small enough for its geometry to be computed in 64 bits.
pub open spec fn doc_fits(d: Seq<StatementS>) -> bool {
    d.len() <= MAX_STATEMENTS && forall|i: int| 0 <= i < d.len() ==> statement_fits(#[trigger] d[i])
}

#[derive(Clone, Copy, Debug, PartialEq, Eq, Structural)]
pub struct Rectangle {
    pub x: i64,
    pub y: i64,
    pub w: i64,
    pub h: i64,
}

impl Rectangle {
    pub fn new(x: i64, y: i64, w: i64, h: i64) -> (r: Rectangle)
        ensures
            r == (Rectangle { x, y, w, h }),
    {
        Rectangle { x, y, w, h }
    }

    pub open spec fn center_x_spec(&self) -> int {
        self.x + self.w / 2
    }

    pub fn center_x(&self) -> (r: i64)
        requires
            0 <= self.w,
            i64::MIN <= self.x + self.w / 2 <= i64::MAX,
        ensures
            r == self.center_x_spec(),
    {
        self.x + self.w / 2
    }
}

/// The bounding box of a text, at the origin.
pub fn text_bbox(t: &Vec<char>) -> (r: Rectangle)
    requires
        text_fits(t@),
    ensures
        r == (Rectangle { x: 0, y: 0, w: text_w(t@) as i64, h: FONT_SIZE }),
        text_w(t@) <= 16 * MAX_TEXT,
{
    let cols = display_width(t);
    let n = utf8_len(t);
    proof {
        lemma_utf8_len_bound(t@);
    }
    let w = (cols as i64) * (FONT_SIZE / 2) + ((n / 5) as i64) * 6;
    Rectangle::new(0, 0, w, FONT_SIZE)
}

/// Spec model of a lane.
pub struct LaneS {
    pub key: ActorS,
    pub display: Seq<char>,
    pub x: int,
    pub y: int,
    pub w: int,
    pub h: int,
}

/// Spec model of a signal row: its endpoints' lane centres, its top and height.
pub struct RowS {
    pub from: ActorS,
    pub kind: SignalType,
    pub to: ActorS,
    pub message: Seq<char>,
    pub x_from: int,
    pub x_to: int,
    pub y: int,
    pub h: int,
}

pub open spec fn lane_width(display: Seq<char>) -> int {
    text_w(display) + (ACTOR_MARGIN + ACTOR_PADDING) * 2
}

pub open spec fn lane_height() -> int {
    FONT_SIZE + (ACTOR_MARGIN + ACTOR_PADDING) * 2
}

pub open spec fn row_height() -> int {
    FONT_SIZE + (SIGNAL_MARGIN + SIGNAL_PADDING) * 2
}

/// Sum of the widths of the lanes.
pub open spec fn sum_w(lanes: Seq<LaneS>) -> int
    decreases lanes.len(),
{
    if lanes.len() == 0 {
        0
    } else {
        sum_w(lanes.drop_last()) + lanes.last().w
    }
}

/// Sum of the heights of the rows.
pub open spec fn sum_h(rows: Seq<RowS>) -> int
    decreases rows.len(),
{
    if rows.len() == 0 {
        0
    } else {
        sum_h(rows.drop_last()) + rows.last().h
    }
}

/// Index of the first lane with this key.
pub open spec fn find_key(lanes: Seq<LaneS>, key: ActorS) -> Option<int>
    decreases lanes.len(),
{
    if lanes.len() == 0 {
        None
    } else {
        match find_key(lanes.drop_last(), key) {
            Some(i) => Some(i),
            None => if lanes.last().key == key {
                Some(lanes.len() - 1)
            } else {
                None
            },
        }
    }
}

/// A lane for `key` at the right end, unless the key already has one.
pub open spec fn add_lane(lanes: Seq<LaneS>, key: ActorS, display: Seq<char>) -> Seq<LaneS> {
    if find_key(lanes, key) is Some {
        lanes
    } else {
        lanes.push(
            LaneS {
                key,
                display,
                x: sum_w(lanes),
                y: 0,
                w: lane_width(display),
                h: lane_height(),
            },
        )
    }
}

pub open spec fn step_lanes(lanes: Seq<LaneS>, st: StatementS) -> Seq<LaneS> {
    match st {
        StatementS::Signal(a, _, b, _) => add_lane(add_lane(lanes, a, a), b, b),
        StatementS::Participant(a, d) => add_lane(
            lanes,
            a,
            match d {
                Some(n) => n,
                None => a,
            },
        ),
        _ => lanes,
    }
}

/// The lanes after the first `n` statements.
pub open spec fn lanes_upto(d: Seq<StatementS>, n: int) -> Seq<LaneS>
    decreases n,
{
    if n <= 0 {
        seq![]
    } else {
        step_lanes(lanes_upto(d, n - 1), d[n - 1])
    }
}

pub open spec fn lane_center(l: LaneS) -> int {
    l.x + l.w / 2
}

/// The rows of the signals among the first `n` statements.
pub open spec fn rows_upto(d: Seq<StatementS>, n: int) -> Seq<RowS>
    decreases n,
{
    if n <= 0 {
        seq![]
    } else {
        let prev = rows_upto(d, n - 1);
        match d[n - 1] {
            StatementS::Signal(a, t, b, m) => {
                let ls = lanes_upto(d, n);
                prev.push(
                    RowS {
                        from: a,
                        kind: t,
                        to: b,
                        message: m,
                        x_from: lane_center(ls[find_key(ls, a)->0]),
                        x_to: lane_center(ls[find_key(ls, b)->0]),
                        y: sum_h(prev),
                        h: row_height(),
                    },
                )
            },
            _ => prev,
        }
    }
}

/// The text of the first title among the first `n` statements.
pub open spec fn title_upto(d: Seq<StatementS>, n: int) -> Option<Seq<char>>
    decreases n,
{
    if n <= 0 {
        None
    } else {
        match title_upto(d, n - 1) {
            Some(t) => Some(t),
            None => match d[n - 1] {
                StatementS::Title(t) => Some(t),
                _ => None,
            },
        }
    }
}

/// The box of the title: at the diagram margin, padded on all sides.
pub open spec fn title_rect(t: Seq<char>) -> Rectangle {
    Rectangle {
        x: DIAGRAM_MARGIN,
        y: DIAGRAM_MARGIN,
        w: (text_w(t) + (TITLE_PADDING + TITLE_MARGIN) * 2) as i64,
        h: (FONT_SIZE + (TITLE_PADDING + TITLE_MARGIN) * 2) as i64,
    }
}

/// Spec model of a layout.
pub struct LayoutS {
    pub title: Option<Seq<char>>,
    pub lanes: Seq<LaneS>,
    pub rows: Seq<RowS>,
}

/// The layout of a document.
pub open spec fn layout_of(d: Seq<StatementS>) -> LayoutS {
    LayoutS {
        title: title_upto(d, d.len() as int),
        lanes: lanes_upto(d, d.len() as int),
        rows: rows_upto(d, d.len() as int),
    }
}

/// A lane: the actor's key, the text shown for it, and its box.
#[derive(Debug)]
pub struct Lane {
    pub key: Actor,
    pub display: Actor,
    pub rect: Rectangle,
}

impl View for Lane {
    type V = LaneS;

    open spec fn view(&self) -> LaneS {
        LaneS {
            key: self.key@,
            display: self.display@,
            x: self.rect.x as int,
            y: self.rect.y as int,
            w: self.rect.w as int,
            h: self.rect.h as int,
        }
    }
}

/// A signal row: the signal, the centres of its two lanes, its top and height.
#[derive(Debug)]
pub struct Row {
    pub signal: Signal,
    pub x_from: i64,
    pub x_to: i64,
    pub y: i64,
    pub h: i64,
}

impl View for Row {
    type V = RowS;

    open spec fn view(&self) -> RowS {
        RowS {
            from: self.signal.from@,
            kind: self.signal.kind,
            to: self.signal.to@,
            message: self.signal.message@,
            x_from: self.x_from as int,
            x_to: self.x_to as int,
            y: self.y as int,
            h: self.h as int,
        }
    }
}

#[derive(Debug)]
pub struct Layout {
    pub title: Option<(Title, Rectangle)>,
    pub lanes: Vec<Lane>,
    pub rows: Vec<Row>,
}

impl View for Layout {
    type V = LayoutS;

    open spec fn view(&self) -> LayoutS {
        LayoutS {
            title: match self.title {
                Some((t, _)) => Some(t.text@),
                None => None,
            },
            lanes: self.lanes@.map_values(|l: Lane| l@),
            rows: self.rows@.map_values(|r: Row| r@),
        }
    }
}

pub open spec fn lanes_view(lanes: Seq<Lane>) -> Seq<LaneS> {
    lanes.map_values(|l: Lane| l@)
}

pub open spec fn rows_view(rows: Seq<Row>) -> Seq<RowS> {
    rows.map_values(|r: Row| r@)
}

/// Lanes of bounded width, packed from the left.
pub open spec fn lanes_packed(lanes: Seq<LaneS>) -> bool {
    forall|i: int|
        0 <= i < lanes.len() ==> {
            &&& (#[trigger] lanes[i]).x == sum_w(lanes.take(i))
            &&& 0 < lanes[i].w <= 32 * MAX_TEXT
            &&& lanes[i].h == lane_height()
            &&& lanes[i].y == 0
        }
}

pub proof fn lemma_sum_w_bound(lanes: Seq<LaneS>)
    requires
        lanes_packed(lanes),
    ensures
        0 <= sum_w(lanes) <= lanes.len() * (32 * MAX_TEXT),
    decreases lanes.len(),
{
    if lanes.len() > 0 {
        let p = lanes.drop_last();
        assert forall|i: int| 0 <= i < p.len() implies {
            &&& (#[trigger] p[i]).x == sum_w(p.take(i))
            &&& 0 < p[i].w <= 32 * MAX_TEXT
            &&& p[i].h == lane_height()
            &&& p[i].y == 0
        } by {
            assert(lanes[i] == p[i]);
            assert(p.take(i) =~= lanes.take(i));
        }
        lemma_sum_w_bound(p);
        assert(lanes[lanes.len() - 1] == lanes.last());
        assert((lanes.len() - 1) * (32 * MAX_TEXT) + 32 * MAX_TEXT == lanes.len() * (32
            * MAX_TEXT)) by (nonlinear_arith);
    }
}

pub proof fn lemma_add_lane_packed(lanes: Seq<LaneS>, key: ActorS, display: Seq<char>)
    requires
        lanes_packed(lanes),
        text_fits(display),
    ensures
        lanes_packed(add_lane(lanes, key, display)),
        add_lane(lanes, key, display).len() <= lanes.len() + 1,
{
    let r = add_lane(lanes, key, display);
    lemma_text_w_bound(display);
    if find_key(lanes, key) is None {
        assert forall|i: int| 0 <= i < r.len() implies {
            &&& (#[trigger] r[i]).x == sum_w(r.take(i))
            &&& 0 < r[i].w <= 32 * MAX_TEXT
            &&& r[i].h == lane_height()
            &&& r[i].y == 0
        } by {
            if i < lanes.len() {
                assert(r.take(i) =~= lanes.take(i));
                assert(r[i] == lanes[i]);
            } else {
                assert(r.take(i) =~= lanes);
            }
        }
    }
}

pub proof fn lemma_step_lanes_packed(lanes: Seq<LaneS>, st: StatementS)
    requires
        lanes_packed(lanes),
        statement_fits(st),
    ensures
        lanes_packed(step_lanes(lanes, st)),
        step_lanes(lanes, st).len() <= lanes.len() + 2,
{
    match st {
        StatementS::Signal(a, _, b, _) => {
            lemma_add_lane_packed(lanes, a, a);
            lemma_add_lane_packed(add_lane(lanes, a, a), b, b);
        },
        StatementS::Participant(a, d) => {
            let n = match d {
                Some(n) => n,
                None => a,
            };
            lemma_add_lane_packed(lanes, a, n);
        },
        _ => {},
    }
}

/// First lane whose key is `key`; its index and box.
pub fn pos_by_actor(lanes: &Vec<Lane>, key: &Actor) -> (r: Option<(usize, Rectangle)>)
    ensures
        match r {
            Some((i, rect)) => find_key(lanes_view(lanes@), key@) == Some(i as int) && i
                < lanes.len() && rect == lanes@[i as int].rect,
            None => find_key(lanes_view(lanes@), key@) is None,
        },
{
    let ghost lv = lanes_view(lanes@);
    let mut found: Option<usize> = None;
    let mut i: usize = 0;
    while i < lanes.len()
        invariant
            i <= lanes.len(),
            lv == lanes_view(lanes@),
            match found {
                Some(j) => find_key(lv.take(i as int), key@) == Some(j as int) && j < i,
                None => find_key(lv.take(i as int), key@) is None,
            },
        decreases lanes.len() - i,
    {
        assert(lv.take(i + 1).drop_last() =~= lv.take(i as int));
        if found.is_none() && crate::ast::chars_eq(&lanes[i].key.name, &key.name) {
            found = Some(i);
        }
        i = i + 1;
    }
    assert(lv.take(lanes.len() as int) =~= lv);
    match found {
        Some(j) => Some((j, lanes[j].rect)),
        None => None,
    }
}

/// Gives `key` a lane at the right end, shown as `display`, unless it has one.
pub fn register(lanes: &mut Vec<Lane>, total_w: &mut i64, key: &Actor, display: &Actor)
    requires
        lanes_packed(lanes_view(old(lanes)@)),
        *old(total_w) == sum_w(lanes_view(old(lanes)@)),
        old(lanes).len() < 2 * MAX_STATEMENTS,
        text_fits(display@),
    ensures
        lanes_view(final(lanes)@) == add_lane(lanes_view(old(lanes)@), key@, display@),
        *final(total_w) == sum_w(lanes_view(final(lanes)@)),
{
    proof {
        lemma_sum_w_bound(lanes_view(lanes@));
        assert(lanes.len() * (32 * MAX_TEXT) <= 2 * MAX_STATEMENTS * (32 * MAX_TEXT))
            by (nonlinear_arith)
            requires
                lanes.len() < 2 * MAX_STATEMENTS,
        ;
    }
    if pos_by_actor(lanes, key).is_none() {
        let bbox = text_bbox(&display.name);
        let w = bbox.w + (ACTOR_MARGIN + ACTOR_PADDING) * 2;
        let h = bbox.h + (ACTOR_MARGIN + ACTOR_PADDING) * 2;
        let lane = Lane {
            key: key.duplicate(),
            display: display.duplicate(),
            rect: Rectangle::new(bbox.x + *total_w, bbox.y, w, h),
        };
        let ghost before = lanes_view(lanes@);
        lanes.push(lane);
        *total_w = *total_w + w;
        proof {
            assert(lanes_view(lanes@) =~= before.push(lane@));
            assert(lanes_view(lanes@).drop_last() =~= before);
        }
    }
}

pub proof fn lemma_packed_prefix(lanes: Seq<LaneS>, n: int)
    requires
        lanes_packed(lanes),
        0 <= n <= lanes.len(),
    ensures
        lanes_packed(lanes.take(n)),
{
    let p = lanes.take(n);
    assert forall|i: int| 0 <= i < p.len() implies {
        &&& (#[trigger] p[i]).x == sum_w(p.take(i))
        &&& 0 < p[i].w <= 32 * MAX_TEXT
        &&& p[i].h == lane_height()
        &&& p[i].y == 0
    } by {
        assert(lanes[i] == p[i]);
        assert(p.take(i) =~= lanes.take(i));
    }
}

/// Each lane's left edge and centre stay within the packed width.
pub proof fn lemma_lane_bounds(lanes: Seq<LaneS>, i: int)
    requires
        lanes_packed(lanes),
        0 <= i < lanes.len(),
    ensures
        0 <= lanes[i].x <= i * (32 * MAX_TEXT),
        0 <= lane_center(lanes[i]) <= (i + 1) * (32 * MAX_TEXT),
{
    lemma_packed_prefix(lanes, i);
    lemma_sum_w_bound(lanes.take(i));
    assert(i * (32 * MAX_TEXT) + 32 * MAX_TEXT == (i + 1) * (32 * MAX_TEXT)) by (nonlinear_arith);
}

pub proof fn lemma_find_push(lanes: Seq<LaneS>, l: LaneS, key: ActorS)
    ensures
        find_key(lanes.push(l), key) == match find_key(lanes, key) {
            Some(i) => Some(i),
            None => if l.key == key {
                Some(lanes.len() as int)
            } else {
                None
            },
        },
{
    assert(lanes.push(l).drop_last() =~= lanes);
}

/// After `add_lane`, the added key and every key found before are found.
pub proof fn lemma_add_lane_finds(lanes: Seq<LaneS>, key: ActorS, display: Seq<char>, other: ActorS)
    ensures
        find_key(add_lane(lanes, key, display), key) is Some,
        find_key(lanes, other) is Some ==> find_key(add_lane(lanes, key, display), other)
            == find_key(lanes, other),
{
    if find_key(lanes, key) is None {
        let l = LaneS {
            key,
            display,
            x: sum_w(lanes),
            y: 0,
            w: lane_width(display),
            h: lane_height(),
        };
        lemma_find_push(lanes, l, key);
        lemma_find_push(lanes, l, other);
    }
}

/// The title pass: the first title, and its box.
fn layout_title(doc: &Document) -> (r: Option<(Title, Rectangle)>)
    requires
        doc_fits(doc@),
    ensures
        match r {
            Some((t, rect)) => title_upto(doc@, doc@.len() as int) == Some(t.text@) && rect
                == title_rect(t.text@) && text_fits(t.text@),
            None => title_upto(doc@, doc@.len() as int) is None,
        },
{
    let mut title: Option<(Title, Rectangle)> = None;
    let mut i: usize = 0;
    while i < doc.statements.len()
        invariant
            i <= doc.statements.len(),
            doc_fits(doc@),
            match title {
                Some((t, rect)) => title_upto(doc@, i as int) == Some(t.text@) && rect
                    == title_rect(t.text@) && text_fits(t.text@),
                None => title_upto(doc@, i as int) is None,
            },
        decreases doc.statements.len() - i,
    {
        if title.is_none() {
            match &doc.statements[i] {
                Statement::Title(t) => {
                    assert(statement_fits(doc@[i as int]));
                    let bbox = text_bbox(&t.text);
                    let rect = Rectangle::new(
                        DIAGRAM_MARGIN,
                        DIAGRAM_MARGIN,
                        bbox.w + (TITLE_PADDING + TITLE_MARGIN) * 2,
                        bbox.h + (TITLE_PADDING + TITLE_MARGIN) * 2,
                    );
                    title = Some((Title::new(copy_chars(&t.text)), rect));
                },
                _ => {},
            }
        }
        i = i + 1;
    }
    title
}

/// The main pass: lanes in first-use order, rows in source order.
fn layout_lanes(doc: &Document) -> (r: (Vec<Lane>, Vec<Row>))
    requires
        doc_fits(doc@),
    ensures
        lanes_view(r.0@) == lanes_upto(doc@, doc@.len() as int),
        rows_view(r.1@) == rows_upto(doc@, doc@.len() as int),
        lanes_packed(lanes_view(r.0@)),
        r.0.len() <= 2 * MAX_STATEMENTS,
        r.1.len() <= MAX_STATEMENTS,
        sum_h(rows_view(r.1@)) == r.1.len() * row_height(),
        forall|k: int| 0 <= k < r.1.len() ==> {
            &&& 0 <= (#[trigger] r.1@[k]).y <= 56 * MAX_STATEMENTS
            &&& r.1@[k].h == row_height()
            &&& 0 <= r.1@[k].x_from <= 64 * MAX_STATEMENTS * 32 * MAX_TEXT
            &&& 0 <= r.1@[k].x_to <= 64 * MAX_STATEMENTS * 32 * MAX_TEXT
            &&& text_fits(r.1@[k].signal.message@)
        },
{
    let mut lanes: Vec<Lane> = Vec::new();
    let mut rows: Vec<Row> = Vec::new();
    let mut total_w: i64 = 0;
    let mut total_h: i64 = 0;
    let mut i: usize = 0;
    assert(lanes_view(lanes@) =~= seq![]);
    assert(rows_view(rows@) =~= seq![]);
    while i < doc.statements.len()
        invariant
            i <= doc.statements.len(),
            doc_fits(doc@),
            lanes_view(lanes@) == lanes_upto(doc@, i as int),
            rows_view(rows@) == rows_upto(doc@, i as int),
            lanes_packed(lanes_view(lanes@)),
            total_w == sum_w(lanes_view(lanes@)),
            total_h == sum_h(rows_view(rows@)),
            lanes.len() <= 2 * i,
            0 <= total_h <= 56 * i,
            doc.statements.len() <= MAX_STATEMENTS,
            rows.len() <= i,
            total_h == 56 * rows.len(),
            forall|k: int| 0 <= k < rows.len() ==> {
            &&& 0 <= (#[trigger] rows@[k]).y <= 56 * MAX_STATEMENTS
            &&& rows@[k].h == row_height()
            &&& 0 <= rows@[k].x_from <= 64 * MAX_STATEMENTS * 32 * MAX_TEXT
            &&& 0 <= rows@[k].x_to <= 64 * MAX_STATEMENTS * 32 * MAX_TEXT
            &&& text_fits(rows@[k].signal.message@)
        },
        decreases doc.statements.len() - i,
    {
        let ghost before = lanes_view(lanes@);
        let ghost rows_before = rows_view(rows@);
        assert(statement_fits(doc@[i as int]));
        proof {
            lemma_step_lanes_packed(before, doc@[i as int]);
        }
        match &doc.statements[i] {
            Statement::Signal(sig) => {
                register(&mut lanes, &mut total_w, &sig.from, &sig.from);
                proof {
                    lemma_add_lane_packed(before, sig.from@, sig.from@);
                    lemma_add_lane_finds(before, sig.from@, sig.from@, sig.to@);
                }
                let ghost mid = lanes_view(lanes@);
                register(&mut lanes, &mut total_w, &sig.to, &sig.to);
                proof {
                    lemma_add_lane_finds(mid, sig.to@, sig.to@, sig.from@);
                }
                let bbox = text_bbox(&sig.message);
                let h = bbox.h + (SIGNAL_MARGIN + SIGNAL_PADDING) * 2;
                assert(h == row_height() && h == 56);
                match (pos_by_actor(&lanes, &sig.from), pos_by_actor(&lanes, &sig.to)) {
                    (Some((fi, fr)), Some((ti, tr))) => {
                        proof {
                            lemma_lane_bounds(lanes_view(lanes@), fi as int);
                            lemma_lane_bounds(lanes_view(lanes@), ti as int);
                            assert((fi + 1) * (32 * MAX_TEXT) <= 2 * MAX_STATEMENTS * (32
                                * MAX_TEXT)) by (nonlinear_arith)
                                requires
                                    fi < lanes.len(),
                                    lanes.len() <= 2 * MAX_STATEMENTS,
                            ;
                            assert((ti + 1) * (32 * MAX_TEXT) <= 2 * MAX_STATEMENTS * (32
                                * MAX_TEXT)) by (nonlinear_arith)
                                requires
                                    ti < lanes.len(),
                                    lanes.len() <= 2 * MAX_STATEMENTS,
                            ;
                        }
                        let row = Row {
                            signal: Signal::new(
                                sig.from.duplicate(),
                                sig.kind,
                                sig.to.duplicate(),
                                copy_chars(&sig.message),
                            ),
                            x_from: fr.center_x(),
                            x_to: tr.center_x(),
                            y: total_h,
                            h,
                        };
                        rows.push(row);
                        total_h = total_h + h;
                        proof {
                            assert(rows_view(rows@) =~= rows_before.push(row@));
                            assert(rows_view(rows@).drop_last() =~= rows_before);
                        }
                    },
                    _ => {
                        proof {
                            assert(false);
                        }
                    },
                }
            },
            Statement::Participant(p) => {
                match &p.display {
                    Some(n) => register(&mut lanes, &mut total_w, &p.actor, n),
                    None => register(&mut lanes, &mut total_w, &p.actor, &p.actor),
                }
            },
            _ => {},
        }
        i = i + 1;
    }
    (lanes, rows)
}

/// Lays a document out: the title pass first, then the main pass.
pub fn layout(doc: &Document) -> (r: Layout)
    requires
        doc_fits(doc@),
    ensures
        r@ == layout_of(doc@),
        layout_wf(&r),
{
    let title = layout_title(doc);
    let (lanes, rows) = layout_lanes(doc);
    Layout { title, lanes, rows }
}

/// Right edge of the rightmost lane; 0 without lanes.
pub open spec fn max_right(lanes: Seq<LaneS>) -> int
    decreases lanes.len(),
{
    if lanes.len() == 0 {
        0
    } else {
        let m = max_right(lanes.drop_last());
        let r = lanes.last().x + lanes.last().w;
        if r > m {
            r
        } else {
            m
        }
    }
}

/// Height of the tallest lane; 0 without lanes.
pub open spec fn max_h(lanes: Seq<LaneS>) -> int
    decreases lanes.len(),
{
    if lanes.len() == 0 {
        0
    } else {
        let m = max_h(lanes.drop_last());
        if lanes.last().h > m {
            lanes.last().h
        } else {
            m
        }
    }
}

/// Height of the title block; 0 without a title.
pub open spec fn title_height(title: Option<Seq<char>>) -> int {
    match title {
        Some(t) => title_rect(t).h as int,
        None => 0,
    }
}

pub open spec fn canvas_width_of(l: LayoutS) -> int {
    max_right(l.lanes)
}

/// Title block, margin, the signal rows, and the actor boxes above and below.
pub open spec fn canvas_height_of(l: LayoutS) -> int {
    title_height(l.title) + DIAGRAM_MARGIN + sum_h(l.rows) + 2 * max_h(l.lanes)
}

/// Well-formed layouts: what `layout` builds.
pub open spec fn layout_wf(l: &Layout) -> bool {
    &&& lanes_packed(l@.lanes)
    &&& l.lanes.len() <= 2 * MAX_STATEMENTS
    &&& l.rows.len() <= MAX_STATEMENTS
    &&& sum_h(l@.rows) == l.rows.len() * row_height()
    &&& forall|i: int| 0 <= i < l.rows.len() ==> {
            &&& 0 <= (#[trigger] l.rows@[i]).y <= 56 * MAX_STATEMENTS
            &&& l.rows@[i].h == row_height()
            &&& 0 <= l.rows@[i].x_from <= 64 * MAX_STATEMENTS * 32 * MAX_TEXT
            &&& 0 <= l.rows@[i].x_to <= 64 * MAX_STATEMENTS * 32 * MAX_TEXT
            &&& text_fits(l.rows@[i].signal.message@)
        }
    &&& match l.title {
        Some((t, rect)) => rect == title_rect(t.text@) && text_fits(t.text@),
        None => true,
    }
}

pub proof fn lemma_max_right_packed(lanes: Seq<LaneS>)
    requires
        lanes_packed(lanes),
    ensures
        max_right(lanes) == sum_w(lanes),
    decreases lanes.len(),
{
    if lanes.len() > 0 {
        let p = lanes.drop_last();
        lemma_packed_prefix(lanes, lanes.len() - 1);
        assert(p =~= lanes.take(lanes.len() - 1));
        lemma_max_right_packed(p);
        lemma_sum_w_bound(p);
        assert(lanes[lanes.len() - 1] == lanes.last());
    }
}

pub proof fn lemma_max_h_packed(lanes: Seq<LaneS>)
    requires
        lanes_packed(lanes),
    ensures
        max_h(lanes) == if lanes.len() == 0 {
            0
        } else {
            lane_height()
        },
    decreases lanes.len(),
{
    if lanes.len() > 0 {
        lemma_packed_prefix(lanes, lanes.len() - 1);
        assert(lanes.drop_last() =~= lanes.take(lanes.len() - 1));
        lemma_max_h_packed(lanes.drop_last());
        assert(lanes[lanes.len() - 1] == lanes.last());
    }
}

/// Canvas width: the right edge of the rightmost lane.
pub fn canvas_width(l: &Layout) -> (r: i64)
    requires
        layout_wf(l),
    ensures
        r == canvas_width_of(l@),
{
    proof {
        lemma_max_right_packed(l@.lanes);
        lemma_sum_w_bound(l@.lanes);
        assert(l.lanes.len() * (32 * MAX_TEXT) <= 2 * MAX_STATEMENTS * (32 * MAX_TEXT))
            by (nonlinear_arith)
            requires
                l.lanes.len() <= 2 * MAX_STATEMENTS,
        ;
    }
    if l.lanes.len() == 0 {
        0
    } else {
        let n = l.lanes.len();
        proof {
            let lv = l@.lanes;
            assert(lv.drop_last() =~= lv.take(n - 1));
            assert(lv[n - 1] == lv.last());
            assert(lv[n - 1] == l.lanes@[n - 1]@);
        }
        l.lanes[n - 1].rect.x + l.lanes[n - 1].rect.w
    }
}

/// Canvas height: title block, margin, all rows, and twice the tallest lane.
pub fn canvas_height(l: &Layout) -> (r: i64)
    requires
        layout_wf(l),
    ensures
        r == canvas_height_of(l@),
{
    proof {
        lemma_max_h_packed(l@.lanes);
    }
    let title_h: i64 = match &l.title {
        Some((_, rect)) => rect.h,
        None => 0,
    };
    let n = l.rows.len() as i64;
    proof {
        assert(0 <= n * 56 <= 56 * MAX_STATEMENTS) by (nonlinear_arith)
            requires
                0 <= n <= MAX_STATEMENTS,
        ;
    }
    let rows_h: i64 = n * (FONT_SIZE + (SIGNAL_MARGIN + SIGNAL_PADDING) * 2);
    let lane_h: i64 = if l.lanes.len() == 0 {
        0
    } else {
        FONT_SIZE + (ACTOR_MARGIN + ACTOR_PADDING) * 2
    };
    title_h + DIAGRAM_MARGIN + rows_h + 2 * lane_h
}

/// Whether a text is small enough to be laid out.
pub fn text_fits_exec(t: &Vec<char>) -> (r: bool)
    ensures
        r == text_fits(t@),
{
    t.len() <= MAX_TEXT && display_width(t) <= MAX_TEXT
}

/// Whether a document is small enough to be laid out.
pub fn fits(doc: &Document) -> (r: bool)
    ensures
        r == doc_fits(doc@),
{
    if doc.statements.len() > MAX_STATEMENTS {
        return false;
    }
    let mut i: usize = 0;
    while i < doc.statements.len()
        invariant
            i <= doc.statements.len() <= MAX_STATEMENTS,
            forall|j: int| 0 <= j < i ==> statement_fits(#[trigger] doc@[j]),
        decreases doc.statements.len() - i,
    {
        let ok = match &doc.statements[i] {
            Statement::Title(t) => text_fits_exec(&t.text),
            Statement::Signal(s) => text_fits_exec(&s.from.name) && text_fits_exec(&s.to.name)
                && text_fits_exec(&s.message),
            Statement::Participant(p) => text_fits_exec(&p.actor.name) && match &p.display {
                Some(n) => text_fits_exec(&n.name),
                None => true,
            },
            Statement::Note(_) => true,
        };
        if !ok {
            assert(!statement_fits(doc@[i as int]));
            return false;
        }
        i = i + 1;
    }
    true
}

/// The actor keys that the first `n` statements refer to, in source order:
/// a signal's sender then its receiver, a participant's actor.
pub open spec fn refs_upto(d: Seq<StatementS>, n: int) -> Seq<ActorS>
    decreases n,
{
    if n <= 0 {
        seq![]
    } else {
        let prev = refs_upto(d, n - 1);
        match d[n - 1] {
            StatementS::Signal(a, _, b, _) => prev.push(a).push(b),
            StatementS::Participant(a, _) => prev.push(a),
            _ => prev,
        }
    }
}

/// Each key once, at its first occurrence.
pub open spec fn first_uses(s: Seq<ActorS>) -> Seq<ActorS>
    decreases s.len(),
{
    if s.len() == 0 {
        seq![]
    } else {
        let p = first_uses(s.drop_last());
        if p.contains(s.last()) {
            p
        } else {
            p.push(s.last())
        }
    }
}

pub open spec fn keys_of(lanes: Seq<LaneS>) -> Seq<ActorS> {
    lanes.map_values(|l: LaneS| l.key)
}

pub proof fn lemma_find_iff_contains(lanes: Seq<LaneS>, key: ActorS)
    ensures
        find_key(lanes, key) is Some <==> keys_of(lanes).contains(key),
    decreases lanes.len(),
{
    if lanes.len() > 0 {
        let p = lanes.drop_last();
        lemma_find_iff_contains(p, key);
        assert(keys_of(lanes) =~= keys_of(p).push(lanes.last().key));
        if keys_of(lanes).contains(key) && !keys_of(p).contains(key) {
            let i = choose|i: int| 0 <= i < keys_of(lanes).len() && keys_of(lanes)[i] == key;
            if i < p.len() {
                assert(keys_of(p)[i] == key);
            }
        }
        if keys_of(p).contains(key) {
            let i = choose|i: int| 0 <= i < keys_of(p).len() && keys_of(p)[i] == key;
            assert(keys_of(lanes)[i] == key);
        }
        if lanes.last().key == key {
            assert(keys_of(lanes)[lanes.len() - 1] == key);
        }
    } else {
        assert(!keys_of(lanes).contains(key));
    }
}

pub proof fn lemma_add_lane_keys(lanes: Seq<LaneS>, key: ActorS, display: Seq<char>, refs: Seq<ActorS>)
    requires
        keys_of(lanes) == first_uses(refs),
    ensures
        keys_of(add_lane(lanes, key, display)) == first_uses(refs.push(key)),
{
    lemma_find_iff_contains(lanes, key);
    assert(refs.push(key).drop_last() =~= refs);
    if find_key(lanes, key) is None {
        let l = LaneS {
            key,
            display,
            x: sum_w(lanes),
            y: 0,
            w: lane_width(display),
            h: lane_height(),
        };
        assert(keys_of(lanes.push(l)) =~= keys_of(lanes).push(key));
    }
}

/// Lanes are allocated left to right in order of first reference, by a
/// signal's endpoints or a participant declaration; each actor key gets one.
pub proof fn lemma_lanes_first_use_order(d: Seq<StatementS>, n: int)
    requires
        0 <= n <= d.len(),
    ensures
        keys_of(lanes_upto(d, n)) == first_uses(refs_upto(d, n)),
    decreases n,
{
    if n > 0 {
        lemma_lanes_first_use_order(d, n - 1);
        let prev = lanes_upto(d, n - 1);
        let refs = refs_upto(d, n - 1);
        match d[n - 1] {
            StatementS::Signal(a, _, b, _) => {
                lemma_add_lane_keys(prev, a, a, refs);
                lemma_add_lane_keys(add_lane(prev, a, a), b, b, refs.push(a));
            },
            StatementS::Participant(a, o) => {
                let disp = match o {
                    Some(x) => x,
                    None => a,
                };
                lemma_add_lane_keys(prev, a, disp, refs);
            },
            _ => {
                assert(keys_of(lanes_upto(d, n)) == keys_of(prev));
            },
        }
    } else {
        assert(keys_of(seq![]) =~= seq![]);
    }
}

/// A signal from an actor to itself gives that actor one lane at most, and
/// a row whose two ends are the same lane centre.
pub proof fn lemma_self_signal(d: Seq<StatementS>, n: int)
    requires
        0 < n <= d.len(),
        d[n - 1] is Signal,
        d[n - 1]->Signal_0 == d[n - 1]->Signal_2,
    ensures
        lanes_upto(d, n) == add_lane(lanes_upto(d, n - 1), d[n - 1]->Signal_0, d[n - 1]->Signal_0),
        lanes_upto(d, n).len() <= lanes_upto(d, n - 1).len() + 1,
        rows_upto(d, n).last().from == rows_upto(d, n).last().to,
        rows_upto(d, n).last().x_from == rows_upto(d, n).last().x_to,
{
    let a = d[n - 1]->Signal_0;
    let ls = lanes_upto(d, n - 1);
    lemma_add_lane_finds(ls, a, a, a);
}

/// The first title statement gives the title; later ones change nothing.
pub proof fn lemma_first_title_wins(d: Seq<StatementS>, n: int, t: Seq<char>)
    requires
        0 <= n <= d.len(),
    ensures
        title_upto(d, n) == Some(t) <==> exists|i: int|
            0 <= i < n && d[i] == StatementS::Title(t) && forall|j: int|
                0 <= j < i ==> !(#[trigger] d[j] is Title),
    decreases n,
{
    if n > 0 {
        lemma_first_title_wins(d, n - 1, t);
        if title_upto(d, n - 1) is None {
            lemma_no_title_before(d, n - 1);
        }
        if title_upto(d, n - 1) is Some && title_upto(d, n - 1) != Some(t) {
            let u = title_upto(d, n - 1)->0;
            lemma_first_title_wins(d, n - 1, u);
            if exists|i: int|
                0 <= i < n && d[i] == StatementS::Title(t) && forall|j: int|
                    0 <= j < i ==> !(#[trigger] d[j] is Title) {
                let i = choose|i: int|
                    0 <= i < n && d[i] == StatementS::Title(t) && forall|j: int|
                        0 <= j < i ==> !(#[trigger] d[j] is Title);
                let k = choose|k: int|
                    0 <= k < n - 1 && d[k] == StatementS::Title(u) && forall|j: int|
                        0 <= j < k ==> !(#[trigger] d[j] is Title);
                if i < k {
                    assert(d[i] is Title);
                } else if k < i {
                    assert(d[k] is Title);
                }
            }
        }
    }
}

pub proof fn lemma_no_title_before(d: Seq<StatementS>, n: int)
    requires
        0 <= n <= d.len(),
        title_upto(d, n) is None,
    ensures
        forall|j: int| 0 <= j < n ==> !(#[trigger] d[j] is Title),
    decreases n,
{
    if n > 0 {
        lemma_no_title_before(d, n - 1);
    }
}

pub proof fn lemma_lanes_upto_packed(d: Seq<StatementS>, n: int)
    requires
        doc_fits(d),
        0 <= n <= d.len(),
    ensures
        lanes_packed(lanes_upto(d, n)),
    decreases n,
{
    if n > 0 {
        lemma_lanes_upto_packed(d, n - 1);
        lemma_step_lanes_packed(lanes_upto(d, n - 1), d[n - 1]);
    }
}

/// The canvas is as wide as all lanes together, and as tall as the title
/// block, the margin, all signal rows and twice the tallest lane.
pub proof fn lemma_canvas_size(d: Seq<StatementS>)
    requires
        doc_fits(d),
    ensures
        canvas_width_of(layout_of(d)) == sum_w(layout_of(d).lanes),
        canvas_height_of(layout_of(d)) == title_height(layout_of(d).title) + DIAGRAM_MARGIN
            + sum_h(layout_of(d).rows) + 2 * max_h(layout_of(d).lanes),
{
    lemma_lanes_upto_packed(d, d.len() as int);
    lemma_max_right_packed(lanes_upto(d, d.len() as int));
}

/// Later statements only add lanes at the right: a lane, once allocated,
/// keeps its place and its box.
pub proof fn lemma_lanes_stable(d: Seq<StatementS>, n: int, m: int)
    requires
        0 <= n <= m <= d.len(),
    ensures
        lanes_upto(d, n).len() <= lanes_upto(d, m).len(),
        lanes_upto(d, m).take(lanes_upto(d, n).len() as int) == lanes_upto(d, n),
    decreases m - n,
{
    if n < m {
        lemma_lanes_stable(d, n, m - 1);
        let a = lanes_upto(d, n);
        let b = lanes_upto(d, m - 1);
        let c = lanes_upto(d, m);
        assert(c.len() >= b.len() && c.take(b.len() as int) =~= b) by {
            match d[m - 1] {
                StatementS::Signal(x, _, y, _) => {
                    let b1 = add_lane(b, x, x);
                    assert(b1.take(b.len() as int) =~= b);
                    assert(add_lane(b1, y, y).take(b1.len() as int) =~= b1);
                    assert(c.take(b.len() as int) =~= b1.take(b.len() as int));
                },
                StatementS::Participant(x, o) => {
                    let disp = match o {
                        Some(z) => z,
                        None => x,
                    };
                    assert(add_lane(b, x, disp).take(b.len() as int) =~= b);
                },
                _ => {
                    assert(c.take(b.len() as int) =~= b);
                },
            }
        }
        assert(c.take(a.len() as int) =~= b.take(a.len() as int));
    } else {
        assert(lanes_upto(d, m).take(lanes_upto(d, n).len() as int) =~= lanes_upto(d, n));
    }
}

pub proof fn lemma_text_w_bound(s: Seq<char>)
    requires
        text_fits(s),
    ensures
        0 <= text_w(s) <= 16 * MAX_TEXT,
{
    let d = display_width_of(s);
    let n = encode_utf8(s).len();
    lemma_utf8_len_bound(s);
    assert(0 <= d * 8 + (n / 5) * 6 <= 16 * MAX_TEXT) by (nonlinear_arith)
        requires
            0 <= d <= MAX_TEXT,
            0 <= n <= 4 * MAX_TEXT,
    ;
}

} // verus!
