//! The drawing surface: labels, label backgrounds and paths, in drawing order.
//! A path is a start point and the corners it runs through; the renderer turns
//! each straight stretch into one wobbly curve, in the order given here.
use vstd::prelude::*;
use vstd::string::StringExecFns;

verus! {

#[derive(Clone, Copy, Debug, PartialEq, Eq, Structural)]
pub enum TextAnchor {
    Start,
    Middle,
    End,
}

#[derive(Clone, Copy, Debug, PartialEq, Eq, Structural)]
pub enum MarkerEnd {
    ArrowBlock,
    ArrowOpen,
}

pub open spec fn points_view(p: Seq<(i64, i64)>) -> Seq<(int, int)> {
    p.map_values(|q: (i64, i64)| (q.0 as int, q.1 as int))
}

pub open spec fn opt_str(o: &Option<String>) -> Option<Seq<char>> {
    match o {
        Some(s) => Some(s@),
        None => None,
    }
}

#[derive(Debug)]
pub struct Text {
    pub x: i64,
    pub y: i64,
    pub text: Vec<char>,
    pub text_anchor: Option<TextAnchor>,
}

impl Text {
    pub fn new(x: i64, y: i64, text: Vec<char>) -> (r: Text)
        ensures
            r.x == x && r.y == y && r.text@ == text@ && r.text_anchor is None,
    {
        Text { x, y, text, text_anchor: None }
    }

    pub fn with_text_anchor(self, text_anchor: TextAnchor) -> (r: Text)
        ensures
            r.x == self.x && r.y == self.y && r.text@ == self.text@,
            r.text_anchor == Some(text_anchor),
    {
        Text { text_anchor: Some(text_anchor), ..self }
    }
}

#[derive(Debug)]
pub struct Path {
    pub x: i64,
    pub y: i64,
    pub points: Vec<(i64, i64)>,
    pub marker_end: Option<MarkerEnd>,
    pub stroke_dasharray: Option<String>,
}

impl Path {
    /// A path that starts at `(x, y)` and has no stretch yet.
    pub fn new(x: i64, y: i64) -> (r: Path)
        ensures
            r.x == x && r.y == y && r.points@ == Seq::<(i64, i64)>::empty(),
            r.marker_end is None && r.stroke_dasharray is None,
    {
        Path { x, y, points: Vec::new(), marker_end: None, stroke_dasharray: None }
    }

    /// A straight stretch from the current end to `(x, y)`.
    pub fn line_to(self, x: i64, y: i64) -> (r: Path)
        ensures
            r.x == self.x && r.y == self.y && r.points@ == self.points@.push((x, y)),
            r.marker_end == self.marker_end,
            opt_str(&r.stroke_dasharray) == opt_str(&self.stroke_dasharray),
    {
        let mut points = self.points;
        points.push((x, y));
        Path { points, ..self }
    }

    pub fn with_marker_end(self, marker_end: MarkerEnd) -> (r: Path)
        ensures
            r.x == self.x && r.y == self.y && r.points@ == self.points@,
            r.marker_end == Some(marker_end),
            opt_str(&r.stroke_dasharray) == opt_str(&self.stroke_dasharray),
    {
        Path { marker_end: Some(marker_end), ..self }
    }

    pub fn with_stroke_dasharray(self, stroke_dasharray: &str) -> (r: Path)
        ensures
            r.x == self.x && r.y == self.y && r.points@ == self.points@,
            r.marker_end == self.marker_end,
            opt_str(&r.stroke_dasharray) == Some(stroke_dasharray@),
    {
        Path { stroke_dasharray: Some(String::from_str(stroke_dasharray)), ..self }
    }
}

#[derive(Debug)]
pub struct Rect {
    pub x: i64,
    pub y: i64,
    pub width: i64,
    pub height: i64,
    pub r: Option<usize>,
    pub stroke: Option<String>,
    pub stroke_width: Option<usize>,
    pub fill: Option<String>,
    pub fill_opacity: Option<usize>,
}

impl Rect {
    pub fn new(x: i64, y: i64, width: i64, height: i64) -> (r: Rect)
        ensures
            r.x == x && r.y == y && r.width == width && r.height == height,
            r.r is None && r.stroke is None && r.stroke_width is None,
            r.fill is None && r.fill_opacity is None,
    {
        Rect {
            x,
            y,
            width,
            height,
            r: None,
            stroke: None,
            stroke_width: None,
            fill: None,
            fill_opacity: None,
        }
    }

    pub fn with_stroke(self, stroke: &str) -> (r: Rect)
        ensures
            r.x == self.x && r.y == self.y && r.width == self.width && r.height == self.height,
            r.r == self.r && r.stroke_width == self.stroke_width,
            r.fill_opacity == self.fill_opacity && opt_str(&r.fill) == opt_str(&self.fill),
            opt_str(&r.stroke) == Some(stroke@),
    {
        Rect { stroke: Some(String::from_str(stroke)), ..self }
    }

    pub fn with_stroke_width(self, stroke_width: usize) -> (r: Rect)
        ensures
            r.x == self.x && r.y == self.y && r.width == self.width && r.height == self.height,
            r.r == self.r && r.stroke_width == Some(stroke_width),
            r.fill_opacity == self.fill_opacity && opt_str(&r.fill) == opt_str(&self.fill),
            opt_str(&r.stroke) == opt_str(&self.stroke),
    {
        Rect { stroke_width: Some(stroke_width), ..self }
    }

    pub fn with_fill(self, fill: &str) -> (r: Rect)
        ensures
            r.x == self.x && r.y == self.y && r.width == self.width && r.height == self.height,
            r.r == self.r && r.stroke_width == self.stroke_width,
            r.fill_opacity == self.fill_opacity && opt_str(&r.fill) == Some(fill@),
            opt_str(&r.stroke) == opt_str(&self.stroke),
    {
        Rect { fill: Some(String::from_str(fill)), ..self }
    }

    pub fn with_fill_opacity(self, fill_opacity: usize) -> (r: Rect)
        ensures
            r.x == self.x && r.y == self.y && r.width == self.width && r.height == self.height,
            r.r == self.r && r.stroke_width == self.stroke_width,
            r.fill_opacity == Some(fill_opacity) && opt_str(&r.fill) == opt_str(&self.fill),
            opt_str(&r.stroke) == opt_str(&self.stroke),
    {
        Rect { fill_opacity: Some(fill_opacity), ..self }
    }
}

/// Spec model of an element.
pub enum ElementS {
    Text { x: int, y: int, text: Seq<char>, anchor: Option<TextAnchor> },
    Path {
        x: int,
        y: int,
        points: Seq<(int, int)>,
        marker: Option<MarkerEnd>,
        dash: Option<Seq<char>>,
    },
    Rect {
        x: int,
        y: int,
        w: int,
        h: int,
        r: Option<usize>,
        stroke: Option<Seq<char>>,
        stroke_width: Option<usize>,
        fill: Option<Seq<char>>,
        fill_opacity: Option<usize>,
    },
}

#[derive(Debug)]
pub enum Element {
    Text(Text),
    Path(Path),
    Rect(Rect),
}

impl View for Element {
    type V = ElementS;

    open spec fn view(&self) -> ElementS {
        match self {
            Element::Text(t) => ElementS::Text {
                x: t.x as int,
                y: t.y as int,
                text: t.text@,
                anchor: t.text_anchor,
            },
            Element::Path(p) => ElementS::Path {
                x: p.x as int,
                y: p.y as int,
                points: points_view(p.points@),
                marker: p.marker_end,
                dash: opt_str(&p.stroke_dasharray),
            },
            Element::Rect(r) => ElementS::Rect {
                x: r.x as int,
                y: r.y as int,
                w: r.width as int,
                h: r.height as int,
                r: r.r,
                stroke: opt_str(&r.stroke),
                stroke_width: r.stroke_width,
                fill: opt_str(&r.fill),
                fill_opacity: r.fill_opacity,
            },
        }
    }
}

/// Spec model of a drawing.
pub struct PaperS {
    pub w: int,
    pub h: int,
    pub elements: Seq<ElementS>,
}

#[derive(Debug)]
pub struct Paper {
    pub w: i64,
    pub h: i64,
    pub elements: Vec<Element>,
}

pub open spec fn elements_view(e: Seq<Element>) -> Seq<ElementS> {
    e.map_values(|x: Element| x@)
}

impl View for Paper {
    type V = PaperS;

    open spec fn view(&self) -> PaperS {
        PaperS { w: self.w as int, h: self.h as int, elements: elements_view(self.elements@) }
    }
}

#[derive(Debug)]
pub struct PaperBuilder {
    pub w: i64,
    pub h: i64,
}

impl Default for PaperBuilder {
    fn default() -> (r: PaperBuilder)
        ensures
            r.w == 512 && r.h == 342,
    {
        PaperBuilder { w: 512, h: 342 }
    }
}

impl PaperBuilder {
    pub fn w(self, w: i64) -> (r: PaperBuilder)
        ensures
            r.w == w && r.h == self.h,
    {
        PaperBuilder { w, ..self }
    }

    pub fn h(self, h: i64) -> (r: PaperBuilder)
        ensures
            r.h == h && r.w == self.w,
    {
        PaperBuilder { h, ..self }
    }

    pub fn build(&self) -> (r: Paper)
        ensures
            r.w == self.w && r.h == self.h && r.elements@ == Seq::<Element>::empty(),
    {
        Paper { w: self.w, h: self.h, elements: Vec::new() }
    }
}

impl Paper {
    pub fn builder() -> (r: PaperBuilder)
        ensures
            r.w == 512 && r.h == 342,
    {
        PaperBuilder { w: 512, h: 342 }
    }

    pub fn push(&mut self, element: Element)
        ensures
            final(self).w == old(self).w && final(self).h == old(self).h,
            final(self).elements@ == old(self).elements@.push(element),
    {
        self.elements.push(element);
    }
}

} // verus!
