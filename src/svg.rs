//! SVG output of a drawing, written through xmlwriter. The path data of each
//! path (its wobbled curves) is handed in, one string per path in drawing order.
use vstd::prelude::*;
use crate::paper::{elements_view, ElementS, MarkerEnd, Paper, PaperS, TextAnchor};
use crate::parse::text_chars;

verus! {

#[verifier::external_type_specification]
#[verifier::external_body]
pub struct ExXmlWriter(xmlwriter::XmlWriter);

/// One writer call: 0 starts an element named `.1`, 1 writes attribute `.1`
/// with value `.2`, 2 writes text `.1`, 3 ends the open element.
pub type XmlCall = (nat, Seq<char>, Seq<char>);

/// The document that a sequence of writer calls produces, once finished.
pub uninterp spec fn xml_of(calls: Seq<XmlCall>) -> Seq<char>;

/// Number of elements left open by the calls.
pub open spec fn xml_depth(calls: Seq<XmlCall>) -> int
    decreases calls.len(),
{
    if calls.len() == 0 {
        0
    } else {
        let d = xml_depth(calls.drop_last());
        if calls.last().0 == 0 {
            d + 1
        } else if calls.last().0 == 3 {
            if d > 0 {
                d - 1
            } else {
                0
            }
        } else {
            d
        }
    }
}

/// The last call started an element or wrote an attribute.
pub open spec fn in_attrs(calls: Seq<XmlCall>) -> bool {
    calls.len() > 0 && (calls.last().0 == 0 || calls.last().0 == 1)
}

pub proof fn lemma_depth_nonneg(calls: Seq<XmlCall>)
    ensures
        xml_depth(calls) >= 0,
    decreases calls.len(),
{
    if calls.len() > 0 {
        lemma_depth_nonneg(calls.drop_last());
    }
}

/// An XML writer and the calls made on it so far.
pub struct XmlOut {
    w: xmlwriter::XmlWriter,
    calls: Ghost<Seq<XmlCall>>,
}

impl XmlOut {
    pub closed spec fn calls(&self) -> Seq<XmlCall> {
        self.calls@
    }
}

/// Relies on xmlwriter's `XmlWriter::new` with default options.
#[verifier::external_body]
fn xml_writer() -> xmlwriter::XmlWriter {
    xmlwriter::XmlWriter::new(xmlwriter::Options::default())
}

fn xml_new() -> (r: XmlOut)
    ensures
        r.calls() == Seq::<XmlCall>::empty(),
{
    XmlOut { w: xml_writer(), calls: Ghost(Seq::empty()) }
}

/// Relies on xmlwriter's `start_element`, which never panics.
#[verifier::external_body]
fn xml_start(x: &mut XmlOut, name: &str)
    ensures
        final(x).calls() == old(x).calls().push((0nat, name@, Seq::<char>::empty())),
{
    x.w.start_element(name)
}

/// Relies on xmlwriter's `write_attribute`, which panics unless an element was
/// just started or an attribute just written.
#[verifier::external_body]
fn xml_attr(x: &mut XmlOut, name: &str, value: &Vec<char>)
    requires
        in_attrs(old(x).calls()),
    ensures
        final(x).calls() == old(x).calls().push((1nat, name@, value@)),
{
    let v: String = value.iter().collect();
    x.w.write_attribute(name, v.as_str())
}

/// Relies on xmlwriter's `write_text`, which panics unless an element is open.
#[verifier::external_body]
fn xml_text(x: &mut XmlOut, text: &Vec<char>)
    requires
        xml_depth(old(x).calls()) > 0,
    ensures
        final(x).calls() == old(x).calls().push((2nat, text@, Seq::<char>::empty())),
{
    let t: String = text.iter().collect();
    x.w.write_text(t.as_str())
}

/// Relies on xmlwriter's `end_element`, which never panics.
#[verifier::external_body]
fn xml_end(x: &mut XmlOut)
    ensures
        final(x).calls() == old(x).calls().push((3nat, Seq::<char>::empty(), Seq::<char>::empty())),
{
    x.w.end_element()
}

/// Relies on xmlwriter's `end_document`, which closes the open elements; it
/// only fails on raw attribute data, which is never written here.
#[verifier::external_body]
fn xml_finish(x: XmlOut) -> (r: String)
    ensures
        r@ == xml_of(x.calls()),
{
    x.w.end_document()
}

pub open spec fn st(name: Seq<char>) -> XmlCall {
    (0nat, name, Seq::<char>::empty())
}

pub open spec fn at(name: Seq<char>, value: Seq<char>) -> XmlCall {
    (1nat, name, value)
}

pub open spec fn tx(text: Seq<char>) -> XmlCall {
    (2nat, text, Seq::<char>::empty())
}

pub open spec fn en() -> XmlCall {
    (3nat, Seq::<char>::empty(), Seq::<char>::empty())
}

pub open spec fn digit_of(d: int) -> char {
    if d == 0 { '0' } else if d == 1 { '1' } else if d == 2 { '2' } else if d == 3 { '3' }
    else if d == 4 { '4' } else if d == 5 { '5' } else if d == 6 { '6' } else if d == 7 { '7' }
    else if d == 8 { '8' } else { '9' }
}

/// Decimal digits of a natural number.
pub open spec fn nat_dec(n: nat) -> Seq<char>
    decreases n,
{
    if n < 10 {
        seq![digit_of(n as int)]
    } else {
        nat_dec(n / 10).push(digit_of((n % 10) as int))
    }
}

/// Decimal text of an integer.
pub open spec fn int_dec(v: int) -> Seq<char> {
    if v < 0 {
        seq!['-'] + nat_dec((-v) as nat)
    } else {
        nat_dec(v as nat)
    }
}

fn digit_char(d: u64) -> (r: char)
    requires
        d < 10,
    ensures
        r == digit_of(d as int),
{
    if d == 0 { '0' } else if d == 1 { '1' } else if d == 2 { '2' } else if d == 3 { '3' }
    else if d == 4 { '4' } else if d == 5 { '5' } else if d == 6 { '6' } else if d == 7 { '7' }
    else if d == 8 { '8' } else { '9' }
}

fn nat_chars(n: u64) -> (r: Vec<char>)
    ensures
        r@ == nat_dec(n as nat),
    decreases n,
{
    if n < 10 {
        let mut v: Vec<char> = Vec::new();
        v.push(digit_char(n));
        assert(v@ =~= seq![digit_of(n as int)]);
        v
    } else {
        let mut v = nat_chars(n / 10);
        v.push(digit_char(n % 10));
        v
    }
}

/// The decimal text of an integer.
pub fn int_chars(v: i64) -> (r: Vec<char>)
    ensures
        r@ == int_dec(v as int),
{
    if v < 0 {
        let m: u64 = if v == i64::MIN {
            9223372036854775808
        } else {
            (-v) as u64
        };
        let mut r: Vec<char> = Vec::new();
        r.push('-');
        let d = nat_chars(m);
        let r = concat_chars(r, &d);
        assert(r@ =~= seq!['-'] + nat_dec((-(v as int)) as nat));
        r
    } else {
        nat_chars(v as u64)
    }
}

/// `a` followed by `b`.
pub fn concat_chars(a: Vec<char>, b: &Vec<char>) -> (r: Vec<char>)
    ensures
        r@ == a@ + b@,
{
    let mut r = a;
    let ghost a0 = r@;
    let mut i: usize = 0;
    while i < b.len()
        invariant
            i <= b.len(),
            r@ == a0 + b@.subrange(0, i as int),
        decreases b.len() - i,
    {
        r.push(b[i]);
        i = i + 1;
        assert(r@ =~= a0 + b@.subrange(0, i as int));
    }
    assert(b@.subrange(0, b.len() as int) =~= b@);
    r
}

pub open spec fn strip_cr(l: Seq<char>) -> Seq<char> {
    if l.len() > 0 && l.last() == '\r' {
        l.drop_last()
    } else {
        l
    }
}

/// Lines finished, and the line under way, after the first `n` characters.
pub open spec fn lines_state(t: Seq<char>, n: int) -> (Seq<Seq<char>>, Seq<char>)
    decreases n,
{
    if n <= 0 {
        (seq![], seq![])
    } else {
        let (done, cur) = lines_state(t, n - 1);
        if t[n - 1] == '\n' {
            (done.push(strip_cr(cur)), seq![])
        } else {
            (done, cur.push(t[n - 1]))
        }
    }
}

/// The lines of a text: split at `\n` (a `\r` before it dropped); an empty
/// last line is not a line.
pub open spec fn lines_of(t: Seq<char>) -> Seq<Seq<char>> {
    let (done, cur) = lines_state(t, t.len() as int);
    if cur.len() > 0 {
        done.push(cur)
    } else {
        done
    }
}

pub open spec fn lines_view(v: Seq<Vec<char>>) -> Seq<Seq<char>> {
    v.map_values(|l: Vec<char>| l@)
}

fn text_lines(t: &Vec<char>) -> (r: Vec<Vec<char>>)
    ensures
        lines_view(r@) == lines_of(t@),
{
    let mut done: Vec<Vec<char>> = Vec::new();
    let mut cur: Vec<char> = Vec::new();
    let mut i: usize = 0;
    assert(lines_view(done@) =~= seq![]);
    while i < t.len()
        invariant
            i <= t.len(),
            (lines_view(done@), cur@) == lines_state(t@, i as int),
        decreases t.len() - i,
    {
        let ghost d0 = lines_view(done@);
        if t[i] == '\n' {
            let mut line = cur;
            if line.len() > 0 && line[line.len() - 1] == '\r' {
                line.pop();
                assert(line@ =~= strip_cr(lines_state(t@, i as int).1));
            }
            done.push(line);
            cur = Vec::new();
            assert(lines_view(done@) =~= d0.push(line@));
            assert(cur@ =~= seq![]);
        } else {
            cur.push(t[i]);
        }
        i = i + 1;
    }
    if cur.len() > 0 {
        let ghost d0 = lines_view(done@);
        let ghost c = cur@;
        done.push(cur);
        assert(lines_view(done@) =~= d0.push(c));
    }
    done
}

pub open spec fn svg_header(p: PaperS) -> Seq<XmlCall> {
    seq![
        st("svg"@),
        at("xmlns"@, "http://www.w3.org/2000/svg"@),
        at("width"@, int_dec(p.w)),
        at("height"@, int_dec(p.h)),
        at("version"@, "1.1"@),
        st("desc"@),
        en(),
    ]
}

/// The two arrowhead markers: a filled block and an open chevron.
pub open spec fn marker_defs() -> Seq<XmlCall> {
    seq![
        st("defs"@),
        st("marker"@),
        at("id"@, "arrowblock"@),
        at("viewBox"@, "0 0 5 5"@),
        at("markerWidth"@, "5"@),
        at("markerHeight"@, "5"@),
        at("orient"@, "auto"@),
        at("refX"@, "5"@),
        at("refY"@, "2.5"@),
        st("path"@),
        at("d"@, "M 0 0 L 5 2.5 L 0 5 z"@),
        en(),
        en(),
        st("marker"@),
        at("id"@, "arrowopen"@),
        at("viewBox"@, "0 0 9.6 16"@),
        at("markerWidth"@, "4"@),
        at("markerHeight"@, "16"@),
        at("orient"@, "auto"@),
        at("refX"@, "9.6"@),
        at("refY"@, "8"@),
        st("path"@),
        at("d"@, "M 9.6,8 1.92,16 0,13.7 5.76,8 0,2.286 1.92,0 9.6,8 z"@),
        en(),
        en(),
        en(),
    ]
}

pub open spec fn anchor_word(a: Option<TextAnchor>) -> Seq<char> {
    match a {
        Some(TextAnchor::Middle) => "middle"@,
        Some(TextAnchor::End) => "end"@,
        _ => "start"@,
    }
}

/// One `tspan` per line, each a line height below the previous one.
pub open spec fn tspans(lines: Seq<Seq<char>>, x: int) -> Seq<XmlCall>
    decreases lines.len(),
{
    if lines.len() == 0 {
        seq![]
    } else {
        tspans(lines.drop_last(), x) + seq![
            st("tspan"@),
            at("dy"@, "19.2"@),
            at("x"@, int_dec(x)),
            tx(lines.last()),
            en(),
        ]
    }
}

pub open spec fn opt_nat(o: Option<usize>, d: nat) -> nat {
    match o {
        Some(v) => v as nat,
        None => d,
    }
}

pub open spec fn opt_text(o: Option<Seq<char>>, d: Seq<char>) -> Seq<char> {
    match o {
        Some(v) => v,
        None => d,
    }
}

/// The calls for one element; `d` is the path data when it is a path.
pub open spec fn element_calls(e: ElementS, d: Seq<char>) -> Seq<XmlCall> {
    match e {
        ElementS::Text { x, y, text, anchor } => seq![
            st("text"@),
            at("x"@, int_dec(x)),
            at("y"@, int_dec(y)),
            at("text-anchor"@, anchor_word(anchor)),
            at("font-size"@, "16px"@),
        ] + tspans(lines_of(text), x) + seq![en()],
        ElementS::Path { marker, dash, .. } => seq![
            st("path"@),
            at("fill"@, "none"@),
            at("stroke"@, "#000"@),
            at("stroke-width"@, "2px"@),
            at("d"@, d),
        ] + match marker {
            Some(MarkerEnd::ArrowBlock) => seq![at("marker-end"@, "url(#arrowblock)"@)],
            Some(MarkerEnd::ArrowOpen) => seq![at("marker-end"@, "url(#arrowopen)"@)],
            None => seq![],
        } + match dash {
            Some(v) => seq![at("stroke-dasharray"@, v)],
            None => seq![],
        } + seq![en()],
        ElementS::Rect { x, y, w, h, r, stroke, stroke_width, fill, fill_opacity } => seq![
            st("rect"@),
            at("x"@, int_dec(x)),
            at("y"@, int_dec(y)),
            at("width"@, int_dec(w)),
            at("height"@, int_dec(h)),
            at("rx"@, nat_dec(opt_nat(r, 0))),
            at("ry"@, nat_dec(opt_nat(r, 0))),
            at("fill"@, opt_text(fill, "none"@)),
        ] + match fill_opacity {
            Some(o) => seq![at("fill-opacity"@, nat_dec(o as nat) + "%"@)],
            None => seq![],
        } + seq![
            at("stroke"@, opt_text(stroke, "#000"@)),
            at("stroke-width"@, nat_dec(opt_nat(stroke_width, 2)) + "px"@),
            en(),
        ],
    }
}

/// Number of paths among the elements.
pub open spec fn path_count(es: Seq<ElementS>) -> nat
    decreases es.len(),
{
    if es.len() == 0 {
        0
    } else {
        path_count(es.drop_last()) + if es.last() is Path {
            1nat
        } else {
            0nat
        }
    }
}

/// The calls for the elements; the k-th path takes the k-th path data.
pub open spec fn elements_calls(es: Seq<ElementS>, curves: Seq<Seq<char>>) -> Seq<XmlCall>
    decreases es.len(),
{
    if es.len() == 0 {
        seq![]
    } else {
        let p = es.drop_last();
        elements_calls(p, curves) + element_calls(
            es.last(),
            if es.last() is Path {
                curves[path_count(p) as int]
            } else {
                seq![]
            },
        )
    }
}

/// All calls for a drawing: the root with its size, the arrowhead markers,
/// then every element in order.
pub open spec fn svg_calls(p: PaperS, curves: Seq<Seq<char>>) -> Seq<XmlCall> {
    svg_header(p) + marker_defs() + elements_calls(p.elements, curves)
}

pub open spec fn strings_view(v: Seq<String>) -> Seq<Seq<char>> {
    v.map_values(|s: String| s@)
}

fn write_header(x: &mut XmlOut, paper: &Paper)
    ensures
        final(x).calls() == old(x).calls() + svg_header(paper@) + marker_defs(),
{
    let ghost c0 = x.calls();
    xml_start(x, "svg");
    xml_attr(x, "xmlns", &text_chars("http://www.w3.org/2000/svg"));
    xml_attr(x, "width", &int_chars(paper.w));
    xml_attr(x, "height", &int_chars(paper.h));
    xml_attr(x, "version", &text_chars("1.1"));
    xml_start(x, "desc");
    xml_end(x);
    xml_start(x, "defs");
    xml_start(x, "marker");
    xml_attr(x, "id", &text_chars("arrowblock"));
    xml_attr(x, "viewBox", &text_chars("0 0 5 5"));
    xml_attr(x, "markerWidth", &text_chars("5"));
    xml_attr(x, "markerHeight", &text_chars("5"));
    xml_attr(x, "orient", &text_chars("auto"));
    xml_attr(x, "refX", &text_chars("5"));
    xml_attr(x, "refY", &text_chars("2.5"));
    xml_start(x, "path");
    xml_attr(x, "d", &text_chars("M 0 0 L 5 2.5 L 0 5 z"));
    xml_end(x);
    xml_end(x);
    xml_start(x, "marker");
    xml_attr(x, "id", &text_chars("arrowopen"));
    xml_attr(x, "viewBox", &text_chars("0 0 9.6 16"));
    xml_attr(x, "markerWidth", &text_chars("4"));
    xml_attr(x, "markerHeight", &text_chars("16"));
    xml_attr(x, "orient", &text_chars("auto"));
    xml_attr(x, "refX", &text_chars("9.6"));
    xml_attr(x, "refY", &text_chars("8"));
    xml_start(x, "path");
    xml_attr(x, "d", &text_chars("M 9.6,8 1.92,16 0,13.7 5.76,8 0,2.286 1.92,0 9.6,8 z"));
    xml_end(x);
    xml_end(x);
    xml_end(x);
    assert(x.calls() =~= c0 + svg_header(paper@) + marker_defs());
}

fn write_text_element(x: &mut XmlOut, t: &crate::paper::Text)
    ensures
        final(x).calls() == old(x).calls() + element_calls(
            crate::paper::Element::Text(*t)@,
            Seq::<char>::empty(),
        ),
{
    let ghost c0 = x.calls();
    xml_start(x, "text");
    xml_attr(x, "x", &int_chars(t.x));
    xml_attr(x, "y", &int_chars(t.y));
    let anchor = match t.text_anchor {
        Some(TextAnchor::Middle) => text_chars("middle"),
        Some(TextAnchor::End) => text_chars("end"),
        _ => text_chars("start"),
    };
    xml_attr(x, "text-anchor", &anchor);
    xml_attr(x, "font-size", &text_chars("16px"));
    let ghost c1 = x.calls();
    let lines = text_lines(&t.text);
    let ghost lv = lines_view(lines@);
    let xs = int_chars(t.x);
    let mut j: usize = 0;
    assert(c1 + tspans(lv.take(0), t.x as int) =~= c1);
    while j < lines.len()
        invariant
            j <= lines.len(),
            lv == lines_view(lines@),
            xs@ == int_dec(t.x as int),
            x.calls() == c1 + tspans(lv.take(j as int), t.x as int),
        decreases lines.len() - j,
    {
        let ghost before = x.calls();
        proof {
            lemma_depth_nonneg(before);
        }
        xml_start(x, "tspan");
        let ghost a1 = x.calls();
        assert(a1.drop_last() == before);
        assert(xml_depth(a1) == xml_depth(before) + 1);
        xml_attr(x, "dy", &text_chars("19.2"));
        let ghost a2 = x.calls();
        assert(a2.drop_last() == a1);
        assert(a2.last().0 == 1);
        assert(xml_depth(a2) == xml_depth(a1));
        xml_attr(x, "x", &xs);
        let ghost a3 = x.calls();
        assert(a3.drop_last() == a2);
        assert(a3.last().0 == 1);
        assert(xml_depth(a3) == xml_depth(a2));
        xml_text(x, &lines[j]);
        xml_end(x);
        proof {
            assert(lv.take(j + 1).drop_last() =~= lv.take(j as int));
            assert(lv.take(j + 1).last() == lines@[j as int]@);
            assert(x.calls() =~= c1 + tspans(lv.take(j + 1), t.x as int));
        }
        j = j + 1;
    }
    xml_end(x);
    assert(lv.take(lines.len() as int) =~= lv);
    assert(x.calls() =~= c0 + element_calls(crate::paper::Element::Text(*t)@, Seq::<char>::empty()));
}

fn write_path_element(x: &mut XmlOut, p: &crate::paper::Path, d: &String)
    ensures
        final(x).calls() == old(x).calls() + element_calls(crate::paper::Element::Path(*p)@, d@),
{
    let ghost c0 = x.calls();
    xml_start(x, "path");
    xml_attr(x, "fill", &text_chars("none"));
    xml_attr(x, "stroke", &text_chars("#000"));
    xml_attr(x, "stroke-width", &text_chars("2px"));
    xml_attr(x, "d", &text_chars(d.as_str()));
    let ghost c1 = x.calls();
    match p.marker_end {
        Some(MarkerEnd::ArrowBlock) => xml_attr(x, "marker-end", &text_chars("url(#arrowblock)")),
        Some(MarkerEnd::ArrowOpen) => xml_attr(x, "marker-end", &text_chars("url(#arrowopen)")),
        None => {},
    }
    let ghost c2 = x.calls();
    match &p.stroke_dasharray {
        Some(v) => xml_attr(x, "stroke-dasharray", &text_chars(v.as_str())),
        None => {},
    }
    let ghost c3 = x.calls();
    xml_end(x);
    assert(x.calls() =~= c0 + element_calls(crate::paper::Element::Path(*p)@, d@));
}

fn nat_usize_chars(v: usize) -> (r: Vec<char>)
    ensures
        r@ == nat_dec(v as nat),
{
    nat_chars(v as u64)
}

fn write_rect_element(x: &mut XmlOut, r: &crate::paper::Rect)
    ensures
        final(x).calls() == old(x).calls() + element_calls(
            crate::paper::Element::Rect(*r)@,
            Seq::<char>::empty(),
        ),
{
    let ghost c0 = x.calls();
    xml_start(x, "rect");
    xml_attr(x, "x", &int_chars(r.x));
    xml_attr(x, "y", &int_chars(r.y));
    xml_attr(x, "width", &int_chars(r.width));
    xml_attr(x, "height", &int_chars(r.height));
    let radius: usize = match r.r {
        Some(v) => v,
        None => 0,
    };
    xml_attr(x, "rx", &nat_usize_chars(radius));
    xml_attr(x, "ry", &nat_usize_chars(radius));
    let fill = match &r.fill {
        Some(f) => text_chars(f.as_str()),
        None => text_chars("none"),
    };
    xml_attr(x, "fill", &fill);
    match r.fill_opacity {
        Some(o) => xml_attr(x, "fill-opacity", &concat_chars(nat_usize_chars(o), &text_chars("%"))),
        None => {},
    }
    let stroke = match &r.stroke {
        Some(f) => text_chars(f.as_str()),
        None => text_chars("#000"),
    };
    xml_attr(x, "stroke", &stroke);
    let sw: usize = match r.stroke_width {
        Some(v) => v,
        None => 2,
    };
    xml_attr(x, "stroke-width", &concat_chars(nat_usize_chars(sw), &text_chars("px")));
    xml_end(x);
    assert(x.calls() =~= c0 + element_calls(crate::paper::Element::Rect(*r)@, Seq::<char>::empty()));
}

pub proof fn lemma_path_count_prefix(es: Seq<ElementS>, n: int)
    requires
        0 <= n <= es.len(),
    ensures
        path_count(es.take(n)) <= path_count(es),
    decreases es.len() - n,
{
    if n < es.len() {
        lemma_path_count_prefix(es, n + 1);
        assert(es.take(n + 1).drop_last() =~= es.take(n));
    } else {
        assert(es.take(n) =~= es);
    }
}

/// The SVG document of a drawing: the k-th path of the drawing gets the k-th
/// path data of `curves`.
pub fn to_svg_string(paper: &Paper, curves: &Vec<String>) -> (r: String)
    requires
        path_count(elements_view(paper.elements@)) == curves.len(),
    ensures
        r@ == xml_of(svg_calls(paper@, strings_view(curves@))),
{
    let mut x = xml_new();
    write_header(&mut x, paper);
    let ghost c1 = x.calls();
    let ghost ev = elements_view(paper.elements@);
    let ghost cv = strings_view(curves@);
    let mut k: usize = 0;
    let mut i: usize = 0;
    assert(c1 + elements_calls(ev.take(0), cv) =~= c1);
    while i < paper.elements.len()
        invariant
            i <= paper.elements.len(),
            ev == elements_view(paper.elements@),
            cv == strings_view(curves@),
            path_count(ev) == curves.len(),
            k == path_count(ev.take(i as int)),
            x.calls() == c1 + elements_calls(ev.take(i as int), cv),
        decreases paper.elements.len() - i,
    {
        proof {
            assert(ev.take(i + 1).drop_last() =~= ev.take(i as int));
            assert(ev.take(i + 1).last() == ev[i as int]);
            lemma_path_count_prefix(ev, i + 1);
        }
        match &paper.elements[i] {
            crate::paper::Element::Text(t) => write_text_element(&mut x, t),
            crate::paper::Element::Path(p) => {
                write_path_element(&mut x, p, &curves[k]);
                k = k + 1;
            },
            crate::paper::Element::Rect(r) => write_rect_element(&mut x, r),
        }
        proof {
            assert(x.calls() =~= c1 + elements_calls(ev.take(i + 1), cv));
        }
        i = i + 1;
    }
    assert(ev.take(paper.elements.len() as int) =~= ev);
    assert(x.calls() =~= svg_calls(paper@, cv));
    xml_finish(x)
}

} // verus!
