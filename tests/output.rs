use seqdiag::codec::{decode_text, TokenError};
use seqdiag::diagram::{generate, load_and_gen, pickle_and_gen, LoadError, RenderError, SequenceDiagram};
use seqdiag::layout::{text_bbox, utf8_len, Rectangle};
use seqdiag::paper::{Element, Paper, Text};
use seqdiag::parse::parse;
use seqdiag::svg::{int_chars, to_svg_string};

fn chars(t: &str) -> Vec<char> {
    t.chars().collect()
}

fn s(v: &[char]) -> String {
    v.iter().collect()
}

fn curves_for(p: &Paper) -> Vec<String> {
    p.elements
        .iter()
        .filter(|e| matches!(e, Element::Path(_)))
        .enumerate()
        .map(|(i, _)| format!("P{}", i))
        .collect()
}

#[test]
fn width_counts_utf8_bytes() {
    assert_eq!(utf8_len(&chars("ééééé")), 10);
    assert_eq!(utf8_len(&chars("a漢😀")), 1 + 3 + 4);
    assert_eq!(text_bbox(&chars("ééééé")).w, 5 * 8 + 2 * 6);
    assert_eq!(text_bbox(&chars("hello")), Rectangle::new(0, 0, 46, 16));
}

#[test]
fn lane_and_title_boxes() {
    let d = SequenceDiagram::parse("title one\ntitle two\nb -> a: 1\na -> c: 2").unwrap();
    let l = d.layout();
    let t = l.title.as_ref().unwrap();
    assert_eq!(s(&t.0.text), "one");
    assert_eq!(t.1, Rectangle::new(10, 10, 34, 26));
    let boxes: Vec<Rectangle> = l.lanes.iter().map(|x| x.rect).collect();
    assert_eq!(
        boxes,
        vec![
            Rectangle::new(0, 0, 48, 56),
            Rectangle::new(48, 0, 48, 56),
            Rectangle::new(96, 0, 48, 56)
        ]
    );
    assert_eq!((l.rows[0].x_from, l.rows[0].x_to), (24, 72));
    assert_eq!((l.rows[1].x_from, l.rows[1].x_to), (72, 120));
}

#[test]
fn parse_errors_carry_the_same_message() {
    let a = parse("a ==> b: x").unwrap_err();
    let b = parse("a ==> b: x").unwrap_err();
    assert_eq!(a.line, b.line);
    assert_eq!(a.message, b.message);
    assert!(!a.message.is_empty());
    let via_generate = match generate("a ==> b: x") {
        Err(RenderError::Parse(e)) => e,
        other => panic!("{:?}", other),
    };
    assert_eq!(via_generate.message, a.message);
    let tok = match pickle_and_gen("a -> b: x") {
        Ok((t, _)) => t,
        Err(e) => panic!("{:?}", e),
    };
    assert!(tok[4..].chars().all(|c| c.is_ascii_alphanumeric() || c == '-' || c == '_'));
    let bad = seqdiag::codec::encode_text("a ==> b: x");
    match load_and_gen(&bad) {
        Err(LoadError::Render(RenderError::Parse(e))) => {
            assert_eq!(e.line, 1);
            assert_eq!(e.message, a.message);
        }
        other => panic!("{:?}", other),
    }
}

#[test]
fn foreign_payload_is_a_decode_error() {
    assert_eq!(decode_text("/v1/@@@@"), Err(TokenError::Decode));
    match load_and_gen("/v1/@@@@") {
        Err(LoadError::Token(TokenError::Decode)) => {}
        other => panic!("{:?}", other),
    }
}

#[test]
fn decimal_text() {
    assert_eq!(s(&int_chars(0)), "0");
    assert_eq!(s(&int_chars(-42)), "-42");
    assert_eq!(s(&int_chars(1234567)), "1234567");
    assert_eq!(s(&int_chars(i64::MIN)), i64::MIN.to_string());
}

#[test]
fn svg_document() {
    let p = generate("title T\na --> b: go").unwrap();
    let curves = curves_for(&p);
    assert_eq!(curves.len(), 8);
    let svg = to_svg_string(&p, &curves);
    assert!(svg.starts_with("<svg xmlns=\"http://www.w3.org/2000/svg\""));
    assert!(svg.contains(&format!("width=\"{}\"", p.w)));
    assert!(svg.contains(&format!("height=\"{}\"", p.h)));
    assert!(svg.contains("id=\"arrowblock\""));
    assert!(svg.contains("id=\"arrowopen\""));
    for c in &curves {
        assert!(svg.contains(&format!("d=\"{}\"", c)));
    }
    assert!(svg.contains("marker-end=\"url(#arrowblock)\""));
    assert!(svg.contains("stroke-dasharray=\"6px,2px\""));
    assert!(svg.contains("fill-opacity=\"70%\""));
    assert!(svg.contains("fill=\"white\""));
    assert!(svg.lines().any(|l| l.trim() == "go"));
    assert!(svg.contains("text-anchor=\"start\""));
    assert_eq!(svg, to_svg_string(&p, &curves));
}

#[test]
fn svg_text_lines() {
    let mut p = Paper::builder().w(5).h(-3).build();
    p.push(Element::Text(Text::new(7, 8, chars("one\r\ntwo\n"))));
    let svg = to_svg_string(&p, &vec![]);
    assert!(svg.contains("height=\"-3\""));
    assert_eq!(svg.matches("<tspan").count(), 2);
    assert!(svg.lines().any(|l| l.trim() == "one"));
    assert!(svg.lines().any(|l| l.trim() == "two"));
    assert!(!svg.contains('\r'));
    assert!(svg.contains("dy=\"19.2\""));
}
