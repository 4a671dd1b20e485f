use seqdiag::ast::{ArrowType, LineType, Note, Statement};
use seqdiag::codec::{decode_text, encode_text, TokenError};
use seqdiag::diagram::{generate, load_and_gen, pickle_and_gen, LoadError, RenderError, SequenceDiagram};
use seqdiag::layout::{canvas_height, canvas_width, layout, text_bbox, MAX_TEXT};
use seqdiag::paper::{Element, MarkerEnd, Paper, TextAnchor};
use seqdiag::parse::parse;

fn s(v: &[char]) -> String {
    v.iter().collect()
}

fn chars(t: &str) -> Vec<char> {
    t.chars().collect()
}

fn paths(p: &Paper) -> Vec<&seqdiag::paper::Path> {
    p.elements
        .iter()
        .filter_map(|e| match e {
            Element::Path(p) => Some(p),
            _ => None,
        })
        .collect()
}

fn texts(p: &Paper) -> Vec<String> {
    p.elements
        .iter()
        .filter_map(|e| match e {
            Element::Text(t) => Some(s(&t.text)),
            _ => None,
        })
        .collect()
}

#[test]
fn accepts_title_and_signal() {
    let d = parse("title hello\na -> b: hi").unwrap();
    let st = d.iter();
    assert_eq!(st.len(), 2);
    match &st[0] {
        Statement::Title(t) => assert_eq!(s(&t.text), "hello"),
        other => panic!("{:?}", other),
    }
    match &st[1] {
        Statement::Signal(sig) => {
            assert_eq!(s(&sig.from.name), "a");
            assert_eq!(s(&sig.to.name), "b");
            assert_eq!(s(&sig.message), "hi");
            assert_eq!(sig.kind.line_type(), LineType::Normal);
            assert_eq!(sig.kind.arrow_type(), ArrowType::Normal);
        }
        other => panic!("{:?}", other),
    }
}

#[test]
fn rejects_unknown_signal_token() {
    let e = parse("a ==> b: x").unwrap_err();
    assert_eq!(e.line, 1);
    assert!(!e.message.is_empty());
}

#[test]
fn reports_line_of_first_bad_statement() {
    let e = parse("a -> b: ok\n\nbogus\nalso bad").unwrap_err();
    assert_eq!(e.line, 3);
    let e = parse("title x\na -> b").unwrap_err();
    assert_eq!(e.line, 2);
}

#[test]
fn signal_token_table() {
    let cases = [
        ("-", LineType::Normal, ArrowType::Plain),
        ("--", LineType::Dot, ArrowType::Plain),
        ("->", LineType::Normal, ArrowType::Normal),
        ("-->", LineType::Dot, ArrowType::Normal),
        ("->>", LineType::Normal, ArrowType::Open),
        ("-->>", LineType::Dot, ArrowType::Open),
    ];
    for (tok, line, arrow) in cases {
        let d = parse(&format!("a {} b: m", tok)).unwrap();
        match &d.iter()[0] {
            Statement::Signal(sig) => {
                assert_eq!(sig.kind.line_type(), line, "{}", tok);
                assert_eq!(sig.kind.arrow_type(), arrow, "{}", tok);
            }
            other => panic!("{:?}", other),
        }
    }
    assert!(parse("a --->b: m").is_err());
    assert!(parse("a => b: m").is_err());
}

#[test]
fn all_note_forms_parse() {
    let d = parse(
        "note left of a: one\nnote right of a: two\nnote over a: three\nnote over a, b: four",
    )
    .unwrap();
    let st = d.iter();
    assert_eq!(st.len(), 4);
    match &st[0] {
        Statement::Note(Note::LeftOf(a, t)) => {
            assert_eq!(s(&a.name), "a");
            assert_eq!(s(t), "one");
        }
        other => panic!("{:?}", other),
    }
    match &st[1] {
        Statement::Note(Note::RightOf(a, t)) => {
            assert_eq!(s(&a.name), "a");
            assert_eq!(s(t), "two");
        }
        other => panic!("{:?}", other),
    }
    match &st[2] {
        Statement::Note(Note::Over(a, None, t)) => {
            assert_eq!(s(&a.name), "a");
            assert_eq!(s(t), "three");
        }
        other => panic!("{:?}", other),
    }
    match &st[3] {
        Statement::Note(Note::Over(a, Some(b), t)) => {
            assert_eq!(s(&a.name), "a");
            assert_eq!(s(&b.name), "b");
            assert_eq!(s(t), "four");
        }
        other => panic!("{:?}", other),
    }
}

#[test]
fn quoted_actors_and_participants() {
    let d = parse("participant aaa as \"A B C\"\n\" aaa\" -> bbb: ok2\n  \n").unwrap();
    let st = d.iter();
    assert_eq!(st.len(), 2);
    match &st[0] {
        Statement::Participant(p) => {
            assert_eq!(s(&p.actor().name), "aaa");
            assert_eq!(s(&p.display_name().as_ref().unwrap().name), "A B C");
        }
        other => panic!("{:?}", other),
    }
    match &st[1] {
        Statement::Signal(sig) => assert_eq!(s(&sig.from().name), " aaa"),
        other => panic!("{:?}", other),
    }
    let l = layout(&d);
    assert_eq!(l.lanes.len(), 3);
    assert_eq!(s(&l.lanes[0].display.name), "A B C");
    assert_eq!(s(&l.lanes[1].key.name), " aaa");
}

#[test]
fn self_signal_has_one_lane_and_an_elbow() {
    let d = parse("a -> a: x").unwrap();
    let l = layout(&d);
    assert_eq!(l.lanes.len(), 1);
    assert_eq!(l.rows.len(), 1);
    assert_eq!(l.rows[0].x_from, l.rows[0].x_to);
    let p = generate("a -> a: x").unwrap();
    let ps = paths(&p);
    // top box, bottom box, lifeline, then the three stretches of the elbow
    assert_eq!(ps.len(), 6);
    let x = l.rows[0].x_from;
    assert_eq!(ps[3].x, x);
    assert_eq!(ps[3].points[0].0, x + 20);
    assert_eq!(ps[5].points[0].0, x);
    assert_eq!(ps[5].marker_end, Some(MarkerEnd::ArrowBlock));
    assert_eq!(ps[4].marker_end, None);
}

#[test]
fn lanes_in_first_use_order() {
    let d = parse("b -> a: 1\na -> c: 2").unwrap();
    let l = layout(&d);
    let keys: Vec<String> = l.lanes.iter().map(|x| s(&x.key.name)).collect();
    assert_eq!(keys, vec!["b", "a", "c"]);
    assert_eq!(l.lanes[0].rect.x, 0);
    assert_eq!(l.lanes[1].rect.x, l.lanes[0].rect.w);
    assert_eq!(l.lanes[2].rect.x, l.lanes[0].rect.w + l.lanes[1].rect.w);
    assert_eq!(l.rows[0].y, 0);
    assert_eq!(l.rows[1].y, 56);
}

#[test]
fn first_title_wins() {
    let p = generate("title one\ntitle two").unwrap();
    let t = texts(&p);
    assert_eq!(t, vec!["one"]);
    let l = layout(&parse("title one\ntitle two").unwrap());
    assert_eq!(s(&l.title.as_ref().unwrap().0.text), "one");
}

#[test]
fn canvas_size() {
    let d = parse("title hi\na -> b: m").unwrap();
    let l = layout(&d);
    let sum: i64 = l.lanes.iter().map(|x| x.rect.w).sum();
    assert_eq!(sum, 96);
    assert_eq!(canvas_width(&l), sum);
    // title 26, margin 10, one row 56, two lane heights of 56
    assert_eq!(canvas_height(&l), 26 + 10 + 56 + 2 * 56);
    let p = generate("title hi\na -> b: m").unwrap();
    assert_eq!(p.w, 96);
    assert_eq!(p.h, 204);
    let e = generate("").unwrap();
    assert_eq!((e.w, e.h, e.elements.len()), (0, 10, 0));
}

#[test]
fn text_measure() {
    assert_eq!(text_bbox(&chars("ab")).w, 16);
    assert_eq!(text_bbox(&chars("hello")).w, 5 * 8 + 6);
    assert_eq!(text_bbox(&chars("漢")).w, 16);
    assert_eq!(text_bbox(&chars("")).w, 0);
    assert_eq!(text_bbox(&chars("ab")).h, 16);
}

#[test]
fn drawing_order_and_labels() {
    let p = generate("title T\na --> b: go").unwrap();
    let ps = paths(&p);
    // title box, a (top, bottom, lifeline), b (top, bottom, lifeline), connector
    assert_eq!(ps.len(), 8);
    assert_eq!(ps[0].points.len(), 4);
    assert_eq!(ps[7].points.len(), 1);
    assert_eq!(ps[7].marker_end, Some(MarkerEnd::ArrowBlock));
    assert_eq!(ps[7].stroke_dasharray.as_deref(), Some("6px,2px"));
    let labels: Vec<_> = p
        .elements
        .iter()
        .filter_map(|e| match e {
            Element::Text(t) if t.text_anchor.is_some() => Some(t.text_anchor.unwrap()),
            _ => None,
        })
        .collect();
    assert_eq!(labels, vec![TextAnchor::Start]);
    let back = generate("a -> b: x\nb ->> a: y").unwrap();
    let last = paths(&back);
    assert_eq!(last.last().unwrap().marker_end, Some(MarkerEnd::ArrowOpen));
}

#[test]
fn rendering_is_deterministic() {
    let t = "title x\na -> b: 1\nb --> a: 2\na -> a: 3";
    let a = format!("{:?}", generate(t).unwrap());
    let b = format!("{:?}", generate(t).unwrap());
    assert_eq!(a, b);
}

#[test]
fn token_round_trip() {
    for t in ["", "a -> b: hi", "title ünïcödé 漢字\nx -> y: z", "//v1//"] {
        let tok = encode_text(t);
        assert!(tok.starts_with("/v1/"));
        assert_eq!(decode_text(&tok).unwrap(), t);
        assert_eq!(decode_text(&format!("#{}", tok)).unwrap(), t);
    }
}

#[test]
fn token_matches_outside_codecs() {
    let t = "a -> b: hello hello hello";
    let tok = encode_text(t);
    let packed = base64::encode_config(
        lz4_compression::compress::compress(t.as_bytes()),
        base64::Config::new(base64::CharacterSet::UrlSafe, false),
    );
    assert_eq!(tok, format!("/v1/{}", packed));
    assert_ne!(tok, format!("/v1/{}", t));
}

#[test]
fn token_errors() {
    assert_eq!(decode_text("").unwrap(), "");
    assert_eq!(decode_text("abc"), Err(TokenError::UnexpectedHash));
    assert_eq!(decode_text("/v2/abc"), Err(TokenError::UnexpectedHash));
    assert_eq!(decode_text("#/v1"), Err(TokenError::UnexpectedHash));
    assert_eq!(decode_text("/v1/!!"), Err(TokenError::Decode));
    let bad_stream = base64::encode_config([0xF0u8], base64::Config::new(base64::CharacterSet::UrlSafe, false));
    assert_eq!(decode_text(&format!("/v1/{}", bad_stream)), Err(TokenError::Decompress));
    let not_utf8 = base64::encode_config(
        lz4_compression::compress::compress(&[0xFFu8, 0xFE]),
        base64::Config::new(base64::CharacterSet::UrlSafe, false),
    );
    assert_eq!(decode_text(&format!("/v1/{}", not_utf8)), Err(TokenError::Encoding));
}

#[test]
fn pickle_and_load() {
    let t = "title x\na -> b: y";
    let (tok, p) = pickle_and_gen(t).unwrap();
    let (back, q) = load_and_gen(&format!("#{}", tok)).unwrap();
    assert_eq!(back, t);
    assert_eq!(format!("{:?}", p), format!("{:?}", q.unwrap()));
    let (e, none) = load_and_gen("").unwrap();
    assert_eq!(e, "");
    assert!(none.is_none());
    match pickle_and_gen("a ==> b: x") {
        Err(RenderError::Parse(e)) => assert_eq!(e.line, 1),
        other => panic!("{:?}", other),
    }
    match load_and_gen("/x/") {
        Err(LoadError::Token(TokenError::UnexpectedHash)) => {}
        other => panic!("{:?}", other),
    }
    let bad = encode_text("nonsense here");
    match load_and_gen(&bad) {
        Err(LoadError::Render(RenderError::Parse(e))) => assert_eq!(e.line, 1),
        other => panic!("{:?}", other),
    }
}

#[test]
fn too_large_label() {
    let long = "x".repeat(MAX_TEXT + 1);
    match generate(&format!("a -> b: {}", long)) {
        Err(RenderError::TooLarge) => {}
        other => panic!("{:?}", other.map(|p| p.w)),
    }
    let d = SequenceDiagram::parse("a -> b: c").unwrap();
    assert_eq!(d.draw().w, 96);
}
