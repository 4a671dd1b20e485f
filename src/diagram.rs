//! The whole pipeline: text to drawing, text to token and drawing, token back
//! to text and drawing.
use vstd::prelude::*;
use crate::ast::{Document, StatementS};
use crate::codec::{is_b64url_char, decode_of, decode_text, decodes_to, encode_text, payload_of, token_of, TokenError};
use crate::draw::{draw, paper_of};
use crate::layout::{doc_fits, fits, layout, layout_of, Layout};
use crate::paper::{Paper, PaperS};
use crate::svg::{svg_calls, xml_of};
use crate::parse::{parse, parse_error_message, parse_text, ParseError};

verus! {

/// Why a text could not be drawn.
#[derive(Debug)]
pub enum RenderError {
    /// The text does not follow the notation.
    Parse(ParseError),
    /// A label or the number of statements is beyond what is laid out.
    TooLarge,
}

/// Why a token could not be turned back into a text and its drawing.
#[derive(Debug)]
pub enum LoadError {
    Token(TokenError),
    Render(RenderError),
}

/// What drawing a text gives: the drawing, or `Err(Some((line, message)))`
/// for a parse failure at that line, `Err(None)` for a document too large to
/// lay out.
pub open spec fn render_of(text: Seq<char>) -> Result<PaperS, Option<(nat, Seq<char>)>> {
    match parse_text(text) {
        Err(line) => Err(Some((line, parse_error_message()))),
        Ok(d) => if doc_fits(d) {
            Ok(paper_of(layout_of(d)))
        } else {
            Err(None)
        },
    }
}

pub open spec fn render_view(r: &Result<Paper, RenderError>) -> Result<
    PaperS,
    Option<(nat, Seq<char>)>,
> {
    match r {
        Ok(p) => Ok(p@),
        Err(RenderError::Parse(e)) => Err(Some((e.line as nat, e.message@))),
        Err(RenderError::TooLarge) => Err(None),
    }
}

/// A parsed diagram.
#[derive(Debug)]
pub struct SequenceDiagram {
    pub document: Document,
}

impl SequenceDiagram {
    pub fn parse(text: &str) -> (r: Result<SequenceDiagram, ParseError>)
        ensures
            match r {
                Ok(d) => parse_text(text@) == Ok::<Seq<StatementS>, nat>(d.document@),
                Err(e) => parse_text(text@) == Err::<Seq<StatementS>, nat>(e.line as nat)
                    && e.message@ == parse_error_message(),
            },
    {
        match parse(text) {
            Ok(document) => Ok(SequenceDiagram { document }),
            Err(e) => Err(e),
        }
    }

    pub fn layout(&self) -> (r: Layout)
        requires
            doc_fits(self.document@),
        ensures
            r@ == layout_of(self.document@),
            crate::layout::layout_wf(&r),
    {
        layout(&self.document)
    }

    pub fn draw(&self) -> (r: Paper)
        requires
            doc_fits(self.document@),
        ensures
            r@ == paper_of(layout_of(self.document@)),
    {
        let l = layout(&self.document);
        draw(&l)
    }
}

/// Draws a text.
pub fn generate(text: &str) -> (r: Result<Paper, RenderError>)
    ensures
        render_view(&r) == render_of(text@),
{
    let diagram = match SequenceDiagram::parse(text) {
        Ok(d) => d,
        Err(e) => {
            return Err(RenderError::Parse(e));
        },
    };
    if !fits(&diagram.document) {
        return Err(RenderError::TooLarge);
    }
    Ok(diagram.draw())
}

/// Equal texts give equal drawings, or equal errors (line and message); with
/// equal path data, the SVG documents of the drawings are equal too.
pub proof fn lemma_render_deterministic(
    t1: Seq<char>,
    t2: Seq<char>,
    curves1: Seq<Seq<char>>,
    curves2: Seq<Seq<char>>,
)
    requires
        t1 == t2,
        curves1 == curves2,
    ensures
        render_of(t1) == render_of(t2),
        render_of(t1) is Ok ==> xml_of(svg_calls(render_of(t1)->Ok_0, curves1)) == xml_of(
            svg_calls(render_of(t2)->Ok_0, curves2),
        ),
{
}

/// The token of a text, and its drawing.
pub fn pickle_and_gen(text: &str) -> (r: Result<(String, Paper), RenderError>)
    ensures
        match r {
            Ok((token, paper)) => token@ == token_of(text@) && decodes_to(token@, text@) && (
            forall|i: int| 4 <= i < token@.len() ==> is_b64url_char(#[trigger] token@[i]))
                && render_of(text@) == Ok::<
                PaperS,
                Option<(nat, Seq<char>)>,
            >(paper@),
            Err(e) => render_view(&Err(e)) == render_of(text@),
        },
{
    let pickled = encode_text(text);
    match generate(text) {
        Ok(paper) => Ok((pickled, paper)),
        Err(e) => Err(e),
    }
}

/// The text that a token holds, and its drawing; no drawing for an empty token.
pub fn load_and_gen(hash: &str) -> (r: Result<(String, Option<Paper>), LoadError>)
    ensures
        hash@.len() == 0 ==> r is Ok && r->Ok_0.0@ == Seq::<char>::empty() && r->Ok_0.1 is None,
        hash@.len() > 0 ==> (payload_of(hash@) is None <==> r matches Err(
            LoadError::Token(TokenError::UnexpectedHash),
        )),
        forall|t: Seq<char>|
            #[trigger] decodes_to(hash@, t) ==> match r {
                Ok((text, Some(paper))) => text@ == t && render_of(t) == Ok::<
                    PaperS,
                    Option<(nat, Seq<char>)>,
                >(paper@),
                Err(LoadError::Render(e)) => render_view(&Err(e)) == render_of(t),
                _ => false,
            },
        match r {
            Ok((text, Some(paper))) => render_of(text@) == Ok::<PaperS, Option<(nat, Seq<char>)>>(paper@),
            _ => true,
        },
        hash@.len() > 0 ==> match decode_of(hash@) {
            Err(e) => match r {
                Err(LoadError::Token(e2)) => e2 == e,
                _ => false,
            },
            Ok(t) => match r {
                Ok((text, Some(paper))) => text@ == t && render_of(t) == Ok::<
                    PaperS,
                    Option<(nat, Seq<char>)>,
                >(paper@),
                Err(LoadError::Render(e)) => render_view(&Err(e)) == render_of(t),
                _ => false,
            },
        },
{
    if hash.is_empty() {
        return Ok((String::new(), None));
    }
    let text = match decode_text(hash) {
        Ok(t) => t,
        Err(e) => {
            return Err(LoadError::Token(e));
        },
    };
    match generate(text.as_str()) {
        Ok(paper) => Ok((text, Some(paper))),
        Err(e) => Err(LoadError::Render(e)),
    }
}

} // verus!
