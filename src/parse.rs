//! The notation's grammar, as spec functions over the text's characters, and
//! a parser proved to follow it.
use vstd::prelude::*;
use vstd::string::StringExecFns;
use crate::ast::{
    copy_chars, ActorS, Actor, ArrowType, Document, LineType, Note, NoteS, Participant, Signal,
    SignalType, Statement, StatementS, Title, opt_view,
};

verus! {

/// Whitespace between tokens.
pub open spec fn is_ws(c: char) -> bool {
    c == ' ' || c == '\t' || c == '\r'
}

/// A character that may stand in a bareword actor name.
pub open spec fn is_bare(c: char) -> bool {
    !is_ws(c) && c != '\n' && c != '-' && c != '>' && c != ':' && c != ',' && c != '"'
}

/// First position at or after `i` (and before `e`) that is not whitespace.
pub open spec fn skip_ws(s: Seq<char>, i: int, e: int) -> int
    decreases e - i,
{
    if i < e && is_ws(s[i]) {
        skip_ws(s, i + 1, e)
    } else {
        i
    }
}

/// End of the bareword that starts at `i`.
pub open spec fn bare_end(s: Seq<char>, i: int, e: int) -> int
    decreases e - i,
{
    if i < e && is_bare(s[i]) {
        bare_end(s, i + 1, e)
    } else {
        i
    }
}

/// Position of the first double quote at or after `i`, or `e`.
pub open spec fn quote_end(s: Seq<char>, i: int, e: int) -> int
    decreases e - i,
{
    if i < e && s[i] != '"' {
        quote_end(s, i + 1, e)
    } else {
        i
    }
}

/// Position of the first newline at or after `i`, or the end of the text.
pub open spec fn line_end(s: Seq<char>, i: int) -> int
    decreases s.len() - i,
{
    if 0 <= i < s.len() && s[i] != '\n' {
        line_end(s, i + 1)
    } else {
        i
    }
}

/// `kw` stands at `i`, within the line that ends at `e`.
pub open spec fn word_at(s: Seq<char>, i: int, e: int, kw: Seq<char>) -> bool {
    0 <= i && i + kw.len() <= e && s.subrange(i, i + kw.len()) == kw
}

/// `kw` stands at `i` and whitespace follows it.
pub open spec fn kw_at(s: Seq<char>, i: int, e: int, kw: Seq<char>) -> bool {
    word_at(s, i, e, kw) && i + kw.len() < e && is_ws(s[i + kw.len()])
}

pub open spec fn kw_title() -> Seq<char> {
    seq!['t', 'i', 't', 'l', 'e']
}

pub open spec fn kw_participant() -> Seq<char> {
    seq!['p', 'a', 'r', 't', 'i', 'c', 'i', 'p', 'a', 'n', 't']
}

pub open spec fn kw_as() -> Seq<char> {
    seq!['a', 's']
}

pub open spec fn kw_note() -> Seq<char> {
    seq!['n', 'o', 't', 'e']
}

pub open spec fn kw_left() -> Seq<char> {
    seq!['l', 'e', 'f', 't']
}

pub open spec fn kw_right() -> Seq<char> {
    seq!['r', 'i', 'g', 'h', 't']
}

pub open spec fn kw_of() -> Seq<char> {
    seq!['o', 'f']
}

pub open spec fn kw_over() -> Seq<char> {
    seq!['o', 'v', 'e', 'r']
}

/// Free text that runs to the end of the line, leading whitespace dropped.
pub open spec fn rest_of_line(s: Seq<char>, i: int, e: int) -> Seq<char> {
    s.subrange(skip_ws(s, i, e), e)
}

/// An actor at `i`: a bareword, or the inner text of a double-quoted literal.
/// Gives the actor's key and the position after it.
pub open spec fn actor_at(s: Seq<char>, i: int, e: int) -> Option<(ActorS, int)> {
    if i < e && s[i] == '"' {
        let j = quote_end(s, i + 1, e);
        if j < e && j > i + 1 {
            Some((s.subrange(i + 1, j), j + 1))
        } else {
            None
        }
    } else {
        let j = bare_end(s, i, e);
        if j > i {
            Some((s.subrange(i, j), j))
        } else {
            None
        }
    }
}

/// The signal token at `i`: `-`, `--`, `->`, `-->`, `->>` or `-->>`.
pub open spec fn sig_token(s: Seq<char>, i: int, e: int) -> Option<(SignalType, int)> {
    if i < e && s[i] == '-' {
        let dotted = i + 1 < e && s[i + 1] == '-';
        let j = if dotted { i + 2 } else { i + 1 };
        let line = if dotted { LineType::Dot } else { LineType::Normal };
        if j < e && s[j] == '>' {
            if j + 1 < e && s[j + 1] == '>' {
                Some((SignalType { line, arrow: ArrowType::Open }, j + 2))
            } else {
                Some((SignalType { line, arrow: ArrowType::Normal }, j + 1))
            }
        } else {
            Some((SignalType { line, arrow: ArrowType::Plain }, j))
        }
    } else {
        None
    }
}

/// `title <text>`
pub open spec fn title_form(s: Seq<char>, i: int, e: int) -> Option<StatementS> {
    if kw_at(s, i, e, kw_title()) {
        Some(StatementS::Title(rest_of_line(s, i + 5, e)))
    } else {
        None
    }
}

/// `participant <actor> [as <actor>]`
pub open spec fn participant_form(s: Seq<char>, i: int, e: int) -> Option<StatementS> {
    if kw_at(s, i, e, kw_participant()) {
        match actor_at(s, skip_ws(s, i + 11, e), e) {
            None => None,
            Some((a, j)) => {
                let k = skip_ws(s, j, e);
                if k == e {
                    Some(StatementS::Participant(a, None))
                } else if kw_at(s, k, e, kw_as()) {
                    match actor_at(s, skip_ws(s, k + 2, e), e) {
                        None => None,
                        Some((b, m)) => if skip_ws(s, m, e) == e {
                            Some(StatementS::Participant(a, Some(b)))
                        } else {
                            None
                        },
                    }
                } else {
                    None
                }
            },
        }
    } else {
        None
    }
}

/// `of <actor>: <text>`, the tail of a `left of` or `right of` note.
pub open spec fn placed_note(s: Seq<char>, q: int, e: int, right: bool) -> Option<StatementS> {
    if kw_at(s, q, e, kw_of()) {
        match actor_at(s, skip_ws(s, q + 2, e), e) {
            None => None,
            Some((a, j)) => {
                let c = skip_ws(s, j, e);
                if c < e && s[c] == ':' {
                    let t = rest_of_line(s, c + 1, e);
                    Some(
                        StatementS::Note(
                            if right {
                                NoteS::RightOf(a, t)
                            } else {
                                NoteS::LeftOf(a, t)
                            },
                        ),
                    )
                } else {
                    None
                }
            },
        }
    } else {
        None
    }
}

/// `<actor> [, <actor>]: <text>`, the tail of an `over` note.
pub open spec fn over_note(s: Seq<char>, q: int, e: int) -> Option<StatementS> {
    match actor_at(s, q, e) {
        None => None,
        Some((a, j)) => {
            let c = skip_ws(s, j, e);
            if c < e && s[c] == ':' {
                Some(StatementS::Note(NoteS::Over(a, None, rest_of_line(s, c + 1, e))))
            } else if c < e && s[c] == ',' {
                match actor_at(s, skip_ws(s, c + 1, e), e) {
                    None => None,
                    Some((b, m)) => {
                        let d = skip_ws(s, m, e);
                        if d < e && s[d] == ':' {
                            Some(
                                StatementS::Note(
                                    NoteS::Over(a, Some(b), rest_of_line(s, d + 1, e)),
                                ),
                            )
                        } else {
                            None
                        }
                    },
                }
            } else {
                None
            }
        },
    }
}

/// `note left of ...`, `note right of ...` or `note over ...`
pub open spec fn note_form(s: Seq<char>, i: int, e: int) -> Option<StatementS> {
    if kw_at(s, i, e, kw_note()) {
        let p = skip_ws(s, i + 4, e);
        if kw_at(s, p, e, kw_left()) {
            placed_note(s, skip_ws(s, p + 4, e), e, false)
        } else if kw_at(s, p, e, kw_right()) {
            placed_note(s, skip_ws(s, p + 5, e), e, true)
        } else if kw_at(s, p, e, kw_over()) {
            over_note(s, skip_ws(s, p + 4, e), e)
        } else {
            None
        }
    } else {
        None
    }
}

/// `<actor> <signal token> <actor>: <message>`
pub open spec fn signal_form(s: Seq<char>, i: int, e: int) -> Option<StatementS> {
    match actor_at(s, i, e) {
        None => None,
        Some((a, j)) => match sig_token(s, skip_ws(s, j, e), e) {
            None => None,
            Some((t, k)) => match actor_at(s, skip_ws(s, k, e), e) {
                None => None,
                Some((b, m)) => {
                    let c = skip_ws(s, m, e);
                    if c < e && s[c] == ':' {
                        Some(StatementS::Signal(a, t, b, rest_of_line(s, c + 1, e)))
                    } else {
                        None
                    }
                },
            },
        },
    }
}

/// The statement that spans `i..e`: the first of the four forms that matches.
pub open spec fn statement_at(s: Seq<char>, i: int, e: int) -> Option<StatementS> {
    if title_form(s, i, e) is Some {
        title_form(s, i, e)
    } else if participant_form(s, i, e) is Some {
        participant_form(s, i, e)
    } else if note_form(s, i, e) is Some {
        note_form(s, i, e)
    } else {
        signal_form(s, i, e)
    }
}

/// One line: `Some(None)` when blank, `Some(Some(st))` for a statement,
/// `None` when it is malformed.
pub open spec fn line_at(s: Seq<char>, i: int, e: int) -> Option<Option<StatementS>> {
    let k = skip_ws(s, i, e);
    if k == e {
        Some(None)
    } else {
        match statement_at(s, k, e) {
            Some(st) => Some(Some(st)),
            None => None,
        }
    }
}

/// The statements of the lines from position `i` on, where `line` is the
/// 1-based number of the line that starts at `i`; or the number of the first
/// malformed line.
pub open spec fn parse_lines(s: Seq<char>, i: int, line: nat) -> Result<Seq<StatementS>, nat>
    decreases s.len() - i,
{
    if i < 0 || i > s.len() {
        Ok(seq![])
    } else {
        let e = line_end(s, i);
        match line_at(s, i, e) {
            None => Err(line),
            Some(o) => {
                let rest = if i <= e < s.len() {
                    parse_lines(s, e + 1, line + 1)
                } else {
                    Ok(seq![])
                };
                match rest {
                    Err(l) => Err(l),
                    Ok(v) => Ok(
                        match o {
                            Some(st) => seq![st] + v,
                            None => v,
                        },
                    ),
                }
            },
        }
    }
}

/// What parsing the whole text gives.
pub open spec fn parse_text(s: Seq<char>) -> Result<Seq<StatementS>, nat> {
    parse_lines(s, 0, 1)
}

/// The description carried by every parse failure.
pub open spec fn parse_error_message() -> Seq<char> {
    "expected a title, participant, note or signal statement"@
}

/// The description is not empty.
pub proof fn lemma_parse_error_message_nonempty()
    ensures
        parse_error_message().len() > 0,
{
    reveal_strlit("expected a title, participant, note or signal statement");
}

/// A located parse failure.
#[derive(Debug)]
pub struct ParseError {
    /// 1-based number of the first malformed line.
    pub line: usize,
    pub message: String,
}

pub open spec fn opt_stmt_view(r: &Option<Statement>) -> Option<StatementS> {
    match r {
        Some(st) => Some(st@),
        None => None,
    }
}

pub fn is_ws_char(c: char) -> (r: bool)
    ensures
        r == is_ws(c),
{
    c == ' ' || c == '\t' || c == '\r'
}

pub fn is_bare_char(c: char) -> (r: bool)
    ensures
        r == is_bare(c),
{
    !is_ws_char(c) && c != '\n' && c != '-' && c != '>' && c != ':' && c != ',' && c != '"'
}

/// The characters of a text.
pub fn text_chars(text: &str) -> (r: Vec<char>)
    ensures
        r@ == text@,
{
    broadcast use vstd::string::axiom_spec_iter;

    let mut r: Vec<char> = Vec::new();
    for c in it: text.chars()
        invariant
            it.seq() == text@,
            r@ == it.seq().take(it.index() as int),
    {
        r.push(c);
    }
    assert(r@ =~= text@);
    r
}

/// The characters `a..b` of `s`.
pub fn slice_chars(s: &Vec<char>, a: usize, b: usize) -> (r: Vec<char>)
    requires
        a <= b <= s.len(),
    ensures
        r@ == s@.subrange(a as int, b as int),
{
    let mut r: Vec<char> = Vec::new();
    let mut i: usize = a;
    while i < b
        invariant
            a <= i <= b <= s.len(),
            r@ == s@.subrange(a as int, i as int),
        decreases b - i,
    {
        r.push(s[i]);
        i = i + 1;
        assert(r@ =~= s@.subrange(a as int, i as int));
    }
    r
}

fn skip_ws_from(s: &Vec<char>, i: usize, e: usize) -> (r: usize)
    requires
        i <= e <= s.len(),
    ensures
        r == skip_ws(s@, i as int, e as int),
        i <= r <= e,
{
    let mut k: usize = i;
    while k < e && is_ws_char(s[k])
        invariant
            i <= k <= e <= s.len(),
            skip_ws(s@, k as int, e as int) == skip_ws(s@, i as int, e as int),
        decreases e - k,
    {
        k = k + 1;
    }
    k
}

fn bare_end_from(s: &Vec<char>, i: usize, e: usize) -> (r: usize)
    requires
        i <= e <= s.len(),
    ensures
        r == bare_end(s@, i as int, e as int),
        i <= r <= e,
{
    let mut k: usize = i;
    while k < e && is_bare_char(s[k])
        invariant
            i <= k <= e <= s.len(),
            bare_end(s@, k as int, e as int) == bare_end(s@, i as int, e as int),
        decreases e - k,
    {
        k = k + 1;
    }
    k
}

fn quote_end_from(s: &Vec<char>, i: usize, e: usize) -> (r: usize)
    requires
        i <= e <= s.len(),
    ensures
        r == quote_end(s@, i as int, e as int),
        i <= r <= e,
{
    let mut k: usize = i;
    while k < e && s[k] != '"'
        invariant
            i <= k <= e <= s.len(),
            quote_end(s@, k as int, e as int) == quote_end(s@, i as int, e as int),
        decreases e - k,
    {
        k = k + 1;
    }
    k
}

fn line_end_from(s: &Vec<char>, i: usize) -> (r: usize)
    requires
        i <= s.len(),
    ensures
        r == line_end(s@, i as int),
        i <= r <= s.len(),
{
    let mut k: usize = i;
    while k < s.len() && s[k] != '\n'
        invariant
            i <= k <= s.len(),
            line_end(s@, k as int) == line_end(s@, i as int),
        decreases s.len() - k,
    {
        k = k + 1;
    }
    k
}

fn word_at_exec(s: &Vec<char>, i: usize, e: usize, kw: &Vec<char>) -> (r: bool)
    requires
        i <= e <= s.len(),
    ensures
        r == word_at(s@, i as int, e as int, kw@),
{
    if kw.len() > e - i {
        return false;
    }
    let mut j: usize = 0;
    while j < kw.len()
        invariant
            i + kw.len() <= e <= s.len(),
            j <= kw.len(),
            forall|m: int| 0 <= m < j ==> s@[i + m] == kw@[m],
        decreases kw.len() - j,
    {
        if s[i + j] != kw[j] {
            assert(s@.subrange(i as int, i + kw.len())[j as int] != kw@[j as int]);
            return false;
        }
        j = j + 1;
    }
    assert(s@.subrange(i as int, i + kw.len()) =~= kw@);
    true
}

fn kw_at_exec(s: &Vec<char>, i: usize, e: usize, kw: &Vec<char>) -> (r: bool)
    requires
        i <= e <= s.len(),
    ensures
        r == kw_at(s@, i as int, e as int, kw@),
{
    word_at_exec(s, i, e, kw) && kw.len() < e - i && is_ws_char(s[i + kw.len()])
}

fn rest_of_line_exec(s: &Vec<char>, i: usize, e: usize) -> (r: Vec<char>)
    requires
        i <= e <= s.len(),
    ensures
        r@ == rest_of_line(s@, i as int, e as int),
{
    let k = skip_ws_from(s, i, e);
    slice_chars(s, k, e)
}

fn actor_at_exec(s: &Vec<char>, i: usize, e: usize) -> (r: Option<(Actor, usize)>)
    requires
        i <= e <= s.len(),
    ensures
        match r {
            Some((a, j)) => actor_at(s@, i as int, e as int) == Some((a@, j as int)) && j <= e,
            None => actor_at(s@, i as int, e as int) is None,
        },
{
    if i < e && s[i] == '"' {
        let j = quote_end_from(s, i + 1, e);
        if j < e && j > i + 1 {
            Some((Actor::new(slice_chars(s, i + 1, j)), j + 1))
        } else {
            None
        }
    } else {
        let j = bare_end_from(s, i, e);
        if j > i {
            Some((Actor::new(slice_chars(s, i, j)), j))
        } else {
            None
        }
    }
}

fn sig_token_exec(s: &Vec<char>, i: usize, e: usize) -> (r: Option<(SignalType, usize)>)
    requires
        i <= e <= s.len(),
    ensures
        match r {
            Some((t, j)) => sig_token(s@, i as int, e as int) == Some((t, j as int)) && j <= e,
            None => sig_token(s@, i as int, e as int) is None,
        },
{
    if i < e && s[i] == '-' {
        let dotted = i + 1 < e && s[i + 1] == '-';
        let j = if dotted { i + 2 } else { i + 1 };
        let line = if dotted { LineType::Dot } else { LineType::Normal };
        if j < e && s[j] == '>' {
            if j + 1 < e && s[j + 1] == '>' {
                Some((SignalType::new(line, ArrowType::Open), j + 2))
            } else {
                Some((SignalType::new(line, ArrowType::Normal), j + 1))
            }
        } else {
            Some((SignalType::new(line, ArrowType::Plain), j))
        }
    } else {
        None
    }
}

fn title_form_exec(s: &Vec<char>, i: usize, e: usize) -> (r: Option<Statement>)
    requires
        i <= e <= s.len(),
    ensures
        opt_stmt_view(&r) == title_form(s@, i as int, e as int),
{
    let kw = vec!['t', 'i', 't', 'l', 'e'];
    assert(kw@ == kw_title());
    if kw_at_exec(s, i, e, &kw) {
        Some(Statement::Title(Title::new(rest_of_line_exec(s, i + 5, e))))
    } else {
        None
    }
}

fn participant_form_exec(s: &Vec<char>, i: usize, e: usize) -> (r: Option<Statement>)
    requires
        i <= e <= s.len(),
    ensures
        opt_stmt_view(&r) == participant_form(s@, i as int, e as int),
{
    let kw = vec!['p', 'a', 'r', 't', 'i', 'c', 'i', 'p', 'a', 'n', 't'];
    assert(kw@ == kw_participant());
    if !kw_at_exec(s, i, e, &kw) {
        return None;
    }
    let a0 = skip_ws_from(s, i + 11, e);
    match actor_at_exec(s, a0, e) {
        None => None,
        Some((a, j)) => {
            let k = skip_ws_from(s, j, e);
            let kw_as_v = vec!['a', 's'];
            assert(kw_as_v@ == kw_as());
            if k == e {
                Some(Statement::Participant(Participant::new(a, None)))
            } else if kw_at_exec(s, k, e, &kw_as_v) {
                let b0 = skip_ws_from(s, k + 2, e);
                match actor_at_exec(s, b0, e) {
                    None => None,
                    Some((b, m)) => {
                        if skip_ws_from(s, m, e) == e {
                            Some(Statement::Participant(Participant::new(a, Some(b))))
                        } else {
                            None
                        }
                    },
                }
            } else {
                None
            }
        },
    }
}

fn placed_note_exec(s: &Vec<char>, q: usize, e: usize, right: bool) -> (r: Option<Statement>)
    requires
        q <= e <= s.len(),
    ensures
        opt_stmt_view(&r) == placed_note(s@, q as int, e as int, right),
{
    let kw = vec!['o', 'f'];
    assert(kw@ == kw_of());
    if !kw_at_exec(s, q, e, &kw) {
        return None;
    }
    let a0 = skip_ws_from(s, q + 2, e);
    match actor_at_exec(s, a0, e) {
        None => None,
        Some((a, j)) => {
            let c = skip_ws_from(s, j, e);
            if c < e && s[c] == ':' {
                let t = rest_of_line_exec(s, c + 1, e);
                if right {
                    Some(Statement::Note(Note::RightOf(a, t)))
                } else {
                    Some(Statement::Note(Note::LeftOf(a, t)))
                }
            } else {
                None
            }
        },
    }
}

fn over_note_exec(s: &Vec<char>, q: usize, e: usize) -> (r: Option<Statement>)
    requires
        q <= e <= s.len(),
    ensures
        opt_stmt_view(&r) == over_note(s@, q as int, e as int),
{
    match actor_at_exec(s, q, e) {
        None => None,
        Some((a, j)) => {
            let c = skip_ws_from(s, j, e);
            if c < e && s[c] == ':' {
                Some(Statement::Note(Note::Over(a, None, rest_of_line_exec(s, c + 1, e))))
            } else if c < e && s[c] == ',' {
                let b0 = skip_ws_from(s, c + 1, e);
                match actor_at_exec(s, b0, e) {
                    None => None,
                    Some((b, m)) => {
                        let d = skip_ws_from(s, m, e);
                        if d < e && s[d] == ':' {
                            let t = rest_of_line_exec(s, d + 1, e);
                            Some(Statement::Note(Note::Over(a, Some(b), t)))
                        } else {
                            None
                        }
                    },
                }
            } else {
                None
            }
        },
    }
}

fn note_form_exec(s: &Vec<char>, i: usize, e: usize) -> (r: Option<Statement>)
    requires
        i <= e <= s.len(),
    ensures
        opt_stmt_view(&r) == note_form(s@, i as int, e as int),
{
    let kw = vec!['n', 'o', 't', 'e'];
    assert(kw@ == kw_note());
    if !kw_at_exec(s, i, e, &kw) {
        return None;
    }
    let p = skip_ws_from(s, i + 4, e);
    let left = vec!['l', 'e', 'f', 't'];
    let right = vec!['r', 'i', 'g', 'h', 't'];
    let over = vec!['o', 'v', 'e', 'r'];
    assert(left@ == kw_left());
    assert(right@ == kw_right());
    assert(over@ == kw_over());
    if kw_at_exec(s, p, e, &left) {
        let q = skip_ws_from(s, p + 4, e);
        placed_note_exec(s, q, e, false)
    } else if kw_at_exec(s, p, e, &right) {
        let q = skip_ws_from(s, p + 5, e);
        placed_note_exec(s, q, e, true)
    } else if kw_at_exec(s, p, e, &over) {
        let q = skip_ws_from(s, p + 4, e);
        over_note_exec(s, q, e)
    } else {
        None
    }
}

fn signal_form_exec(s: &Vec<char>, i: usize, e: usize) -> (r: Option<Statement>)
    requires
        i <= e <= s.len(),
    ensures
        opt_stmt_view(&r) == signal_form(s@, i as int, e as int),
{
    match actor_at_exec(s, i, e) {
        None => None,
        Some((a, j)) => {
            let t0 = skip_ws_from(s, j, e);
            match sig_token_exec(s, t0, e) {
                None => None,
                Some((t, k)) => {
                    let b0 = skip_ws_from(s, k, e);
                    match actor_at_exec(s, b0, e) {
                        None => None,
                        Some((b, m)) => {
                            let c = skip_ws_from(s, m, e);
                            if c < e && s[c] == ':' {
                                let msg = rest_of_line_exec(s, c + 1, e);
                                Some(Statement::Signal(Signal::new(a, t, b, msg)))
                            } else {
                                None
                            }
                        },
                    }
                },
            }
        },
    }
}

fn statement_at_exec(s: &Vec<char>, i: usize, e: usize) -> (r: Option<Statement>)
    requires
        i <= e <= s.len(),
    ensures
        opt_stmt_view(&r) == statement_at(s@, i as int, e as int),
{
    let t = title_form_exec(s, i, e);
    if t.is_some() {
        return t;
    }
    let p = participant_form_exec(s, i, e);
    if p.is_some() {
        return p;
    }
    let n = note_form_exec(s, i, e);
    if n.is_some() {
        return n;
    }
    signal_form_exec(s, i, e)
}

pub open spec fn combine(acc: Seq<StatementS>, r: Result<Seq<StatementS>, nat>) -> Result<
    Seq<StatementS>,
    nat,
> {
    match r {
        Ok(v) => Ok(acc + v),
        Err(l) => Err(l),
    }
}

/// Parses the characters of a diagram text. Fails with the number of the
/// first malformed line; no statement of a malformed text is kept.
pub fn parse_chars(s: &Vec<char>) -> (r: Result<Document, ParseError>)
    ensures
        match r {
            Ok(d) => parse_text(s@) == Ok::<Seq<StatementS>, nat>(d@),
            Err(err) => parse_text(s@) == Err::<Seq<StatementS>, nat>(err.line as nat)
                && err.message@ == parse_error_message(),
        },
{
    let mut out: Vec<Statement> = Vec::new();
    let mut i: usize = 0;
    let mut done: usize = 0;
    loop
        invariant
            i <= s.len(),
            done <= i,
            combine(out@.map_values(|st: Statement| st@), parse_lines(s@, i as int, done as nat + 1))
                == parse_text(s@),
        decreases s.len() - i,
    {
        let e = line_end_from(s, i);
        let k = skip_ws_from(s, i, e);
        let ghost before = out@.map_values(|st: Statement| st@);
        if k != e {
            match statement_at_exec(s, k, e) {
                Some(st) => {
                    out.push(st);
                    assert(out@.map_values(|st: Statement| st@) =~= before + seq![st@]);
                },
                None => {
                    return Err(
                        ParseError {
                            line: done + 1,
                            message: String::from_str(
                                "expected a title, participant, note or signal statement",
                            ),
                        },
                    );
                },
            }
        }
        if e < s.len() {
            proof {
                let nv = out@.map_values(|st: Statement| st@);
                match parse_lines(s@, e + 1, done as nat + 2) {
                    Ok(v) => {
                        if k != e {
                            assert(nv + v =~= before + (seq![nv.last()] + v));
                        }
                    },
                    Err(_) => {},
                }
            }
            i = e + 1;
            done = done + 1;
        } else {
            proof {
                let nv = out@.map_values(|st: Statement| st@);
                assert(nv =~= nv + seq![]);
                if k != e {
                    assert(seq![nv.last()] + seq![] =~= seq![nv.last()]);
                    assert(nv =~= before + seq![nv.last()]);
                }
            }
            return Ok(Document::new(out));
        }
    }
}

/// Parses a diagram text.
pub fn parse(text: &str) -> (r: Result<Document, ParseError>)
    ensures
        match r {
            Ok(d) => parse_text(text@) == Ok::<Seq<StatementS>, nat>(d@),
            Err(err) => parse_text(text@) == Err::<Seq<StatementS>, nat>(err.line as nat)
                && err.message@ == parse_error_message(),
        },
{
    let s = text_chars(text);
    parse_chars(&s)
}

} // verus!
