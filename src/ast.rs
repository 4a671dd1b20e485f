use vstd::prelude::*;

verus! {

/// Spec-level actor name: the exact literal text of the actor.
pub type ActorS = Seq<char>;

/// Spec model of a note.
pub enum NoteS {
    LeftOf(ActorS, Seq<char>),
    RightOf(ActorS, Seq<char>),
    Over(ActorS, Option<ActorS>, Seq<char>),
}

/// Spec model of a statement.
pub enum StatementS {
    Title(Seq<char>),
    Signal(ActorS, SignalType, ActorS, Seq<char>),
    Participant(ActorS, Option<ActorS>),
    Note(NoteS),
}

#[derive(Clone, Copy, Debug, PartialEq, Eq, Structural)]
pub enum LineType {
    Normal,
    Dot,
}

#[derive(Clone, Copy, Debug, PartialEq, Eq, Structural)]
pub enum ArrowType {
    Plain,
    Normal,
    Open,
}

/// Line style and arrow style of a signal.
#[derive(Clone, Copy, Debug, PartialEq, Eq, Structural)]
pub struct SignalType {
    pub line: LineType,
    pub arrow: ArrowType,
}

impl SignalType {
    pub fn new(line: LineType, arrow: ArrowType) -> (r: SignalType)
        ensures
            r == (SignalType { line, arrow }),
    {
        SignalType { line, arrow }
    }

    pub fn arrow_type(&self) -> (r: ArrowType)
        ensures
            r == self.arrow,
    {
        self.arrow
    }

    pub fn line_type(&self) -> (r: LineType)
        ensures
            r == self.line,
    {
        self.line
    }
}

/// A copy of a character buffer.
pub fn copy_chars(v: &Vec<char>) -> (r: Vec<char>)
    ensures
        r@ == v@,
{
    let mut r: Vec<char> = Vec::new();
    let mut i: usize = 0;
    while i < v.len()
        invariant
            i <= v.len(),
            r@ == v@.subrange(0, i as int),
        decreases v.len() - i,
    {
        r.push(v[i]);
        i = i + 1;
        assert(r@ =~= v@.subrange(0, i as int));
    }
    assert(r@ =~= v@);
    r
}

/// Whether two character buffers hold the same text.
pub fn chars_eq(a: &Vec<char>, b: &Vec<char>) -> (r: bool)
    ensures
        r == (a@ == b@),
{
    if a.len() != b.len() {
        return false;
    }
    let mut i: usize = 0;
    while i < a.len()
        invariant
            i <= a.len(),
            a.len() == b.len(),
            forall|j: int| 0 <= j < i ==> a@[j] == b@[j],
        decreases a.len() - i,
    {
        if a[i] != b[i] {
            return false;
        }
        i = i + 1;
    }
    assert(a@ =~= b@);
    true
}

/// An actor, identified by its exact literal text.
#[derive(Debug)]
pub struct Actor {
    pub name: Vec<char>,
}

impl View for Actor {
    type V = ActorS;

    open spec fn view(&self) -> ActorS {
        self.name@
    }
}

impl Actor {
    pub fn new(name: Vec<char>) -> (r: Actor)
        ensures
            r@ == name@,
    {
        Actor { name }
    }

    pub fn duplicate(&self) -> (r: Actor)
        ensures
            r@ == self@,
    {
        Actor { name: copy_chars(&self.name) }
    }

    pub fn as_chars(&self) -> (r: &Vec<char>)
        ensures
            r@ == self@,
    {
        &self.name
    }
}

pub open spec fn opt_view(a: &Option<Actor>) -> Option<ActorS> {
    match a {
        Some(x) => Some(x@),
        None => None,
    }
}

#[derive(Debug)]
pub struct Title {
    pub text: Vec<char>,
}

impl Title {
    pub fn new(text: Vec<char>) -> (r: Title)
        ensures
            r.text@ == text@,
    {
        Title { text }
    }

    pub fn as_chars(&self) -> (r: &Vec<char>)
        ensures
            r@ == self.text@,
    {
        &self.text
    }
}

#[derive(Debug)]
pub struct Signal {
    pub from: Actor,
    pub kind: SignalType,
    pub to: Actor,
    pub message: Vec<char>,
}

impl Signal {
    pub fn new(from: Actor, kind: SignalType, to: Actor, message: Vec<char>) -> (r: Signal)
        ensures
            r.from@ == from@,
            r.kind == kind,
            r.to@ == to@,
            r.message@ == message@,
    {
        Signal { from, kind, to, message }
    }

    pub fn from(&self) -> (r: &Actor)
        ensures
            r@ == self.from@,
    {
        &self.from
    }

    pub fn to(&self) -> (r: &Actor)
        ensures
            r@ == self.to@,
    {
        &self.to
    }

    pub fn signal(&self) -> (r: &SignalType)
        ensures
            *r == self.kind,
    {
        &self.kind
    }

    pub fn message(&self) -> (r: &Vec<char>)
        ensures
            r@ == self.message@,
    {
        &self.message
    }
}

#[derive(Debug)]
pub struct Participant {
    pub actor: Actor,
    pub display: Option<Actor>,
}

impl Participant {
    pub fn new(actor: Actor, display: Option<Actor>) -> (r: Participant)
        ensures
            r.actor@ == actor@,
            opt_view(&r.display) == opt_view(&display),
    {
        Participant { actor, display }
    }

    pub fn display_name(&self) -> (r: &Option<Actor>)
        ensures
            opt_view(r) == opt_view(&self.display),
    {
        &self.display
    }

    pub fn actor(&self) -> (r: &Actor)
        ensures
            r@ == self.actor@,
    {
        &self.actor
    }
}

#[derive(Debug)]
pub enum Note {
    LeftOf(Actor, Vec<char>),
    RightOf(Actor, Vec<char>),
    Over(Actor, Option<Actor>, Vec<char>),
}

impl View for Note {
    type V = NoteS;

    open spec fn view(&self) -> NoteS {
        match self {
            Note::LeftOf(a, t) => NoteS::LeftOf(a@, t@),
            Note::RightOf(a, t) => NoteS::RightOf(a@, t@),
            Note::Over(a, b, t) => NoteS::Over(a@, opt_view(b), t@),
        }
    }
}

#[derive(Debug)]
pub enum Statement {
    Title(Title),
    Signal(Signal),
    Participant(Participant),
    Note(Note),
}

impl View for Statement {
    type V = StatementS;

    open spec fn view(&self) -> StatementS {
        match self {
            Statement::Title(t) => StatementS::Title(t.text@),
            Statement::Signal(s) => StatementS::Signal(s.from@, s.kind, s.to@, s.message@),
            Statement::Participant(p) => StatementS::Participant(p.actor@, opt_view(&p.display)),
            Statement::Note(n) => StatementS::Note(n@),
        }
    }
}

/// A parsed diagram: its statements in source order.
#[derive(Debug)]
pub struct Document {
    pub statements: Vec<Statement>,
}

impl View for Document {
    type V = Seq<StatementS>;

    open spec fn view(&self) -> Seq<StatementS> {
        self.statements@.map_values(|s: Statement| s@)
    }
}

impl Document {
    pub fn new(statements: Vec<Statement>) -> (r: Document)
        ensures
            r.statements@ == statements@,
    {
        Document { statements }
    }

    /// The statements, in source order.
    pub fn iter(&self) -> (r: &[Statement])
        ensures
            r@ == self.statements@,
    {
        self.statements.as_slice()
    }

    pub fn len(&self) -> (r: usize)
        ensures
            r == self@.len(),
    {
        self.statements.len()
    }
}

} // verus!
