//! The errors of the library: a line that cannot be parsed, and the one error
//! type that a connection reports.
use vstd::prelude::*;
use vstd::string::*;

verus! {

/// A line whose shape the parser does not accept.
#[derive(Debug, PartialEq, Eq, Clone)]
pub struct UnparsableError {
    message: String,
}

impl View for UnparsableError {
    type V = Seq<char>;

    closed spec fn view(&self) -> Seq<char> {
        self.message@
    }
}

impl UnparsableError {
    pub fn new(message: &str) -> (r: Self)
        ensures
            r@ == message@,
    {
        UnparsableError { message: String::from_str(message) }
    }

    pub fn message(&self) -> (r: &String)
        ensures
            r@ == self@,
    {
        &self.message
    }

    /// The error as text.
    pub fn to_string(&self) -> (r: String)
        ensures
            r@ == self@,
    {
        self.message.clone()
    }
}

/// What went wrong: the shape of a line, the transport, or bytes that are not
/// UTF-8.
#[derive(Debug, PartialEq, Eq, Structural, Clone, Copy)]
pub enum TrirkErrorKind {
    Parse,
    Io,
    Utf8,
}

impl TrirkErrorKind {
    pub open spec fn spec_name(self) -> Seq<char> {
        match self {
            TrirkErrorKind::Parse => "Parse"@,
            TrirkErrorKind::Io => "Io"@,
            TrirkErrorKind::Utf8 => "Utf8"@,
        }
    }

    /// The kind's name.
    pub fn name(&self) -> (r: &'static str)
        ensures
            r@ == self.spec_name(),
    {
        match self {
            TrirkErrorKind::Parse => "Parse",
            TrirkErrorKind::Io => "Io",
            TrirkErrorKind::Utf8 => "Utf8",
        }
    }
}

/// An error of a connection, with its kind and a message.
#[derive(Debug, PartialEq, Eq, Clone)]
pub struct TrirkError {
    message: String,
    kind: TrirkErrorKind,
}

pub struct TrirkErrorView {
    pub kind: TrirkErrorKind,
    pub message: Seq<char>,
}

impl View for TrirkError {
    type V = TrirkErrorView;

    closed spec fn view(&self) -> TrirkErrorView {
        TrirkErrorView { kind: self.kind, message: self.message@ }
    }
}

impl TrirkError {
    pub fn new(kind: TrirkErrorKind, message: String) -> (r: Self)
        ensures
            r@ == (TrirkErrorView { kind, message: message@ }),
    {
        TrirkError { message, kind }
    }

    pub fn kind(&self) -> (r: TrirkErrorKind)
        ensures
            r == self@.kind,
    {
        self.kind
    }

    pub fn message(&self) -> (r: &String)
        ensures
            r@ == self@.message,
    {
        &self.message
    }

    /// The error as text: the kind's name, ` - `, then the message.
    pub fn to_string(&self) -> (r: String)
        ensures
            r@ == self@.kind.spec_name() + " - "@ + self@.message,
    {
        let r = String::from_str(self.kind.name());
        let mut r = r.concat(" - ");
        r.append(self.message.as_str());
        r
    }
}

impl From<UnparsableError> for TrirkError {
    fn from(value: UnparsableError) -> (r: Self) {
        TrirkError { message: value.message, kind: TrirkErrorKind::Parse }
    }
}

impl vstd::std_specs::convert::FromSpecImpl<UnparsableError> for TrirkError {
    open spec fn obeys_from_spec() -> bool {
        true
    }

    closed spec fn from_spec(v: UnparsableError) -> TrirkError {
        TrirkError { message: v.message, kind: TrirkErrorKind::Parse }
    }
}

impl TrirkError {
    /// The error that a line which cannot be parsed becomes.
    pub fn from_unparsable(value: UnparsableError) -> (r: Self)
        ensures
            r@ == (TrirkErrorView { kind: TrirkErrorKind::Parse, message: value@ }),
    {
        TrirkError::from(value)
    }
}

} // verus!
