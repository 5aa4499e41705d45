use vstd::prelude::*;
use vstd::string::StringExecFns;

verus! {

/// The one error of this library: a message, and optionally the error that
/// caused it.
#[derive(Debug)]
pub struct PenyuError {
    message: String,
    source: Option<Box<PenyuError>>,
}

impl PenyuError {
    /// The message of this error alone, without its causes.
    pub closed spec fn message_text(&self) -> Seq<char> {
        self.message@
    }

    /// Whether this error has a cause.
    pub closed spec fn has_source(&self) -> bool {
        self.source is Some
    }

    /// The cause of this error, where it has one.
    pub closed spec fn source_error(&self) -> PenyuError
        recommends
            self.has_source(),
    {
        *self.source->0
    }

    /// How far the chain of causes goes.
    pub closed spec fn depth(&self) -> nat
        decreases self,
    {
        match self.source {
            None => 0,
            Some(cause) => 1 + cause.depth(),
        }
    }

    /// The error as one line: its message, then the message of each cause down
    /// the chain, joined by ": ".
    pub closed spec fn text(&self) -> Seq<char>
        decreases self,
    {
        match self.source {
            None => self.message@,
            Some(cause) => self.message@ + ": "@ + cause.text(),
        }
    }

    /// What `text` is, from the outside: the message alone where there is no
    /// cause, else the message, ": " and the text of the cause.
    pub proof fn lemma_text(&self)
        ensures
            !self.has_source() ==> self.text() == self.message_text(),
            self.has_source() ==> self.text() == self.message_text() + ": "@
                + self.source_error().text(),
    {
    }

    /// The error with the given message and cause.
    pub fn new(message: String, source: Option<Box<PenyuError>>) -> (r: PenyuError)
        ensures
            r.message_text() == message@,
            r.has_source() == (source is Some),
            source is Some ==> r.source_error() == *source->0,
    {
        PenyuError { message, source }
    }

    /// The error with the given message and no cause.
    pub fn from_message(message: &str) -> (r: PenyuError)
        ensures
            r.message_text() == message@,
            !r.has_source(),
            r.text() == message@,
    {
        PenyuError { message: String::from_str(message), source: None }
    }

    /// The message of this error alone.
    pub fn message(&self) -> (r: &str)
        ensures
            r@ == self.message_text(),
    {
        self.message.as_str()
    }

    /// The cause of this error, if it has one.
    pub fn source(&self) -> (r: Option<&PenyuError>)
        ensures
            r is Some == self.has_source(),
            r is Some ==> *r->0 == self.source_error(),
    {
        match &self.source {
            Some(cause) => Some(&**cause),
            None => None,
        }
    }

    /// The error as one line: its message, then each cause down the chain,
    /// joined by ": ".
    pub fn to_text(&self) -> (r: String)
        ensures
            r@ == self.text(),
        decreases self,
    {
        let mut r = self.message.clone();
        match &self.source {
            Some(cause) => {
                r.append(": ");
                let rest = cause.to_text();
                r.append(rest.as_str());
            },
            None => {},
        }
        r
    }
}

impl From<String> for PenyuError {
    fn from(message: String) -> (r: PenyuError)
        ensures
            r.message_text() == message@ && !r.has_source(),
    {
        PenyuError { message, source: None }
    }
}

impl vstd::std_specs::convert::FromSpecImpl<String> for PenyuError {
    open spec fn obeys_from_spec() -> bool {
        true
    }

    closed spec fn from_spec(message: String) -> PenyuError {
        PenyuError { message, source: None }
    }
}

} // verus!
