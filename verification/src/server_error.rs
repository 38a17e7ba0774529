//! The error that the broker reports.

use vstd::prelude::*;

verus! {

/// The text of an error report of the broker.
#[derive(Debug, Clone)]
pub struct ServerError(pub String);

impl View for ServerError {
    type V = Seq<char>;

    open spec fn view(&self) -> Seq<char> {
        self.0@
    }
}

impl From<String> for ServerError {
    fn from(s: String) -> (r: ServerError) {
        ServerError(s)
    }
}

impl vstd::std_specs::convert::FromSpecImpl<String> for ServerError {
    open spec fn obeys_from_spec() -> bool {
        true
    }

    open spec fn from_spec(s: String) -> ServerError {
        ServerError(s)
    }
}

/// What `{:?}` writes for a text: the text between double quotes, with escapes.
pub uninterp spec fn debug_text(s: Seq<char>) -> Seq<char>;

/// `format!` with `{:?}` on the text: the name of the type, and in round brackets the
/// text as `Debug` writes it. The result depends on the text alone.
#[verifier::external_body]
fn format_error(text: &str) -> (r: String)
    ensures
        r@ == "ServerError("@ + debug_text(text@) + ")"@,
{
    format!("ServerError({:?})", text)
}

impl ServerError {
    /// The text of the report.
    pub fn text(&self) -> (r: &str)
        ensures
            r@ == self@,
    {
        self.0.as_str()
    }

    /// Whether two reports have the same text.
    pub fn same(&self, other: &ServerError) -> (r: bool)
        ensures
            r == (self@ == other@),
    {
        self.0 == other.0
    }

    /// The report as one line for a reader.
    pub fn message(&self) -> (r: String)
        ensures
            r@ == "ServerError("@ + debug_text(self@) + ")"@,
    {
        format_error(self.0.as_str())
    }
}

} // verus!
