//! What a command line comes to: a request, and what to do with it.

use vstd::prelude::*;

use crate::protocol::request::{Request, RequestView};
use crate::protocol::wire;

verus! {

/// Where the data of a request comes from, over the type that stands for a
/// text.
pub enum SourceOf<S> {
    StandardInput,
    File(S),
}

pub type Source = SourceOf<String>;

pub type SourceView = SourceOf<Seq<char>>;

pub open spec fn source_view(source: Option<Source>) -> Option<SourceView> {
    match source {
        Some(SourceOf::StandardInput) => Some(SourceOf::StandardInput),
        Some(SourceOf::File(path)) => Some(SourceOf::File(path@)),
        None => None,
    }
}

/// The request that a command stands for, whether the client attaches to the
/// session behind it, and where data that the request still lacks is read from.
pub struct InvocationSpec {
    pub request: Request,
    pub attach: bool,
    pub source: Option<Source>,
}

pub ghost struct InvocationView {
    pub request: RequestView,
    pub attach: bool,
    pub source: Option<SourceView>,
}

impl View for InvocationSpec {
    type V = InvocationView;

    open spec fn view(&self) -> InvocationView {
        InvocationView {
            request: self.request@,
            attach: self.attach,
            source: source_view(self.source),
        }
    }
}

/// What a command line stands for, or why it is refused.
pub type Expected = Result<InvocationView, Seq<char>>;

/// Whether a parser gave the answer that is expected of it.
pub open spec fn answers(result: Result<InvocationSpec, String>, expected: Expected) -> bool {
    match expected {
        Ok(view) => result matches Ok(invocation) && invocation@ == view,
        Err(error) => result matches Err(message) && message@ == error,
    }
}

/// Whether a parser gave the optional text that is expected of it.
pub open spec fn answers_text(
    result: Result<Option<String>, String>,
    expected: Result<Option<Seq<char>>, Seq<char>>,
) -> bool {
    match expected {
        Ok(view) => result matches Ok(value) && wire::text_view(value) == view,
        Err(error) => result matches Err(message) && message@ == error,
    }
}

/// A request after which the client leaves again.
pub open spec fn plainly(request: RequestView) -> Expected {
    Ok(InvocationView { request, attach: false, source: None })
}

impl InvocationSpec {
    pub fn plain(request: Request) -> (invocation: Self)
        ensures
            plainly(request@) == Ok::<InvocationView, Seq<char>>(invocation@),
    {
        InvocationSpec { request, attach: false, source: None }
    }
}

} // verus!
