//! One HTTP exchange: the request a caller describes, the transfer that is
//! handed to the transport for it, and the response that comes back.

use crate::text::same_text;
use vstd::prelude::*;

verus! {

/// An HTTP request as the caller describes it.
#[derive(Clone, Debug, PartialEq, Eq)]
pub struct HttpRequest {
    pub url: String,
    /// Case-sensitive method token; any text is allowed.
    pub method: String,
    /// Raw `Name: Value` lines, in the order in which they are sent.
    pub headers: Vec<String>,
    pub body: Option<String>,
}

/// An HTTP response.
#[derive(Clone, Debug, PartialEq, Eq)]
pub struct HttpResponse {
    pub status: u32,
    /// Raw header lines in the order received, none of them empty.
    pub headers: Vec<String>,
    pub body: String,
}

/// A group of HTTP requests.
#[derive(Clone, Debug, PartialEq, Eq)]
pub struct HttpRequestGroup {
    pub requests: Vec<HttpRequest>,
}

/// How the transport is told which method to use.
#[derive(Clone, Debug, PartialEq, Eq)]
pub enum Verb {
    /// Plain fetch.
    Get,
    /// Body-carrying submission.
    Post,
    /// Body-carrying upload.
    Put,
    /// Fetch for which no response body is read.
    Head,
    /// Any other token, sent on the request line exactly as given.
    Custom(String),
}

/// What the transport is asked to do for one request.
#[derive(Clone, Debug, PartialEq, Eq)]
pub struct Transfer {
    pub url: String,
    pub verb: Verb,
    pub headers: Vec<String>,
    pub body: Option<String>,
}

pub ghost struct HttpRequestView {
    pub url: Seq<char>,
    pub method: Seq<char>,
    pub headers: Seq<Seq<char>>,
    pub body: Option<Seq<char>>,
}

pub ghost struct HttpResponseView {
    pub status: u32,
    pub headers: Seq<Seq<char>>,
    pub body: Seq<char>,
}

pub ghost enum VerbView {
    Get,
    Post,
    Put,
    Head,
    Custom(Seq<char>),
}

pub ghost struct TransferView {
    pub url: Seq<char>,
    pub verb: VerbView,
    pub headers: Seq<Seq<char>>,
    pub body: Option<Seq<char>>,
}

/// The characters of an optional piece of text.
pub open spec fn optional_text(text: Option<String>) -> Option<Seq<char>> {
    match text {
        Some(t) => Some(t@),
        None => None,
    }
}

impl View for HttpRequest {
    type V = HttpRequestView;

    open spec fn view(&self) -> HttpRequestView {
        HttpRequestView {
            url: self.url@,
            method: self.method@,
            headers: self.headers.deep_view(),
            body: optional_text(self.body),
        }
    }
}

impl View for HttpResponse {
    type V = HttpResponseView;

    open spec fn view(&self) -> HttpResponseView {
        HttpResponseView {
            status: self.status,
            headers: self.headers.deep_view(),
            body: self.body@,
        }
    }
}

impl View for HttpRequestGroup {
    type V = Seq<HttpRequestView>;

    open spec fn view(&self) -> Seq<HttpRequestView> {
        Seq::new(self.requests@.len(), |i: int| self.requests@[i]@)
    }
}

impl View for Verb {
    type V = VerbView;

    open spec fn view(&self) -> VerbView {
        match self {
            Verb::Get => VerbView::Get,
            Verb::Post => VerbView::Post,
            Verb::Put => VerbView::Put,
            Verb::Head => VerbView::Head,
            Verb::Custom(token) => VerbView::Custom(token@),
        }
    }
}

impl View for Transfer {
    type V = TransferView;

    open spec fn view(&self) -> TransferView {
        TransferView {
            url: self.url@,
            verb: self.verb@,
            headers: self.headers.deep_view(),
            body: optional_text(self.body),
        }
    }
}

/// The verb for a method token: four tokens have a dispatch of their own and
/// every other token, known to HTTP or not, is a custom verb that keeps its
/// spelling.
pub open spec fn verb_of(method: Seq<char>) -> VerbView {
    if method == "GET"@ {
        VerbView::Get
    } else if method == "POST"@ {
        VerbView::Post
    } else if method == "PUT"@ {
        VerbView::Put
    } else if method == "HEAD"@ {
        VerbView::Head
    } else {
        VerbView::Custom(method)
    }
}

/// The transfer that a request asks for: its URL, the verb of its method,
/// its headers in the given order and its body, if it has one, whatever the
/// method is.
pub open spec fn transfer_of(request: HttpRequestView) -> TransferView {
    TransferView {
        url: request.url,
        verb: verb_of(request.method),
        headers: request.headers,
        body: request.body,
    }
}

/// Whatever the method is, the transfer goes to the URL of the request,
/// carries its headers in the given order and carries its body if it has
/// one.
pub proof fn lemma_transfer_carries_request(request: HttpRequestView)
    ensures
        transfer_of(request).url == request.url,
        transfer_of(request).headers == request.headers,
        transfer_of(request).body == request.body,
{
}

/// A method token other than the four with a dispatch of their own is sent
/// as a custom verb in its own spelling.
pub proof fn lemma_other_method_is_custom(method: Seq<char>)
    requires
        method != "GET"@,
        method != "POST"@,
        method != "PUT"@,
        method != "HEAD"@,
    ensures
        verb_of(method) == VerbView::Custom(method),
{
}

/// The verbs of the methods that HTTP names.
pub proof fn lemma_named_methods()
    ensures
        verb_of("GET"@) == VerbView::Get,
        verb_of("POST"@) == VerbView::Post,
        verb_of("PUT"@) == VerbView::Put,
        verb_of("HEAD"@) == VerbView::Head,
        verb_of("DELETE"@) == VerbView::Custom("DELETE"@),
        verb_of("OPTIONS"@) == VerbView::Custom("OPTIONS"@),
        verb_of("TRACE"@) == VerbView::Custom("TRACE"@),
        verb_of("PATCH"@) == VerbView::Custom("PATCH"@),
        verb_of("CONNECT"@) == VerbView::Custom("CONNECT"@),
{
    reveal_strlit("GET");
    reveal_strlit("POST");
    reveal_strlit("PUT");
    reveal_strlit("HEAD");
    reveal_strlit("DELETE");
    reveal_strlit("OPTIONS");
    reveal_strlit("TRACE");
    reveal_strlit("PATCH");
    reveal_strlit("CONNECT");
    assert("GET"@[0] == 'G' && "PUT"@[0] == 'P');
    assert("POST"@[0] == 'P' && "HEAD"@[0] == 'H');
    assert("PATCH"@.len() == 5 && "POST"@.len() == 4 && "HEAD"@.len() == 4);
}

impl Verb {
    /// Chooses the verb for a method token. No token is refused.
    pub fn from_method(method: String) -> (verb: Verb)
        ensures
            verb@ == verb_of(method@),
    {
        if same_text(method.as_str(), "GET") {
            Verb::Get
        } else if same_text(method.as_str(), "POST") {
            Verb::Post
        } else if same_text(method.as_str(), "PUT") {
            Verb::Put
        } else if same_text(method.as_str(), "HEAD") {
            Verb::Head
        } else {
            Verb::Custom(method)
        }
    }
}

impl HttpRequest {
    /// Turns the request into the transfer to perform. Every request has one:
    /// nothing about the method, the headers or the body is checked here.
    pub fn into_transfer(self) -> (transfer: Transfer)
        ensures
            transfer@ == transfer_of(self@),
    {
        let HttpRequest { url, method, headers, body } = self;
        Transfer { url, verb: Verb::from_method(method), headers, body }
    }
}

} // verus!
