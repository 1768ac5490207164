//! Handing a transfer to the transport: the URL, the verb, the list of
//! header lines and the body are set on a transfer handle, in this order.

use crate::http::{Transfer, TransferView, Verb, VerbView};
use vstd::prelude::*;
use vstd::string::StringSliceAdditionalSpecFns;
use vstd::utf8::encode_utf8;

verus! {

/// `curl::easy::Easy`, the handle on which one transfer is set up and
/// performed. What it holds of a request is spoken of as `handle_options`.
#[verifier::external_type_specification]
#[verifier::external_body]
pub struct ExEasy(curl::easy::Easy);

/// `curl::easy::List`, the transport's list of strings. What it holds is
/// spoken of as `list_items`.
#[verifier::external_type_specification]
#[verifier::external_body]
pub struct ExList(curl::easy::List);

/// `curl::Error`, the transport's report of a refusal.
#[verifier::external_type_specification]
#[verifier::external_body]
pub struct ExTransportError(curl::Error);

/// The strings that a `curl::easy::List` holds, first to last, each as its
/// bytes.
pub uninterp spec fn list_items(list: curl::easy::List) -> Seq<Seq<u8>>;

/// The text holds a zero byte, which no string handed to the transport may
/// hold.
pub open spec fn has_nul(text: Seq<char>) -> bool {
    encode_utf8(text).contains(0u8)
}

/// `List::new` makes a list that holds nothing.
pub assume_specification[ curl::easy::List::new ]() -> (list: curl::easy::List)
    ensures
        list_items(list) == Seq::<Seq<u8>>::empty(),
;

/// `List::append` refuses a string that holds a zero byte and leaves the
/// list as it was; any other string becomes the last item of the list.
pub assume_specification[ curl::easy::List::append ](
    list: &mut curl::easy::List,
    data: &str,
) -> (appended: Result<(), curl::Error>)
    ensures
        appended is Err <==> has_nul(data@),
        appended is Err ==> list_items(*final(list)) == list_items(*old(list)),
        appended is Ok ==> list_items(*final(list)) == list_items(*old(list)).push(
            encode_utf8(data@),
        ),
;

/// A request method that a switch of the transfer handle chooses.
pub ghost enum Method {
    Get,
    Post,
    Put,
    Head,
}

/// What a transfer handle holds of the settings that make up a request.
pub ghost struct Options {
    /// The URL of the transfer, where one is set.
    pub url: Option<Seq<u8>>,
    /// The request method, where it is one that a switch chooses. The handle
    /// holds a single method: choosing one replaces the one before.
    pub method: Option<Method>,
    /// Whether the response body is left unfetched.
    pub no_body: bool,
    /// The token that goes on the request line in place of the method's
    /// name, where one is set.
    pub custom_request: Option<Seq<u8>>,
    /// The header lines, first to last, where a list has been handed over.
    pub http_headers: Option<Seq<Seq<u8>>>,
    /// The request body, where one has been copied in.
    pub post_fields: Option<Seq<u8>>,
}

/// What a `curl::easy::Easy` holds of the settings that make up a request.
pub uninterp spec fn handle_options(easy: curl::easy::Easy) -> Options;

/// `Easy::url` sets the URL of the transfer. It refuses a URL that holds a
/// zero byte; whether it takes another is up to the transport. Where it
/// answers `Ok`, the handle holds the bytes given as its URL and nothing
/// else of it has changed.
pub assume_specification[ curl::easy::Easy::url ](easy: &mut curl::easy::Easy, url: &str) -> (set:
    Result<(), curl::Error>)
    ensures
        has_nul(url@) ==> set is Err,
        set is Ok ==> handle_options(*final(easy)) == (Options {
            url: Some(encode_utf8(url@)),
            ..handle_options(*old(easy))
        }),
;

/// `Easy::get`, switched on, makes the method a plain fetch and has the
/// response body fetched; switched off, it changes nothing.
pub assume_specification[ curl::easy::Easy::get ](easy: &mut curl::easy::Easy, enable: bool) -> (set:
    Result<(), curl::Error>)
    ensures
        set is Ok ==> handle_options(*final(easy)) == (if enable {
            Options { method: Some(Method::Get), no_body: false, ..handle_options(*old(easy)) }
        } else {
            handle_options(*old(easy))
        }),
;

/// `Easy::post`, switched on, makes the method a submission and has the
/// response body fetched; switched off, it makes the method a plain fetch.
pub assume_specification[ curl::easy::Easy::post ](
    easy: &mut curl::easy::Easy,
    enable: bool,
) -> (set: Result<(), curl::Error>)
    ensures
        set is Ok ==> handle_options(*final(easy)) == (if enable {
            Options { method: Some(Method::Post), no_body: false, ..handle_options(*old(easy)) }
        } else {
            Options { method: Some(Method::Get), ..handle_options(*old(easy)) }
        }),
;

/// `Easy::put`, switched on, makes the method an upload and has the
/// response body fetched; switched off, it makes the method a plain fetch.
pub assume_specification[ curl::easy::Easy::put ](easy: &mut curl::easy::Easy, enable: bool) -> (set:
    Result<(), curl::Error>)
    ensures
        set is Ok ==> handle_options(*final(easy)) == (if enable {
            Options { method: Some(Method::Put), no_body: false, ..handle_options(*old(easy)) }
        } else {
            Options { method: Some(Method::Get), ..handle_options(*old(easy)) }
        }),
;

/// `Easy::nobody`, switched on, leaves the response body unfetched and
/// makes the method a fetch of the head; switched off, it has the body
/// fetched and turns a fetch of the head into a plain fetch.
pub assume_specification[ curl::easy::Easy::nobody ](
    easy: &mut curl::easy::Easy,
    enable: bool,
) -> (set: Result<(), curl::Error>)
    ensures
        set is Ok ==> handle_options(*final(easy)) == (Options {
            no_body: enable,
            method: if enable {
                Some(Method::Head)
            } else if handle_options(*old(easy)).method == Some(Method::Head) {
                Some(Method::Get)
            } else {
                handle_options(*old(easy)).method
            },
            ..handle_options(*old(easy))
        }),
;

/// `Easy::custom_request` sets the token of the request line. It refuses a
/// token that holds a zero byte. Where it answers `Ok`, the handle holds the
/// bytes given as its token; the method and everything else are as they
/// were.
pub assume_specification[ curl::easy::Easy::custom_request ](
    easy: &mut curl::easy::Easy,
    request: &str,
) -> (set: Result<(), curl::Error>)
    ensures
        has_nul(request@) ==> set is Err,
        set is Ok ==> handle_options(*final(easy)) == (Options {
            custom_request: Some(encode_utf8(request@)),
            ..handle_options(*old(easy))
        }),
;

/// `Easy::http_headers` hands the list of header lines to the handle. Where
/// it answers `Ok`, the handle holds what the list holds and nothing else
/// of it has changed.
pub assume_specification[ curl::easy::Easy::http_headers ](
    easy: &mut curl::easy::Easy,
    list: curl::easy::List,
) -> (set: Result<(), curl::Error>)
    ensures
        set is Ok ==> handle_options(*final(easy)) == (Options {
            http_headers: Some(list_items(list)),
            ..handle_options(*old(easy))
        }),
;

/// `Easy::post_fields_copy` copies the request body into the handle. Where
/// it answers `Ok`, the handle holds the bytes given as its body and its
/// method is a submission, whatever it was before.
pub assume_specification[ curl::easy::Easy::post_fields_copy ](
    easy: &mut curl::easy::Easy,
    data: &[u8],
) -> (set: Result<(), curl::Error>)
    ensures
        set is Ok ==> handle_options(*final(easy)) == (Options {
            post_fields: Some(data@),
            method: Some(Method::Post),
            ..handle_options(*old(easy))
        }),
;

/// A step of setting a transfer up.
#[derive(Clone, Copy, Debug, PartialEq, Eq)]
pub enum Step {
    /// Setting the URL.
    Url,
    /// Choosing the verb.
    Verb,
    /// Putting the header line at this position into the header list.
    Header(usize),
    /// Handing the header list over.
    Headers,
    /// Handing the body over.
    Body,
}

/// Why a transfer could not be set up: the step that the transport refused
/// and the transport's own report of the refusal. Setting up fails for no
/// other reason.
#[derive(Debug, PartialEq)]
pub struct SetupError {
    pub step: Step,
    pub cause: curl::Error,
}

impl SetupError {
    /// The transport's description of what went wrong.
    pub fn message(&self) -> (text: String)
        ensures
            vstd::string::to_string_from_display_ensures::<curl::Error>(&self.cause, text),
    {
        self.cause.to_string()
    }
}

/// What a step amounts to once the transport has answered it: done where
/// the transport took it, and otherwise the refusal of that step with the
/// transport's report.
pub fn after_step(step: Step, answer: Result<(), curl::Error>) -> (outcome: Result<(), SetupError>)
    ensures
        outcome == match answer {
            Ok(()) => Ok::<(), SetupError>(()),
            Err(cause) => Err::<(), SetupError>(SetupError { step, cause }),
        },
{
    match answer {
        Ok(()) => Ok(()),
        Err(cause) => Err(SetupError { step, cause }),
    }
}

/// The bytes of each line.
pub open spec fn line_bytes(lines: Seq<Seq<char>>) -> Seq<Seq<u8>> {
    lines.map_values(|line: Seq<char>| encode_utf8(line))
}

/// Builds the list of header lines for the transport: the given lines in the
/// given order, duplicates and all. The first line that holds a zero byte
/// stops it.
pub fn header_list(headers: &Vec<String>) -> (outcome: Result<curl::easy::List, SetupError>)
    ensures
        match outcome {
            Ok(list) => {
                &&& list_items(list) == line_bytes(headers.deep_view())
                &&& forall|i: int| 0 <= i < headers@.len() ==> !has_nul(#[trigger] headers@[i]@)
            },
            Err(refusal) => {
                &&& refusal.step matches Step::Header(line)
                &&& line < headers@.len()
                &&& has_nul(headers@[line as int]@)
                &&& forall|i: int| 0 <= i < line ==> !has_nul(#[trigger] headers@[i]@)
            },
        },
{
    let mut list = curl::easy::List::new();
    let mut i: usize = 0;
    while i < headers.len()
        invariant
            i <= headers@.len(),
            list_items(list) == line_bytes(headers.deep_view().take(i as int)),
            forall|k: int| 0 <= k < i ==> !has_nul(#[trigger] headers@[k]@),
        decreases headers@.len() - i,
    {
        match list.append(headers[i].as_str()) {
            Ok(()) => {},
            Err(cause) => {
                return Err(SetupError { step: Step::Header(i), cause });
            },
        }
        assert(line_bytes(headers.deep_view().take(i + 1)) =~= line_bytes(
            headers.deep_view().take(i as int),
        ).push(encode_utf8(headers@[i as int]@)));
        i = i + 1;
    }
    assert(headers.deep_view().take(i as int) =~= headers.deep_view());
    Ok(list)
}

/// The verb is a custom one whose token holds a zero byte.
pub open spec fn verb_has_nul(verb: VerbView) -> bool {
    verb matches VerbView::Custom(token) && has_nul(token)
}

/// Some line holds a zero byte.
pub open spec fn some_line_has_nul(lines: Seq<Seq<char>>) -> bool {
    exists|i: int| 0 <= i < lines.len() && has_nul(#[trigger] lines[i])
}

/// What a handle holds once the verb has been chosen: the method of the
/// verb, with the response body fetched unless the verb is `Head`; or, for
/// a custom verb, its token, with the method left as it was.
pub open spec fn with_verb(options: Options, verb: VerbView) -> Options {
    match verb {
        VerbView::Get => Options { method: Some(Method::Get), no_body: false, ..options },
        VerbView::Post => Options { method: Some(Method::Post), no_body: false, ..options },
        VerbView::Put => Options { method: Some(Method::Put), no_body: false, ..options },
        VerbView::Head => Options { method: Some(Method::Head), no_body: true, ..options },
        VerbView::Custom(token) => Options { custom_request: Some(encode_utf8(token)), ..options },
    }
}

/// What a handle holds once the body has been handed over, where there is
/// one: the body, and with it a submission as the method, whatever the verb
/// had made it. Without a body nothing changes.
pub open spec fn with_body(options: Options, body: Option<Seq<char>>) -> Options {
    match body {
        Some(text) => Options {
            post_fields: Some(encode_utf8(text)),
            method: Some(Method::Post),
            ..options
        },
        None => options,
    }
}

/// What a handle holds once a transfer has been set up on it: the URL; then
/// what the verb makes of the method; then the header lines in their order;
/// then the body if there is one, whatever the verb is.
pub open spec fn set_up(before: Options, transfer: TransferView) -> Options {
    let with_url = Options { url: Some(encode_utf8(transfer.url)), ..before };
    let with_headers = Options {
        http_headers: Some(line_bytes(transfer.headers)),
        ..with_verb(with_url, transfer.verb)
    };
    with_body(with_headers, transfer.body)
}

/// The body that a transfer has reaches the handle whatever the verb is, and
/// is the last thing to act on the method: a handle that has been set up for
/// a transfer with a body holds that body and a submission as its method.
pub proof fn lemma_body_is_kept(before: Options, transfer: TransferView)
    requires
        transfer.body is Some,
    ensures
        set_up(before, transfer).post_fields == Some(encode_utf8(transfer.body->0)),
        set_up(before, transfer).method == Some(Method::Post),
        set_up(before, transfer).http_headers == Some(line_bytes(transfer.headers)),
        set_up(before, transfer).url == Some(encode_utf8(transfer.url)),
{
}

/// Without a body, a handle that has been set up holds the method of the
/// verb, and for a custom verb its token.
pub proof fn lemma_verb_is_kept(before: Options, transfer: TransferView)
    requires
        transfer.body is None,
    ensures
        match transfer.verb {
            VerbView::Get => set_up(before, transfer).method == Some(Method::Get),
            VerbView::Post => set_up(before, transfer).method == Some(Method::Post),
            VerbView::Put => set_up(before, transfer).method == Some(Method::Put),
            VerbView::Head => set_up(before, transfer).method == Some(Method::Head) && set_up(
                before,
                transfer,
            ).no_body,
            VerbView::Custom(token) => set_up(before, transfer).custom_request == Some(
                encode_utf8(token),
            ) && set_up(before, transfer).method == before.method,
        },
        set_up(before, transfer).post_fields == before.post_fields,
{
}

/// Sets a transfer up on a handle: first the URL, then the verb, then the
/// header lines, then the body if there is one. Where that succeeds, the
/// handle holds exactly `set_up` of what it held: the verb is chosen before
/// the body is handed over, so that the body has the last word on the
/// method. The first step that the
/// transport refuses ends it, and the error names that step and carries the
/// transport's report; nothing else makes it fail. A zero byte in the URL,
/// in the token of a custom verb or in a header line is refused at its
/// step; what else the transport refuses is for the transport to say.
pub fn configure(easy: &mut curl::easy::Easy, transfer: Transfer) -> (outcome: Result<
    (),
    SetupError,
>)
    ensures
        outcome is Ok ==> handle_options(*final(easy)) == set_up(
            handle_options(*old(easy)),
            transfer@,
        ),
        match outcome {
            Ok(()) => {
                &&& !has_nul(transfer@.url)
                &&& !verb_has_nul(transfer@.verb)
                &&& !some_line_has_nul(transfer@.headers)
            },
            Err(refusal) => match refusal.step {
                Step::Url => true,
                Step::Verb => !has_nul(transfer@.url),
                Step::Header(line) => {
                    &&& !has_nul(transfer@.url)
                    &&& !verb_has_nul(transfer@.verb)
                    &&& line < transfer@.headers.len()
                    &&& has_nul(transfer@.headers[line as int])
                    &&& forall|i: int| 0 <= i < line ==> !has_nul(#[trigger] transfer@.headers[i])
                },
                Step::Headers => {
                    &&& !has_nul(transfer@.url)
                    &&& !verb_has_nul(transfer@.verb)
                    &&& !some_line_has_nul(transfer@.headers)
                },
                Step::Body => {
                    &&& !has_nul(transfer@.url)
                    &&& !verb_has_nul(transfer@.verb)
                    &&& !some_line_has_nul(transfer@.headers)
                    &&& transfer@.body is Some
                },
            },
        },
{
    let Transfer { url, verb, headers, body } = transfer;
    match after_step(Step::Url, easy.url(url.as_str())) {
        Ok(()) => {},
        Err(refusal) => {
            return Err(refusal);
        },
    }
    let chosen = match verb {
        Verb::Get => easy.get(true),
        Verb::Post => easy.post(true),
        Verb::Put => easy.put(true),
        Verb::Head => easy.nobody(true),
        Verb::Custom(token) => easy.custom_request(token.as_str()),
    };
    match after_step(Step::Verb, chosen) {
        Ok(()) => {},
        Err(refusal) => {
            return Err(refusal);
        },
    }
    let list = match header_list(&headers) {
        Ok(list) => list,
        Err(refusal) => {
            return Err(refusal);
        },
    };
    match after_step(Step::Headers, easy.http_headers(list)) {
        Ok(()) => {},
        Err(refusal) => {
            return Err(refusal);
        },
    }
    match body {
        Some(text) => after_step(Step::Body, easy.post_fields_copy(text.as_str().as_bytes())),
        None => Ok(()),
    }
}

} // verus!
