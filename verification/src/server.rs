//! What the gateway's parts share: the shape of a call sent upstream and of a
//! reply, operations on header lists, and the replies that the gateway makes
//! up itself when an upstream fails.

use crate::json::{json_quoted, quote};
use crate::text::{eq_ignore_ascii_case, same_ignoring_ascii_case};
use vstd::prelude::*;
use vstd::string::*;
use vstd::utf8::encode_utf8;

pub mod envelope;
pub mod proxy;
pub mod request;

verus! {

/// A header list by its texts: names and values, in order.
pub type HeaderSeq = Seq<(Seq<char>, Seq<char>)>;

/// The texts of a header list.
pub open spec fn pairs_view(pairs: Seq<(String, String)>) -> HeaderSeq {
    Seq::new(pairs.len(), |i: int| (pairs[i].0@, pairs[i].1@))
}

/// A request to send upstream.
#[derive(Debug, PartialEq, Eq)]
pub struct Call {
    pub method: String,
    pub url: String,
    pub headers: Vec<(String, String)>,
    pub body: String,
}

/// A call by its texts.
pub struct CallView {
    pub method: Seq<char>,
    pub url: Seq<char>,
    pub headers: HeaderSeq,
    pub body: Seq<char>,
}

impl View for Call {
    type V = CallView;

    open spec fn view(&self) -> CallView {
        CallView {
            method: self.method@,
            url: self.url@,
            headers: pairs_view(self.headers@),
            body: self.body@,
        }
    }
}

/// An HTTP response: one received from upstream, or one to give the caller.
#[derive(Debug, PartialEq, Eq)]
pub struct Response {
    pub status: u16,
    pub headers: Vec<(String, String)>,
    pub body: Vec<u8>,
}

/// A response by its texts.
pub struct ResponseView {
    pub status: u16,
    pub headers: HeaderSeq,
    pub body: Seq<u8>,
}

impl View for Response {
    type V = ResponseView;

    open spec fn view(&self) -> ResponseView {
        ResponseView { status: self.status, headers: pairs_view(self.headers@), body: self.body@ }
    }
}

/// How a call upstream ended.
#[derive(Debug, PartialEq, Eq)]
pub enum Fetched {
    /// The upstream could not be reached; the text says why.
    Unreachable(String),
    /// It answered, but its body could not be read; the text says why.
    Unreadable(String),
    /// It answered.
    Answered(Response),
}

/// The end of a call upstream by its texts.
pub enum FetchedView {
    Unreachable(Seq<char>),
    Unreadable(Seq<char>),
    Answered(ResponseView),
}

impl View for Fetched {
    type V = FetchedView;

    open spec fn view(&self) -> FetchedView {
        match self {
            Fetched::Unreachable(why) => FetchedView::Unreachable(why@),
            Fetched::Unreadable(why) => FetchedView::Unreadable(why@),
            Fetched::Answered(response) => FetchedView::Answered(response@),
        }
    }
}

/// A response for the caller, and how long to wait before giving it.
#[derive(Debug, PartialEq, Eq)]
pub struct Answer {
    pub response: Response,
    /// Milliseconds to wait before the response goes out; zero for none.
    pub delay: u64,
}

/// An answer by its texts.
pub struct AnswerView {
    pub response: ResponseView,
    pub delay: u64,
}

impl View for Answer {
    type V = AnswerView;

    open spec fn view(&self) -> AnswerView {
        AnswerView { response: self.response@, delay: self.delay }
    }
}

/// The text of a string that may be missing.
pub open spec fn option_view(text: Option<String>) -> Option<Seq<char>> {
    match text {
        Some(s) => Some(s@),
        None => None,
    }
}

/// The wait that a cached delay asks for: its length, or none.
pub open spec fn wait_of(delay: Option<u64>) -> u64 {
    match delay {
        Some(millis) => millis,
        None => 0,
    }
}

/// Whether a header of the list is named `wanted`, whatever the case of its
/// ASCII letters.
pub open spec fn has_header(headers: HeaderSeq, wanted: Seq<char>) -> bool {
    exists|i: int| 0 <= i < headers.len() && same_ignoring_ascii_case(#[trigger] headers[i].0, wanted)
}

/// The headers of the list that are named `wanted`, in order.
pub open spec fn only(headers: HeaderSeq, wanted: Seq<char>) -> HeaderSeq {
    headers.filter(|h: (Seq<char>, Seq<char>)| same_ignoring_ascii_case(h.0, wanted))
}

/// The headers of the list that are not named `wanted`, in order.
pub open spec fn without(headers: HeaderSeq, wanted: Seq<char>) -> HeaderSeq {
    headers.filter(|h: (Seq<char>, Seq<char>)| !same_ignoring_ascii_case(h.0, wanted))
}

/// The body of a made-up reply that carries one message: a JSON object with
/// the member `message`.
pub open spec fn message_document(quoted_message: Seq<char>) -> Seq<char> {
    "{\"message\":"@ + quoted_message + "}"@
}

/// A made-up reply whose body is plain text.
pub open spec fn plain_reply(status: u16, text: Seq<char>) -> ResponseView {
    ResponseView { status, headers: Seq::empty(), body: encode_utf8(text) }
}

/// A made-up reply whose body is a JSON document, given as text.
pub open spec fn json_reply(status: u16, document: Seq<char>) -> ResponseView {
    ResponseView {
        status,
        headers: seq![("Content-Type"@, "application/json"@)],
        body: encode_utf8(document),
    }
}

/// Whether a header of the list is named `wanted`.
pub fn contains_header(headers: &Vec<(String, String)>, wanted: &str) -> (found: bool)
    ensures
        found == has_header(pairs_view(headers@), wanted@),
{
    let mut i: usize = 0;
    while i < headers.len()
        invariant
            i <= headers.len(),
            forall|j: int|
                0 <= j < i ==> !same_ignoring_ascii_case(
                    #[trigger] pairs_view(headers@)[j].0,
                    wanted@,
                ),
        decreases headers.len() - i,
    {
        if eq_ignore_ascii_case(headers[i].0.as_str(), wanted) {
            proof {
                assert(pairs_view(headers@)[i as int].0 == headers@[i as int].0@);
            }
            return true;
        }
        i = i + 1;
    }
    false
}

/// The headers of the list that are named `wanted` (`matching`), or those that
/// are not.
pub fn select_headers(headers: &Vec<(String, String)>, wanted: &str, matching: bool) -> (chosen:
    Vec<(String, String)>)
    ensures
        matching ==> pairs_view(chosen@) == only(pairs_view(headers@), wanted@),
        !matching ==> pairs_view(chosen@) == without(pairs_view(headers@), wanted@),
{
    let ghost all = pairs_view(headers@);
    let ghost keep = |h: (Seq<char>, Seq<char>)|
        same_ignoring_ascii_case(h.0, wanted@) == matching;
    let mut chosen: Vec<(String, String)> = Vec::new();
    let mut i: usize = 0;
    proof {
        assert(all.take(0) =~= Seq::<(Seq<char>, Seq<char>)>::empty());
        assert(pairs_view(chosen@) =~= all.take(0).filter(keep));
    }
    while i < headers.len()
        invariant
            i <= headers.len(),
            all == pairs_view(headers@),
            keep == |h: (Seq<char>, Seq<char>)| same_ignoring_ascii_case(h.0, wanted@) == matching,
            pairs_view(chosen@) == all.take(i as int).filter(keep),
        decreases headers.len() - i,
    {
        let ghost before = pairs_view(chosen@);
        proof {
            assert(all.take(i + 1).drop_last() =~= all.take(i as int));
            assert(all.take(i + 1).last() == (headers@[i as int].0@, headers@[i as int].1@));
            reveal(Seq::filter);
        }
        if eq_ignore_ascii_case(headers[i].0.as_str(), wanted) == matching {
            chosen.push((headers[i].0.clone(), headers[i].1.clone()));
            proof {
                assert(pairs_view(chosen@) =~= before.push(all.take(i + 1).last()));
            }
        }
        i = i + 1;
    }
    proof {
        assert(all.take(headers.len() as int) =~= all);
        if matching {
            assert(keep =~= (|h: (Seq<char>, Seq<char>)| same_ignoring_ascii_case(h.0, wanted@)));
        } else {
            assert(keep =~= (|h: (Seq<char>, Seq<char>)| !same_ignoring_ascii_case(h.0, wanted@)));
        }
    }
    chosen
}

/// A reply with a plain text for its body and no header.
pub fn plain_response(status: u16, text: &str) -> (response: Response)
    ensures
        response@ == plain_reply(status, text@),
{
    let response = Response { status, headers: Vec::new(), body: text.as_bytes_vec() };
    proof {
        assert(pairs_view(response.headers@) =~= Seq::<(Seq<char>, Seq<char>)>::empty());
    }
    response
}

/// The JSON document that carries one message, from the message's quoted
/// form.
pub fn message_document_from(quoted_message: &str) -> (document: String)
    ensures
        document@ == message_document(quoted_message@),
{
    let mut document = "{\"message\":".to_owned();
    document.append(quoted_message);
    document.append("}");
    document
}

/// A reply that carries one message in a JSON document.
pub fn message_response(status: u16, message: &str) -> (response: Response)
    ensures
        response@ == json_reply(status, message_document(json_quoted(message@))),
{
    let document = message_document_from(quote(message).as_str());
    let mut headers: Vec<(String, String)> = Vec::new();
    headers.push(("Content-Type".to_owned(), "application/json".to_owned()));
    let response = Response { status, headers, body: document.as_str().as_bytes_vec() };
    proof {
        assert(pairs_view(response.headers@) =~= seq![("Content-Type"@, "application/json"@)]);
    }
    response
}

} // verus!
