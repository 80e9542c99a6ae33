//! The backend forwarder: the call that relays a request to the backend, and
//! the reply made of what the backend answers.

use crate::server::{
    only, pairs_view, plain_reply, plain_response, select_headers, wait_of, without, Answer,
    AnswerView, Call, CallView, Fetched, FetchedView, HeaderSeq, Response, ResponseView,
};
use crate::text::{decimal, decimal_string, join, strip_trailing, trim_end_char};
use vstd::prelude::*;
use vstd::string::*;

verus! {

/// The status of the reply made up when the backend cannot be reached.
pub const BAD_GATEWAY: u16 = 502;

/// The status of the reply made up when the backend's body cannot be read.
pub const INTERNAL_ERROR: u16 = 500;

/// What the `url` crate finds in a URL: nothing if it does not parse; else
/// the host, if the URL has one, and the port, if it is written and is not the
/// default of the scheme.
pub uninterp spec fn url_authority(url: Seq<char>) -> Option<(Option<Seq<char>>, Option<u16>)>;

/// The view of a host and port read from a URL.
pub open spec fn authority_view(authority: Option<(Option<String>, Option<u16>)>) -> Option<
    (Option<Seq<char>>, Option<u16>),
> {
    match authority {
        Some((Some(host), port)) => Some((Some(host@), port)),
        Some((None, port)) => Some((None, port)),
        None => None,
    }
}

/// The value of the `Host` header for a URL's host and port: the host, then a
/// colon and the port in decimal if there is a port. None without a host.
pub open spec fn host_value(authority: Option<(Option<Seq<char>>, Option<u16>)>) -> Option<
    Seq<char>,
> {
    match authority {
        Some((Some(host), Some(port))) => Some(host + seq![':'] + decimal(port as nat)),
        Some((Some(host), None)) => Some(host),
        _ => None,
    }
}

/// The URL that a request is relayed to: the backend's base, without its
/// trailing slashes, then the request's own target.
pub open spec fn target_url(server_url: Seq<char>, uri: Seq<char>) -> Seq<char> {
    strip_trailing(server_url, '/') + uri
}

/// The headers of the relayed request: those of the caller but `Host`, then
/// the backend's own `Host` if there is one.
pub open spec fn backend_headers(headers: HeaderSeq, host: Option<Seq<char>>) -> HeaderSeq {
    match host {
        Some(value) => without(headers, "host"@).push(("Host"@, value)),
        None => without(headers, "host"@),
    }
}

/// The call that relays a request to `url`, for what the URL's host and port
/// are.
pub open spec fn backend_call_to(
    method: Seq<char>,
    url: Seq<char>,
    headers: HeaderSeq,
    body: Seq<char>,
    authority: Option<(Option<Seq<char>>, Option<u16>)>,
) -> CallView {
    CallView { method, url, headers: backend_headers(headers, host_value(authority)), body }
}

/// The call that relays a request to the backend at `server_url`.
pub open spec fn backend_call(
    method: Seq<char>,
    uri: Seq<char>,
    server_url: Seq<char>,
    headers: HeaderSeq,
    body: Seq<char>,
) -> CallView {
    backend_call_to(
        method,
        target_url(server_url, uri),
        headers,
        body,
        url_authority(target_url(server_url, uri)),
    )
}

/// The headers relayed from a backend's response: all of them, each
/// `Set-Cookie` as an occurrence of its own, the cookies after the others.
pub open spec fn relayed_headers(headers: HeaderSeq) -> HeaderSeq {
    without(headers, "set-cookie"@) + only(headers, "set-cookie"@)
}

/// What the caller gets once the call to the backend has ended, and after how
/// long: the backend's response with its status and body untouched, after the
/// delay; or a made-up reply at once.
pub open spec fn backend_answer(fetched: FetchedView, delay: Option<u64>) -> AnswerView {
    match fetched {
        FetchedView::Unreachable(why) => AnswerView {
            response: plain_reply(BAD_GATEWAY, "Failed to contact target server: "@ + why),
            delay: 0,
        },
        FetchedView::Unreadable(_) => AnswerView {
            response: plain_reply(INTERNAL_ERROR, "Failed to read proxy response body"@),
            delay: 0,
        },
        FetchedView::Answered(response) => AnswerView {
            response: ResponseView {
                status: response.status,
                headers: relayed_headers(response.headers),
                body: response.body,
            },
            delay: wait_of(delay),
        },
    }
}

/// A list that is filtered by what all of it meets stays as it is.
proof fn lemma_filter_all<A>(s: Seq<A>, pred: spec_fn(A) -> bool)
    requires
        forall|i: int| 0 <= i < s.len() ==> pred(#[trigger] s[i]),
    ensures
        s.filter(pred) == s,
    decreases s.len(),
{
    reveal(Seq::filter);
    if s.len() > 0 {
        lemma_filter_all(s.drop_last(), pred);
        assert(s.drop_last().push(s.last()) =~= s);
    }
}

/// Every `Set-Cookie` header of a backend's response is relayed, each as an
/// occurrence of its own and in the order in which they came; and the relayed
/// headers are those of the response, none lost and none added.
pub proof fn lemma_cookies_are_relayed(headers: HeaderSeq)
    ensures
        only(relayed_headers(headers), "set-cookie"@) == only(headers, "set-cookie"@),
        without(relayed_headers(headers), "set-cookie"@) == without(headers, "set-cookie"@),
        relayed_headers(headers).to_multiset() == headers.to_multiset(),
{
    let cookie = |h: (Seq<char>, Seq<char>)|
        crate::text::same_ignoring_ascii_case(h.0, "set-cookie"@);
    let other = |h: (Seq<char>, Seq<char>)|
        !crate::text::same_ignoring_ascii_case(h.0, "set-cookie"@);
    let cookies = headers.filter(cookie);
    let others = headers.filter(other);
    assert forall|i: int| 0 <= i < cookies.len() implies cookie(#[trigger] cookies[i]) by {
        headers.lemma_filter_pred(cookie, i);
    }
    assert forall|i: int| 0 <= i < others.len() implies other(#[trigger] others[i]) by {
        headers.lemma_filter_pred(other, i);
    }
    lemma_filter_all(cookies, cookie);
    lemma_filter_all(others, other);
    assert forall|i: int| 0 <= i < cookies.len() implies !other(#[trigger] cookies[i]) by {}
    assert forall|i: int| 0 <= i < others.len() implies !cookie(#[trigger] others[i]) by {}
    cookies.lemma_all_neg_filter_empty(other);
    others.lemma_all_neg_filter_empty(cookie);
    Seq::filter_distributes_over_add(others, cookies, cookie);
    Seq::filter_distributes_over_add(others, cookies, other);
    assert((others + cookies).filter(cookie) =~= cookies);
    assert((others + cookies).filter(other) =~= others);
    lemma_split_keeps_all(headers, cookie, other);
}

/// A list split in two by a test holds, in its two parts together, what it
/// held before.
proof fn lemma_split_keeps_all<A>(s: Seq<A>, yes: spec_fn(A) -> bool, no: spec_fn(A) -> bool)
    requires
        forall|a: A| #[trigger] no(a) == !yes(a),
    ensures
        (s.filter(no) + s.filter(yes)).to_multiset() == s.to_multiset(),
    decreases s.len(),
{
    reveal(Seq::filter);
    broadcast use vstd::seq_lib::group_to_multiset_ensures;

    if s.len() == 0 {
        assert(s.filter(no) + s.filter(yes) =~= s);
    } else {
        let rest = s.drop_last();
        let x = s.last();
        lemma_split_keeps_all(rest, yes, no);
        assert(rest.push(x) =~= s);
        vstd::seq_lib::lemma_multiset_commutative(rest.filter(no), rest.filter(yes));
        vstd::seq_lib::lemma_multiset_commutative(s.filter(no), s.filter(yes));
        assert(s.to_multiset() =~= rest.to_multiset().insert(x));
        if yes(x) {
            assert(s.filter(yes).to_multiset() =~= rest.filter(yes).to_multiset().insert(x));
        } else {
            assert(s.filter(no).to_multiset() =~= rest.filter(no).to_multiset().insert(x));
        }
        assert((s.filter(no) + s.filter(yes)).to_multiset() =~= s.to_multiset());
    }
}

/// Parses the text with `url::Url::parse` and reads the result's `host_str`
/// and `port`. Trusted: that what is found depends on the text alone, and is
/// therefore the named one.
#[verifier::external_body]
fn parse_authority(url: &str) -> (authority: Option<(Option<String>, Option<u16>)>)
    ensures
        authority_view(authority) == url_authority(url@),
{
    match url::Url::parse(url) {
        Ok(parsed) => Some((parsed.host_str().map(str::to_owned), parsed.port())),
        Err(_) => None,
    }
}

/// The value of the `Host` header for a host and port read from a URL.
pub fn host_header(authority: &Option<(Option<String>, Option<u16>)>) -> (value: Option<String>)
    ensures
        match value {
            Some(text) => host_value(authority_view(*authority)) == Some(text@),
            None => host_value(authority_view(*authority)) is None,
        },
{
    match authority {
        Some((Some(host), Some(port))) => {
            let mut text = join(host.as_str(), ":");
            let digits = decimal_string(*port as u64);
            text.append(digits.as_str());
            proof {
                reveal_strlit(":");
                assert(":"@ =~= seq![':']);
            }
            Some(text)
        },
        Some((Some(host), None)) => Some(host.clone()),
        _ => None,
    }
}

/// The call that relays a request to `url`, of which the host and port are
/// known.
pub fn proxy_request_to(
    method_str: String,
    url: String,
    headers: &Vec<(String, String)>,
    body: String,
    authority: &Option<(Option<String>, Option<u16>)>,
) -> (call: Call)
    ensures
        call@ == backend_call_to(
            method_str@,
            url@,
            pairs_view(headers@),
            body@,
            authority_view(*authority),
        ),
{
    let mut kept = select_headers(headers, "host", false);
    match host_header(authority) {
        Some(value) => {
            let ghost before = pairs_view(kept@);
            kept.push(("Host".to_owned(), value));
            proof {
                assert(pairs_view(kept@) =~= before.push(("Host"@, value@)));
            }
        },
        None => {},
    }
    Call { method: method_str, url, headers: kept, body }
}

/// The call that relays a request to the backend at `server_url`: the same
/// method and body, the caller's headers but `Host`, and the backend's own
/// `Host`.
pub fn proxy_request(
    method_str: String,
    uri_string: String,
    server_url: String,
    headers: &Vec<(String, String)>,
    body: String,
) -> (call: Call)
    ensures
        call@ == backend_call(method_str@, uri_string@, server_url@, pairs_view(headers@), body@),
{
    let mut full_url = trim_end_char(server_url.as_str(), '/');
    full_url.append(uri_string.as_str());
    let authority = parse_authority(full_url.as_str());
    proxy_request_to(method_str, full_url, headers, body, &authority)
}

/// The headers to relay from a backend's response.
pub fn relay_headers(headers: &Vec<(String, String)>) -> (relayed: Vec<(String, String)>)
    ensures
        pairs_view(relayed@) == relayed_headers(pairs_view(headers@)),
{
    let mut relayed = select_headers(headers, "set-cookie", false);
    let mut cookies = select_headers(headers, "set-cookie", true);
    let ghost others = pairs_view(relayed@);
    let ghost sweets = pairs_view(cookies@);
    relayed.append(&mut cookies);
    proof {
        assert(pairs_view(relayed@) =~= others + sweets);
    }
    relayed
}

/// What the caller gets once the call to the backend has ended, and after how
/// long. `timeout` is the delay that the routing cache asks for.
pub fn proxy_response(fetched: Fetched, timeout: Option<u64>) -> (answer: Answer)
    ensures
        answer@ == backend_answer(fetched@, timeout),
{
    match fetched {
        Fetched::Unreachable(why) => {
            let text = join("Failed to contact target server: ", why.as_str());
            Answer { response: plain_response(BAD_GATEWAY, text.as_str()), delay: 0 }
        },
        Fetched::Unreadable(_) => Answer {
            response: plain_response(INTERNAL_ERROR, "Failed to read proxy response body"),
            delay: 0,
        },
        Fetched::Answered(response) => {
            let headers = relay_headers(&response.headers);
            let delay = match timeout {
                Some(millis) => millis,
                None => 0,
            };
            Answer { response: Response { status: response.status, headers, body: response.body }, delay }
        },
    }
}

} // verus!
