//! The request router: what the gateway does with one inbound request.
//!
//! A request is answered in steps. `handle` takes the request and says what to
//! do first: relay it to the backend, consult the decision service, or answer
//! at once. `handle_decision` takes what the decision service said and says
//! what to do then. The reply to a relayed request is made by
//! `proxy_response`. The caller performs the calls in between.

use crate::json::{
    body_json, empty_object, forgive, json_quoted, json_reencoded, lenient_json, outcome_view,
    read_body,
};
use crate::ping::{is_fresh, lookup, EndpointInfo, EndpointManager};
use crate::server::envelope::{
    entries_of, envelope, envelope_document, mapping, object_text, quoted_pairs, request_envelope,
};
use crate::server::proxy::{backend_call, proxy_request, BAD_GATEWAY, INTERNAL_ERROR};
use crate::server::{
    contains_header, has_header, json_reply, message_document, message_response, option_view,
    pairs_view, select_headers, wait_of, without, Answer, AnswerView, Call, CallView, Fetched,
    FetchedView, HeaderSeq, Response,
};
use crate::text::{decimal, decimal_string, join, strip_all, trim_start_matches};
use vstd::prelude::*;
use vstd::string::*;
use vstd::utf8::encode_utf8;

verus! {

/// An inbound request, as the listener read it.
#[derive(Debug, PartialEq, Eq)]
pub struct Inbound {
    pub method: String,
    /// The request's target as it was written.
    pub uri: String,
    /// The target's path and query; empty if it has none.
    pub path_and_query: String,
    pub headers: Vec<(String, String)>,
    pub body: Vec<u8>,
}

/// An inbound request by its texts.
pub struct InboundView {
    pub method: Seq<char>,
    pub uri: Seq<char>,
    pub path_and_query: Seq<char>,
    pub headers: HeaderSeq,
    pub body: Seq<u8>,
}

impl View for Inbound {
    type V = InboundView;

    open spec fn view(&self) -> InboundView {
        InboundView {
            method: self.method@,
            uri: self.uri@,
            path_and_query: self.path_and_query@,
            headers: pairs_view(self.headers@),
            body: self.body@,
        }
    }
}

/// What is kept of a request while the decision service is consulted.
#[derive(Debug, PartialEq, Eq)]
pub struct Exchange {
    pub method: String,
    pub uri: String,
    /// The cache key: path and query without leading slashes.
    pub path: String,
    /// The request's headers but `Host`.
    pub headers: Vec<(String, String)>,
    /// The JSON text of the request's body.
    pub json: String,
}

/// An exchange by its texts.
pub struct ExchangeView {
    pub method: Seq<char>,
    pub uri: Seq<char>,
    pub path: Seq<char>,
    pub headers: HeaderSeq,
    pub json: Seq<char>,
}

impl View for Exchange {
    type V = ExchangeView;

    open spec fn view(&self) -> ExchangeView {
        ExchangeView {
            method: self.method@,
            uri: self.uri@,
            path: self.path@,
            headers: pairs_view(self.headers@),
            json: self.json@,
        }
    }
}

/// What the gateway does next.
#[derive(Debug, PartialEq, Eq)]
pub enum Action {
    /// Relay the request to the backend, and hold the backend's response
    /// back for the delay.
    Proxy { call: Call, delay: Option<u64> },
    /// Send the envelope to the decision service.
    Consult { call: Call, exchange: Exchange },
    /// Answer the caller.
    Respond(Answer),
}

/// An action by its texts.
pub enum ActionView {
    Proxy { call: CallView, delay: Option<u64> },
    Consult { call: CallView, exchange: ExchangeView },
    Respond(AnswerView),
}

impl View for Action {
    type V = ActionView;

    open spec fn view(&self) -> ActionView {
        match self {
            Action::Proxy { call, delay } => ActionView::Proxy { call: call@, delay: *delay },
            Action::Consult { call, exchange } => ActionView::Consult {
                call: call@,
                exchange: exchange@,
            },
            Action::Respond(answer) => ActionView::Respond(answer@),
        }
    }
}

/// The key under which the routing cache holds a request: its path and query
/// without the leading slashes.
pub open spec fn normal_path(path_and_query: Seq<char>) -> Seq<char> {
    strip_all(path_and_query, "/"@)
}

/// The delay of a cached directive, if there is one.
pub open spec fn delay_of(cached: Option<(u64, bool)>) -> Option<u64> {
    match cached {
        Some((delay, _)) => Some(delay),
        None => None,
    }
}

/// Whether a request skips the decision service: the cache holds a fresh
/// directive for its path that says to proxy, and there is a backend.
pub open spec fn goes_direct(cached: Option<(u64, bool)>, has_target: bool) -> bool {
    cached matches Some((_, proxied)) && proxied && has_target
}

/// A reply made up by the gateway: a status and one message, given at once.
pub open spec fn refusal(status: u16, message: Seq<char>) -> ActionView {
    ActionView::Respond(
        AnswerView {
            response: json_reply(status, message_document(json_quoted(message))),
            delay: 0,
        },
    )
}

/// The call that puts a request before the decision service: the envelope,
/// posted to `remote_base` with the project's id, the backend's URL if there
/// is a backend, and the request's own headers.
pub open spec fn decision_call(
    remote_base: Seq<char>,
    project_id: Seq<char>,
    proxy_enabled: bool,
    target_server: Option<Seq<char>>,
    exchange: ExchangeView,
) -> CallView {
    let document = envelope(exchange.method, exchange.headers, exchange.json, exchange.path);
    let fixed = seq![
        ("apimimic-project-id"@, project_id),
        ("Content-Type"@, "application/json"@),
        ("Content-Length"@, decimal(encode_utf8(document).len())),
    ];
    let named = if proxy_enabled && target_server is Some {
        fixed.push(("apimimic-cli-proxy"@, target_server->0))
    } else {
        fixed
    };
    CallView { method: "POST"@, url: remote_base, headers: named + exchange.headers, body: document }
}

/// What the gateway does first with a request, for what the routing cache
/// holds of its path (`cached`) and for what its body is as JSON (`strict`).
///
/// Where the cache says that the path goes to the backend, and there is a
/// backend, the request is relayed at once, whatever its body. Else a body
/// that is no JSON is refused, and any other request is put before the
/// decision service.
pub open spec fn routed(
    request: InboundView,
    remote_base: Seq<char>,
    project_id: Seq<char>,
    proxy_enabled: bool,
    target_server: Option<Seq<char>>,
    cached: Option<(u64, bool)>,
    strict: Result<Seq<char>, Seq<char>>,
) -> ActionView {
    let headers = without(request.headers, "host"@);
    if goes_direct(cached, target_server is Some) {
        ActionView::Proxy {
            call: backend_call(
                request.method,
                request.uri,
                target_server->0,
                headers,
                lenient_json(strict),
            ),
            delay: delay_of(cached),
        }
    } else {
        match strict {
            Err(why) => refusal(INTERNAL_ERROR, "Apimimic: Invalid JSON: "@ + why),
            Ok(json) => {
                let exchange = ExchangeView {
                    method: request.method,
                    uri: request.uri,
                    path: normal_path(request.path_and_query),
                    headers,
                    json,
                };
                ActionView::Consult {
                    call: decision_call(
                        remote_base,
                        project_id,
                        proxy_enabled,
                        target_server,
                        exchange,
                    ),
                    exchange,
                }
            },
        }
    }
}

/// What the gateway does once the call to the decision service has ended, for
/// what the routing cache holds of the request's path by then.
///
/// A decision service that cannot be reached, or whose body cannot be read,
/// gives a made-up reply. An answer that carries the header
/// `apimimic-proxy-request` sends the request to the backend, if there is one.
/// Any other answer goes to the caller as it is. The cached delay, if any,
/// holds the response back either way.
pub open spec fn decided(
    exchange: ExchangeView,
    proxy_enabled: bool,
    target_server: Option<Seq<char>>,
    fetched: FetchedView,
    cached: Option<(u64, bool)>,
) -> ActionView {
    match fetched {
        FetchedView::Unreachable(why) => refusal(
            BAD_GATEWAY,
            "Apimimic: Failed to contact remote server: "@ + why,
        ),
        FetchedView::Unreadable(_) => refusal(
            INTERNAL_ERROR,
            "Apimimic: Failed to read remote response body"@,
        ),
        FetchedView::Answered(response) => {
            if proxy_enabled && target_server is Some && has_header(
                response.headers,
                "apimimic-proxy-request"@,
            ) {
                ActionView::Proxy {
                    call: backend_call(
                        exchange.method,
                        exchange.uri,
                        target_server->0,
                        exchange.headers,
                        exchange.json,
                    ),
                    delay: delay_of(cached),
                }
            } else {
                ActionView::Respond(AnswerView { response, delay: wait_of(delay_of(cached)) })
            }
        },
    }
}

/// A request to a path with a fresh directive to proxy never reaches the
/// decision service where there is a backend: it is relayed to the backend at
/// once, with the directive's delay, whatever else the request holds.
pub proof fn lemma_fresh_proxy_skips_decision(
    request: InboundView,
    remote_base: Seq<char>,
    project_id: Seq<char>,
    proxy_enabled: bool,
    target_server: Option<Seq<char>>,
    cache: Map<Seq<char>, EndpointInfo>,
    now: u64,
    strict: Result<Seq<char>, Seq<char>>,
)
    requires
        cache.contains_key(normal_path(request.path_and_query)),
        is_fresh(cache[normal_path(request.path_and_query)], now),
        cache[normal_path(request.path_and_query)].proxied,
        target_server is Some,
    ensures
        routed(
            request,
            remote_base,
            project_id,
            proxy_enabled,
            target_server,
            lookup(cache, normal_path(request.path_and_query), now),
            strict,
        ) == (ActionView::Proxy {
            call: backend_call(
                request.method,
                request.uri,
                target_server->0,
                without(request.headers, "host"@),
                lenient_json(strict),
            ),
            delay: Some(cache[normal_path(request.path_and_query)].timeout),
        }),
{
}

/// A request to a path whose directive is older than the fresh span is
/// treated as one to a path without a directive, at both steps.
pub proof fn lemma_stale_routes_as_absent(
    request: InboundView,
    remote_base: Seq<char>,
    project_id: Seq<char>,
    proxy_enabled: bool,
    target_server: Option<Seq<char>>,
    cache: Map<Seq<char>, EndpointInfo>,
    now: u64,
    strict: Result<Seq<char>, Seq<char>>,
    exchange: ExchangeView,
    fetched: FetchedView,
)
    requires
        cache.contains_key(normal_path(request.path_and_query)),
        !is_fresh(cache[normal_path(request.path_and_query)], now),
        exchange.path == normal_path(request.path_and_query),
    ensures
        routed(
            request,
            remote_base,
            project_id,
            proxy_enabled,
            target_server,
            lookup(cache, normal_path(request.path_and_query), now),
            strict,
        ) == routed(
            request,
            remote_base,
            project_id,
            proxy_enabled,
            target_server,
            lookup(
                cache.remove(normal_path(request.path_and_query)),
                normal_path(request.path_and_query),
                now,
            ),
            strict,
        ),
        decided(
            exchange,
            proxy_enabled,
            target_server,
            fetched,
            lookup(cache, exchange.path, now),
        ) == decided(
            exchange,
            proxy_enabled,
            target_server,
            fetched,
            lookup(cache.remove(exchange.path), exchange.path, now),
        ),
        !(routed(
            request,
            remote_base,
            project_id,
            proxy_enabled,
            target_server,
            lookup(cache, normal_path(request.path_and_query), now),
            strict,
        ) is Proxy),
{
}

/// A request with an empty body is never refused for its body, and the body
/// that stands for it is the empty JSON object: in the envelope, where the
/// decision service is consulted, and in the call to the backend, where it is
/// not.
pub proof fn lemma_empty_body_is_empty_object(
    request: InboundView,
    remote_base: Seq<char>,
    project_id: Seq<char>,
    proxy_enabled: bool,
    target_server: Option<Seq<char>>,
    cached: Option<(u64, bool)>,
)
    requires
        request.body.len() == 0,
    ensures
        match routed(
            request,
            remote_base,
            project_id,
            proxy_enabled,
            target_server,
            cached,
            body_json(request.body, json_reencoded(request.body)),
        ) {
            ActionView::Consult { call, exchange } => exchange.json == empty_object() && call.body
                == envelope_document(
                json_quoted(request.method),
                object_text(quoted_pairs(entries_of(mapping(without(request.headers, "host"@))))),
                empty_object(),
                json_quoted(normal_path(request.path_and_query)),
            ),
            ActionView::Proxy { call, delay } => call.body == empty_object(),
            ActionView::Respond(_) => false,
        },
{
}

/// A reply made up by the gateway.
pub fn refuse(status: u16, message: &str) -> (action: Action)
    ensures
        action@ == refusal(status, message@),
{
    Action::Respond(Answer { response: message_response(status, message), delay: 0 })
}

/// The reply to a request whose body could not be read off the connection.
pub fn body_unreadable(why: &str) -> (response: Response)
    ensures
        response@ == crate::server::plain_reply(
            INTERNAL_ERROR,
            "Apimimic: Failed to collect body: "@ + why@,
        ),
{
    let text = join("Apimimic: Failed to collect body: ", why);
    crate::server::plain_response(INTERNAL_ERROR, text.as_str())
}

/// The call that puts a request before the decision service.
pub fn consult(
    remote_base: String,
    project_id: String,
    proxy_enabled: bool,
    target_server: &Option<String>,
    exchange: &Exchange,
) -> (call: Call)
    ensures
        call@ == decision_call(
            remote_base@,
            project_id@,
            proxy_enabled,
            option_view(*target_server),
            exchange@,
        ),
{
    let document = request_envelope(
        exchange.method.as_str(),
        &exchange.headers,
        exchange.json.as_str(),
        exchange.path.as_str(),
    );
    let length = decimal_string(document.as_str().as_bytes().len() as u64);
    let mut headers: Vec<(String, String)> = Vec::new();
    headers.push(("apimimic-project-id".to_owned(), project_id));
    headers.push(("Content-Type".to_owned(), "application/json".to_owned()));
    headers.push(("Content-Length".to_owned(), length));
    let ghost fixed = seq![
        ("apimimic-project-id"@, project_id@),
        ("Content-Type"@, "application/json"@),
        ("Content-Length"@, decimal(encode_utf8(document@).len())),
    ];
    proof {
        assert(pairs_view(headers@) =~= fixed);
    }
    if proxy_enabled {
        match target_server {
            Some(target) => {
                headers.push(("apimimic-cli-proxy".to_owned(), target.clone()));
                proof {
                    assert(pairs_view(headers@) =~= fixed.push(("apimimic-cli-proxy"@, target@)));
                }
            },
            None => {},
        }
    }
    let ghost named = pairs_view(headers@);
    let mut i: usize = 0;
    while i < exchange.headers.len()
        invariant
            i <= exchange.headers.len(),
            pairs_view(headers@) == named + pairs_view(exchange.headers@).take(i as int),
        decreases exchange.headers.len() - i,
    {
        let ghost before = pairs_view(headers@);
        headers.push((exchange.headers[i].0.clone(), exchange.headers[i].1.clone()));
        proof {
            assert(pairs_view(headers@) =~= before.push(pairs_view(exchange.headers@)[i as int]));
            assert(pairs_view(exchange.headers@).take(i + 1) =~= pairs_view(
                exchange.headers@,
            ).take(i as int).push(pairs_view(exchange.headers@)[i as int]));
        }
        i = i + 1;
    }
    proof {
        assert(pairs_view(exchange.headers@).take(exchange.headers.len() as int) =~= pairs_view(
            exchange.headers@,
        ));
    }
    Call { method: "POST".to_owned(), url: remote_base, headers, body: document }
}

/// What the gateway does first with a request, once the routing cache has
/// been asked for its path and its body has been read as JSON.
pub fn route(
    req: Inbound,
    remote_base: String,
    project_id: String,
    proxy_enabled: bool,
    target_server: Option<String>,
    cached: Option<(u64, bool)>,
    strict: Result<String, String>,
) -> (action: Action)
    ensures
        action@ == routed(
            req@,
            remote_base@,
            project_id@,
            proxy_enabled,
            option_view(target_server),
            cached,
            outcome_view(strict),
        ),
{
    let headers = select_headers(&req.headers, "host", false);
    match (cached, target_server) {
        (Some((delay, true)), Some(server_url)) => {
            let json = forgive(&strict);
            Action::Proxy {
                call: proxy_request(req.method, req.uri, server_url, &headers, json),
                delay: Some(delay),
            }
        },
        (_, target_server) => match strict {
            Err(why) => {
                let message = join("Apimimic: Invalid JSON: ", why.as_str());
                refuse(INTERNAL_ERROR, message.as_str())
            },
            Ok(json) => {
                let path = trim_start_matches(req.path_and_query.as_str(), "/");
                let exchange = Exchange { method: req.method, uri: req.uri, path, headers, json };
                let call = consult(remote_base, project_id, proxy_enabled, &target_server, &exchange);
                Action::Consult { call, exchange }
            },
        },
    }
}

/// What the gateway does first with a request that arrives at `now`.
///
/// The routing cache is asked for the request's path. A fresh directive to
/// proxy sends the request straight to the backend, if there is one, with the
/// directive's delay. Any other request is put before the decision service,
/// unless its body is not empty and is no JSON: that one is refused.
pub fn handle(
    req: Inbound,
    remote_base: String,
    project_id: String,
    proxy_enabled: bool,
    target_server: Option<String>,
    endpoint_manager: &EndpointManager,
    now: u64,
) -> (action: Action)
    ensures
        action@ == routed(
            req@,
            remote_base@,
            project_id@,
            proxy_enabled,
            option_view(target_server),
            lookup(endpoint_manager@, normal_path(req.path_and_query@), now),
            body_json(req.body@, json_reencoded(req.body@)),
        ),
{
    let path = trim_start_matches(req.path_and_query.as_str(), "/");
    let cached = endpoint_manager.get_endpoint_info(path.as_str(), now);
    let strict = read_body(req.body.as_slice());
    route(req, remote_base, project_id, proxy_enabled, target_server, cached, strict)
}

/// What the gateway does once the call to the decision service has ended, at
/// `now`. The routing cache is asked again for the request's path: a
/// heartbeat may have changed it since the request arrived.
pub fn handle_decision(
    exchange: Exchange,
    proxy_enabled: bool,
    target_server: Option<String>,
    fetched: Fetched,
    endpoint_manager: &EndpointManager,
    now: u64,
) -> (action: Action)
    ensures
        action@ == decided(
            exchange@,
            proxy_enabled,
            option_view(target_server),
            fetched@,
            lookup(endpoint_manager@, exchange.path@, now),
        ),
{
    match fetched {
        Fetched::Unreachable(why) => {
            let message = join("Apimimic: Failed to contact remote server: ", why.as_str());
            refuse(BAD_GATEWAY, message.as_str())
        },
        Fetched::Unreadable(_) => refuse(
            INTERNAL_ERROR,
            "Apimimic: Failed to read remote response body",
        ),
        Fetched::Answered(response) => {
            let cached = endpoint_manager.get_endpoint_info(exchange.path.as_str(), now);
            let delay = match cached {
                Some((millis, _)) => Some(millis),
                None => None,
            };
            let triggered = proxy_enabled && contains_header(
                &response.headers,
                "apimimic-proxy-request",
            );
            match target_server {
                Some(server_url) if triggered => Action::Proxy {
                    call: proxy_request(
                        exchange.method,
                        exchange.uri,
                        server_url,
                        &exchange.headers,
                        exchange.json,
                    ),
                    delay,
                },
                _ => {
                    let wait = match delay {
                        Some(millis) => millis,
                        None => 0,
                    };
                    Action::Respond(Answer { response, delay: wait })
                },
            }
        },
    }
}

} // verus!
