//! The routing cache and the rules by which a heartbeat refreshes it.
//!
//! Time is a count of milliseconds on a monotonic clock that the caller reads.

use crate::json::{json_quoted, quote};
use crate::server::{option_view, pairs_view, Call, CallView};
use vstd::hash_map::StringHashMap;
use vstd::prelude::*;
use vstd::string::*;

verus! {

/// How long a directive stays fresh after it was written, in milliseconds.
pub const FRESH_MILLIS: u64 = 20_000;

/// What a heartbeat says of one path.
#[derive(Clone, Copy, Debug, PartialEq, Eq)]
pub struct EndpointConfig {
    /// Artificial latency, in milliseconds.
    pub time: u64,
    /// Whether requests to the path go to the backend.
    pub proxied: bool,
}

/// The cached directive of one path.
#[derive(Clone, Copy, Debug, PartialEq, Eq)]
pub struct EndpointInfo {
    /// Artificial latency, in milliseconds.
    pub timeout: u64,
    /// Whether requests to the path go to the backend.
    pub proxied: bool,
    /// When the directive was written.
    pub timestamp: u64,
}

/// The time that has passed at `now` since `stamp`; zero if the clock reads
/// earlier than the stamp.
pub open spec fn age(now: u64, stamp: u64) -> int {
    if now >= stamp {
        now - stamp
    } else {
        0
    }
}

/// A directive is fresh for `FRESH_MILLIS` after it was written, inclusive.
pub open spec fn is_fresh(info: EndpointInfo, now: u64) -> bool {
    age(now, info.timestamp) <= FRESH_MILLIS
}

/// What a reader sees of `path` at `now`: the delay and the proxy flag of its
/// directive if there is one and it is fresh, nothing otherwise.
pub open spec fn lookup(cache: Map<Seq<char>, EndpointInfo>, path: Seq<char>, now: u64) -> Option<
    (u64, bool),
> {
    if cache.contains_key(path) && is_fresh(cache[path], now) {
        Some((cache[path].timeout, cache[path].proxied))
    } else {
        None
    }
}

/// The directive that a heartbeat received at `now` installs for one entry.
pub open spec fn stamped(config: EndpointConfig, now: u64) -> EndpointInfo {
    EndpointInfo { timeout: config.time, proxied: config.proxied, timestamp: now }
}

/// The cache that a heartbeat's entries make: each path with its directive,
/// stamped `now`; where a path occurs twice, the later entry stands.
pub open spec fn snapshot(entries: Seq<(String, EndpointConfig)>, now: u64) -> Map<
    Seq<char>,
    EndpointInfo,
>
    decreases entries.len(),
{
    if entries.len() == 0 {
        Map::empty()
    } else {
        snapshot(entries.drop_last(), now).insert(
            entries.last().0@,
            stamped(entries.last().1, now),
        )
    }
}

/// How often the heartbeat is sent, in seconds.
pub const PING_PERIOD_SECS: u64 = 10;

/// What a heartbeat tells the heartbeat service: the gateway's version and
/// the settings that it runs with.
#[derive(Debug, PartialEq, Eq)]
pub struct PingRequest {
    pub version: String,
    pub listen: String,
    pub project: String,
    pub server: Option<String>,
    pub remote: String,
    pub remote_ping: String,
}

/// A heartbeat's request by its texts.
pub struct PingRequestView {
    pub version: Seq<char>,
    pub listen: Seq<char>,
    pub project: Seq<char>,
    pub server: Option<Seq<char>>,
    pub remote: Seq<char>,
    pub remote_ping: Seq<char>,
}

impl View for PingRequest {
    type V = PingRequestView;

    open spec fn view(&self) -> PingRequestView {
        PingRequestView {
            version: self.version@,
            listen: self.listen@,
            project: self.project@,
            server: option_view(self.server),
            remote: self.remote@,
            remote_ping: self.remote_ping@,
        }
    }
}

/// The JSON text of a string that may be missing: its literal, or `null`.
pub open spec fn quoted_or_null(text: Option<Seq<char>>) -> Seq<char> {
    match text {
        Some(s) => json_quoted(s),
        None => "null"@,
    }
}

/// The heartbeat's document, from the JSON texts of its six members.
pub open spec fn ping_document_of(
    version: Seq<char>,
    listen: Seq<char>,
    project: Seq<char>,
    server: Seq<char>,
    remote: Seq<char>,
    remote_ping: Seq<char>,
) -> Seq<char> {
    "{\"version\":"@ + version + ",\"listen\":"@ + listen + ",\"project\":"@ + project
        + ",\"server\":"@ + server + ",\"remote\":"@ + remote + ",\"remote_ping\":"@ + remote_ping
        + "}"@
}

/// The heartbeat's document: a JSON object with the members `version`,
/// `listen`, `project`, `server`, `remote` and `remote_ping`, in this order;
/// `server` is `null` where there is no backend.
pub open spec fn ping_document(request: PingRequestView) -> Seq<char> {
    ping_document_of(
        json_quoted(request.version),
        json_quoted(request.listen),
        json_quoted(request.project),
        quoted_or_null(request.server),
        json_quoted(request.remote),
        json_quoted(request.remote_ping),
    )
}

/// The call that sends a heartbeat: its document, posted as JSON to the
/// heartbeat service.
pub open spec fn ping_call(request: PingRequestView) -> CallView {
    CallView {
        method: "POST"@,
        url: request.remote_ping,
        headers: seq![("Content-Type"@, "application/json"@)],
        body: ping_document(request),
    }
}

/// What the heartbeat service answers: a message for the log, and the
/// directive of each path.
#[derive(Debug, PartialEq, Eq)]
pub struct PingResponse {
    pub message: String,
    pub endpoints: Vec<(String, EndpointConfig)>,
}

/// How one heartbeat ended.
#[derive(Debug, PartialEq, Eq)]
pub enum PingOutcome {
    /// The request could not be sent; the text says why.
    Unreachable(String),
    /// The service answered with this status. `body` is what its body reads
    /// as, or nothing if the body is no heartbeat response.
    Answered { status: u16, body: Option<PingResponse> },
}

/// Whether a status is one of success: 200 to 299.
pub open spec fn is_success(status: u16) -> bool {
    200 <= status <= 299
}

/// Whether a heartbeat refreshes the cache: it was answered with a status of
/// success and its body reads as a heartbeat response.
pub open spec fn refreshes(outcome: PingOutcome) -> bool {
    outcome matches PingOutcome::Answered { status, body: Some(_) } && is_success(status)
}

/// The cache after a heartbeat that ended at `now`: the snapshot that the
/// answer holds if the heartbeat refreshes, else the cache as it was.
pub open spec fn after_ping(
    cache: Map<Seq<char>, EndpointInfo>,
    outcome: PingOutcome,
    now: u64,
) -> Map<Seq<char>, EndpointInfo> {
    match outcome {
        PingOutcome::Answered { status, body: Some(response) } => if is_success(status) {
            snapshot(response.endpoints@, now)
        } else {
            cache
        },
        _ => cache,
    }
}

/// Whether a heartbeat's entries hold one for `path`.
pub open spec fn lists(entries: Seq<(String, EndpointConfig)>, path: Seq<char>) -> bool {
    exists|i: int| 0 <= i < entries.len() && (#[trigger] entries[i]).0@ == path
}

/// A snapshot holds exactly the paths of its entries, each stamped with the
/// time of the snapshot.
pub proof fn lemma_snapshot_paths(entries: Seq<(String, EndpointConfig)>, now: u64)
    ensures
        forall|path: Seq<char>| snapshot(entries, now).contains_key(path) <==> lists(entries, path),
        forall|path: Seq<char>| #[trigger]
            snapshot(entries, now).contains_key(path) ==> snapshot(entries, now)[path].timestamp
                == now,
    decreases entries.len(),
{
    if entries.len() > 0 {
        let rest = entries.drop_last();
        lemma_snapshot_paths(rest, now);
        assert forall|path: Seq<char>| snapshot(entries, now).contains_key(path) implies lists(
            entries,
            path,
        ) by {
            if path == entries.last().0@ {
                assert(entries[entries.len() - 1].0@ == path);
            } else {
                assert(lists(rest, path));
                let i = choose|i: int| 0 <= i < rest.len() && (#[trigger] rest[i]).0@ == path;
                assert(entries[i].0@ == path);
            }
        }
        assert forall|path: Seq<char>| lists(entries, path) implies snapshot(
            entries,
            now,
        ).contains_key(path) by {
            let i = choose|i: int| 0 <= i < entries.len() && (#[trigger] entries[i]).0@ == path;
            if i < entries.len() - 1 {
                assert(rest[i].0@ == path);
                assert(lists(rest, path));
            }
        }
        assert forall|path: Seq<char>| #[trigger]
            snapshot(entries, now).contains_key(path) implies snapshot(
            entries,
            now,
        )[path].timestamp == now by {
            if path != entries.last().0@ {
                assert(snapshot(rest, now).contains_key(path));
            }
        }
    }
}

/// A snapshot gives each path the directive of the path's last entry.
pub proof fn lemma_snapshot_entry(entries: Seq<(String, EndpointConfig)>, now: u64, at: int)
    requires
        0 <= at < entries.len(),
        forall|j: int| at < j < entries.len() ==> (#[trigger] entries[j]).0@ != entries[at].0@,
    ensures
        snapshot(entries, now).contains_key(entries[at].0@),
        snapshot(entries, now)[entries[at].0@] == stamped(entries[at].1, now),
    decreases entries.len(),
{
    if at < entries.len() - 1 {
        let rest = entries.drop_last();
        assert(entries[entries.len() - 1].0@ != entries[at].0@);
        assert(rest[at] == entries[at]);
        assert forall|j: int| at < j < rest.len() implies (#[trigger] rest[j]).0@
            != rest[at].0@ by {
            assert(rest[j] == entries[j]);
        }
        lemma_snapshot_entry(rest, now, at);
    }
}

/// A directive older than the fresh span reads as no directive at all: the
/// reader sees of its path what it would see had the entry never been there.
pub proof fn lemma_stale_is_absent(cache: Map<Seq<char>, EndpointInfo>, path: Seq<char>, now: u64)
    requires
        cache.contains_key(path),
        age(now, cache[path].timestamp) > FRESH_MILLIS,
    ensures
        lookup(cache, path, now) is None,
        lookup(cache, path, now) == lookup(cache.remove(path), path, now),
{
}

/// A heartbeat that fails leaves the cache as it was, every entry of it:
/// whether the service was out of reach, refused, or sent a body that is no
/// heartbeat response.
pub proof fn lemma_failed_ping_keeps_cache(
    cache: Map<Seq<char>, EndpointInfo>,
    outcome: PingOutcome,
    now: u64,
)
    requires
        !refreshes(outcome),
    ensures
        after_ping(cache, outcome, now) == cache,
{
}

/// A heartbeat that succeeds replaces the cache whole: a path that its answer
/// does not hold is found no more, however fresh its entry was.
pub proof fn lemma_refresh_forgets_missing_paths(
    cache: Map<Seq<char>, EndpointInfo>,
    outcome: PingOutcome,
    now: u64,
    path: Seq<char>,
    later: u64,
)
    requires
        refreshes(outcome),
        !lists(outcome->body->0.endpoints@, path),
    ensures
        !after_ping(cache, outcome, now).contains_key(path),
        lookup(after_ping(cache, outcome, now), path, later) is None,
{
    lemma_snapshot_paths(outcome->body->0.endpoints@, now);
}

/// A heartbeat that succeeds at `now` makes each path of its answer found
/// for the fresh span, with the delay and the flag of the path's last entry.
pub proof fn lemma_refreshed_path_is_found(
    cache: Map<Seq<char>, EndpointInfo>,
    outcome: PingOutcome,
    now: u64,
    at: int,
    later: u64,
)
    requires
        refreshes(outcome),
        0 <= at < outcome->body->0.endpoints@.len(),
        forall|j: int|
            at < j < outcome->body->0.endpoints@.len() ==> (
            #[trigger] outcome->body->0.endpoints@[j]).0@ != outcome->body->0.endpoints@[at].0@,
        now <= later <= now + FRESH_MILLIS,
    ensures
        lookup(after_ping(cache, outcome, now), outcome->body->0.endpoints@[at].0@, later) == Some(
            (outcome->body->0.endpoints@[at].1.time, outcome->body->0.endpoints@[at].1.proxied),
        ),
{
    lemma_snapshot_entry(outcome->body->0.endpoints@, now, at);
}

/// The heartbeat's document, from the JSON texts of its six members.
pub fn write_ping_document(
    version: &str,
    listen: &str,
    project: &str,
    server: &str,
    remote: &str,
    remote_ping: &str,
) -> (document: String)
    ensures
        document@ == ping_document_of(version@, listen@, project@, server@, remote@, remote_ping@),
{
    let mut document = "{\"version\":".to_owned();
    document.append(version);
    document.append(",\"listen\":");
    document.append(listen);
    document.append(",\"project\":");
    document.append(project);
    document.append(",\"server\":");
    document.append(server);
    document.append(",\"remote\":");
    document.append(remote);
    document.append(",\"remote_ping\":");
    document.append(remote_ping);
    document.append("}");
    document
}

/// The call that sends a heartbeat.
pub fn ping_request(request: &PingRequest) -> (call: Call)
    ensures
        call@ == ping_call(request@),
{
    let server = match &request.server {
        Some(text) => quote(text.as_str()),
        None => "null".to_owned(),
    };
    let document = write_ping_document(
        quote(request.version.as_str()).as_str(),
        quote(request.listen.as_str()).as_str(),
        quote(request.project.as_str()).as_str(),
        server.as_str(),
        quote(request.remote.as_str()).as_str(),
        quote(request.remote_ping.as_str()).as_str(),
    );
    let mut headers: Vec<(String, String)> = Vec::new();
    headers.push(("Content-Type".to_owned(), "application/json".to_owned()));
    proof {
        assert(pairs_view(headers@) =~= seq![("Content-Type"@, "application/json"@)]);
    }
    Call { method: "POST".to_owned(), url: request.remote_ping.clone(), headers, body: document }
}

/// Whether a status is one of success.
pub fn status_is_success(status: u16) -> (success: bool)
    ensures
        success == is_success(status),
{
    200 <= status && status <= 299
}

/// The routing cache: request paths, without the leading slash, to directives.
pub struct EndpointManager {
    endpoints: StringHashMap<EndpointInfo>,
}

impl View for EndpointManager {
    type V = Map<Seq<char>, EndpointInfo>;

    closed spec fn view(&self) -> Map<Seq<char>, EndpointInfo> {
        self.endpoints@
    }
}

impl EndpointManager {
    /// An empty cache.
    pub fn new() -> (manager: Self)
        ensures
            manager@ == Map::<Seq<char>, EndpointInfo>::empty(),
    {
        EndpointManager { endpoints: StringHashMap::new() }
    }

    /// The delay and proxy flag cached for `path`, if the entry is fresh at `now`.
    pub fn get_endpoint_info(&self, path: &str, now: u64) -> (found: Option<(u64, bool)>)
        ensures
            found == lookup(self@, path@, now),
    {
        match self.endpoints.get(path) {
            Some(info) => {
                let elapsed: u64 = if now >= info.timestamp {
                    now - info.timestamp
                } else {
                    0
                };
                if elapsed <= FRESH_MILLIS {
                    Some((info.timeout, info.proxied))
                } else {
                    None
                }
            },
            None => None,
        }
    }

    /// Takes in the outcome of a heartbeat that ended at `now`, and says
    /// whether it refreshed the cache. One that did replaced every entry; one
    /// that did not left the cache as it was.
    pub fn apply_ping(&mut self, outcome: PingOutcome, now: u64) -> (refreshed: bool)
        ensures
            refreshed == refreshes(outcome),
            final(self)@ == after_ping(old(self)@, outcome, now),
    {
        match outcome {
            PingOutcome::Answered { status, body: Some(response) } => {
                if status_is_success(status) {
                    self.replace(response.endpoints, now);
                    true
                } else {
                    false
                }
            },
            _ => false,
        }
    }

    /// Discards every entry and installs `entries`, each stamped `now`.
    pub fn replace(&mut self, entries: Vec<(String, EndpointConfig)>, now: u64)
        ensures
            final(self)@ == snapshot(entries@, now),
    {
        self.endpoints.clear();
        let mut i: usize = 0;
        while i < entries.len()
            invariant
                i <= entries.len(),
                self.endpoints@ == snapshot(entries@.take(i as int), now),
            decreases entries.len() - i,
        {
            let path = entries[i].0.clone();
            let config = entries[i].1;
            self.endpoints.insert(
                path,
                EndpointInfo { timeout: config.time, proxied: config.proxied, timestamp: now },
            );
            proof {
                assert(entries@.take(i + 1).drop_last() == entries@.take(i as int));
                assert(entries@.take(i + 1).last() == entries@[i as int]);
            }
            i = i + 1;
        }
        proof {
            assert(entries@.take(entries.len() as int) == entries@);
        }
    }
}

} // verus!
