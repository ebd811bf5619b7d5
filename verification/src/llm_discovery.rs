//! Servers that are found on this host.

use crate::json;
use crate::json::{Json, JsonV};
use crate::text;
use vstd::prelude::*;

verus! {

/// A server that was found.
#[derive(Debug, PartialEq)]
pub struct DiscoveredServer {
    pub kind: String,
    pub url: String,
    pub model_count: usize,
    pub latency_ms: u64,
    pub healthy: bool,
}

/// What a [`DiscoveredServer`] says.
pub struct DiscoveredV {
    pub kind: Seq<char>,
    pub url: Seq<char>,
    pub model_count: nat,
    pub latency_ms: u64,
    pub healthy: bool,
}

impl View for DiscoveredServer {
    type V = DiscoveredV;

    open spec fn view(&self) -> DiscoveredV {
        DiscoveredV {
            kind: self.kind@,
            url: self.url@,
            model_count: self.model_count as nat,
            latency_ms: self.latency_ms,
            healthy: self.healthy,
        }
    }
}

impl DiscoveredServer {
    /// A copy.
    pub fn copy(&self) -> (r: DiscoveredServer)
        ensures
            r@ == self@,
    {
        DiscoveredServer {
            kind: text::copy(&self.kind),
            url: text::copy(&self.url),
            model_count: self.model_count,
            latency_ms: self.latency_ms,
            healthy: self.healthy,
        }
    }
}

/// A place where a server may be.
#[derive(Debug)]
pub struct PortProbe {
    pub url: &'static str,
    pub path: &'static str,
    pub candidate_kinds: Vec<String>,
}

fn kinds1(a: &str) -> (r: Vec<String>)
    ensures
        text::views(r@) == seq![a@],
{
    let mut v: Vec<String> = Vec::new();
    v.push(text::copy(a));
    assert(text::views(v@) =~= seq![a@]);
    v
}

fn kinds2(a: &str, b: &str) -> (r: Vec<String>)
    ensures
        text::views(r@) == seq![a@, b@],
{
    let mut v = kinds1(a);
    let s = text::copy(b);
    proof {
        text::lemma_views_push(v@, s);
    }
    v.push(s);
    assert(text::views(v@) =~= seq![a@, b@]);
    v
}

fn kinds3(a: &str, b: &str, c: &str) -> (r: Vec<String>)
    ensures
        text::views(r@) == seq![a@, b@, c@],
{
    let mut v = kinds2(a, b);
    let s = text::copy(c);
    proof {
        text::lemma_views_push(v@, s);
    }
    v.push(s);
    assert(text::views(v@) =~= seq![a@, b@, c@]);
    v
}

/// What a [`PortProbe`] says: an address, a path and the kinds of servers that
/// may be there.
pub open spec fn probe_says(p: PortProbe, url: Seq<char>, path: Seq<char>, kinds: Seq<Seq<char>>) -> bool {
    p.url@ == url && p.path@ == path && text::views(p.candidate_kinds@) == kinds
}

/// The places where a server may be.
pub fn port_probes() -> (r: Vec<PortProbe>)
    ensures
        r@.len() == 5,
        probe_says(r@[0], "http://127.0.0.1:11434"@, "/api/tags"@, seq!["ollama"@]),
        probe_says(
            r@[1],
            "http://127.0.0.1:8000"@,
            "/v1/models"@,
            seq!["vllm"@, "tensorrt"@],
        ),
        probe_says(
            r@[2],
            "http://127.0.0.1:8080"@,
            "/v1/models"@,
            seq!["llamacpp"@, "localai"@, "tgi"@],
        ),
        probe_says(r@[3], "http://127.0.0.1:80"@, "/v1/models"@, seq!["tgi"@]),
        probe_says(r@[4], "http://127.0.0.1:1234"@, "/v1/models"@, seq!["lmstudio"@]),
{
    let mut v: Vec<PortProbe> = Vec::new();
    v.push(
        PortProbe {
            url: "http://127.0.0.1:11434",
            path: "/api/tags",
            candidate_kinds: kinds1("ollama"),
        },
    );
    v.push(
        PortProbe {
            url: "http://127.0.0.1:8000",
            path: "/v1/models",
            candidate_kinds: kinds2("vllm", "tensorrt"),
        },
    );
    v.push(
        PortProbe {
            url: "http://127.0.0.1:8080",
            path: "/v1/models",
            candidate_kinds: kinds3("llamacpp", "localai", "tgi"),
        },
    );
    v.push(
        PortProbe {
            url: "http://127.0.0.1:80",
            path: "/v1/models",
            candidate_kinds: kinds1("tgi"),
        },
    );
    v.push(
        PortProbe {
            url: "http://127.0.0.1:1234",
            path: "/v1/models",
            candidate_kinds: kinds1("lmstudio"),
        },
    );
    v
}

/// The kind that one model in a list tells.
pub open spec fn kind_in_entry(e: JsonV) -> Option<Seq<char>> {
    let id = json::str_field(e, "id"@);
    let owner = json::str_field(e, "owned_by"@);
    if id is Some && text::has(text::lower(id->0), "tensorrt"@) {
        Some("tensorrt"@)
    } else if owner is Some && text::has(text::lower(owner->0), "vllm"@) {
        Some("vllm"@)
    } else if owner is Some && text::has(text::lower(owner->0), "localai"@) {
        Some("localai"@)
    } else {
        None
    }
}

/// The kind that the first model in a list that tells one tells.
pub open spec fn kind_in_list(data: Seq<JsonV>) -> Option<Seq<char>>
    decreases data.len(),
{
    if data.len() == 0 {
        None
    } else if kind_in_entry(data[0]) is Some {
        kind_in_entry(data[0])
    } else {
        kind_in_list(data.skip(1))
    }
}

/// The kind that the name in the header of a server tells, where it may be one of
/// `kinds`.
pub open spec fn kind_in_header(header: Option<Seq<char>>, kinds: Seq<Seq<char>>) -> Option<Seq<char>> {
    match header {
        Some(h) => if text::has(h, "tgi"@) || text::has(h, "text-generation"@) {
            Some("tgi"@)
        } else if text::has(h, "uvicorn"@) && kinds.contains("vllm"@) {
            Some("vllm"@)
        } else if text::has(h, "localai"@) {
            Some("localai"@)
        } else {
            None
        },
        None => None,
    }
}

/// The kind of a server that speaks as OpenAI: as its header tells, or else its
/// models, or else the first of `kinds`.
pub open spec fn classified(
    reply: JsonV,
    kinds: Seq<Seq<char>>,
    header: Option<Seq<char>>,
) -> Seq<char> {
    let by_header = kind_in_header(header, kinds);
    let by_models = match json::arr_in(json::field(reply, "data"@)) {
        Some(d) => kind_in_list(d),
        None => None,
    };
    if by_header is Some {
        by_header->0
    } else if by_models is Some {
        by_models->0
    } else if kinds.len() > 0 {
        kinds[0]
    } else {
        "openai_compat"@
    }
}

fn entry_kind(e: &Json) -> (r: Option<&'static str>)
    ensures
        json::opt_str(r) == kind_in_entry(e@),
{
    if let Some(id) = e.get_str("id") {
        if text::contains(&text::to_lower(id), "tensorrt") {
            return Some("tensorrt");
        }
    }
    if let Some(owner) = e.get_str("owned_by") {
        let owner = text::to_lower(owner);
        if text::contains(&owner, "vllm") {
            return Some("vllm");
        }
        if text::contains(&owner, "localai") {
            return Some("localai");
        }
    }
    None
}

fn list_kind(data: &Vec<Json>) -> (r: Option<&'static str>)
    ensures
        json::opt_str(r) == kind_in_list(json::items_view(data@)),
{
    let ghost dv = json::items_view(data@);
    assert(dv.skip(0) =~= dv);
    for i in 0..data.len()
        invariant
            dv == json::items_view(data@),
            kind_in_list(dv) == kind_in_list(dv.skip(i as int)),
    {
        assert(dv.skip(i as int)[0] == data@[i as int]@);
        assert(dv.skip(i as int).skip(1) =~= dv.skip(i as int + 1));
        let k = entry_kind(&data[i]);
        if k.is_some() {
            return k;
        }
    }
    None
}

/// The kind of a server that speaks as OpenAI.
pub fn classify_openai_compat(
    reply: &Json,
    candidate_kinds: &Vec<String>,
    server_header: Option<&str>,
) -> (r: String)
    ensures
        r@ == classified(reply@, text::views(candidate_kinds@), json::opt_str(server_header)),
{
    if let Some(h) = server_header {
        if text::contains(h, "tgi") || text::contains(h, "text-generation") {
            return text::copy("tgi");
        }
        if text::contains(h, "uvicorn") && text::list_has(candidate_kinds, "vllm") {
            return text::copy("vllm");
        }
        if text::contains(h, "localai") {
            return text::copy("localai");
        }
    }
    let data = match reply.get("data") {
        Some(d) => d.as_array(),
        None => None,
    };
    if let Some(d) = data {
        if let Some(k) = list_kind(d) {
            return text::copy(k);
        }
    }
    assert(text::views(candidate_kinds@).len() == candidate_kinds@.len());
    if candidate_kinds.len() > 0 {
        assert(text::views(candidate_kinds@)[0] == candidate_kinds@[0]@);
        text::copy(&candidate_kinds[0])
    } else {
        text::copy("openai_compat")
    }
}

/// The length of a list.
pub open spec fn list_len(o: Option<Seq<JsonV>>) -> nat {
    match o {
        Some(v) => v.len(),
        None => 0,
    }
}

/// The server at `url` that gave the reply `j` after `latency` milliseconds.
pub open spec fn server_of(
    j: JsonV,
    url: Seq<char>,
    kinds: Seq<Seq<char>>,
    header: Option<Seq<char>>,
    latency: u64,
) -> DiscoveredV {
    let models = json::arr_in(json::field(j, "models"@));
    let lower = match header {
        Some(h) => Some(text::lower(h)),
        None => None,
    };
    if models is Some {
        DiscoveredV {
            kind: "ollama"@,
            url,
            model_count: models->0.len(),
            latency_ms: latency,
            healthy: true,
        }
    } else {
        DiscoveredV {
            kind: classified(j, kinds, lower),
            url,
            model_count: list_len(json::arr_in(json::field(j, "data"@))),
            latency_ms: latency,
            healthy: true,
        }
    }
}

/// What an optional server says.
pub open spec fn opt_server(o: Option<DiscoveredServer>) -> Option<DiscoveredV> {
    match o {
        Some(s) => Some(s@),
        None => None,
    }
}

/// The server at `base_url` that gave the reply `reply`, and named itself
/// `server_header` where it did, after `latency_ms`.
pub fn replied_server(
    reply: &Json,
    base_url: &str,
    candidate_kinds: &Vec<String>,
    server_header: Option<&str>,
    latency_ms: u64,
) -> (r: DiscoveredServer)
    ensures
        r@ == server_of(
            reply@,
            base_url@,
            text::views(candidate_kinds@),
            json::opt_str(server_header),
            latency_ms,
        ),
{
    let models = match reply.get("models") {
        Some(m) => m.as_array(),
        None => None,
    };
    if let Some(m) = models {
        return DiscoveredServer {
            kind: text::copy("ollama"),
            url: text::copy(base_url),
            model_count: m.len(),
            latency_ms,
            healthy: true,
        };
    }
    let data = match reply.get("data") {
        Some(d) => d.as_array(),
        None => None,
    };
    let model_count: usize = match data {
        Some(d) => d.len(),
        None => 0,
    };
    let kind = match server_header {
        Some(h) => {
            let lower = text::to_lower(h);
            classify_openai_compat(reply, candidate_kinds, Some(lower.as_str()))
        },
        None => classify_openai_compat(reply, candidate_kinds, None),
    };
    DiscoveredServer { kind, url: text::copy(base_url), model_count, latency_ms, healthy: true }
}

/// The server at `base_url` that answered with `body`, and with `server_header`
/// where it named itself, after `latency_ms`; none where the answer is no JSON.
pub fn probe_reply(
    body: &str,
    base_url: &str,
    candidate_kinds: &Vec<String>,
    server_header: Option<&str>,
    latency_ms: u64,
) -> (r: Option<DiscoveredServer>)
    ensures
        opt_server(r) == match json::json_parse(body@) {
            Some(j) => Some(
                server_of(
                    j,
                    base_url@,
                    text::views(candidate_kinds@),
                    json::opt_str(server_header),
                    latency_ms,
                ),
            ),
            None => None,
        },
{
    match json::parse(body) {
        Some(j) => Some(
            replied_server(&j, base_url, candidate_kinds, server_header, latency_ms),
        ),
        None => None,
    }
}

/// The address that is asked.
pub fn probe_url(base_url: &str, path: &str) -> (r: String)
    ensures
        r@ == text::strip_trailing(base_url@, '/') + path@,
{
    text::concat2(&text::trim_end_char(base_url, '/'), path)
}

/// What a list of servers says.
pub open spec fn servers_view(v: Seq<DiscoveredServer>) -> Seq<DiscoveredV> {
    v.map_values(|s: DiscoveredServer| s@)
}

/// Whether a server of `v` is at `url`.
pub open spec fn at_url(v: Seq<DiscoveredV>, url: Seq<char>) -> bool {
    exists|i: int| 0 <= i < v.len() && (#[trigger] v[i]).url == url
}

/// The servers `v`, but of several at one address only the first.
pub open spec fn each_once(v: Seq<DiscoveredV>) -> Seq<DiscoveredV>
    decreases v.len(),
{
    if v.len() == 0 {
        Seq::empty()
    } else {
        let before = each_once(v.drop_last());
        if at_url(before, v.last().url) {
            before
        } else {
            before.push(v.last())
        }
    }
}

/// How many servers at the front of `v` answered no later than `latency`.
pub open spec fn place(v: Seq<DiscoveredV>, latency: u64) -> int
    decreases v.len(),
{
    if v.len() == 0 || v[0].latency_ms > latency {
        0
    } else {
        1 + place(v.skip(1), latency)
    }
}

/// The servers `v`, those that answered sooner first; of two that took the same
/// time, the one that came first.
pub open spec fn by_latency(v: Seq<DiscoveredV>) -> Seq<DiscoveredV>
    decreases v.len(),
{
    if v.len() == 0 {
        Seq::empty()
    } else {
        let before = by_latency(v.drop_last());
        before.insert(place(before, v.last().latency_ms), v.last())
    }
}

fn has_url(v: &Vec<DiscoveredServer>, url: &str) -> (r: bool)
    ensures
        r == at_url(servers_view(v@), url@),
{
    let ghost sv = servers_view(v@);
    for i in 0..v.len()
        invariant
            sv == servers_view(v@),
            forall|k: int| 0 <= k < i ==> (#[trigger] sv[k]).url != url@,
    {
        assert(sv[i as int] == v@[i as int]@);
        if text::str_eq(&v[i].url, url) {
            return true;
        }
    }
    false
}

fn place_index(v: &Vec<DiscoveredServer>, latency: u64) -> (r: usize)
    ensures
        r == place(servers_view(v@), latency),
        r <= v@.len(),
{
    let ghost sv = servers_view(v@);
    let mut i: usize = 0;
    assert(sv.skip(0) =~= sv);
    while i < v.len()
        invariant
            sv == servers_view(v@),
            i <= v@.len(),
            place(sv, latency) == i + place(sv.skip(i as int), latency),
        decreases v@.len() - i,
    {
        assert(sv.skip(i as int)[0] == v@[i as int]@);
        assert(sv.skip(i as int).skip(1) =~= sv.skip(i as int + 1));
        if v[i].latency_ms > latency {
            return i;
        }
        i += 1;
    }
    i
}

/// The servers that were found, each address once, those that answered sooner
/// first.
pub fn scan_local_servers(found: &Vec<DiscoveredServer>) -> (r: Vec<DiscoveredServer>)
    ensures
        servers_view(r@) == by_latency(each_once(servers_view(found@))),
{
    let ghost fv = servers_view(found@);
    let mut seen: Vec<DiscoveredServer> = Vec::new();
    assert(servers_view(seen@) =~= each_once(fv.take(0)));
    for i in 0..found.len()
        invariant
            fv == servers_view(found@),
            servers_view(seen@) == each_once(fv.take(i as int)),
    {
        assert(fv.take(i as int + 1).drop_last() =~= fv.take(i as int));
        if !has_url(&seen, &found[i].url) {
            let ghost before = seen@;
            let s = found[i].copy();
            let ghost sv = s@;
            seen.push(s);
            assert(servers_view(seen@) =~= servers_view(before).push(sv));
        }
    }
    assert(fv.take(fv.len() as int) =~= fv);
    sort_by_latency(&seen)
}

fn sort_by_latency(v: &Vec<DiscoveredServer>) -> (r: Vec<DiscoveredServer>)
    ensures
        servers_view(r@) == by_latency(servers_view(v@)),
{
    let ghost all = servers_view(v@);
    let mut out: Vec<DiscoveredServer> = Vec::new();
    assert(servers_view(out@) =~= by_latency(all.take(0)));
    for i in 0..v.len()
        invariant
            all == servers_view(v@),
            servers_view(out@) == by_latency(all.take(i as int)),
    {
        assert(all.take(i as int + 1).drop_last() =~= all.take(i as int));
        let p: usize = place_index(&out, v[i].latency_ms);
        let ghost before = out@;
        let s = v[i].copy();
        let ghost sv = s@;
        out.insert(p, s);
        assert(servers_view(out@) =~= servers_view(before).insert(p as int, sv));
    }
    assert(all.take(all.len() as int) =~= all);
    out
}

/// Whether the servers answered one no sooner than the one before it.
pub open spec fn in_order(v: Seq<DiscoveredV>) -> bool {
    forall|i: int, j: int|
        0 <= i < j < v.len() ==> (#[trigger] v[i]).latency_ms <= (#[trigger] v[j]).latency_ms
}

proof fn lemma_place(v: Seq<DiscoveredV>, latency: u64)
    requires
        in_order(v),
    ensures
        0 <= place(v, latency) <= v.len(),
        forall|i: int| 0 <= i < place(v, latency) ==> (#[trigger] v[i]).latency_ms <= latency,
        forall|i: int| place(v, latency) <= i < v.len() ==> (#[trigger] v[i]).latency_ms > latency,
    decreases v.len(),
{
    if v.len() > 0 && v[0].latency_ms <= latency {
        let rest = v.skip(1);
        lemma_place(rest, latency);
        assert forall|i: int| 0 <= i < place(v, latency) implies (#[trigger] v[i]).latency_ms
            <= latency by {
            if i > 0 {
                assert(rest[i - 1] == v[i]);
            }
        }
        assert forall|i: int| place(v, latency) <= i < v.len() implies (#[trigger] v[i]).latency_ms
            > latency by {
            assert(rest[i - 1] == v[i]);
        }
    }
}

/// The servers come out in the order in which they answered, and all of them do.
pub proof fn law_sorted_by_latency(v: Seq<DiscoveredV>)
    ensures
        in_order(by_latency(v)),
        by_latency(v).to_multiset() == v.to_multiset(),
    decreases v.len(),
{
    broadcast use vstd::seq_lib::group_to_multiset_ensures;

    if v.len() == 0 {
        assert(by_latency(v) =~= v);
    } else {
        let front = v.drop_last();
        law_sorted_by_latency(front);
        let before = by_latency(front);
        let x = v.last();
        lemma_place(before, x.latency_ms);
        let p = place(before, x.latency_ms);
        let now = before.insert(p, x);
        assert forall|i: int, j: int| 0 <= i < j < now.len() implies (#[trigger] now[i]).latency_ms
            <= (#[trigger] now[j]).latency_ms by {
            if i < p && j > p {
                assert(now[i] == before[i] && now[j] == before[j - 1]);
            } else if i < p && j < p {
                assert(now[i] == before[i] && now[j] == before[j]);
            } else if i < p {
                assert(now[i] == before[i]);
            } else if i == p {
                assert(now[j] == before[j - 1]);
            } else {
                assert(now[i] == before[i - 1] && now[j] == before[j - 1]);
            }
        }
        assert(v =~= front.push(x));
        vstd::seq_lib::to_multiset_insert(before, p, x);
    }
}

/// Every server that was found is kept once, under its address, as it was first found:
/// no two of the kept ones have one address.
pub proof fn law_each_server_is_kept_once(v: Seq<DiscoveredV>)
    ensures
        forall|i: int| 0 <= i < v.len() ==> at_url(each_once(v), (#[trigger] v[i]).url),
        forall|i: int, j: int|
            0 <= i < j < each_once(v).len() ==> (#[trigger] each_once(v)[i]).url != (
            #[trigger] each_once(v)[j]).url,
        forall|k: int|
            0 <= k < each_once(v).len() ==> exists|i: int|
                0 <= i < v.len() && #[trigger] v[i] == #[trigger] each_once(v)[k] && forall|j: int|
                    0 <= j < i ==> (#[trigger] v[j]).url != v[i].url,
    decreases v.len(),
{
    if v.len() > 0 {
        let front = v.drop_last();
        law_each_server_is_kept_once(front);
        let before = each_once(front);
        let all = each_once(v);
        let x = v.last();
        assert forall|i: int| 0 <= i < v.len() implies at_url(all, (#[trigger] v[i]).url) by {
            if i < front.len() {
                assert(front[i] == v[i]);
                let k = choose|k: int| 0 <= k < before.len() && (#[trigger] before[k]).url == v[i].url;
                assert(all[k] == before[k]);
            } else if at_url(before, x.url) {
                assert(all == before);
            } else {
                assert(all[all.len() - 1].url == x.url);
            }
        }
        assert forall|i: int, j: int| 0 <= i < j < all.len() implies (#[trigger] all[i]).url != (
        #[trigger] all[j]).url by {
            if j < before.len() {
                assert(all[i] == before[i] && all[j] == before[j]);
            } else {
                assert(all[i] == before[i]);
            }
        }
        assert forall|k: int| 0 <= k < all.len() implies exists|i: int|
            0 <= i < v.len() && #[trigger] v[i] == #[trigger] all[k] && forall|j: int|
                0 <= j < i ==> (#[trigger] v[j]).url != v[i].url by {
            if k < before.len() {
                assert(all[k] == before[k]);
                let i = choose|i: int|
                    0 <= i < front.len() && #[trigger] front[i] == before[k] && forall|j: int|
                        0 <= j < i ==> (#[trigger] front[j]).url != front[i].url;
                assert(v[i] == front[i]);
                assert forall|j: int| 0 <= j < i implies (#[trigger] v[j]).url != v[i].url by {
                    assert(front[j] == v[j]);
                }
            } else {
                let last = v.len() - 1;
                assert(v[last] == all[k]);
                assert forall|j: int| 0 <= j < last implies (#[trigger] v[j]).url != x.url by {
                    assert(front[j] == v[j]);
                    assert(at_url(before, front[j].url));
                }
            }
        }
    }
}

/// What is found at an address is reported under that address, with as many models as
/// the server lists and the time that it took: a server that lists `models` is one of
/// Ollama, and another is of the kind that its models or its header give away, or else
/// of the first kind that was looked for.
pub proof fn law_found_server_is_reported(
    j: JsonV,
    url: Seq<char>,
    kinds: Seq<Seq<char>>,
    header: Option<Seq<char>>,
    latency: u64,
    listed: Seq<JsonV>,
)
    ensures
        server_of(j, url, kinds, header, latency).url == url,
        server_of(j, url, kinds, header, latency).latency_ms == latency,
        server_of(j, url, kinds, header, latency).healthy,
        json::field(j, "models"@) == Some(JsonV::Arr(listed)) ==> server_of(
            j,
            url,
            kinds,
            header,
            latency,
        ).kind == "ollama"@ && server_of(j, url, kinds, header, latency).model_count == listed.len(),
        json::field(j, "models"@) is None && json::field(j, "data"@) == Some(JsonV::Arr(listed))
            ==> server_of(j, url, kinds, header, latency).model_count == listed.len(),
        json::field(j, "models"@) is None && json::field(j, "data"@) is None && header is None
            && kinds.len() > 0 ==> server_of(j, url, kinds, header, latency).kind == kinds[0],
        json::field(j, "models"@) is None && header is None && json::field(j, "data"@) == Some(
            JsonV::Arr(listed),
        ) && listed.len() > 0 ==> (json::field(listed[0], "owned_by"@) == Some(
            JsonV::Str("vllm"@),
        ) && json::field(listed[0], "id"@) is None ==> server_of(
            j,
            url,
            kinds,
            header,
            latency,
        ).kind == "vllm"@),
{
    reveal_strlit("vllm");
    let word = "vllm"@;
    assert(text::is_ascii(word));
    assert(text::ascii_lower(word) =~= word);
    text::lemma_has_itself(word);
}

} // verus!
