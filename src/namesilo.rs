//! What the DNS sync decides around its two calls to the registrar: which
//! parameters each call sends, how a reply is judged, and which record is the
//! one to update. The HTTP exchange itself happens outside.
use crate::configure::NamesiloConfig;
use vstd::prelude::*;

verus! {

/// Path of the call that updates a record.
pub const UPDATE_PATH: &'static str = "/api/dnsUpdateRecord";

/// Path of the call that lists a domain's records.
pub const LIST_PATH: &'static str = "/api/dnsListRecords";

/// A request to point the managed record at a new address.
#[derive(Debug, Clone)]
pub struct SyncRequest {
    pub ip: String,
}

/// The registrar's envelope around a reply.
#[derive(Debug)]
pub struct NamesiloResponse<Reply> {
    pub reply: Reply,
}

/// Reply to a record update.
#[derive(Debug)]
pub struct DnsUpdateReply {
    pub code: ResponseCode,
    pub detail: String,
}

/// Reply to a record listing.
#[derive(Debug)]
pub struct DnsListReply {
    pub code: ResponseCode,
    pub detail: String,
    pub resource_record: Vec<ResourceRecord>,
}

/// One DNS record: its identifier and its fully qualified host name.
#[derive(Debug, Clone)]
pub struct ResourceRecord {
    pub record_id: String,
    pub host: String,
}

/// Result codes of the registrar that this client knows.
#[derive(Debug, Clone, Copy, PartialEq, Eq, Structural)]
pub enum ResponseCode {
    /// The call succeeded.
    Success,
}

impl ResponseCode {
    /// The number that stands for this code on the wire.
    pub fn value(&self) -> (r: u16)
        ensures
            r == 300,
    {
        match self {
            ResponseCode::Success => 300,
        }
    }
}

/// The two calls made to the registrar.
#[derive(Debug, Clone, Copy, PartialEq, Eq, Structural)]
pub enum DnsCall {
    Update,
    List,
}

/// Views of a list of key/value pairs.
pub open spec fn pair_views(v: Seq<(String, String)>) -> Seq<(Seq<char>, Seq<char>)> {
    v.map_values(|p: (String, String)| (p.0@, p.1@))
}

/// The parameters that every call sends first.
pub open spec fn common_query(c: NamesiloConfig) -> Seq<(Seq<char>, Seq<char>)> {
    seq![("version"@, "1"@), ("type"@, "json"@), ("key"@, c.key@), ("domain"@, c.domain@)]
}

/// The parameters of an update of record `rrid` to value `ip`.
pub open spec fn update_query_spec(c: NamesiloConfig, ip: Seq<char>, rrid: Seq<char>) -> Seq<
    (Seq<char>, Seq<char>),
> {
    common_query(c) + seq![
        ("rrid"@, rrid),
        ("rrhost"@, c.rrhost@),
        ("rrvalue"@, ip),
        ("rrttl"@, c.rrttl@),
    ]
}

/// Appends the pair `(k, v)`.
fn push_pair(q: &mut Vec<(String, String)>, k: &str, v: &str)
    ensures
        pair_views(final(q)@) == pair_views(old(q)@).push((k@, v@)),
{
    let ghost before = q@;
    q.push((String::from_str(k), String::from_str(v)));
    assert(pair_views(q@) =~= pair_views(before).push((k@, v@)));
}

/// The parameters of a listing of the configured domain's records.
pub fn list_query(config: &NamesiloConfig) -> (q: Vec<(String, String)>)
    ensures
        pair_views(q@) == common_query(*config),
{
    let mut q: Vec<(String, String)> = Vec::new();
    assert(pair_views(q@) =~= Seq::empty());
    push_pair(&mut q, "version", "1");
    push_pair(&mut q, "type", "json");
    push_pair(&mut q, "key", config.key.as_str());
    push_pair(&mut q, "domain", config.domain.as_str());
    assert(pair_views(q@) =~= common_query(*config));
    q
}

/// The parameters of an update of record `rrid` to the value `ip`.
pub fn update_query(config: &NamesiloConfig, ip: &str, rrid: &str) -> (q: Vec<(String, String)>)
    ensures
        pair_views(q@) == update_query_spec(*config, ip@, rrid@),
{
    let mut q = list_query(config);
    push_pair(&mut q, "rrid", rrid);
    push_pair(&mut q, "rrhost", config.rrhost.as_str());
    push_pair(&mut q, "rrvalue", ip);
    push_pair(&mut q, "rrttl", config.rrttl.as_str());
    assert(pair_views(q@) =~= update_query_spec(*config, ip@, rrid@));
    q
}

/// How an error of `call` begins.
pub open spec fn call_failure(call: DnsCall, cause: Seq<char>) -> Seq<char> {
    match call {
        DnsCall::Update => "Failed to update DNS record: "@ + cause,
        DnsCall::List => "Failed to list DNS record: "@ + cause,
    }
}

/// The message of a failed `call`, from its cause: the HTTP status when that
/// was no success, or the registrar's detail when its code was no success.
pub fn failure_of(call: DnsCall, cause: &str) -> (r: String)
    ensures
        r@ == call_failure(call, cause@),
{
    let mut m = match call {
        DnsCall::Update => String::from_str("Failed to update DNS record: "),
        DnsCall::List => String::from_str("Failed to list DNS record: "),
    };
    m.append(cause);
    m
}

/// Judges an update's reply: success when its code says so, otherwise the
/// registrar's detail.
pub fn check_update(reply: &DnsUpdateReply) -> (r: Result<(), String>)
    ensures
        reply.code == ResponseCode::Success <==> r is Ok,
        r is Err ==> r->Err_0@ == call_failure(DnsCall::Update, reply.detail@),
{
    if reply.code != ResponseCode::Success {
        return Err(failure_of(DnsCall::Update, reply.detail.as_str()));
    }
    Ok(())
}

/// Views of a list of records, as (identifier, host) pairs.
pub open spec fn record_views(v: Seq<ResourceRecord>) -> Seq<(Seq<char>, Seq<char>)> {
    v.map_values(|r: ResourceRecord| (r.record_id@, r.host@))
}

/// Judges a listing's reply: its records when its code says success,
/// otherwise the registrar's detail.
pub fn check_list(reply: DnsListReply) -> (r: Result<Vec<ResourceRecord>, String>)
    ensures
        reply.code == ResponseCode::Success <==> r is Ok,
        r is Ok ==> record_views(r->Ok_0@) == record_views(reply.resource_record@),
        r is Err ==> r->Err_0@ == call_failure(DnsCall::List, reply.detail@),
{
    if reply.code != ResponseCode::Success {
        return Err(failure_of(DnsCall::List, reply.detail.as_str()));
    }
    Ok(reply.resource_record)
}

/// The fully qualified name of the managed record: `rrhost.domain`.
pub fn target_host(config: &NamesiloConfig) -> (r: String)
    ensures
        r@ == config.rrhost@ + seq!['.'] + config.domain@,
{
    let mut r = config.rrhost.clone();
    r.append(".");
    proof {
        reveal_strlit(".");
    }
    r.append(config.domain.as_str());
    r
}

/// The message when no record has the target host.
pub open spec fn not_found() -> Seq<char> {
    "target host not found"@
}

/// The first record whose host is `host`, by its position; an error when
/// there is none.
pub fn find_record(records: &Vec<ResourceRecord>, host: &String) -> (r: Result<usize, String>)
    ensures
        match r {
            Ok(i) => i < records.len() && records@[i as int].host@ == host@ && forall|j: int|
                0 <= j < i ==> (#[trigger] records@[j]).host@ != host@,
            Err(m) => m@ == not_found() && forall|j: int|
                0 <= j < records.len() ==> (#[trigger] records@[j]).host@ != host@,
        },
{
    let mut i: usize = 0;
    while i < records.len()
        invariant
            i <= records.len(),
            forall|j: int| 0 <= j < i ==> (#[trigger] records@[j]).host@ != host@,
        decreases records.len() - i,
    {
        if records[i].host == *host {
            return Ok(i);
        }
        i = i + 1;
    }
    Err(String::from_str("target host not found"))
}

} // verus!
