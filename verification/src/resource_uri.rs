//! The resources an MCP client can read, by URI: fixed documents (vault statistics,
//! indexing status, settings, policy) and parameterised ones (a chunk by id, a source by
//! path, a search, a graph entity).
use crate::mcp::{resource_catalog, JsonRpcError};
use crate::text::{append_chars, from_chars, starts_with, starts_with_chars, str_eq, to_chars};
use vstd::prelude::*;
use vstd::string::StringExecFns;

verus! {

/// A resource read request.
#[derive(Debug)]
pub enum ResourceRequest {
    VaultStats,
    IndexingStatus,
    AppSettings,
    ModelSettings,
    EnterprisePolicy,
    Chunk(i64),
    Source(String),
    Search(String),
    GraphEntity(String),
}

/// `s` with every leading occurrence of `p` removed.
pub open spec fn strip_prefixes(s: Seq<char>, p: Seq<char>) -> Seq<char>
    decreases s.len(),
{
    if p.len() > 0 && starts_with(s, p) {
        strip_prefixes(s.skip(p.len() as int), p)
    } else {
        s
    }
}

/// The decimal value of a string of digits.
pub open spec fn digits_value(s: Seq<char>) -> int
    decreases s.len(),
{
    if s.len() == 0 {
        0
    } else {
        digits_value(s.drop_last()) * 10 + ((s.last() as u32) - 48)
    }
}

pub open spec fn all_digits(s: Seq<char>) -> bool {
    forall|i: int| 0 <= i < s.len() ==> 48 <= #[trigger] (s[i] as u32) <= 57
}

/// What `str::parse::<i64>` gives: an optional sign, then at least one digit, in range.
pub open spec fn parse_i64(s: Seq<char>) -> Option<i64> {
    let negative = s.len() > 0 && s[0] == '-';
    let body = if s.len() > 0 && (s[0] == '-' || s[0] == '+') { s.skip(1) } else { s };
    if body.len() == 0 || !all_digits(body) {
        None
    } else {
        let v = if negative { -digits_value(body) } else { digits_value(body) };
        if i64::MIN <= v <= i64::MAX { Some(v as i64) } else { None }
    }
}

/// Parses a decimal `i64` as `str::parse` does.
pub fn parse_i64_exec(s: &[char]) -> (r: Option<i64>)
    ensures
        r == parse_i64(s@),
{
    let negative = s.len() > 0 && s[0] == '-';
    let skip: usize = if s.len() > 0 && (s[0] == '-' || s[0] == '+') { 1 } else { 0 };
    let ghost body = s@.skip(skip as int);
    if s.len() == skip {
        return None;
    }
    let limit: i128 = 9223372036854775808;
    let mut value: i128 = 0;
    let mut k: usize = skip;
    let mut big = false;
    assert(body.take(0) =~= Seq::<char>::empty());
    while k < s.len()
        invariant
            skip <= k <= s.len(),
            skip == (if s@.len() > 0 && (s@[0] == '-' || s@[0] == '+') { 1usize } else { 0usize }),
            negative == (s@.len() > 0 && s@[0] == '-'),
            body == s@.skip(skip as int),
            all_digits(body.take(k - skip)),
            big ==> digits_value(body.take(k - skip)) > limit,
            !big ==> value == digits_value(body.take(k - skip)),
            limit == 9223372036854775808i128,
            0 <= value <= limit,
        decreases s.len() - k,
    {
        let c = s[k];
        let code = c as u32;
        assert(body.take(k + 1 - skip).drop_last() =~= body.take(k - skip));
        assert(body.take(k + 1 - skip).last() == c);
        assert(body[k - skip] == c);
        if code < 48 || code > 57 {
            assert(!all_digits(body));
            return None;
        }
        if !big {
            let next: i128 = value * 10 + (code - 48) as i128;
            if next > limit {
                big = true;
            } else {
                value = next;
            }
        }
        k += 1;
        assert(all_digits(body.take(k - skip))) by {
            assert forall|i: int| 0 <= i < body.take(k - skip).len() implies 48 <= #[trigger] (body.take(k - skip)[i] as u32) <= 57 by {
                if i < k - 1 - skip {
                    assert(body.take(k - skip)[i] == body.take(k - 1 - skip)[i]);
                }
            }
        }
    }
    assert(body.take(k - skip) =~= body);
    assert(all_digits(body));
    assert(body == (if s@.len() > 0 && (s@[0] == '-' || s@[0] == '+') { s@.skip(1) } else { s@ }));
    assert(body.len() > 0);
    if big {
        assert(digits_value(body) > limit);
        return None;
    }
    assert(value == digits_value(body));
    if negative {
        Some((-value) as i64)
    } else if value <= 9223372036854775807 {
        Some(value as i64)
    } else {
        None
    }
}

/// The resource a URI names, or why it names none.
pub open spec fn resource_of(uri: Seq<char>) -> Result<(Seq<char>, Seq<char>), (i64, Seq<char>)> {
    if uri == "memori://vault/stats"@ {
        Ok(("vault_stats"@, Seq::empty()))
    } else if uri == "memori://indexing/status"@ {
        Ok(("indexing_status"@, Seq::empty()))
    } else if uri == "memori://settings/app"@ {
        Ok(("app_settings"@, Seq::empty()))
    } else if uri == "memori://settings/models"@ {
        Ok(("model_settings"@, Seq::empty()))
    } else if uri == "memori://policy/enterprise"@ {
        Ok(("enterprise_policy"@, Seq::empty()))
    } else if starts_with(uri, "memori://chunk/"@) {
        match parse_i64(strip_prefixes(uri, "memori://chunk/"@)) {
            Some(_) => Ok(("chunk"@, strip_prefixes(uri, "memori://chunk/"@))),
            None => Err((-32602i64, "invalid chunk id"@)),
        }
    } else if starts_with(uri, "memori://source/"@) {
        Ok(("source"@, strip_prefixes(uri, "memori://source/"@)))
    } else if starts_with(uri, "memori://search/"@) {
        Ok(("search"@, strip_prefixes(uri, "memori://search/"@)))
    } else if starts_with(uri, "memori://graph/entity/"@) {
        Ok(("graph_entity"@, strip_prefixes(uri, "memori://graph/entity/"@)))
    } else {
        Err((-32602i64, "unknown resource: "@ + uri))
    }
}

/// A URI is refused as an unknown resource exactly when it is none of the resources that
/// `resources/list` lists and starts with none of the chunk, source, search and graph-entity
/// prefixes; the refusal is the invalid-params error that names the URI.
pub proof fn law_unknown_resources_are_refused(uri: Seq<char>)
    ensures
        resource_of(uri) == Err::<(Seq<char>, Seq<char>), (i64, Seq<char>)>((-32602i64, "unknown resource: "@ + uri))
            <==> ((forall|i: int| 0 <= i < resource_catalog().len() ==> #[trigger] resource_catalog()[i].0 != uri)
            && !starts_with(uri, "memori://chunk/"@) && !starts_with(uri, "memori://source/"@)
            && !starts_with(uri, "memori://search/"@) && !starts_with(uri, "memori://graph/entity/"@)),
{
    let c = resource_catalog();
    assert(c[0].0 == "memori://vault/stats"@);
    assert(c[1].0 == "memori://indexing/status"@);
    assert(c[2].0 == "memori://settings/app"@);
    assert(c[3].0 == "memori://settings/models"@);
    assert(c[4].0 == "memori://policy/enterprise"@);
    reveal_strlit("invalid chunk id");
    reveal_strlit("unknown resource: ");
    let unknown = "unknown resource: "@ + uri;
    assert(unknown[0] == 'u');
    assert("invalid chunk id"@[0] == 'i');
    assert("invalid chunk id"@ != unknown);
}

pub open spec fn request_view(r: ResourceRequest) -> (Seq<char>, Seq<char>) {
    match r {
        ResourceRequest::VaultStats => ("vault_stats"@, Seq::empty()),
        ResourceRequest::IndexingStatus => ("indexing_status"@, Seq::empty()),
        ResourceRequest::AppSettings => ("app_settings"@, Seq::empty()),
        ResourceRequest::ModelSettings => ("model_settings"@, Seq::empty()),
        ResourceRequest::EnterprisePolicy => ("enterprise_policy"@, Seq::empty()),
        ResourceRequest::Chunk(_) => ("chunk"@, Seq::empty()),
        ResourceRequest::Source(p) => ("source"@, p@),
        ResourceRequest::Search(q) => ("search"@, q@),
        ResourceRequest::GraphEntity(e) => ("graph_entity"@, e@),
    }
}

fn strip_prefixes_exec(s: &[char], p: &str) -> (r: Vec<char>)
    ensures
        r@ == strip_prefixes(s@, p@),
{
    let pc = to_chars(p);
    let mut start: usize = 0;
    assert(s@.skip(0) =~= s@);
    loop
        invariant
            start <= s.len(),
            pc@ == p@,
            strip_prefixes(s@, p@) == strip_prefixes(s@.skip(start as int), p@),
        ensures
            start <= s.len(),
            strip_prefixes(s@, p@) == s@.skip(start as int),
        decreases s.len() - start,
    {
        if pc.len() == 0 || pc.len() > s.len() - start {
            break;
        }
        let rest = crate::text::copy_range(s, start, s.len());
        assert(rest@ =~= s@.skip(start as int));
        if !starts_with_chars(&rest, &pc) {
            break;
        }
        assert(s@.skip(start as int).skip(pc.len() as int) =~= s@.skip(start + pc.len()));
        start = start + pc.len();
    }
    let r = crate::text::copy_range(s, start, s.len());
    assert(r@ =~= s@.skip(start as int));
    r
}

/// The resource a URI names: one of the fixed resources, or a parameterised one whose
/// parameter is what follows its prefix; an unparsable chunk id or any other URI is an
/// invalid-params error.
pub fn resource_request(uri: &str) -> (r: Result<ResourceRequest, JsonRpcError>)
    ensures
        match r {
            Ok(req) => resource_of(uri@) matches Ok((kind, arg)) && request_view(req).0 == kind && (kind != "chunk"@ ==> request_view(req).1 == arg)
                && (req matches ResourceRequest::Chunk(id) ==> parse_i64(arg) == Some(id)),
            Err(e) => resource_of(uri@) == Err::<(Seq<char>, Seq<char>), (i64, Seq<char>)>((e.code, e.message@)),
        },
{
    proof {
        reveal_strlit("chunk");
        reveal_strlit("source");
        reveal_strlit("search");
        reveal_strlit("graph_entity");
        reveal_strlit("vault_stats");
        reveal_strlit("indexing_status");
        reveal_strlit("app_settings");
        reveal_strlit("model_settings");
        reveal_strlit("enterprise_policy");
    }
    let u = to_chars(uri);
    if str_eq(uri, "memori://vault/stats") {
        Ok(ResourceRequest::VaultStats)
    } else if str_eq(uri, "memori://indexing/status") {
        Ok(ResourceRequest::IndexingStatus)
    } else if str_eq(uri, "memori://settings/app") {
        Ok(ResourceRequest::AppSettings)
    } else if str_eq(uri, "memori://settings/models") {
        Ok(ResourceRequest::ModelSettings)
    } else if str_eq(uri, "memori://policy/enterprise") {
        Ok(ResourceRequest::EnterprisePolicy)
    } else if starts_with_chars(&u, &to_chars("memori://chunk/")) {
        let rest = strip_prefixes_exec(&u, "memori://chunk/");
        match parse_i64_exec(&rest) {
            Some(id) => Ok(ResourceRequest::Chunk(id)),
            None => Err(JsonRpcError::invalid_params("invalid chunk id")),
        }
    } else if starts_with_chars(&u, &to_chars("memori://source/")) {
        Ok(ResourceRequest::Source(from_chars(&strip_prefixes_exec(&u, "memori://source/"))))
    } else if starts_with_chars(&u, &to_chars("memori://search/")) {
        Ok(ResourceRequest::Search(from_chars(&strip_prefixes_exec(&u, "memori://search/"))))
    } else if starts_with_chars(&u, &to_chars("memori://graph/entity/")) {
        Ok(ResourceRequest::GraphEntity(from_chars(&strip_prefixes_exec(&u, "memori://graph/entity/"))))
    } else {
        let mut message = "unknown resource: ".to_owned();
        message.append(uri);
        Err(JsonRpcError::invalid_params(message.as_str()))
    }
}

} // verus!
