//! Normalisation of search and question requests: how many results, the answer language,
//! the scope paths, and which files hold indexable text.
use crate::documents::extension;
use crate::legacy_answer::{AskResponseStructured, AskStatus, CitationItem};
use crate::server_metrics::{wrap_add, ServerMetrics};
use crate::text::{append_chars, chars_eq, from_chars, lower, lower_chars, starts_with, starts_with_chars, to_chars, trim, trim_chars};
use vstd::prelude::*;

verus! {

/// Number of results retrieved when a request gives no valid count.
pub const DEFAULT_RETRIEVE_TOP_K: usize = 20;

/// `top_k` when it lies in 1..=50, otherwise the default.
pub fn normalize_top_k(top_k: Option<usize>) -> (r: usize)
    ensures
        r == match top_k {
            Some(v) => if 1 <= v <= 50 { v } else { DEFAULT_RETRIEVE_TOP_K },
            None => DEFAULT_RETRIEVE_TOP_K,
        },
{
    match top_k {
        Some(v) => if 1 <= v && v <= 50 { v } else { DEFAULT_RETRIEVE_TOP_K },
        None => DEFAULT_RETRIEVE_TOP_K,
    }
}

/// The answer language a request names: "zh-CN" for a tag starting with "zh", "en-US" for
/// one starting with "en" (in any ASCII case, around whitespace); nothing otherwise.
pub open spec fn language_of(lang: Option<Seq<char>>) -> Option<Seq<char>> {
    match lang {
        Some(l) => {
            let n = lower(trim(l));
            if starts_with(n, "zh"@) {
                Some("zh-CN"@)
            } else if starts_with(n, "en"@) {
                Some("en-US"@)
            } else {
                None
            }
        },
        None => None,
    }
}

pub fn normalize_language(lang: Option<&str>) -> (r: Option<&'static str>)
    ensures
        match r {
            Some(t) => language_of(
                match lang {
                    Some(l) => Some(l@),
                    None => None,
                },
            ) == Some(t@),
            None => language_of(
                match lang {
                    Some(l) => Some(l@),
                    None => None,
                },
            ) is None,
        },
{
    let l = match lang {
        Some(l) => l,
        None => return None,
    };
    let n = lower_chars(&trim_chars(&to_chars(l)));
    if starts_with_chars(&n, &to_chars("zh")) {
        Some("zh-CN")
    } else if starts_with_chars(&n, &to_chars("en")) {
        Some("en-US")
    } else {
        None
    }
}

/// The question handed to the model: the query, followed by an instruction to answer in the
/// requested language when one is recognised.
pub open spec fn answer_question(query: Seq<char>, lang: Option<Seq<char>>) -> Seq<char> {
    match language_of(lang) {
        Some(l) => if l == "zh-CN"@ {
            query + "\n\n请仅使用中文回答。"@
        } else {
            query + "\n\nPlease answer in English only."@
        },
        None => query,
    }
}

pub fn build_answer_question(query: &str, lang: Option<&str>) -> (r: String)
    ensures
        r@ == answer_question(
            query@,
            match lang {
                Some(l) => Some(l@),
                None => None,
            },
        ),
{
    let mut out = to_chars(query);
    match normalize_language(lang) {
        Some(l) => {
            if chars_eq(&to_chars(l), &to_chars("zh-CN")) {
                append_chars(&mut out, &to_chars("\n\n请仅使用中文回答。"));
            } else {
                proof {
                    reveal_strlit("zh-CN");
                    reveal_strlit("en-US");
                }
                append_chars(&mut out, &to_chars("\n\nPlease answer in English only."));
            }
        },
        None => {},
    }
    from_chars(&out)
}

/// The scope paths of a request: each trimmed, blank ones dropped, in order.
pub open spec fn scope_paths_of(paths: Seq<Seq<char>>) -> Seq<Seq<char>>
    decreases paths.len(),
{
    if paths.len() == 0 {
        Seq::empty()
    } else {
        let rest = scope_paths_of(paths.drop_last());
        if trim(paths.last()).len() == 0 {
            rest
        } else {
            rest.push(trim(paths.last()))
        }
    }
}

pub fn normalize_scope_paths(scope_paths: Option<Vec<String>>) -> (r: Vec<String>)
    ensures
        r@.map_values(|s: String| s@) == match scope_paths {
            Some(v) => scope_paths_of(v@.map_values(|s: String| s@)),
            None => Seq::empty(),
        },
{
    let paths = match scope_paths {
        Some(v) => v,
        None => {
            let r: Vec<String> = Vec::new();
            assert(r@.map_values(|s: String| s@) =~= Seq::<Seq<char>>::empty());
            return r;
        },
    };
    let ghost views = paths@.map_values(|s: String| s@);
    let mut result: Vec<String> = Vec::new();
    let mut k: usize = 0;
    while k < paths.len()
        invariant
            k <= paths.len(),
            views == paths@.map_values(|s: String| s@),
            result@.map_values(|s: String| s@) == scope_paths_of(views.take(k as int)),
        decreases paths.len() - k,
    {
        assert(views.take(k + 1).drop_last() =~= views.take(k as int));
        assert(views.take(k + 1).last() == paths@[k as int]@);
        let trimmed = trim_chars(&to_chars(paths[k].as_str()));
        if trimmed.len() > 0 {
            let ghost before = result@.map_values(|s: String| s@);
            result.push(from_chars(&trimmed));
            assert(result@.map_values(|s: String| s@) =~= before.push(trimmed@));
        }
        k += 1;
    }
    assert(views.take(k as int) =~= views);
    result
}

/// The scope of a search: none (the whole vault) when no paths are given.
pub fn optional_scope_refs(scope_paths: &[String]) -> (r: Option<&[String]>)
    ensures
        match r {
            Some(s) => scope_paths.len() > 0 && s@ == scope_paths@,
            None => scope_paths.len() == 0,
        },
{
    if scope_paths.len() == 0 {
        None
    } else {
        Some(scope_paths)
    }
}

/// Whether a file holds indexable text: its extension is "md" or "txt" in any ASCII case.
pub open spec fn is_text_file(path: Seq<char>) -> bool {
    match extension(path) {
        Some(e) => lower(e) == "md"@ || lower(e) == "txt"@,
        None => false,
    }
}

pub fn is_supported_text_file(path: &str) -> (r: bool)
    ensures
        r == is_text_file(path@),
{
    match crate::documents::file_extension(path) {
        Some(e) => {
            let l = lower_chars(&to_chars(e.as_str()));
            chars_eq(&l, &to_chars("md")) || chars_eq(&l, &to_chars("txt"))
        },
        None => false,
    }
}

/// How the question endpoint starts on a query.
pub enum AskStart {
    /// The query is blank: it is answered at once, for want of evidence, and counted as a
    /// failed request.
    Blank(AskResponseStructured),
    /// The trimmed query goes to the engine.
    Query(String),
}

/// The start of answering `query`: a blank query gets an empty answer marked as lacking
/// evidence, with no evidence; any other is passed on trimmed.
pub fn start_ask(query: &str) -> (r: AskStart)
    ensures
        (r is Blank) <==> trim(query@).len() == 0,
        r matches AskStart::Blank(resp) ==> resp.status == AskStatus::InsufficientEvidence && resp.answer@.len() == 0
            && resp.citations@.len() == 0 && resp.evidence@.len() == 0,
        r matches AskStart::Query(q) ==> q@ == trim(query@),
{
    let q = trim_chars(&to_chars(query));
    if q.len() == 0 {
        AskStart::Blank(AskResponseStructured {
            status: AskStatus::InsufficientEvidence,
            answer: String::new(),
            citations: Vec::new(),
            evidence: Vec::new(),
        })
    } else {
        AskStart::Query(from_chars(&q))
    }
}

/// Receives a question: it is counted as a request and a question; a blank one is also
/// counted as failed and answered at once (the answering time stays as it was), any other is
/// passed on trimmed.
pub fn receive_ask(metrics: &mut ServerMetrics, query: &str) -> (r: AskStart)
    ensures
        (r is Blank) <==> trim(query@).len() == 0,
        r matches AskStart::Blank(resp) ==> resp.status == AskStatus::InsufficientEvidence && resp.answer@.len() == 0
            && resp.citations@.len() == 0 && resp.evidence@.len() == 0,
        r matches AskStart::Query(q) ==> q@ == trim(query@),
        final(metrics).total_requests == wrap_add(old(metrics).total_requests, 1),
        final(metrics).ask_requests == wrap_add(old(metrics).ask_requests, 1),
        final(metrics).failed_requests == if r is Blank { wrap_add(old(metrics).failed_requests, 1) } else { old(metrics).failed_requests },
        final(metrics).ask_failed == if r is Blank { wrap_add(old(metrics).ask_failed, 1) } else { old(metrics).ask_failed },
        final(metrics).ask_latency_total_ms == old(metrics).ask_latency_total_ms,
{
    let start = start_ask(query);
    match start {
        AskStart::Blank(_) => metrics.record_blank_ask(),
        AskStart::Query(_) => metrics.record_ask(),
    }
    start
}

/// The citation numbered `index` among `citations`, the first one carrying it.
pub fn find_citation(citations: &[CitationItem], index: usize) -> (r: Option<usize>)
    ensures
        match r {
            Some(i) => i < citations.len() && citations@[i as int].index == index && forall|j: int| 0 <= j < i ==> citations@[j].index != index,
            None => forall|j: int| 0 <= j < citations.len() ==> citations@[j].index != index,
        },
{
    let mut k: usize = 0;
    while k < citations.len()
        invariant
            k <= citations.len(),
            forall|j: int| 0 <= j < k ==> citations@[j].index != index,
        decreases citations.len() - k,
    {
        if citations[k].index == index {
            return Some(k);
        }
        k += 1;
    }
    None
}

} // verus!
