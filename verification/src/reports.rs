//! Retrieval regression reports: the fields of a report listed to the user, the order of the
//! list, and which report is the latest of a mode and profile.
use crate::json::{field, number_text, text_of, unsigned_of, Json};
use crate::text::{append_chars, chars_eq, from_chars, split_chars, split_on, starts_with, starts_with_chars, to_chars};
use vstd::prelude::*;

verus! {

/// A string field of a report; empty when it is missing or not a string.
pub open spec fn report_string(report: Json, key: Seq<char>) -> Seq<char> {
    match text_of(field(report, key)) {
        Some(t) => t,
        None => Seq::empty(),
    }
}

pub fn json_string(report: &Json, key: &str) -> (r: String)
    ensures
        r@ == report_string(*report, key@),
{
    proof {
        reveal_strlit("");
    }
    match report.get(key) {
        Some(Json::Str(s)) => from_chars(&to_chars(s.as_str())),
        _ => from_chars(&to_chars("")),
    }
}

/// A scalar field of a report as text: a string as it is, a number, boolean or null as JSON
/// writes it, and empty when missing. An array or object is not a scalar: `None`, and the
/// caller writes it as JSON text.
pub open spec fn scalar_text(value: Option<Json>) -> Option<Seq<char>> {
    match value {
        None => Some(Seq::empty()),
        Some(Json::Str(s)) => Some(s@),
        Some(Json::Null) => Some("null"@),
        Some(Json::Bool(b)) => Some(if b { "true"@ } else { "false"@ }),
        Some(Json::Array(_)) => None,
        Some(Json::Object(_)) => None,
        Some(v) => number_text(v),
    }
}

pub fn json_scalar_string(report: &Json, key: &str) -> (r: Option<String>)
    ensures
        match r {
            Some(t) => scalar_text(field(*report, key@)) == Some(t@),
            None => scalar_text(field(*report, key@)) is None,
        },
{
    proof {
        reveal_strlit("");
    }
    match report.get(key) {
        None => Some(from_chars(&to_chars(""))),
        Some(Json::Str(s)) => Some(from_chars(&to_chars(s.as_str()))),
        Some(Json::Null) => Some(from_chars(&to_chars("null"))),
        Some(Json::Bool(b)) => Some(from_chars(&to_chars(if *b { "true" } else { "false" }))),
        Some(Json::Array(_)) => None,
        Some(Json::Object(_)) => None,
        Some(v) => v.number_text(),
    }
}

/// The number of cases of a report: `summary.case_count` when it is a non-negative integer,
/// else 0.
pub open spec fn case_count_of(report: Json) -> u64 {
    match field(report, "summary"@) {
        Some(summary) => match unsigned_of(field(summary, "case_count"@)) {
            Some(n) => n,
            None => 0,
        },
        None => 0,
    }
}

pub fn report_case_count(report: &Json) -> (r: u64)
    ensures
        r == case_count_of(*report),
{
    match report.get("summary") {
        Some(summary) => match summary.get("case_count") {
            Some(v) => match v.as_u64() {
                Some(n) => n,
                None => 0,
            },
            None => 0,
        },
        None => 0,
    }
}

/// Report `a` is listed before report `b`: it was modified later, or at the same time and
/// found earlier.
pub open spec fn newer_first(modified: Seq<u128>, a: int, b: int) -> bool {
    modified[a] > modified[b] || (modified[a] == modified[b] && a < b)
}

/// The order in which reports modified at `modified_ms` are listed: positions, each once,
/// the most recently modified first.
pub fn order_reports_newest_first(modified_ms: &[u128]) -> (r: Vec<usize>)
    ensures
        r@.len() == modified_ms.len(),
        forall|i: int| 0 <= i < r@.len() ==> r@[i] < modified_ms.len(),
        forall|m: usize| m < modified_ms.len() ==> r@.contains(m),
        forall|i: int, j: int| 0 <= i < j < r@.len() ==> newer_first(modified_ms@, r@[i] as int, r@[j] as int),
{
    let mut order: Vec<usize> = Vec::new();
    let mut k: usize = 0;
    while k < modified_ms.len()
        invariant
            k <= modified_ms.len(),
            order@.len() == k,
            forall|i: int| 0 <= i < order@.len() ==> order@[i] < k,
            forall|m: usize| m < k ==> order@.contains(m),
            forall|i: int, j: int| 0 <= i < j < order@.len() ==> newer_first(modified_ms@, order@[i] as int, order@[j] as int),
        decreases modified_ms.len() - k,
    {
        let ghost before = order@;
        let mut p: usize = 0;
        while p < order.len()
            invariant
                p <= order.len(),
                order@ == before,
                k < modified_ms.len(),
                forall|i: int| 0 <= i < before.len() ==> before[i] < k,
                forall|i: int| 0 <= i < p ==> newer_first(modified_ms@, before[i] as int, k as int),
            ensures
                p <= order.len(),
                order@ == before,
                forall|i: int| 0 <= i < p ==> newer_first(modified_ms@, before[i] as int, k as int),
                p < order.len() ==> !newer_first(modified_ms@, before[p as int] as int, k as int),
            decreases order.len() - p,
        {
            let q = order[p];
            if !(modified_ms[q] > modified_ms[k] || (modified_ms[q] == modified_ms[k] && q < k)) {
                break;
            }
            p += 1;
        }
        order.insert(p, k);
        proof {
            let after = order@;
            assert(after =~= before.insert(p as int, k));
            assert forall|j: int| p <= j < before.len() implies newer_first(modified_ms@, k as int, before[j] as int) by {
                assert(!newer_first(modified_ms@, before[p as int] as int, k as int));
                assert(before[p as int] < k);
                assert(newer_first(modified_ms@, k as int, before[p as int] as int));
                if j > p {
                    assert(newer_first(modified_ms@, before[p as int] as int, before[j] as int));
                }
            }
            assert forall|i: int, j: int| 0 <= i < j < after.len() implies newer_first(modified_ms@, after[i] as int, after[j] as int) by {
                if j < p {
                    assert(after[i] == before[i] && after[j] == before[j]);
                } else if j == p {
                    assert(after[i] == before[i]);
                } else if i < p {
                    assert(after[i] == before[i] && after[j] == before[j - 1]);
                } else if i == p {
                    assert(after[j] == before[j - 1]);
                } else {
                    assert(after[i] == before[i - 1] && after[j] == before[j - 1]);
                }
            }
            assert forall|m: usize| m < k + 1 implies after.contains(m) by {
                if m < k {
                    assert(before.contains(m));
                    let q = choose|q: int| 0 <= q < before.len() && before[q] == m;
                    if q < p {
                        assert(after[q] == m);
                    } else {
                        assert(after[q + 1] == m);
                    }
                } else {
                    assert(after[p as int] == k);
                }
            }
        }
        k += 1;
    }
    order
}

/// The prefix of the report folders of a mode and profile: "{mode}-{profile}-".
pub open spec fn report_prefix(mode: Seq<char>, profile: Seq<char>) -> Seq<char> {
    mode + "-"@ + profile + "-"@
}

/// Whether report `i` belongs to the mode and profile and no report of them found after it
/// was modified at the same time or later, nor any found before it later.
pub open spec fn is_latest(names: Seq<Seq<char>>, modified: Seq<u128>, prefix: Seq<char>, i: int) -> bool {
    &&& 0 <= i < names.len()
    &&& starts_with(names[i], prefix)
    &&& forall|j: int| 0 <= j < names.len() && starts_with(names[j], prefix) ==> (
        if j < i { modified[j] <= modified[i] } else if j > i { modified[j] < modified[i] } else { true })
}

pub open spec fn report_names(reports: Seq<(String, u128)>) -> Seq<Seq<char>> {
    reports.map_values(|r: (String, u128)| r.0@)
}

pub open spec fn report_times(reports: Seq<(String, u128)>) -> Seq<u128> {
    reports.map_values(|r: (String, u128)| r.1)
}

/// The latest report folder of a mode and profile among report folders, each given by its
/// name and the time it was modified: the most recently modified, and of several modified at
/// the same time the last found.
pub fn latest_report_index(reports: &[(String, u128)], mode: &str, profile: &str) -> (r: Option<usize>)
    ensures
        match r {
            Some(i) => is_latest(report_names(reports@), report_times(reports@), report_prefix(mode@, profile@), i as int),
            None => forall|j: int| 0 <= j < reports.len() ==> !starts_with(#[trigger] report_names(reports@)[j], report_prefix(mode@, profile@)),
        },
{
    let mut prefix = to_chars(mode);
    append_chars(&mut prefix, &to_chars("-"));
    append_chars(&mut prefix, &to_chars(profile));
    append_chars(&mut prefix, &to_chars("-"));
    let ghost p = report_prefix(mode@, profile@);
    assert(prefix@ =~= p);
    let ghost nv = report_names(reports@);
    let ghost mv = report_times(reports@);
    let mut best: Option<usize> = None;
    let mut k: usize = 0;
    while k < reports.len()
        invariant
            k <= reports.len(),
            nv == report_names(reports@),
            mv == report_times(reports@),
            prefix@ == p,
            match best {
                Some(i) => i < k && starts_with(nv[i as int], p) && forall|j: int| 0 <= j < k && starts_with(nv[j], p) ==> (
                    if j < i { mv[j] <= mv[i as int] } else if j > i { mv[j] < mv[i as int] } else { true }),
                None => forall|j: int| 0 <= j < k ==> !starts_with(#[trigger] nv[j], p),
            },
        decreases reports.len() - k,
    {
        if starts_with_chars(&to_chars(reports[k].0.as_str()), &prefix) {
            let take = match best {
                Some(i) => reports[k].1 >= reports[i].1,
                None => true,
            };
            if take {
                best = Some(k);
            }
        }
        k += 1;
    }
    best
}


/// The non-empty pieces of a path other than ".", in order.
pub open spec fn named_pieces(pieces: Seq<Seq<char>>) -> Seq<Seq<char>>
    decreases pieces.len(),
{
    if pieces.len() == 0 {
        Seq::empty()
    } else {
        let init = named_pieces(pieces.drop_last());
        if pieces.last().len() > 0 && pieces.last() != "."@ {
            init.push(pieces.last())
        } else {
            init
        }
    }
}

/// The components of a canonical path, as `Path::components` gives them: the root for a
/// leading '/', then the names between separators.
pub open spec fn path_components(p: Seq<char>) -> Seq<Seq<char>> {
    (if p.len() > 0 && p[0] == '/' { seq!["/"@] } else { Seq::empty() }) + named_pieces(split_on(p, '/'))
}

/// Whether the canonical path `p` lies under the canonical path `base`, component by
/// component, as `Path::starts_with` decides.
pub open spec fn path_under(p: Seq<char>, base: Seq<char>) -> bool {
    path_components(base).len() <= path_components(p).len()
        && path_components(p).take(path_components(base).len() as int) == path_components(base)
}

fn path_components_exec(p: &str) -> (r: Vec<Vec<char>>)
    ensures
        r@.map_values(|c: Vec<char>| c@) == path_components(p@),
{
    let chars = to_chars(p);
    let pieces = split_chars(&chars, '/');
    let ghost pv = pieces@.map_values(|c: Vec<char>| c@);
    let mut out: Vec<Vec<char>> = Vec::new();
    if chars.len() > 0 && chars[0] == '/' {
        out.push(to_chars("/"));
    }
    let ghost head = out@.map_values(|c: Vec<char>| c@);
    assert(head =~= (if p@.len() > 0 && p@[0] == '/' { seq!["/"@] } else { Seq::<Seq<char>>::empty() }));
    let dot = to_chars(".");
    let mut k: usize = 0;
    while k < pieces.len()
        invariant
            k <= pieces.len(),
            pv == pieces@.map_values(|c: Vec<char>| c@),
            pv == split_on(p@, '/'),
            dot@ == "."@,
            out@.map_values(|c: Vec<char>| c@) == head + named_pieces(pv.take(k as int)),
        decreases pieces.len() - k,
    {
        assert(pv.take(k + 1).drop_last() =~= pv.take(k as int));
        assert(pv.take(k + 1).last() == pieces@[k as int]@);
        if pieces[k].len() > 0 && !chars_eq(&pieces[k], &dot) {
            let ghost before = out@.map_values(|c: Vec<char>| c@);
            let mut copy: Vec<char> = Vec::new();
            append_chars(&mut copy, &pieces[k]);
            out.push(copy);
            assert(out@.map_values(|c: Vec<char>| c@) =~= before.push(pieces@[k as int]@));
            assert(head + named_pieces(pv.take(k + 1)) =~= (head + named_pieces(pv.take(k as int))).push(pieces@[k as int]@));
        }
        k += 1;
    }
    assert(pv.take(k as int) =~= pv);
    out
}

/// Allows reading the report at `requested` only when it lies under `report_root`; both are
/// canonical paths.
pub fn check_report_path(report_root: &str, requested: &str) -> (r: Result<(), String>)
    ensures
        match r {
            Ok(()) => path_under(requested@, report_root@),
            Err(e) => !path_under(requested@, report_root@) && e@ == "report path must stay under target/retrieval-regression"@,
        },
{
    let base = path_components_exec(report_root);
    let path = path_components_exec(requested);
    let ghost bv = base@.map_values(|c: Vec<char>| c@);
    let ghost qv = path@.map_values(|c: Vec<char>| c@);
    let refuse = from_chars(&to_chars("report path must stay under target/retrieval-regression"));
    if base.len() > path.len() {
        return Err(refuse);
    }
    let mut k: usize = 0;
    while k < base.len()
        invariant
            k <= base.len() <= path.len(),
            bv == base@.map_values(|c: Vec<char>| c@),
            qv == path@.map_values(|c: Vec<char>| c@),
            bv == path_components(report_root@),
            qv == path_components(requested@),
            refuse@ == "report path must stay under target/retrieval-regression"@,
            forall|i: int| 0 <= i < k ==> qv[i] == bv[i],
        decreases base.len() - k,
    {
        if !chars_eq(&base[k], &path[k]) {
            assert(qv.take(bv.len() as int)[k as int] != bv[k as int]);
            assert(qv.take(bv.len() as int) != bv);
            assert(!path_under(requested@, report_root@));
            return Err(refuse);
        }
        k += 1;
    }
    assert(qv.take(bv.len() as int) =~= bv);
    Ok(())
}

} // verus!
