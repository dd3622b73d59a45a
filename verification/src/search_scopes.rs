//! The search scopes of the desktop application: the folders and text files below the
//! watched folder that a search may be limited to, in the order they are listed.
use crate::ask::{is_supported_text_file, is_text_file};
use crate::model_catalog::{lemma_text_lt_total, lemma_text_lt_transitive, text_less, text_lt};
use crate::text::{chars_eq, to_chars};
use vstd::prelude::*;

verus! {

/// Most entries listed.
pub const MAX_SCOPE_ITEMS: usize = 20000;

/// Entry `a` of a folder is listed before entry `b`: folders before files, then by name, and
/// entries with the same name in the order they were read.
pub open spec fn scope_before(dirs: Seq<bool>, names: Seq<Seq<char>>, a: int, b: int) -> bool {
    ||| dirs[a] && !dirs[b]
    ||| dirs[a] == dirs[b] && (text_lt(names[a], names[b]) || (names[a] == names[b] && a < b))
}

proof fn lemma_scope_before_transitive(dirs: Seq<bool>, names: Seq<Seq<char>>, a: int, b: int, c: int)
    requires
        scope_before(dirs, names, a, b),
        scope_before(dirs, names, b, c),
    ensures
        scope_before(dirs, names, a, c),
{
    if dirs[a] == dirs[b] && dirs[b] == dirs[c] {
        if text_lt(names[a], names[b]) && text_lt(names[b], names[c]) {
            lemma_text_lt_transitive(names[a], names[b], names[c]);
        }
    }
}

proof fn lemma_scope_before_total(dirs: Seq<bool>, names: Seq<Seq<char>>, a: int, b: int)
    requires
        a != b,
    ensures
        scope_before(dirs, names, a, b) || scope_before(dirs, names, b, a),
{
    if names[a] != names[b] {
        lemma_text_lt_total(names[a], names[b]);
    }
}

pub open spec fn entry_names(entries: Seq<(String, bool)>) -> Seq<Seq<char>> {
    entries.map_values(|e: (String, bool)| e.0@)
}

pub open spec fn entry_dirs(entries: Seq<(String, bool)>) -> Seq<bool> {
    entries.map_values(|e: (String, bool)| e.1)
}

fn scope_before_exec(entries: &[(String, bool)], a: usize, b: usize) -> (r: bool)
    requires
        a < entries.len(),
        b < entries.len(),
    ensures
        r == scope_before(entry_dirs(entries@), entry_names(entries@), a as int, b as int),
{
    if entries[a].1 != entries[b].1 {
        return entries[a].1;
    }
    let na = to_chars(entries[a].0.as_str());
    let nb = to_chars(entries[b].0.as_str());
    text_less(&na, &nb) || (chars_eq(&na, &nb) && a < b)
}

/// The order in which the entries of a folder, each a name and whether it is a folder, are
/// listed: positions into the entries, each once, folders first, then by name.
pub fn order_scope_entries(entries: &[(String, bool)]) -> (r: Vec<usize>)
    ensures
        r@.len() == entries.len(),
        forall|i: int| 0 <= i < r@.len() ==> r@[i] < entries.len(),
        forall|m: usize| m < entries.len() ==> r@.contains(m),
        forall|i: int, j: int| 0 <= i < j < r@.len() ==> scope_before(entry_dirs(entries@), entry_names(entries@), r@[i] as int, r@[j] as int),
{
    let ghost nv = entry_names(entries@);
    let ghost dv = entry_dirs(entries@);
    let mut order: Vec<usize> = Vec::new();
    let mut k: usize = 0;
    while k < entries.len()
        invariant
            k <= entries.len(),
                        nv == entry_names(entries@),
            dv == entry_dirs(entries@),
            order@.len() == k,
            forall|i: int| 0 <= i < order@.len() ==> order@[i] < k,
            forall|m: usize| m < k ==> order@.contains(m),
            forall|i: int, j: int| 0 <= i < j < order@.len() ==> scope_before(dv, nv, order@[i] as int, order@[j] as int),
        decreases entries.len() - k,
    {
        let ghost before = order@;
        let mut p: usize = 0;
        while p < order.len()
            invariant
                p <= order.len(),
                order@ == before,
                k < entries.len(),
                                nv == entry_names(entries@),
                dv == entry_dirs(entries@),
                forall|i: int| 0 <= i < before.len() ==> before[i] < k,
                forall|i: int| 0 <= i < p ==> scope_before(dv, nv, before[i] as int, k as int),
            ensures
                p <= order.len(),
                order@ == before,
                forall|i: int| 0 <= i < p ==> scope_before(dv, nv, before[i] as int, k as int),
                p < order.len() ==> !scope_before(dv, nv, before[p as int] as int, k as int),
            decreases order.len() - p,
        {
            if !scope_before_exec(entries, order[p], k) {
                break;
            }
            p += 1;
        }
        proof {
            if p < before.len() {
                lemma_scope_before_total(dv, nv, before[p as int] as int, k as int);
            }
            assert forall|j: int| p <= j < before.len() implies scope_before(dv, nv, k as int, before[j] as int) by {
                if j > p {
                    lemma_scope_before_transitive(dv, nv, k as int, before[p as int] as int, before[j] as int);
                }
            }
        }
        order.insert(p, k);
        proof {
            let after = order@;
            assert(after =~= before.insert(p as int, k));
            assert forall|i: int, j: int| 0 <= i < j < after.len() implies scope_before(dv, nv, after[i] as int, after[j] as int) by {
                if j < p {
                    assert(after[i] == before[i] && after[j] == before[j]);
                } else if j == p {
                    assert(after[i] == before[i]);
                } else if i < p {
                    assert(after[i] == before[i] && after[j] == before[j - 1]);
                } else if i == p {
                    assert(after[j] == before[j - 1]);
                } else {
                    assert(after[i] == before[i - 1] && after[j] == before[j - 1]);
                }
            }
            assert forall|m: usize| m < k + 1 implies after.contains(m) by {
                if m < k {
                    assert(before.contains(m));
                    let q = choose|q: int| 0 <= q < before.len() && before[q] == m;
                    if q < p {
                        assert(after[q] == m);
                    } else {
                        assert(after[q + 1] == m);
                    }
                } else {
                    assert(after[p as int] == k);
                }
            }
        }
        k += 1;
    }
    order
}

/// How an entry is listed: a folder is listed and searched in; a Markdown or text file is
/// listed; anything else is skipped.
pub open spec fn scope_entry(is_dir: bool, is_file: bool, path: Seq<char>) -> Option<bool> {
    if is_dir {
        Some(true)
    } else if is_file && is_text_file(path) {
        Some(false)
    } else {
        None
    }
}

/// Whether an entry is listed, and whether it is a folder to search in.
pub fn scope_entry_kind(is_dir: bool, is_file: bool, path: &str) -> (r: Option<bool>)
    ensures
        r == scope_entry(is_dir, is_file, path@),
{
    if is_dir {
        Some(true)
    } else if is_file && is_supported_text_file(path) {
        Some(false)
    } else {
        None
    }
}

} // verus!
