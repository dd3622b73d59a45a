//! The models a provider offers: model files found on disk merged with those a service
//! lists, into one sorted list without repeats; and whether a configured model is among them.
use crate::text::{contains, contains_chars, strings_view, to_chars, trim, trim_chars, chars_eq, append_chars};
use vstd::prelude::*;

verus! {

/// Text order: by the first differing character, a proper prefix first.
pub open spec fn text_lt(a: Seq<char>, b: Seq<char>) -> bool
    decreases a.len(),
{
    if b.len() == 0 {
        false
    } else if a.len() == 0 {
        true
    } else if a[0] != b[0] {
        a[0] < b[0]
    } else {
        text_lt(a.drop_first(), b.drop_first())
    }
}

pub proof fn lemma_text_lt_irreflexive(a: Seq<char>)
    ensures
        !text_lt(a, a),
    decreases a.len(),
{
    if a.len() > 0 {
        lemma_text_lt_irreflexive(a.drop_first());
    }
}

pub proof fn lemma_text_lt_transitive(a: Seq<char>, b: Seq<char>, c: Seq<char>)
    requires
        text_lt(a, b),
        text_lt(b, c),
    ensures
        text_lt(a, c),
    decreases a.len(),
{
    if a.len() > 0 && b.len() > 0 && c.len() > 0 {
        if a[0] == b[0] && b[0] == c[0] {
            lemma_text_lt_transitive(a.drop_first(), b.drop_first(), c.drop_first());
        }
    }
}

pub proof fn lemma_text_lt_total(a: Seq<char>, b: Seq<char>)
    requires
        a != b,
    ensures
        text_lt(a, b) || text_lt(b, a),
    decreases a.len(),
{
    if a.len() > 0 && b.len() > 0 && a[0] == b[0] {
        if a.drop_first() == b.drop_first() {
            assert(a =~= seq![a[0]] + a.drop_first());
            assert(b =~= seq![b[0]] + b.drop_first());
        }
        lemma_text_lt_total(a.drop_first(), b.drop_first());
    } else if a.len() == 0 && b.len() == 0 {
        assert(a =~= b);
    } else if a.len() > 0 && b.len() > 0 {
        assert(a[0] != b[0]);
    }
}

/// Whether `a` comes before `b` in text order.
pub fn text_less(a: &[char], b: &[char]) -> (r: bool)
    ensures
        r == text_lt(a@, b@),
{
    let mut i: usize = 0;
    assert(a@.skip(0) =~= a@);
    assert(b@.skip(0) =~= b@);
    while i < a.len() && i < b.len()
        invariant
            i <= a.len(),
            i <= b.len(),
            text_lt(a@, b@) == text_lt(a@.skip(i as int), b@.skip(i as int)),
        decreases a.len() - i,
    {
        assert(a@.skip(i as int).drop_first() =~= a@.skip(i + 1));
        assert(b@.skip(i as int).drop_first() =~= b@.skip(i + 1));
        assert(a@.skip(i as int)[0] == a@[i as int]);
        assert(b@.skip(i as int)[0] == b@[i as int]);
        if a[i] != b[i] {
            return a[i] < b[i];
        }
        i += 1;
    }
    i < b.len()
}

/// Strictly increasing in text order: sorted, with no name twice.
pub open spec fn strictly_sorted(s: Seq<Seq<char>>) -> bool {
    forall|i: int, j: int| 0 <= i < j < s.len() ==> text_lt(s[i], s[j])
}

/// The models a provider offers.
pub struct ProviderModelsDto {
    pub from_folder: Vec<String>,
    pub from_service: Vec<String>,
    pub merged: Vec<String>,
}

/// Pushing `x` adds exactly `x` to what a sequence contains.
proof fn lemma_push_contains(s: Seq<Seq<char>>, x: Seq<char>)
    ensures
        forall|t: Seq<char>| s.push(x).contains(t) <==> (s.contains(t) || t == x),
{
    assert forall|t: Seq<char>| s.push(x).contains(t) <==> (s.contains(t) || t == x) by {
        if s.push(x).contains(t) {
            let k = choose|k: int| 0 <= k < s.push(x).len() && s.push(x)[k] == t;
            if k < s.len() {
                assert(s[k] == t);
            }
        }
        if s.contains(t) {
            let k = choose|k: int| 0 <= k < s.len() && s[k] == t;
            assert(s.push(x)[k] == t);
        }
        if t == x {
            assert(s.push(x)[s.len() as int] == t);
        }
    }
}

/// Inserts `name` into the strictly sorted `merged`, unless it is there already.
pub(crate) fn insert_sorted(merged: &mut Vec<String>, name: &String)
    requires
        strictly_sorted(strings_view(old(merged)@)),
    ensures
        strictly_sorted(strings_view(final(merged)@)),
        forall|t: Seq<char>| strings_view(final(merged)@).contains(t) <==> (strings_view(old(merged)@).contains(t) || t == name@),
{
    let ghost before = strings_view(merged@);
    let key = to_chars(name.as_str());
    let mut p: usize = 0;
    while p < merged.len()
        invariant
            p <= merged.len(),
            merged@ == old(merged)@,
            before == strings_view(merged@),
            key@ == name@,
            strictly_sorted(before),
            forall|i: int| 0 <= i < p ==> text_lt(before[i], name@),
        ensures
            p <= merged.len(),
            merged@ == old(merged)@,
            forall|i: int| 0 <= i < p ==> text_lt(before[i], name@),
            p < merged.len() ==> !text_lt(before[p as int], name@),
        decreases merged.len() - p,
    {
        let current = to_chars(merged[p].as_str());
        assert(current@ == before[p as int]);
        if !text_less(&current, &key) {
            break;
        }
        p += 1;
    }
    if p < merged.len() {
        let current = to_chars(merged[p].as_str());
        assert(current@ == before[p as int]);
        if chars_eq(&current, &key) {
            assert(before.contains(name@)) by {
                assert(before[p as int] == name@);
            }
            return;
        }
        proof {
            lemma_text_lt_total(before[p as int], name@);
        }
    }
    proof {
        assert forall|j: int| p <= j < before.len() implies text_lt(name@, before[j]) by {
            if j > p {
                lemma_text_lt_transitive(name@, before[p as int], before[j]);
            }
        }
    }
    merged.insert(p, name.clone());
    proof {
        let after = strings_view(merged@);
        assert(after =~= before.insert(p as int, name@));
        assert forall|i: int, j: int| 0 <= i < j < after.len() implies text_lt(after[i], after[j]) by {
            if j < p {
                assert(after[i] == before[i] && after[j] == before[j]);
            } else if j == p {
                assert(after[i] == before[i]);
            } else if i < p {
                assert(after[i] == before[i] && after[j] == before[j - 1]);
            } else if i == p {
                assert(after[j] == before[j - 1]);
            } else {
                assert(after[i] == before[i - 1] && after[j] == before[j - 1]);
            }
        }
        assert forall|t: Seq<char>| after.contains(t) <==> (before.contains(t) || t == name@) by {
            if after.contains(t) {
                let k = choose|k: int| 0 <= k < after.len() && after[k] == t;
                if k < p {
                    assert(before[k] == t);
                } else if k > p {
                    assert(before[k - 1] == t);
                }
            }
            if before.contains(t) {
                let k = choose|k: int| 0 <= k < before.len() && before[k] == t;
                if k < p {
                    assert(after[k] == t);
                } else {
                    assert(after[k + 1] == t);
                }
            }
            if t == name@ {
                assert(after[p as int] == t);
            }
        }
    }
}

/// Merges the model files of a folder with the models of a service: both lists kept as they
/// are, and every name of either once, in text order.
pub fn merge_model_candidates(from_folder: Vec<String>, from_service: Vec<String>) -> (r: ProviderModelsDto)
    ensures
        r.from_folder@ == from_folder@,
        r.from_service@ == from_service@,
        strictly_sorted(strings_view(r.merged@)),
        forall|t: Seq<char>| strings_view(r.merged@).contains(t) <==> (strings_view(from_folder@).contains(t) || strings_view(from_service@).contains(t)),
{
    let mut merged: Vec<String> = Vec::new();
    let mut i: usize = 0;
    while i < from_folder.len()
        invariant
            i <= from_folder.len(),
            strictly_sorted(strings_view(merged@)),
            forall|t: Seq<char>| strings_view(merged@).contains(t) <==> strings_view(from_folder@.take(i as int)).contains(t),
        decreases from_folder.len() - i,
    {
        insert_sorted(&mut merged, &from_folder[i]);
        proof {
            assert(strings_view(from_folder@.take(i + 1)) =~= strings_view(from_folder@.take(i as int)).push(from_folder@[i as int]@));
            lemma_push_contains(strings_view(from_folder@.take(i as int)), from_folder@[i as int]@);
        }
        i += 1;
    }
    assert(from_folder@.take(i as int) =~= from_folder@);
    let mut j: usize = 0;
    while j < from_service.len()
        invariant
            j <= from_service.len(),
            strictly_sorted(strings_view(merged@)),
            forall|t: Seq<char>| strings_view(merged@).contains(t) <==> (strings_view(from_folder@).contains(t) || strings_view(from_service@.take(j as int)).contains(t)),
        decreases from_service.len() - j,
    {
        insert_sorted(&mut merged, &from_service[j]);
        proof {
            assert(strings_view(from_service@.take(j + 1)) =~= strings_view(from_service@.take(j as int)).push(from_service@[j as int]@));
            lemma_push_contains(strings_view(from_service@.take(j as int)), from_service@[j as int]@);
        }
        j += 1;
    }
    assert(from_service@.take(j as int) =~= from_service@);
    ProviderModelsDto { from_folder, from_service, merged }
}

/// Whether `expected` (trimmed, not blank) is among `models`, also as "name:latest" when it
/// carries no tag.
pub open spec fn model_listed(models: Seq<Seq<char>>, expected: Seq<char>) -> bool {
    let e = trim(expected);
    e.len() > 0 && (models.contains(e) || (!contains(e, seq![':']) && models.contains(e + ":latest"@)))
}

pub fn model_exists(models: &[String], expected: &str) -> (r: bool)
    ensures
        r == model_listed(strings_view(models@), expected@),
{
    let e = trim_chars(&to_chars(expected));
    if e.len() == 0 {
        return false;
    }
    let mut tagged = e.clone();
    append_chars(&mut tagged, &to_chars(":latest"));
    let colon: Vec<char> = vec![':'];
    assert(colon@ =~= seq![':']);
    let untagged = !contains_chars(&e, &colon);
    let ghost names = strings_view(models@);
    let mut k: usize = 0;
    while k < models.len()
        invariant
            k <= models.len(),
            names == strings_view(models@),
            e@ == trim(expected@),
            e@.len() > 0,
            tagged@ == e@ + ":latest"@,
            untagged == !contains(e@, seq![':']),
            forall|i: int| 0 <= i < k ==> names[i] != e@ && !(untagged && names[i] == tagged@),
        decreases models.len() - k,
    {
        let m = to_chars(models[k].as_str());
        assert(m@ == names[k as int]);
        if chars_eq(&m, &e) || (untagged && chars_eq(&m, &tagged)) {
            assert(names.contains(m@));
            return true;
        }
        k += 1;
    }
    proof {
        if names.contains(e@) {
            let i = choose|i: int| 0 <= i < names.len() && names[i] == e@;
            assert(names[i] != e@);
        }
        if untagged && names.contains(tagged@) {
            let i = choose|i: int| 0 <= i < names.len() && names[i] == tagged@;
            assert(names[i] != tagged@);
        }
    }
    false
}


/// Whether the model configured for a role is missing from `models`; with `skip_unset`, a
/// role with no model configured is not checked.
pub open spec fn role_missing(models: Seq<Seq<char>>, model: Seq<char>, skip_unset: bool) -> bool {
    !(skip_unset && model.len() == 0) && !model_listed(models, model)
}

/// The roles, among "chat", "graph" and "embed" in that order, whose model is missing.
pub open spec fn missing_roles(
    models: Seq<Seq<char>>,
    chat: Seq<char>,
    graph: Seq<char>,
    embed: Seq<char>,
    skip_unset: bool,
) -> Seq<Seq<char>> {
    (if role_missing(models, chat, skip_unset) { seq!["chat"@] } else { Seq::empty() })
        + (if role_missing(models, graph, skip_unset) { seq!["graph"@] } else { Seq::empty() })
        + (if role_missing(models, embed, skip_unset) { seq!["embed"@] } else { Seq::empty() })
}

/// The roles whose configured model the provider does not offer.
pub fn missing_model_roles(models: &[String], chat: &str, graph: &str, embed: &str, skip_unset: bool) -> (r: Vec<String>)
    ensures
        strings_view(r@) == missing_roles(strings_view(models@), chat@, graph@, embed@, skip_unset),
{
    let mut out: Vec<String> = Vec::new();
    let ghost mv = strings_view(models@);
    if !(skip_unset && to_chars(chat).len() == 0) && !model_exists(models, chat) {
        out.push("chat".to_owned());
    }
    let ghost a = strings_view(out@);
    assert(a =~= (if role_missing(mv, chat@, skip_unset) { seq!["chat"@] } else { Seq::<Seq<char>>::empty() }));
    if !(skip_unset && to_chars(graph).len() == 0) && !model_exists(models, graph) {
        out.push("graph".to_owned());
    }
    let ghost b = strings_view(out@);
    assert(b =~= a + (if role_missing(mv, graph@, skip_unset) { seq!["graph"@] } else { Seq::<Seq<char>>::empty() }));
    if !(skip_unset && to_chars(embed).len() == 0) && !model_exists(models, embed) {
        out.push("embed".to_owned());
    }
    assert(strings_view(out@) =~= b + (if role_missing(mv, embed@, skip_unset) { seq!["embed"@] } else { Seq::<Seq<char>>::empty() }));
    out
}

} // verus!
