//! Local model files: which file names are GGUF models, and the sorted list of model names a
//! folder holds.
use crate::documents::last_dot;
use crate::model_catalog::{insert_sorted, strictly_sorted};
use crate::text::{chars_eq, copy_range, from_chars, lower, lower_chars, strings_view, to_chars, trim, trim_chars};
use vstd::prelude::*;

verus! {

/// How deep below the models folder files are looked for.
pub const MODEL_SCAN_MAX_DEPTH: usize = 8;

/// What `Path::file_stem` gives for a file name: the part before its last '.', or the whole
/// name when it has no '.' or its only '.' starts it.
pub open spec fn file_stem(name: Seq<char>) -> Seq<char> {
    match last_dot(name) {
        Some(i) => if i == 0 { name } else { name.take(i) },
        None => name,
    }
}

/// What `Path::extension` gives for a file name.
pub open spec fn name_extension(name: Seq<char>) -> Option<Seq<char>> {
    match last_dot(name) {
        Some(i) => if i == 0 { None } else { Some(name.skip(i + 1)) },
        None => None,
    }
}

/// The model a file provides: the trimmed stem of a file whose extension is "gguf" in any
/// ASCII case, unless that stem is blank.
pub open spec fn gguf_model_name(name: Seq<char>) -> Option<Seq<char>> {
    match name_extension(name) {
        Some(ext) => if lower(ext) == "gguf"@ && trim(file_stem(name)).len() > 0 {
            Some(trim(file_stem(name)))
        } else {
            None
        },
        None => None,
    }
}

fn last_dot_exec(s: &[char]) -> (r: Option<usize>)
    ensures
        match r {
            Some(i) => last_dot(s@) == Some(i as int) && i < s.len(),
            None => last_dot(s@) is None,
        },
{
    let mut k: usize = s.len();
    assert(s@.take(k as int) =~= s@);
    while k > 0
        invariant
            k <= s.len(),
            last_dot(s@) == last_dot(s@.take(k as int)),
        decreases k,
    {
        assert(s@.take(k as int).drop_last() =~= s@.take(k - 1));
        if s[k - 1] == '.' {
            return Some(k - 1);
        }
        k -= 1;
    }
    None
}

/// The model name of the file called `file_name`, if it is a GGUF model.
pub fn model_name_of_file(file_name: &str) -> (r: Option<String>)
    ensures
        match r {
            Some(n) => gguf_model_name(file_name@) == Some(n@),
            None => gguf_model_name(file_name@) is None,
        },
{
    let name = to_chars(file_name);
    let dot = match last_dot_exec(&name) {
        Some(i) => i,
        None => return None,
    };
    if dot == 0 {
        return None;
    }
    let ext = copy_range(&name, dot + 1, name.len());
    assert(ext@ =~= name@.skip(dot + 1));
    if !chars_eq(&lower_chars(&ext), &to_chars("gguf")) {
        return None;
    }
    let stem = copy_range(&name, 0, dot);
    assert(stem@ =~= name@.take(dot as int));
    let trimmed = trim_chars(&stem);
    if trimmed.len() == 0 {
        return None;
    }
    Some(from_chars(&trimmed))
}

/// Whether some file of `names` provides the model `t`.
pub open spec fn provides(names: Seq<Seq<char>>, t: Seq<char>) -> bool {
    exists|i: int| 0 <= i < names.len() && gguf_model_name(#[trigger] names[i]) == Some(t)
}

/// The models that the files called `file_names` provide, sorted, each once.
pub fn local_model_names(file_names: &[String]) -> (r: Vec<String>)
    ensures
        strictly_sorted(strings_view(r@)),
        forall|t: Seq<char>| strings_view(r@).contains(t) <==> provides(strings_view(file_names@), t),
{
    let ghost names = strings_view(file_names@);
    let mut out: Vec<String> = Vec::new();
    let mut k: usize = 0;
    while k < file_names.len()
        invariant
            k <= file_names.len(),
            names == strings_view(file_names@),
            strictly_sorted(strings_view(out@)),
            forall|t: Seq<char>| strings_view(out@).contains(t) <==> provides(names.take(k as int), t),
        decreases file_names.len() - k,
    {
        let ghost before = strings_view(out@);
        let found = model_name_of_file(file_names[k].as_str());
        proof {
            assert forall|t: Seq<char>| provides(names.take(k + 1), t) <==> (provides(names.take(k as int), t)
                || gguf_model_name(names[k as int]) == Some(t)) by {
                if provides(names.take(k + 1), t) {
                    let i = choose|i: int| 0 <= i < names.take(k + 1).len() && gguf_model_name(#[trigger] names.take(k + 1)[i]) == Some(t);
                    if i < k {
                        assert(names.take(k as int)[i] == names.take(k + 1)[i]);
                    }
                }
                if provides(names.take(k as int), t) {
                    let i = choose|i: int| 0 <= i < names.take(k as int).len() && gguf_model_name(#[trigger] names.take(k as int)[i]) == Some(t);
                    assert(names.take(k + 1)[i] == names.take(k as int)[i]);
                }
                if gguf_model_name(names[k as int]) == Some(t) {
                    assert(names.take(k + 1)[k as int] == names[k as int]);
                }
            }
        }
        match found {
            Some(n) => {
                insert_sorted(&mut out, &n);
            },
            None => {},
        }
        k += 1;
    }
    assert(names.take(k as int) =~= names);
    out
}

} // verus!
