//! The watched folder: which folder the settings and the environment name, and the check on
//! a folder the user chooses.
use crate::text::{from_chars, to_chars, trim, trim_chars};
use crate::text::{opt_str_text};
use vstd::prelude::*;

verus! {

/// A text trimmed, when it is not blank.
pub open spec fn nonblank(v: Option<Seq<char>>) -> Option<Seq<char>> {
    match v {
        Some(t) => if trim(t).len() > 0 { Some(trim(t)) } else { None },
        None => None,
    }
}

fn nonblank_exec(v: Option<&str>) -> (r: Option<String>)
    ensures
        match r {
            Some(t) => nonblank(opt_str_text(v)) == Some(t@),
            None => nonblank(opt_str_text(v)) is None,
        },
{
    match v {
        Some(s) => {
            let t = trim_chars(&to_chars(s));
            if t.len() > 0 {
                Some(from_chars(&t))
            } else {
                None
            }
        },
        None => None,
    }
}

/// The watched folder the settings name, trimmed, else the one MEMORI_WATCH_ROOT names;
/// `None` when neither names one, and the current folder is watched.
pub fn watch_root_choice(stored: Option<&str>, env_value: Option<&str>) -> (r: Option<String>)
    ensures
        match r {
            Some(p) => p@ == match nonblank(opt_str_text(stored)) {
                Some(s) => s,
                None => nonblank(opt_str_text(env_value))->0,
            } && (nonblank(opt_str_text(stored)) is Some || nonblank(opt_str_text(env_value)) is Some),
            None => nonblank(opt_str_text(stored)) is None && nonblank(opt_str_text(env_value)) is None,
        },
{
    match nonblank_exec(stored) {
        Some(p) => Some(p),
        None => nonblank_exec(env_value),
    }
}

/// The folder the user chose, trimmed; refused when blank.
pub fn watch_root_input(path: &str) -> (r: Result<String, String>)
    ensures
        match r {
            Ok(p) => trim(path@).len() > 0 && p@ == trim(path@),
            Err(e) => trim(path@).len() == 0 && e@ == "目录路径为空，无法保存。"@,
        },
{
    let t = trim_chars(&to_chars(path));
    if t.len() == 0 {
        Err(from_chars(&to_chars("目录路径为空，无法保存。")))
    } else {
        Ok(from_chars(&t))
    }
}

} // verus!
