//! Ranking settings entries against a search query with the help of the language model:
//! the prompt that is sent, and how the model's answer is turned into setting keys.
use crate::ask::{language_of, normalize_language};
use crate::text::{
    append_chars, chars_eq, contains, contains_chars, copy_range, from_chars, join, join_chars,
    lower, lower_chars, strings_view, to_chars, trim, trim_chars, lemma_trim_idem,
};
use vstd::prelude::*;

verus! {

/// A settings entry the user may be looking for: its key and its searchable text.
#[derive(Debug)]
pub struct SettingsSearchCandidate {
    pub key: String,
    pub text: String,
}

/// What `serde_json::from_str::<Vec<String>>` gives for a text: the strings of the JSON array
/// of strings that the text holds, or nothing when it holds none.
pub uninterp spec fn json_string_array(text: Seq<char>) -> Option<Seq<Seq<char>>>;

pub open spec fn opt_strings_view(v: Option<Vec<String>>) -> Option<Seq<Seq<char>>> {
    match v {
        Some(v) => Some(strings_view(v@)),
        None => None,
    }
}

/// Reads a JSON array of strings with `serde_json`.
#[verifier::external_body]
fn parse_string_array(text: &str) -> (r: Option<Vec<String>>)
    ensures
        opt_strings_view(r) == json_string_array(text@),
{
    serde_json::from_str::<Vec<String>>(text).ok()
}

/// The line that presents one candidate to the model.
pub open spec fn candidate_line(c: SettingsSearchCandidate) -> Seq<char> {
    trim(c.key@) + " => "@ + trim(c.text@)
}

pub open spec fn candidate_lines(cs: Seq<SettingsSearchCandidate>) -> Seq<Seq<char>> {
    cs.map_values(|c: SettingsSearchCandidate| candidate_line(c))
}

/// The prompt of the desktop application and of the HTTP service, in Chinese when the
/// language is Chinese and in English otherwise.
pub open spec fn rank_prompt(query: Seq<char>, cs: Seq<SettingsSearchCandidate>, lang: Option<Seq<char>>) -> Seq<char> {
    let lines = join(candidate_lines(cs), "\n"@);
    if language_of(lang) == Some("zh-CN"@) {
        "你是设置检索助手。用户搜索词："@ + trim(query) + "\n候选设置项：\n"@ + lines
            + "\n\n请仅返回 JSON 数组，内容为最匹配的 key，最多 3 个。示例：[\"basic\",\"models\"]。\n禁止输出解释文字。"@
    } else {
        "You are a settings retrieval assistant.\nQuery: "@ + trim(query) + "\nCandidates:\n"@ + lines
            + "\n\nReturn only a JSON array of best-matching keys, max 3. Example: [\"basic\",\"models\"].\nDo not output explanations."@
    }
}

/// The prompt of the MCP tool, which is always in English.
pub open spec fn tool_rank_prompt(query: Seq<char>, cs: Seq<SettingsSearchCandidate>) -> Seq<char> {
    "You are a settings retrieval assistant.\nQuery: "@ + trim(query) + "\nCandidates:\n"@ + join(candidate_lines(cs), "\n"@)
        + "\n\nReturn only a JSON array of best-matching keys, max 3. Do not output explanations."@
}

/// Nothing is asked when the query is blank or there is nothing to rank.
pub open spec fn nothing_to_rank(query: Seq<char>, cs: Seq<SettingsSearchCandidate>) -> bool {
    trim(query).len() == 0 || cs.len() == 0
}

fn candidate_lines_exec(candidates: &[SettingsSearchCandidate]) -> (r: Vec<char>)
    ensures
        r@ == join(candidate_lines(candidates@), "\n"@),
{
    let mut lines: Vec<Vec<char>> = Vec::new();
    let mut k: usize = 0;
    while k < candidates.len()
        invariant
            k <= candidates.len(),
            lines@.map_values(|p: Vec<char>| p@) == candidate_lines(candidates@.take(k as int)),
        decreases candidates.len() - k,
    {
        let mut line = trim_chars(&to_chars(candidates[k].key.as_str()));
        append_chars(&mut line, &to_chars(" => "));
        append_chars(&mut line, &trim_chars(&to_chars(candidates[k].text.as_str())));
        let ghost before = lines@.map_values(|p: Vec<char>| p@);
        lines.push(line);
        assert(lines@.map_values(|p: Vec<char>| p@) =~= before.push(candidate_line(candidates@[k as int])));
        assert(candidates@.take(k + 1) =~= candidates@.take(k as int).push(candidates@[k as int]));
        assert(candidate_lines(candidates@.take(k + 1)) =~= candidate_lines(candidates@.take(k as int)).push(
            candidate_line(candidates@[k as int]),
        ));
        k += 1;
    }
    assert(candidates@.take(k as int) =~= candidates@);
    join_chars(&lines, &to_chars("\n"))
}

/// The prompt that asks the model which of `candidates` match `query`, or `None` when there
/// is nothing to ask.
pub fn settings_rank_prompt(query: &str, candidates: &[SettingsSearchCandidate], lang: Option<&str>) -> (r: Option<
    String,
>)
    ensures
        match r {
            Some(p) => !nothing_to_rank(query@, candidates@) && p@ == rank_prompt(
                query@,
                candidates@,
                match lang {
                    Some(l) => Some(l@),
                    None => None,
                },
            ),
            None => nothing_to_rank(query@, candidates@),
        },
{
    let q = trim_chars(&to_chars(query));
    if q.len() == 0 || candidates.len() == 0 {
        return None;
    }
    let lines = candidate_lines_exec(candidates);
    let chinese = match normalize_language(lang) {
        Some(l) => chars_eq(&to_chars(l), &to_chars("zh-CN")),
        None => false,
    };
    let mut out: Vec<char> = Vec::new();
    if chinese {
        append_chars(&mut out, &to_chars("你是设置检索助手。用户搜索词："));
        append_chars(&mut out, &q);
        append_chars(&mut out, &to_chars("\n候选设置项：\n"));
        append_chars(&mut out, &lines);
        append_chars(
            &mut out,
            &to_chars("\n\n请仅返回 JSON 数组，内容为最匹配的 key，最多 3 个。示例：[\"basic\",\"models\"]。\n禁止输出解释文字。"),
        );
    } else {
        append_chars(&mut out, &to_chars("You are a settings retrieval assistant.\nQuery: "));
        append_chars(&mut out, &q);
        append_chars(&mut out, &to_chars("\nCandidates:\n"));
        append_chars(&mut out, &lines);
        append_chars(
            &mut out,
            &to_chars(
                "\n\nReturn only a JSON array of best-matching keys, max 3. Example: [\"basic\",\"models\"].\nDo not output explanations.",
            ),
        );
    }
    Some(from_chars(&out))
}

/// The prompt of the MCP tool that ranks settings, or `None` when there is nothing to ask.
pub fn tool_settings_rank_prompt(query: &str, candidates: &[SettingsSearchCandidate]) -> (r: Option<String>)
    ensures
        match r {
            Some(p) => !nothing_to_rank(query@, candidates@) && p@ == tool_rank_prompt(query@, candidates@),
            None => nothing_to_rank(query@, candidates@),
        },
{
    let q = trim_chars(&to_chars(query));
    if q.len() == 0 || candidates.len() == 0 {
        return None;
    }
    let lines = candidate_lines_exec(candidates);
    let mut out: Vec<char> = Vec::new();
    append_chars(&mut out, &to_chars("You are a settings retrieval assistant.\nQuery: "));
    append_chars(&mut out, &q);
    append_chars(&mut out, &to_chars("\nCandidates:\n"));
    append_chars(&mut out, &lines);
    append_chars(
        &mut out,
        &to_chars("\n\nReturn only a JSON array of best-matching keys, max 3. Do not output explanations."),
    );
    Some(from_chars(&out))
}

/// The trimmed keys of the candidates.
pub open spec fn candidate_keys(cs: Seq<SettingsSearchCandidate>) -> Seq<Seq<char>> {
    cs.map_values(|c: SettingsSearchCandidate| trim(c.key@))
}

/// The entries of `parsed` that, trimmed, are keys of a candidate (kept as given, in order).
pub open spec fn known_keys(parsed: Seq<Seq<char>>, keys: Seq<Seq<char>>) -> Seq<Seq<char>>
    decreases parsed.len(),
{
    if parsed.len() == 0 {
        Seq::empty()
    } else {
        let init = known_keys(parsed.drop_last(), keys);
        if keys.contains(trim(parsed.last())) {
            init.push(parsed.last())
        } else {
            init
        }
    }
}

/// The trimmed, non-blank candidate keys that the answer mentions, in any ASCII case.
pub open spec fn mentioned_keys(answer: Seq<char>, cs: Seq<SettingsSearchCandidate>) -> Seq<Seq<char>>
    decreases cs.len(),
{
    if cs.len() == 0 {
        Seq::empty()
    } else {
        let init = mentioned_keys(answer, cs.drop_last());
        let key = trim(cs.last().key@);
        if key.len() > 0 && contains(lower(answer), lower(key)) {
            init.push(key)
        } else {
            init
        }
    }
}

/// The position of the first `c` in `s`.
pub open spec fn first_index(s: Seq<char>, c: char) -> Option<int>
    decreases s.len(),
{
    if s.len() == 0 {
        None
    } else {
        match first_index(s.drop_last(), c) {
            Some(i) => Some(i),
            None => if s.last() == c { Some(s.len() - 1) } else { None },
        }
    }
}

/// The position of the last `c` in `s`.
pub open spec fn last_index(s: Seq<char>, c: char) -> Option<int>
    decreases s.len(),
{
    if s.len() == 0 {
        None
    } else if s.last() == c {
        Some(s.len() - 1)
    } else {
        last_index(s.drop_last(), c)
    }
}

/// The text from the first `[` to the last `]` of the answer, when the first comes before
/// the last.
pub open spec fn bracketed(answer: Seq<char>) -> Option<Seq<char>> {
    match (first_index(answer, '['), last_index(answer, ']')) {
        (Some(s), Some(e)) => if s < e { Some(answer.subrange(s, e + 1)) } else { None },
        _ => None,
    }
}

/// The keys chosen from the model's answer, given what the answer and its bracketed part read
/// as JSON arrays of strings: the known keys of the whole answer, else those of the
/// bracketed part, else the candidate keys the answer mentions.
pub open spec fn ranked_keys(
    answer: Seq<char>,
    whole: Option<Seq<Seq<char>>>,
    part: Option<Seq<Seq<char>>>,
    cs: Seq<SettingsSearchCandidate>,
) -> Seq<Seq<char>> {
    let keys = candidate_keys(cs);
    if whole is Some && known_keys(whole->0, keys).len() > 0 {
        known_keys(whole->0, keys)
    } else if part is Some && known_keys(part->0, keys).len() > 0 {
        known_keys(part->0, keys)
    } else {
        mentioned_keys(answer, cs)
    }
}

fn candidate_keys_exec(candidates: &[SettingsSearchCandidate]) -> (r: Vec<Vec<char>>)
    ensures
        r@.map_values(|p: Vec<char>| p@) == candidate_keys(candidates@),
{
    let mut keys: Vec<Vec<char>> = Vec::new();
    let mut k: usize = 0;
    while k < candidates.len()
        invariant
            k <= candidates.len(),
            keys@.map_values(|p: Vec<char>| p@) == candidate_keys(candidates@.take(k as int)),
        decreases candidates.len() - k,
    {
        let key = trim_chars(&to_chars(candidates[k].key.as_str()));
        let ghost before = keys@.map_values(|p: Vec<char>| p@);
        keys.push(key);
        assert(keys@.map_values(|p: Vec<char>| p@) =~= before.push(trim(candidates@[k as int].key@)));
        assert(candidate_keys(candidates@.take(k + 1)) =~= candidate_keys(candidates@.take(k as int)).push(
            trim(candidates@[k as int].key@),
        ));
        k += 1;
    }
    assert(candidates@.take(k as int) =~= candidates@);
    keys
}

fn is_known(keys: &Vec<Vec<char>>, key: &[char]) -> (r: bool)
    ensures
        r == keys@.map_values(|p: Vec<char>| p@).contains(key@),
{
    let ghost views = keys@.map_values(|p: Vec<char>| p@);
    let mut k: usize = 0;
    while k < keys.len()
        invariant
            k <= keys.len(),
            views == keys@.map_values(|p: Vec<char>| p@),
            forall|j: int| 0 <= j < k ==> views[j] != key@,
        decreases keys.len() - k,
    {
        if chars_eq(&keys[k], key) {
            assert(views[k as int] == key@);
            return true;
        }
        k += 1;
    }
    false
}

fn known_keys_exec(parsed: &Vec<String>, keys: &Vec<Vec<char>>) -> (r: Vec<String>)
    ensures
        strings_view(r@) == known_keys(strings_view(parsed@), keys@.map_values(|p: Vec<char>| p@)),
{
    let ghost views = strings_view(parsed@);
    let ghost kv = keys@.map_values(|p: Vec<char>| p@);
    let mut out: Vec<String> = Vec::new();
    let mut k: usize = 0;
    while k < parsed.len()
        invariant
            k <= parsed.len(),
            views == strings_view(parsed@),
            kv == keys@.map_values(|p: Vec<char>| p@),
            strings_view(out@) == known_keys(views.take(k as int), kv),
        decreases parsed.len() - k,
    {
        assert(views.take(k + 1).drop_last() =~= views.take(k as int));
        assert(views.take(k + 1).last() == parsed@[k as int]@);
        let item = to_chars(parsed[k].as_str());
        let trimmed = trim_chars(&item);
        if is_known(keys, &trimmed) {
            let ghost before = strings_view(out@);
            out.push(from_chars(&item));
            assert(strings_view(out@) =~= before.push(parsed@[k as int]@));
        }
        k += 1;
    }
    assert(views.take(k as int) =~= views);
    out
}

fn mentioned_keys_exec(answer: &[char], candidates: &[SettingsSearchCandidate]) -> (r: Vec<String>)
    ensures
        strings_view(r@) == mentioned_keys(answer@, candidates@),
{
    let lowered = lower_chars(answer);
    let mut out: Vec<String> = Vec::new();
    let mut k: usize = 0;
    while k < candidates.len()
        invariant
            k <= candidates.len(),
            lowered@ == lower(answer@),
            strings_view(out@) == mentioned_keys(answer@, candidates@.take(k as int)),
        decreases candidates.len() - k,
    {
        assert(candidates@.take(k + 1).drop_last() =~= candidates@.take(k as int));
        assert(candidates@.take(k + 1).last() == candidates@[k as int]);
        let key = trim_chars(&to_chars(candidates[k].key.as_str()));
        if key.len() > 0 && contains_chars(&lowered, &lower_chars(&key)) {
            let ghost before = strings_view(out@);
            out.push(from_chars(&key));
            assert(strings_view(out@) =~= before.push(key@));
        }
        k += 1;
    }
    assert(candidates@.take(k as int) =~= candidates@);
    out
}

/// The positions of the first `[` and of the last `]` in `s`.
fn bracket_positions(s: &[char]) -> (r: (Option<usize>, Option<usize>))
    ensures
        r.0 matches Some(i) ==> first_index(s@, '[') == Some(i as int),
        r.0 is None ==> first_index(s@, '[') is None,
        r.1 matches Some(i) ==> last_index(s@, ']') == Some(i as int),
        r.1 is None ==> last_index(s@, ']') is None,
        r.0 matches Some(i) ==> i < s.len(),
        r.1 matches Some(i) ==> i < s.len(),
{
    let mut open: Option<usize> = None;
    let mut close: Option<usize> = None;
    let mut k: usize = 0;
    while k < s.len()
        invariant
            k <= s.len(),
            open matches Some(i) ==> first_index(s@.take(k as int), '[') == Some(i as int),
            open is None ==> first_index(s@.take(k as int), '[') is None,
            close matches Some(i) ==> last_index(s@.take(k as int), ']') == Some(i as int),
            close is None ==> last_index(s@.take(k as int), ']') is None,
            open matches Some(i) ==> i < k,
            close matches Some(i) ==> i < k,
        decreases s.len() - k,
    {
        assert(s@.take(k + 1).drop_last() =~= s@.take(k as int));
        assert(s@.take(k + 1).last() == s@[k as int]);
        if open.is_none() && s[k] == '[' {
            open = Some(k);
        }
        if s[k] == ']' {
            close = Some(k);
        }
        k += 1;
    }
    assert(s@.take(k as int) =~= s@);
    (open, close)
}

fn bracketed_exec(answer: &[char]) -> (r: Option<Vec<char>>)
    ensures
        match r {
            Some(t) => bracketed(answer@) == Some(t@),
            None => bracketed(answer@) is None,
        },
{
    let (open, close) = bracket_positions(answer);
    match (open, close) {
        (Some(s), Some(e)) => {
            if s < e {
                Some(copy_range(answer, s, e + 1))
            } else {
                None
            }
        },
        _ => None,
    }
}

proof fn lemma_known_keys_are_keys(parsed: Seq<Seq<char>>, keys: Seq<Seq<char>>)
    ensures
        forall|i: int| 0 <= i < known_keys(parsed, keys).len() ==> keys.contains(trim(#[trigger] known_keys(parsed, keys)[i])),
    decreases parsed.len(),
{
    if parsed.len() > 0 {
        let init = known_keys(parsed.drop_last(), keys);
        lemma_known_keys_are_keys(parsed.drop_last(), keys);
        let all = known_keys(parsed, keys);
        assert forall|i: int| 0 <= i < all.len() implies keys.contains(trim(#[trigger] all[i])) by {
            if i < init.len() {
                assert(all[i] == init[i]);
            }
        }
    }
}

proof fn lemma_mentioned_keys_are_keys(answer: Seq<char>, cs: Seq<SettingsSearchCandidate>)
    ensures
        forall|i: int| 0 <= i < mentioned_keys(answer, cs).len() ==> candidate_keys(cs).contains(
            trim(#[trigger] mentioned_keys(answer, cs)[i]),
        ),
    decreases cs.len(),
{
    if cs.len() > 0 {
        let init = cs.drop_last();
        lemma_mentioned_keys_are_keys(answer, init);
        let m = mentioned_keys(answer, cs);
        assert forall|i: int| 0 <= i < m.len() implies candidate_keys(cs).contains(trim(#[trigger] m[i])) by {
            if i < mentioned_keys(answer, init).len() {
                let k = choose|j: int| 0 <= j < candidate_keys(init).len() && candidate_keys(init)[j] == trim(m[i]);
                assert(candidate_keys(cs)[k] == candidate_keys(init)[k]);
            } else {
                lemma_trim_idem(cs.last().key@);
                assert(candidate_keys(cs)[cs.len() - 1] == trim(cs.last().key@));
            }
        }
    }
}

/// Whatever the model answers, every key chosen from its answer is, trimmed, the key of one
/// of the candidates.
pub proof fn law_ranked_keys_are_candidates(
    answer: Seq<char>,
    whole: Option<Seq<Seq<char>>>,
    part: Option<Seq<Seq<char>>>,
    cs: Seq<SettingsSearchCandidate>,
)
    ensures
        forall|i: int| 0 <= i < ranked_keys(answer, whole, part, cs).len() ==> candidate_keys(cs).contains(
            trim(#[trigger] ranked_keys(answer, whole, part, cs)[i]),
        ),
{
    match whole {
        Some(w) => lemma_known_keys_are_keys(w, candidate_keys(cs)),
        None => {},
    }
    match part {
        Some(p) => lemma_known_keys_are_keys(p, candidate_keys(cs)),
        None => {},
    }
    lemma_mentioned_keys_are_keys(answer, cs);
}

/// The keys chosen from the model's `answer`, given what the answer (`whole`) and its
/// bracketed part (`part`) read as JSON arrays of strings.
pub fn choose_ranked_keys(
    answer: &str,
    whole: Option<Vec<String>>,
    part: Option<Vec<String>>,
    candidates: &[SettingsSearchCandidate],
) -> (r: Vec<String>)
    ensures
        strings_view(r@) == ranked_keys(answer@, opt_strings_view(whole), opt_strings_view(part), candidates@),
{
    let keys = candidate_keys_exec(candidates);
    match &whole {
        Some(parsed) => {
            let matched = known_keys_exec(parsed, &keys);
            if matched.len() > 0 {
                return matched;
            }
        },
        None => {},
    }
    match &part {
        Some(parsed) => {
            let matched = known_keys_exec(parsed, &keys);
            if matched.len() > 0 {
                return matched;
            }
        },
        None => {},
    }
    mentioned_keys_exec(&to_chars(answer), candidates)
}

/// The keys of `candidates` that the model's `answer` names: the answer is read as a JSON
/// array of strings, failing that its part from the first `[` to the last `]`, and failing
/// both the candidate keys it mentions are taken.
pub fn pick_ranked_keys(answer: &str, candidates: &[SettingsSearchCandidate]) -> (r: Vec<String>)
    ensures
        strings_view(r@) == ranked_keys(
            answer@,
            json_string_array(answer@),
            match bracketed(answer@) {
                Some(t) => json_string_array(t),
                None => None,
            },
            candidates@,
        ),
{
    let whole = parse_string_array(answer);
    let part = match bracketed_exec(&to_chars(answer)) {
        Some(t) => {
            let text = from_chars(&t);
            parse_string_array(text.as_str())
        },
        None => None,
    };
    choose_ranked_keys(answer, whole, part, candidates)
}

/// The keys the MCP tool returns: the answer read as a JSON array of strings, or none.
pub fn tool_ranked_keys(answer: &str) -> (r: Vec<String>)
    ensures
        match json_string_array(answer@) {
            Some(keys) => strings_view(r@) == keys,
            None => r@.len() == 0,
        },
{
    match parse_string_array(answer) {
        Some(keys) => keys,
        None => Vec::new(),
    }
}

} // verus!
