//! Log records of the desktop application: a JSON log line becomes an entry with a readable
//! message and a category (MCP traffic or the rest of the system), and the newest entries
//! are picked for display.
use crate::json::{field, member, number_text, text_of, unsigned_of, Json};
use crate::text::{
    append_chars, chars_eq, contains, contains_chars, from_chars, join, lower, lower_chars, str_eq, to_chars, trim,
    trim_chars, upper, upper_chars,
};
use crate::text::{opt_text};
use vstd::prelude::*;

verus! {

/// One displayed log record.
#[derive(Debug)]
pub struct LogEntry {
    pub timestamp: String,
    pub level: String,
    pub category: String,
    pub target: String,
    pub message: String,
    pub file: Option<String>,
    pub line: Option<u32>,
    pub thread_id: Option<String>,
}

impl LogEntry {
    /// A copy of the entry.
    pub fn clone_entry(&self) -> (r: LogEntry)
        ensures
            r == *self,
    {
        LogEntry {
            timestamp: self.timestamp.clone(),
            level: self.level.clone(),
            category: self.category.clone(),
            target: self.target.clone(),
            message: self.message.clone(),
            file: match &self.file {
                Some(f) => Some(f.clone()),
                None => None,
            },
            line: self.line,
            thread_id: match &self.thread_id {
                Some(t) => Some(t.clone()),
                None => None,
            },
        }
    }
}

// ---------------------------------------------------------------- MCP markers

/// Whether `text` mentions MCP: "mcp", "model context protocol", "jsonrpc" or "json-rpc",
/// without regard to ASCII case.
pub open spec fn mentions_mcp(text: Seq<char>) -> bool {
    let n = lower(text);
    contains(n, "mcp"@) || contains(n, "model context protocol"@) || contains(n, "jsonrpc"@) || contains(
        n,
        "json-rpc"@,
    )
}

pub fn contains_mcp_marker(text: &str) -> (r: bool)
    ensures
        r == mentions_mcp(text@),
{
    let n = lower_chars(&to_chars(text));
    contains_chars(&n, &to_chars("mcp")) || contains_chars(&n, &to_chars("model context protocol"))
        || contains_chars(&n, &to_chars("jsonrpc")) || contains_chars(&n, &to_chars("json-rpc"))
}

/// Whether a JSON value mentions MCP in some string or object key inside it.
pub open spec fn json_mentions_mcp(value: Json) -> bool
    decreases value,
{
    match value {
        Json::Str(t) => mentions_mcp(t@),
        Json::Array(items) => exists|i: int| 0 <= i < items.len() && json_mentions_mcp(#[trigger] items[i]),
        Json::Object(members) => exists|i: int|
            #![trigger members[i]]
            0 <= i < members.len() && (mentions_mcp(members[i].0@) || json_mentions_mcp(members[i].1)),
        _ => false,
    }
}

/// Whether some member of an object mentions MCP in its key or its value.
pub open spec fn members_mention_mcp(members: Seq<(String, Json)>) -> bool {
    exists|i: int| #![trigger members[i]] 0 <= i < members.len() && (mentions_mcp(members[i].0@) || json_mentions_mcp(members[i].1))
}

pub fn json_value_contains_mcp(value: &Json) -> (r: bool)
    ensures
        r == json_mentions_mcp(*value),
    decreases value,
{
    match value {
        Json::Str(t) => contains_mcp_marker(t.as_str()),
        Json::Array(items) => {
            let mut i: usize = 0;
            while i < items.len()
                invariant
                    i <= items.len(),
                    *value == Json::Array(*items),
                    json_mentions_mcp(*value) == (exists|j: int| 0 <= j < items.len() && json_mentions_mcp(#[trigger] items[j])),
                    forall|j: int| 0 <= j < i ==> !json_mentions_mcp(#[trigger] items[j]),
                decreases items.len() - i,
            {
                proof {
                    assert(decreases_to!(*value => value->Array_0));
                    assert(decreases_to!(*items => items[i as int]));
                }
                if json_value_contains_mcp(&items[i]) {
                    return true;
                }
                i += 1;
            }
            false
        },
        Json::Object(members) => {
            let mut i: usize = 0;
            while i < members.len()
                invariant
                    i <= members.len(),
                    *value == Json::Object(*members),
                    json_mentions_mcp(*value) == members_mention_mcp(members@),
                    forall|j: int| #![trigger members[j]] 0 <= j < i ==> !(mentions_mcp(members[j].0@) || json_mentions_mcp(members[j].1)),
                decreases members.len() - i,
            {
                if contains_mcp_marker(members[i].0.as_str()) {
                    return true;
                }
                proof {
                    assert(decreases_to!(*value => value->Object_0));
                    assert(decreases_to!(*members => members[i as int]));
                    assert(decreases_to!(members[i as int] => members[i as int].1));
                }
                if json_value_contains_mcp(&members[i].1) {
                    return true;
                }
                i += 1;
            }
            false
        },
        _ => false,
    }
}

/// `s` with every backslash turned into a slash.
pub open spec fn forward_slashes(s: Seq<char>) -> Seq<char> {
    s.map_values(|c: char| if c == '\\' { '/' } else { c })
}

fn forward_slashes_exec(s: &str) -> (r: Vec<char>)
    ensures
        r@ == forward_slashes(s@),
{
    let cs = to_chars(s);
    let mut r: Vec<char> = Vec::new();
    let mut k: usize = 0;
    while k < cs.len()
        invariant
            k <= cs.len(),
            cs@ == s@,
            r@ == forward_slashes(cs@.take(k as int)),
        decreases cs.len() - k,
    {
        let c = cs[k];
        r.push(if c == '\\' { '/' } else { c });
        k += 1;
        assert(r@ =~= forward_slashes(cs@.take(k as int)));
    }
    assert(cs@.take(k as int) =~= cs@);
    r
}

/// Whether a log record concerns MCP: by its target, its message, its source file (with
/// slashes unified) or one of its structured fields.
pub open spec fn is_mcp_record(
    target: Seq<char>,
    message: Seq<char>,
    file: Option<Seq<char>>,
    fields: Option<Seq<(String, Json)>>,
) -> bool {
    mentions_mcp(target) || mentions_mcp(message) || (file matches Some(f) && mentions_mcp(forward_slashes(f))) || (
    fields matches Some(m) && members_mention_mcp(m))
}

pub fn is_mcp_log(target: &str, message: &str, file: Option<&str>, fields: Option<&Vec<(String, Json)>>) -> (r: bool)
    ensures
        r == is_mcp_record(
            target@,
            message@,
            match file {
                Some(f) => Some(f@),
                None => None,
            },
            match fields {
                Some(m) => Some(m@),
                None => None,
            },
        ),
{
    if contains_mcp_marker(target) || contains_mcp_marker(message) {
        return true;
    }
    if let Some(f) = file {
        let unified = forward_slashes_exec(f);
        let n = lower_chars(&unified);
        if contains_chars(&n, &to_chars("mcp")) || contains_chars(&n, &to_chars("model context protocol"))
            || contains_chars(&n, &to_chars("jsonrpc")) || contains_chars(&n, &to_chars("json-rpc")) {
            return true;
        }
    }
    match fields {
        Some(members) => {
            let r = json_value_contains_mcp_members(members);
            r
        },
        None => false,
    }
}

fn json_value_contains_mcp_members(members: &Vec<(String, Json)>) -> (r: bool)
    ensures
        r == members_mention_mcp(members@),
{
    let mut i: usize = 0;
    while i < members.len()
        invariant
            i <= members.len(),
            forall|j: int| #![trigger members[j]] 0 <= j < i ==> !(mentions_mcp(members[j].0@) || json_mentions_mcp(members[j].1)),
        decreases members.len() - i,
    {
        if contains_mcp_marker(members[i].0.as_str()) || json_value_contains_mcp(&members[i].1) {
            return true;
        }
        i += 1;
    }
    false
}

/// "MCP" for a record that concerns MCP, "SYSTEM" otherwise.
pub fn classify_log_category(target: &str, message: &str, file: Option<&str>, fields: Option<&Vec<(String, Json)>>) -> (r:
    String)
    ensures
        r@ == if is_mcp_record(
            target@,
            message@,
            match file {
                Some(f) => Some(f@),
                None => None,
            },
            match fields {
                Some(m) => Some(m@),
                None => None,
            },
        ) {
            "MCP"@
        } else {
            "SYSTEM"@
        },
{
    if is_mcp_log(target, message, file, fields) {
        "MCP".to_owned()
    } else {
        "SYSTEM".to_owned()
    }
}


// ---------------------------------------------------------------- readable messages

/// The structured fields shown after a message, in order.
pub open spec fn detail_keys() -> Seq<Seq<char>> {
    seq![
        "role"@, "status"@, "reason"@, "error"@, "path"@, "model"@, "port"@, "endpoint"@, "pid"@, "doc_count"@,
        "chunk_count"@, "evidence_count"@, "ms"@,
    ]
}

/// The label shown for a field key.
pub open spec fn key_label(key: Seq<char>) -> Seq<char> {
    if key == "role"@ { "角色"@ }
    else if key == "status"@ { "状态"@ }
    else if key == "reason"@ { "原因"@ }
    else if key == "error"@ { "错误"@ }
    else if key == "path"@ { "路径"@ }
    else if key == "model"@ { "模型"@ }
    else if key == "port"@ { "端口"@ }
    else if key == "endpoint"@ { "地址"@ }
    else if key == "pid"@ { "进程"@ }
    else if key == "doc_count"@ { "文档数"@ }
    else if key == "chunk_count"@ { "分块数"@ }
    else if key == "evidence_count"@ { "证据数"@ }
    else if key == "ms"@ { "耗时ms"@ }
    else { key }
}

pub fn humanize_key(key: &str) -> (r: String)
    ensures
        r@ == key_label(key@),
{
    if str_eq(key, "role") { "角色".to_owned() }
    else if str_eq(key, "status") { "状态".to_owned() }
    else if str_eq(key, "reason") { "原因".to_owned() }
    else if str_eq(key, "error") { "错误".to_owned() }
    else if str_eq(key, "path") { "路径".to_owned() }
    else if str_eq(key, "model") { "模型".to_owned() }
    else if str_eq(key, "port") { "端口".to_owned() }
    else if str_eq(key, "endpoint") { "地址".to_owned() }
    else if str_eq(key, "pid") { "进程".to_owned() }
    else if str_eq(key, "doc_count") { "文档数".to_owned() }
    else if str_eq(key, "chunk_count") { "分块数".to_owned() }
    else if str_eq(key, "evidence_count") { "证据数".to_owned() }
    else if str_eq(key, "ms") { "耗时ms".to_owned() }
    else { key.to_owned() }
}

/// The readable form of a known log message; other messages are shown as they are.
pub open spec fn message_label(message: Seq<char>) -> Seq<char> {
    if message == "started local llama.cpp model"@ { "本地模型已启动"@ }
    else if message == "local model start failed"@ { "本地模型启动失败"@ }
    else if message == "stopped local llama.cpp model"@ { "本地模型已停止"@ }
    else if message == "failed to stop local llama.cpp model"@ { "停止本地模型失败"@ }
    else if message == "local llama.cpp port conflict"@ { "端口被占用，模型启动失败"@ }
    else if message == "search started"@ { "开始搜索"@ }
    else if message == "search completed"@ { "搜索完成"@ }
    else if message == "search failed"@ { "搜索失败"@ }
    else if message == "indexing embedding started"@ { "开始构建索引"@ }
    else if message == "indexing embedding finished"@ { "索引向量构建完成"@ }
    else if message == "embedding batch failed"@ { "索引向量生成失败"@ }
    else if message == "embedding batch timed out"@ { "索引向量生成超时"@ }
    else if message == "document index write failed"@ { "索引写入数据库失败"@ }
    else if message == "chunk searches completed"@ { "检索完成"@ }
    else if message == "gating blocked answer as insufficient evidence"@ { "证据不足，已拒答"@ }
    else { message }
}

pub fn humanize_message(message: &str) -> (r: String)
    ensures
        r@ == message_label(message@),
{
    if str_eq(message, "started local llama.cpp model") { "本地模型已启动".to_owned() }
    else if str_eq(message, "local model start failed") { "本地模型启动失败".to_owned() }
    else if str_eq(message, "stopped local llama.cpp model") { "本地模型已停止".to_owned() }
    else if str_eq(message, "failed to stop local llama.cpp model") { "停止本地模型失败".to_owned() }
    else if str_eq(message, "local llama.cpp port conflict") { "端口被占用，模型启动失败".to_owned() }
    else if str_eq(message, "search started") { "开始搜索".to_owned() }
    else if str_eq(message, "search completed") { "搜索完成".to_owned() }
    else if str_eq(message, "search failed") { "搜索失败".to_owned() }
    else if str_eq(message, "indexing embedding started") { "开始构建索引".to_owned() }
    else if str_eq(message, "indexing embedding finished") { "索引向量构建完成".to_owned() }
    else if str_eq(message, "embedding batch failed") { "索引向量生成失败".to_owned() }
    else if str_eq(message, "embedding batch timed out") { "索引向量生成超时".to_owned() }
    else if str_eq(message, "document index write failed") { "索引写入数据库失败".to_owned() }
    else if str_eq(message, "chunk searches completed") { "检索完成".to_owned() }
    else if str_eq(message, "gating blocked answer as insufficient evidence") { "证据不足，已拒答".to_owned() }
    else { message.to_owned() }
}

/// The text shown for a field value: a non-blank string trimmed, a number as written, a
/// boolean as "true" or "false"; nothing for other values.
pub open spec fn simple_text(value: Json) -> Option<Seq<char>> {
    match value {
        Json::Str(t) => if trim(t@).len() > 0 { Some(trim(t@)) } else { None },
        Json::Bool(b) => Some(if b { "true"@ } else { "false"@ }),
        _ => number_text(value),
    }
}

pub fn simple_json_value(value: &Json) -> (r: Option<String>)
    ensures
        match r {
            Some(t) => simple_text(*value) == Some(t@),
            None => simple_text(*value) is None,
        },
{
    match value {
        Json::Str(t) => {
            let trimmed = trim_chars(&to_chars(t.as_str()));
            if trimmed.len() > 0 {
                Some(from_chars(&trimmed))
            } else {
                None
            }
        },
        Json::Bool(b) => Some(if *b { "true".to_owned() } else { "false".to_owned() }),
        _ => value.number_text(),
    }
}

/// The shown parts of `members` for the first `keys`: "label=value" for each key whose
/// value has a simple text.
pub open spec fn detail_parts(members: Seq<(String, Json)>, keys: Seq<Seq<char>>) -> Seq<Seq<char>>
    decreases keys.len(),
{
    if keys.len() == 0 {
        Seq::empty()
    } else {
        let rest = detail_parts(members, keys.drop_last());
        match member(members, keys.last()) {
            Some(v) => match simple_text(v) {
                Some(t) => rest.push(key_label(keys.last()) + "="@ + t),
                None => rest,
            },
            None => rest,
        }
    }
}

/// The base message of the fields: their "message" text, or a generic label.
pub open spec fn base_message(members: Seq<(String, Json)>) -> Seq<char> {
    match text_of(member(members, "message"@)) {
        Some(t) => t,
        None => "日志事件"@,
    }
}

/// The readable message of a record's fields: the readable base message, then the known
/// fields that have a simple value, separated by " | ".
pub open spec fn fields_message(members: Seq<(String, Json)>) -> Seq<char> {
    join(seq![message_label(base_message(members))] + detail_parts(members, detail_keys()), " | "@)
}

fn member_of<'a>(members: &'a Vec<(String, Json)>, key: &str) -> (r: Option<&'a Json>)
    ensures
        match r {
            Some(v) => member(members@, key@) == Some(*v),
            None => member(members@, key@) is None,
        },
{
    let mut i: usize = 0;
    assert(members@.skip(0) =~= members@);
    while i < members.len()
        invariant
            i <= members.len(),
            member(members@, key@) == member(members@.skip(i as int), key@),
        decreases members.len() - i,
    {
        assert(members@.skip(i as int).drop_first() =~= members@.skip(i + 1));
        assert(members@.skip(i as int)[0] == members@[i as int]);
        if str_eq(members[i].0.as_str(), key) {
            return Some(&members[i].1);
        }
        i += 1;
    }
    None
}

pub fn format_log_message(fields: &Vec<(String, Json)>) -> (r: String)
    ensures
        r@ == fields_message(fields@),
{
    let base = match member_of(fields, "message") {
        Some(v) => match v.as_str() {
            Some(t) => t.to_owned(),
            None => "日志事件".to_owned(),
        },
        None => "日志事件".to_owned(),
    };
    let first = humanize_message(base.as_str());
    let mut out = to_chars(first.as_str());
    let keys: Vec<&str> = vec![
        "role", "status", "reason", "error", "path", "model", "port", "endpoint", "pid", "doc_count", "chunk_count",
        "evidence_count", "ms",
    ];
    assert(crate::text::strs_view(keys@) =~= detail_keys());
    let ghost head = seq![message_label(base_message(fields@))];
    assert(detail_keys().take(0) =~= Seq::<Seq<char>>::empty());
    let mut k: usize = 0;
    while k < keys.len()
        invariant
            k <= keys.len(),
            crate::text::strs_view(keys@) == detail_keys(),
            head.len() == 1,
            out@ == join(head + detail_parts(fields@, detail_keys().take(k as int)), " | "@),
        decreases keys.len() - k,
    {
        let key = keys[k];
        assert(key@ == detail_keys()[k as int]);
        assert(detail_keys().take(k + 1).drop_last() =~= detail_keys().take(k as int));
        assert(detail_keys().take(k + 1).last() == key@);
        let ghost before = detail_parts(fields@, detail_keys().take(k as int));
        match member_of(fields, key) {
            Some(v) => match simple_json_value(v) {
                Some(t) => {
                    let label = humanize_key(key);
                    append_chars(&mut out, &to_chars(" | "));
                    append_chars(&mut out, &to_chars(label.as_str()));
                    append_chars(&mut out, &to_chars("="));
                    append_chars(&mut out, &to_chars(t.as_str()));
                    let ghost part = key_label(key@) + "="@ + t@;
                    assert(head + before.push(part) =~= (head + before).push(part));
                    assert((head + before).push(part).drop_last() =~= head + before);
                    assert(join((head + before).push(part), " | "@) == join(head + before, " | "@) + " | "@ + part);
                    assert(out@ =~= join(head + before, " | "@) + " | "@ + part);
                    assert(detail_parts(fields@, detail_keys().take(k + 1)) == before.push(part));
                },
                None => {
                    assert(detail_parts(fields@, detail_keys().take(k + 1)) == before);
                },
            },
            None => {
                assert(detail_parts(fields@, detail_keys().take(k + 1)) == before);
            },
        }
        k += 1;
    }
    assert(detail_keys().take(k as int) =~= detail_keys());
    from_chars(&out)
}

// ---------------------------------------------------------------- records

/// The members of an object value.
pub open spec fn object_members(value: Option<Json>) -> Option<Seq<(String, Json)>> {
    match value {
        Some(Json::Object(m)) => Some(m@),
        _ => None,
    }
}

/// The text of a string value, or `default`.
pub open spec fn text_or(value: Option<Json>, default: Seq<char>) -> Seq<char> {
    match text_of(value) {
        Some(t) => t,
        None => default,
    }
}

/// The message of a record: the readable message of its fields when it has them, its plain
/// "message" text otherwise.
pub open spec fn record_message(value: Json) -> Seq<char> {
    match object_members(field(value, "fields"@)) {
        Some(m) => fields_message(m),
        None => text_or(field(value, "message"@), Seq::empty()),
    }
}

fn text_or_exec(value: Option<&Json>, default: &str) -> (r: String)
    ensures
        r@ == text_or(
            match value {
                Some(v) => Some(*v),
                None => None,
            },
            default@,
        ),
{
    match value {
        Some(v) => match v.as_str() {
            Some(t) => t.to_owned(),
            None => default.to_owned(),
        },
        None => default.to_owned(),
    }
}

fn optional_text_exec(value: Option<&Json>) -> (r: Option<String>)
    ensures
        opt_text(r) == text_of(
            match value {
                Some(v) => Some(*v),
                None => None,
            },
        ),
{
    match value {
        Some(v) => match v.as_str() {
            Some(t) => Some(t.to_owned()),
            None => None,
        },
        None => None,
    }
}

/// The entry of one parsed log line. Fields the line lacks read as empty text, except the
/// level (INFO); the line number keeps its low 32 bits.
pub fn parse_log_line(value: &Json) -> (r: LogEntry)
    ensures
        r.timestamp@ == text_or(field(*value, "timestamp"@), Seq::empty()),
        r.level@ == text_or(field(*value, "level"@), "INFO"@),
        r.target@ == text_or(field(*value, "target"@), Seq::empty()),
        r.message@ == record_message(*value),
        opt_text(r.file) == text_of(field(*value, "file"@)),
        r.category@ == if is_mcp_record(
            r.target@,
            r.message@,
            text_of(field(*value, "file"@)),
            object_members(field(*value, "fields"@)),
        ) {
            "MCP"@
        } else {
            "SYSTEM"@
        },
        r.line == match unsigned_of(field(*value, "line"@)) {
            Some(n) => Some((n % 0x1_0000_0000) as u32),
            None => None,
        },
        opt_text(r.thread_id) == text_of(field(*value, "threadId"@)),
{
    proof {
        reveal_strlit("");
    }
    let fields: Option<&Vec<(String, Json)>> = match value.get("fields") {
        Some(Json::Object(m)) => Some(m),
        _ => None,
    };
    let message = match fields {
        Some(m) => format_log_message(m),
        None => text_or_exec(value.get("message"), ""),
    };
    let target = text_or_exec(value.get("target"), "");
    let file = optional_text_exec(value.get("file"));
    let category = match &file {
        Some(f) => classify_log_category(target.as_str(), message.as_str(), Some(f.as_str()), fields),
        None => classify_log_category(target.as_str(), message.as_str(), None, fields),
    };
    let line = match value.get("line") {
        Some(v) => match v.as_u64() {
            Some(n) => Some((n % 4294967296) as u32),
            None => None,
        },
        None => None,
    };
    LogEntry {
        timestamp: text_or_exec(value.get("timestamp"), ""),
        level: text_or_exec(value.get("level"), "INFO"),
        category,
        target,
        message,
        file,
        line,
        thread_id: optional_text_exec(value.get("threadId")),
    }
}


// ---------------------------------------------------------------- choosing entries to show

/// Whether an entry passes the level filter (compared in ASCII upper case).
pub open spec fn level_passes(entry: LogEntry, filter: Option<Seq<char>>) -> bool {
    match filter {
        Some(f) => upper(entry.level@) == upper(f),
        None => true,
    }
}

/// The entries that pass the level filter, in order.
pub open spec fn passing(entries: Seq<LogEntry>, filter: Option<Seq<char>>) -> Seq<LogEntry>
    decreases entries.len(),
{
    if entries.len() == 0 {
        Seq::empty()
    } else {
        let rest = passing(entries.drop_last(), filter);
        if level_passes(entries.last(), filter) {
            rest.push(entries.last())
        } else {
            rest
        }
    }
}

/// How many entries are shown: the limit (500 when none is given), and at least one.
pub open spec fn shown_count(limit: Option<usize>) -> nat {
    let max = match limit {
        Some(m) => m as nat,
        None => 500,
    };
    if max == 0 { 1 } else { max }
}

/// The entries shown from `newest_first`: the newest ones that pass the level filter, up to
/// the shown count, oldest first.
pub open spec fn shown_entries(newest_first: Seq<LogEntry>, limit: Option<usize>, filter: Option<Seq<char>>) -> Seq<LogEntry> {
    let all = passing(newest_first, filter);
    let n = if all.len() < shown_count(limit) { all.len() } else { shown_count(limit) };
    all.take(n as int).reverse()
}

/// Passing entries of a prefix are a prefix of the passing entries.
proof fn lemma_passing_prefix(s: Seq<LogEntry>, i: int, filter: Option<Seq<char>>)
    requires
        0 <= i <= s.len(),
    ensures
        passing(s.take(i), filter).len() <= passing(s, filter).len(),
        passing(s.take(i), filter) == passing(s, filter).take(passing(s.take(i), filter).len() as int),
    decreases s.len() - i,
{
    if i < s.len() {
        lemma_passing_prefix(s, i + 1, filter);
        assert(s.take(i + 1).drop_last() =~= s.take(i));
        assert(s.take(i + 1).last() == s[i]);
        let a = passing(s.take(i), filter);
        let b = passing(s.take(i + 1), filter);
        if level_passes(s[i], filter) {
            assert(b == a.push(s[i]));
            assert(a =~= b.take(a.len() as int));
        }
    } else {
        assert(s.take(i) =~= s);
    }
}

/// The entries to show, out of the parsed entries of the log files, newest first: those
/// whose level matches `level_filter` (without regard to ASCII case), at most `limit` of
/// them (500 by default, and at least one), returned oldest first.
pub fn select_log_entries(newest_first: &Vec<LogEntry>, limit: Option<usize>, level_filter: Option<&str>) -> (r: Vec<
    LogEntry,
>)
    ensures
        r@ == shown_entries(
            newest_first@,
            limit,
            match level_filter {
                Some(f) => Some(f@),
                None => None,
            },
        ),
{
    let ghost filter = match level_filter {
        Some(f) => Some(f@),
        None => None,
    };
    let max: usize = match limit {
        Some(m) => m,
        None => 500,
    };
    let wanted: Option<Vec<char>> = match level_filter {
        Some(f) => Some(upper_chars(&to_chars(f))),
        None => None,
    };
    let mut taken: Vec<LogEntry> = Vec::new();
    let mut i: usize = 0;
    proof {
        lemma_passing_prefix(newest_first@, 0, filter);
        if newest_first.len() == 0 {
            assert(newest_first@.take(0) =~= newest_first@);
        }
    }
    while i < newest_first.len()
        invariant_except_break
            i <= newest_first.len(),
            taken@ == passing(newest_first@.take(i as int), filter),
            taken@ == passing(newest_first@, filter).take(taken.len() as int),
            taken.len() <= passing(newest_first@, filter).len(),
            i == newest_first.len() ==> taken@ == passing(newest_first@, filter),
            taken.len() < shown_count(limit),
        invariant
            max as nat == match limit {
                Some(m) => m as nat,
                None => 500nat,
            },
            match wanted {
                Some(w) => filter matches Some(f) && w@ == upper(f),
                None => filter is None,
            },
        ensures
            taken@ == passing(newest_first@, filter).take(taken.len() as int),
            taken.len() <= passing(newest_first@, filter).len(),
            taken.len() == shown_count(limit) || taken@ == passing(newest_first@, filter),
            taken.len() <= shown_count(limit),
        decreases newest_first.len() - i,
    {
        let entry = &newest_first[i];
        assert(newest_first@.take(i + 1).drop_last() =~= newest_first@.take(i as int));
        assert(newest_first@.take(i + 1).last() == *entry);
        let passes = match &wanted {
            Some(w) => chars_eq(&upper_chars(&to_chars(entry.level.as_str())), w),
            None => true,
        };
        i += 1;
        proof {
            lemma_passing_prefix(newest_first@, i as int, filter);
            if i == newest_first.len() {
                assert(newest_first@.take(i as int) =~= newest_first@);
            }
        }
        if passes {
            taken.push(entry.clone_entry());
            if taken.len() >= max {
                break;
            }
        }
    }
    let ghost all = passing(newest_first@, filter);
    let mut out: Vec<LogEntry> = Vec::new();
    let mut k: usize = taken.len();
    while k > 0
        invariant
            k <= taken.len(),
            out@ == taken@.skip(k as int).reverse(),
        decreases k,
    {
        k -= 1;
        out.push(taken[k].clone_entry());
        assert(out@ =~= taken@.skip(k as int).reverse());
    }
    assert(taken@.skip(0) =~= taken@);
    assert(taken@ =~= all.take(taken.len() as int));
    out
}


// ---------------------------------------------------------------- laws

proof fn lemma_passing_pass(entries: Seq<LogEntry>, filter: Option<Seq<char>>)
    ensures
        forall|i: int| 0 <= i < passing(entries, filter).len() ==> level_passes(#[trigger] passing(entries, filter)[i], filter),
        passing(entries, filter).len() <= entries.len(),
    decreases entries.len(),
{
    if entries.len() > 0 {
        lemma_passing_pass(entries.drop_last(), filter);
    }
}

/// Every shown entry passes the level filter, and at most the shown count of entries (the
/// limit, at least one) is shown.
pub proof fn law_shown_entries_match_filter(newest_first: Seq<LogEntry>, limit: Option<usize>, filter: Option<Seq<char>>)
    ensures
        shown_entries(newest_first, limit, filter).len() <= shown_count(limit),
        shown_entries(newest_first, limit, filter).len() <= newest_first.len(),
        forall|i: int| 0 <= i < shown_entries(newest_first, limit, filter).len() ==> level_passes(
            #[trigger] shown_entries(newest_first, limit, filter)[i],
            filter,
        ),
{
    lemma_passing_pass(newest_first, filter);
    let all = passing(newest_first, filter);
    let n = if all.len() < shown_count(limit) { all.len() } else { shown_count(limit) };
    let shown = shown_entries(newest_first, limit, filter);
    assert forall|i: int| 0 <= i < shown.len() implies level_passes(#[trigger] shown[i], filter) by {
        assert(shown[i] == all.take(n as int)[n - 1 - i]);
        assert(all.take(n as int)[n - 1 - i] == all[n - 1 - i]);
    }
}

} // verus!
