//! Markdown-aware chunking: semantic units from the event stream, long paragraphs cut at
//! natural breaks, and text blocks packed into overlapping chunks.
use crate::chunk_spec::{
    max_chunk, overlap_size, split_size, normalize_newlines, utf8_width, byte_offset, char_index_from, char_index, byte_slice, inline_fold, normalize_inline, UnitView, OpenView, CollectState, collect_init, truncate_stack, last_open_of, has_open_container, block_kind_of, flush_block, push_open, end_heading, collect_step, collect_fold, collect_units, is_break_char, last_break, best_cut, split_pieces, split_long_paragraph, expand_one, expand_units, is_hard_boundary, separator, can_append, append_block, tail_chars, after_first, tail_overlap, overlap_room, start_text, AsmState, last_of, asm_step, asm_fold, finish, assemble_chunks, chunk_units,
};
use crate::markdown::{events_view, markdown_events, parse_markdown_events, BlockTag, EventKind, MdEvent};
use crate::text::{
    char_whitespace,
    append_chars, chars_eq, copy_range, decimal, decimal_chars, from_chars, is_whitespace, lemma_trim_idem, to_chars, trim,
    strings_view, trim_chars, trim_start, trim_start_chars,
};
use vstd::prelude::*;

verus! {

/// The semantic kind of a chunk.
#[derive(Clone, Copy, PartialEq, Eq, Debug, Structural)]
pub enum ChunkBlockKind {
    Heading,
    Paragraph,
    List,
    CodeBlock,
    Table,
    Quote,
    Html,
    ThematicBreak,
    Mixed,
}

/// Largest chunk size, in characters.
pub const MAX_CHUNK_SIZE: usize = 1000;

/// Overlap between neighbouring text chunks, in characters.
pub const OVERLAP_SIZE: usize = 200;

/// Version of the chunking contract; raised only when chunk boundaries, metadata or order
/// change incompatibly.
pub const PARSER_FORMAT_VERSION: u32 = 1;

// ---------------------------------------------------------------- line endings

/// `s` with "\r\n" and lone '\r' turned into '\n'.
pub fn normalize_newlines_chars(s: &[char]) -> (r: Vec<char>)
    ensures
        r@ == normalize_newlines(s@),
{
    let mut r: Vec<char> = Vec::new();
    let mut i: usize = 0;
    assert(s@.skip(0) =~= s@);
    while i < s.len()
        invariant
            i <= s.len(),
            normalize_newlines(s@) == r@ + normalize_newlines(s@.skip(i as int)),
        decreases s.len() - i,
    {
        let ghost rest = s@.skip(i as int);
        if s[i] == '\r' && i + 1 < s.len() && s[i + 1] == '\n' {
            assert(rest.skip(2) =~= s@.skip(i + 2));
            r.push('\n');
            i += 2;
        } else if s[i] == '\r' {
            assert(rest.skip(1) =~= s@.skip(i + 1));
            r.push('\n');
            i += 1;
        } else {
            assert(rest.skip(1) =~= s@.skip(i + 1));
            r.push(s[i]);
            i += 1;
        }
        assert(normalize_newlines(s@) =~= r@ + normalize_newlines(s@.skip(i as int)));
    }
    assert(s@.skip(i as int) =~= Seq::<char>::empty());
    assert(r@ + Seq::<char>::empty() =~= r@);
    r
}

// ---------------------------------------------------------------- byte offsets

proof fn lemma_offsets_increase(s: Seq<char>, i: int, j: int)
    requires
        0 <= i < j,
    ensures
        byte_offset(s, i) < byte_offset(s, j),
    decreases j - i,
{
    if j > i + 1 {
        lemma_offsets_increase(s, i, j - 1);
    }
}

proof fn lemma_char_index_from(s: Seq<char>, b: nat, i: int)
    requires
        0 <= i <= s.len(),
    ensures
        i <= char_index_from(s, b, i) <= s.len(),
        char_index_from(s, b, i) == s.len() || byte_offset(s, char_index_from(s, b, i)) >= b,
        forall|k: int| i <= k < char_index_from(s, b, i) ==> byte_offset(s, k) < b,
    decreases s.len() - i,
{
    if i < s.len() && byte_offset(s, i) < b {
        lemma_char_index_from(s, b, i + 1);
    }
}

pub(crate) fn utf8_width_exec(c: char) -> (w: u128)
    ensures
        w == utf8_width(c),
{
    let v = c as u32;
    if v < 0x80 {
        1
    } else if v < 0x800 {
        2
    } else if v < 0x10000 {
        3
    } else {
        4
    }
}

/// The byte offset of every character of `s`, and of its end.
fn char_offsets(s: &[char]) -> (r: Vec<u128>)
    ensures
        r.len() == s.len() + 1,
        forall|i: int| 0 <= i <= s.len() ==> r@[i] == byte_offset(s@, i),
{
    let mut r: Vec<u128> = Vec::new();
    let mut acc: u128 = 0;
    r.push(0);
    let mut i: usize = 0;
    while i < s.len()
        invariant
            i <= s.len(),
            r.len() == i + 1,
            acc == byte_offset(s@, i as int),
            acc <= 4 * i,
            forall|k: int| 0 <= k <= i ==> r@[k] == byte_offset(s@, k),
        decreases s.len() - i,
    {
        acc = acc + utf8_width_exec(s[i]);
        r.push(acc);
        i += 1;
    }
    r
}

/// The index of the first character at or after byte `b`.
fn char_index_exec(s: &[char], offsets: &Vec<u128>, b: usize) -> (r: usize)
    requires
        offsets.len() == s.len() + 1,
        forall|i: int| 0 <= i <= s.len() ==> offsets@[i] == byte_offset(s@, i),
    ensures
        r == char_index(s@, b as nat),
        r <= s.len(),
{
    let mut lo: usize = 0;
    let mut hi: usize = s.len();
    while lo < hi
        invariant
            lo <= hi <= s.len(),
            offsets.len() == s.len() + 1,
            forall|i: int| 0 <= i <= s.len() ==> offsets@[i] == byte_offset(s@, i),
            forall|k: int| 0 <= k < lo ==> byte_offset(s@, k) < b,
            hi == s.len() || byte_offset(s@, hi as int) >= b,
        decreases hi - lo,
    {
        let mid = lo + (hi - lo) / 2;
        if offsets[mid] < b as u128 {
            proof {
                assert forall|k: int| 0 <= k < mid + 1 implies byte_offset(s@, k) < b by {
                    if k < mid {
                        lemma_offsets_increase(s@, k, mid as int);
                    }
                }
            }
            lo = mid + 1;
        } else {
            hi = mid;
        }
    }
    proof {
        lemma_char_index_from(s@, b as nat, 0);
        let c = char_index(s@, b as nat);
        if c < lo {
            assert(byte_offset(s@, c) < b);
        } else if c > lo {
            assert(byte_offset(s@, lo as int) < b);
        }
    }
    lo
}

/// The characters of `md` between two byte offsets.
fn byte_slice_exec(md: &[char], offsets: &Vec<u128>, start: usize, end: usize) -> (r: Vec<char>)
    requires
        offsets.len() == md.len() + 1,
        forall|i: int| 0 <= i <= md.len() ==> offsets@[i] == byte_offset(md@, i),
    ensures
        r@ == byte_slice(md@, start as nat, end as nat),
{
    let a = char_index_exec(md, offsets, start);
    let z = char_index_exec(md, offsets, end);
    if a <= z {
        copy_range(md, a, z)
    } else {
        Vec::new()
    }
}

// ---------------------------------------------------------------- semantic units

/// A block of the source with the heading path under which it stands.
pub struct SemanticUnit {
    pub content: Vec<char>,
    pub heading_path: Vec<Vec<char>>,
    pub block_kind: ChunkBlockKind,
}

pub open spec fn path_view(p: Seq<Vec<char>>) -> Seq<Seq<char>> {
    p.map_values(|v: Vec<char>| v@)
}

impl View for SemanticUnit {
    type V = UnitView;

    open spec fn view(&self) -> UnitView {
        UnitView { content: self.content@, path: path_view(self.heading_path@), kind: self.block_kind }
    }
}

pub open spec fn units_view(us: Seq<SemanticUnit>) -> Seq<UnitView> {
    us.map_values(|u: SemanticUnit| u@)
}

struct OpenBlock {
    kind: ChunkBlockKind,
    start: usize,
    heading_path: Vec<Vec<char>>,
}

impl View for OpenBlock {
    type V = OpenView;

    closed spec fn view(&self) -> OpenView {
        OpenView { kind: self.kind, start: self.start as nat, path: path_view(self.heading_path@) }
    }
}

spec fn opens_view(os: Seq<OpenBlock>) -> Seq<OpenView> {
    os.map_values(|o: OpenBlock| o@)
}

struct Capture {
    level: usize,
    start: usize,
    text: Vec<char>,
}

struct Collector {
    units: Vec<SemanticUnit>,
    stack: Vec<Vec<char>>,
    capture: Option<Capture>,
    open: Vec<OpenBlock>,
    depth: usize,
}

impl View for Collector {
    type V = CollectState;

    closed spec fn view(&self) -> CollectState {
        CollectState {
            units: units_view(self.units@),
            stack: path_view(self.stack@),
            capture: match self.capture {
                Some(c) => Some((c.level as nat, c.start as nat, c.text@)),
                None => None,
            },
            open: opens_view(self.open@),
            depth: self.depth as nat,
        }
    }
}

fn copy_chars(v: &Vec<char>) -> (r: Vec<char>)
    ensures
        r@ == v@,
{
    let r = copy_range(v, 0, v.len());
    assert(v@.subrange(0, v@.len() as int) =~= v@);
    r
}

fn copy_path(p: &Vec<Vec<char>>) -> (r: Vec<Vec<char>>)
    ensures
        path_view(r@) == path_view(p@),
{
    let mut r: Vec<Vec<char>> = Vec::new();
    let mut k: usize = 0;
    while k < p.len()
        invariant
            k <= p.len(),
            r.len() == k,
            forall|j: int| 0 <= j < k ==> r@[j]@ == p@[j]@,
        decreases p.len() - k,
    {
        r.push(copy_chars(&p[k]));
        k += 1;
    }
    assert(path_view(r@) =~= path_view(p@));
    r
}

fn paths_eq(a: &Vec<Vec<char>>, b: &Vec<Vec<char>>) -> (r: bool)
    ensures
        r == (path_view(a@) == path_view(b@)),
{
    if a.len() != b.len() {
        assert(path_view(a@).len() != path_view(b@).len());
        return false;
    }
    let mut k: usize = 0;
    while k < a.len()
        invariant
            k <= a.len() == b.len(),
            forall|j: int| 0 <= j < k ==> a@[j]@ == b@[j]@,
        decreases a.len() - k,
    {
        if !chars_eq(&a[k], &b[k]) {
            assert(path_view(a@)[k as int] != path_view(b@)[k as int]);
            return false;
        }
        k += 1;
    }
    assert(path_view(a@) =~= path_view(b@));
    true
}

/// The words of `text` joined by single spaces.
pub fn normalize_inline_text(text: &[char]) -> (r: Vec<char>)
    ensures
        r@ == normalize_inline(text@),
{
    let mut out: Vec<char> = Vec::new();
    let mut pending = false;
    let mut k: usize = 0;
    while k < text.len()
        invariant
            k <= text.len(),
            inline_fold(text@.take(k as int)) == (out@, pending),
        decreases text.len() - k,
    {
        let c = text[k];
        proof {
            assert(text@.take(k + 1).drop_last() =~= text@.take(k as int));
        }
        if is_whitespace(c) {
            pending = out.len() > 0;
        } else {
            if pending {
                out.push(' ');
            }
            out.push(c);
            pending = false;
        }
        k += 1;
    }
    assert(text@.take(k as int) =~= text@);
    out
}

fn truncate_path(stack: &mut Vec<Vec<char>>, level: usize)
    ensures
        path_view(final(stack)@) == truncate_stack(path_view(old(stack)@), level as nat),
{
    let keep = if level >= 1 { level - 1 } else { 0 };
    let ghost old_view = path_view(stack@);
    if stack.len() > keep {
        stack.truncate(keep);
        assert(path_view(stack@) =~= old_view.take(keep as int));
    }
}

fn last_open_index(open: &Vec<OpenBlock>, kind: ChunkBlockKind) -> (r: Option<usize>)
    ensures
        match r {
            Some(i) => last_open_of(opens_view(open@), kind) == Some(i as int) && i < open.len(),
            None => last_open_of(opens_view(open@), kind) is None,
        },
{
    let mut k: usize = open.len();
    assert(open@.take(k as int) =~= open@);
    while k > 0
        invariant
            k <= open.len(),
            last_open_of(opens_view(open@), kind) == last_open_of(opens_view(open@.take(k as int)), kind),
        decreases k,
    {
        assert(opens_view(open@.take(k as int)).drop_last() =~= opens_view(open@.take(k - 1)));
        if open[k - 1].kind == kind {
            return Some(k - 1);
        }
        k -= 1;
    }
    None
}

fn has_container(open: &Vec<OpenBlock>) -> (r: bool)
    ensures
        r == has_open_container(opens_view(open@)),
{
    let mut k: usize = 0;
    while k < open.len()
        invariant
            k <= open.len(),
            forall|j: int| 0 <= j < k ==> open@[j].kind == ChunkBlockKind::Paragraph,
        decreases open.len() - k,
    {
        if open[k].kind != ChunkBlockKind::Paragraph {
            assert(opens_view(open@)[k as int].kind != ChunkBlockKind::Paragraph);
            return true;
        }
        k += 1;
    }
    false
}

fn push_open_block(c: &mut Collector, kind: ChunkBlockKind, start: usize)
    ensures
        final(c)@ == push_open(old(c)@, kind, start as nat),
{
    let path = copy_path(&c.stack);
    let ghost before = c.open@;
    c.open.push(OpenBlock { kind, start, heading_path: path });
    assert(opens_view(c.open@) =~= opens_view(before).push(OpenView { kind, start: start as nat, path: path_view(c.stack@) }));
    assert(c@ =~= push_open(old(c)@, kind, start as nat));
}

fn flush(c: &mut Collector, md: &[char], offsets: &Vec<u128>, end: usize, kind: ChunkBlockKind)
    requires
        offsets.len() == md.len() + 1,
        forall|i: int| 0 <= i <= md.len() ==> offsets@[i] == byte_offset(md@, i),
    ensures
        final(c)@ == flush_block(md@, old(c)@, end as nat, kind),
{
    match last_open_index(&c.open, kind) {
        None => {},
        Some(i) => {
            let ghost before = c.open@;
            let b = c.open.remove(i);
            assert(opens_view(c.open@) =~= opens_view(before).remove(i as int));
            let slice = byte_slice_exec(md, offsets, b.start, end);
            let content = trim_chars(&slice);
            if content.len() > 0 {
                let ghost units_before = c.units@;
                c.units.push(SemanticUnit { content, heading_path: b.heading_path, block_kind: b.kind });
                assert(units_view(c.units@) =~= units_view(units_before).push(
                    UnitView { content: content@, path: path_view(b.heading_path@), kind: b.kind },
                ));
            }
            assert(c@ =~= flush_block(md@, old(c)@, end as nat, kind));
        },
    }
}

fn end_heading_exec(c: &mut Collector, md: &[char], offsets: &Vec<u128>, e: &MdEvent)
    requires
        offsets.len() == md.len() + 1,
        forall|i: int| 0 <= i <= md.len() ==> offsets@[i] == byte_offset(md@, i),
    ensures
        final(c)@ == end_heading(md@, old(c)@, e@),
{
    let captured = c.capture.take();
    match captured {
        Some(cap) => {
            let slice = byte_slice_exec(md, offsets, cap.start, e.end);
            let source = trim_chars(&slice);
            let title = normalize_inline_text(&cap.text);
            truncate_path(&mut c.stack, cap.level);
            if title.len() > 0 {
                let ghost st = c.stack@;
                c.stack.push(title);
                assert(path_view(c.stack@) =~= path_view(st).push(title@));
            }
            if source.len() > 0 {
                let path = copy_path(&c.stack);
                let ghost units_before = c.units@;
                c.units.push(SemanticUnit { content: source, heading_path: path, block_kind: ChunkBlockKind::Heading });
                assert(units_view(c.units@) =~= units_view(units_before).push(
                    UnitView { content: source@, path: path_view(c.stack@), kind: ChunkBlockKind::Heading },
                ));
            }
            assert(c@ =~= end_heading(md@, old(c)@, e@));
        },
        None => {
            truncate_path(&mut c.stack, e.level);
            assert(c@ =~= end_heading(md@, old(c)@, e@));
        },
    }
}

fn tag_kind(tag: BlockTag) -> (k: ChunkBlockKind)
    ensures
        k == block_kind_of(tag),
{
    match tag {
        BlockTag::Heading => ChunkBlockKind::Heading,
        BlockTag::CodeBlock => ChunkBlockKind::CodeBlock,
        BlockTag::Paragraph => ChunkBlockKind::Paragraph,
        BlockTag::List => ChunkBlockKind::List,
        BlockTag::Table => ChunkBlockKind::Table,
        BlockTag::Quote => ChunkBlockKind::Quote,
        BlockTag::Html => ChunkBlockKind::Html,
        BlockTag::Other => ChunkBlockKind::Mixed,
    }
}

fn collect_step_exec(c: &mut Collector, md: &[char], offsets: &Vec<u128>, e: &MdEvent)
    requires
        offsets.len() == md.len() + 1,
        forall|i: int| 0 <= i <= md.len() ==> offsets@[i] == byte_offset(md@, i),
        old(c).depth < usize::MAX,
    ensures
        final(c)@ == collect_step(md@, old(c)@, e@),
{
    match e.kind {
        EventKind::Start => match e.tag {
            BlockTag::Heading => {
                c.capture = Some(Capture { level: e.level, start: e.start, text: Vec::new() });
                assert(c@ =~= collect_step(md@, old(c)@, e@));
            },
            BlockTag::Paragraph => {
                if c.depth > 0 || has_container(&c.open) {
                } else {
                    push_open_block(c, ChunkBlockKind::Paragraph, e.start);
                }
            },
            BlockTag::List => {
                if c.depth == 0 {
                    push_open_block(c, ChunkBlockKind::List, e.start);
                }
                c.depth = c.depth + 1;
                assert(c@ =~= collect_step(md@, old(c)@, e@));
            },
            BlockTag::Other => {},
            _ => {
                push_open_block(c, tag_kind(e.tag), e.start);
            },
        },
        EventKind::End => match e.tag {
            BlockTag::Heading => {
                end_heading_exec(c, md, offsets, e);
            },
            BlockTag::List => {
                c.depth = if c.depth > 0 { c.depth - 1 } else { 0 };
                if c.depth == 0 {
                    flush(c, md, offsets, e.end, ChunkBlockKind::List);
                }
                assert(c@ =~= collect_step(md@, old(c)@, e@));
            },
            BlockTag::Other => {},
            _ => {
                flush(c, md, offsets, e.end, tag_kind(e.tag));
            },
        },
        EventKind::Rule => {
            let slice = byte_slice_exec(md, offsets, e.start, e.end);
            let content = trim_chars(&slice);
            if content.len() > 0 {
                let path = copy_path(&c.stack);
                let ghost units_before = c.units@;
                c.units.push(SemanticUnit { content, heading_path: path, block_kind: ChunkBlockKind::ThematicBreak });
                assert(units_view(c.units@) =~= units_view(units_before).push(
                    UnitView { content: content@, path: path_view(c.stack@), kind: ChunkBlockKind::ThematicBreak },
                ));
            }
            assert(c@ =~= collect_step(md@, old(c)@, e@));
        },
        EventKind::Text => {
            let captured = c.capture.take();
            match captured {
                Some(cap) => {
                    let mut text = cap.text;
                    let extra = to_chars(&e.text);
                    append_chars(&mut text, &extra);
                    c.capture = Some(Capture { level: cap.level, start: cap.start, text });
                },
                None => {},
            }
            assert(c@ =~= collect_step(md@, old(c)@, e@));
        },
        EventKind::Break => {
            let captured = c.capture.take();
            match captured {
                Some(cap) => {
                    let mut text = cap.text;
                    text.push(' ');
                    c.capture = Some(Capture { level: cap.level, start: cap.start, text });
                },
                None => {},
            }
            assert(c@ =~= collect_step(md@, old(c)@, e@));
        },
        EventKind::Other => {},
    }
}

/// The semantic units of `md` given the Markdown events of its parse.
fn collect_semantic_units(md: &[char], events: &[MdEvent]) -> (r: Vec<SemanticUnit>)
    ensures
        units_view(r@) == collect_units(md@, events_view(events@)),
{
    let offsets = char_offsets(md);
    let mut c = Collector { units: Vec::new(), stack: Vec::new(), capture: None, open: Vec::new(), depth: 0 };
    assert(c@ =~= collect_init());
    let mut k: usize = 0;
    while k < events.len()
        invariant
            k <= events.len(),
            offsets.len() == md.len() + 1,
            forall|i: int| 0 <= i <= md.len() ==> offsets@[i] == byte_offset(md@, i),
            c@ == collect_fold(md@, events_view(events@.take(k as int))),
            c.depth <= k,
        decreases events.len() - k,
    {
        collect_step_exec(&mut c, md, &offsets, &events[k]);
        proof {
            assert(events_view(events@.take(k + 1)).drop_last() =~= events_view(events@.take(k as int)));
        }
        k += 1;
    }
    assert(events@.take(k as int) =~= events@);
    c.units
}

// ---------------------------------------------------------------- long paragraphs

fn is_break_char_exec(c: char) -> (r: bool)
    ensures
        r == is_break_char(c),
{
    c == ' ' || c == '\t' || c == ',' || c == '，' || c == '。' || c == '；' || c == ';' || c == '！'
        || c == '!' || c == '？' || c == '?' || c == '、' || c == '：' || c == ':'
}

proof fn lemma_last_break_range(text: Seq<char>, k: int)
    ensures
        last_break(text, k) matches Some(pos) ==> 1 <= pos <= k,
    decreases k,
{
    if k > 0 && !is_break_char(text[k - 1]) {
        lemma_last_break_range(text, k - 1);
    }
}

/// Where to cut `text` so that the head keeps at most `max_len` characters: the last
/// break character in reach, unless it lies in the first half.
fn find_best_cut(text: &[char], max_len: usize) -> (r: usize)
    requires
        max_len > 0,
    ensures
        r == best_cut(text@, max_len as nat),
        1 <= r <= max_len,
{
    let mut best: Option<usize> = None;
    let mut idx: usize = 0;
    while idx < text.len() && idx < max_len
        invariant
            idx <= text.len(),
            idx <= max_len,
            match best {
                Some(p) => last_break(text@, idx as int) == Some(p as int),
                None => last_break(text@, idx as int) is None,
            },
        decreases text.len() - idx,
    {
        if is_break_char_exec(text[idx]) {
            best = Some(idx + 1);
        }
        idx += 1;
    }
    proof {
        lemma_last_break_range(text@, idx as int);
    }
    match best {
        Some(pos) => if pos >= max_len / 2 { pos } else { max_len },
        None => max_len,
    }
}

/// Cuts a long paragraph into trimmed pieces of at most `max_len` characters.
fn split_long_paragraph_exec(paragraph: &[char], max_len: usize) -> (r: Vec<Vec<char>>)
    requires
        max_len > 0,
    ensures
        path_view(r@) == split_long_paragraph(paragraph@, max_len as nat),
{
    let mut result: Vec<Vec<char>> = Vec::new();
    let mut remaining = trim_chars(paragraph);
    assert(path_view(result@) + split_pieces(remaining@, max_len as nat) =~= split_long_paragraph(paragraph@, max_len as nat));
    while remaining.len() > max_len
        invariant
            max_len > 0,
            path_view(result@) + split_pieces(remaining@, max_len as nat) == split_long_paragraph(paragraph@, max_len as nat),
        decreases remaining.len(),
    {
        let cut = find_best_cut(&remaining, max_len);
        let head_raw = copy_range(&remaining, 0, cut);
        let head = trim_chars(&head_raw);
        let tail_raw = copy_range(&remaining, cut, remaining.len());
        let tail = trim_start_chars(&tail_raw);
        proof {
            assert(head_raw@ =~= remaining@.take(cut as int));
            assert(tail_raw@ =~= remaining@.skip(cut as int));
            crate::text::lemma_trim_start(tail_raw@);
        }
        let ghost before = result@;
        if head.len() > 0 {
            result.push(head);
            assert(path_view(result@) =~= path_view(before) + seq![head@]);
        } else {
            assert(path_view(result@) =~= path_view(before) + Seq::<Seq<char>>::empty());
        }
        remaining = tail;
    }
    let last = trim_chars(&remaining);
    if last.len() > 0 {
        let ghost before = result@;
        result.push(last);
        assert(path_view(result@) =~= path_view(before) + seq![last@]);
    } else {
        assert(path_view(result@) =~= path_view(result@) + Seq::<Seq<char>>::empty());
    }
    result
}

fn copy_unit(u: &SemanticUnit) -> (r: SemanticUnit)
    ensures
        r@ == u@,
{
    SemanticUnit { content: copy_chars(&u.content), heading_path: copy_path(&u.heading_path), block_kind: u.block_kind }
}

/// The units with every over-long paragraph replaced by its pieces.
fn expand_units_exec(units: &Vec<SemanticUnit>) -> (r: Vec<SemanticUnit>)
    ensures
        units_view(r@) == expand_units(units_view(units@)),
{
    let mut out: Vec<SemanticUnit> = Vec::new();
    let mut k: usize = 0;
    while k < units.len()
        invariant
            k <= units.len(),
            units_view(out@) == expand_units(units_view(units@.take(k as int))),
        decreases units.len() - k,
    {
        let u = &units[k];
        proof {
            assert(units_view(units@.take(k + 1)).drop_last() =~= units_view(units@.take(k as int)));
            assert(units_view(units@.take(k + 1)).last() == u@);
        }
        if u.block_kind == ChunkBlockKind::Paragraph && u.content.len() > MAX_CHUNK_SIZE {
            let pieces = split_long_paragraph_exec(&u.content, MAX_CHUNK_SIZE - OVERLAP_SIZE / 2);
            let ghost base = out@;
            let ghost expected = expand_one(u@);
            assert(expected =~= path_view(pieces@).map_values(
                |c: Seq<char>| UnitView { content: c, path: u@.path, kind: u@.kind },
            ));
            let mut j: usize = 0;
            while j < pieces.len()
                invariant
                    j <= pieces.len(),
                    expected.len() == pieces.len(),
                    forall|i: int| 0 <= i < pieces.len() ==> #[trigger] expected[i] == (UnitView { content: pieces@[i]@, path: u@.path, kind: u@.kind }),
                    units_view(out@) == units_view(base) + expected.take(j as int),
                decreases pieces.len() - j,
            {
                let ghost before = out@;
                out.push(SemanticUnit { content: copy_chars(&pieces[j]), heading_path: copy_path(&u.heading_path), block_kind: u.block_kind });
                j += 1;
                assert(units_view(out@) =~= units_view(base) + expected.take(j as int)) by {
                    assert(units_view(out@) =~= units_view(before).push(expected[j - 1]));
                    assert(expected.take(j as int) =~= expected.take(j - 1).push(expected[j - 1]));
                }
            }
            assert(expected.take(j as int) =~= expected);
        } else {
            let ghost before = out@;
            out.push(copy_unit(u));
            assert(units_view(out@) =~= units_view(before) + expand_one(u@));
        }
        k += 1;
    }
    assert(units@.take(k as int) =~= units@);
    out
}

// ---------------------------------------------------------------- assembly

fn is_hard_boundary_exec(kind: ChunkBlockKind) -> (r: bool)
    ensures
        r == is_hard_boundary(kind),
{
    !(kind == ChunkBlockKind::Paragraph || kind == ChunkBlockKind::Mixed)
}

fn can_append_exec(current: &[char], block: &[char], max_len: usize) -> (r: bool)
    ensures
        r == can_append(current@, block@, max_len as nat),
{
    let sep: u128 = if crate::text::is_blank_chars(current) { 0 } else { 2 };
    (current.len() as u128) + sep + (block.len() as u128) <= max_len as u128
}

fn append_block_exec(current: &mut Vec<char>, block: &[char])
    ensures
        final(current)@ == append_block(old(current)@, block@),
{
    if !crate::text::is_blank_chars(current) {
        current.push('\n');
        current.push('\n');
    }
    let t = trim_chars(block);
    append_chars(current, &t);
    assert(final(current)@ =~= append_block(old(current)@, block@));
}

fn tail_chars_exec(text: &[char], count: usize) -> (r: Vec<char>)
    ensures
        r@ == tail_chars(text@, count as nat),
{
    if text.len() <= count {
        copy_range(text, 0, text.len())
    } else {
        copy_range(text, text.len() - count, text.len())
    }
}

/// The overlap that the next text chunk repeats from `text`.
fn tail_overlap_text(text: &[char], count: usize) -> (r: Vec<char>)
    ensures
        r@ == tail_overlap(text@, count as nat),
{
    reveal(after_first);
    let t = tail_chars_exec(text, count);
    if t.len() == 0 {
        return t;
    }
    let para = vec!['\n', '\n'];
    let line = vec!['\n'];
    assert(para@ =~= separator());
    assert(line@ =~= seq!['\n']);
    let after_para = match crate::text::find_chars(&t, &para) {
        Some(i) => {
            let rest = copy_range(&t, i + 2, t.len());
            assert(rest@ =~= t@.skip(i + 2));
            trim_start_chars(&rest)
        },
        None => Vec::new(),
    };
    if after_para.len() > 0 {
        return after_para;
    }
    let after_line = match crate::text::find_chars(&t, &line) {
        Some(i) => {
            let rest = copy_range(&t, i + 1, t.len());
            assert(rest@ =~= t@.skip(i + 1));
            trim_start_chars(&rest)
        },
        None => Vec::new(),
    };
    if after_line.len() > 0 {
        return after_line;
    }
    trim_start_chars(&t)
}

fn start_text_chunk(previous: Option<&SemanticUnit>, u: &SemanticUnit) -> (r: SemanticUnit)
    ensures
        r@ == start_text(
            match previous {
                Some(p) => Some(p@),
                None => None,
            },
            u@,
        ),
{
    let body_len = trim_chars(&u.content).len();
    let room: usize = if body_len >= MAX_CHUNK_SIZE - 2 {
        0
    } else if MAX_CHUNK_SIZE - 2 - body_len < OVERLAP_SIZE {
        MAX_CHUNK_SIZE - 2 - body_len
    } else {
        OVERLAP_SIZE
    };
    assert(room == overlap_room(u@.content));
    let mut content = match previous {
        Some(p) => if paths_eq(&p.heading_path, &u.heading_path) {
            tail_overlap_text(&p.content, room)
        } else {
            Vec::new()
        },
        None => Vec::new(),
    };
    append_block_exec(&mut content, &u.content);
    SemanticUnit { content, heading_path: copy_path(&u.heading_path), block_kind: u.block_kind }
}

spec fn opt_unit_view(o: Option<SemanticUnit>) -> Option<UnitView> {
    match o {
        Some(u) => Some(u@),
        None => None,
    }
}

fn push_unit(chunks: &mut Vec<SemanticUnit>, u: SemanticUnit)
    ensures
        units_view(final(chunks)@) == units_view(old(chunks)@).push(u@),
{
    chunks.push(u);
    assert(units_view(final(chunks)@) =~= units_view(old(chunks)@).push(u@));
}

/// The chunks assembled from semantic units: structural blocks stay whole, consecutive text
/// blocks under the same heading are packed up to the size limit, and each new text chunk
/// repeats the tail of the previous one.
fn assemble(units: &Vec<SemanticUnit>) -> (r: Vec<SemanticUnit>)
    ensures
        units_view(r@) == assemble_chunks(units_view(units@)),
{
    let expanded = expand_units_exec(units);
    let mut chunks: Vec<SemanticUnit> = Vec::new();
    let mut current: Option<SemanticUnit> = None;
    let mut k: usize = 0;
    while k < expanded.len()
        invariant
            k <= expanded.len(),
            (AsmState { chunks: units_view(chunks@), current: opt_unit_view(current) })
                == asm_fold(units_view(expanded@.take(k as int))),
        decreases expanded.len() - k,
    {
        let u = &expanded[k];
        proof {
            assert(units_view(expanded@.take(k + 1)).drop_last() =~= units_view(expanded@.take(k as int)));
            assert(units_view(expanded@.take(k + 1)).last() == u@);
        }
        let ghost st = AsmState { chunks: units_view(chunks@), current: opt_unit_view(current) };
        if is_hard_boundary_exec(u.block_kind) {
            match current.take() {
                Some(o) => push_unit(&mut chunks, o),
                None => {},
            }
            push_unit(&mut chunks, copy_unit(u));
        } else {
            match current.take() {
                Some(o) => {
                    if paths_eq(&o.heading_path, &u.heading_path) && can_append_exec(&o.content, &u.content, MAX_CHUNK_SIZE) {
                        let mut merged = o;
                        append_block_exec(&mut merged.content, &u.content);
                        if merged.block_kind != u.block_kind {
                            merged.block_kind = ChunkBlockKind::Mixed;
                        }
                        current = Some(merged);
                    } else {
                        let next = start_text_chunk(Some(&o), u);
                        push_unit(&mut chunks, o);
                        current = Some(next);
                    }
                },
                None => {
                    let next = if chunks.len() > 0 {
                        start_text_chunk(Some(&chunks[chunks.len() - 1]), u)
                    } else {
                        start_text_chunk(None, u)
                    };
                    current = Some(next);
                },
            }
        }
        assert((AsmState { chunks: units_view(chunks@), current: opt_unit_view(current) }) =~= asm_step(st, u@));
        k += 1;
    }
    assert(expanded@.take(k as int) =~= expanded@);
    match current {
        Some(o) => push_unit(&mut chunks, o),
        None => {},
    }
    chunks
}

// ---------------------------------------------------------------- public interface

/// One chunk of a document.
pub struct DocumentChunk {
    /// The path of the source file, for citations.
    pub file_path: String,
    /// The chunk's text.
    pub content: String,
    /// The position of the chunk in its file, from 0.
    pub chunk_index: usize,
    /// The headings under which the chunk stands, outermost first.
    pub heading_path: Vec<String>,
    /// The semantic kind of the chunk.
    pub block_kind: ChunkBlockKind,
}

pub struct ChunkView {
    pub file_path: Seq<char>,
    pub content: Seq<char>,
    pub chunk_index: nat,
    pub heading_path: Seq<Seq<char>>,
    pub block_kind: ChunkBlockKind,
}

impl View for DocumentChunk {
    type V = ChunkView;

    open spec fn view(&self) -> ChunkView {
        ChunkView {
            file_path: self.file_path@,
            content: self.content@,
            chunk_index: self.chunk_index as nat,
            heading_path: strings_view(self.heading_path@),
            block_kind: self.block_kind,
        }
    }
}

pub open spec fn chunks_view(cs: Seq<DocumentChunk>) -> Seq<ChunkView> {
    cs.map_values(|c: DocumentChunk| c@)
}

/// The document chunks of a file: unit `i` becomes the chunk numbered `i`.
pub open spec fn document_chunks(file_path: Seq<char>, units: Seq<UnitView>) -> Seq<ChunkView> {
    Seq::new(
        units.len(),
        |i: int|
            ChunkView {
                file_path,
                content: units[i].content,
                chunk_index: i as nat,
                heading_path: units[i].path,
                block_kind: units[i].kind,
            },
    )
}

/// Placeholder kept for application state that holds a parser handle.
#[derive(Debug, Clone, Copy)]
pub struct ParserStub;

impl ParserStub {
    pub fn new() -> (r: ParserStub)
        ensures
            r == ParserStub,
    {
        ParserStub
    }
}

/// Errors of the chunker.
#[derive(Debug, Clone, Copy, PartialEq, Eq, Structural)]
pub enum ParserError {
    /// The chunk size limit does not exceed the overlap.
    InvalidChunkConfig { max: usize, overlap: usize },
}

impl ParserError {
    /// The error's message, with the offending limits.
    pub fn message(&self) -> (r: String)
        ensures
            match *self {
                ParserError::InvalidChunkConfig { max, overlap } => r@ == "非法分块配置：MAX_CHUNK_SIZE("@ + decimal(
                    max as nat,
                ) + ") 必须大于 OVERLAP_SIZE("@ + decimal(overlap as nat) + ")"@,
            },
    {
        match self {
            ParserError::InvalidChunkConfig { max, overlap } => {
                let mut out = to_chars("非法分块配置：MAX_CHUNK_SIZE(");
                append_chars(&mut out, &decimal_chars(*max as u64));
                append_chars(&mut out, &to_chars(") 必须大于 OVERLAP_SIZE("));
                append_chars(&mut out, &decimal_chars(*overlap as u64));
                append_chars(&mut out, &to_chars(")"));
                from_chars(&out)
            },
        }
    }
}

fn heading_strings(p: &Vec<Vec<char>>) -> (r: Vec<String>)
    ensures
        strings_view(r@) == path_view(p@),
{
    let mut r: Vec<String> = Vec::new();
    let mut k: usize = 0;
    while k < p.len()
        invariant
            k <= p.len(),
            r.len() == k,
            forall|j: int| 0 <= j < k ==> r@[j]@ == p@[j]@,
        decreases p.len() - k,
    {
        r.push(from_chars(&p[k]));
        k += 1;
    }
    assert(strings_view(r@) =~= path_view(p@));
    r
}

/// Chunks an already normalised Markdown text given the events of its parse.
pub fn chunk_markdown_events(file_path: &str, markdown: &str, events: &Vec<MdEvent>) -> (r: Vec<DocumentChunk>)
    ensures
        chunks_view(r@) == document_chunks(file_path@, chunk_units(markdown@, events_view(events@))),
{
    let md = to_chars(markdown);
    let units = collect_semantic_units(&md, events);
    let chunks = assemble(&units);
    let ghost expected = document_chunks(file_path@, chunk_units(markdown@, events_view(events@)));
    let mut out: Vec<DocumentChunk> = Vec::new();
    let mut k: usize = 0;
    while k < chunks.len()
        invariant
            k <= chunks.len(),
            expected.len() == chunks.len(),
            units_view(chunks@) == chunk_units(markdown@, events_view(events@)),
            expected == document_chunks(file_path@, chunk_units(markdown@, events_view(events@))),
            out.len() == k,
            forall|j: int| 0 <= j < k ==> #[trigger] out@[j]@ == expected[j],
        decreases chunks.len() - k,
    {
        let c = &chunks[k];
        assert(units_view(chunks@)[k as int] == c@);
        out.push(DocumentChunk {
            file_path: from_chars(&to_chars(file_path)),
            content: from_chars(&c.content),
            chunk_index: k,
            heading_path: heading_strings(&c.heading_path),
            block_kind: c.block_kind,
        });
        assert(out@[k as int]@ =~= expected[k as int]);
        k += 1;
    }
    assert(chunks_view(out@) =~= expected);
    out
}

/// The chunks of a Markdown document: line endings normalised to '\n', headings, lists,
/// code blocks, tables, quotes, HTML blocks and rules kept whole, over-long paragraphs cut at
/// natural breaks, and text packed into chunks that overlap.
pub fn parse_and_chunk(file_path: &str, raw_text: &str) -> (r: Result<Vec<DocumentChunk>, ParserError>)
    ensures
        r matches Ok(chunks) && chunks_view(chunks@) == document_chunks(
            file_path@,
            chunk_units(normalize_newlines(raw_text@), markdown_events(normalize_newlines(raw_text@))),
        ),
{
    if MAX_CHUNK_SIZE <= OVERLAP_SIZE {
        return Err(ParserError::InvalidChunkConfig { max: MAX_CHUNK_SIZE, overlap: OVERLAP_SIZE });
    }
    let raw = to_chars(raw_text);
    let normalized_chars = normalize_newlines_chars(&raw);
    let normalized = from_chars(&normalized_chars);
    let events = parse_markdown_events(&normalized);
    Ok(chunk_markdown_events(file_path, &normalized, &events))
}


// ---------------------------------------------------------------- laws

/// Chunks are numbered by their position, all carry the document's path, and there is one
/// chunk per assembled unit, with its text, heading path and kind.
pub proof fn law_chunks_numbered_in_order(file_path: Seq<char>, units: Seq<UnitView>)
    ensures
        document_chunks(file_path, units).len() == units.len(),
        forall|i: int| 0 <= i < units.len() ==> {
            let c = #[trigger] document_chunks(file_path, units)[i];
            &&& c.chunk_index == i
            &&& c.file_path == file_path
            &&& c.content == units[i].content
            &&& c.heading_path == units[i].path
            &&& c.block_kind == units[i].kind
        },
{
}

} // verus!
