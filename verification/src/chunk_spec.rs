//! The mathematical definition of Markdown chunking: from a source text and the event
//! stream of its parse to the ordered list of chunks.
use crate::chunking::ChunkBlockKind;
use crate::text::trim_end;
use crate::markdown::{BlockTag, EventKind, MdEventView};
use crate::text::{
    char_whitespace, contains, first_occurrence, lemma_first_occurrence, lemma_trim_shape, lemma_trim_start, trim,
    trim_start,
};
use vstd::prelude::*;

verus! {

/// Largest chunk size, in characters.
pub open spec fn max_chunk() -> nat {
    1000
}

/// Overlap carried from one text chunk into the next, in characters.
pub open spec fn overlap_size() -> nat {
    200
}

/// The size to which a long paragraph is cut before assembly.
pub open spec fn split_size() -> nat {
    900
}

// ---------------------------------------------------------------- line endings

/// `s` with every "\r\n" and every remaining '\r' replaced by '\n'.
pub open spec fn normalize_newlines(s: Seq<char>) -> Seq<char>
    decreases s.len(),
{
    if s.len() == 0 {
        s
    } else if s.len() >= 2 && s[0] == '\r' && s[1] == '\n' {
        seq!['\n'] + normalize_newlines(s.skip(2))
    } else if s[0] == '\r' {
        seq!['\n'] + normalize_newlines(s.skip(1))
    } else {
        seq![s[0]] + normalize_newlines(s.skip(1))
    }
}

// ---------------------------------------------------------------- byte offsets

/// Number of bytes of the UTF-8 encoding of `c`.
pub open spec fn utf8_width(c: char) -> nat {
    if (c as u32) < 0x80 {
        1
    } else if (c as u32) < 0x800 {
        2
    } else if (c as u32) < 0x10000 {
        3
    } else {
        4
    }
}

/// Byte offset, in the UTF-8 encoding of `s`, of the character at index `i`.
pub open spec fn byte_offset(s: Seq<char>, i: int) -> nat
    decreases i,
{
    if i <= 0 {
        0
    } else {
        byte_offset(s, i - 1) + utf8_width(s[i - 1])
    }
}

/// The index of the first character whose byte offset is at least `b` (`s.len()` if none).
pub open spec fn char_index_from(s: Seq<char>, b: nat, i: int) -> int
    decreases s.len() - i,
{
    if i >= s.len() || byte_offset(s, i) >= b || i < 0 {
        i
    } else {
        char_index_from(s, b, i + 1)
    }
}

pub open spec fn char_index(s: Seq<char>, b: nat) -> int {
    char_index_from(s, b, 0)
}

/// The characters of `s` between byte offsets `start` and `end`.
pub open spec fn byte_slice(s: Seq<char>, start: nat, end: nat) -> Seq<char> {
    let a = char_index(s, start);
    let z = char_index(s, end);
    if a <= z {
        s.subrange(a, z)
    } else {
        Seq::empty()
    }
}

// ---------------------------------------------------------------- inline text

/// Words of `s` joined by single spaces, computed left to right; the flag says whether a
/// separator is owed before the next word.
pub open spec fn inline_fold(s: Seq<char>) -> (Seq<char>, bool)
    decreases s.len(),
{
    if s.len() == 0 {
        (Seq::empty(), false)
    } else {
        let (o, p) = inline_fold(s.drop_last());
        let c = s.last();
        if char_whitespace(c) {
            (o, o.len() > 0)
        } else if p {
            (o.push(' ').push(c), false)
        } else {
            (o.push(c), false)
        }
    }
}

/// The whitespace-separated words of `s`, joined by one space.
pub open spec fn normalize_inline(s: Seq<char>) -> Seq<char> {
    inline_fold(s).0
}

// ---------------------------------------------------------------- semantic units

#[verifier::ext_equal]
pub struct UnitView {
    pub content: Seq<char>,
    pub path: Seq<Seq<char>>,
    pub kind: ChunkBlockKind,
}

#[verifier::ext_equal]
pub struct OpenView {
    pub kind: ChunkBlockKind,
    pub start: nat,
    pub path: Seq<Seq<char>>,
}

#[verifier::ext_equal]
pub struct CollectState {
    pub units: Seq<UnitView>,
    pub stack: Seq<Seq<char>>,
    pub capture: Option<(nat, nat, Seq<char>)>,
    pub open: Seq<OpenView>,
    pub depth: nat,
}

pub open spec fn collect_init() -> CollectState {
    CollectState {
        units: Seq::empty(),
        stack: Seq::empty(),
        capture: None,
        open: Seq::empty(),
        depth: 0,
    }
}

/// The heading stack cut to the ancestors of a heading of `level`.
pub open spec fn truncate_stack(stack: Seq<Seq<char>>, level: nat) -> Seq<Seq<char>> {
    let keep: int = if level >= 1 { level - 1 } else { 0 };
    if stack.len() > keep {
        stack.take(keep)
    } else {
        stack
    }
}

/// The position of the last open block of `kind`.
pub open spec fn last_open_of(open: Seq<OpenView>, kind: ChunkBlockKind) -> Option<int>
    decreases open.len(),
{
    if open.len() == 0 {
        None
    } else if open.last().kind == kind {
        Some(open.len() - 1)
    } else {
        last_open_of(open.drop_last(), kind)
    }
}

pub open spec fn has_open_container(open: Seq<OpenView>) -> bool {
    exists|i: int| 0 <= i < open.len() && open[i].kind != ChunkBlockKind::Paragraph
}

pub open spec fn block_kind_of(tag: BlockTag) -> ChunkBlockKind {
    match tag {
        BlockTag::Heading => ChunkBlockKind::Heading,
        BlockTag::CodeBlock => ChunkBlockKind::CodeBlock,
        BlockTag::Paragraph => ChunkBlockKind::Paragraph,
        BlockTag::List => ChunkBlockKind::List,
        BlockTag::Table => ChunkBlockKind::Table,
        BlockTag::Quote => ChunkBlockKind::Quote,
        BlockTag::Html => ChunkBlockKind::Html,
        BlockTag::Other => ChunkBlockKind::Mixed,
    }
}

/// Closes the innermost open block of `kind` at byte `end`, emitting its trimmed source.
pub open spec fn flush_block(md: Seq<char>, st: CollectState, end: nat, kind: ChunkBlockKind) -> CollectState {
    match last_open_of(st.open, kind) {
        None => st,
        Some(i) => {
            let b = st.open[i];
            let content = trim(byte_slice(md, b.start, end));
            let open = st.open.remove(i);
            if content.len() == 0 {
                CollectState { open, ..st }
            } else {
                CollectState {
                    open,
                    units: st.units.push(UnitView { content, path: b.path, kind: b.kind }),
                    ..st
                }
            }
        }
    }
}

pub open spec fn push_open(st: CollectState, kind: ChunkBlockKind, start: nat) -> CollectState {
    CollectState { open: st.open.push(OpenView { kind, start, path: st.stack }), ..st }
}

/// Closing a heading: the heading text joins the stack and the heading source becomes a unit.
pub open spec fn end_heading(md: Seq<char>, st: CollectState, e: MdEventView) -> CollectState {
    match st.capture {
        Some((level, start, text)) => {
            let source = trim(byte_slice(md, start, e.end));
            let title = normalize_inline(text);
            let kept = truncate_stack(st.stack, level);
            let stack = if title.len() > 0 { kept.push(title) } else { kept };
            let units = if source.len() > 0 {
                st.units.push(UnitView { content: source, path: stack, kind: ChunkBlockKind::Heading })
            } else {
                st.units
            };
            CollectState { units, stack, capture: None, ..st }
        },
        None => CollectState { stack: truncate_stack(st.stack, e.level), ..st },
    }
}

/// One event's effect on the collection of semantic units.
pub open spec fn collect_step(md: Seq<char>, st: CollectState, e: MdEventView) -> CollectState {
    match e.kind {
        EventKind::Start => match e.tag {
            BlockTag::Heading => CollectState { capture: Some((e.level, e.start, Seq::empty())), ..st },
            BlockTag::Paragraph => if st.depth > 0 || has_open_container(st.open) {
                st
            } else {
                push_open(st, ChunkBlockKind::Paragraph, e.start)
            },
            BlockTag::List => {
                let st2 = if st.depth == 0 { push_open(st, ChunkBlockKind::List, e.start) } else { st };
                CollectState { depth: st2.depth + 1, ..st2 }
            },
            BlockTag::Other => st,
            _ => push_open(st, block_kind_of(e.tag), e.start),
        },
        EventKind::End => match e.tag {
            BlockTag::Heading => end_heading(md, st, e),
            BlockTag::List => {
                let depth: nat = if st.depth > 0 { (st.depth - 1) as nat } else { 0 };
                let st2 = CollectState { depth, ..st };
                if depth == 0 { flush_block(md, st2, e.end, ChunkBlockKind::List) } else { st2 }
            },
            BlockTag::Other => st,
            _ => flush_block(md, st, e.end, block_kind_of(e.tag)),
        },
        EventKind::Rule => {
            let content = trim(byte_slice(md, e.start, e.end));
            if content.len() > 0 {
                CollectState {
                    units: st.units.push(UnitView { content, path: st.stack, kind: ChunkBlockKind::ThematicBreak }),
                    ..st
                }
            } else {
                st
            }
        },
        EventKind::Text => match st.capture {
            Some((l, s0, t)) => CollectState { capture: Some((l, s0, t + e.text)), ..st },
            None => st,
        },
        EventKind::Break => match st.capture {
            Some((l, s0, t)) => CollectState { capture: Some((l, s0, t.push(' '))), ..st },
            None => st,
        },
        EventKind::Other => st,
    }
}

pub open spec fn collect_fold(md: Seq<char>, evs: Seq<MdEventView>) -> CollectState
    decreases evs.len(),
{
    if evs.len() == 0 {
        collect_init()
    } else {
        collect_step(md, collect_fold(md, evs.drop_last()), evs.last())
    }
}

/// The semantic units of `md` given its event stream.
pub open spec fn collect_units(md: Seq<char>, evs: Seq<MdEventView>) -> Seq<UnitView> {
    collect_fold(md, evs).units
}

// ---------------------------------------------------------------- long paragraphs

pub open spec fn is_break_char(c: char) -> bool {
    c == ' ' || c == '\t' || c == ',' || c == '，' || c == '。' || c == '；' || c == ';'
        || c == '！' || c == '!' || c == '？' || c == '?' || c == '、' || c == '：' || c == ':'
}

/// The last position `pos` in `1..=k` whose preceding character is a break character.
pub open spec fn last_break(text: Seq<char>, k: int) -> Option<int>
    decreases k,
{
    if k <= 0 {
        None
    } else if is_break_char(text[k - 1]) {
        Some(k)
    } else {
        last_break(text, k - 1)
    }
}

/// Where to cut `text` so that the head has at most `max_len` characters.
pub open spec fn best_cut(text: Seq<char>, max_len: nat) -> nat {
    let k: int = if text.len() < max_len { text.len() as int } else { max_len as int };
    match last_break(text, k) {
        Some(pos) => if pos >= max_len / 2 { pos as nat } else { max_len },
        None => max_len,
    }
}

pub open spec fn split_pieces(remaining: Seq<char>, max_len: nat) -> Seq<Seq<char>>
    decreases remaining.len(),
{
    if remaining.len() > max_len && max_len > 0 {
        let cut = best_cut(remaining, max_len);
        let head = trim(remaining.take(cut as int));
        let tail = trim_start(remaining.skip(cut as int));
        let first: Seq<Seq<char>> = if head.len() > 0 { seq![head] } else { Seq::empty() };
        if 0 < cut <= remaining.len() {
            proof {
                lemma_trim_start(remaining.skip(cut as int));
            }
            first + split_pieces(tail, max_len)
        } else {
            first
        }
    } else if trim(remaining).len() > 0 {
        seq![trim(remaining)]
    } else {
        Seq::empty()
    }
}

/// A long paragraph cut into pieces of at most `max_len` characters at natural breaks.
pub open spec fn split_long_paragraph(paragraph: Seq<char>, max_len: nat) -> Seq<Seq<char>> {
    split_pieces(trim(paragraph), max_len)
}

pub open spec fn expand_one(u: UnitView) -> Seq<UnitView> {
    if u.kind == ChunkBlockKind::Paragraph && u.content.len() > max_chunk() {
        split_long_paragraph(u.content, split_size()).map_values(
            |c: Seq<char>| UnitView { content: c, path: u.path, kind: u.kind },
        )
    } else {
        seq![u]
    }
}

pub open spec fn expand_units(units: Seq<UnitView>) -> Seq<UnitView>
    decreases units.len(),
{
    if units.len() == 0 {
        Seq::empty()
    } else {
        expand_units(units.drop_last()) + expand_one(units.last())
    }
}

// ---------------------------------------------------------------- assembly

pub open spec fn is_hard_boundary(kind: ChunkBlockKind) -> bool {
    !(kind == ChunkBlockKind::Paragraph || kind == ChunkBlockKind::Mixed)
}

pub open spec fn separator() -> Seq<char> {
    seq!['\n', '\n']
}

pub open spec fn can_append(current: Seq<char>, block: Seq<char>, max_len: nat) -> bool {
    let sep: nat = if trim(current).len() == 0 { 0 } else { 2 };
    current.len() + sep + block.len() <= max_len
}

pub open spec fn append_block(current: Seq<char>, block: Seq<char>) -> Seq<char> {
    if trim(current).len() == 0 {
        current + trim(block)
    } else {
        current + separator() + trim(block)
    }
}

pub open spec fn tail_chars(text: Seq<char>, count: nat) -> Seq<char> {
    if text.len() <= count {
        text
    } else {
        text.skip(text.len() - count)
    }
}

/// What follows the first occurrence of `p` in `t`, without its leading whitespace; empty
/// where `p` does not occur.
#[verifier::opaque]
pub open spec fn after_first(t: Seq<char>, p: Seq<char>) -> Seq<char> {
    match first_occurrence(t, p) {
        Some(i) => trim_start(t.skip(i + p.len())),
        None => Seq::empty(),
    }
}

/// The overlap carried from `text`: its last `count` characters, started at a paragraph or
/// line boundary where one leaves something behind it.
pub open spec fn tail_overlap(text: Seq<char>, count: nat) -> Seq<char> {
    let t = tail_chars(text, count);
    if t.len() == 0 {
        t
    } else {
        let after_para = after_first(t, separator());
        let after_line = after_first(t, seq!['\n']);
        if after_para.len() > 0 {
            after_para
        } else if after_line.len() > 0 {
            after_line
        } else {
            trim_start(t)
        }
    }
}

/// The overlap a text chunk can carry in front of `body` and stay within the size limit with
/// the separator: the overlap size, or less where the body leaves less room; none where the
/// body and the separator already fill the limit.
pub open spec fn overlap_room(body: Seq<char>) -> nat {
    let b = trim(body).len();
    if b + 2 >= max_chunk() {
        0
    } else if max_chunk() - 2 - b < overlap_size() {
        (max_chunk() - 2 - b) as nat
    } else {
        overlap_size()
    }
}

pub open spec fn start_text(previous: Option<UnitView>, u: UnitView) -> UnitView {
    let overlap = match previous {
        Some(p) => if p.path == u.path { tail_overlap(p.content, overlap_room(u.content)) } else { Seq::empty() },
        None => Seq::empty(),
    };
    UnitView { content: append_block(overlap, u.content), path: u.path, kind: u.kind }
}

#[verifier::ext_equal]
pub struct AsmState {
    pub chunks: Seq<UnitView>,
    pub current: Option<UnitView>,
}

pub open spec fn last_of(chunks: Seq<UnitView>) -> Option<UnitView> {
    if chunks.len() == 0 { None } else { Some(chunks.last()) }
}

pub open spec fn asm_step(st: AsmState, u: UnitView) -> AsmState {
    if is_hard_boundary(u.kind) {
        let chunks = match st.current {
            Some(o) => st.chunks.push(o),
            None => st.chunks,
        };
        AsmState { chunks: chunks.push(u), current: None }
    } else {
        match st.current {
            Some(o) => if o.path == u.path && can_append(o.content, u.content, max_chunk()) {
                let kind = if o.kind != u.kind { ChunkBlockKind::Mixed } else { o.kind };
                AsmState {
                    chunks: st.chunks,
                    current: Some(UnitView { content: append_block(o.content, u.content), path: o.path, kind }),
                }
            } else {
                AsmState { chunks: st.chunks.push(o), current: Some(start_text(Some(o), u)) }
            },
            None => AsmState { chunks: st.chunks, current: Some(start_text(last_of(st.chunks), u)) },
        }
    }
}

pub open spec fn asm_fold(units: Seq<UnitView>) -> AsmState
    decreases units.len(),
{
    if units.len() == 0 {
        AsmState { chunks: Seq::empty(), current: None }
    } else {
        asm_step(asm_fold(units.drop_last()), units.last())
    }
}

pub open spec fn finish(st: AsmState) -> Seq<UnitView> {
    match st.current {
        Some(o) => st.chunks.push(o),
        None => st.chunks,
    }
}

/// The chunks assembled from semantic units.
pub open spec fn assemble_chunks(units: Seq<UnitView>) -> Seq<UnitView> {
    finish(asm_fold(expand_units(units)))
}

/// The chunks of `md` given its event stream.
pub open spec fn chunk_units(md: Seq<char>, evs: Seq<MdEventView>) -> Seq<UnitView> {
    assemble_chunks(collect_units(md, evs))
}


// ---------------------------------------------------------------- structural blocks

/// The units of structural (non-paragraph) kinds, in order.
pub open spec fn structural(units: Seq<UnitView>) -> Seq<UnitView>
    decreases units.len(),
{
    if units.len() == 0 {
        Seq::empty()
    } else if is_hard_boundary(units.last().kind) {
        structural(units.drop_last()).push(units.last())
    } else {
        structural(units.drop_last())
    }
}

proof fn lemma_structural_concat(a: Seq<UnitView>, b: Seq<UnitView>)
    ensures
        structural(a + b) == structural(a) + structural(b),
    decreases b.len(),
{
    if b.len() == 0 {
        assert(a + b =~= a);
        assert(structural(a) + structural(b) =~= structural(a));
    } else {
        lemma_structural_concat(a, b.drop_last());
        assert((a + b).drop_last() =~= a + b.drop_last());
        assert((a + b).last() == b.last());
        if is_hard_boundary(b.last().kind) {
            assert(structural(a) + structural(b.drop_last()).push(b.last()) =~= (structural(a) + structural(b.drop_last())).push(b.last()));
        }
    }
}

proof fn lemma_structural_of_paragraphs(units: Seq<UnitView>)
    requires
        forall|i: int| 0 <= i < units.len() ==> !is_hard_boundary(#[trigger] units[i].kind),
    ensures
        structural(units) == Seq::<UnitView>::empty(),
    decreases units.len(),
{
    if units.len() > 0 {
        lemma_structural_of_paragraphs(units.drop_last());
        assert(!is_hard_boundary(units[units.len() - 1].kind));
    }
}

proof fn lemma_structural_expand(units: Seq<UnitView>)
    ensures
        structural(expand_units(units)) == structural(units),
    decreases units.len(),
{
    if units.len() > 0 {
        let u = units.last();
        lemma_structural_expand(units.drop_last());
        lemma_structural_concat(expand_units(units.drop_last()), expand_one(u));
        if u.kind == ChunkBlockKind::Paragraph && u.content.len() > max_chunk() {
            let pieces = expand_one(u);
            assert forall|i: int| 0 <= i < pieces.len() implies !is_hard_boundary(#[trigger] pieces[i].kind) by {
                assert(pieces[i].kind == u.kind);
            }
            lemma_structural_of_paragraphs(pieces);
            assert(structural(expand_units(units.drop_last())) + Seq::<UnitView>::empty() =~= structural(expand_units(units.drop_last())));
        } else {
            assert(expand_one(u) =~= seq![u]);
            assert(seq![u].drop_last() =~= Seq::<UnitView>::empty());
            lemma_structural_push(Seq::<UnitView>::empty(), u);
            assert(Seq::<UnitView>::empty().push(u) =~= seq![u]);
            assert(structural(Seq::<UnitView>::empty()) =~= Seq::<UnitView>::empty());
            if is_hard_boundary(u.kind) {
                assert(structural(expand_units(units.drop_last())) + seq![u] =~= structural(expand_units(units.drop_last())).push(u));
            } else {
                assert(structural(expand_units(units.drop_last())) + Seq::<UnitView>::empty() =~= structural(expand_units(units.drop_last())));
            }
            lemma_structural_push(units.drop_last(), u);
            assert(units.drop_last().push(u) =~= units);
        }
    }
}

proof fn lemma_structural_push(s: Seq<UnitView>, x: UnitView)
    ensures
        structural(s.push(x)) == if is_hard_boundary(x.kind) { structural(s).push(x) } else { structural(s) },
{
    assert(s.push(x).drop_last() =~= s);
    assert(s.push(x).last() == x);
}

proof fn lemma_structural_fold(units: Seq<UnitView>)
    ensures
        asm_fold(units).current matches Some(o) ==> !is_hard_boundary(o.kind),
        structural(finish(asm_fold(units))) == structural(units),
    decreases units.len(),
{
    if units.len() > 0 {
        lemma_structural_fold(units.drop_last());
        let st = asm_fold(units.drop_last());
        let u = units.last();
        lemma_structural_push(units.drop_last(), u);
        assert(units.drop_last().push(u) =~= units);
        let next = asm_step(st, u);
        assert(asm_fold(units) == next);
        if is_hard_boundary(u.kind) {
            match st.current {
                Some(o) => {
                    lemma_structural_push(st.chunks, o);
                    lemma_structural_push(st.chunks.push(o), u);
                },
                None => {
                    lemma_structural_push(st.chunks, u);
                },
            }
        } else {
            match st.current {
                Some(o) => {
                    lemma_structural_push(st.chunks, o);
                    let n = next.current.unwrap();
                    if next.chunks == st.chunks {
                        lemma_structural_push(st.chunks, n);
                    } else {
                        lemma_structural_push(st.chunks.push(o), n);
                    }
                },
                None => {
                    let n = next.current.unwrap();
                    lemma_structural_push(st.chunks, n);
                },
            }
        }
    }
}

/// Structural blocks stay whole: the chunks of structural kind (headings, lists, code blocks,
/// tables, quotes, rules, ...) are exactly the structural units, unchanged and in order; only
/// paragraphs are split, merged or given overlap.
pub proof fn law_structural_blocks_stay_whole(units: Seq<UnitView>)
    ensures
        structural(assemble_chunks(units)) == structural(units),
{
    lemma_structural_fold(expand_units(units));
    lemma_structural_expand(units);
}

// ---------------------------------------------------------------- size limit

/// Every text (paragraph or mixed) unit of `units` is within the size limit.
pub open spec fn text_units_fit(units: Seq<UnitView>) -> bool {
    forall|i: int| 0 <= i < units.len() && !is_hard_boundary(#[trigger] units[i].kind) ==> units[i].content.len() <= max_chunk()
}

proof fn lemma_after_len(t: Seq<char>, p: Seq<char>)
    ensures
        after_first(t, p).len() <= t.len(),
{
    reveal(after_first);
    lemma_first_occurrence(t, p);
    if let Some(i) = first_occurrence(t, p) {
        lemma_trim_start(t.skip(i + p.len()));
    }
}

proof fn lemma_tail_overlap_len(text: Seq<char>, count: nat)
    ensures
        tail_overlap(text, count).len() <= count,
{
    let t = tail_chars(text, count);
    if text.len() > count {
        let n: int = text.len() - count;
        assert(t == text.skip(n));
    }
    lemma_after_len(t, separator());
    lemma_after_len(t, seq!['\n']);
    lemma_trim_start(t);
}

proof fn lemma_append_block_len(current: Seq<char>, block: Seq<char>)
    ensures
        append_block(current, block).len() == current.len() + (if trim(current).len() == 0 { 0int } else { 2int })
            + trim(block).len(),
        trim(block).len() <= block.len(),
{
    lemma_trim_shape(block);
}

proof fn lemma_start_text_fits(previous: Option<UnitView>, u: UnitView)
    requires
        !is_hard_boundary(u.kind),
        u.content.len() <= max_chunk(),
    ensures
        start_text(previous, u).content.len() <= max_chunk(),
        start_text(previous, u).kind == u.kind,
{
    let room = overlap_room(u.content);
    if let Some(p) = previous {
        lemma_tail_overlap_len(p.content, room);
    }
    let overlap = match previous {
        Some(p) => if p.path == u.path { tail_overlap(p.content, room) } else { Seq::empty() },
        None => Seq::empty(),
    };
    assert(overlap.len() <= room);
    lemma_append_block_len(overlap, u.content);
}

/// What assembly keeps: every text chunk so far, and the open one, within the limit.
pub open spec fn asm_fits(st: AsmState) -> bool {
    &&& text_units_fit(st.chunks)
    &&& (st.current matches Some(o) ==> !is_hard_boundary(o.kind) && o.content.len() <= max_chunk())
}

proof fn lemma_push_fits(chunks: Seq<UnitView>, x: UnitView)
    requires
        text_units_fit(chunks),
        !is_hard_boundary(x.kind) ==> x.content.len() <= max_chunk(),
    ensures
        text_units_fit(chunks.push(x)),
{
    assert forall|i: int| 0 <= i < chunks.push(x).len() && !is_hard_boundary(#[trigger] chunks.push(x)[i].kind) implies chunks.push(
        x,
    )[i].content.len() <= max_chunk() by {
        if i < chunks.len() {
            assert(chunks.push(x)[i] == chunks[i]);
        }
    }
}

proof fn lemma_asm_step_fits(st: AsmState, u: UnitView)
    requires
        asm_fits(st),
        !is_hard_boundary(u.kind) ==> u.content.len() <= max_chunk(),
    ensures
        asm_fits(asm_step(st, u)),
{
    if is_hard_boundary(u.kind) {
        let chunks = match st.current {
            Some(o) => st.chunks.push(o),
            None => st.chunks,
        };
        if let Some(o) = st.current {
            lemma_push_fits(st.chunks, o);
        }
        lemma_push_fits(chunks, u);
    } else {
        match st.current {
            Some(o) => {
                if o.path == u.path && can_append(o.content, u.content, max_chunk()) {
                    lemma_append_block_len(o.content, u.content);
                } else {
                    lemma_push_fits(st.chunks, o);
                    lemma_start_text_fits(Some(o), u);
                }
            },
            None => {
                lemma_start_text_fits(last_of(st.chunks), u);
            },
        }
    }
}

proof fn lemma_asm_fold_fits(units: Seq<UnitView>)
    requires
        text_units_fit(units),
    ensures
        asm_fits(asm_fold(units)),
    decreases units.len(),
{
    if units.len() > 0 {
        let front = units.drop_last();
        assert forall|i: int| 0 <= i < front.len() && !is_hard_boundary(#[trigger] front[i].kind) implies front[i].content.len()
            <= max_chunk() by {
            assert(front[i] == units[i]);
        }
        lemma_asm_fold_fits(front);
        let last = units.last();
        assert(units[units.len() - 1] == last);
        lemma_asm_step_fits(asm_fold(front), last);
    }
}

/// The position `pos` found by `last_break` lies in `1..=k`.
proof fn lemma_last_break_bound(text: Seq<char>, k: int)
    ensures
        last_break(text, k) matches Some(p) ==> 1 <= p <= k,
    decreases k,
{
    if k > 0 && !is_break_char(text[k - 1]) {
        lemma_last_break_bound(text, k - 1);
    }
}

proof fn lemma_split_pieces_len(remaining: Seq<char>, max_len: nat)
    requires
        max_len > 0,
    ensures
        forall|i: int| 0 <= i < split_pieces(remaining, max_len).len() ==> #[trigger] split_pieces(remaining, max_len)[i].len() <= max_len,
    decreases remaining.len(),
{
    let pieces = split_pieces(remaining, max_len);
    if remaining.len() > max_len {
        let cut = best_cut(remaining, max_len);
        let k: int = if remaining.len() < max_len { remaining.len() as int } else { max_len as int };
        lemma_last_break_bound(remaining, k);
        assert(cut <= max_len);
        let head = trim(remaining.take(cut as int));
        lemma_trim_shape(remaining.take(cut as int));
        let tail = trim_start(remaining.skip(cut as int));
        let first: Seq<Seq<char>> = if head.len() > 0 { seq![head] } else { Seq::empty() };
        if 0 < cut <= remaining.len() {
            lemma_trim_start(remaining.skip(cut as int));
            lemma_split_pieces_len(tail, max_len);
            let rest = split_pieces(tail, max_len);
            assert(pieces == first + rest);
            assert forall|i: int| 0 <= i < pieces.len() implies #[trigger] pieces[i].len() <= max_len by {
                if i >= first.len() {
                    assert(pieces[i] == rest[i - first.len()]);
                }
            }
        }
    } else {
        lemma_trim_shape(remaining);
    }
}

/// No unit that the collection emits is of the mixed kind.
pub open spec fn none_mixed(units: Seq<UnitView>) -> bool {
    forall|i: int| 0 <= i < units.len() ==> #[trigger] units[i].kind != ChunkBlockKind::Mixed
}

pub open spec fn collect_clean(st: CollectState) -> bool {
    &&& none_mixed(st.units)
    &&& forall|i: int| 0 <= i < st.open.len() ==> #[trigger] st.open[i].kind != ChunkBlockKind::Mixed
}

proof fn lemma_units_push_clean(units: Seq<UnitView>, x: UnitView)
    requires
        none_mixed(units),
        x.kind != ChunkBlockKind::Mixed,
    ensures
        none_mixed(units.push(x)),
{
    assert forall|i: int| 0 <= i < units.push(x).len() implies #[trigger] units.push(x)[i].kind != ChunkBlockKind::Mixed by {
        if i < units.len() {
            assert(units.push(x)[i] == units[i]);
        }
    }
}

proof fn lemma_last_open_of_bound(open: Seq<OpenView>, kind: ChunkBlockKind)
    ensures
        last_open_of(open, kind) matches Some(i) ==> 0 <= i < open.len(),
    decreases open.len(),
{
    if open.len() > 0 && open.last().kind != kind {
        lemma_last_open_of_bound(open.drop_last(), kind);
    }
}

proof fn lemma_flush_clean(md: Seq<char>, st: CollectState, end: nat, kind: ChunkBlockKind)
    requires
        collect_clean(st),
    ensures
        collect_clean(flush_block(md, st, end, kind)),
{
    lemma_last_open_of_bound(st.open, kind);
    if let Some(i) = last_open_of(st.open, kind) {
        let b = st.open[i];
        let open = st.open.remove(i);
        assert forall|j: int| 0 <= j < open.len() implies #[trigger] open[j].kind != ChunkBlockKind::Mixed by {
            if j < i {
                assert(open[j] == st.open[j]);
            } else {
                assert(open[j] == st.open[j + 1]);
            }
        }
        let content = trim(byte_slice(md, b.start, end));
        if content.len() > 0 {
            lemma_units_push_clean(st.units, UnitView { content, path: b.path, kind: b.kind });
        }
    }
}

proof fn lemma_push_open_clean(st: CollectState, kind: ChunkBlockKind, start: nat)
    requires
        collect_clean(st),
        kind != ChunkBlockKind::Mixed,
    ensures
        collect_clean(push_open(st, kind, start)),
{
    let open = st.open.push(OpenView { kind, start, path: st.stack });
    assert forall|j: int| 0 <= j < open.len() implies #[trigger] open[j].kind != ChunkBlockKind::Mixed by {
        if j < st.open.len() {
            assert(open[j] == st.open[j]);
        }
    }
}

proof fn lemma_collect_step_clean(md: Seq<char>, st: CollectState, e: MdEventView)
    requires
        collect_clean(st),
    ensures
        collect_clean(collect_step(md, st, e)),
{
    match e.kind {
        EventKind::Start => {
            if e.tag == BlockTag::Paragraph {
                lemma_push_open_clean(st, ChunkBlockKind::Paragraph, e.start);
            } else if e.tag == BlockTag::List {
                lemma_push_open_clean(st, ChunkBlockKind::List, e.start);
            } else if e.tag != BlockTag::Heading && e.tag != BlockTag::Other {
                lemma_push_open_clean(st, block_kind_of(e.tag), e.start);
            }
        },
        EventKind::End => {
            if e.tag == BlockTag::Heading {
                if let Some((level, start, text)) = st.capture {
                    let source = trim(byte_slice(md, start, e.end));
                    let title = normalize_inline(text);
                    let kept = truncate_stack(st.stack, level);
                    let stack = if title.len() > 0 { kept.push(title) } else { kept };
                    if source.len() > 0 {
                        lemma_units_push_clean(st.units, UnitView { content: source, path: stack, kind: ChunkBlockKind::Heading });
                    }
                }
            } else if e.tag == BlockTag::List {
                let depth: nat = if st.depth > 0 { (st.depth - 1) as nat } else { 0 };
                lemma_flush_clean(md, CollectState { depth, ..st }, e.end, ChunkBlockKind::List);
            } else if e.tag != BlockTag::Other {
                lemma_flush_clean(md, st, e.end, block_kind_of(e.tag));
            }
        },
        EventKind::Rule => {
            let content = trim(byte_slice(md, e.start, e.end));
            if content.len() > 0 {
                lemma_units_push_clean(st.units, UnitView { content, path: st.stack, kind: ChunkBlockKind::ThematicBreak });
            }
        },
        _ => {},
    }
}

proof fn lemma_collect_fold_clean(md: Seq<char>, evs: Seq<MdEventView>)
    ensures
        collect_clean(collect_fold(md, evs)),
    decreases evs.len(),
{
    if evs.len() > 0 {
        lemma_collect_fold_clean(md, evs.drop_last());
        lemma_collect_step_clean(md, collect_fold(md, evs.drop_last()), evs.last());
    }
}

proof fn lemma_expand_fits(units: Seq<UnitView>)
    requires
        none_mixed(units),
    ensures
        text_units_fit(expand_units(units)),
    decreases units.len(),
{
    if units.len() > 0 {
        let front = units.drop_last();
        assert forall|i: int| 0 <= i < front.len() implies #[trigger] front[i].kind != ChunkBlockKind::Mixed by {
            assert(front[i] == units[i]);
        }
        lemma_expand_fits(front);
        let u = units.last();
        assert(u == units[units.len() - 1]);
        let a = expand_units(front);
        let b = expand_one(u);
        if u.kind == ChunkBlockKind::Paragraph && u.content.len() > max_chunk() {
            lemma_split_pieces_len(trim(u.content), split_size());
        }
        assert forall|i: int| 0 <= i < b.len() && !is_hard_boundary(#[trigger] b[i].kind) implies b[i].content.len() <= max_chunk() by {
            if u.kind == ChunkBlockKind::Paragraph && u.content.len() > max_chunk() {
                let pieces = split_long_paragraph(u.content, split_size());
                assert(b[i].content == pieces[i]);
            } else {
                assert(b[i] == u);
            }
        }
        let ab = a + b;
        assert forall|i: int| 0 <= i < ab.len() && !is_hard_boundary(#[trigger] ab[i].kind) implies ab[i].content.len() <= max_chunk() by {
            if i < a.len() {
                assert(ab[i] == a[i]);
            } else {
                assert(ab[i] == b[i - a.len()]);
            }
        }
    }
}

/// Text chunks (paragraphs and mixed text) never pass the size limit: packing stops at the
/// limit, long paragraphs are cut below it, and the overlap carried into a chunk is cut to the
/// room its text leaves. Only structural blocks, kept whole, can be longer.
pub proof fn law_text_chunks_within_limit(md: Seq<char>, evs: Seq<MdEventView>)
    ensures
        forall|i: int|
            0 <= i < chunk_units(md, evs).len() && !is_hard_boundary(#[trigger] chunk_units(md, evs)[i].kind)
                ==> chunk_units(md, evs)[i].content.len() <= max_chunk(),
{
    lemma_collect_fold_clean(md, evs);
    let units = collect_units(md, evs);
    lemma_expand_fits(units);
    let expanded = expand_units(units);
    lemma_asm_fold_fits(expanded);
    let st = asm_fold(expanded);
    if let Some(o) = st.current {
        lemma_push_fits(st.chunks, o);
    }
}

/// `a` ends `b`.
pub open spec fn is_suffix(a: Seq<char>, b: Seq<char>) -> bool {
    a.len() <= b.len() && b.skip(b.len() - a.len()) == a
}

proof fn lemma_trim_start_suffix(s: Seq<char>)
    ensures
        is_suffix(trim_start(s), s),
{
    lemma_trim_start(s);
}

proof fn lemma_suffix_trans(a: Seq<char>, b: Seq<char>, c: Seq<char>)
    requires
        is_suffix(a, b),
        is_suffix(b, c),
    ensures
        is_suffix(a, c),
{
    assert(c.skip(c.len() - a.len()) =~= c.skip(c.len() - b.len()).skip(b.len() - a.len()));
}

proof fn lemma_skip_trim_suffix(t: Seq<char>, k: int)
    requires
        0 <= k <= t.len(),
    ensures
        is_suffix(trim_start(t.skip(k)), t),
{
    let rest = t.skip(k);
    lemma_trim_start(rest);
    let a = trim_start(rest);
    assert(t.skip(t.len() - a.len()) =~= rest.skip(rest.len() - a.len()));
}

proof fn lemma_after_first_suffix(t: Seq<char>, p: Seq<char>)
    ensures
        is_suffix(after_first(t, p), t),
{
    lemma_after_len(t, p);
    reveal(after_first);
    lemma_first_occurrence(t, p);
    if first_occurrence(t, p) is Some {
        let i = first_occurrence(t, p)->0;
        lemma_skip_trim_suffix(t, i + p.len());
    } else {
        assert(t.skip(t.len() as int) =~= Seq::<char>::empty());
    }
}

/// A text chunk that follows a chunk under the same headings starts with an overlap: a piece
/// from the end of the previous chunk, at most the overlap size long, then the separator and
/// the chunk's own text.
pub proof fn law_text_chunk_overlap(previous: UnitView, u: UnitView)
    requires
        previous.path == u.path,
    ensures
        ({
            let overlap = tail_overlap(previous.content, overlap_room(u.content));
            &&& start_text(Some(previous), u).content == append_block(overlap, u.content)
            &&& is_suffix(overlap, previous.content)
            &&& overlap.len() <= overlap_size()
        }),
{
    let text = previous.content;
    let count = overlap_room(u.content);
    lemma_tail_overlap_len(text, count);
    let t = tail_chars(text, count);
    assert(is_suffix(t, text)) by {
        if text.len() > count {
            assert(text.skip(text.len() - t.len()) =~= t);
        } else {
            assert(text.skip(0) =~= text);
        }
    }
    lemma_after_first_suffix(t, separator());
    lemma_after_first_suffix(t, seq!['\n']);
    lemma_trim_start_suffix(t);
    let o = tail_overlap(text, count);
    assert(is_suffix(o, t));
    lemma_suffix_trans(o, t, text);
}

// ---------------------------------------------------------------- what a cut keeps

/// The characters of `s` that are not whitespace, in order.
pub open spec fn visible(s: Seq<char>) -> Seq<char>
    decreases s.len(),
{
    if s.len() == 0 {
        s
    } else {
        (if char_whitespace(s[0]) { Seq::empty() } else { seq![s[0]] }) + visible(s.drop_first())
    }
}

proof fn lemma_visible_concat(a: Seq<char>, b: Seq<char>)
    ensures
        visible(a + b) == visible(a) + visible(b),
    decreases a.len(),
{
    if a.len() == 0 {
        assert(a + b =~= b);
        assert(visible(a) + visible(b) =~= visible(b));
    } else {
        assert((a + b).drop_first() =~= a.drop_first() + b);
        lemma_visible_concat(a.drop_first(), b);
        assert((a + b)[0] == a[0]);
        let h: Seq<char> = if char_whitespace(a[0]) { Seq::empty() } else { seq![a[0]] };
        assert(h + (visible(a.drop_first()) + visible(b)) =~= (h + visible(a.drop_first())) + visible(b));
    }
}

proof fn lemma_visible_trim_start(s: Seq<char>)
    ensures
        visible(trim_start(s)) == visible(s),
    decreases s.len(),
{
    if s.len() > 0 && char_whitespace(s[0]) {
        lemma_visible_trim_start(s.drop_first());
        assert(Seq::<char>::empty() + visible(s.drop_first()) =~= visible(s.drop_first()));
    }
}

proof fn lemma_visible_trim_end(s: Seq<char>)
    ensures
        visible(trim_end(s)) == visible(s),
    decreases s.len(),
{
    if s.len() > 0 && char_whitespace(s.last()) {
        lemma_visible_trim_end(s.drop_last());
        assert(s =~= s.drop_last() + seq![s.last()]);
        lemma_visible_concat(s.drop_last(), seq![s.last()]);
        let x = seq![s.last()];
        assert(x[0] == s.last());
        assert(x.drop_first() =~= Seq::<char>::empty());
        assert(visible(x.drop_first()) == Seq::<char>::empty());
        assert(visible(x) == Seq::<char>::empty() + visible(x.drop_first()));
        assert(visible(x) =~= Seq::<char>::empty());
        assert(visible(s.drop_last()) + Seq::<char>::empty() =~= visible(s.drop_last()));
    }
}

proof fn lemma_visible_trim(s: Seq<char>)
    ensures
        visible(trim(s)) == visible(s),
{
    lemma_visible_trim_start(s);
    lemma_visible_trim_end(trim_start(s));
}

proof fn lemma_last_break_range(text: Seq<char>, k: int)
    ensures
        last_break(text, k) matches Some(p) ==> 1 <= p <= k,
    decreases k,
{
    if k > 0 && !is_break_char(text[k - 1]) {
        lemma_last_break_range(text, k - 1);
    }
}

proof fn lemma_split_pieces_visible(remaining: Seq<char>, max_len: nat)
    ensures
        visible(split_pieces(remaining, max_len).flatten()) == visible(remaining),
    decreases remaining.len(),
{
    let pieces = split_pieces(remaining, max_len);
    if remaining.len() > max_len && max_len > 0 {
        let cut = best_cut(remaining, max_len);
        lemma_last_break_range(remaining, max_len as int);
        assert(0 < cut <= remaining.len());
        let head = trim(remaining.take(cut as int));
        let tail = trim_start(remaining.skip(cut as int));
        let first: Seq<Seq<char>> = if head.len() > 0 { seq![head] } else { Seq::empty() };
        lemma_trim_start(remaining.skip(cut as int));
        lemma_split_pieces_visible(tail, max_len);
        let rest = split_pieces(tail, max_len);
        assert(pieces == first + rest);
        vstd::seq_lib::lemma_flatten_concat(first, rest);
        lemma_visible_concat(first.flatten(), rest.flatten());
        lemma_visible_trim(remaining.take(cut as int));
        lemma_visible_trim_start(remaining.skip(cut as int));
        assert(remaining =~= remaining.take(cut as int) + remaining.skip(cut as int));
        lemma_visible_concat(remaining.take(cut as int), remaining.skip(cut as int));
        if head.len() > 0 {
            assert(first.drop_first() =~= Seq::<Seq<char>>::empty());
            assert(first.drop_first().flatten() == Seq::<char>::empty());
            assert(first.flatten() == first.first() + first.drop_first().flatten());
            assert(first.flatten() =~= head);
        } else {
            assert(head =~= Seq::<char>::empty());
            assert(visible(head) =~= Seq::<char>::empty());
            assert(first.flatten() =~= Seq::<char>::empty());
        }
        assert(visible(first.flatten()) + visible(rest.flatten()) =~= visible(remaining.take(cut as int)) + visible(remaining.skip(cut as int)));
    } else if trim(remaining).len() > 0 {
        lemma_visible_trim(remaining);
        assert(pieces.drop_first() =~= Seq::<Seq<char>>::empty());
        assert(pieces.drop_first().flatten() == Seq::<char>::empty());
        assert(pieces.flatten() == pieces.first() + pieces.drop_first().flatten());
        assert(pieces.flatten() =~= trim(remaining));
    } else {
        lemma_visible_trim(remaining);
        assert(trim(remaining) =~= Seq::<char>::empty());
        assert(visible(trim(remaining)) =~= Seq::<char>::empty());
    }
}

/// Cutting a long paragraph loses nothing but whitespace: its pieces, one after another,
/// hold exactly the paragraph's non-whitespace characters, in their order.
pub proof fn law_paragraph_pieces_keep_its_text(paragraph: Seq<char>, max_len: nat)
    ensures
        visible(split_long_paragraph(paragraph, max_len).flatten()) == visible(paragraph),
{
    lemma_split_pieces_visible(trim(paragraph), max_len);
    lemma_visible_trim(paragraph);
}

// ---------------------------------------------------------------- blocks are source text

/// Whether `c` is a stretch of the Markdown text `md`, between two byte offsets, with the
/// whitespace around it trimmed.
pub open spec fn is_source_slice(md: Seq<char>, c: Seq<char>) -> bool {
    exists|a: nat, b: nat| c == trim(#[trigger] byte_slice(md, a, b))
}

spec fn all_from_source(md: Seq<char>, units: Seq<UnitView>) -> bool {
    forall|i: int| 0 <= i < units.len() ==> is_source_slice(md, #[trigger] units[i].content)
}

spec fn hard_from_source(md: Seq<char>, units: Seq<UnitView>) -> bool {
    forall|i: int| 0 <= i < units.len() && is_hard_boundary(#[trigger] units[i].kind) ==> is_source_slice(md, units[i].content)
}

proof fn lemma_push_source(md: Seq<char>, units: Seq<UnitView>, x: UnitView, a: nat, b: nat)
    requires
        all_from_source(md, units),
        x.content == trim(byte_slice(md, a, b)),
    ensures
        all_from_source(md, units.push(x)),
{
    assert forall|i: int| 0 <= i < units.push(x).len() implies is_source_slice(md, #[trigger] units.push(x)[i].content) by {
        if i < units.len() {
            assert(units.push(x)[i] == units[i]);
        } else {
            assert(units.push(x)[i] == x);
            assert(x.content == trim(byte_slice(md, a, b)));
        }
    }
}

proof fn lemma_flush_source(md: Seq<char>, st: CollectState, end: nat, kind: ChunkBlockKind)
    requires
        all_from_source(md, st.units),
    ensures
        all_from_source(md, flush_block(md, st, end, kind).units),
{
    if let Some(i) = last_open_of(st.open, kind) {
        let b = st.open[i];
        let content = trim(byte_slice(md, b.start, end));
        if content.len() > 0 {
            lemma_push_source(md, st.units, UnitView { content, path: b.path, kind: b.kind }, b.start, end);
        }
    }
}

proof fn lemma_collect_step_source(md: Seq<char>, st: CollectState, e: MdEventView)
    requires
        all_from_source(md, st.units),
    ensures
        all_from_source(md, collect_step(md, st, e).units),
{
    match e.kind {
        EventKind::End => {
            if e.tag == BlockTag::Heading {
                if let Some((level, start, text)) = st.capture {
                    let source = trim(byte_slice(md, start, e.end));
                    let title = normalize_inline(text);
                    let kept = truncate_stack(st.stack, level);
                    let stack = if title.len() > 0 { kept.push(title) } else { kept };
                    if source.len() > 0 {
                        lemma_push_source(md, st.units, UnitView { content: source, path: stack, kind: ChunkBlockKind::Heading }, start, e.end);
                    }
                }
            } else if e.tag == BlockTag::List {
                let depth: nat = if st.depth > 0 { (st.depth - 1) as nat } else { 0 };
                lemma_flush_source(md, CollectState { depth, ..st }, e.end, ChunkBlockKind::List);
            } else if e.tag != BlockTag::Other {
                lemma_flush_source(md, st, e.end, block_kind_of(e.tag));
            }
        },
        EventKind::Rule => {
            let content = trim(byte_slice(md, e.start, e.end));
            if content.len() > 0 {
                lemma_push_source(md, st.units, UnitView { content, path: st.stack, kind: ChunkBlockKind::ThematicBreak }, e.start, e.end);
            }
        },
        _ => {},
    }
}

proof fn lemma_collect_fold_source(md: Seq<char>, evs: Seq<MdEventView>)
    ensures
        all_from_source(md, collect_fold(md, evs).units),
    decreases evs.len(),
{
    if evs.len() > 0 {
        lemma_collect_fold_source(md, evs.drop_last());
        lemma_collect_step_source(md, collect_fold(md, evs.drop_last()), evs.last());
    }
}

/// The structural units of `s` come from the source exactly when all of `s`'s structural
/// units do.
proof fn lemma_structural_source(md: Seq<char>, s: Seq<UnitView>)
    ensures
        hard_from_source(md, s) <==> all_from_source(md, structural(s)),
    decreases s.len(),
{
    if s.len() > 0 {
        let d = s.drop_last();
        lemma_structural_source(md, d);
        let x = s.last();
        if hard_from_source(md, s) {
            assert forall|i: int| 0 <= i < d.len() && is_hard_boundary(#[trigger] d[i].kind) implies is_source_slice(md, d[i].content) by {
                assert(s[i] == d[i]);
            }
            if is_hard_boundary(x.kind) {
                assert(s[s.len() - 1] == x);
                lemma_all_push(md, structural(d), x);
            }
        }
        if all_from_source(md, structural(s)) {
            if is_hard_boundary(x.kind) {
                let t = structural(d);
                assert(structural(s) == t.push(x));
                assert forall|j: int| 0 <= j < t.len() implies is_source_slice(md, #[trigger] t[j].content) by {
                    assert(t.push(x)[j] == t[j]);
                }
                assert(t.push(x)[t.len() as int] == x);
            }
            assert forall|i: int| 0 <= i < s.len() && is_hard_boundary(#[trigger] s[i].kind) implies is_source_slice(md, s[i].content) by {
                if i < d.len() {
                    assert(s[i] == d[i]);
                } else {
                    assert(structural(s).last() == x);
                    assert(structural(s)[structural(s).len() - 1] == x);
                }
            }
        }
    }
}

proof fn lemma_all_push(md: Seq<char>, t: Seq<UnitView>, x: UnitView)
    requires
        all_from_source(md, t),
        is_source_slice(md, x.content),
    ensures
        all_from_source(md, t.push(x)),
{
    assert forall|j: int| 0 <= j < t.push(x).len() implies is_source_slice(md, #[trigger] t.push(x)[j].content) by {
        if j < t.len() {
            assert(t.push(x)[j] == t[j]);
        }
    }
}

/// Structural blocks are the document's own text: every structural chunk (heading, list,
/// code block, table, quote, rule, ...) is a stretch of the Markdown source between two
/// offsets, with the whitespace around it trimmed, kept whole.
pub proof fn law_structural_chunks_are_source_text(md: Seq<char>, evs: Seq<MdEventView>)
    ensures
        forall|i: int|
            0 <= i < chunk_units(md, evs).len() && is_hard_boundary(#[trigger] chunk_units(md, evs)[i].kind)
                ==> is_source_slice(md, chunk_units(md, evs)[i].content),
{
    let units = collect_units(md, evs);
    lemma_collect_fold_source(md, evs);
    assert forall|i: int| 0 <= i < units.len() && is_hard_boundary(#[trigger] units[i].kind) implies is_source_slice(md, units[i].content) by {
        assert(is_source_slice(md, units[i].content));
    }
    lemma_structural_source(md, units);
    law_structural_blocks_stay_whole(units);
    lemma_structural_source(md, chunk_units(md, evs));
}

// ---------------------------------------------------------------- block kinds

/// The chunk kind that a Markdown block of `tag` is kept as, when it is kept whole.
pub open spec fn kept_kind(tag: BlockTag) -> Option<ChunkBlockKind> {
    if tag == BlockTag::Quote {
        Some(ChunkBlockKind::Quote)
    } else if tag == BlockTag::List {
        Some(ChunkBlockKind::List)
    } else if tag == BlockTag::CodeBlock {
        Some(ChunkBlockKind::CodeBlock)
    } else if tag == BlockTag::Table {
        Some(ChunkBlockKind::Table)
    } else if tag == BlockTag::Html {
        Some(ChunkBlockKind::Html)
    } else {
        None
    }
}

proof fn lemma_last_open_of(open: Seq<OpenView>, kind: ChunkBlockKind)
    ensures
        last_open_of(open, kind) matches Some(i) ==> 0 <= i < open.len() && open[i].kind == kind,
    decreases open.len(),
{
    if open.len() > 0 && open.last().kind != kind {
        lemma_last_open_of(open.drop_last(), kind);
    }
}

/// A block keeps its kind: when a quote, list, code block, table or HTML block closes and
/// adds a unit, that unit has the block's own kind (a quote gives Quote, a list List, ...).
pub proof fn law_closed_block_keeps_its_kind(md: Seq<char>, st: CollectState, e: MdEventView)
    requires
        e.kind == EventKind::End,
        kept_kind(e.tag) is Some,
        collect_step(md, st, e).units.len() > st.units.len(),
    ensures
        Some(collect_step(md, st, e).units.last().kind) == kept_kind(e.tag),
{
    if e.tag == BlockTag::List {
        lemma_last_open_of(st.open, ChunkBlockKind::List);
    } else {
        lemma_last_open_of(st.open, block_kind_of(e.tag));
    }
}

/// A heading that closes and adds a unit adds a Heading unit whose heading path ends with
/// the heading's own title, when it has one.
pub proof fn law_closed_heading_is_a_heading(md: Seq<char>, st: CollectState, e: MdEventView)
    requires
        e.kind == EventKind::End,
        e.tag == BlockTag::Heading,
        collect_step(md, st, e).units.len() > st.units.len(),
    ensures
        collect_step(md, st, e).units.last().kind == ChunkBlockKind::Heading,
        st.capture matches Some((level, start, text)) && (normalize_inline(text).len() > 0
            ==> collect_step(md, st, e).units.last().path.last() == normalize_inline(text)),
{
}

/// A document that is one block of a kept kind gives one structural chunk: the block's
/// trimmed source, under no heading, of the block's own kind (a block quote is a Quote chunk,
/// a list a List chunk, and so on).
pub proof fn law_single_block_chunk_kind(md: Seq<char>, open: MdEventView, close: MdEventView)
    requires
        open.kind == EventKind::Start,
        close.kind == EventKind::End,
        open.tag == close.tag,
        kept_kind(open.tag) is Some,
        trim(byte_slice(md, open.start, close.end)).len() > 0,
    ensures
        structural(chunk_units(md, seq![open, close])) == seq![UnitView {
            content: trim(byte_slice(md, open.start, close.end)),
            path: Seq::empty(),
            kind: kept_kind(open.tag).unwrap(),
        }],
{
    let evs = seq![open, close];
    assert(evs.drop_last() =~= seq![open]);
    assert(seq![open].drop_last() =~= Seq::<MdEventView>::empty());
    let st0 = collect_init();
    let st1 = collect_fold(md, seq![open]);
    assert(collect_fold(md, Seq::<MdEventView>::empty()) == st0);
    assert(seq![open].last() == open);
    assert(st1 == collect_step(md, st0, open));
    assert(evs.last() == close);
    let st2 = collect_fold(md, evs);
    assert(st2 == collect_step(md, st1, close));
    let kind = kept_kind(open.tag).unwrap();
    assert(st1.open.len() == 1 && st1.open[0].kind == kind && st1.open[0].start == open.start);
    assert(st1.open.last().kind == kind);
    assert(last_open_of(st1.open, kind) == Some(0int));
    let u = UnitView { content: trim(byte_slice(md, open.start, close.end)), path: Seq::empty(), kind };
    assert(st2.units =~= seq![u]);
    let units = collect_units(md, evs);
    assert(units.drop_last() =~= Seq::<UnitView>::empty());
    assert(units.last() == u);
    assert(is_hard_boundary(kind));
    assert(structural(units.drop_last()) == Seq::<UnitView>::empty());
    assert(structural(units) =~= seq![u]);
    law_structural_blocks_stay_whole(units);
}

} // verus!
