//! The excerpt shown for a reference in an answer: the paragraph of the source file that holds
//! the retrieved chunk, widened by its neighbours up to a target length.
use crate::chunk_spec::normalize_newlines;
use crate::chunking::normalize_newlines_chars;
use crate::text::{
    append_chars, contains, contains_chars, from_chars, join, join_chars, split_chars, split_on, to_chars, trim,
    trim_chars,
};
use vstd::prelude::*;

verus! {

/// The length, in characters, that an excerpt grows to when its neighbours allow.
pub const TARGET_EXCERPT_CHARS: usize = 1600;

/// The pieces of `s` between the occurrences of a blank line ("\n\n"), found from the left
/// without overlap, as `str::split("\n\n")` yields them.
pub open spec fn split_blank_lines(s: Seq<char>) -> Seq<Seq<char>>
    decreases s.len(),
{
    if s.len() == 0 {
        seq![Seq::empty()]
    } else if s.len() >= 2 && s[0] == '\n' && s[1] == '\n' {
        seq![Seq::<char>::empty()] + split_blank_lines(s.skip(2))
    } else {
        let rest = split_blank_lines(s.skip(1));
        rest.update(0, seq![s[0]] + rest[0])
    }
}

proof fn lemma_split_blank_lines_nonempty(s: Seq<char>)
    ensures
        split_blank_lines(s).len() >= 1,
    decreases s.len(),
{
    if s.len() >= 2 && s[0] == '\n' && s[1] == '\n' {
        lemma_split_blank_lines_nonempty(s.skip(2));
    } else if s.len() > 0 {
        lemma_split_blank_lines_nonempty(s.skip(1));
    }
}

/// The pieces trimmed, the blank ones dropped.
pub open spec fn nonblank_trimmed(pieces: Seq<Seq<char>>) -> Seq<Seq<char>>
    decreases pieces.len(),
{
    if pieces.len() == 0 {
        Seq::empty()
    } else {
        let init = nonblank_trimmed(pieces.drop_last());
        if trim(pieces.last()).len() > 0 {
            init.push(trim(pieces.last()))
        } else {
            init
        }
    }
}

/// The paragraphs of a file: its text with line breaks normalised, cut at blank lines, each
/// trimmed, the empty ones dropped.
pub open spec fn paragraphs(text: Seq<char>) -> Seq<Seq<char>> {
    nonblank_trimmed(split_blank_lines(normalize_newlines(text)))
}

/// A line without the carriage return that may end it.
pub open spec fn without_cr(line: Seq<char>) -> Seq<char> {
    if line.len() > 0 && line.last() == '\r' {
        line.drop_last()
    } else {
        line
    }
}

/// The first of the lines, trimmed, that has at least 8 characters.
pub open spec fn first_long_line(lines: Seq<Seq<char>>) -> Option<Seq<char>>
    decreases lines.len(),
{
    if lines.len() == 0 {
        None
    } else {
        match first_long_line(lines.drop_last()) {
            Some(l) => Some(l),
            None => {
                let t = trim(without_cr(lines.last()));
                if t.len() > 0 && t.len() >= 8 {
                    Some(t)
                } else {
                    None
                }
            },
        }
    }
}

/// What the chunk is looked for by when the whole chunk is not found: its first line of at
/// least 8 characters, else the whole (trimmed) chunk.
pub open spec fn anchor(chunk: Seq<char>) -> Seq<char> {
    match first_long_line(split_on(trim(chunk), '\n')) {
        Some(l) => l,
        None => trim(chunk),
    }
}

/// The position of the first paragraph that contains `needle`.
pub open spec fn first_containing(paras: Seq<Seq<char>>, needle: Seq<char>) -> Option<int>
    decreases paras.len(),
{
    if paras.len() == 0 {
        None
    } else {
        match first_containing(paras.drop_last(), needle) {
            Some(i) => Some(i),
            None => if contains(paras.last(), needle) { Some(paras.len() - 1) } else { None },
        }
    }
}

/// The paragraph that holds the chunk: the first holding the whole trimmed chunk, else the
/// first holding its anchor.
pub open spec fn chunk_paragraph(paras: Seq<Seq<char>>, chunk: Seq<char>) -> Option<int> {
    match first_containing(paras, trim(chunk)) {
        Some(i) => Some(i),
        None => first_containing(paras, anchor(chunk)),
    }
}

/// The window `start..end` of paragraphs, with `total` characters, widened while it is short
/// of the target: by the next paragraph when it is at least as long as the previous one,
/// otherwise by the previous one.
pub open spec fn widen(lens: Seq<int>, start: int, end: int, total: int) -> (int, int)
    decreases (if start >= 0 { start } else { 0 }) + (if end <= lens.len() { lens.len() - end } else { 0 }),
{
    if 0 <= start && end <= lens.len() && total < TARGET_EXCERPT_CHARS && (start > 0 || end < lens.len()) {
        let prev = if start > 0 { lens[start - 1] } else { 0 };
        let next = if end < lens.len() { lens[end] } else { 0 };
        if next >= prev && end < lens.len() {
            widen(lens, start, end + 1, total + next)
        } else if start > 0 {
            widen(lens, start - 1, end, total + prev)
        } else {
            (start, end)
        }
    } else {
        (start, end)
    }
}

pub open spec fn lengths(paras: Seq<Seq<char>>) -> Seq<int> {
    paras.map_values(|p: Seq<char>| p.len() as int)
}

/// The excerpt for a chunk of a file: the paragraph that holds the chunk, widened by its
/// neighbours to the target length and joined by blank lines; the chunk itself when the file
/// could not be read, has no paragraph, or holds the chunk nowhere.
pub open spec fn reference_excerpt(file_text: Option<Seq<char>>, chunk: Seq<char>) -> Seq<char> {
    match file_text {
        None => chunk,
        Some(text) => {
            let paras = paragraphs(text);
            if paras.len() == 0 {
                chunk
            } else {
                match chunk_paragraph(paras, chunk) {
                    None => chunk,
                    Some(i) => {
                        let lens = lengths(paras);
                        let (start, end) = widen(lens, i, i + 1, lens[i]);
                        join(paras.subrange(start, end), "\n\n"@)
                    },
                }
            }
        },
    }
}

proof fn lemma_widen_grows(lens: Seq<int>, start: int, end: int, total: int)
    requires
        0 <= start < end <= lens.len(),
    ensures
        0 <= widen(lens, start, end, total).0 <= start,
        end <= widen(lens, start, end, total).1 <= lens.len(),
    decreases start + (lens.len() - end),
{
    if total < TARGET_EXCERPT_CHARS && (start > 0 || end < lens.len()) {
        let prev = if start > 0 { lens[start - 1] } else { 0 };
        let next = if end < lens.len() { lens[end] } else { 0 };
        if next >= prev && end < lens.len() {
            lemma_widen_grows(lens, start, end + 1, total + next);
        } else if start > 0 {
            lemma_widen_grows(lens, start - 1, end, total + prev);
        }
    }
}

/// When a file's paragraph holds the chunk, the excerpt is a run of whole paragraphs of the
/// file that includes that paragraph.
pub proof fn law_excerpt_includes_chunk_paragraph(text: Seq<char>, chunk: Seq<char>)
    requires
        paragraphs(text).len() > 0,
        chunk_paragraph(paragraphs(text), chunk) is Some,
    ensures
        ({
            let paras = paragraphs(text);
            let i = chunk_paragraph(paras, chunk)->0;
            exists|start: int, end: int|
                0 <= start <= i < end <= paras.len()
                    && reference_excerpt(Some(text), chunk) == join(#[trigger] paras.subrange(start, end), "\n\n"@)
        }),
{
    let paras = paragraphs(text);
    let i = chunk_paragraph(paras, chunk)->0;
    lemma_chunk_paragraph_in_range(paras, chunk);
    let lens = lengths(paras);
    lemma_widen_grows(lens, i, i + 1, lens[i]);
    let (start, end) = widen(lens, i, i + 1, lens[i]);
    assert(reference_excerpt(Some(text), chunk) == join(paras.subrange(start, end), "\n\n"@));
}

proof fn lemma_first_containing_in_range(paras: Seq<Seq<char>>, needle: Seq<char>)
    ensures
        first_containing(paras, needle) matches Some(i) ==> 0 <= i < paras.len(),
    decreases paras.len(),
{
    if paras.len() > 0 {
        lemma_first_containing_in_range(paras.drop_last(), needle);
    }
}

proof fn lemma_chunk_paragraph_in_range(paras: Seq<Seq<char>>, chunk: Seq<char>)
    ensures
        chunk_paragraph(paras, chunk) matches Some(i) ==> 0 <= i < paras.len(),
{
    lemma_first_containing_in_range(paras, trim(chunk));
    lemma_first_containing_in_range(paras, anchor(chunk));
}

fn split_blank_lines_exec(s: &[char]) -> (r: Vec<Vec<char>>)
    ensures
        r@.map_values(|p: Vec<char>| p@) == split_blank_lines(s@),
{
    let mut done: Vec<Vec<char>> = Vec::new();
    let mut current: Vec<char> = Vec::new();
    let mut k: usize = 0;
    proof {
        assert(s@.skip(0) =~= s@);
        lemma_split_blank_lines_nonempty(s@);
    }
    while k < s.len()
        invariant
            k <= s.len(),
            split_blank_lines(s@.skip(k as int)).len() >= 1,
            done@.map_values(|p: Vec<char>| p@) + seq![current@ + split_blank_lines(s@.skip(k as int))[0]]
                + split_blank_lines(s@.skip(k as int)).skip(1) == split_blank_lines(s@),
        decreases s.len() - k,
    {
        let ghost here = s@.skip(k as int);
        let ghost dv = done@.map_values(|p: Vec<char>| p@);
        if k + 1 < s.len() && s[k] == '\n' && s[k + 1] == '\n' {
            proof {
                assert(here.skip(2) =~= s@.skip(k + 2));
                lemma_split_blank_lines_nonempty(s@.skip(k + 2));
                let rest = split_blank_lines(s@.skip(k + 2));
                assert(split_blank_lines(here) == seq![Seq::<char>::empty()] + rest);
                assert((seq![Seq::<char>::empty()] + rest)[0] == Seq::<char>::empty());
                assert((seq![Seq::<char>::empty()] + rest).skip(1) =~= rest);
                assert(current@ + Seq::<char>::empty() =~= current@);
                assert(dv + seq![current@] + rest =~= dv.push(current@) + seq![rest[0]] + rest.skip(1));
            }
            let piece = current;
            done.push(piece);
            current = Vec::new();
            proof {
                assert(done@.map_values(|p: Vec<char>| p@) =~= dv.push(piece@));
                assert(current@ + split_blank_lines(s@.skip(k + 2))[0] =~= split_blank_lines(s@.skip(k + 2))[0]);
            }
            k += 2;
        } else {
            proof {
                assert(here.skip(1) =~= s@.skip(k + 1));
                lemma_split_blank_lines_nonempty(s@.skip(k + 1));
                let rest = split_blank_lines(s@.skip(k + 1));
                assert(here[0] == s@[k as int]);
                assert(split_blank_lines(here) == rest.update(0, seq![s@[k as int]] + rest[0]));
                assert(rest.update(0, seq![s@[k as int]] + rest[0]).skip(1) =~= rest.skip(1));
                assert(current@ + (seq![s@[k as int]] + rest[0]) =~= current@.push(s@[k as int]) + rest[0]);
            }
            current.push(s[k]);
            k += 1;
        }
    }
    proof {
        assert(s@.skip(k as int) =~= Seq::<char>::empty());
        let dv = done@.map_values(|p: Vec<char>| p@);
        assert(seq![Seq::<char>::empty()].skip(1) =~= Seq::<Seq<char>>::empty());
        assert(current@ + Seq::<char>::empty() =~= current@);
        assert(dv + seq![current@] + Seq::<Seq<char>>::empty() =~= dv.push(current@));
    }
    let ghost dv = done@.map_values(|p: Vec<char>| p@);
    done.push(current);
    assert(done@.map_values(|p: Vec<char>| p@) =~= dv.push(done@[done.len() - 1]@));
    done
}

fn nonblank_trimmed_exec(pieces: &Vec<Vec<char>>) -> (r: Vec<Vec<char>>)
    ensures
        r@.map_values(|p: Vec<char>| p@) == nonblank_trimmed(pieces@.map_values(|p: Vec<char>| p@)),
{
    let ghost views = pieces@.map_values(|p: Vec<char>| p@);
    let mut out: Vec<Vec<char>> = Vec::new();
    let mut k: usize = 0;
    while k < pieces.len()
        invariant
            k <= pieces.len(),
            views == pieces@.map_values(|p: Vec<char>| p@),
            out@.map_values(|p: Vec<char>| p@) == nonblank_trimmed(views.take(k as int)),
        decreases pieces.len() - k,
    {
        assert(views.take(k + 1).drop_last() =~= views.take(k as int));
        assert(views.take(k + 1).last() == pieces@[k as int]@);
        let t = trim_chars(&pieces[k]);
        if t.len() > 0 {
            let ghost before = out@.map_values(|p: Vec<char>| p@);
            out.push(t);
            assert(out@.map_values(|p: Vec<char>| p@) =~= before.push(trim(pieces@[k as int]@)));
        }
        k += 1;
    }
    assert(views.take(k as int) =~= views);
    out
}

fn anchor_exec(chunk: &[char]) -> (r: Vec<char>)
    ensures
        r@ == anchor(chunk@),
{
    let trimmed = trim_chars(chunk);
    let lines = split_chars(&trimmed, '\n');
    let ghost views = lines@.map_values(|p: Vec<char>| p@);
    let mut k: usize = 0;
    while k < lines.len()
        invariant
            k <= lines.len(),
            trimmed@ == trim(chunk@),
            views == lines@.map_values(|p: Vec<char>| p@),
            views == split_on(trim(chunk@), '\n'),
            first_long_line(views.take(k as int)) is None,
        decreases lines.len() - k,
    {
        assert(views.take(k + 1).drop_last() =~= views.take(k as int));
        assert(views.take(k + 1).last() == lines@[k as int]@);
        let line = &lines[k];
        let n = line.len();
        let stripped: Vec<char> = if n > 0 && line[n - 1] == '\r' {
            let mut c: Vec<char> = Vec::new();
            let mut j: usize = 0;
            while j + 1 < n
                invariant
                    n == line.len(),
                    n > 0,
                    j + 1 <= n,
                    c@ == line@.take(j as int),
                decreases n - j,
            {
                c.push(line[j]);
                assert(line@.take(j + 1) =~= line@.take(j as int).push(line@[j as int]));
                j += 1;
            }
            assert(line@.take(j as int) =~= line@.drop_last());
            c
        } else {
            let mut c: Vec<char> = Vec::new();
            append_chars(&mut c, line);
            assert(c@ =~= line@);
            c
        };
        assert(stripped@ == without_cr(line@));
        let t = trim_chars(&stripped);
        if t.len() > 0 && t.len() >= 8 {
            assert(first_long_line(views.take(k + 1)) == Some(t@));
            proof {
                lemma_first_long_line_prefix(views, k as int + 1);
            }
            return t;
        }
        k += 1;
    }
    assert(views.take(k as int) =~= views);
    trimmed
}

proof fn lemma_first_long_line_prefix(lines: Seq<Seq<char>>, n: int)
    requires
        0 <= n <= lines.len(),
        first_long_line(lines.take(n)) is Some,
    ensures
        first_long_line(lines) == first_long_line(lines.take(n)),
    decreases lines.len() - n,
{
    if n < lines.len() {
        assert(lines.take(n + 1).drop_last() =~= lines.take(n));
        lemma_first_long_line_prefix(lines, n + 1);
    } else {
        assert(lines.take(n) =~= lines);
    }
}

proof fn lemma_first_containing_prefix(paras: Seq<Seq<char>>, needle: Seq<char>, n: int)
    requires
        0 <= n <= paras.len(),
        first_containing(paras.take(n), needle) is Some,
    ensures
        first_containing(paras, needle) == first_containing(paras.take(n), needle),
    decreases paras.len() - n,
{
    if n < paras.len() {
        assert(paras.take(n + 1).drop_last() =~= paras.take(n));
        lemma_first_containing_prefix(paras, needle, n + 1);
    } else {
        assert(paras.take(n) =~= paras);
    }
}

fn first_containing_exec(paras: &Vec<Vec<char>>, needle: &[char]) -> (r: Option<usize>)
    ensures
        match r {
            Some(i) => first_containing(paras@.map_values(|p: Vec<char>| p@), needle@) == Some(i as int)
                && i < paras.len(),
            None => first_containing(paras@.map_values(|p: Vec<char>| p@), needle@) is None,
        },
{
    let ghost views = paras@.map_values(|p: Vec<char>| p@);
    let mut k: usize = 0;
    while k < paras.len()
        invariant
            k <= paras.len(),
            views == paras@.map_values(|p: Vec<char>| p@),
            first_containing(views.take(k as int), needle@) is None,
        decreases paras.len() - k,
    {
        assert(views.take(k + 1).drop_last() =~= views.take(k as int));
        assert(views.take(k + 1).last() == paras@[k as int]@);
        if contains_chars(&paras[k], needle) {
            proof {
                lemma_first_containing_prefix(views, needle@, k as int + 1);
            }
            return Some(k);
        }
        k += 1;
    }
    assert(views.take(k as int) =~= views);
    None
}

/// The excerpt shown for a chunk of a file, given the file's text (`None` when it could not
/// be read as text) and the chunk's content.
pub fn build_reference_excerpt(file_text: Option<&str>, chunk_content: &str) -> (r: String)
    ensures
        r@ == reference_excerpt(
            match file_text {
                Some(t) => Some(t@),
                None => None,
            },
            chunk_content@,
        ),
{
    let text = match file_text {
        Some(t) => t,
        None => return from_chars(&to_chars(chunk_content)),
    };
    let normalized = normalize_newlines_chars(&to_chars(text));
    let pieces = split_blank_lines_exec(&normalized);
    let paras = nonblank_trimmed_exec(&pieces);
    let ghost pv = paras@.map_values(|p: Vec<char>| p@);
    assert(pv == paragraphs(text@));
    if paras.len() == 0 {
        return from_chars(&to_chars(chunk_content));
    }
    let chunk = to_chars(chunk_content);
    let whole = trim_chars(&chunk);
    let found = match first_containing_exec(&paras, &whole) {
        Some(i) => Some(i),
        None => {
            let a = anchor_exec(&chunk);
            first_containing_exec(&paras, &a)
        },
    };
    let index = match found {
        Some(i) => i,
        None => return from_chars(&chunk),
    };
    let ghost lens = lengths(pv);
    assert(lens.len() == paras.len());
    assert(forall|j: int| 0 <= j < paras.len() ==> lens[j] == paras@[j]@.len());
    let mut start: usize = index;
    let mut end: usize = index + 1;
    let first_len = paras[index].len();
    let mut capped: usize = if first_len < TARGET_EXCERPT_CHARS { first_len } else { TARGET_EXCERPT_CHARS };
    let ghost mut total: int = lens[index as int];
    while capped < TARGET_EXCERPT_CHARS && (start > 0 || end < paras.len())
        invariant
            start <= index < end <= paras.len(),
            lens == lengths(pv),
            pv == paras@.map_values(|p: Vec<char>| p@),
            lens.len() == paras.len(),
            forall|j: int| 0 <= j < paras.len() ==> lens[j] == paras@[j]@.len(),
            capped == if total < TARGET_EXCERPT_CHARS { total } else { TARGET_EXCERPT_CHARS as int },
            widen(lens, start as int, end as int, total) == widen(lens, index as int, index + 1, lens[index as int]),
        decreases start + (paras.len() - end),
    {
        let prev_len: usize = if start > 0 { paras[start - 1].len() } else { 0 };
        let next_len: usize = if end < paras.len() { paras[end].len() } else { 0 };
        if next_len >= prev_len && end < paras.len() {
            proof {
                total = total + next_len;
            }
            capped = if next_len < TARGET_EXCERPT_CHARS - capped { capped + next_len } else { TARGET_EXCERPT_CHARS };
            end += 1;
        } else {
            proof {
                total = total + prev_len;
            }
            capped = if prev_len < TARGET_EXCERPT_CHARS - capped { capped + prev_len } else { TARGET_EXCERPT_CHARS };
            start -= 1;
        }
    }
    let mut window: Vec<Vec<char>> = Vec::new();
    let mut j: usize = start;
    while j < end
        invariant
            start <= j <= end <= paras.len(),
            pv == paras@.map_values(|p: Vec<char>| p@),
            window@.map_values(|p: Vec<char>| p@) == pv.subrange(start as int, j as int),
        decreases end - j,
    {
        let mut copy: Vec<char> = Vec::new();
        append_chars(&mut copy, &paras[j]);
        let ghost before = window@.map_values(|p: Vec<char>| p@);
        window.push(copy);
        assert(window@.map_values(|p: Vec<char>| p@) =~= before.push(paras@[j as int]@));
        assert(pv.subrange(start as int, j + 1) =~= pv.subrange(start as int, j as int).push(pv[j as int]));
        j += 1;
    }
    from_chars(&join_chars(&window, &to_chars("\n\n")))
}

} // verus!
