//! Plain text out of binary documents. The format comes from the extension of the file name:
//! a Word document (.docx) gives the text runs of its main XML part, a PDF the text of its
//! pages, an Office 97-2003 file (.doc, .xls, .ppt) the text its compound file holds; line
//! breaks come out as '\n'.
use std::io::Read;
use crate::chunk_spec::normalize_newlines;
use crate::chunking::normalize_newlines_chars;
use crate::pdf_filters::opt_bytes;
use crate::text::{join, lower, lower_chars, split_chars, split_on, str_eq, to_chars, chars_eq, from_chars, append_chars};
use crate::text::{opt_text};
use crate::legacy_office::{excel_text, excel_units, opt_units_text, powerpoint_text, powerpoint_units, word_text, word_units};
use vstd::prelude::*;

verus! {

// ---------------------------------------------------------------- file names

/// The last piece of `parts` that names something (not empty and not ".").
pub open spec fn last_named(parts: Seq<Seq<char>>) -> Option<Seq<char>>
    decreases parts.len(),
{
    if parts.len() == 0 {
        None
    } else if parts.last().len() > 0 && parts.last() != "."@ {
        Some(parts.last())
    } else {
        last_named(parts.drop_last())
    }
}

/// The final component of a '/'-separated path; nothing when there is none or it is "..".
pub open spec fn file_name(path: Seq<char>) -> Option<Seq<char>> {
    match last_named(split_on(path, '/')) {
        Some(n) => if n == ".."@ { None } else { Some(n) },
        None => None,
    }
}

/// The index of the last '.' of `s`.
pub open spec fn last_dot(s: Seq<char>) -> Option<int>
    decreases s.len(),
{
    if s.len() == 0 {
        None
    } else if s.last() == '.' {
        Some(s.len() - 1)
    } else {
        last_dot(s.drop_last())
    }
}

/// The extension of a path: what follows the last '.' of its file name, unless that dot
/// starts the name.
pub open spec fn extension(path: Seq<char>) -> Option<Seq<char>> {
    match file_name(path) {
        Some(n) => match last_dot(n) {
            Some(i) => if i == 0 { None } else { Some(n.skip(i + 1)) },
            None => None,
        },
        None => None,
    }
}

/// The extension of the file named by `path`.
pub fn file_extension(path: &str) -> (r: Option<String>)
    ensures
        match r {
            Some(e) => extension(path@) == Some(e@),
            None => extension(path@) is None,
        },
{
    let parts = split_chars(&to_chars(path), '/');
    let ghost views = parts@.map_values(|p: Vec<char>| p@);
    let mut k: usize = parts.len();
    assert(views.take(k as int) =~= views);
    let mut name: Option<usize> = None;
    while k > 0
        invariant_except_break
            name is None,
        invariant
            k <= parts.len(),
            views == parts@.map_values(|p: Vec<char>| p@),
            views == split_on(path@, '/'),
            last_named(views) == last_named(views.take(k as int)),
        ensures
            name matches Some(i) ==> i < parts.len() && last_named(views) == Some(parts@[i as int]@),
            name is None ==> k == 0 && last_named(views) == last_named(views.take(0)),
        decreases k,
    {
        let piece = &parts[k - 1];
        assert(views.take(k as int).drop_last() =~= views.take(k - 1));
        assert(views.take(k as int).last() == piece@);
        let is_dot = piece.len() == 1 && piece[0] == '.';
        if piece.len() > 0 && !is_dot {
            proof {
                if piece@ == "."@ {
                    reveal_strlit(".");
                    assert(piece@.len() == 1 && piece@[0] == '.');
                }
            }
            name = Some(k - 1);
            assert(last_named(views.take(k as int)) == Some(piece@));
            break;
        }
        proof {
            if piece@.len() > 0 {
                reveal_strlit(".");
                assert(piece@ =~= "."@);
            }
        }
        k -= 1;
    }
    let index = match name {
        Some(i) => i,
        None => {
            assert(views.take(k as int) =~= Seq::<Seq<char>>::empty());
            return None;
        },
    };
    let n = &parts[index];
    assert(last_named(views) == Some(n@));
    if chars_eq(n, &to_chars("..")) {
        return None;
    }
    let mut j: usize = n.len();
    assert(n@.take(j as int) =~= n@);
    while j > 0
        invariant
            j <= n.len(),
            last_dot(n@) == last_dot(n@.take(j as int)),
        ensures
            last_dot(n@) == last_dot(n@.take(j as int)),
            j > 0 ==> n@[j - 1] == '.',
        decreases j,
    {
        assert(n@.take(j as int).drop_last() =~= n@.take(j - 1));
        if n[j - 1] == '.' {
            break;
        }
        j -= 1;
    }
    if j == 0 {
        assert(n@.take(0) =~= Seq::<char>::empty());
        return None;
    }
    let dot = j - 1;
    assert(n@.take(j as int).last() == '.');
    assert(last_dot(n@) == Some(dot as int));
    if dot == 0 {
        return None;
    }
    let mut ext: Vec<char> = Vec::new();
    let mut m: usize = dot + 1;
    while m < n.len()
        invariant
            dot + 1 <= m <= n.len(),
            ext@ == n@.subrange(dot + 1, m as int),
        decreases n.len() - m,
    {
        ext.push(n[m]);
        m += 1;
        assert(ext@ =~= n@.subrange(dot + 1, m as int));
    }
    assert(ext@ =~= n@.skip(dot + 1));
    Some(from_chars(&ext))
}

/// A binary document format that text can be read from.
#[derive(Debug, Clone, Copy, PartialEq, Eq, Structural)]
pub enum DocumentFormat {
    Docx,
    Pdf,
    Doc,
    Xls,
    Ppt,
}

/// The format of a file, by its extension in any ASCII case.
pub open spec fn format_of(path: Seq<char>) -> Option<DocumentFormat> {
    match extension(path) {
        Some(e) => if lower(e) == "docx"@ {
            Some(DocumentFormat::Docx)
        } else if lower(e) == "pdf"@ {
            Some(DocumentFormat::Pdf)
        } else if lower(e) == "doc"@ {
            Some(DocumentFormat::Doc)
        } else if lower(e) == "xls"@ {
            Some(DocumentFormat::Xls)
        } else if lower(e) == "ppt"@ {
            Some(DocumentFormat::Ppt)
        } else {
            None
        },
        None => None,
    }
}

pub fn document_format(path: &str) -> (r: Option<DocumentFormat>)
    ensures
        r == format_of(path@),
{
    match file_extension(path) {
        Some(e) => {
            let l = lower_chars(&to_chars(e.as_str()));
            if chars_eq(&l, &to_chars("docx")) {
                Some(DocumentFormat::Docx)
            } else if chars_eq(&l, &to_chars("pdf")) {
                Some(DocumentFormat::Pdf)
            } else if chars_eq(&l, &to_chars("doc")) {
                Some(DocumentFormat::Doc)
            } else if chars_eq(&l, &to_chars("xls")) {
                Some(DocumentFormat::Xls)
            } else if chars_eq(&l, &to_chars("ppt")) {
                Some(DocumentFormat::Ppt)
            } else {
                None
            }
        },
        None => None,
    }
}


// ---------------------------------------------------------------- Word documents

/// What the zip crate reads as the member `name` of the archive held in `archive`: `None`
/// when the archive does not open, lacks the member, or the member cannot be read.
pub uninterp spec fn zip_member(archive: Seq<u8>, name: Seq<char>) -> Option<Seq<u8>>;

/// Reads one member of a zip archive in memory with `zip::ZipArchive::by_name`; its result is
/// what the zip crate gives for these bytes and this name, which `zip_member` names.
#[verifier::external_body]
fn read_zip_member(archive: &[u8], name: &str) -> (r: Option<Vec<u8>>)
    ensures
        opt_bytes(r) == zip_member(archive@, name@),
{
    let mut zip = zip::ZipArchive::new(std::io::Cursor::new(archive)).ok()?;
    let mut member = zip.by_name(name).ok()?;
    let mut bytes = Vec::new();
    member.read_to_end(&mut bytes).ok()?;
    Some(bytes)
}

/// One event of an XML reader, as far as text extraction needs it.
#[derive(Debug)]
pub enum XmlEvent {
    /// A text node, unescaped; `None` when it could not be unescaped.
    Text(Option<String>),
    /// The end of the input.
    End,
    /// A syntax error.
    Failed,
    /// Any other event (tags, comments, declarations, ...).
    Other,
}

/// The view of an XML event.
pub ghost enum XmlToken {
    Text(Option<Seq<char>>),
    End,
    Failed,
    Other,
}

impl View for XmlEvent {
    type V = XmlToken;

    open spec fn view(&self) -> XmlToken {
        match self {
            XmlEvent::Text(Some(t)) => XmlToken::Text(Some(t@)),
            XmlEvent::Text(None) => XmlToken::Text(None),
            XmlEvent::End => XmlToken::End,
            XmlEvent::Failed => XmlToken::Failed,
            XmlEvent::Other => XmlToken::Other,
        }
    }
}

/// The events `quick_xml::Reader` reads from `xml` with text trimming on, up to and
/// including the end of input or the first error.
pub uninterp spec fn xml_event_stream(xml: Seq<u8>) -> Seq<XmlToken>;

/// Reads the events of an XML document with `quick_xml::Reader::read_event_into` (with
/// `trim_text(true)`), each turned into an `XmlEvent`, until the end of the input or the
/// first error; the sequence is what quick-xml gives for these bytes, which
/// `xml_event_stream` names.
#[verifier::external_body]
fn read_xml_events(xml: &[u8]) -> (r: Vec<XmlEvent>)
    ensures
        r@.map_values(|e: XmlEvent| e@) == xml_event_stream(xml@),
{
    let mut reader = quick_xml::Reader::from_reader(xml);
    reader.config_mut().trim_text(true);
    let mut events = Vec::new();
    let mut buf = Vec::new();
    loop {
        match reader.read_event_into(&mut buf) {
            Ok(quick_xml::events::Event::Text(e)) => events.push(XmlEvent::Text(e.unescape().ok().map(|t| t.into_owned()))),
            Ok(quick_xml::events::Event::Eof) => { events.push(XmlEvent::End); return events; },
            Ok(_) => events.push(XmlEvent::Other),
            Err(_) => { events.push(XmlEvent::Failed); return events; },
        }
        buf.clear();
    }
}

/// The texts of the text events before the end of input or the first error.
pub open spec fn text_runs(tokens: Seq<XmlToken>) -> Seq<Seq<char>>
    decreases tokens.len(),
{
    if tokens.len() == 0 {
        Seq::empty()
    } else {
        match tokens[0] {
            XmlToken::End => Seq::empty(),
            XmlToken::Failed => Seq::empty(),
            XmlToken::Text(Some(t)) => seq![t] + text_runs(tokens.skip(1)),
            _ => text_runs(tokens.skip(1)),
        }
    }
}

/// The parts one after the other.
pub open spec fn concat(parts: Seq<Seq<char>>) -> Seq<char>
    decreases parts.len(),
{
    if parts.len() == 0 {
        Seq::empty()
    } else {
        concat(parts.drop_last()) + parts.last()
    }
}

/// `s` without soft hyphens (U+00AD).
pub open spec fn without_soft_hyphens(s: Seq<char>) -> Seq<char>
    decreases s.len(),
{
    if s.len() == 0 {
        s
    } else if s.last() == '\u{AD}' {
        without_soft_hyphens(s.drop_last())
    } else {
        without_soft_hyphens(s.drop_last()).push(s.last())
    }
}

/// The text of a Word document: the text runs of "word/document.xml" joined, without soft
/// hyphens, with line breaks as '\n'.
pub open spec fn docx_text(archive: Seq<u8>) -> Option<Seq<char>> {
    match zip_member(archive, "word/document.xml"@) {
        Some(xml) => Some(normalize_newlines(without_soft_hyphens(concat(text_runs(xml_event_stream(xml)))))),
        None => None,
    }
}

fn without_soft_hyphens_exec(s: &[char]) -> (r: Vec<char>)
    ensures
        r@ == without_soft_hyphens(s@),
{
    let mut r: Vec<char> = Vec::new();
    let mut k: usize = 0;
    while k < s.len()
        invariant
            k <= s.len(),
            r@ == without_soft_hyphens(s@.take(k as int)),
        decreases s.len() - k,
    {
        assert(s@.take(k + 1).drop_last() =~= s@.take(k as int));
        if s[k] != '\u{AD}' {
            r.push(s[k]);
        }
        k += 1;
    }
    assert(s@.take(k as int) =~= s@);
    r
}

/// The text of a Word document held in `content`; `None` when it is not a readable zip
/// archive with a main document part.
pub fn extract_docx_text(content: &[u8]) -> (r: Option<String>)
    ensures
        match r {
            Some(t) => docx_text(content@) == Some(t@),
            None => docx_text(content@) is None,
        },
{
    let xml = match read_zip_member(content, "word/document.xml") {
        Some(x) => x,
        None => return None,
    };
    let events = read_xml_events(&xml);
    let ghost tokens = events@.map_values(|e: XmlEvent| e@);
    let ghost mut texts: Seq<Seq<char>> = Seq::empty();
    let mut raw: Vec<char> = Vec::new();
    let mut i: usize = 0;
    assert(tokens.skip(0) =~= tokens);
    while i < events.len()
        invariant
            i <= events.len(),
            tokens == events@.map_values(|e: XmlEvent| e@),
            text_runs(tokens) == texts + text_runs(tokens.skip(i as int)),
            raw@ == concat(texts),
        ensures
            text_runs(tokens) == texts,
            raw@ == concat(texts),
        decreases events.len() - i,
    {
        assert(tokens.skip(i as int)[0] == events@[i as int]@);
        assert(tokens.skip(i as int).skip(1) =~= tokens.skip(i + 1));
        match &events[i] {
            XmlEvent::End => {
                assert(texts + Seq::<Seq<char>>::empty() =~= texts);
                break;
            },
            XmlEvent::Failed => {
                assert(texts + Seq::<Seq<char>>::empty() =~= texts);
                break;
            },
            XmlEvent::Text(Some(t)) => {
                let piece = to_chars(t.as_str());
                append_chars(&mut raw, &piece);
                proof {
                    let next = texts.push(t@);
                    assert(next.drop_last() =~= texts);
                    assert(texts + text_runs(tokens.skip(i as int)) =~= next + text_runs(tokens.skip(i + 1)));
                    texts = next;
                }
            },
            _ => {},
        }
        i += 1;
    }
    let cleaned = normalize_newlines_chars(&without_soft_hyphens_exec(&raw));
    Some(from_chars(&cleaned))
}


// ---------------------------------------------------------------- PDF documents

/// What lopdf gives for the PDF held in `pdf`: `None` when it does not load, otherwise, for
/// each page in page-number order, the page's extracted text (`None` when extraction fails).
pub uninterp spec fn pdf_page_texts(pdf: Seq<u8>) -> Option<Seq<Option<Seq<char>>>>;

/// Loads a PDF from memory with `lopdf::Document::load_mem` and extracts the text of each page
/// of `get_pages` (in page-number order) with `extract_text`; the result is what lopdf gives
/// for these bytes, which `pdf_page_texts` names. That lopdf returns, rather than panics, on
/// every malformed input is not something its source makes plain; this contract does not
/// claim it, and no input is excluded for it.
#[verifier::external_body]
fn read_pdf_pages(pdf: &[u8]) -> (r: Option<Vec<Option<String>>>)
    ensures
        match r {
            Some(pages) => pdf_page_texts(pdf@) == Some(pages@.map_values(|p: Option<String>| opt_text(p))),
            None => pdf_page_texts(pdf@) is None,
        },
{
    let doc = lopdf::Document::load_mem(pdf).ok()?;
    let mut pages = Vec::new();
    for (page_number, _) in doc.get_pages() {
        pages.push(doc.extract_text(&[page_number]).ok());
    }
    Some(pages)
}

/// The texts of the pages whose extraction succeeded, in order.
pub open spec fn extracted(pages: Seq<Option<Seq<char>>>) -> Seq<Seq<char>>
    decreases pages.len(),
{
    if pages.len() == 0 {
        Seq::empty()
    } else {
        match pages.last() {
            Some(t) => extracted(pages.drop_last()).push(t),
            None => extracted(pages.drop_last()),
        }
    }
}

/// The text of a PDF: the extracted page texts joined by '\n', with line breaks as '\n'.
pub open spec fn pdf_text(pdf: Seq<u8>) -> Option<Seq<char>> {
    match pdf_page_texts(pdf) {
        Some(pages) => Some(normalize_newlines(join(extracted(pages), seq!['\n']))),
        None => None,
    }
}

/// The text of the PDF held in `content`; `None` when it does not load.
pub fn extract_pdf_text(content: &[u8]) -> (r: Option<String>)
    ensures
        match r {
            Some(t) => pdf_text(content@) == Some(t@),
            None => pdf_text(content@) is None,
        },
{
    let pages = match read_pdf_pages(content) {
        Some(p) => p,
        None => return None,
    };
    let ghost views = pages@.map_values(|p: Option<String>| opt_text(p));
    let mut raw: Vec<char> = Vec::new();
    let mut any: bool = false;
    let mut k: usize = 0;
    while k < pages.len()
        invariant
            k <= pages.len(),
            views == pages@.map_values(|p: Option<String>| opt_text(p)),
            any == (extracted(views.take(k as int)).len() > 0),
            raw@ == join(extracted(views.take(k as int)), seq!['\n']),
        decreases pages.len() - k,
    {
        assert(views.take(k + 1).drop_last() =~= views.take(k as int));
        assert(views.take(k + 1).last() == opt_text(pages@[k as int]));
        let ghost before = extracted(views.take(k as int));
        match &pages[k] {
            Some(text) => {
                if any {
                    raw.push('\n');
                }
                let piece = to_chars(text.as_str());
                append_chars(&mut raw, &piece);
                proof {
                    let after = before.push(text@);
                    assert(after.drop_last() =~= before);
                    assert(raw@ =~= join(after, seq!['\n']));
                }
                any = true;
            },
            None => {},
        }
        k += 1;
    }
    assert(views.take(k as int) =~= views);
    let cleaned = normalize_newlines_chars(&raw);
    Some(from_chars(&cleaned))
}

/// The text of a document: by the format of its file name, a Word document's, a PDF's or an
/// Office 97-2003 file's text; nothing for other formats or unreadable content.
pub open spec fn document_text(path: Seq<char>, content: Seq<u8>) -> Option<Seq<char>> {
    match format_of(path) {
        Some(DocumentFormat::Docx) => docx_text(content),
        Some(DocumentFormat::Pdf) => pdf_text(content),
        Some(DocumentFormat::Doc) => opt_units_text(word_units(content)),
        Some(DocumentFormat::Xls) => opt_units_text(excel_units(content)),
        Some(DocumentFormat::Ppt) => opt_units_text(powerpoint_units(content)),
        None => None,
    }
}

/// The plain text of the document `file_path` whose bytes are `content`: `None` when the
/// file name does not name a supported binary format (.docx, .pdf, .doc, .xls or .ppt, in
/// any case) or the content cannot be read as one.
pub fn extract_document_text(file_path: &str, content: &[u8]) -> (r: Option<String>)
    ensures
        match r {
            Some(t) => document_text(file_path@, content@) == Some(t@),
            None => document_text(file_path@, content@) is None,
        },
{
    match document_format(file_path) {
        Some(DocumentFormat::Docx) => extract_docx_text(content),
        Some(DocumentFormat::Pdf) => extract_pdf_text(content),
        Some(DocumentFormat::Doc) => word_text(content),
        Some(DocumentFormat::Xls) => excel_text(content),
        Some(DocumentFormat::Ppt) => powerpoint_text(content),
        None => None,
    }
}

// ---------------------------------------------------------------- laws

/// No character of `s` is a carriage return.
pub open spec fn no_carriage_return(s: Seq<char>) -> bool {
    forall|i: int| 0 <= i < s.len() ==> s[i] != '\r'
}

proof fn lemma_normalize_plain(s: Seq<char>)
    requires
        no_carriage_return(s),
    ensures
        normalize_newlines(s) == s,
    decreases s.len(),
{
    if s.len() > 0 {
        assert(no_carriage_return(s.skip(1))) by {
            assert forall|i: int| 0 <= i < s.skip(1).len() implies s.skip(1)[i] != '\r' by {
                assert(s.skip(1)[i] == s[i + 1]);
            }
        }
        lemma_normalize_plain(s.skip(1));
        assert(s[0] != '\r');
        assert(seq![s[0]] + s.skip(1) =~= s);
    }
}

proof fn lemma_concat_plain(a: Seq<char>, b: Seq<char>)
    requires
        no_carriage_return(a),
        no_carriage_return(b),
    ensures
        no_carriage_return(a + b),
{
    assert forall|i: int| 0 <= i < (a + b).len() implies (a + b)[i] != '\r' by {
        if i < a.len() {
            assert((a + b)[i] == a[i]);
        } else {
            assert((a + b)[i] == b[i - a.len()]);
        }
    }
}

/// The page texts that were read, none with a carriage return.
pub open spec fn pages_plain(pages: Seq<Option<Seq<char>>>) -> bool {
    forall|i: int| 0 <= i < pages.len() ==> (#[trigger] pages[i] matches Some(t) ==> no_carriage_return(t))
}

proof fn lemma_extracted_plain(pages: Seq<Option<Seq<char>>>)
    requires
        pages_plain(pages),
    ensures
        forall|j: int| 0 <= j < extracted(pages).len() ==> no_carriage_return(#[trigger] extracted(pages)[j]),
        no_carriage_return(join(extracted(pages), seq!['\n'])),
    decreases pages.len(),
{
    if pages.len() > 0 {
        let d = pages.drop_last();
        assert(pages_plain(d)) by {
            assert forall|i: int| 0 <= i < d.len() implies (#[trigger] d[i] matches Some(t) ==> no_carriage_return(t)) by {
                assert(d[i] == pages[i]);
            }
        }
        lemma_extracted_plain(d);
        let parts = extracted(pages);
        assert(pages[pages.len() - 1] == pages.last());
        if let Some(t) = pages.last() {
            assert(parts == extracted(d).push(t));
            assert forall|j: int| 0 <= j < parts.len() implies no_carriage_return(#[trigger] parts[j]) by {
                if j < extracted(d).len() {
                    assert(parts[j] == extracted(d)[j]);
                }
            }
            if parts.len() >= 2 {
                assert(parts.drop_last() =~= extracted(d));
                lemma_concat_plain(join(extracted(d), seq!['\n']), seq!['\n']);
                lemma_concat_plain(join(extracted(d), seq!['\n']) + seq!['\n'], t);
            }
        }
    }
}

/// A PDF's text is the text of its first page read: a document of one readable page gives
/// exactly that page's text.
pub proof fn law_pdf_single_page(pdf: Seq<u8>, text: Seq<char>)
    requires
        pdf_page_texts(pdf) == Some(seq![Some(text)]),
        no_carriage_return(text),
    ensures
        pdf_text(pdf) == Some(text),
{
    let pages = seq![Some(text)];
    assert(pages.drop_last() =~= Seq::<Option<Seq<char>>>::empty());
    assert(pages.last() == Some(text));
    assert(extracted(pages.drop_last()) == Seq::<Seq<char>>::empty());
    assert(extracted(pages) == extracted(pages.drop_last()).push(text));
    assert(extracted(pages) =~= seq![text]);
    lemma_normalize_plain(text);
}

/// Each further page read adds one line break and then its text: of two PDFs whose pages are
/// the same but for one more readable page at the end of the second, the second's text is the
/// first's, '\n', and that page's text (the first having some page read).
pub proof fn law_pdf_next_page_after_line_break(
    pdf: Seq<u8>,
    longer: Seq<u8>,
    pages: Seq<Option<Seq<char>>>,
    text: Seq<char>,
)
    requires
        pdf_page_texts(pdf) == Some(pages),
        pdf_page_texts(longer) == Some(pages.push(Some(text))),
        exists|i: int| 0 <= i < pages.len() && pages[i] is Some,
        pages_plain(pages),
        no_carriage_return(text),
    ensures
        pdf_text(pdf) matches Some(first) && pdf_text(longer) == Some(first + seq!['\n'] + text),
{
    let more = pages.push(Some(text));
    assert(more.drop_last() =~= pages);
    assert(more.last() == Some(text));
    lemma_extracted_nonempty(pages);
    assert(pages_plain(more)) by {
        assert forall|i: int| 0 <= i < more.len() implies (#[trigger] more[i] matches Some(t) ==> no_carriage_return(t)) by {
            if i < pages.len() {
                assert(more[i] == pages[i]);
            }
        }
    }
    lemma_extracted_plain(pages);
    lemma_extracted_plain(more);
    let parts = extracted(more);
    assert(parts == extracted(pages).push(text));
    assert(parts.drop_last() =~= extracted(pages));
    lemma_normalize_plain(join(extracted(pages), seq!['\n']));
    lemma_normalize_plain(join(parts, seq!['\n']));
}

/// A page whose text cannot be read leaves the document's text as it was.
pub proof fn law_pdf_unread_page_adds_nothing(pdf: Seq<u8>, longer: Seq<u8>, pages: Seq<Option<Seq<char>>>)
    requires
        pdf_page_texts(pdf) == Some(pages),
        pdf_page_texts(longer) == Some(pages.push(None)),
    ensures
        pdf_text(longer) == pdf_text(pdf),
{
    let more = pages.push(None::<Seq<char>>);
    assert(more.drop_last() =~= pages);
}

proof fn lemma_extracted_nonempty(pages: Seq<Option<Seq<char>>>)
    requires
        exists|i: int| 0 <= i < pages.len() && pages[i] is Some,
    ensures
        extracted(pages).len() >= 1,
    decreases pages.len(),
{
    if !(pages.last() is Some) {
        let d = pages.drop_last();
        let i = choose|i: int| 0 <= i < pages.len() && pages[i] is Some;
        assert(i < pages.len() - 1);
        assert(d[i] == pages[i]);
        lemma_extracted_nonempty(d);
    }
}

} // verus!
