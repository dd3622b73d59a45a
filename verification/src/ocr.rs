//! OCR through an external tesseract program: which executable to use, whether OCR is
//! available, and the text taken from the program's output. Any failure means "no text", so
//! indexing goes on as before.
use crate::text::{from_chars, to_chars, trim, trim_chars};
use vstd::prelude::*;

verus! {

/// The environment variable naming the tesseract executable.
pub const OCR_TESSERACT_PATH_ENV: &'static str = "MEMORI_OCR_TESSERACT_PATH";

/// Seconds one image may take before OCR is abandoned.
pub const OCR_TIMEOUT_SECS: u64 = 30;

/// Page segmentation mode handed to tesseract (single column of text of variable sizes).
pub const OCR_PSM: &'static str = "4";

/// The tesseract executable to try.
#[derive(Debug)]
pub enum TesseractCandidate {
    /// The configured path, which must be an existing file.
    Configured(String),
    /// The program name looked up on the search path, which must answer `--version`.
    Searched(String),
}

/// The candidate: the configured path (trimmed) when one is configured, otherwise the
/// program name of the platform.
pub open spec fn candidate_of(configured: Option<Seq<char>>, windows: bool) -> (bool, Seq<char>) {
    match configured {
        Some(c) => (true, trim(c)),
        None => (false, if windows { "tesseract.exe"@ } else { "tesseract"@ }),
    }
}

pub open spec fn candidate_view(c: TesseractCandidate) -> (bool, Seq<char>) {
    match c {
        TesseractCandidate::Configured(p) => (true, p@),
        TesseractCandidate::Searched(p) => (false, p@),
    }
}

/// The executable to try, from the configured path (the value of `OCR_TESSERACT_PATH_ENV`)
/// and the platform.
pub fn tesseract_candidate(configured: Option<&str>, windows: bool) -> (r: TesseractCandidate)
    ensures
        candidate_view(r) == candidate_of(
            match configured {
                Some(c) => Some(c@),
                None => None,
            },
            windows,
        ),
{
    match configured {
        Some(c) => TesseractCandidate::Configured(from_chars(&trim_chars(&to_chars(c)))),
        None => TesseractCandidate::Searched(if windows { "tesseract.exe".to_owned() } else { "tesseract".to_owned() }),
    }
}

/// The executable to use: the candidate when its check passed (the configured path is a
/// file, or the searched program ran), none otherwise.
pub fn resolve_tesseract(candidate: TesseractCandidate, usable: bool) -> (r: Option<String>)
    ensures
        match r {
            Some(p) => usable && p@ == candidate_view(candidate).1,
            None => !usable,
        },
{
    if !usable {
        return None;
    }
    match candidate {
        TesseractCandidate::Configured(p) => Some(p),
        TesseractCandidate::Searched(p) => Some(p),
    }
}

/// Whether OCR can run: a usable executable was found.
pub fn ocr_available(candidate: TesseractCandidate, usable: bool) -> (r: bool)
    ensures
        r == usable,
{
    resolve_tesseract(candidate, usable).is_some()
}

/// What `String::from_utf8_lossy` makes of `bytes`: their text, with each invalid sequence
/// replaced by U+FFFD.
pub uninterp spec fn utf8_lossy(bytes: Seq<u8>) -> Seq<char>;

/// Decodes bytes as UTF-8 with `String::from_utf8_lossy`; the text is what std gives for
/// these bytes, which `utf8_lossy` names.
#[verifier::external_body]
fn decode_utf8_lossy(bytes: &[u8]) -> (r: String)
    ensures
        r@ == utf8_lossy(bytes@),
{
    String::from_utf8_lossy(bytes).into_owned()
}

/// The recognised text of an OCR run: its standard output, trimmed; nothing when blank.
pub open spec fn ocr_text(stdout: Seq<u8>) -> Option<Seq<char>> {
    let t = trim(utf8_lossy(stdout));
    if t.len() == 0 { None } else { Some(t) }
}

/// The text recognised by a successful tesseract run, from its standard output.
pub fn ocr_output_text(stdout: &[u8]) -> (r: Option<String>)
    ensures
        match r {
            Some(t) => ocr_text(stdout@) == Some(t@),
            None => ocr_text(stdout@) is None,
        },
{
    let text = decode_utf8_lossy(stdout);
    let t = trim_chars(&to_chars(text.as_str()));
    if t.len() == 0 {
        None
    } else {
        Some(from_chars(&t))
    }
}

} // verus!
