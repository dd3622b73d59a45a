//! Previewing a file in the desktop application: which files may be previewed, how their
//! text is obtained, and how it is shown.
use crate::documents::{extension, file_extension};
use crate::text::{from_chars, lower, lower_chars, str_eq, to_chars, trim, trim_chars};
use vstd::prelude::*;

verus! {

/// Largest file that is previewed: 5 MiB.
pub const PREVIEW_MAX_BYTES: u64 = 5242880;

/// The extensions of files previewed as they are.
pub open spec fn plain_text_extension(ext: Seq<char>) -> bool {
    ||| ext == "md"@ ||| ext == "txt"@ ||| ext == "rs"@ ||| ext == "py"@ ||| ext == "js"@ ||| ext == "ts"@
    ||| ext == "jsx"@ ||| ext == "tsx"@ ||| ext == "json"@ ||| ext == "yaml"@ ||| ext == "yml"@ ||| ext == "toml"@
    ||| ext == "html"@ ||| ext == "css"@ ||| ext == "c"@ ||| ext == "cpp"@ ||| ext == "h"@ ||| ext == "hpp"@
    ||| ext == "go"@ ||| ext == "java"@ ||| ext == "kt"@ ||| ext == "swift"@ ||| ext == "rb"@ ||| ext == "php"@
    ||| ext == "sh"@ ||| ext == "bat"@ ||| ext == "ps1"@ ||| ext == "log"@
}

/// The extensions of documents whose text is extracted for the preview.
pub open spec fn extracted_text_extension(ext: Seq<char>) -> bool {
    ext == "docx"@ || ext == "pdf"@
}

/// How the previewed text is obtained.
#[derive(Debug, Clone, Copy, PartialEq, Eq, Structural)]
pub enum PreviewSource {
    /// The file is read as text.
    PlainText,
    /// The text is extracted from the document.
    ExtractedText,
}

/// How a file is previewed.
#[derive(Debug)]
pub struct PreviewPlan {
    /// The file's extension in lower case.
    pub extension: String,
    pub source: PreviewSource,
    /// "markdown", "document" or "text".
    pub format: String,
}

/// The path to preview, trimmed; refused when blank.
pub fn preview_path(path: &str) -> (r: Result<String, String>)
    ensures
        match r {
            Ok(p) => trim(path@).len() > 0 && p@ == trim(path@),
            Err(e) => trim(path@).len() == 0 && e@ == "文件路径为空"@,
        },
{
    let t = trim_chars(&to_chars(path));
    if t.len() == 0 {
        Err(from_chars(&to_chars("文件路径为空")))
    } else {
        Ok(from_chars(&t))
    }
}

/// The lower-case extension of a path, empty when it has none.
pub open spec fn lower_extension(path: Seq<char>) -> Seq<char> {
    match extension(path) {
        Some(e) => lower(e),
        None => Seq::empty(),
    }
}

pub open spec fn preview_format(ext: Seq<char>) -> Seq<char> {
    if ext == "md"@ {
        "markdown"@
    } else if extracted_text_extension(ext) {
        "document"@
    } else {
        "text"@
    }
}

/// How the file at `path` is previewed: text files as they are, documents by their
/// extracted text; any other file is refused.
pub fn plan_file_preview(path: &str) -> (r: Result<PreviewPlan, String>)
    ensures
        ({
            let ext = lower_extension(path@);
            match r {
                Ok(p) => {
                    &&& plain_text_extension(ext) || extracted_text_extension(ext)
                    &&& p.extension@ == ext
                    &&& p.source == (if extracted_text_extension(ext) { PreviewSource::ExtractedText } else { PreviewSource::PlainText })
                    &&& p.format@ == preview_format(ext)
                },
                Err(e) => !plain_text_extension(ext) && !extracted_text_extension(ext) && e@ == "不支持预览的文件类型: ."@ + ext,
            }
        }),
{
    let ext: Vec<char> = match file_extension(path) {
        Some(e) => lower_chars(&to_chars(e.as_str())),
        None => Vec::new(),
    };
    let text = from_chars(&ext);
    let s = text.as_str();
    let extracted = str_eq(s, "docx") || str_eq(s, "pdf");
    let plain = str_eq(s, "md") || str_eq(s, "txt") || str_eq(s, "rs") || str_eq(s, "py") || str_eq(s, "js")
        || str_eq(s, "ts") || str_eq(s, "jsx") || str_eq(s, "tsx") || str_eq(s, "json") || str_eq(s, "yaml")
        || str_eq(s, "yml") || str_eq(s, "toml") || str_eq(s, "html") || str_eq(s, "css") || str_eq(s, "c")
        || str_eq(s, "cpp") || str_eq(s, "h") || str_eq(s, "hpp") || str_eq(s, "go") || str_eq(s, "java")
        || str_eq(s, "kt") || str_eq(s, "swift") || str_eq(s, "rb") || str_eq(s, "php") || str_eq(s, "sh")
        || str_eq(s, "bat") || str_eq(s, "ps1") || str_eq(s, "log");
    if !plain && !extracted {
        let mut message = to_chars("不支持预览的文件类型: .");
        crate::text::append_chars(&mut message, &ext);
        return Err(from_chars(&message));
    }
    let format = if str_eq(s, "md") {
        "markdown"
    } else if extracted {
        "document"
    } else {
        "text"
    };
    Ok(
        PreviewPlan {
            extension: text,
            source: if extracted { PreviewSource::ExtractedText } else { PreviewSource::PlainText },
            format: from_chars(&to_chars(format)),
        },
    )
}

/// Whether a file of `len` bytes is too large to preview.
pub fn preview_too_large(len: u64) -> (r: bool)
    ensures
        r == (len > PREVIEW_MAX_BYTES),
{
    len > PREVIEW_MAX_BYTES
}

} // verus!
