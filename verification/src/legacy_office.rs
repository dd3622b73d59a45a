//! Text of the Office 97-2003 formats: the streams that hold each format's text are read out
//! of the compound file, their code units are decoded as UTF-16 and line breaks become '\n'.
use crate::chunk_spec::normalize_newlines;
use crate::chunking::normalize_newlines_chars;
use crate::office::{doc_units, doc_units_exec, ppt_units, ppt_units_exec, read_stream, stream_of, table_name};
use crate::office::{xls_units, xls_units_exec};
use crate::text::to_chars;
use vstd::prelude::*;

verus! {

/// What `String::from_utf16_lossy` makes of the code units `units`.
pub uninterp spec fn utf16_lossy(units: Seq<u16>) -> Seq<char>;

/// Whether no code unit of `units` is half of a surrogate pair.
pub open spec fn no_surrogates(units: Seq<u16>) -> bool {
    forall|i: int| 0 <= i < units.len() ==> !(0xD800 <= #[trigger] units[i] <= 0xDFFF)
}

/// Decodes UTF-16 with `String::from_utf16_lossy`, which puts U+FFFD in place of each unpaired
/// surrogate; its result is named by `utf16_lossy`. Where no unit is a surrogate, each unit is
/// the character of the same value, as UTF-16 defines.
#[verifier::external_body]
fn decode_utf16_lossy(units: &[u16]) -> (r: String)
    ensures
        r@ == utf16_lossy(units@),
        no_surrogates(units@) ==> r@ == units@.map_values(|u: u16| u as char),
{
    String::from_utf16_lossy(units)
}

/// Text from decoded code units, with "\r\n" and '\r' made '\n'.
pub open spec fn units_text(units: Seq<u16>) -> Seq<char> {
    normalize_newlines(utf16_lossy(units))
}

/// The code units of the text of a Word document held in the compound file `f`: its
/// WordDocument stream and the table stream that the stream names must both be there.
pub open spec fn word_units(f: Seq<u8>) -> Option<Seq<u16>> {
    match stream_of(f, "WordDocument"@) {
        Some(w) => match stream_of(f, table_name(w)) {
            Some(t) => Some(doc_units(w, t)),
            None => None,
        },
        None => None,
    }
}

/// The code units of the text of an Excel workbook held in the compound file `f`.
pub open spec fn excel_units(f: Seq<u8>) -> Option<Seq<u16>> {
    match stream_of(f, "Workbook"@) {
        Some(s) => Some(xls_units(s)),
        None => None,
    }
}

/// The code units of the text of a PowerPoint presentation held in the compound file `f`.
pub open spec fn powerpoint_units(f: Seq<u8>) -> Option<Seq<u16>> {
    match stream_of(f, "PowerPoint Document"@) {
        Some(s) => Some(ppt_units(s, 0, s.len())),
        None => None,
    }
}

/// The text that code units give, when there are any.
pub open spec fn opt_units_text(u: Option<Seq<u16>>) -> Option<Seq<char>> {
    match u {
        Some(units) => Some(units_text(units)),
        None => None,
    }
}

fn units_to_text(units: &[u16]) -> (r: String)
    ensures
        r@ == units_text(units@),
{
    let decoded = decode_utf16_lossy(units);
    let chars = to_chars(decoded.as_str());
    let cleaned = normalize_newlines_chars(&chars);
    crate::text::from_chars(&cleaned)
}

/// The text of a Word 97-2003 document whose file bytes are `f`; `None` when `f` is not a
/// compound file or lacks the WordDocument stream or the table stream it names.
pub fn word_text(f: &[u8]) -> (r: Option<String>)
    ensures
        match r {
            Some(t) => opt_units_text(word_units(f@)) == Some(t@),
            None => word_units(f@) is None,
        },
{
    let name = "WordDocument";
    proof {
        reveal_strlit("WordDocument");
    }
    match read_stream(f, name) {
        Some(w) => {
            let table: &str = if w.len() >= 12 && (w[10] as u32 + 256 * w[11] as u32) / 512 % 2 == 1 {
                proof {
                    reveal_strlit("1Table");
                }
                assert(crate::office::u16_at(w@, 10) == w@[10] + 256 * w@[11]);
                "1Table"
            } else {
                proof {
                    reveal_strlit("0Table");
                }
                assert(w@.len() < 12 ==> crate::office::u16_at(w@, 10) == 0);
                assert(w@.len() >= 12 ==> crate::office::u16_at(w@, 10) == w@[10] + 256 * w@[11]);
                "0Table"
            };
            assert(table@ == table_name(w@));
            match read_stream(f, table) {
                Some(t) => {
                    let units = doc_units_exec(&w, &t);
                    Some(units_to_text(&units))
                },
                None => None,
            }
        },
        None => None,
    }
}

/// The text of an Excel 97-2003 workbook whose file bytes are `f`: the strings of its
/// shared-string table; `None` when `f` is not a compound file with a Workbook stream.
pub fn excel_text(f: &[u8]) -> (r: Option<String>)
    ensures
        match r {
            Some(t) => opt_units_text(excel_units(f@)) == Some(t@),
            None => excel_units(f@) is None,
        },
{
    let name = "Workbook";
    proof {
        reveal_strlit("Workbook");
    }
    match read_stream(f, name) {
        Some(s) => {
            let units = xls_units_exec(&s);
            Some(units_to_text(&units))
        },
        None => None,
    }
}

/// The text of a PowerPoint 97-2003 presentation whose file bytes are `f`: its text atoms,
/// one line each; `None` when `f` is not a compound file with a PowerPoint Document stream.
pub fn powerpoint_text(f: &[u8]) -> (r: Option<String>)
    ensures
        match r {
            Some(t) => opt_units_text(powerpoint_units(f@)) == Some(t@),
            None => powerpoint_units(f@) is None,
        },
{
    let name = "PowerPoint Document";
    proof {
        reveal_strlit("PowerPoint Document");
    }
    match read_stream(f, name) {
        Some(s) => {
            let units = ppt_units_exec(&s);
            Some(units_to_text(&units))
        },
        None => None,
    }
}

} // verus!
