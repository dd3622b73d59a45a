use std::io::Write;

use lopdf::content::{Content, Operation};
use lopdf::{Dictionary, Document, Object, Stream};
use memori_vault::documents::{
    document_format, extract_docx_text, extract_document_text, extract_pdf_text, file_extension, DocumentFormat,
};

fn docx_bytes(xml: &str) -> Vec<u8> {
    let mut writer = zip::ZipWriter::new(std::io::Cursor::new(Vec::new()));
    let options = zip::write::SimpleFileOptions::default().compression_method(zip::CompressionMethod::Stored);
    writer.start_file("word/document.xml", options).unwrap();
    writer.write_all(xml.as_bytes()).unwrap();
    writer.finish().unwrap().into_inner()
}

fn pdf_bytes(text: &str) -> Vec<u8> {
    let mut doc = Document::with_version("1.5");
    let pages_id = doc.new_object_id();
    let mut font = Dictionary::new();
    font.set("Type", "Font");
    font.set("Subtype", "Type1");
    font.set("BaseFont", "Courier");
    let font_id = doc.add_object(font);
    let mut fonts = Dictionary::new();
    fonts.set("F1", font_id);
    let mut resources = Dictionary::new();
    resources.set("Font", fonts);
    let resources_id = doc.add_object(resources);
    let content = Content {
        operations: vec![
            Operation::new("BT", vec![]),
            Operation::new("Tf", vec!["F1".into(), 12.into()]),
            Operation::new("Td", vec![100.into(), 600.into()]),
            Operation::new("Tj", vec![Object::string_literal(text)]),
            Operation::new("ET", vec![]),
        ],
    };
    let content_id = doc.add_object(Stream::new(Dictionary::new(), content.encode().unwrap()));
    let mut page = Dictionary::new();
    page.set("Type", "Page");
    page.set("Parent", pages_id);
    page.set("Contents", content_id);
    let page_id = doc.add_object(page);
    let mut pages = Dictionary::new();
    pages.set("Type", "Pages");
    pages.set("Kids", vec![Object::from(page_id)]);
    pages.set("Count", 1);
    pages.set("Resources", resources_id);
    pages.set("MediaBox", vec![0.into(), 0.into(), 595.into(), 842.into()]);
    doc.objects.insert(pages_id, Object::Dictionary(pages));
    let mut catalog = Dictionary::new();
    catalog.set("Type", "Catalog");
    catalog.set("Pages", pages_id);
    let catalog_id = doc.add_object(catalog);
    doc.trailer.set("Root", catalog_id);
    let mut bytes = Vec::new();
    doc.save_to(&mut bytes).unwrap();
    bytes
}

#[test]
fn extensions_follow_the_file_name() {
    assert_eq!(file_extension("notes/report.DOCX"), Some("DOCX".to_string()));
    assert_eq!(file_extension("a/b.tar.gz"), Some("gz".to_string()));
    assert_eq!(file_extension("dir.d/file"), None);
    assert_eq!(file_extension(".bashrc"), None);
    assert_eq!(file_extension("archive."), Some(String::new()));
    assert_eq!(file_extension("docs/paper.pdf/"), Some("pdf".to_string()));
    assert_eq!(file_extension("docs/.."), None);
    assert_eq!(file_extension(""), None);
    assert_eq!(document_format("x/Y.Pdf"), Some(DocumentFormat::Pdf));
    assert_eq!(document_format("x/y.docx"), Some(DocumentFormat::Docx));
    assert_eq!(document_format("x/y.doc"), Some(DocumentFormat::Doc));
    assert_eq!(document_format("x/y.XLS"), Some(DocumentFormat::Xls));
    assert_eq!(document_format("x/y.Ppt"), Some(DocumentFormat::Ppt));
    assert_eq!(document_format("x/y.pptx"), None);
}

#[test]
fn docx_text_runs_are_joined_and_cleaned() {
    let xml = "<?xml version=\"1.0\"?><w:document><w:body><w:p><w:r><w:t>Hel\u{AD}lo </w:t></w:r><w:r><w:t>W&amp;rld</w:t></w:r></w:p><w:p><w:r><w:t>a\r\nb\rc</w:t></w:r></w:p></w:body></w:document>";
    let text = extract_docx_text(&docx_bytes(xml)).expect("docx text");
    assert_eq!(text, "HelloW&rlda\nb\nc");
    assert_eq!(extract_document_text("notes/a.docx", &docx_bytes(xml)), Some(text));
}

#[test]
fn unreadable_or_unsupported_documents_give_nothing() {
    assert_eq!(extract_docx_text(b"not a zip"), None);
    assert_eq!(extract_pdf_text(b"not a pdf"), None);
    assert_eq!(extract_document_text("notes/a.txt", b"plain"), None);
    assert_eq!(extract_document_text("notes/a.pdf", b"plain"), None);
}

#[test]
fn pdf_page_text_is_extracted() {
    let text = extract_pdf_text(&pdf_bytes("Hello PDF")).expect("pdf text");
    assert!(text.contains("Hello PDF"), "{text:?}");
    assert!(!text.contains('\r'));
    let via_dispatch = extract_document_text("scan.PDF", &pdf_bytes("Hello PDF")).expect("pdf text");
    assert_eq!(via_dispatch, text);
}
