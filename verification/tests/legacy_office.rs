use memori_vault::documents::extract_document_text;
use memori_vault::legacy_office::{excel_text, powerpoint_text, word_text};
use memori_vault::office::read_stream;

const END_OF_CHAIN: u32 = 0xFFFF_FFFE;

fn put_u16(b: &mut [u8], at: usize, v: u16) {
    b[at..at + 2].copy_from_slice(&v.to_le_bytes());
}

fn put_u32(b: &mut [u8], at: usize, v: u32) {
    b[at..at + 4].copy_from_slice(&v.to_le_bytes());
}

fn utf16le(s: &str) -> Vec<u8> {
    s.encode_utf16().flat_map(|u| u.to_le_bytes()).collect()
}

/// Appends `data` as a chain of 512-byte sectors and returns its first sector.
fn place(data: &[u8], sectors: &mut Vec<Vec<u8>>, fat: &mut Vec<u32>) -> u32 {
    if data.is_empty() {
        return END_OF_CHAIN;
    }
    let start = sectors.len() as u32;
    let n = (data.len() + 511) / 512;
    for j in 0..n {
        let mut sector = vec![0u8; 512];
        let end = data.len().min((j + 1) * 512);
        sector[..end - j * 512].copy_from_slice(&data[j * 512..end]);
        sectors.push(sector);
        fat.push(if j + 1 < n { start + j as u32 + 1 } else { END_OF_CHAIN });
    }
    start
}

/// A compound file holding `streams`; with `mini`, the streams sit in the mini stream.
fn compound(streams: &[(&str, Vec<u8>)], mini: bool) -> Vec<u8> {
    assert!(streams.len() <= 3);
    let mut sectors: Vec<Vec<u8>> = vec![vec![0u8; 512], vec![0u8; 512]];
    let mut fat: Vec<u32> = vec![0xFFFF_FFFD, END_OF_CHAIN];
    let mut header = vec![0u8; 512];
    header[..8].copy_from_slice(&[0xD0, 0xCF, 0x11, 0xE0, 0xA1, 0xB1, 0x1A, 0xE1]);
    put_u16(&mut header, 24, 0x3E);
    put_u16(&mut header, 26, 3);
    put_u16(&mut header, 28, 0xFFFE);
    put_u16(&mut header, 30, 9);
    put_u16(&mut header, 32, 6);
    put_u32(&mut header, 44, 1);
    put_u32(&mut header, 48, 1);
    put_u32(&mut header, 68, END_OF_CHAIN);
    for k in 0..109 {
        put_u32(&mut header, 76 + 4 * k, if k == 0 { 0 } else { 0xFFFF_FFFF });
    }
    let mut entries: Vec<(String, u8, u32, u32)> = Vec::new();
    if mini {
        let mut ministream: Vec<u8> = Vec::new();
        let mut minifat: Vec<u32> = Vec::new();
        let mut placed: Vec<(String, u8, u32, u32)> = Vec::new();
        for (name, data) in streams {
            let start = minifat.len() as u32;
            let n = (data.len() + 63) / 64;
            for j in 0..n {
                minifat.push(if j + 1 < n { start + j as u32 + 1 } else { END_OF_CHAIN });
            }
            let mut padded = data.clone();
            padded.resize(n * 64, 0);
            ministream.extend_from_slice(&padded);
            placed.push((name.to_string(), 2, if n == 0 { END_OF_CHAIN } else { start }, data.len() as u32));
        }
        let minifat_bytes: Vec<u8> = minifat.iter().flat_map(|v| v.to_le_bytes()).collect();
        let minifat_start = place(&minifat_bytes, &mut sectors, &mut fat);
        let root_start = place(&ministream, &mut sectors, &mut fat);
        put_u32(&mut header, 56, 4096);
        put_u32(&mut header, 60, minifat_start);
        put_u32(&mut header, 64, 1);
        entries.push(("Root Entry".to_string(), 5, root_start, ministream.len() as u32));
        entries.extend(placed);
    } else {
        put_u32(&mut header, 56, 0);
        put_u32(&mut header, 60, END_OF_CHAIN);
        entries.push(("Root Entry".to_string(), 5, END_OF_CHAIN, 0));
        for (name, data) in streams {
            let start = place(data, &mut sectors, &mut fat);
            entries.push((name.to_string(), 2, start, data.len() as u32));
        }
    }
    for (k, (name, kind, start, size)) in entries.iter().enumerate() {
        let e = 128 * k;
        let units = utf16le(name);
        sectors[1][e..e + units.len()].copy_from_slice(&units);
        put_u16(&mut sectors[1], e + 64, (units.len() + 2) as u16);
        sectors[1][e + 66] = *kind;
        put_u32(&mut sectors[1], e + 116, *start);
        put_u32(&mut sectors[1], e + 120, *size);
    }
    assert!(fat.len() <= 128);
    for k in 0..128 {
        let v = if k < fat.len() { fat[k] } else { 0xFFFF_FFFF };
        put_u32(&mut sectors[0], 4 * k, v);
    }
    let mut file = header;
    for s in sectors {
        file.extend_from_slice(&s);
    }
    file
}

fn ppt_record(ver: u16, ty: u16, body: &[u8]) -> Vec<u8> {
    let mut r = Vec::new();
    r.extend_from_slice(&ver.to_le_bytes());
    r.extend_from_slice(&ty.to_le_bytes());
    r.extend_from_slice(&(body.len() as u32).to_le_bytes());
    r.extend_from_slice(body);
    r
}

fn ppt_stream() -> Vec<u8> {
    let mut inner = ppt_record(0, 4000, &utf16le("18,600 张已核销对账单"));
    inner.extend(ppt_record(0, 1001, &[1, 2, 3, 4]));
    inner.extend(ppt_record(0, 4000, &utf16le("极光账本")));
    inner.extend(ppt_record(0, 4008, b"Aurora ledger"));
    ppt_record(15, 1000, &inner)
}

fn biff_record(ty: u16, body: &[u8]) -> Vec<u8> {
    let mut r = Vec::new();
    r.extend_from_slice(&ty.to_le_bytes());
    r.extend_from_slice(&(body.len() as u16).to_le_bytes());
    r.extend_from_slice(body);
    r
}

fn sst_string(s: &str, wide: bool) -> Vec<u8> {
    let units: Vec<u16> = s.encode_utf16().collect();
    let mut r = Vec::new();
    r.extend_from_slice(&(units.len() as u16).to_le_bytes());
    if wide {
        r.push(1);
        r.extend(utf16le(s));
    } else {
        r.push(0);
        r.extend(s.bytes());
    }
    r
}

fn workbook_stream() -> Vec<u8> {
    let mut sst = Vec::new();
    sst.extend_from_slice(&3u32.to_le_bytes());
    sst.extend_from_slice(&3u32.to_le_bytes());
    sst.extend(sst_string("一期北极星指标", true));
    sst.extend(sst_string("18,600 张", true));
    sst.extend(sst_string("Total", false));
    let mut s = biff_record(0x0809, &[0u8; 16]);
    s.extend(biff_record(0x00FC, &sst));
    s.extend(biff_record(0x000A, &[]));
    s
}

/// A WordDocument stream and its table stream with two pieces: one of 16-bit units at 512,
/// one of 8-bit characters at 900; `one_table` sets the FIB bit that names "1Table".
fn word_streams(one_table: bool) -> (Vec<u8>, Vec<u8>) {
    let first = "极光账本：字段契约评审由林知远负责\r";
    let second = "Aurora\r";
    let first_units = utf16le(first);
    let mut w = vec![0u8; 1024];
    put_u16(&mut w, 0, 0xA5EC);
    put_u16(&mut w, 10, if one_table { 0x0200 } else { 0 });
    w[512..512 + first_units.len()].copy_from_slice(&first_units);
    w[900..900 + second.len()].copy_from_slice(second.as_bytes());
    let n1 = first.encode_utf16().count() as u32;
    let n2 = second.len() as u32;
    let mut clx = vec![2u8];
    clx.extend_from_slice(&28u32.to_le_bytes());
    for cp in [0, n1, n1 + n2] {
        clx.extend_from_slice(&cp.to_le_bytes());
    }
    for fc in [512u32, 0x4000_0000 | 1800] {
        clx.extend_from_slice(&0u16.to_le_bytes());
        clx.extend_from_slice(&fc.to_le_bytes());
        clx.extend_from_slice(&0u16.to_le_bytes());
    }
    let mut table = vec![0u8; 16];
    let fc_clx = table.len() as u32;
    table.extend(clx.iter());
    put_u32(&mut w, 418, fc_clx);
    put_u32(&mut w, 422, clx.len() as u32);
    (w, table)
}

#[test]
fn extract_legacy_doc_recovers_chinese_body() {
    let (w, table) = word_streams(true);
    let file = compound(&[("WordDocument", w), ("1Table", table)], false);
    let text = extract_document_text("fixtures/legacy_sample.doc", &file).expect("extract .doc");
    assert!(text.contains("极光账本"), "missing project name: {text}");
    assert!(text.contains("字段契约评审"), "missing buried fact: {text}");
    assert!(text.contains("林知远"), "missing owner: {text}");
    assert_eq!(text, "极光账本：字段契约评审由林知远负责\nAurora\n");
}

#[test]
fn extract_legacy_xls_recovers_cell_values() {
    let file = compound(&[("Workbook", workbook_stream())], true);
    let text = extract_document_text("fixtures/legacy_sample.xls", &file).expect("extract .xls");
    assert!(text.contains("18,600 张"), "missing cell value: {text}");
    assert!(text.contains("一期北极星指标"), "missing param label: {text}");
    assert_eq!(text, "一期北极星指标\n18,600 张\nTotal\n");
}

#[test]
fn extract_legacy_ppt_recovers_slide_text() {
    let file = compound(&[("PowerPoint Document", ppt_stream())], true);
    let text = extract_document_text("fixtures/legacy_sample.ppt", &file).expect("extract .ppt");
    assert!(text.contains("18,600 张已核销对账单"), "missing slide fact: {text}");
    assert!(text.contains("极光账本"), "missing project name: {text}");
    assert_eq!(text, "18,600 张已核销对账单\n极光账本\nAurora ledger\n");
}

#[test]
fn word_text_reads_streams_kept_in_the_mini_stream() {
    let (w, table) = word_streams(false);
    let file = compound(&[("WordDocument", w), ("0Table", table)], true);
    assert_eq!(word_text(&file), Some("极光账本：字段契约评审由林知远负责\nAurora\n".to_string()));
}

#[test]
fn word_text_needs_the_table_stream_the_document_names() {
    let (w, table) = word_streams(false);
    let file = compound(&[("WordDocument", w), ("1Table", table)], false);
    assert_eq!(word_text(&file), None);
    assert_eq!(extract_document_text("a.DOC", &file), None);
}

#[test]
fn streams_are_found_by_name_in_either_storage() {
    let data: Vec<u8> = (0..700u32).map(|i| (i % 251) as u8).collect();
    for mini in [false, true] {
        let file = compound(&[("Alpha", vec![1, 2, 3]), ("Beta", data.clone())], mini);
        assert_eq!(read_stream(&file, "Beta"), Some(data.clone()));
        assert_eq!(read_stream(&file, "Alpha"), Some(vec![1, 2, 3]));
        assert_eq!(read_stream(&file, "Gamma"), None);
    }
}

#[test]
fn non_compound_bytes_give_no_legacy_text() {
    let plain = vec![b'x'; 2048];
    assert_eq!(read_stream(&plain, "WordDocument"), None);
    assert_eq!(word_text(&plain), None);
    assert_eq!(excel_text(&plain), None);
    assert_eq!(powerpoint_text(&plain), None);
    assert_eq!(extract_document_text("x.doc", &plain), None);
    assert_eq!(extract_document_text("x.xls", b"short"), None);
    assert_eq!(extract_document_text("x.ppt", &[]), None);
}

#[test]
fn a_compound_file_without_the_format_stream_gives_nothing() {
    let file = compound(&[("Workbook", workbook_stream())], true);
    assert_eq!(powerpoint_text(&file), None);
    assert_eq!(word_text(&file), None);
    assert_eq!(excel_text(&file), Some("一期北极星指标\n18,600 张\nTotal\n".to_string()));
}

#[test]
fn unpaired_surrogates_decode_to_the_replacement_character() {
    let mut body = Vec::new();
    body.extend_from_slice(&0x0041u16.to_le_bytes());
    body.extend_from_slice(&0xD800u16.to_le_bytes());
    body.extend_from_slice(&0x0042u16.to_le_bytes());
    let file = compound(&[("PowerPoint Document", ppt_record(0, 4000, &body))], true);
    assert_eq!(powerpoint_text(&file), Some("A\u{FFFD}B\n".to_string()));
}
