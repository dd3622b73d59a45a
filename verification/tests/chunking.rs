use memori_vault::chunking::{parse_and_chunk, ChunkBlockKind, OVERLAP_SIZE};

#[test]
fn headings_become_chunk_boundaries_with_metadata() {
    let markdown = "# Alpha\n\nFirst paragraph.\n\n## Beta\n\nSecond paragraph.";
    let chunks = parse_and_chunk("notes/test.md", markdown).expect("parse markdown");

    assert!(chunks.len() >= 4);
    assert_eq!(chunks[0].block_kind, ChunkBlockKind::Heading);
    assert_eq!(chunks[0].heading_path, vec!["Alpha"]);
    assert_eq!(chunks[1].heading_path, vec!["Alpha"]);
    assert_eq!(chunks[2].heading_path, vec!["Alpha", "Beta"]);
    assert_eq!(chunks[3].heading_path, vec!["Alpha", "Beta"]);
}

#[test]
fn code_block_and_list_stay_whole() {
    let markdown = "# Section\n\n- item one\n- item two\n\n```rust\nfn main() {\n    println!(\"hi\");\n}\n```";
    let chunks = parse_and_chunk("notes/test.md", markdown).expect("parse markdown");

    assert!(chunks.iter().any(|chunk| {
        chunk.block_kind == ChunkBlockKind::List
            && chunk.content.contains("- item one")
            && chunk.content.contains("- item two")
    }));
    assert!(chunks.iter().any(|chunk| {
        chunk.block_kind == ChunkBlockKind::CodeBlock
            && chunk.content.contains("fn main()")
            && chunk.content.contains("println!")
    }));
}

#[test]
fn long_paragraph_splits_and_preserves_heading_path() {
    let paragraph = "这是一个非常长的段落。".repeat(160);
    let markdown = format!("# Weekly Report\n\n{paragraph}");
    let chunks = parse_and_chunk("notes/test.md", &markdown).expect("parse markdown");

    let long_chunks: Vec<_> = chunks
        .iter()
        .filter(|chunk| chunk.block_kind != ChunkBlockKind::Heading)
        .collect();
    assert!(long_chunks.len() >= 2);
    assert!(long_chunks
        .iter()
        .all(|chunk| chunk.heading_path == vec!["Weekly Report"]));
    assert!(long_chunks[1].content.chars().count() >= OVERLAP_SIZE / 2);
}

#[test]
fn chunk_indices_follow_order_and_file_path_is_kept() {
    let markdown = "# A\n\npara one\n\n---\n\npara two";
    let chunks = parse_and_chunk("docs/a.md", markdown).expect("parse markdown");
    for (i, chunk) in chunks.iter().enumerate() {
        assert_eq!(chunk.chunk_index, i);
        assert_eq!(chunk.file_path, "docs/a.md");
        assert!(!chunk.content.is_empty());
    }
    assert!(chunks.iter().any(|c| c.block_kind == ChunkBlockKind::ThematicBreak && c.content == "---"));
}

#[test]
fn crlf_line_endings_are_normalised() {
    let chunks = parse_and_chunk("a.md", "# T\r\n\r\nline one\r\nline two").expect("parse markdown");
    assert_eq!(chunks.len(), 2);
    // The paragraph chunk opens with the tail of the heading chunk under the same heading.
    assert_eq!(chunks[0].content, "# T");
    assert_eq!(chunks[1].content, "# T\n\nline one\nline two");
    assert_eq!(chunks[1].block_kind, ChunkBlockKind::Paragraph);
}

#[test]
fn empty_document_has_no_chunks() {
    let chunks = parse_and_chunk("a.md", "   \n\n  ").expect("parse markdown");
    assert!(chunks.is_empty());
}

#[test]
fn neighbouring_paragraphs_merge_into_one_chunk() {
    let chunks = parse_and_chunk("a.md", "first\n\nsecond").expect("parse markdown");
    assert_eq!(chunks.len(), 1);
    assert_eq!(chunks[0].content, "first\n\nsecond");
    assert_eq!(chunks[0].block_kind, ChunkBlockKind::Paragraph);
    assert!(chunks[0].heading_path.is_empty());
}

#[test]
fn invalid_chunk_config_message_names_the_limits() {
    let err = memori_vault::chunking::ParserError::InvalidChunkConfig { max: 1000, overlap: 1200 };
    assert_eq!(err.message(), "非法分块配置：MAX_CHUNK_SIZE(1000) 必须大于 OVERLAP_SIZE(1200)");
}

#[test]
fn text_chunk_after_heading_stays_within_limit() {
    let body = "a".repeat(1000);
    let doc = format!("# Title\n\n{body}\n");
    let chunks = parse_and_chunk("notes.md", &doc).expect("chunks");
    let text = chunks.iter().find(|c| c.block_kind == ChunkBlockKind::Paragraph).expect("a paragraph chunk");
    assert_eq!(text.content.chars().count(), 1000);
    for c in &chunks {
        if matches!(c.block_kind, ChunkBlockKind::Paragraph | ChunkBlockKind::Mixed) {
            assert!(c.content.chars().count() <= 1000);
        }
    }
}

#[test]
fn overlap_is_cut_to_the_room_left() {
    let first = "b".repeat(700);
    let second = "c".repeat(850);
    let doc = format!("# T\n\n{first}\n\n{second}\n");
    let chunks = parse_and_chunk("notes.md", &doc).expect("chunks");
    let texts: Vec<_> = chunks.iter().filter(|c| c.block_kind == ChunkBlockKind::Paragraph).collect();
    assert_eq!(texts.len(), 2);
    assert!(texts[1].content.ends_with(&second));
    assert!(texts[1].content.chars().count() <= 1000);
    assert!(texts[1].content.starts_with('b'));
}

#[test]
fn long_paragraph_pieces_keep_every_word_in_order() {
    let words: Vec<String> = (0..400).map(|i| format!("w{i:04}")).collect();
    let paragraph = words.join(" ");
    let chunks = parse_and_chunk("notes/long.md", &paragraph).expect("parse markdown");
    assert!(chunks.len() > 1);
    assert!(chunks[0].content.starts_with("w0000 w0001"));
    let mut next = 0;
    for chunk in &chunks {
        for word in chunk.content.split_whitespace() {
            if next < words.len() && word == words[next] {
                next += 1;
            }
        }
    }
    assert_eq!(next, words.len());
    assert!(chunks.last().unwrap().content.ends_with("w0399"));
}

#[test]
fn structural_chunks_are_verbatim_source_text() {
    let markdown = "# Title\n\n| a | b |\n|---|---|\n| 1 | 2 |\n\n```rust\nfn main() {}\n```\n\n- one\n- two\n\n> quoted\n\n---\n\ntext";
    let chunks = parse_and_chunk("docs/s.md", markdown).expect("parse markdown");
    let structural: Vec<_> = chunks
        .iter()
        .filter(|c| c.block_kind != ChunkBlockKind::Paragraph && c.block_kind != ChunkBlockKind::Mixed)
        .collect();
    assert!(structural.len() >= 5);
    for chunk in structural {
        assert!(markdown.contains(&chunk.content), "{:?}", chunk.content);
        assert_eq!(chunk.content.trim(), chunk.content);
    }
}
