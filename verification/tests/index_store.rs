use tendril::index_store::{
    decode_term_index, decoded_archive_text, encode_term_index, is_indexed_archive, ArchiveText,
    SearchIndexErr,
};

#[test]
fn decompressed_archives_are_read_as_text() {
    match decoded_archive_text(Some(b"hello world\nsecond line".to_vec())) {
        ArchiveText::Text(t) => assert_eq!(t, "hello world\nsecond line"),
        _ => panic!("expected the page's text"),
    }
    match decoded_archive_text(Some("caf\u{e9}".as_bytes().to_vec())) {
        ArchiveText::Text(t) => assert_eq!(t, "caf\u{e9}"),
        _ => panic!("expected the page's text"),
    }
}

#[test]
fn archives_that_are_not_text_are_refused() {
    assert!(matches!(decoded_archive_text(Some(vec![0xff, 0xfe])), ArchiveText::NotText));
    assert!(matches!(decoded_archive_text(None), ArchiveText::Undecodable));
}

#[test]
fn archived_pdfs_are_skipped() {
    assert!(!is_indexed_archive("paper.pdf"));
    assert!(is_indexed_archive("page"));
    assert!(is_indexed_archive("pdf.txt"));
}

#[test]
fn term_lists_are_stored_in_bincode() {
    let terms = vec!["a".to_string(), "bc".to_string()];
    let bytes = match encode_term_index(&terms) {
        Ok(b) => b,
        Err(_) => panic!("encoding failed"),
    };
    assert_eq!(
        bytes,
        vec![2, 0, 0, 0, 0, 0, 0, 0, 1, 0, 0, 0, 0, 0, 0, 0, 97, 2, 0, 0, 0, 0, 0, 0, 0, 98, 99]
    );
    match decode_term_index(&bytes) {
        Ok(t) => assert_eq!(t, terms),
        Err(_) => panic!("decoding failed"),
    }
}

#[test]
fn truncated_term_lists_are_refused() {
    assert!(matches!(decode_term_index(&[2, 0, 0]), Err(SearchIndexErr::DeserErr(_))));
}
