use treemerge::classify::{
    begins_compound_file, classify_content, has_allowed_extension, is_text_content,
    is_text_file, is_utf8, mime_is_text, SNIFF_LEN,
};

fn list(items: &[&str]) -> Vec<String> {
    items.iter().map(|s| s.to_string()).collect()
}

const PNG: [u8; 12] = [0x89, 0x50, 0x4E, 0x47, 0x0D, 0x0A, 0x1A, 0x0A, 0x00, 0x00, 0x00, 0x0D];

#[test]
fn allowlist_admits_matching_extension_with_binary_content() {
    assert!(is_text_file("img/logo.rs", &list(&["rs"]), &PNG));
}

#[test]
fn allowlist_rejects_other_extension_with_text_content() {
    assert!(!is_text_file("notes.txt", &list(&["rs"]), b"plain text\n"));
}

#[test]
fn allowlist_ignores_case() {
    assert!(is_text_file("MAIN.RS", &list(&["rs"]), &[]));
    assert!(is_text_file("main.rs", &list(&["RS"]), &[]));
    assert!(is_text_file("a.Md", &list(&["rs", "mD"]), &[]));
}

#[test]
fn allowlist_rejects_path_without_extension() {
    assert!(!is_text_file("Makefile", &list(&["rs"]), b"all:\n"));
    assert!(!is_text_file(".bashrc", &list(&["bashrc"]), b"export A=1\n"));
    assert!(!is_text_file("dir.rs/Makefile", &list(&["rs"]), b"all:\n"));
}

#[test]
fn extension_is_taken_after_last_dot() {
    assert!(has_allowed_extension("a.tar.gz", &list(&["gz"])));
    assert!(!has_allowed_extension("a.tar.gz", &list(&["tar"])));
    assert!(!has_allowed_extension("a.tar.gz", &list(&["tar.gz"])));
    assert!(has_allowed_extension("trailing.", &list(&[""])));
    assert!(!has_allowed_extension("..", &list(&[""])));
}

#[test]
fn empty_content_is_not_text() {
    assert!(!is_text_file("empty.txt", &list(&[]), &[]));
    assert!(!is_text_content(&[]));
}

#[test]
fn utf8_content_is_text() {
    assert!(is_text_content(b"hello world\n"));
    assert!(is_text_content("gr\u{fc}\u{df}e \u{2603}".as_bytes()));
    assert!(is_text_file("data.bin", &list(&[]), b"just text"));
}

#[test]
fn binary_content_is_not_text() {
    assert!(!is_text_content(&PNG));
    assert!(!is_text_content(&[0x00, 0xFF, 0xFA, 0x80]));
    assert!(!is_text_file("picture.txt", &list(&[]), &PNG));
}

#[test]
fn text_signature_wins_over_invalid_utf8() {
    let mut page: Vec<u8> = b"<html >".to_vec();
    page.push(0xFF);
    assert!(std::str::from_utf8(&page).is_err());
    assert!(is_text_content(&page));
    let mut script: Vec<u8> = b"#!/bin/sh\n".to_vec();
    script.push(0xC0);
    assert!(is_text_content(&script));
}

#[test]
fn truncated_utf8_sequence_is_not_text() {
    let snowman = "\u{2603}".as_bytes();
    assert!(!is_text_content(&snowman[..2]));
}

#[test]
fn classify_content_follows_its_three_inputs() {
    assert!(!classify_content(0, Some("text/html"), true));
    assert!(classify_content(1, Some("text/html"), false));
    assert!(classify_content(1, Some("image/png"), true));
    assert!(!classify_content(1, Some("image/png"), false));
    assert!(classify_content(1, None, true));
    assert!(!classify_content(1, None, false));
}

#[test]
fn mime_is_text_needs_the_text_category() {
    assert!(mime_is_text(Some("text/html")));
    assert!(mime_is_text(Some("text/")));
    assert!(!mime_is_text(Some("text")));
    assert!(!mime_is_text(Some("application/text/plain")));
    assert!(!mime_is_text(Some("Text/html")));
    assert!(!mime_is_text(None));
}

#[test]
fn sniff_len_is_eight_kibibytes() {
    assert_eq!(SNIFF_LEN, 8192);
}

fn agrees_with_std(bytes: &[u8]) {
    assert_eq!(is_utf8(bytes), std::str::from_utf8(bytes).is_ok(), "{:?}", bytes);
}

#[test]
fn utf8_validity_of_short_sequences() {
    agrees_with_std(&[]);
    for a in 0..=255u8 {
        agrees_with_std(&[a]);
        for b in 0..=255u8 {
            agrees_with_std(&[a, b]);
        }
    }
}

#[test]
fn utf8_validity_of_three_byte_sequences() {
    for a in [0x7Fu8, 0xC2, 0xDF, 0xE0, 0xE1, 0xEC, 0xED, 0xEE, 0xEF, 0xF0] {
        for b in 0..=255u8 {
            for c in [0x00u8, 0x41, 0x7F, 0x80, 0x9F, 0xA0, 0xBF, 0xC0, 0xFF] {
                agrees_with_std(&[a, b, c]);
                agrees_with_std(&[0x41, a, b, c]);
            }
        }
    }
}

#[test]
fn utf8_validity_of_four_byte_sequences() {
    for a in [0xEFu8, 0xF0, 0xF1, 0xF3, 0xF4, 0xF5, 0xF7, 0xF8, 0xFF] {
        for b in 0..=255u8 {
            for c in [0x7Fu8, 0x80, 0xBF, 0xC0] {
                for d in [0x7Fu8, 0x80, 0xBF, 0xC0] {
                    agrees_with_std(&[a, b, c, d]);
                    agrees_with_std(&[a, b, c, d, 0x41]);
                    agrees_with_std(&[a, b, c]);
                }
            }
        }
    }
}

#[test]
fn utf8_validity_of_text() {
    assert!(is_utf8("plain".as_bytes()));
    assert!(is_utf8("\u{0}\u{7f}\u{80}\u{7ff}\u{800}\u{ffff}\u{10000}\u{10ffff}".as_bytes()));
    assert!(is_utf8("\u{d7ff}\u{e000}".as_bytes()));
    assert!(!is_utf8(&[0xED, 0xA0, 0x80]));
    assert!(!is_utf8(&[0xC0, 0x80]));
    assert!(!is_utf8(&[0xF4, 0x90, 0x80, 0x80]));
    assert!(!is_utf8(&[0x61, 0xE2, 0x98]));
}

const COMPOUND: [u8; 8] = [0xD0, 0xCF, 0x11, 0xE0, 0xA1, 0xB1, 0x1A, 0xE1];

#[test]
fn compound_file_is_recognised_by_its_first_eight_bytes() {
    assert!(begins_compound_file(&COMPOUND));
    let mut longer = COMPOUND.to_vec();
    longer.extend_from_slice(b"anything");
    assert!(begins_compound_file(&longer));
    assert!(!begins_compound_file(&COMPOUND[..7]));
    assert!(!begins_compound_file(&[]));
    for i in 0..8 {
        let mut other = COMPOUND;
        other[i] ^= 1;
        assert!(!begins_compound_file(&other));
    }
}

#[test]
fn compound_file_is_not_text() {
    assert!(!is_text_content(&COMPOUND));
    let mut garbage = COMPOUND.to_vec();
    garbage.extend_from_slice(&[0xFF; 600]);
    assert!(!is_text_content(&garbage));
    let mut padded = COMPOUND.to_vec();
    padded.extend_from_slice(&[0u8; 4096]);
    assert!(!is_text_content(&padded));
    assert!(!is_text_file("report.doc", &Vec::new(), &padded));
    assert!(is_text_file("report.doc", &vec!["doc".to_string()], &padded));
    assert!(!is_utf8(&COMPOUND));
}
