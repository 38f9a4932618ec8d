//! Line classifier cases: which optional fields each line shape carries.

use linker_map::classify::{classify, LineFields};

fn by(s: &str) -> Vec<u8> {
    s.as_bytes().to_vec()
}

fn fields(s: &str) -> LineFields {
    classify(&by(s))
}

#[test]
fn short_section_name_line() {
    let f = fields(".text");
    assert!(f.is_section);
    assert_eq!(f.name, by(".text"));
    assert!(f.address.is_empty());
    assert!(f.size.is_empty());
    assert!(f.text.is_empty());
}

#[test]
fn short_sub_section_name_line() {
    let f = fields(" .text.x");
    assert!(!f.is_section);
    assert_eq!(f.name, by(".text.x"));
    assert!(f.address.is_empty());
}

#[test]
fn long_name_line_without_address() {
    let f = fields(" .text.a_rather_long_sub_section_name");
    assert!(!f.is_section);
    assert_eq!(f.name, by(".text.a_rather_long_sub_section_name"));
    assert!(f.address.is_empty());
    assert!(f.size.is_empty());
    assert!(f.text.is_empty());
}

#[test]
fn section_header_with_extent() {
    let f = fields(".text           0x00000000      0x100");
    assert!(f.is_section);
    assert_eq!(f.name, by(".text"));
    assert_eq!(f.address, by("0x00000000"));
    assert_eq!(f.size, by("0x100"));
    assert!(f.text.is_empty());
}

#[test]
fn sub_section_with_extent_and_contributor() {
    let f = fields(" .text.main     0x08000000       0x64 main.o");
    assert!(!f.is_section);
    assert_eq!(f.name, by(".text.main"));
    assert_eq!(f.address, by("0x08000000"));
    assert_eq!(f.size, by("0x64"));
    assert_eq!(f.text, by("main.o"));
}

#[test]
fn continuation_line_has_no_name() {
    let f = fields("                0x08000000                main");
    assert!(f.name.is_empty());
    assert_eq!(f.address, by("0x08000000"));
    assert!(f.size.is_empty());
    assert_eq!(f.text, by("main"));
}

#[test]
fn attribute_bracket_counts_as_address_marker() {
    let f = fields(".data           [!provide]");
    assert!(f.is_section);
    assert_eq!(f.name, by(".data"));
    assert_eq!(f.address, by("[!provide]"));
}

#[test]
fn size_probe_column_space_means_no_size() {
    // Bytes 26..41 are spaces, so the probe column (offset 36) is a space:
    // the token after the address is part of the text, not a size.
    let f = fields("                0x00000000                obj.o");
    assert!(f.size.is_empty());
    assert_eq!(f.text, by("obj.o"));
}

#[test]
fn text_tail_whitespace_collapses() {
    let f = fields(" .text.a        0x00000000       0x10 obj.o   (sym   extra)");
    assert_eq!(f.size, by("0x10"));
    assert_eq!(f.text, by("obj.o (sym extra)"));
}

#[test]
fn line_shorter_than_template_still_carries_size_token() {
    // The line ends before the probe column, so the probe does not refute a
    // size; the token after the address is taken as the size.
    let f = fields(".stack          0x20000000 0x400");
    assert!(f.is_section);
    assert_eq!(f.address, by("0x20000000"));
    assert_eq!(f.size, by("0x400"));
}

#[test]
fn no_marker_at_name_column_means_name_only() {
    let f = fields(".averylongsectionname_that_runs_on 0x1000");
    assert!(f.is_section);
    assert_eq!(f.name, by(".averylongsectionname_that_runs_on"));
    assert!(f.address.is_empty());
}
