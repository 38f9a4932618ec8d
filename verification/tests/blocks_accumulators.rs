//! Accumulators of the simple blocks: archive members, discarded sections,
//! memory-configuration rows.

use linker_map::parse::parse_map_document;

fn by(s: &str) -> Vec<u8> {
    s.as_bytes().to_vec()
}

fn lines(ls: &[&str]) -> Vec<Vec<u8>> {
    ls.iter().map(|s| s.as_bytes().to_vec()).collect()
}

#[test]
fn archive_lines_normalized_to_tabs() {
    let doc = parse_map_document(&lines(&[
        "Archive member included to satisfy reference by file",
        "libc.a(exit.o)       \t  main.o   (exit)",
    ]));
    assert_eq!(doc.archive_members, vec![by("libc.a(exit.o)\tmain.o\t(exit)")]);
}

#[test]
fn blank_archive_lines_skipped() {
    let doc = parse_map_document(&lines(&[
        "Archive member included to satisfy reference by file",
        "",
        "   ",
        "one two",
    ]));
    assert_eq!(doc.archive_members, vec![by("one\ttwo")]);
}

#[test]
fn discarded_wrapped_tail_joined_onto_previous_entry() {
    let doc = parse_map_document(&lines(&[
        "Discarded input sections",
        " .text          0x00000000        0x0 a_very_long_object_file_name",
        "                _with_a_wrapped_tail.o",
    ]));
    assert_eq!(
        doc.discarded_sections,
        vec![by(".text\t0x00000000\t0x0\ta_very_long_object_file_name\t_with_a_wrapped_tail.o")]
    );
}

#[test]
fn discarded_wrap_with_no_previous_entry_stands_alone() {
    let doc = parse_map_document(&lines(&[
        "Discarded input sections",
        "                orphan tail",
    ]));
    assert_eq!(doc.discarded_sections, vec![by("orphan\ttail")]);
}

#[test]
fn region_header_and_default_row_skipped() {
    let doc = parse_map_document(&lines(&[
        "Memory Configuration",
        "Name             Origin             Length             Attributes",
        "FLASH            0x08000000         0x00080000         xr",
        "*default*        0x00000000         0xffffffff",
    ]));
    assert_eq!(doc.memory_regions.len(), 1);
    assert_eq!(doc.memory_regions[0].name, by("FLASH"));
}

#[test]
fn region_attributes_space_joined() {
    let doc = parse_map_document(&lines(&[
        "Memory Configuration",
        "RAM              0x20000000         0x00010000         rw  !x",
    ]));
    assert_eq!(doc.memory_regions[0].attributes, by("rw !x"));
}

#[test]
fn region_with_missing_columns_gets_empty_fields() {
    let doc = parse_map_document(&lines(&[
        "Memory Configuration",
        "ROM              0x00000000",
    ]));
    let r = &doc.memory_regions[0];
    assert_eq!(r.name, by("ROM"));
    assert_eq!(r.origin, by("0x00000000"));
    assert_eq!(r.length, by(""));
    assert_eq!(r.attributes, by(""));
}
