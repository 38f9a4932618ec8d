//! Tree-builder transition rules, driven through whole parses.

use linker_map::model::MapDocument;
use linker_map::parse::parse_map_document;

fn by(s: &str) -> Vec<u8> {
    s.as_bytes().to_vec()
}

fn parse_map_block(ls: &[&str]) -> MapDocument {
    let mut all: Vec<Vec<u8>> = vec![by("Linker script and memory map")];
    for l in ls {
        all.push(by(l));
    }
    parse_map_document(&all)
}

#[test]
fn single_line_header_one_section_no_subs() {
    let doc = parse_map_block(&[".text           0x00000000      0x100"]);
    assert_eq!(doc.sections.len(), 1);
    assert_eq!(doc.sections[0].name, by(".text"));
    assert_eq!(doc.sections[0].address, by("0x00000000"));
    assert_eq!(doc.sections[0].size, by("0x100"));
    assert!(doc.sections[0].sub_sections.is_empty());
}

#[test]
fn two_line_header_matches_single_line() {
    let split = parse_map_block(&[
        ".a_rather_long_section_name",
        "                0x00000000      0x100",
    ]);
    let joined = parse_map_block(&[".text           0x00000000      0x100"]);
    assert_eq!(split.sections.len(), 1);
    assert_eq!(joined.sections.len(), 1);
    let s = &split.sections[0];
    let j = &joined.sections[0];
    assert_eq!(s.address, j.address);
    assert_eq!(s.size, j.size);
    assert!(s.sub_sections.is_empty() && j.sub_sections.is_empty());
    assert_eq!(s.name, by(".a_rather_long_section_name"));
}

#[test]
fn overlap_merge_one_sub_joined_contributor() {
    let doc = parse_map_block(&[
        ".text           0x08000000     0x1000",
        " .text.help     0x08000064       0x10 util.o",
        " .text.help     0x08000064       0x10 util2.o",
    ]);
    assert_eq!(doc.sections[0].sub_sections.len(), 1);
    let sub = &doc.sections[0].sub_sections[0];
    assert_eq!(sub.names, vec![by(".text.help")]);
    assert_eq!(sub.contributor, by("util.o util2.o"));
    assert_eq!(sub.address, by("0x08000064"));
    assert_eq!(sub.size, by("0x10"));
}

#[test]
fn repeated_name_at_other_address_opens_new_sub() {
    let doc = parse_map_block(&[
        ".text           0x08000000     0x1000",
        " .text.help     0x08000064       0x10 util.o",
        " .text.help     0x08000074       0x10 util2.o",
    ]);
    assert_eq!(doc.sections[0].sub_sections.len(), 2);
    assert_eq!(doc.sections[0].sub_sections[0].contributor, by("util.o"));
    assert_eq!(doc.sections[0].sub_sections[1].contributor, by("util2.o"));
}

#[test]
fn bare_names_alias_until_extent_arrives() {
    let doc = parse_map_block(&[
        ".bss            0x20000000      0x200",
        " .bss.buf",
        " .bss.buf2",
        "                0x20000000      0x100 main.o",
    ]);
    assert_eq!(doc.sections[0].sub_sections.len(), 1);
    let sub = &doc.sections[0].sub_sections[0];
    assert_eq!(sub.names, vec![by(".bss.buf"), by(".bss.buf2")]);
    assert_eq!(sub.address, by("0x20000000"));
    assert_eq!(sub.size, by("0x100"));
    assert_eq!(sub.contributor, by("main.o"));
}

#[test]
fn repeated_bare_name_kept_once() {
    let doc = parse_map_block(&[
        ".text           0x00000000      0x100",
        " .foo",
        " .foo",
    ]);
    assert_eq!(doc.sections[0].sub_sections.len(), 1);
    assert_eq!(doc.sections[0].sub_sections[0].names, vec![by(".foo")]);
}

#[test]
fn repeated_name_with_extent_fills_open_sub_once() {
    let doc = parse_map_block(&[
        ".text           0x00000000      0x100",
        " .foo",
        " .foo           0x00000000       0x10 obj.o",
    ]);
    assert_eq!(doc.sections[0].sub_sections.len(), 1);
    let sub = &doc.sections[0].sub_sections[0];
    assert_eq!(sub.names, vec![by(".foo")]);
    assert_eq!(sub.address, by("0x00000000"));
    assert_eq!(sub.size, by("0x10"));
    assert_eq!(sub.contributor, by("obj.o"));
}

#[test]
fn demangled_continuations_append_in_order() {
    let doc = parse_map_block(&[
        ".text           0x08000000     0x1000",
        " .text.main     0x08000000       0x64 main.o",
        "                0x08000000                main",
        "                0x08000010                helper",
    ]);
    let sub = &doc.sections[0].sub_sections[0];
    assert_eq!(sub.contributor, by("main.o"));
    assert_eq!(sub.demangled, vec![by("main"), by("helper")]);
}

#[test]
fn data_line_with_no_open_section_is_dropped() {
    let doc = parse_map_block(&["                0x20000000      0x100 main.o"]);
    assert!(doc.sections.is_empty());
}

#[test]
fn sub_name_line_with_no_open_section_is_dropped() {
    let doc = parse_map_block(&[" .text.main     0x08000000       0x64 main.o"]);
    assert!(doc.sections.is_empty());
}

#[test]
fn new_section_abandons_unfinished_sub() {
    let doc = parse_map_block(&[
        ".text           0x08000000     0x1000",
        " .text.unfinished",
        ".bss            0x20000000      0x200",
    ]);
    assert_eq!(doc.sections.len(), 2);
    assert_eq!(doc.sections[0].sub_sections.len(), 1);
    assert_eq!(doc.sections[0].sub_sections[0].names, vec![by(".text.unfinished")]);
    assert!(doc.sections[0].sub_sections[0].address.is_empty());
    assert!(doc.sections[1].sub_sections.is_empty());
}

#[test]
fn section_with_lone_address_gets_no_extent() {
    let doc = parse_map_block(&[".text           0x08000000"]);
    assert_eq!(doc.sections.len(), 1);
    assert!(doc.sections[0].address.is_empty());
    assert!(doc.sections[0].size.is_empty());
}

#[test]
fn sub_section_under_unsized_section_receives_extent() {
    let doc = parse_map_block(&[
        ".a_rather_long_section_name",
        " .sub.x         0x00000000       0x10 obj.o",
    ]);
    let sec = &doc.sections[0];
    assert!(sec.address.is_empty());
    assert_eq!(sec.sub_sections.len(), 1);
    assert_eq!(sec.sub_sections[0].address, by("0x00000000"));
    assert_eq!(sec.sub_sections[0].contributor, by("obj.o"));
}
