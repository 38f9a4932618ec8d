//! End-to-end tests: whole reports fed through `parse_map_document`.

use linker_map::model::MapDocument;
use linker_map::parse::parse_map_document;

fn by(s: &str) -> Vec<u8> {
    s.as_bytes().to_vec()
}

fn lines(ls: &[&str]) -> Vec<Vec<u8>> {
    ls.iter().map(|s| s.as_bytes().to_vec()).collect()
}

fn assert_same_doc(a: &MapDocument, b: &MapDocument) {
    assert_eq!(a.archive_members, b.archive_members);
    assert_eq!(a.discarded_sections, b.discarded_sections);
    assert_eq!(a.memory_regions.len(), b.memory_regions.len());
    for (x, y) in a.memory_regions.iter().zip(b.memory_regions.iter()) {
        assert_eq!(x.name, y.name);
        assert_eq!(x.origin, y.origin);
        assert_eq!(x.length, y.length);
        assert_eq!(x.attributes, y.attributes);
    }
    assert_eq!(a.sections.len(), b.sections.len());
    for (x, y) in a.sections.iter().zip(b.sections.iter()) {
        assert_eq!(x.name, y.name);
        assert_eq!(x.address, y.address);
        assert_eq!(x.size, y.size);
        assert_eq!(x.sub_sections.len(), y.sub_sections.len());
        for (u, v) in x.sub_sections.iter().zip(y.sub_sections.iter()) {
            assert_eq!(u.names, v.names);
            assert_eq!(u.address, v.address);
            assert_eq!(u.size, v.size);
            assert_eq!(u.contributor, v.contributor);
            assert_eq!(u.demangled, v.demangled);
        }
    }
}

#[test]
fn sized_section_adopts_contributor_line() {
    let doc = parse_map_document(&lines(&[
        "Linker script and memory map",
        ".text           0x00000000      0x100",
        "                0x00000000                obj.o",
    ]));
    assert_eq!(doc.sections.len(), 1);
    let sec = &doc.sections[0];
    assert_eq!(sec.name, by(".text"));
    assert_eq!(sec.address, by("0x00000000"));
    assert_eq!(sec.size, by("0x100"));
    assert_eq!(sec.sub_sections.len(), 1);
    let sub = &sec.sub_sections[0];
    assert!(sub.names.is_empty());
    assert_eq!(sub.address, by("0x00000000"));
    assert_eq!(sub.size, by(""));
    assert_eq!(sub.contributor, by("obj.o"));
    assert!(sub.demangled.is_empty());
}

#[test]
fn full_report_all_blocks() {
    let doc = parse_map_document(&lines(&[
        "Archive member included to satisfy reference by file",
        "libgcc.a(_udivsi3.o)          main.o (__udivsi3)",
        "",
        "Discarded input sections",
        " .text          0x00000000        0x0 crt0.o",
        "                some wrapped tail",
        "",
        "Memory Configuration",
        "Name             Origin             Length             Attributes",
        "FLASH            0x08000000         0x00080000         xr",
        "*default*        0x00000000         0xffffffff",
        "",
        "Linker script and memory map",
        "LOAD main.o",
        "START GROUP",
        ".text           0x08000000     0x1000",
        " .text.main     0x08000000       0x64 main.o",
        "                0x08000000                main",
        " .text.help     0x08000064       0x10 util.o",
        " .text.help     0x08000064       0x10 util2.o",
        "END GROUP",
        "",
        ".bss            0x20000000      0x200",
        " .bss.buf",
        " .bss.buf2",
        "                0x20000000      0x100 main.o",
        "OUTPUT(prog.elf elf32-littlearm)",
    ]));

    assert_eq!(doc.archive_members, vec![by("libgcc.a(_udivsi3.o)\tmain.o\t(__udivsi3)")]);
    assert_eq!(doc.discarded_sections, vec![by(".text\t0x00000000\t0x0\tcrt0.o\tsome\twrapped\ttail")]);

    assert_eq!(doc.memory_regions.len(), 1);
    assert_eq!(doc.memory_regions[0].name, by("FLASH"));
    assert_eq!(doc.memory_regions[0].origin, by("0x08000000"));
    assert_eq!(doc.memory_regions[0].length, by("0x00080000"));
    assert_eq!(doc.memory_regions[0].attributes, by("xr"));

    assert_eq!(doc.sections.len(), 2);
    let text = &doc.sections[0];
    assert_eq!(text.name, by(".text"));
    assert_eq!(text.address, by("0x08000000"));
    assert_eq!(text.size, by("0x1000"));
    assert_eq!(text.sub_sections.len(), 2);
    assert_eq!(text.sub_sections[0].names, vec![by(".text.main")]);
    assert_eq!(text.sub_sections[0].address, by("0x08000000"));
    assert_eq!(text.sub_sections[0].size, by("0x64"));
    assert_eq!(text.sub_sections[0].contributor, by("main.o"));
    assert_eq!(text.sub_sections[0].demangled, vec![by("main")]);
    assert_eq!(text.sub_sections[1].names, vec![by(".text.help")]);
    assert_eq!(text.sub_sections[1].contributor, by("util.o util2.o"));

    let bss = &doc.sections[1];
    assert_eq!(bss.name, by(".bss"));
    assert_eq!(bss.sub_sections.len(), 1);
    assert_eq!(bss.sub_sections[0].names, vec![by(".bss.buf"), by(".bss.buf2")]);
    assert_eq!(bss.sub_sections[0].address, by("0x20000000"));
    assert_eq!(bss.sub_sections[0].size, by("0x100"));
    assert_eq!(bss.sub_sections[0].contributor, by("main.o"));
}

#[test]
fn noise_lines_do_not_change_tree() {
    let with_noise = parse_map_document(&lines(&[
        "Linker script and memory map",
        "LOAD 0x1000",
        ".text           0x08000000     0x1000",
        "START GROUP",
        "",
        " .text.main     0x08000000       0x64 main.o",
        "END GROUP",
        "                                 0x08000000 load annotation",
        " *(.glue_7t)",
        "*(.rodata*)",
        "OUTPUT(prog.elf)",
    ]));
    let without_noise = parse_map_document(&lines(&[
        "Linker script and memory map",
        ".text           0x08000000     0x1000",
        " .text.main     0x08000000       0x64 main.o",
    ]));
    assert_same_doc(&with_noise, &without_noise);
}

#[test]
fn lines_before_any_marker_are_dropped() {
    let doc = parse_map_document(&lines(&[
        "stray line before any block",
        ".text           0x08000000     0x1000",
        "Memory Configuration",
        "RAM              0x20000000         0x00010000         rw",
    ]));
    assert!(doc.archive_members.is_empty());
    assert!(doc.discarded_sections.is_empty());
    assert!(doc.sections.is_empty());
    assert_eq!(doc.memory_regions.len(), 1);
    assert_eq!(doc.memory_regions[0].name, by("RAM"));
}

#[test]
fn marker_line_is_consumed_not_recorded() {
    let doc = parse_map_document(&lines(&[
        "Archive member included to satisfy reference by file",
        "member.o   reason.o (symbol)",
    ]));
    assert_eq!(doc.archive_members, vec![by("member.o\treason.o\t(symbol)")]);
}

#[test]
fn block_switch_redirects_following_lines() {
    let doc = parse_map_document(&lines(&[
        "Archive member included to satisfy reference by file",
        "first entry",
        "Discarded input sections",
        "second entry",
    ]));
    assert_eq!(doc.archive_members, vec![by("first\tentry")]);
    assert_eq!(doc.discarded_sections, vec![by("second\tentry")]);
}

#[test]
fn empty_input_gives_empty_document() {
    let doc = parse_map_document(&Vec::new());
    assert!(doc.archive_members.is_empty());
    assert!(doc.discarded_sections.is_empty());
    assert!(doc.memory_regions.is_empty());
    assert!(doc.sections.is_empty());
}
