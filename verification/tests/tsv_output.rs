//! Tab-separated serialization: row contents and the row-count round trip.

use linker_map::parse::parse_map_document;
use linker_map::tsv::{memory_map_tsv, memory_regions_tsv};

fn by(s: &str) -> Vec<u8> {
    s.as_bytes().to_vec()
}

fn lines(ls: &[&str]) -> Vec<Vec<u8>> {
    ls.iter().map(|s| s.as_bytes().to_vec()).collect()
}

#[test]
fn map_row_count_equals_leaf_count() {
    let doc = parse_map_document(&lines(&[
        "Linker script and memory map",
        ".text           0x08000000     0x1000",
        " .text.main     0x08000000       0x64 main.o",
        " .text.help     0x08000064       0x10 util.o",
        ".empty          0x20000000      0x200",
        ".bss            0x20000200      0x200",
        " .bss.buf       0x20000200      0x100 main.o",
    ]));
    let leaves: usize = doc.sections.iter().map(|s| s.sub_sections.len()).sum();
    let rows = memory_map_tsv(&doc);
    assert_eq!(rows.len(), leaves);
    assert_eq!(rows.len(), 3);
}

#[test]
fn sections_without_subs_emit_no_rows() {
    let doc = parse_map_document(&lines(&[
        "Linker script and memory map",
        ".text           0x08000000     0x1000",
        ".bss            0x20000000      0x200",
    ]));
    assert_eq!(doc.sections.len(), 2);
    let rows = memory_map_tsv(&doc);
    assert!(rows.is_empty());
}

#[test]
fn map_row_fields_tab_separated() {
    let doc = parse_map_document(&lines(&[
        "Linker script and memory map",
        ".text           0x08000000     0x1000",
        " .text.main     0x08000000       0x64 main.o",
        "                0x08000000                main",
    ]));
    let rows = memory_map_tsv(&doc);
    assert_eq!(rows, vec![by(".text\t.text.main\t0x08000000\t0x64\tmain.o\tmain")]);
}

#[test]
fn map_row_joins_aliases_and_demangled_with_spaces() {
    let doc = parse_map_document(&lines(&[
        "Linker script and memory map",
        ".bss            0x20000000      0x200",
        " .bss.a",
        " .bss.b",
        "                0x20000000      0x100 main.o",
        "                0x20000000                buf_a",
        "                0x20000040                buf_b",
    ]));
    let rows = memory_map_tsv(&doc);
    assert_eq!(rows, vec![by(".bss\t.bss.a .bss.b\t0x20000000\t0x100\tmain.o\tbuf_a buf_b")]);
}

#[test]
fn region_rows_exact() {
    let doc = parse_map_document(&lines(&[
        "Memory Configuration",
        "FLASH            0x08000000         0x00080000         xr",
        "RAM              0x20000000         0x00010000         rw  !x",
    ]));
    let rows = memory_regions_tsv(&doc);
    assert_eq!(
        rows,
        vec![
            by("FLASH\t0x08000000\t0x00080000\txr"),
            by("RAM\t0x20000000\t0x00010000\trw !x"),
        ]
    );
}

#[test]
fn empty_document_serializes_to_no_rows() {
    let doc = parse_map_document(&Vec::new());
    assert!(memory_map_tsv(&doc).is_empty());
    assert!(memory_regions_tsv(&doc).is_empty());
}
