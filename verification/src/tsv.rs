//! Tab-separated serialization of the parsed document. One memory-map row is
//! emitted per sub-section leaf — a section without sub-sections emits no
//! row — and one memory-configuration row per region.

use vstd::prelude::*;

use crate::classify::copy_bytes;
use crate::model::{MapDocument, MemoryRegion, MemoryRegionV, SectionV, SubSection, SubSectionV};
use crate::text::{concat_bytes, join_bytes, spec_join};

verus! {

/// The memory-map row of one sub-section: section name, the space-joined
/// sub-section names, address, size, contributor, and the space-joined
/// demangled entries, tab-separated.
pub open spec fn map_row(section_name: Seq<u8>, sub: SubSectionV) -> Seq<u8> {
    section_name + seq![9u8] + spec_join(sub.names, 32) + seq![9u8] + sub.address + seq![9u8]
        + sub.size + seq![9u8] + sub.contributor + seq![9u8] + spec_join(sub.demangled, 32)
}

/// The rows of one section: one per sub-section, in order.
pub open spec fn section_rows(sec: SectionV) -> Seq<Seq<u8>> {
    Seq::new(sec.sub_sections.len(), |i: int| map_row(sec.name, sec.sub_sections[i]))
}

/// The memory-map rows of the whole document, section by section.
pub open spec fn memory_map_rows(secs: Seq<SectionV>) -> Seq<Seq<u8>>
    decreases secs.len(),
{
    if secs.len() == 0 {
        Seq::empty()
    } else {
        memory_map_rows(secs.drop_last()) + section_rows(secs.last())
    }
}

/// The number of sub-section leaves over all sections.
pub open spec fn leaf_count(secs: Seq<SectionV>) -> nat
    decreases secs.len(),
{
    if secs.len() == 0 {
        0
    } else {
        leaf_count(secs.drop_last()) + secs.last().sub_sections.len()
    }
}

/// The row list of one more section is the row list so far plus that
/// section's own rows; the leaf count grows by its sub-section count.
pub proof fn lemma_rows_push(secs: Seq<SectionV>, sec: SectionV)
    ensures
        memory_map_rows(secs.push(sec)) == memory_map_rows(secs) + section_rows(sec),
        leaf_count(secs.push(sec)) == leaf_count(secs) + sec.sub_sections.len(),
{
    assert(secs.push(sec).drop_last() =~~= secs);
    assert(secs.push(sec).last() == sec);
}

/// Serializing and re-deriving row counts equals the number of sub-section
/// leaves; a section with no sub-sections contributes no row.
pub proof fn lemma_row_count_is_leaf_count(secs: Seq<SectionV>)
    ensures
        memory_map_rows(secs).len() == leaf_count(secs),
        (forall|i: int| 0 <= i < secs.len() ==> secs[i].sub_sections.len() == 0)
            ==> memory_map_rows(secs).len() == 0,
    decreases secs.len(),
{
    if secs.len() > 0 {
        lemma_row_count_is_leaf_count(secs.drop_last());
    }
}

/// Builds the memory-map row of one sub-section.
fn build_map_row(section_name: &Vec<u8>, sub: &SubSection) -> (row: Vec<u8>)
    ensures
        row@ == map_row(section_name@, sub@),
{
    let mut row = copy_bytes(section_name);
    row.push(9);
    let names = join_bytes(&sub.names, 32);
    row = concat_bytes(row, &names);
    row.push(9);
    row = concat_bytes(row, &sub.address);
    row.push(9);
    row = concat_bytes(row, &sub.size);
    row.push(9);
    row = concat_bytes(row, &sub.contributor);
    row.push(9);
    let demangled = join_bytes(&sub.demangled, 32);
    row = concat_bytes(row, &demangled);
    proof {
        assert(sub.names.deep_view() =~~= sub@.names);
        assert(sub.demangled.deep_view() =~~= sub@.demangled);
        assert(row@ =~= map_row(section_name@, sub@));
    }
    row
}

/// Serializes the memory map to its tab-separated rows, one per sub-section
/// leaf. The number of rows equals the number of leaves, so re-deriving the
/// row count from the serialized form recovers it; sections without
/// sub-sections emit nothing.
pub fn memory_map_tsv(doc: &MapDocument) -> (rows: Vec<Vec<u8>>)
    ensures
        rows.deep_view() == memory_map_rows(doc@.sections),
        rows@.len() == leaf_count(doc@.sections),
{
    let ghost secs = doc@.sections;
    let mut rows: Vec<Vec<u8>> = Vec::new();
    let mut i: usize = 0;
    while i < doc.sections.len()
        invariant
            0 <= i <= doc.sections@.len(),
            secs == doc@.sections,
            secs.len() == doc.sections@.len(),
            rows.deep_view() == memory_map_rows(secs.take(i as int)),
            rows@.len() == leaf_count(secs.take(i as int)),
        decreases doc.sections@.len() - i,
    {
        let sec = &doc.sections[i];
        let ghost secv = secs[i as int];
        proof {
            assert(sec@ == secv);
        }
        let mut j: usize = 0;
        while j < sec.sub_sections.len()
            invariant
                0 <= j <= sec.sub_sections@.len(),
                sec@ == secv,
                secv.sub_sections.len() == sec.sub_sections@.len(),
                rows.deep_view() == memory_map_rows(secs.take(i as int)) + section_rows(
                    secv,
                ).take(j as int),
                rows@.len() == leaf_count(secs.take(i as int)) + j,
            decreases sec.sub_sections@.len() - j,
        {
            let row = build_map_row(&sec.name, &sec.sub_sections[j]);
            let ghost r0 = rows.deep_view();
            let ghost rv = row@;
            rows.push(row);
            proof {
                assert(sec.sub_sections@[j as int]@ == secv.sub_sections[j as int]);
                assert(rows.deep_view() =~~= r0.push(rv));
                assert(section_rows(secv).take(j + 1) =~= section_rows(secv).take(
                    j as int,
                ).push(map_row(secv.name, secv.sub_sections[j as int])));
                assert(rows.deep_view() =~~= memory_map_rows(secs.take(i as int)) + section_rows(
                    secv,
                ).take(j + 1));
            }
            j = j + 1;
        }
        proof {
            assert(section_rows(secv).take(section_rows(secv).len() as int) =~= section_rows(
                secv,
            ));
            lemma_rows_push(secs.take(i as int), secv);
            assert(secs.take(i + 1) =~= secs.take(i as int).push(secv));
        }
        i = i + 1;
    }
    proof {
        assert(secs.take(secs.len() as int) =~= secs);
        lemma_row_count_is_leaf_count(secs);
    }
    rows
}

/// The memory-configuration row of one region: name, origin, length and
/// attributes, tab-separated.
pub open spec fn region_row(r: MemoryRegionV) -> Seq<u8> {
    r.name + seq![9u8] + r.origin + seq![9u8] + r.length + seq![9u8] + r.attributes
}

/// The rows of the memory-configuration table, one per region.
pub open spec fn memory_region_rows(rs: Seq<MemoryRegionV>) -> Seq<Seq<u8>> {
    Seq::new(rs.len(), |i: int| region_row(rs[i]))
}

/// Builds the memory-configuration row of one region.
fn build_region_row(r: &MemoryRegion) -> (row: Vec<u8>)
    ensures
        row@ == region_row(r@),
{
    let mut row = copy_bytes(&r.name);
    row.push(9);
    row = concat_bytes(row, &r.origin);
    row.push(9);
    row = concat_bytes(row, &r.length);
    row.push(9);
    row = concat_bytes(row, &r.attributes);
    proof {
        assert(row@ =~= region_row(r@));
    }
    row
}

/// Serializes the memory-configuration table to its tab-separated rows, one
/// per region.
pub fn memory_regions_tsv(doc: &MapDocument) -> (rows: Vec<Vec<u8>>)
    ensures
        rows.deep_view() == memory_region_rows(doc@.memory_regions),
        rows@.len() == doc@.memory_regions.len(),
{
    let ghost regions = doc@.memory_regions;
    let mut rows: Vec<Vec<u8>> = Vec::new();
    let mut i: usize = 0;
    while i < doc.memory_regions.len()
        invariant
            0 <= i <= doc.memory_regions@.len(),
            regions == doc@.memory_regions,
            regions.len() == doc.memory_regions@.len(),
            rows.deep_view() == memory_region_rows(regions.take(i as int)),
            rows@.len() == i,
        decreases doc.memory_regions@.len() - i,
    {
        let row = build_region_row(&doc.memory_regions[i]);
        let ghost r0 = rows.deep_view();
        let ghost rv = row@;
        rows.push(row);
        proof {
            assert(doc.memory_regions@[i as int]@ == regions[i as int]);
            assert(rows.deep_view() =~~= r0.push(rv));
            assert(memory_region_rows(regions.take(i + 1)) =~~= memory_region_rows(
                regions.take(i as int),
            ).push(region_row(regions[i as int])));
        }
        i = i + 1;
    }
    proof {
        assert(regions.take(regions.len() as int) =~= regions);
    }
    rows
}

} // verus!
