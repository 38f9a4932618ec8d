//! Laws of the parser, stated and proved over the spec-level transition
//! functions: header lines in either layout produce the same section, the
//! overlap-merge rule never duplicates a sub-section, and noise lines inside
//! the memory-map block leave the parse untouched.

use vstd::prelude::*;

use crate::builder::{
    builder_step, distinct_names, focus_unsized_inv, initial_builder, names_set_inv, sized,
    MapTreeBuilderV,
};
use crate::classify::{
    classify_line, extent_continuation_layout, lemma_classify_extent_continuation,
    lemma_classify_name_line, lemma_classify_section_header, name_line_layout,
    section_header_layout, LineFieldsV,
};
use crate::model::{SectionV, SubSectionV};
use crate::noise::{
    end_group_marker, is_noise, load_addr_cont_marker, load_marker, output_marker,
    script_echo_open, start_group_marker,
};
use crate::text::{has_prefix, is_blank};
use crate::parse::{
    block_marker, doc_step, initial_parser, lemma_run_lines_append, parse_lines, run_lines,
    MapParserV,
};

verus! {

/// For every line that classifies as a single-line section header — a section
/// name carrying both an address and a size — the builder appends exactly one
/// section holding those three fields and no sub-sections, and touches
/// nothing else.
pub proof fn lemma_single_line_section_header(st: MapTreeBuilderV, l: Seq<u8>)
    requires
        classify_line(l).is_section,
        classify_line(l).name.len() > 0,
        classify_line(l).address.len() > 0,
        classify_line(l).size.len() > 0,
    ensures
        builder_step(st, classify_line(l)).sections == st.sections.push(
            SectionV {
                name: classify_line(l).name,
                address: classify_line(l).address,
                size: classify_line(l).size,
                sub_sections: Seq::empty(),
            },
        ),
        builder_step(st, classify_line(l)).cursor is HasExtent,
{
}

/// For every valid single-line section header of the textual form
/// `NAME 0xADDR 0xSIZE`, the builder appends exactly one section holding
/// those three fields and no sub-sections.
pub proof fn lemma_section_header_text_form(
    st: MapTreeBuilderV,
    l: Seq<u8>,
    name: Seq<u8>,
    addr: Seq<u8>,
    size: Seq<u8>,
    p1: nat,
    p2: nat,
)
    requires
        section_header_layout(l, name, addr, size, p1, p2),
    ensures
        builder_step(st, classify_line(l)).sections == st.sections.push(
            SectionV { name: name, address: addr, size: size, sub_sections: Seq::empty() },
        ),
        builder_step(st, classify_line(l)).cursor is HasExtent,
{
    lemma_classify_section_header(l, name, addr, size, p1, p2);
    lemma_single_line_section_header(st, l);
}

/// A two-line section header — the name alone, then an extent continuation
/// line — yields exactly the state of the single-line form, from any starting
/// state: the split across physical lines is invisible in the result.
pub proof fn lemma_two_line_header_equivalent(st: MapTreeBuilderV, l1: Seq<u8>, l2: Seq<u8>)
    requires
        classify_line(l1).is_section,
        classify_line(l1).name.len() > 0,
        classify_line(l1).address.len() == 0,
        classify_line(l1).size.len() == 0,
        classify_line(l2).name.len() == 0,
        classify_line(l2).address.len() > 0,
        classify_line(l2).size.len() > 0,
    ensures
        builder_step(builder_step(st, classify_line(l1)), classify_line(l2)) == builder_step(
            st,
            LineFieldsV {
                name: classify_line(l1).name,
                is_section: true,
                address: classify_line(l2).address,
                size: classify_line(l2).size,
                text: Seq::empty(),
            },
        ),
{
    let f1 = classify_line(l1);
    let f2 = classify_line(l2);
    let full = LineFieldsV {
        name: f1.name,
        is_section: true,
        address: f2.address,
        size: f2.size,
        text: Seq::empty(),
    };
    let st1 = builder_step(st, f1);
    let st2 = builder_step(st1, f2);
    let bare = SectionV {
        name: f1.name,
        address: Seq::empty(),
        size: Seq::empty(),
        sub_sections: Seq::empty(),
    };
    let sized = SectionV {
        name: f1.name,
        address: f2.address,
        size: f2.size,
        sub_sections: Seq::empty(),
    };
    assert(st1.sections == st.sections.push(bare));
    assert(st1.sections.last() == bare);
    assert(st2.sections =~~= st.sections.push(bare).update(st.sections.len() as int, sized));
    assert(st2.sections =~~= st.sections.push(sized));
    assert(st2 =~~= builder_step(st, full));
}

/// A two-line section header in the textual form — a line holding the name
/// alone, then an indented `0xADDR 0xSIZE` continuation — yields exactly the
/// section the single-line form yields: one new section with those three
/// fields and no sub-sections, however the name was split off. The name's
/// length is unconstrained: the two-line form also covers names too long for
/// the name column.
pub proof fn lemma_two_line_header_text_form(
    st: MapTreeBuilderV,
    l1: Seq<u8>,
    l2: Seq<u8>,
    name: Seq<u8>,
    addr: Seq<u8>,
    size: Seq<u8>,
    p: nat,
)
    requires
        name_line_layout(l1, name),
        extent_continuation_layout(l2, addr, size, p),
    ensures
        ({
            let st2 = builder_step(builder_step(st, classify_line(l1)), classify_line(l2));
            &&& st2.sections == st.sections.push(
                SectionV { name: name, address: addr, size: size, sub_sections: Seq::empty() },
            )
            &&& st2.cursor is HasExtent
        }),
{
    lemma_classify_name_line(l1, name);
    lemma_classify_extent_continuation(l2, addr, size, p);
    lemma_two_line_header_equivalent(st, l1, l2);
    let full = LineFieldsV {
        name: name,
        is_section: true,
        address: addr,
        size: size,
        text: Seq::empty(),
    };
    assert(builder_step(st, full).sections =~~= st.sections.push(
        SectionV { name: name, address: addr, size: size, sub_sections: Seq::empty() },
    ));
}

/// Overlap-merge is idempotent in node count: fed the same complete
/// sub-section line twice in a row, a section that had no sub-section gains
/// exactly one, holding the name once, the line's extent, and as contributor
/// the space-joined text of both lines — not two sub-sections.
pub proof fn lemma_overlap_merge_idempotent(st: MapTreeBuilderV, f: LineFieldsV)
    requires
        st.sections.len() > 0,
        st.sections.last().sub_sections.len() == 0,
        !f.is_section,
        f.name.len() > 0,
        f.address.len() > 0,
        f.size.len() > 0,
        f.text.len() > 0,
    ensures
        ({
            let st2 = builder_step(builder_step(st, f), f);
            &&& st2.sections.len() == st.sections.len()
            &&& st2.sections.last().sub_sections.len() == 1
            &&& st2.sections.last().sub_sections[0].names == seq![f.name]
            &&& st2.sections.last().sub_sections[0].address == f.address
            &&& st2.sections.last().sub_sections[0].size == f.size
            &&& st2.sections.last().sub_sections[0].contributor == f.text + seq![32u8] + f.text
        }),
{
    let st1 = builder_step(st, f);
    let filled = SubSectionV {
        names: seq![f.name],
        address: f.address,
        size: f.size,
        contributor: f.text,
        demangled: Seq::empty(),
    };
    let sec1 = st1.sections.last();
    assert(sec1.sub_sections =~~= seq![filled]);
    assert(sec1.sub_sections.last() == filled);
    assert(seq![f.name][0] == f.name);
    assert(sec1.sub_sections.last().names.contains(f.name));
    let st2 = builder_step(st1, f);
    assert(st2.sections.last().sub_sections[0].contributor == f.text + seq![32u8] + f.text);
}

/// Every noise shape that is recognized by its opening — a blank line, and
/// the `LOAD`, `START GROUP`, `END GROUP`, `OUTPUT(`, script-echo and
/// load-address-continuation openings — is never a block marker, so the
/// router always leaves such a line to the noise filter. Only the noise
/// shapes recognized by their line ending can coincide with a marker.
pub proof fn lemma_prefix_noise_not_marker(l: Seq<u8>)
    requires
        is_blank(l) || has_prefix(l, load_marker()) || has_prefix(l, start_group_marker())
            || has_prefix(l, end_group_marker()) || has_prefix(l, script_echo_open())
            || has_prefix(l, load_addr_cont_marker()) || has_prefix(l, output_marker()),
    ensures
        block_marker(l) is None,
{
}

/// A noise line fed to the memory-map block changes nothing. The one
/// exclusion: a line that is at the same time a block marker belongs to the
/// router, which runs first, so it is not covered.
pub proof fn lemma_noise_step_invisible(st: MapParserV, l: Seq<u8>)
    requires
        st.active is MemoryMap,
        is_noise(l),
        block_marker(l) is None,
    ensures
        doc_step(st, l) == st,
{
}

/// A whole run of noise lines fed to the memory-map block changes nothing.
pub proof fn lemma_noise_run_invisible(st: MapParserV, noise: Seq<Seq<u8>>)
    requires
        st.active is MemoryMap,
        forall|i: int|
            0 <= i < noise.len() ==> is_noise(#[trigger] noise[i]) && block_marker(
                noise[i],
            ) is None,
    ensures
        run_lines(st, noise) == st,
    decreases noise.len(),
{
    if noise.len() > 0 {
        lemma_noise_step_invisible(st, noise[0]);
        lemma_noise_run_invisible(st, noise.skip(1));
    }
}

/// Noise lines interleaved inside the memory-map block do not alter the
/// resulting document: inserting any run of noise lines at any point after
/// the memory-map block became active parses to exactly the same state as
/// the input without them. Several interleavings are covered by applying the
/// law once per insertion point.
pub proof fn lemma_noise_lines_invisible(
    prefix: Seq<Seq<u8>>,
    noise: Seq<Seq<u8>>,
    suffix: Seq<Seq<u8>>,
)
    requires
        run_lines(initial_parser(), prefix).active is MemoryMap,
        forall|i: int|
            0 <= i < noise.len() ==> is_noise(#[trigger] noise[i]) && block_marker(
                noise[i],
            ) is None,
    ensures
        run_lines(initial_parser(), prefix + noise + suffix) == run_lines(
            initial_parser(),
            prefix + suffix,
        ),
        parse_lines(prefix + noise + suffix) == parse_lines(prefix + suffix),
{
    let init = initial_parser();
    let mid = run_lines(init, prefix);
    lemma_run_lines_append(init, prefix, noise);
    lemma_noise_run_invisible(mid, noise);
    assert(run_lines(init, prefix + noise) == mid);
    lemma_run_lines_append(init, prefix + noise, suffix);
    assert((prefix + noise) + suffix =~~= prefix + noise + suffix);
    lemma_run_lines_append(init, prefix, suffix);
}

/// Nodes are frozen by position: one builder transition never touches any
/// section before the last, and grows the section list by at most one. A
/// section stops changing the moment it is no longer last.
pub proof fn lemma_closed_sections_frozen(st: MapTreeBuilderV, f: LineFieldsV)
    ensures
        st.sections.len() <= builder_step(st, f).sections.len() <= st.sections.len() + 1,
        forall|i: int|
            0 <= i < st.sections.len() - 1 ==> builder_step(st, f).sections[i] == st.sections[i],
{
}

/// The extents a section and its sub-sections already hold survive into a
/// later image of the same section, which may only have grown.
pub open spec fn extents_kept(before: SectionV, after: SectionV) -> bool {
    &&& (sized(before.address, before.size) ==> after.address == before.address && after.size
        == before.size)
    &&& after.sub_sections.len() >= before.sub_sections.len()
    &&& forall|j: int|
        0 <= j < before.sub_sections.len() && sized(
            #[trigger] before.sub_sections[j].address,
            before.sub_sections[j].size,
        ) ==> after.sub_sections[j].address == before.sub_sections[j].address
            && after.sub_sections[j].size == before.sub_sections[j].size
}

/// The focus invariant holds of a fresh builder and survives every
/// transition, so it holds of every reachable builder state.
pub proof fn lemma_focus_inv_preserved(st: MapTreeBuilderV, f: LineFieldsV)
    requires
        focus_unsized_inv(st),
    ensures
        focus_unsized_inv(builder_step(st, f)),
        focus_unsized_inv(initial_builder()),
{
}

/// An extent is assigned at most once: once a section or sub-section carries
/// both an address and a size, no later transition changes them. Holds of
/// every state satisfying the focus invariant, hence of every reachable one.
pub proof fn lemma_sized_nodes_not_resized(st: MapTreeBuilderV, f: LineFieldsV)
    requires
        focus_unsized_inv(st),
    ensures
        forall|i: int|
            0 <= i < st.sections.len() ==> extents_kept(
                #[trigger] st.sections[i],
                builder_step(st, f).sections[i],
            ),
{
    lemma_closed_sections_frozen(st, f);
    let st2 = builder_step(st, f);
    assert forall|i: int| 0 <= i < st.sections.len() implies extents_kept(
        st.sections[i],
        st2.sections[i],
    ) by {
        if i < st.sections.len() - 1 {
            assert(st2.sections[i] == st.sections[i]);
        }
    }
}

/// Alias lists are sets: in a state whose alias lists are all duplicate-free,
/// no transition introduces a duplicate — a repeated name is absorbed, never
/// appended again — and a fresh builder trivially satisfies the invariant.
pub proof fn lemma_names_set_inv_preserved(st: MapTreeBuilderV, f: LineFieldsV)
    requires
        names_set_inv(st),
    ensures
        names_set_inv(builder_step(st, f)),
        names_set_inv(initial_builder()),
{
    let st2 = builder_step(st, f);
    assert forall|i: int, j: int|
        0 <= i < st2.sections.len() && 0 <= j < st2.sections[i].sub_sections.len() implies
        distinct_names(#[trigger] st2.sections[i].sub_sections[j].names) by {
        if i < st.sections.len() && j < st.sections[i].sub_sections.len() {
            let old_names = st.sections[i].sub_sections[j].names;
            assert(distinct_names(old_names));
            let new_names = st2.sections[i].sub_sections[j].names;
            if new_names != old_names && new_names == old_names.push(f.name) {
                assert(!old_names.contains(f.name));
                assert forall|a: int, b: int| 0 <= a < b < new_names.len() implies new_names[a]
                    != new_names[b] by {
                    if b == old_names.len() {
                        assert(new_names[a] == old_names[a]);
                    }
                }
            }
        }
    }
}

/// The alias-set invariant holds after parsing any line sequence from any
/// state satisfying it: every state the parser reaches keeps every
/// sub-section's name list duplicate-free, so the parsed document's alias
/// lists are sets.
pub proof fn lemma_parse_keeps_names_sets(st: MapParserV, lines: Seq<Seq<u8>>)
    requires
        names_set_inv(st.builder),
    ensures
        names_set_inv(run_lines(st, lines).builder),
    decreases lines.len(),
{
    if lines.len() > 0 {
        lemma_names_set_inv_preserved(st.builder, crate::classify::classify_line(lines[0]));
        lemma_parse_keeps_names_sets(doc_step(st, lines[0]), lines.skip(1));
    }
}

/// The focus invariant holds after parsing any line sequence, whatever state
/// satisfying it the parse went through: every state the parser reaches obeys
/// it, so extents in the parsed document were assigned at most once.
pub proof fn lemma_parse_keeps_focus_inv(st: MapParserV, lines: Seq<Seq<u8>>)
    requires
        focus_unsized_inv(st.builder),
    ensures
        focus_unsized_inv(run_lines(st, lines).builder),
    decreases lines.len(),
{
    if lines.len() > 0 {
        lemma_focus_inv_preserved(st.builder, crate::classify::classify_line(lines[0]));
        lemma_parse_keeps_focus_inv(doc_step(st, lines[0]), lines.skip(1));
    }
}

} // verus!
