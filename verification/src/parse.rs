//! Block router and parse driver. The router scans for the four marker lines
//! that open the report's blocks and switches the active block; every other
//! line is handed to the handler of the block that is active, and lines seen
//! before any marker are dropped. A marker line is itself consumed, so no
//! line ever reaches more than one handler.
//!
//! The whole computation is a single pass: each line is fully consumed before
//! the next is read, and the parse of a line sequence is the left fold of
//! `doc_step` over it.

use vstd::prelude::*;

use crate::blocks::{
    archive_step, discarded_step, region_line_skipped, region_of, region_step, starts_wrap_indent,
    FIELD_SEP,
};
use crate::builder::{builder_step, initial_builder, MapTreeBuilder, MapTreeBuilderV};
use crate::classify::{classify, classify_line};
use crate::model::{MapDocument, MapDocumentV, MemoryRegion, MemoryRegionV};
use crate::noise::{is_noise, line_is_noise};
use crate::text::{concat_bytes, has_prefix, line_is_blank, normalize};

verus! {

/// Which block of the report the router currently forwards lines to.
pub enum ActiveBlock {
    NoBlock,
    ArchiveMembers,
    DiscardedSections,
    MemoryConfiguration,
    MemoryMap,
}

/// `Archive member included to satisfy reference by file`
pub open spec fn archive_members_marker() -> Seq<u8> {
    seq![65u8, 114u8, 99u8, 104u8, 105u8, 118u8, 101u8, 32u8, 109u8, 101u8, 109u8, 98u8, 101u8,
        114u8, 32u8, 105u8, 110u8, 99u8, 108u8, 117u8, 100u8, 101u8, 100u8, 32u8, 116u8, 111u8,
        32u8, 115u8, 97u8, 116u8, 105u8, 115u8, 102u8, 121u8, 32u8, 114u8, 101u8, 102u8, 101u8,
        114u8, 101u8, 110u8, 99u8, 101u8, 32u8, 98u8, 121u8, 32u8, 102u8, 105u8, 108u8, 101u8]
}

/// `Discarded input sections`
pub open spec fn discarded_sections_marker() -> Seq<u8> {
    seq![68u8, 105u8, 115u8, 99u8, 97u8, 114u8, 100u8, 101u8, 100u8, 32u8, 105u8, 110u8, 112u8,
        117u8, 116u8, 32u8, 115u8, 101u8, 99u8, 116u8, 105u8, 111u8, 110u8, 115u8]
}

/// `Memory Configuration`
pub open spec fn memory_configuration_marker() -> Seq<u8> {
    seq![77u8, 101u8, 109u8, 111u8, 114u8, 121u8, 32u8, 67u8, 111u8, 110u8, 102u8, 105u8, 103u8,
        117u8, 114u8, 97u8, 116u8, 105u8, 111u8, 110u8]
}

/// `Linker script and memory map`
pub open spec fn memory_map_marker() -> Seq<u8> {
    seq![76u8, 105u8, 110u8, 107u8, 101u8, 114u8, 32u8, 115u8, 99u8, 114u8, 105u8, 112u8, 116u8,
        32u8, 97u8, 110u8, 100u8, 32u8, 109u8, 101u8, 109u8, 111u8, 114u8, 121u8, 32u8, 109u8,
        97u8, 112u8]
}

/// The block a marker line opens, tested in fixed priority order; `None` for
/// every non-marker line.
pub open spec fn block_marker(l: Seq<u8>) -> Option<ActiveBlock> {
    if has_prefix(l, archive_members_marker()) {
        Some(ActiveBlock::ArchiveMembers)
    } else if has_prefix(l, discarded_sections_marker()) {
        Some(ActiveBlock::DiscardedSections)
    } else if has_prefix(l, memory_configuration_marker()) {
        Some(ActiveBlock::MemoryConfiguration)
    } else if has_prefix(l, memory_map_marker()) {
        Some(ActiveBlock::MemoryMap)
    } else {
        None
    }
}

/// Parser state: the active block, the three flat collections, and the
/// memory-map tree builder.
pub struct MapParser {
    pub active: ActiveBlock,
    pub archive_members: Vec<Vec<u8>>,
    pub discarded_sections: Vec<Vec<u8>>,
    pub memory_regions: Vec<MemoryRegion>,
    pub builder: MapTreeBuilder,
}

/// Mathematical image of the parser state.
#[verifier::ext_equal]
pub ghost struct MapParserV {
    pub active: ActiveBlock,
    pub archive_members: Seq<Seq<u8>>,
    pub discarded_sections: Seq<Seq<u8>>,
    pub memory_regions: Seq<MemoryRegionV>,
    pub builder: MapTreeBuilderV,
}

impl View for MapParser {
    type V = MapParserV;

    open spec fn view(&self) -> MapParserV {
        MapParserV {
            active: self.active,
            archive_members: self.archive_members.deep_view(),
            discarded_sections: self.discarded_sections.deep_view(),
            memory_regions: Seq::new(
                self.memory_regions@.len(),
                |i: int| self.memory_regions@[i]@,
            ),
            builder: self.builder@,
        }
    }
}

/// The state a parse starts from: no active block, nothing collected.
pub open spec fn initial_parser() -> MapParserV {
    MapParserV {
        active: ActiveBlock::NoBlock,
        archive_members: Seq::empty(),
        discarded_sections: Seq::empty(),
        memory_regions: Seq::empty(),
        builder: initial_builder(),
    }
}

/// One line of input: a marker line switches the active block and is
/// consumed; any other line goes to the active block's handler, where a
/// memory-map line passes the noise filter, the classifier and the tree
/// builder in turn. Lines outside every block are dropped.
pub open spec fn doc_step(st: MapParserV, l: Seq<u8>) -> MapParserV {
    match block_marker(l) {
        Some(b) => MapParserV {
            active: b,
            archive_members: st.archive_members,
            discarded_sections: st.discarded_sections,
            memory_regions: st.memory_regions,
            builder: st.builder,
        },
        None => match st.active {
            ActiveBlock::NoBlock => st,
            ActiveBlock::ArchiveMembers => MapParserV {
                active: st.active,
                archive_members: archive_step(st.archive_members, l),
                discarded_sections: st.discarded_sections,
                memory_regions: st.memory_regions,
                builder: st.builder,
            },
            ActiveBlock::DiscardedSections => MapParserV {
                active: st.active,
                archive_members: st.archive_members,
                discarded_sections: discarded_step(st.discarded_sections, l),
                memory_regions: st.memory_regions,
                builder: st.builder,
            },
            ActiveBlock::MemoryConfiguration => MapParserV {
                active: st.active,
                archive_members: st.archive_members,
                discarded_sections: st.discarded_sections,
                memory_regions: region_step(st.memory_regions, l),
                builder: st.builder,
            },
            ActiveBlock::MemoryMap => {
                if is_noise(l) {
                    st
                } else {
                    MapParserV {
                        active: st.active,
                        archive_members: st.archive_members,
                        discarded_sections: st.discarded_sections,
                        memory_regions: st.memory_regions,
                        builder: builder_step(st.builder, classify_line(l)),
                    }
                }
            },
        },
    }
}

/// The left fold of `doc_step` over a line sequence.
pub open spec fn run_lines(st: MapParserV, lines: Seq<Seq<u8>>) -> MapParserV
    decreases lines.len(),
{
    if lines.len() == 0 {
        st
    } else {
        run_lines(doc_step(st, lines[0]), lines.skip(1))
    }
}

/// Folding one more line steps the fold of the rest.
pub proof fn lemma_run_lines_push(st: MapParserV, lines: Seq<Seq<u8>>, l: Seq<u8>)
    ensures
        run_lines(st, lines.push(l)) == doc_step(run_lines(st, lines), l),
    decreases lines.len(),
{
    if lines.len() == 0 {
        assert(lines.push(l)[0] == l);
        assert(lines.push(l).skip(1) =~= Seq::<Seq<u8>>::empty());
        assert(run_lines(doc_step(st, l), Seq::<Seq<u8>>::empty()) == doc_step(st, l));
    } else {
        assert(lines.push(l)[0] == lines[0]);
        assert(lines.push(l).skip(1) =~= lines.skip(1).push(l));
        lemma_run_lines_push(doc_step(st, lines[0]), lines.skip(1), l);
    }
}

/// Folding a concatenation folds the two halves in turn.
pub proof fn lemma_run_lines_append(st: MapParserV, a: Seq<Seq<u8>>, b: Seq<Seq<u8>>)
    ensures
        run_lines(st, a + b) == run_lines(run_lines(st, a), b),
    decreases a.len(),
{
    if a.len() == 0 {
        assert(a + b =~= b);
    } else {
        assert((a + b)[0] == a[0]);
        assert((a + b).skip(1) =~= a.skip(1) + b);
        lemma_run_lines_append(doc_step(st, a[0]), a.skip(1), b);
    }
}

/// The document a final parser state denotes.
pub open spec fn document_view(st: MapParserV) -> MapDocumentV {
    MapDocumentV {
        archive_members: st.archive_members,
        discarded_sections: st.discarded_sections,
        memory_regions: st.memory_regions,
        sections: st.builder.sections,
    }
}

/// The document that parsing a line sequence produces: the fold of `doc_step`
/// from the initial state, read out as a document.
pub open spec fn parse_lines(lines: Seq<Seq<u8>>) -> MapDocumentV {
    document_view(run_lines(initial_parser(), lines))
}

fn starts_archive_members(line: &Vec<u8>) -> (r: bool)
    ensures
        r == has_prefix(line@, archive_members_marker()),
{
    line.len() >= 52 && line[0] == 65 && line[1] == 114 && line[2] == 99 && line[3] == 104
        && line[4] == 105 && line[5] == 118 && line[6] == 101 && line[7] == 32 && line[8] == 109
        && line[9] == 101 && line[10] == 109 && line[11] == 98 && line[12] == 101 && line[13]
        == 114 && line[14] == 32 && line[15] == 105 && line[16] == 110 && line[17] == 99
        && line[18] == 108 && line[19] == 117 && line[20] == 100 && line[21] == 101 && line[22]
        == 100 && line[23] == 32 && line[24] == 116 && line[25] == 111 && line[26] == 32
        && line[27] == 115 && line[28] == 97 && line[29] == 116 && line[30] == 105 && line[31]
        == 115 && line[32] == 102 && line[33] == 121 && line[34] == 32 && line[35] == 114
        && line[36] == 101 && line[37] == 102 && line[38] == 101 && line[39] == 114 && line[40]
        == 101 && line[41] == 110 && line[42] == 99 && line[43] == 101 && line[44] == 32
        && line[45] == 98 && line[46] == 121 && line[47] == 32 && line[48] == 102 && line[49]
        == 105 && line[50] == 108 && line[51] == 101
}

fn starts_discarded_sections(line: &Vec<u8>) -> (r: bool)
    ensures
        r == has_prefix(line@, discarded_sections_marker()),
{
    line.len() >= 24 && line[0] == 68 && line[1] == 105 && line[2] == 115 && line[3] == 99
        && line[4] == 97 && line[5] == 114 && line[6] == 100 && line[7] == 101 && line[8] == 100
        && line[9] == 32 && line[10] == 105 && line[11] == 110 && line[12] == 112 && line[13]
        == 117 && line[14] == 116 && line[15] == 32 && line[16] == 115 && line[17] == 101
        && line[18] == 99 && line[19] == 116 && line[20] == 105 && line[21] == 111 && line[22]
        == 110 && line[23] == 115
}

fn starts_memory_configuration(line: &Vec<u8>) -> (r: bool)
    ensures
        r == has_prefix(line@, memory_configuration_marker()),
{
    line.len() >= 20 && line[0] == 77 && line[1] == 101 && line[2] == 109 && line[3] == 111
        && line[4] == 114 && line[5] == 121 && line[6] == 32 && line[7] == 67 && line[8] == 111
        && line[9] == 110 && line[10] == 102 && line[11] == 105 && line[12] == 103 && line[13]
        == 117 && line[14] == 114 && line[15] == 97 && line[16] == 116 && line[17] == 105
        && line[18] == 111 && line[19] == 110
}

fn starts_memory_map(line: &Vec<u8>) -> (r: bool)
    ensures
        r == has_prefix(line@, memory_map_marker()),
{
    line.len() >= 28 && line[0] == 76 && line[1] == 105 && line[2] == 110 && line[3] == 107
        && line[4] == 101 && line[5] == 114 && line[6] == 32 && line[7] == 115 && line[8] == 99
        && line[9] == 114 && line[10] == 105 && line[11] == 112 && line[12] == 116 && line[13]
        == 32 && line[14] == 97 && line[15] == 110 && line[16] == 100 && line[17] == 32 && line[18]
        == 109 && line[19] == 101 && line[20] == 109 && line[21] == 111 && line[22] == 114
        && line[23] == 121 && line[24] == 32 && line[25] == 109 && line[26] == 97 && line[27]
        == 112
}

impl MapParser {
    /// A fresh parser before any line was seen.
    pub fn new() -> (p: MapParser)
        ensures
            p@ == initial_parser(),
    {
        let p = MapParser {
            active: ActiveBlock::NoBlock,
            archive_members: Vec::new(),
            discarded_sections: Vec::new(),
            memory_regions: Vec::new(),
            builder: MapTreeBuilder::new(),
        };
        proof {
            assert(p@ =~~= initial_parser());
        }
        p
    }

    /// Consumes one input line.
    pub fn feed(&mut self, line: &Vec<u8>)
        ensures
            final(self)@ == doc_step(old(self)@, line@),
    {
        if starts_archive_members(line) {
            self.active = ActiveBlock::ArchiveMembers;
            return;
        }
        if starts_discarded_sections(line) {
            self.active = ActiveBlock::DiscardedSections;
            return;
        }
        if starts_memory_configuration(line) {
            self.active = ActiveBlock::MemoryConfiguration;
            return;
        }
        if starts_memory_map(line) {
            self.active = ActiveBlock::MemoryMap;
            return;
        }
        match self.active {
            ActiveBlock::NoBlock => {},
            ActiveBlock::ArchiveMembers => {
                if !line_is_blank(line) {
                    let entry = normalize(line, FIELD_SEP);
                    let ghost m0 = self.archive_members.deep_view();
                    let ghost ev = entry@;
                    self.archive_members.push(entry);
                    proof {
                        assert(self.archive_members.deep_view() =~~= m0.push(ev));
                    }
                }
            },
            ActiveBlock::DiscardedSections => {
                if !line_is_blank(line) {
                    if starts_wrap_indent(line) && self.discarded_sections.len() > 0 {
                        let ghost d0 = self.discarded_sections.deep_view();
                        let last = self.discarded_sections.pop().unwrap();
                        proof {
                            assert(self.discarded_sections.deep_view() =~~= d0.drop_last());
                            assert(last@ == d0.last());
                        }
                        let joined = concat_bytes(last, line);
                        let entry = normalize(&joined, FIELD_SEP);
                        let ghost d1 = self.discarded_sections.deep_view();
                        let ghost ev = entry@;
                        self.discarded_sections.push(entry);
                        proof {
                            assert(self.discarded_sections.deep_view() =~~= d1.push(ev));
                        }
                    } else {
                        let entry = normalize(line, FIELD_SEP);
                        let ghost d0 = self.discarded_sections.deep_view();
                        let ghost ev = entry@;
                        self.discarded_sections.push(entry);
                        proof {
                            assert(self.discarded_sections.deep_view() =~~= d0.push(ev));
                        }
                    }
                }
            },
            ActiveBlock::MemoryConfiguration => {
                if !region_line_skipped(line) {
                    let region = region_of(line);
                    let ghost r0 = self@.memory_regions;
                    let ghost rv = region@;
                    self.memory_regions.push(region);
                    proof {
                        assert(self@.memory_regions =~~= r0.push(rv));
                    }
                }
            },
            ActiveBlock::MemoryMap => {
                if !line_is_noise(line) {
                    let f = classify(line);
                    self.builder.step(f);
                }
            },
        }
        proof {
            assert(self@ =~~= doc_step(old(self)@, line@));
        }
    }

    /// Hands the collected document over.
    pub fn into_document(self) -> (doc: MapDocument)
        ensures
            doc@ == document_view(self@),
    {
        let doc = MapDocument {
            archive_members: self.archive_members,
            discarded_sections: self.discarded_sections,
            memory_regions: self.memory_regions,
            sections: self.builder.sections,
        };
        proof {
            assert(doc@ =~~= document_view(self@));
        }
        doc
    }
}

/// Parses a whole report, one line at a time, into a document. A pure
/// function of its input: the result is the fold of the line transitions
/// from the initial state.
pub fn parse_map_document(lines: &Vec<Vec<u8>>) -> (doc: MapDocument)
    ensures
        doc@ == parse_lines(lines.deep_view()),
{
    let ghost all = lines.deep_view();
    let mut p = MapParser::new();
    let mut i: usize = 0;
    while i < lines.len()
        invariant
            0 <= i <= all.len(),
            all == lines.deep_view(),
            all.len() == lines@.len(),
            p@ == run_lines(initial_parser(), all.take(i as int)),
        decreases all.len() - i,
    {
        p.feed(&lines[i]);
        proof {
            assert(lines@[i as int]@ =~= all[i as int]);
            lemma_run_lines_push(initial_parser(), all.take(i as int), all[i as int]);
            assert(all.take(i + 1) =~= all.take(i as int).push(all[i as int]));
        }
        i = i + 1;
    }
    proof {
        assert(all.take(all.len() as int) =~= all);
    }
    p.into_document()
}

} // verus!
