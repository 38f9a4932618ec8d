//! Simple block accumulators: archive members, discarded input sections, and
//! the memory-configuration table. Each is a linear accumulation with no
//! branching beyond a continuation-line join and a few skipped header lines.

use vstd::prelude::*;

use crate::model::{MemoryRegion, MemoryRegionV};
use crate::classify::{tok_or_empty, toks_from, token_at, NAME_FIELD_WIDTH};
use crate::text::{has_prefix, is_blank, normalize, normalized, spec_join, split_ws, tokens};

verus! {

/// The tab byte: the separator of normalized record fields.
pub const FIELD_SEP: u8 = 9;

/// Sixteen spaces: the indentation that marks the wrapped tail of an
/// over-long entry.
pub open spec fn wrap_indent() -> Seq<u8> {
    Seq::new(NAME_FIELD_WIDTH as nat, |i: int| 32u8)
}

/// `*default*`: the memory-configuration row that is not recorded.
pub open spec fn default_row_marker() -> Seq<u8> {
    seq![42u8, 100u8, 101u8, 102u8, 97u8, 117u8, 108u8, 116u8, 42u8]
}

/// The memory-configuration table's column header line.
pub open spec fn region_header_marker() -> Seq<u8> {
    seq![78u8, 97u8, 109u8, 101u8, 32u8, 32u8, 32u8, 32u8, 32u8, 32u8, 32u8, 32u8, 32u8, 32u8,
        32u8, 32u8, 32u8, 79u8, 114u8, 105u8, 103u8, 105u8, 110u8, 32u8, 32u8, 32u8, 32u8, 32u8,
        32u8, 32u8, 32u8, 32u8, 32u8, 32u8, 32u8, 32u8, 76u8, 101u8, 110u8, 103u8, 116u8, 104u8,
        32u8, 32u8, 32u8, 32u8, 32u8, 32u8, 32u8, 32u8, 32u8, 32u8, 32u8, 32u8, 32u8, 65u8, 116u8,
        116u8, 114u8, 105u8, 98u8, 117u8, 116u8, 101u8, 115u8]
}

/// One archive-member line: every non-blank line is whitespace-normalized
/// (runs collapse to single tabs) and appended.
pub open spec fn archive_step(members: Seq<Seq<u8>>, l: Seq<u8>) -> Seq<Seq<u8>> {
    if is_blank(l) {
        members
    } else {
        members.push(normalized(l, FIELD_SEP))
    }
}

/// One discarded-section line: as for archive members, except that a line
/// indented by the wrap indentation continues the previous entry, which is
/// re-normalized after the raw tail is appended.
pub open spec fn discarded_step(entries: Seq<Seq<u8>>, l: Seq<u8>) -> Seq<Seq<u8>> {
    if is_blank(l) {
        entries
    } else if has_prefix(l, wrap_indent()) && entries.len() > 0 {
        entries.drop_last().push(normalized(entries.last() + l, FIELD_SEP))
    } else {
        entries.push(normalized(l, FIELD_SEP))
    }
}

/// The memory region a table row describes: the first three tokens are name,
/// origin and length; the remaining tokens, space-joined, its attributes.
pub open spec fn region_of_line(l: Seq<u8>) -> MemoryRegionV {
    MemoryRegionV {
        name: tok_or_empty(tokens(l), 0),
        origin: tok_or_empty(tokens(l), 1),
        length: tok_or_empty(tokens(l), 2),
        attributes: spec_join(toks_from(tokens(l), 3), 32),
    }
}

/// One memory-configuration line: blank lines, the column header and the
/// `*default*` row are skipped; every other line is recorded as a region.
pub open spec fn region_step(regions: Seq<MemoryRegionV>, l: Seq<u8>) -> Seq<MemoryRegionV> {
    if is_blank(l) || has_prefix(l, default_row_marker()) || has_prefix(l, region_header_marker()) {
        regions
    } else {
        regions.push(region_of_line(l))
    }
}

/// Reports whether the line is indented by the wrap indentation.
pub fn starts_wrap_indent(line: &Vec<u8>) -> (r: bool)
    ensures
        r == has_prefix(line@, wrap_indent()),
{
    if line.len() < NAME_FIELD_WIDTH {
        return false;
    }
    let mut i: usize = 0;
    while i < NAME_FIELD_WIDTH
        invariant
            0 <= i <= NAME_FIELD_WIDTH,
            line@.len() >= NAME_FIELD_WIDTH,
            forall|j: int| 0 <= j < i ==> line@[j] == 32,
        decreases NAME_FIELD_WIDTH - i,
    {
        if line[i] != 32 {
            assert(line@[i as int] != wrap_indent()[i as int]);
            return false;
        }
        i = i + 1;
    }
    true
}

fn starts_default_row(line: &Vec<u8>) -> (r: bool)
    ensures
        r == has_prefix(line@, default_row_marker()),
{
    line.len() >= 9 && line[0] == 42 && line[1] == 100 && line[2] == 101 && line[3] == 102
        && line[4] == 97 && line[5] == 117 && line[6] == 108 && line[7] == 116 && line[8] == 42
}

fn starts_region_header(line: &Vec<u8>) -> (r: bool)
    ensures
        r == has_prefix(line@, region_header_marker()),
{
    line.len() >= 65 && line[0] == 78 && line[1] == 97 && line[2] == 109 && line[3] == 101
        && line[4] == 32 && line[5] == 32 && line[6] == 32 && line[7] == 32 && line[8] == 32
        && line[9] == 32 && line[10] == 32 && line[11] == 32 && line[12] == 32 && line[13] == 32
        && line[14] == 32 && line[15] == 32 && line[16] == 32 && line[17] == 79 && line[18] == 114
        && line[19] == 105 && line[20] == 103 && line[21] == 105 && line[22] == 110 && line[23]
        == 32 && line[24] == 32 && line[25] == 32 && line[26] == 32 && line[27] == 32 && line[28]
        == 32 && line[29] == 32 && line[30] == 32 && line[31] == 32 && line[32] == 32 && line[33]
        == 32 && line[34] == 32 && line[35] == 32 && line[36] == 76 && line[37] == 101 && line[38]
        == 110 && line[39] == 103 && line[40] == 116 && line[41] == 104 && line[42] == 32
        && line[43] == 32 && line[44] == 32 && line[45] == 32 && line[46] == 32 && line[47] == 32
        && line[48] == 32 && line[49] == 32 && line[50] == 32 && line[51] == 32 && line[52] == 32
        && line[53] == 32 && line[54] == 32 && line[55] == 65 && line[56] == 116 && line[57] == 116
        && line[58] == 114 && line[59] == 105 && line[60] == 98 && line[61] == 117 && line[62]
        == 116 && line[63] == 101 && line[64] == 115
}

/// Reports whether a memory-configuration line is skipped rather than
/// recorded.
pub fn region_line_skipped(line: &Vec<u8>) -> (r: bool)
    ensures
        r == (is_blank(line@) || has_prefix(line@, default_row_marker()) || has_prefix(
            line@,
            region_header_marker(),
        )),
{
    crate::text::line_is_blank(line) || starts_default_row(line) || starts_region_header(line)
}

/// Splits a memory-configuration row into a region record.
pub fn region_of(line: &Vec<u8>) -> (r: MemoryRegion)
    ensures
        r@ == region_of_line(line@),
{
    let toks = split_ws(line);
    let name = token_at(&toks, 0);
    let origin = token_at(&toks, 1);
    let length = token_at(&toks, 2);
    let mut rest: Vec<Vec<u8>> = Vec::new();
    let start = if 3 <= toks.len() {
        3
    } else {
        toks.len()
    };
    let mut i: usize = start;
    while i < toks.len()
        invariant
            start <= i <= toks@.len(),
            rest.deep_view() == toks.deep_view().subrange(start as int, i as int),
            toks@.len() == toks.deep_view().len(),
        decreases toks@.len() - i,
    {
        let t = crate::classify::copy_bytes(&toks[i]);
        let ghost r0 = rest.deep_view();
        let ghost tv = t@;
        rest.push(t);
        proof {
            assert(rest.deep_view() =~~= r0.push(tv));
            assert(r0.push(tv) =~~= toks.deep_view().subrange(start as int, i + 1));
        }
        i = i + 1;
    }
    proof {
        assert(rest.deep_view() =~~= toks_from(toks.deep_view(), 3));
    }
    let attributes = crate::text::join_bytes(&rest, 32);
    MemoryRegion { name, origin, length, attributes }
}

} // verus!
