//! Noise filter for the memory-map block. The report generator interleaves
//! lines that carry no placement data: blank lines, `LOAD` annotations, group
//! brackets, `OUTPUT(...)` echoes, linker-script-fragment echoes, and
//! deeply indented load-address continuations. These are dropped before
//! classification.

use vstd::prelude::*;

use crate::text::{has_prefix, has_suffix, is_blank, line_is_blank};

verus! {

/// Depth of the indentation that marks a load-address continuation line.
pub const LOAD_ADDR_INDENT: usize = 33;

/// `LOAD`
pub open spec fn load_marker() -> Seq<u8> {
    seq![76u8, 79u8, 65u8, 68u8]
}

/// `START GROUP`
pub open spec fn start_group_marker() -> Seq<u8> {
    seq![83u8, 84u8, 65u8, 82u8, 84u8, 32u8, 71u8, 82u8, 79u8, 85u8, 80u8]
}

/// `END GROUP`
pub open spec fn end_group_marker() -> Seq<u8> {
    seq![69u8, 78u8, 68u8, 32u8, 71u8, 82u8, 79u8, 85u8, 80u8]
}

/// ` *(`
pub open spec fn script_echo_open() -> Seq<u8> {
    seq![32u8, 42u8, 40u8]
}

/// `)`
pub open spec fn close_paren() -> Seq<u8> {
    seq![41u8]
}

/// `*)`
pub open spec fn star_close() -> Seq<u8> {
    seq![42u8, 41u8]
}

/// `OUTPUT(`
pub open spec fn output_marker() -> Seq<u8> {
    seq![79u8, 85u8, 84u8, 80u8, 85u8, 84u8, 40u8]
}

/// Thirty-three spaces and `0x`: the indentation and opening of a
/// load-address continuation line.
pub open spec fn load_addr_cont_marker() -> Seq<u8> {
    Seq::new(LOAD_ADDR_INDENT as nat, |i: int| 32u8) + seq![48u8, 120u8]
}

/// A memory-map line is noise, and dropped before classification, iff it is
/// blank, a `LOAD` annotation, a group bracket, a linker-script-fragment
/// echo, a load-address continuation, or an `OUTPUT(...)` echo.
pub open spec fn is_noise(l: Seq<u8>) -> bool {
    ||| is_blank(l)
    ||| has_prefix(l, load_marker())
    ||| has_prefix(l, start_group_marker())
    ||| has_prefix(l, end_group_marker())
    ||| (has_prefix(l, script_echo_open()) && has_suffix(l, close_paren()))
    ||| has_suffix(l, star_close())
    ||| has_prefix(l, load_addr_cont_marker())
    ||| has_prefix(l, output_marker())
}

fn starts_load(line: &Vec<u8>) -> (r: bool)
    ensures
        r == has_prefix(line@, load_marker()),
{
    line.len() >= 4 && line[0] == 76 && line[1] == 79 && line[2] == 65 && line[3] == 68
}

fn starts_start_group(line: &Vec<u8>) -> (r: bool)
    ensures
        r == has_prefix(line@, start_group_marker()),
{
    line.len() >= 11 && line[0] == 83 && line[1] == 84 && line[2] == 65 && line[3] == 82
        && line[4] == 84 && line[5] == 32 && line[6] == 71 && line[7] == 82 && line[8] == 79
        && line[9] == 85 && line[10] == 80
}

fn starts_end_group(line: &Vec<u8>) -> (r: bool)
    ensures
        r == has_prefix(line@, end_group_marker()),
{
    line.len() >= 9 && line[0] == 69 && line[1] == 78 && line[2] == 68 && line[3] == 32 && line[4]
        == 71 && line[5] == 82 && line[6] == 79 && line[7] == 85 && line[8] == 80
}

fn starts_script_echo(line: &Vec<u8>) -> (r: bool)
    ensures
        r == has_prefix(line@, script_echo_open()),
{
    line.len() >= 3 && line[0] == 32 && line[1] == 42 && line[2] == 40
}

fn ends_close_paren(line: &Vec<u8>) -> (r: bool)
    ensures
        r == has_suffix(line@, close_paren()),
{
    if line.len() == 0 {
        return false;
    }
    let r = line[line.len() - 1] == 41;
    proof {
        assert(close_paren()[0] == 41u8);
        assert(line@[line@.len() - 1 + 0] == line@[line@.len() - 1]);
    }
    r
}

fn ends_star_close(line: &Vec<u8>) -> (r: bool)
    ensures
        r == has_suffix(line@, star_close()),
{
    if line.len() < 2 {
        return false;
    }
    let r = line[line.len() - 2] == 42 && line[line.len() - 1] == 41;
    proof {
        assert(star_close()[0] == 42u8 && star_close()[1] == 41u8);
        assert(line@[line@.len() - 2 + 0] == line@[line@.len() - 2]);
        assert(line@[line@.len() - 2 + 1] == line@[line@.len() - 1]);
    }
    r
}

fn starts_output(line: &Vec<u8>) -> (r: bool)
    ensures
        r == has_prefix(line@, output_marker()),
{
    line.len() >= 7 && line[0] == 79 && line[1] == 85 && line[2] == 84 && line[3] == 80 && line[4]
        == 85 && line[5] == 84 && line[6] == 40
}

fn starts_load_addr_cont(line: &Vec<u8>) -> (r: bool)
    ensures
        r == has_prefix(line@, load_addr_cont_marker()),
{
    if line.len() < LOAD_ADDR_INDENT + 2 {
        return false;
    }
    let mut i: usize = 0;
    while i < LOAD_ADDR_INDENT
        invariant
            0 <= i <= LOAD_ADDR_INDENT,
            line@.len() >= LOAD_ADDR_INDENT + 2,
            forall|j: int| 0 <= j < i ==> line@[j] == 32,
        decreases LOAD_ADDR_INDENT - i,
    {
        if line[i] != 32 {
            assert(line@[i as int] != load_addr_cont_marker()[i as int]);
            return false;
        }
        i = i + 1;
    }
    line[LOAD_ADDR_INDENT] == 48 && line[LOAD_ADDR_INDENT + 1] == 120
}

/// Reports whether a memory-map line is noise.
pub fn line_is_noise(line: &Vec<u8>) -> (r: bool)
    ensures
        r == is_noise(line@),
{
    line_is_blank(line) || starts_load(line) || starts_start_group(line) || starts_end_group(line)
        || (starts_script_echo(line) && ends_close_paren(line)) || ends_star_close(line)
        || starts_load_addr_cont(line) || starts_output(line)
}

} // verus!
