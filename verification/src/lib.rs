//! Verified parser for linker map files: the human-readable placement report
//! a linker emits. The parser reconstructs structured records from the
//! report's line stream: archive-member inclusions, discarded input sections,
//! memory-region configuration, and the linker script memory map as a tree of
//! sections and sub-sections.

pub mod blocks;
pub mod builder;
pub mod classify;
pub mod laws;
pub mod model;
pub mod noise;
pub mod parse;
pub mod text;
pub mod tsv;
