//! Data model of a parsed map file: the document root and the records each
//! block of the report produces. Field text is kept verbatim as bytes; hex
//! values are never reparsed as numbers, since the report's textual form is
//! the thing being mirrored. An empty `address` or `size` means the field has
//! not (yet) been assigned.

use vstd::prelude::*;

verus! {

/// One row of the memory-configuration table.
pub struct MemoryRegion {
    pub name: Vec<u8>,
    pub origin: Vec<u8>,
    pub length: Vec<u8>,
    pub attributes: Vec<u8>,
}

/// Mathematical image of a `MemoryRegion`.
#[verifier::ext_equal]
pub ghost struct MemoryRegionV {
    pub name: Seq<u8>,
    pub origin: Seq<u8>,
    pub length: Seq<u8>,
    pub attributes: Seq<u8>,
}

impl View for MemoryRegion {
    type V = MemoryRegionV;

    open spec fn view(&self) -> MemoryRegionV {
        MemoryRegionV {
            name: self.name@,
            origin: self.origin@,
            length: self.length@,
            attributes: self.attributes@,
        }
    }
}

/// An input fragment placed into a `Section`. `names` holds the name and any
/// aliases the overlap-merge rule attached; `contributor` is the object-file
/// or symbol text that produced the fragment; `demangled` collects
/// continuation lines carrying human-readable symbol names.
pub struct SubSection {
    pub names: Vec<Vec<u8>>,
    pub address: Vec<u8>,
    pub size: Vec<u8>,
    pub contributor: Vec<u8>,
    pub demangled: Vec<Vec<u8>>,
}

/// Mathematical image of a `SubSection`.
#[verifier::ext_equal]
pub ghost struct SubSectionV {
    pub names: Seq<Seq<u8>>,
    pub address: Seq<u8>,
    pub size: Seq<u8>,
    pub contributor: Seq<u8>,
    pub demangled: Seq<Seq<u8>>,
}

impl View for SubSection {
    type V = SubSectionV;

    open spec fn view(&self) -> SubSectionV {
        SubSectionV {
            names: self.names.deep_view(),
            address: self.address@,
            size: self.size@,
            contributor: self.contributor@,
            demangled: self.demangled.deep_view(),
        }
    }
}

/// A top-level output section of the linked image and the sub-sections
/// placed into it.
pub struct Section {
    pub name: Vec<u8>,
    pub address: Vec<u8>,
    pub size: Vec<u8>,
    pub sub_sections: Vec<SubSection>,
}

/// Mathematical image of a `Section`.
#[verifier::ext_equal]
pub ghost struct SectionV {
    pub name: Seq<u8>,
    pub address: Seq<u8>,
    pub size: Seq<u8>,
    pub sub_sections: Seq<SubSectionV>,
}

impl View for Section {
    type V = SectionV;

    open spec fn view(&self) -> SectionV {
        SectionV {
            name: self.name@,
            address: self.address@,
            size: self.size@,
            sub_sections: Seq::new(
                self.sub_sections@.len(),
                |i: int| self.sub_sections@[i]@,
            ),
        }
    }
}

/// The parsed document: four independent collections, each produced by its
/// own block handler.
pub struct MapDocument {
    pub archive_members: Vec<Vec<u8>>,
    pub discarded_sections: Vec<Vec<u8>>,
    pub memory_regions: Vec<MemoryRegion>,
    pub sections: Vec<Section>,
}

/// Mathematical image of a `MapDocument`.
#[verifier::ext_equal]
pub ghost struct MapDocumentV {
    pub archive_members: Seq<Seq<u8>>,
    pub discarded_sections: Seq<Seq<u8>>,
    pub memory_regions: Seq<MemoryRegionV>,
    pub sections: Seq<SectionV>,
}

impl View for MapDocument {
    type V = MapDocumentV;

    open spec fn view(&self) -> MapDocumentV {
        MapDocumentV {
            archive_members: self.archive_members.deep_view(),
            discarded_sections: self.discarded_sections.deep_view(),
            memory_regions: Seq::new(
                self.memory_regions@.len(),
                |i: int| self.memory_regions@[i]@,
            ),
            sections: Seq::new(self.sections@.len(), |i: int| self.sections@[i]@),
        }
    }
}

} // verus!
