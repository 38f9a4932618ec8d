//! Memory-map tree builder: the stateful core of the parser. It consumes
//! classified line fields and grows a tree of sections and sub-sections, one
//! line at a time.
//!
//! The mutable frontier is purely positional: only the last section, and
//! within it only the last sub-section, are ever touched; earlier nodes are
//! frozen by no longer being last. A cursor records the fill progress of the
//! focus node (whatever node is currently being completed): whether it still
//! awaits its extent, has its extent, or is complete with a contributor.
//!
//! Attribution policy for a data line that carries text: a sub-section that
//! is open and sized receives the text as its contributor only when the line
//! also carries a full extent; but a section that was just sized and has no
//! sub-section yet adopts a data line carrying an address and text (with or
//! without a size) as a fresh anonymous sub-section. The report format leaves
//! this boundary open, so the choice is fixed here and tested.

use vstd::prelude::*;

use crate::classify::{LineFields, LineFieldsV};
use crate::model::{Section, SectionV, SubSection, SubSectionV};

verus! {

/// Fill progress of the focus node.
pub enum Cursor {
    /// The focus node has no extent yet.
    NoExtent,
    /// The focus node has its extent; no contributor yet.
    HasExtent,
    /// The focus sub-section is complete with a contributor.
    HasContributor,
}

/// The builder: the sections grown so far and the focus cursor.
pub struct MapTreeBuilder {
    pub sections: Vec<Section>,
    pub cursor: Cursor,
}

/// Mathematical image of the builder state.
#[verifier::ext_equal]
pub ghost struct MapTreeBuilderV {
    pub sections: Seq<SectionV>,
    pub cursor: Cursor,
}

impl View for MapTreeBuilder {
    type V = MapTreeBuilderV;

    open spec fn view(&self) -> MapTreeBuilderV {
        MapTreeBuilderV {
            sections: Seq::new(self.sections@.len(), |i: int| self.sections@[i]@),
            cursor: self.cursor,
        }
    }
}

/// `b` appended to `a` with a single separating space; just `b` when `a` is
/// empty.
pub open spec fn join_text(a: Seq<u8>, b: Seq<u8>) -> Seq<u8> {
    if a.len() == 0 {
        b
    } else {
        a + seq![32u8] + b
    }
}

/// A sub-section holding only names; no extent, contributor or demangled
/// entries yet.
pub open spec fn bare_sub(names: Seq<Seq<u8>>) -> SubSectionV {
    SubSectionV {
        names: names,
        address: Seq::empty(),
        size: Seq::empty(),
        contributor: Seq::empty(),
        demangled: Seq::empty(),
    }
}

/// The state with the last section replaced.
pub open spec fn with_last_section(st: MapTreeBuilderV, sec: SectionV, cursor: Cursor) -> MapTreeBuilderV
    recommends
        st.sections.len() > 0,
{
    MapTreeBuilderV {
        sections: st.sections.update(st.sections.len() - 1, sec),
        cursor: cursor,
    }
}

/// The last section with its last sub-section replaced.
pub open spec fn with_last_sub(sec: SectionV, sub: SubSectionV) -> SectionV
    recommends
        sec.sub_sections.len() > 0,
{
    SectionV {
        name: sec.name,
        address: sec.address,
        size: sec.size,
        sub_sections: sec.sub_sections.update(sec.sub_sections.len() - 1, sub),
    }
}

/// The last section with one more sub-section.
pub open spec fn with_pushed_sub(sec: SectionV, sub: SubSectionV) -> SectionV {
    SectionV {
        name: sec.name,
        address: sec.address,
        size: sec.size,
        sub_sections: sec.sub_sections.push(sub),
    }
}

/// The overlap-merge test: the line repeats a name the open sub-section
/// already carries, at the same address. Such a line continues the same
/// placement rather than opening a new one.
pub open spec fn is_overlap(sec: SectionV, f: LineFieldsV) -> bool {
    sec.sub_sections.len() > 0 && sec.sub_sections.last().names.contains(f.name)
        && f.address.len() > 0 && f.address == sec.sub_sections.last().address
}

/// The alias test: an open sub-section with no extent set absorbs further
/// bare names as aliases of one placement, as long as the focus is not
/// already complete. The alias list is a set: a name the open sub-section
/// already carries is not appended again.
pub open spec fn is_alias(st: MapTreeBuilderV, sec: SectionV, f: LineFieldsV) -> bool {
    sec.sub_sections.len() > 0 && sec.sub_sections.last().address.len() == 0
        && sec.sub_sections.last().size.len() == 0 && !(st.cursor is HasContributor)
}

/// A section-name line opens a fresh section. Its extent is taken only when
/// the line carries both address and size; a lone address is dropped. Any
/// unfinished sub-section progress on the previous section is abandoned.
pub open spec fn step_section_name(st: MapTreeBuilderV, f: LineFieldsV) -> MapTreeBuilderV {
    let sized = f.address.len() > 0 && f.size.len() > 0;
    MapTreeBuilderV {
        sections: st.sections.push(
            SectionV {
                name: f.name,
                address: if sized {
                    f.address
                } else {
                    Seq::empty()
                },
                size: if sized {
                    f.size
                } else {
                    Seq::empty()
                },
                sub_sections: Seq::empty(),
            },
        ),
        cursor: if sized {
            Cursor::HasExtent
        } else {
            Cursor::NoExtent
        },
    }
}

/// A sub-section-name line: merged into the open sub-section under the
/// overlap rule, absorbed as an alias, or opened as a new sub-section; then
/// the line's own extent and text, if complete, fill the target. Dropped when
/// no section is open.
pub open spec fn step_sub_name(st: MapTreeBuilderV, f: LineFieldsV) -> MapTreeBuilderV {
    if st.sections.len() == 0 {
        st
    } else {
        let sec = st.sections.last();
        if is_overlap(sec, f) {
            if f.text.len() > 0 {
                let last = sec.sub_sections.last();
                let merged = SubSectionV {
                    names: last.names,
                    address: last.address,
                    size: last.size,
                    contributor: join_text(last.contributor, f.text),
                    demangled: last.demangled,
                };
                with_last_section(st, with_last_sub(sec, merged), st.cursor)
            } else {
                st
            }
        } else {
            let named = if is_alias(st, sec, f) {
                let last = sec.sub_sections.last();
                with_last_sub(
                    sec,
                    SubSectionV {
                        names: if last.names.contains(f.name) {
                            last.names
                        } else {
                            last.names.push(f.name)
                        },
                        address: last.address,
                        size: last.size,
                        contributor: last.contributor,
                        demangled: last.demangled,
                    },
                )
            } else {
                with_pushed_sub(sec, bare_sub(seq![f.name]))
            };
            if f.address.len() > 0 && f.size.len() > 0 {
                let target = named.sub_sections.last();
                let filled = SubSectionV {
                    names: target.names,
                    address: f.address,
                    size: f.size,
                    contributor: if f.text.len() > 0 {
                        f.text
                    } else {
                        target.contributor
                    },
                    demangled: target.demangled,
                };
                with_last_section(
                    st,
                    with_last_sub(named, filled),
                    if f.text.len() > 0 {
                        Cursor::HasContributor
                    } else {
                        Cursor::HasExtent
                    },
                )
            } else {
                with_last_section(st, named, Cursor::NoExtent)
            }
        }
    }
}

/// A nameless data line applies to the focus node. Awaiting an extent, a full
/// extent fills the open sub-section (text with it, if present) or the
/// section itself (sections never receive a contributor). With the extent
/// already placed, a complete line hands the open sub-section its
/// contributor, and a section without sub-sections adopts an anonymous one.
/// After the contributor, size-less text lines are demangled continuations.
/// Anything else is ignored.
pub open spec fn step_data(st: MapTreeBuilderV, f: LineFieldsV) -> MapTreeBuilderV {
    if st.sections.len() == 0 {
        st
    } else {
        let sec = st.sections.last();
        match st.cursor {
            Cursor::NoExtent => {
                if f.address.len() > 0 && f.size.len() > 0 {
                    if sec.sub_sections.len() > 0 {
                        let last = sec.sub_sections.last();
                        let filled = SubSectionV {
                            names: last.names,
                            address: f.address,
                            size: f.size,
                            contributor: if f.text.len() > 0 {
                                f.text
                            } else {
                                last.contributor
                            },
                            demangled: last.demangled,
                        };
                        with_last_section(
                            st,
                            with_last_sub(sec, filled),
                            if f.text.len() > 0 {
                                Cursor::HasContributor
                            } else {
                                Cursor::HasExtent
                            },
                        )
                    } else {
                        let sized = SectionV {
                            name: sec.name,
                            address: f.address,
                            size: f.size,
                            sub_sections: sec.sub_sections,
                        };
                        with_last_section(st, sized, Cursor::HasExtent)
                    }
                } else {
                    st
                }
            },
            Cursor::HasExtent => {
                if sec.sub_sections.len() > 0 {
                    if f.address.len() > 0 && f.size.len() > 0 && f.text.len() > 0 {
                        let last = sec.sub_sections.last();
                        let filled = SubSectionV {
                            names: last.names,
                            address: last.address,
                            size: last.size,
                            contributor: f.text,
                            demangled: last.demangled,
                        };
                        with_last_section(st, with_last_sub(sec, filled), Cursor::HasContributor)
                    } else {
                        st
                    }
                } else {
                    if f.address.len() > 0 && f.text.len() > 0 {
                        let anon = SubSectionV {
                            names: Seq::empty(),
                            address: f.address,
                            size: f.size,
                            contributor: f.text,
                            demangled: Seq::empty(),
                        };
                        with_last_section(st, with_pushed_sub(sec, anon), Cursor::HasContributor)
                    } else {
                        st
                    }
                }
            },
            Cursor::HasContributor => {
                if f.size.len() == 0 && f.text.len() > 0 && sec.sub_sections.len() > 0 {
                    let last = sec.sub_sections.last();
                    let extended = SubSectionV {
                        names: last.names,
                        address: last.address,
                        size: last.size,
                        contributor: last.contributor,
                        demangled: last.demangled.push(f.text),
                    };
                    with_last_section(st, with_last_sub(sec, extended), st.cursor)
                } else {
                    st
                }
            },
        }
    }
}

/// One transition of the tree builder on one classified line.
pub open spec fn builder_step(st: MapTreeBuilderV, f: LineFieldsV) -> MapTreeBuilderV {
    if f.name.len() > 0 && f.is_section {
        step_section_name(st, f)
    } else if f.name.len() > 0 {
        step_sub_name(st, f)
    } else {
        step_data(st, f)
    }
}

/// The builder a fresh parse starts from: no sections, focus awaiting an
/// extent.
pub open spec fn initial_builder() -> MapTreeBuilderV {
    MapTreeBuilderV { sections: Seq::empty(), cursor: Cursor::NoExtent }
}

/// Both halves of an extent are present.
pub open spec fn sized(address: Seq<u8>, size: Seq<u8>) -> bool {
    address.len() > 0 && size.len() > 0
}

/// Invariant of every reachable builder state: while the cursor still awaits
/// an extent, the focus node — the open sub-section, or the open section when
/// it has none — is indeed extentless.
pub open spec fn focus_unsized_inv(st: MapTreeBuilderV) -> bool {
    st.cursor is NoExtent && st.sections.len() > 0 ==> {
        let sec = st.sections.last();
        if sec.sub_sections.len() == 0 {
            sec.address.len() == 0 && sec.size.len() == 0
        } else {
            sec.sub_sections.last().address.len() == 0 && sec.sub_sections.last().size.len() == 0
        }
    }
}

/// No name stands twice in an alias list.
pub open spec fn distinct_names(names: Seq<Seq<u8>>) -> bool {
    forall|i: int, j: int| 0 <= i < j < names.len() ==> names[i] != names[j]
}

/// Invariant of every reachable builder state: the alias list of every
/// sub-section is a set — duplicate-free.
pub open spec fn names_set_inv(st: MapTreeBuilderV) -> bool {
    forall|i: int, j: int|
        0 <= i < st.sections.len() && 0 <= j < st.sections[i].sub_sections.len()
            ==> distinct_names(#[trigger] st.sections[i].sub_sections[j].names)
}

/// Reports whether two byte vectors hold the same bytes.
pub fn bytes_eq(a: &Vec<u8>, b: &Vec<u8>) -> (r: bool)
    ensures
        r == (a@ == b@),
{
    if a.len() != b.len() {
        return false;
    }
    let mut i: usize = 0;
    while i < a.len()
        invariant
            0 <= i <= a@.len(),
            a@.len() == b@.len(),
            forall|j: int| 0 <= j < i ==> a@[j] == b@[j],
        decreases a@.len() - i,
    {
        if a[i] != b[i] {
            return false;
        }
        i = i + 1;
    }
    proof {
        assert(a@ =~= b@);
    }
    true
}

/// Reports whether a name list contains the given name.
fn names_contain(names: &Vec<Vec<u8>>, x: &Vec<u8>) -> (r: bool)
    ensures
        r == names.deep_view().contains(x@),
{
    let mut i: usize = 0;
    while i < names.len()
        invariant
            0 <= i <= names@.len(),
            names@.len() == names.deep_view().len(),
            forall|j: int| 0 <= j < i ==> names.deep_view()[j] != x@,
        decreases names@.len() - i,
    {
        let hit = bytes_eq(&names[i], x);
        proof {
            assert(names.deep_view()[i as int] =~= names@[i as int]@);
        }
        if hit {
            proof {
                assert(names.deep_view()[i as int] == x@);
                assert(names.deep_view().contains(x@));
            }
            return true;
        }
        i = i + 1;
    }
    proof {
        assert(forall|j: int| 0 <= j < names.deep_view().len() ==> names.deep_view()[j] != x@);
    }
    false
}

/// Appends `b` to `a` with a single separating space; `a` is handed back
/// unchanged but for the suffix, and taken over entirely when empty.
fn join_text_vec(a: Vec<u8>, b: Vec<u8>) -> (r: Vec<u8>)
    ensures
        r@ == join_text(a@, b@),
{
    if a.len() == 0 {
        return b;
    }
    let mut r = a;
    r.push(32);
    let mut i: usize = 0;
    while i < b.len()
        invariant
            0 <= i <= b@.len(),
            r@ == a@ + seq![32u8] + b@.take(i as int),
        decreases b@.len() - i,
    {
        r.push(b[i]);
        assert(b@.take(i + 1) =~= b@.take(i as int).push(b@[i as int]));
        assert(r@ =~= a@ + seq![32u8] + b@.take(i + 1));
        i = i + 1;
    }
    assert(b@.take(b@.len() as int) =~= b@);
    r
}

impl MapTreeBuilder {
    /// A fresh builder with no sections.
    pub fn new() -> (b: MapTreeBuilder)
        ensures
            b@ == initial_builder(),
    {
        let b = MapTreeBuilder { sections: Vec::new(), cursor: Cursor::NoExtent };
        proof {
            assert(b@ =~~= initial_builder());
        }
        b
    }

    /// Consumes one classified line and performs the matching transition.
    pub fn step(&mut self, f: LineFields)
        ensures
            final(self)@ == builder_step(old(self)@, f@),
    {
        if f.name.len() > 0 && f.is_section {
            self.step_section_name(f);
        } else if f.name.len() > 0 {
            self.step_sub_name(f);
        } else {
            self.step_data(f);
        }
    }

    fn step_section_name(&mut self, f: LineFields)
        ensures
            final(self)@ == step_section_name(old(self)@, f@),
    {
        let ghost fv = f@;
        let sized = f.address.len() > 0 && f.size.len() > 0;
        let sec = Section {
            name: f.name,
            address: if sized {
                f.address
            } else {
                Vec::new()
            },
            size: if sized {
                f.size
            } else {
                Vec::new()
            },
            sub_sections: Vec::new(),
        };
        self.sections.push(sec);
        self.cursor = if sized {
            Cursor::HasExtent
        } else {
            Cursor::NoExtent
        };
        proof {
            assert(self@ =~~= step_section_name(old(self)@, fv));
        }
    }

    fn step_sub_name(&mut self, f: LineFields)
        ensures
            final(self)@ == step_sub_name(old(self)@, f@),
    {
        let ghost fv = f@;
        let n = self.sections.len();
        if n == 0 {
            return;
        }
        let mut sec = self.sections.pop().unwrap();
        let m = sec.sub_sections.len();
        let overlap = m > 0 && names_contain(&sec.sub_sections[m - 1].names, &f.name)
            && f.address.len() > 0 && bytes_eq(&f.address, &sec.sub_sections[m - 1].address);
        if overlap {
            if f.text.len() > 0 {
                let mut last = sec.sub_sections.pop().unwrap();
                let prior = last.contributor;
                last.contributor = join_text_vec(prior, f.text);
                sec.sub_sections.push(last);
            }
            self.sections.push(sec);
            proof {
                assert(self@ =~~= step_sub_name(old(self)@, fv));
            }
            return;
        }
        let alias = m > 0 && sec.sub_sections[m - 1].address.len() == 0 && sec.sub_sections[m
            - 1].size.len() == 0 && !matches!(self.cursor, Cursor::HasContributor);
        if alias {
            let known = names_contain(&sec.sub_sections[m - 1].names, &f.name);
            let mut last = sec.sub_sections.pop().unwrap();
            if !known {
                last.names.push(f.name);
            }
            sec.sub_sections.push(last);
        } else {
            let sub = SubSection {
                names: vec![f.name],
                address: Vec::new(),
                size: Vec::new(),
                contributor: Vec::new(),
                demangled: Vec::new(),
            };
            sec.sub_sections.push(sub);
        }
        if f.address.len() > 0 && f.size.len() > 0 {
            let mut target = sec.sub_sections.pop().unwrap();
            target.address = f.address;
            target.size = f.size;
            if f.text.len() > 0 {
                target.contributor = f.text;
                self.cursor = Cursor::HasContributor;
            } else {
                self.cursor = Cursor::HasExtent;
            }
            sec.sub_sections.push(target);
        } else {
            self.cursor = Cursor::NoExtent;
        }
        self.sections.push(sec);
        proof {
            assert(self@ =~~= step_sub_name(old(self)@, fv));
        }
    }

    fn step_data(&mut self, f: LineFields)
        ensures
            final(self)@ == step_data(old(self)@, f@),
    {
        let ghost fv = f@;
        let n = self.sections.len();
        if n == 0 {
            return;
        }
        let mut sec = self.sections.pop().unwrap();
        let m = sec.sub_sections.len();
        match self.cursor {
            Cursor::NoExtent => {
                if f.address.len() > 0 && f.size.len() > 0 {
                    if m > 0 {
                        let mut last = sec.sub_sections.pop().unwrap();
                        last.address = f.address;
                        last.size = f.size;
                        if f.text.len() > 0 {
                            last.contributor = f.text;
                            self.cursor = Cursor::HasContributor;
                        } else {
                            self.cursor = Cursor::HasExtent;
                        }
                        sec.sub_sections.push(last);
                    } else {
                        sec.address = f.address;
                        sec.size = f.size;
                        self.cursor = Cursor::HasExtent;
                    }
                }
            },
            Cursor::HasExtent => {
                if m > 0 {
                    if f.address.len() > 0 && f.size.len() > 0 && f.text.len() > 0 {
                        let mut last = sec.sub_sections.pop().unwrap();
                        last.contributor = f.text;
                        sec.sub_sections.push(last);
                        self.cursor = Cursor::HasContributor;
                    }
                } else {
                    if f.address.len() > 0 && f.text.len() > 0 {
                        let anon = SubSection {
                            names: Vec::new(),
                            address: f.address,
                            size: f.size,
                            contributor: f.text,
                            demangled: Vec::new(),
                        };
                        sec.sub_sections.push(anon);
                        self.cursor = Cursor::HasContributor;
                    }
                }
            },
            Cursor::HasContributor => {
                if f.size.len() == 0 && f.text.len() > 0 && m > 0 {
                    let mut last = sec.sub_sections.pop().unwrap();
                    last.demangled.push(f.text);
                    sec.sub_sections.push(last);
                }
            },
        }
        self.sections.push(sec);
        proof {
            assert(self@ =~~= step_data(old(self)@, fv));
        }
    }
}

} // verus!
