//! Memory-map line classifier. Given a line that survived the noise filter,
//! it determines which optional fields the line carries (name, address, size,
//! contributor/demangled text) and whether a name names a section
//! (unindented) or a sub-section (indented).
//!
//! The report's column layout is fixed-width only while the content is short;
//! long names and long hex values overflow it. So the classifier combines
//! byte-offset probes (the column anchors below) with token counting, as no
//! rule of one kind alone suffices.

use vstd::prelude::*;

use crate::text::{first_token, is_ws, spec_join, split_ws, tokens, ws_byte};

verus! {

/// Width of the name column: a name that does not fit wraps onto a
/// continuation line, and an address, when present, begins at this offset.
pub const NAME_FIELD_WIDTH: usize = 16;

/// Length of the canonical name+address+size column template
/// (`*fill*         0x000002a6        0x2 `). The byte just before this
/// offset probes whether a size column exists; bytes from this offset on
/// are contributor or demangled text.
pub const EXTENT_FIELD_WIDTH: usize = 37;

/// The fields one classified line carries. An empty `name`, `address`,
/// `size` or `text` means the line does not carry that field;
/// `is_section` is meaningful only when `name` is non-empty.
pub struct LineFields {
    pub name: Vec<u8>,
    pub is_section: bool,
    pub address: Vec<u8>,
    pub size: Vec<u8>,
    pub text: Vec<u8>,
}

/// Mathematical image of `LineFields`.
#[verifier::ext_equal]
pub ghost struct LineFieldsV {
    pub name: Seq<u8>,
    pub is_section: bool,
    pub address: Seq<u8>,
    pub size: Seq<u8>,
    pub text: Seq<u8>,
}

impl View for LineFields {
    type V = LineFieldsV;

    open spec fn view(&self) -> LineFieldsV {
        LineFieldsV {
            name: self.name@,
            is_section: self.is_section,
            address: self.address@,
            size: self.size@,
            text: self.text@,
        }
    }
}

/// An address field is present iff the bytes at the name column's end open a
/// hex value (`0x`) or an attribute bracket (`[!`).
pub open spec fn spec_addr_marker(l: Seq<u8>) -> bool {
    l.len() >= NAME_FIELD_WIDTH + 2 && ((l[NAME_FIELD_WIDTH as int] == 48
        && l[NAME_FIELD_WIDTH + 1] == 120) || (l[NAME_FIELD_WIDTH as int] == 91
        && l[NAME_FIELD_WIDTH + 1] == 33))
}

/// The token at position `i`, or the empty sequence when there are fewer.
pub open spec fn tok_or_empty(ts: Seq<Seq<u8>>, i: int) -> Seq<u8> {
    if 0 <= i < ts.len() {
        ts[i]
    } else {
        Seq::empty()
    }
}

/// The tokens from position `i` on, or no tokens when there are fewer.
pub open spec fn toks_from(ts: Seq<Seq<u8>>, i: int) -> Seq<Seq<u8>> {
    if 0 <= i <= ts.len() {
        ts.skip(i)
    } else {
        Seq::empty()
    }
}

/// Everything from position `i` of the line on is whitespace.
pub open spec fn blank_from(l: Seq<u8>, i: int) -> bool {
    forall|j: int| i <= j < l.len() ==> is_ws(l[j])
}

/// A name token is present on an address-carrying line iff the line's first
/// two bytes are not both spaces.
pub open spec fn spec_has_name(l: Seq<u8>) -> bool {
    !(l[0] == 32 && l[1] == 32)
}

/// A size column is present iff the byte at the last extent-template column
/// is not a space (or the line ends before that column while still carrying
/// an address).
pub open spec fn spec_size_present(l: Seq<u8>) -> bool {
    l.len() <= EXTENT_FIELD_WIDTH - 1 || l[EXTENT_FIELD_WIDTH - 1] != 32
}

/// Contributor or demangled text is present iff the line extends past the
/// extent template and that tail is not blank.
pub open spec fn spec_text_present(l: Seq<u8>) -> bool {
    l.len() > EXTENT_FIELD_WIDTH && !blank_from(l, EXTENT_FIELD_WIDTH as int)
}

/// What `classify` returns: the fields a surviving memory-map line carries.
///
/// A line too short to hold an address column, or without an address marker
/// at the name column's end, carries only a name: a section name when the
/// line is unindented, a sub-section name otherwise. A line with an address
/// marker carries a name only when its first two bytes are not both spaces
/// (otherwise it continues an over-long name from the previous line and its
/// first token is the address); a size when the probe column is non-space;
/// and text when a non-blank tail follows the extent columns, taken as the
/// remaining tokens joined by single spaces.
pub open spec fn classify_line(l: Seq<u8>) -> LineFieldsV {
    if l.len() < NAME_FIELD_WIDTH || !spec_addr_marker(l) {
        LineFieldsV {
            name: first_token(l),
            is_section: l.len() == 0 || l[0] != 32,
            address: Seq::empty(),
            size: Seq::empty(),
            text: Seq::empty(),
        }
    } else {
        let ts = tokens(l);
        let has_name = spec_has_name(l);
        let addr_idx: int = if has_name {
            1
        } else {
            0
        };
        let size_present = spec_size_present(l);
        let rest_idx: int = if size_present {
            addr_idx + 2
        } else {
            addr_idx + 1
        };
        LineFieldsV {
            name: if has_name {
                tok_or_empty(ts, 0)
            } else {
                Seq::empty()
            },
            is_section: has_name && l[0] != 32,
            address: tok_or_empty(ts, addr_idx),
            size: if size_present {
                tok_or_empty(ts, addr_idx + 1)
            } else {
                Seq::empty()
            },
            text: if spec_text_present(l) {
                spec_join(toks_from(ts, rest_idx), 32)
            } else {
                Seq::empty()
            },
        }
    }
}

/// A field of the canonical layouts: non-empty and free of whitespace.
pub open spec fn plain_field(t: Seq<u8>) -> bool {
    t.len() > 0 && (forall|i: int| 0 <= i < t.len() ==> !is_ws(t[i]))
}

/// A run of `k` spaces.
pub open spec fn spaces(k: nat) -> Seq<u8> {
    Seq::new(k, |i: int| 32u8)
}

/// A hex-address token: it opens with `0x`.
pub open spec fn hex_address(t: Seq<u8>) -> bool {
    t.len() >= 2 && t[0] == 48 && t[1] == 120
}

/// The canonical single-line section header `NAME 0xADDR 0xSIZE`: an
/// unindented name padded with spaces to the name column's width, a hex
/// address, more spaces, and a size whose layout satisfies the probe column.
pub open spec fn section_header_layout(
    l: Seq<u8>,
    name: Seq<u8>,
    addr: Seq<u8>,
    size: Seq<u8>,
    p1: nat,
    p2: nat,
) -> bool {
    &&& l == name + spaces(p1) + addr + spaces(p2) + size
    &&& plain_field(name)
    &&& plain_field(addr)
    &&& hex_address(addr)
    &&& plain_field(size)
    &&& p1 >= 1
    &&& p2 >= 1
    &&& name.len() + p1 == NAME_FIELD_WIDTH
    &&& spec_size_present(l)
}

/// The canonical extent continuation `0xADDR 0xSIZE`: indented by the full
/// name column, then a hex address, spaces, and a size.
pub open spec fn extent_continuation_layout(
    l: Seq<u8>,
    addr: Seq<u8>,
    size: Seq<u8>,
    p: nat,
) -> bool {
    &&& l == spaces(NAME_FIELD_WIDTH as nat) + addr + spaces(p) + size
    &&& plain_field(addr)
    &&& hex_address(addr)
    &&& plain_field(size)
    &&& p >= 1
    &&& spec_size_present(l)
}

/// A name-only line: the line is exactly one unindented name token.
pub open spec fn name_line_layout(l: Seq<u8>, name: Seq<u8>) -> bool {
    l == name && plain_field(name)
}

/// On a canonical single-line section header, the classifier reads off
/// exactly the three fields the layout carries, and no text.
pub proof fn lemma_classify_section_header(
    l: Seq<u8>,
    name: Seq<u8>,
    addr: Seq<u8>,
    size: Seq<u8>,
    p1: nat,
    p2: nat,
)
    requires
        section_header_layout(l, name, addr, size, p1, p2),
    ensures
        classify_line(l) == (LineFieldsV {
            name: name,
            is_section: true,
            address: addr,
            size: size,
            text: Seq::empty(),
        }),
{
    let n1 = name.len() as int;
    let a0 = NAME_FIELD_WIDTH as int;
    let a1 = a0 + addr.len();
    let s0 = a1 + p2;
    let s1 = l.len() as int;
    let g1 = name + spaces(p1);
    let g2 = g1 + addr;
    let g3 = g2 + spaces(p2);
    assert(l =~= g3 + size);
    assert(forall|k: int| 0 <= k < n1 ==> l[k] == name[k]);
    assert(forall|k: int| n1 <= k < a0 ==> l[k] == 32);
    assert(forall|k: int| a0 <= k < a1 ==> l[k] == addr[k - a0]);
    assert(forall|k: int| a1 <= k < s0 ==> l[k] == 32);
    assert(forall|k: int| s0 <= k < s1 ==> l[k] == size[k - s0]);
    assert(is_ws(32u8));
    crate::text::lemma_tokens_from_run(l, 0, n1);
    assert(l.subrange(0, n1) =~= name);
    crate::text::lemma_tokens_from_ws_run(l, n1, a0);
    crate::text::lemma_tokens_from_run(l, a0, a1);
    assert(l.subrange(a0, a1) =~= addr);
    crate::text::lemma_tokens_from_ws_run(l, a1, s0);
    crate::text::lemma_tokens_from_run(l, s0, s1);
    assert(l.subrange(s0, s1) =~= size);
    assert(tokens(l) =~~= seq![name, addr, size]);
    assert(spec_addr_marker(l)) by {
        assert(l[a0] == addr[0] && l[a0 + 1] == addr[1]);
    }
    assert(spec_has_name(l)) by {
        assert(l[0] == name[0] && !is_ws(name[0]));
    }
    let ts = tokens(l);
    assert(tok_or_empty(ts, 0) == name && tok_or_empty(ts, 1) == addr && tok_or_empty(ts, 2)
        == size);
    assert(toks_from(ts, 3) =~~= Seq::<Seq<u8>>::empty());
    assert(classify_line(l) =~~= (LineFieldsV {
        name: name,
        is_section: true,
        address: addr,
        size: size,
        text: Seq::empty(),
    }));
}

/// On a canonical extent continuation, the classifier finds no name, the
/// address and size, and no text.
pub proof fn lemma_classify_extent_continuation(l: Seq<u8>, addr: Seq<u8>, size: Seq<u8>, p: nat)
    requires
        extent_continuation_layout(l, addr, size, p),
    ensures
        classify_line(l) == (LineFieldsV {
            name: Seq::empty(),
            is_section: false,
            address: addr,
            size: size,
            text: Seq::empty(),
        }),
{
    let a0 = NAME_FIELD_WIDTH as int;
    let a1 = a0 + addr.len();
    let s0 = a1 + p;
    let s1 = l.len() as int;
    let g1 = spaces(NAME_FIELD_WIDTH as nat) + addr;
    let g2 = g1 + spaces(p);
    assert(l =~= g2 + size);
    assert(forall|k: int| 0 <= k < a0 ==> l[k] == 32);
    assert(forall|k: int| a0 <= k < a1 ==> l[k] == addr[k - a0]);
    assert(forall|k: int| a1 <= k < s0 ==> l[k] == 32);
    assert(forall|k: int| s0 <= k < s1 ==> l[k] == size[k - s0]);
    assert(is_ws(32u8));
    crate::text::lemma_tokens_from_ws_run(l, 0, a0);
    crate::text::lemma_tokens_from_run(l, a0, a1);
    assert(l.subrange(a0, a1) =~= addr);
    crate::text::lemma_tokens_from_ws_run(l, a1, s0);
    crate::text::lemma_tokens_from_run(l, s0, s1);
    assert(l.subrange(s0, s1) =~= size);
    assert(tokens(l) =~~= seq![addr, size]);
    assert(spec_addr_marker(l)) by {
        assert(l[a0] == addr[0] && l[a0 + 1] == addr[1]);
    }
    assert(!spec_has_name(l));
    let ts = tokens(l);
    assert(tok_or_empty(ts, 0) == addr && tok_or_empty(ts, 1) == size);
    assert(toks_from(ts, 2) =~~= Seq::<Seq<u8>>::empty());
    assert(classify_line(l) =~~= (LineFieldsV {
        name: Seq::empty(),
        is_section: false,
        address: addr,
        size: size,
        text: Seq::empty(),
    }));
}

/// On a line that is exactly one unindented name token, the classifier finds
/// a section name and nothing else, whatever the name's length.
pub proof fn lemma_classify_name_line(l: Seq<u8>, name: Seq<u8>)
    requires
        name_line_layout(l, name),
    ensures
        classify_line(l) == (LineFieldsV {
            name: name,
            is_section: true,
            address: Seq::empty(),
            size: Seq::empty(),
            text: Seq::empty(),
        }),
{
    crate::text::lemma_tokens_from_run(l, 0, l.len() as int);
    assert(l.subrange(0, l.len() as int) =~= name);
    assert(tokens(l) =~~= seq![name]);
    assert(l[0] == name[0] && !is_ws(name[0]));
    let ts = tokens(l);
    if l.len() < NAME_FIELD_WIDTH || !spec_addr_marker(l) {
        assert(first_token(l) == name);
    } else {
        assert(spec_has_name(l));
        assert(tok_or_empty(ts, 0) == name);
        assert(tok_or_empty(ts, 1) =~= Seq::<u8>::empty());
        assert(tok_or_empty(ts, 2) =~= Seq::<u8>::empty());
        assert(toks_from(ts, 2) =~~= Seq::<Seq<u8>>::empty());
        assert(toks_from(ts, 3) =~~= Seq::<Seq<u8>>::empty());
    }
    assert(classify_line(l) =~~= (LineFieldsV {
        name: name,
        is_section: true,
        address: Seq::empty(),
        size: Seq::empty(),
        text: Seq::empty(),
    }));
}

/// Copies a byte vector.
pub fn copy_bytes(v: &Vec<u8>) -> (r: Vec<u8>)
    ensures
        r@ == v@,
{
    let mut r: Vec<u8> = Vec::new();
    let mut i: usize = 0;
    while i < v.len()
        invariant
            0 <= i <= v@.len(),
            r@ == v@.take(i as int),
        decreases v@.len() - i,
    {
        r.push(v[i]);
        assert(v@.take(i + 1 as int) =~= v@.take(i as int).push(v@[i as int]));
        i = i + 1;
    }
    assert(v@.take(v@.len() as int) =~= v@);
    r
}

/// Copies the token at position `i`, or returns an empty vector.
pub fn token_at(toks: &Vec<Vec<u8>>, i: usize) -> (r: Vec<u8>)
    ensures
        r@ == tok_or_empty(toks.deep_view(), i as int),
{
    if i < toks.len() {
        copy_bytes(&toks[i])
    } else {
        Vec::new()
    }
}

/// Reports whether everything from position `start` on is whitespace.
fn blank_tail(line: &Vec<u8>, start: usize) -> (r: bool)
    ensures
        r == blank_from(line@, start as int),
{
    let mut i: usize = start;
    while i < line.len()
        invariant
            start <= i,
            forall|j: int| start <= j < i ==> is_ws(line@[j]),
        decreases line@.len() - i,
    {
        if !ws_byte(line[i]) {
            return false;
        }
        i = i + 1;
    }
    true
}

/// Classifies one surviving memory-map line into its optional fields.
pub fn classify(line: &Vec<u8>) -> (f: LineFields)
    ensures
        f@ == classify_line(line@),
{
    let n = line.len();
    let marker = n >= NAME_FIELD_WIDTH + 2 && ((line[NAME_FIELD_WIDTH] == 48
        && line[NAME_FIELD_WIDTH + 1] == 120) || (line[NAME_FIELD_WIDTH] == 91
        && line[NAME_FIELD_WIDTH + 1] == 33));
    if n < NAME_FIELD_WIDTH || !marker {
        let toks = split_ws(line);
        let name = token_at(&toks, 0);
        assert(name@ == first_token(line@));
        LineFields {
            name,
            is_section: n == 0 || line[0] != 32,
            address: Vec::new(),
            size: Vec::new(),
            text: Vec::new(),
        }
    } else {
        let toks = split_ws(line);
        let has_name = !(line[0] == 32 && line[1] == 32);
        let addr_idx: usize = if has_name {
            1
        } else {
            0
        };
        let size_present = n <= EXTENT_FIELD_WIDTH - 1 || line[EXTENT_FIELD_WIDTH - 1] != 32;
        let rest_idx: usize = if size_present {
            addr_idx + 2
        } else {
            addr_idx + 1
        };
        let name = if has_name {
            token_at(&toks, 0)
        } else {
            Vec::new()
        };
        let address = token_at(&toks, addr_idx);
        let size = if size_present {
            token_at(&toks, addr_idx + 1)
        } else {
            Vec::new()
        };
        let text_present = n > EXTENT_FIELD_WIDTH && !blank_tail(line, EXTENT_FIELD_WIDTH);
        let text = if text_present {
            let mut rest: Vec<Vec<u8>> = Vec::new();
            let start = if rest_idx <= toks.len() {
                rest_idx
            } else {
                toks.len()
            };
            let mut i: usize = start;
            while i < toks.len()
                invariant
                    start <= i <= toks@.len(),
                    rest.deep_view() == toks.deep_view().subrange(start as int, i as int),
                    toks@.len() == toks.deep_view().len(),
                decreases toks@.len() - i,
            {
                let t = copy_bytes(&toks[i]);
                let ghost r0 = rest.deep_view();
                let ghost tv = t@;
                rest.push(t);
                proof {
                    assert(rest.deep_view() =~~= r0.push(tv));
                    assert(r0.push(tv) =~~= toks.deep_view().subrange(start as int, i + 1));
                }
                i = i + 1;
            }
            proof {
                assert(rest.deep_view() =~~= toks_from(toks.deep_view(), rest_idx as int));
            }
            join_rest(&rest)
        } else {
            Vec::new()
        };
        LineFields { name, is_section: has_name && line[0] != 32, address, size, text }
    }
}

/// Joins the remaining tokens with single spaces.
fn join_rest(rest: &Vec<Vec<u8>>) -> (r: Vec<u8>)
    ensures
        r@ == spec_join(rest.deep_view(), 32),
{
    crate::text::join_bytes(rest, 32)
}

} // verus!
