//! Byte-level text utilities shared by the map-file parser: whitespace
//! classification, tokenization of a line into maximal non-whitespace runs,
//! joining token lists with a separator, and prefix/suffix probes.

use vstd::prelude::*;

verus! {

/// Bytes that count as whitespace when a line is split into tokens:
/// space, tab, line feed, vertical tab, form feed, carriage return.
pub open spec fn is_ws(b: u8) -> bool {
    b == 32 || b == 9 || b == 10 || b == 11 || b == 12 || b == 13
}

/// Executable counterpart of `is_ws`.
pub fn ws_byte(b: u8) -> (r: bool)
    ensures
        r == is_ws(b),
{
    b == 32 || b == 9 || b == 10 || b == 11 || b == 12 || b == 13
}

/// A line is blank when every byte is whitespace.
pub open spec fn is_blank(s: Seq<u8>) -> bool {
    forall|i: int| 0 <= i < s.len() ==> is_ws(s[i])
}

/// Reports whether every byte of the line is whitespace.
pub fn line_is_blank(line: &Vec<u8>) -> (r: bool)
    ensures
        r == is_blank(line@),
{
    let mut i: usize = 0;
    while i < line.len()
        invariant
            0 <= i <= line@.len(),
            forall|j: int| 0 <= j < i ==> is_ws(line@[j]),
        decreases line@.len() - i,
    {
        if !ws_byte(line[i]) {
            return false;
        }
        i = i + 1;
    }
    true
}

/// End of the maximal non-whitespace run that begins at position `i`:
/// the first position at or after `i` holding whitespace, or the line's end.
pub open spec fn token_end(s: Seq<u8>, i: int) -> int
    decreases s.len() - i,
{
    if i < 0 || i >= s.len() || is_ws(s[i]) {
        i
    } else {
        token_end(s, i + 1)
    }
}

pub proof fn lemma_token_end_bounds(s: Seq<u8>, i: int)
    requires
        0 <= i <= s.len(),
    ensures
        i <= token_end(s, i) <= s.len(),
        i < s.len() && !is_ws(s[i]) ==> i < token_end(s, i),
    decreases s.len() - i,
{
    if i < s.len() && !is_ws(s[i]) {
        lemma_token_end_bounds(s, i + 1);
    }
}

/// The run from `a` to `b` is exactly one token when it is non-whitespace
/// throughout and `b` is the line's end or a whitespace position.
pub proof fn lemma_token_end_exact(s: Seq<u8>, a: int, b: int)
    requires
        0 <= a <= b <= s.len(),
        forall|j: int| a <= j < b ==> !is_ws(s[j]),
        b == s.len() || is_ws(s[b]),
    ensures
        token_end(s, a) == b,
    decreases b - a,
{
    if a < b {
        lemma_token_end_exact(s, a + 1, b);
    }
}

/// The whitespace-delimited tokens of `s`, from position `i` onward.
pub open spec fn tokens_from(s: Seq<u8>, i: int) -> Seq<Seq<u8>>
    decreases s.len() - i,
    via tokens_from_decreases
{
    if i < 0 || i >= s.len() {
        Seq::empty()
    } else if is_ws(s[i]) {
        tokens_from(s, i + 1)
    } else {
        seq![s.subrange(i, token_end(s, i))] + tokens_from(s, token_end(s, i))
    }
}

#[via_fn]
proof fn tokens_from_decreases(s: Seq<u8>, i: int) {
    if 0 <= i < s.len() && !is_ws(s[i]) {
        lemma_token_end_bounds(s, i);
    }
}

/// The whitespace-delimited tokens of a whole line.
pub open spec fn tokens(s: Seq<u8>) -> Seq<Seq<u8>> {
    tokens_from(s, 0)
}

/// Tokenization is unchanged by skipping over a whitespace run.
pub proof fn lemma_tokens_from_ws_run(s: Seq<u8>, i: int, j: int)
    requires
        0 <= i <= j <= s.len(),
        forall|k: int| i <= k < j ==> is_ws(s[k]),
    ensures
        tokens_from(s, i) == tokens_from(s, j),
    decreases j - i,
{
    if i < j {
        lemma_tokens_from_ws_run(s, i + 1, j);
    }
}

/// A maximal non-whitespace run from `i` to `j` is the next token.
pub proof fn lemma_tokens_from_run(s: Seq<u8>, i: int, j: int)
    requires
        0 <= i < j <= s.len(),
        forall|k: int| i <= k < j ==> !is_ws(s[k]),
        j == s.len() || is_ws(s[j]),
    ensures
        tokens_from(s, i) == seq![s.subrange(i, j)] + tokens_from(s, j),
{
    lemma_token_end_exact(s, i, j);
}

/// The first token of a line, or the empty sequence when the line is blank.
pub open spec fn first_token(s: Seq<u8>) -> Seq<u8> {
    if tokens(s).len() == 0 {
        Seq::empty()
    } else {
        tokens(s)[0]
    }
}

/// Splits a line into its whitespace-delimited tokens.
pub fn split_ws(line: &Vec<u8>) -> (toks: Vec<Vec<u8>>)
    ensures
        toks.deep_view() == tokens(line@),
{
    let ghost s = line@;
    let mut toks: Vec<Vec<u8>> = Vec::new();
    let mut i: usize = 0;
    while i < line.len()
        invariant
            0 <= i <= s.len(),
            s == line@,
            tokens(s) == toks.deep_view() + tokens_from(s, i as int),
        decreases s.len() - i,
    {
        if ws_byte(line[i]) {
            i = i + 1;
        } else {
            let start = i;
            let mut tok: Vec<u8> = Vec::new();
            while i < line.len() && !ws_byte(line[i])
                invariant
                    0 <= start <= i <= s.len(),
                    s == line@,
                    tok@ == s.subrange(start as int, i as int),
                    forall|j: int| start <= j < i ==> !is_ws(s[j]),
                decreases s.len() - i,
            {
                tok.push(line[i]);
                assert(tok@ =~= s.subrange(start as int, i + 1 as int));
                i = i + 1;
            }
            proof {
                lemma_token_end_exact(s, start as int, i as int);
            }
            let ghost old_toks = toks.deep_view();
            toks.push(tok);
            proof {
                assert(toks.deep_view() =~~= old_toks.push(tok@));
                assert(old_toks.push(tok@) + tokens_from(s, i as int) =~= old_toks + (seq![
                    s.subrange(start as int, i as int),
                ] + tokens_from(s, i as int)));
            }
        }
    }
    assert(toks.deep_view() =~= toks.deep_view() + tokens_from(s, i as int));
    toks
}

/// The tokens joined by a single separator byte between neighbours.
pub open spec fn spec_join(items: Seq<Seq<u8>>, sep: u8) -> Seq<u8>
    decreases items.len(),
{
    if items.len() == 0 {
        Seq::empty()
    } else if items.len() == 1 {
        items[0]
    } else {
        spec_join(items.drop_last(), sep) + seq![sep] + items.last()
    }
}

/// Appending one more item to a join extends it with a separator and the item.
pub proof fn lemma_join_push(items: Seq<Seq<u8>>, sep: u8, last: Seq<u8>)
    ensures
        items.len() == 0 ==> spec_join(items.push(last), sep) == last,
        items.len() > 0 ==> spec_join(items.push(last), sep) == spec_join(items, sep) + seq![sep]
            + last,
{
    if items.len() == 0 {
        assert(items.push(last)[0] =~= last);
    } else {
        assert(items.push(last).drop_last() =~~= items);
        assert(items.push(last).last() =~= last);
    }
}

/// Joins the items with a single separator byte between neighbours.
pub fn join_bytes(items: &Vec<Vec<u8>>, sep: u8) -> (out: Vec<u8>)
    ensures
        out@ == spec_join(items.deep_view(), sep),
{
    let ghost all = items.deep_view();
    let mut out: Vec<u8> = Vec::new();
    let mut i: usize = 0;
    while i < items.len()
        invariant
            0 <= i <= all.len(),
            all == items.deep_view(),
            all.len() == items@.len(),
            out@ == spec_join(all.take(i as int), sep),
        decreases all.len() - i,
    {
        if i > 0 {
            out.push(sep);
        }
        let item = &items[i];
        let mut j: usize = 0;
        while j < item.len()
            invariant
                0 <= j <= item@.len(),
                i < items@.len(),
                item == items@[i as int],
                i > 0 ==> out@ == spec_join(all.take(i as int), sep) + seq![sep] + item@.take(
                    j as int,
                ),
                i == 0 ==> out@ == item@.take(j as int),
            decreases item@.len() - j,
        {
            out.push(item[j]);
            assert(item@.take(j + 1 as int) =~= item@.take(j as int).push(item@[j as int]));
            j = j + 1;
        }
        proof {
            assert(item@.take(item@.len() as int) =~= item@);
            assert(item@ == all[i as int]);
            lemma_join_push(all.take(i as int), sep, all[i as int]);
            assert(all.take(i + 1 as int) =~= all.take(i as int).push(all[i as int]));
        }
        i = i + 1;
    }
    assert(all.take(all.len() as int) =~= all);
    out
}

/// The tokens of a line joined by a single separator: runs of whitespace
/// collapse and outer whitespace disappears.
pub open spec fn normalized(s: Seq<u8>, sep: u8) -> Seq<u8> {
    spec_join(tokens(s), sep)
}

/// Collapses each whitespace run of the line to one separator byte.
pub fn normalize(line: &Vec<u8>, sep: u8) -> (out: Vec<u8>)
    ensures
        out@ == normalized(line@, sep),
{
    let toks = split_ws(line);
    join_bytes(&toks, sep)
}

/// `p` is a prefix of `s`.
pub open spec fn has_prefix(s: Seq<u8>, p: Seq<u8>) -> bool {
    p.len() <= s.len() && (forall|i: int| 0 <= i < p.len() ==> s[i] == p[i])
}

/// `p` is a suffix of `s`.
pub open spec fn has_suffix(s: Seq<u8>, p: Seq<u8>) -> bool {
    p.len() <= s.len() && (forall|i: int|
        0 <= i < p.len() ==> s[s.len() - p.len() + i] == p[i])
}

/// Reports whether the line begins with the given bytes.
pub fn starts_with_bytes(line: &Vec<u8>, p: &[u8]) -> (r: bool)
    ensures
        r == has_prefix(line@, p@),
{
    if p.len() > line.len() {
        return false;
    }
    let mut i: usize = 0;
    while i < p.len()
        invariant
            0 <= i <= p@.len() <= line@.len(),
            forall|j: int| 0 <= j < i ==> line@[j] == p@[j],
        decreases p@.len() - i,
    {
        if line[i] != p[i] {
            return false;
        }
        i = i + 1;
    }
    true
}

/// Reports whether the line ends with the given bytes.
pub fn ends_with_bytes(line: &Vec<u8>, p: &[u8]) -> (r: bool)
    ensures
        r == has_suffix(line@, p@),
{
    if p.len() > line.len() {
        return false;
    }
    let off = line.len() - p.len();
    let mut i: usize = 0;
    while i < p.len()
        invariant
            0 <= i <= p@.len() <= line@.len(),
            line@.len() <= usize::MAX,
            off == line@.len() - p@.len(),
            forall|j: int| 0 <= j < i ==> line@[off + j] == p@[j],
        decreases p@.len() - i,
    {
        if line[off + i] != p[i] {
            return false;
        }
        i = i + 1;
    }
    true
}

/// Appends `b`'s bytes onto `a`.
pub fn concat_bytes(a: Vec<u8>, b: &Vec<u8>) -> (r: Vec<u8>)
    ensures
        r@ == a@ + b@,
{
    let mut r = a;
    let mut i: usize = 0;
    while i < b.len()
        invariant
            0 <= i <= b@.len(),
            r@ == a@ + b@.take(i as int),
        decreases b@.len() - i,
    {
        r.push(b[i]);
        assert(b@.take(i + 1) =~= b@.take(i as int).push(b@[i as int]));
        assert(r@ =~= a@ + b@.take(i + 1));
        i = i + 1;
    }
    assert(b@.take(b@.len() as int) =~= b@);
    assert(r@ =~= a@ + b@);
    r
}

} // verus!
