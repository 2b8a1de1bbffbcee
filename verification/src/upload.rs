//! Cutting an uploaded file into the data points that hold it.
use vstd::prelude::*;

use crate::path::bytes_end_with;
use crate::text::utf8_str;
use crate::html::{insert_html_header, spec_insert_html_header};
use crate::read::spec_join_parts;

verus! {

/// The bytes of `<!--SPLIT_POINT-->`, a marker an author may place in a page.
pub open spec fn split_marker() -> Seq<u8> {
    seq![60u8, 33u8, 45u8, 45u8, 83u8, 80u8, 76u8, 73u8, 84u8, 95u8, 80u8, 79u8, 73u8, 78u8, 84u8, 45u8, 45u8, 62u8]
}

/// Whether the marker starts at position `i` of `s`.
pub open spec fn marker_at(s: Seq<u8>, i: int) -> bool {
    0 <= i && i + 18 <= s.len() && s.subrange(i, i + 18) == split_marker()
}

/// Position `j` of block `k`, for blocks of `max` bytes.
pub open spec fn block_pos(k: int, max: int, j: int) -> int {
    k * max + j
}

/// Whether some marker lies wholly inside one of the consecutive `max`-byte
/// blocks of `s`. Splitting such a file never ends: the search finds the
/// marker and then finds it again at the start of what is left, forever.
pub open spec fn marker_in_block(s: Seq<u8>, max: int) -> bool {
    exists|k: int, j: int| 0 <= k && 0 <= j && j + 18 <= max && #[trigger] marker_at(s, block_pos(k, max, j))
}

/// `s` cut into consecutive pieces of `max` bytes (the last one may be shorter).
pub open spec fn spec_blocks(s: Seq<u8>, max: int) -> Seq<Seq<u8>>
    decreases s.len(),
{
    if s.len() == 0 || max <= 0 {
        Seq::empty()
    } else {
        let n = if max < s.len() { max } else { s.len() as int };
        seq![s.take(n)] + spec_blocks(s.skip(n), max)
    }
}

/// The marker as an array.
fn marker_bytes() -> (m: [u8; 18])
    ensures
        m@ == split_marker(),
{
    let m: [u8; 18] = [60u8, 33u8, 45u8, 45u8, 83u8, 80u8, 76u8, 73u8, 84u8, 95u8, 80u8, 79u8, 73u8, 78u8, 84u8, 45u8, 45u8, 62u8];
    assert(m@ =~= split_marker());
    m
}

/// The first position of the marker in `w`, as `array_windows().position` finds it.
pub fn find_marker(w: &[u8]) -> (res: Option<usize>)
    ensures
        match res {
            Some(i) => marker_at(w@, i as int) && forall|j: int| 0 <= j < i ==> !marker_at(w@, j),
            None => forall|j: int| !marker_at(w@, j),
        },
{
    let m = marker_bytes();
    let n = w.len();
    if n < 18 {
        return None;
    }
    let mut i: usize = 0;
    while i <= n - 18
        invariant
            n == w@.len(),
            18 <= n,
            i <= n - 17,
            m@ == split_marker(),
            forall|j: int| 0 <= j < i ==> !marker_at(w@, j),
        decreases n - i,
    {
        let mut k: usize = 0;
        let mut ok = true;
        while k < 18
            invariant
                k <= 18,
                i + 18 <= n,
                n == w@.len(),
                m@ == split_marker(),
                ok ==> forall|t: int| 0 <= t < k ==> w@[i + t] == m@[t],
                !ok ==> !marker_at(w@, i as int),
            decreases 18 - k,
        {
            if w[i + k] != m[k] {
                ok = false;
                assert(w@.subrange(i as int, i + 18)[k as int] == w@[i + k]);
            }
            k = k + 1;
        }
        if ok {
            assert(w@.subrange(i as int, i + 18) =~= split_marker());
            return Some(i);
        }
        i = i + 1;
    }
    None
}

proof fn lemma_block_pos_step(k: int, max: int)
    requires
        max > 0,
    ensures
        block_pos(k + 1, max, 0) == block_pos(k, max, 0) + max,
{
    assert((k + 1) * max == k * max + max) by (nonlinear_arith);
}

proof fn lemma_block_pos_beyond(k: int, kf: int, max: int, j: int)
    requires
        max > 0,
        k >= kf,
        j >= 0,
    ensures
        block_pos(k, max, j) >= block_pos(kf, max, 0),
{
    assert(k * max >= kf * max) by (nonlinear_arith)
        requires k >= kf, max > 0;
}

/// The blocks of `s` from position `pos` on: the first block, then the rest.
proof fn lemma_blocks_step(s: Seq<u8>, pos: int, max: int)
    requires
        0 <= pos < s.len(),
        max > 0,
    ensures
        ({
            let n = if max < s.len() - pos { max } else { s.len() - pos };
            spec_blocks(s.skip(pos), max) == seq![s.subrange(pos, pos + n)] + spec_blocks(s.skip(pos + n), max)
        }),
{
    let n = if max < s.len() - pos { max } else { s.len() - pos };
    assert(s.skip(pos).take(n) =~= s.subrange(pos, pos + n));
    assert(s.skip(pos).skip(n) =~= s.skip(pos + n));
}

/// Whether splitting `file` into blocks of `max` bytes would never end
/// (see [`marker_in_block`]).
pub fn split_never_ends(file: &[u8], max: usize) -> (b: bool)
    requires
        max > 0,
    ensures
        b == marker_in_block(file@, max as int),
{
    let len = file.len();
    let mut pos: usize = 0;
    let ghost mut k: int = 0;
    while pos < len
        invariant
            pos <= len,
            len == file@.len(),
            max > 0,
            0 <= k,
            pos < len ==> pos == block_pos(k, max as int, 0),
            pos <= block_pos(k, max as int, 0),
            forall|kk: int, j: int| 0 <= kk < k && 0 <= j && j + 18 <= max
                ==> !#[trigger] marker_at(file@, block_pos(kk, max as int, j)),
        decreases len - pos,
    {
        let n = if max < len - pos { max } else { len - pos };
        let w = vstd::slice::slice_subrange(file, pos, pos + n);
        match find_marker(w) {
            Some(j) => {
                proof {
                    assert(w@.subrange(j as int, j + 18) =~= file@.subrange(pos + j, pos + j + 18));
                    assert(block_pos(k, max as int, j as int) == pos + j);
                    assert(marker_at(file@, block_pos(k, max as int, j as int)));
                }
                return true;
            },
            None => {
                proof {
                    assert forall|j: int| 0 <= j && j + 18 <= max implies !#[trigger] marker_at(file@, block_pos(k, max as int, j)) by {
                        if marker_at(file@, block_pos(k, max as int, j)) {
                            assert(block_pos(k, max as int, j) == pos + j);
                            if j + 18 <= n {
                                assert(w@.subrange(j, j + 18) =~= file@.subrange(pos + j, pos + j + 18));
                                assert(marker_at(w@, j));
                            }
                        }
                    }
                    lemma_block_pos_step(k, max as int);
                }
                pos = pos + n;
                proof {
                    k = k + 1;
                }
            },
        }
    }
    proof {
        assert forall|kk: int, j: int| 0 <= kk && 0 <= j && j + 18 <= max
            implies !#[trigger] marker_at(file@, block_pos(kk, max as int, j)) by {
            if kk >= k {
                lemma_block_pos_beyond(kk, k, max as int, j);
            }
        }
    }
    false
}

/// Cuts an uploaded file into the pieces that become its data points: blocks of
/// `max` bytes, as the upload route forms them.
///
/// The route first looks for a `<!--SPLIT_POINT-->` marker in each block; when
/// one is found the cutting never ends (see [`marker_in_block`]), so such files
/// are left out here.
pub fn split_upload(file: &[u8], max: usize) -> (pieces: Vec<Vec<u8>>)
    requires
        max > 0,
        !marker_in_block(file@, max as int),
    ensures
        pieces@.map_values(|p: Vec<u8>| p@) == spec_blocks(file@, max as int),
{
    let len = file.len();
    let mut pos: usize = 0;
    let ghost mut k: int = 0;
    let mut out: Vec<Vec<u8>> = Vec::new();
    assert(file@.skip(0) =~= file@);
    while pos < len
        invariant
            pos <= len,
            len == file@.len(),
            max > 0,
            0 <= k,
            pos < len ==> pos == block_pos(k, max as int, 0),
            pos <= block_pos(k, max as int, 0),
            !marker_in_block(file@, max as int),
            spec_blocks(file@, max as int) == out@.map_values(|p: Vec<u8>| p@) + spec_blocks(file@.skip(pos as int), max as int),
        decreases len - pos,
    {
        let n = if max < len - pos { max } else { len - pos };
        let w = vstd::slice::slice_subrange(file, pos, pos + n);
        proof {
            lemma_blocks_step(file@, pos as int, max as int);
        }
        match find_marker(w) {
            Some(j) => {
                proof {
                    assert(w@.subrange(j as int, j + 18) =~= file@.subrange(pos + j, pos + j + 18));
                    assert(block_pos(k, max as int, j as int) == pos + j);
                    assert(marker_at(file@, block_pos(k, max as int, j as int)));
                    assert(false);
                }
                let head = crate::path::copy_bytes(vstd::slice::slice_subrange(file, pos, pos + j));
                out.push(head);
                pos = pos + j;
            },
            None => {
                let piece = crate::path::copy_bytes(w);
                let ghost before = out@.map_values(|p: Vec<u8>| p@);
                out.push(piece);
                assert(out@.map_values(|p: Vec<u8>| p@) =~= before.push(w@));
                assert(before + spec_blocks(file@.skip(pos as int), max as int)
                    =~= before.push(w@) + spec_blocks(file@.skip(pos + n), max as int));
                proof {
                    lemma_block_pos_step(k, max as int);
                }
                pos = pos + n;
                proof {
                    k = k + 1;
                }
            },
        }
    }
    assert(file@.skip(len as int) =~= Seq::<u8>::empty());
    assert(out@.map_values(|p: Vec<u8>| p@) + Seq::<Seq<u8>>::empty() =~= out@.map_values(|p: Vec<u8>| p@));
    out
}

// ---------------------------------------------------------------------------
// Laws

/// The pieces, joined again, give back the file.
pub proof fn law_blocks_join_to_file(s: Seq<u8>, max: int)
    requires
        max > 0,
    ensures
        spec_blocks(s, max).flatten() == s,
    decreases s.len(),
{
    if s.len() > 0 {
        let n = if max < s.len() { max } else { s.len() as int };
        law_blocks_join_to_file(s.skip(n), max);
        let rest = spec_blocks(s.skip(n), max);
        assert((seq![s.take(n)] + rest).flatten() =~= s.take(n) + rest.flatten()) by {
            lemma_flatten_cons(s.take(n), rest);
        }
        assert(s.take(n) + s.skip(n) =~= s);
    }
}

proof fn lemma_flatten_cons(a: Seq<u8>, rest: Seq<Seq<u8>>)
    ensures
        (seq![a] + rest).flatten() == a + rest.flatten(),
{
    let x = seq![a] + rest;
    assert(x.drop_first() =~= rest);
    assert(x.first() == a);
}

/// Every piece holds at least one byte and at most `max` bytes.
pub proof fn law_blocks_sized(s: Seq<u8>, max: int)
    requires
        max > 0,
    ensures
        forall|i: int| 0 <= i < spec_blocks(s, max).len()
            ==> 0 < #[trigger] spec_blocks(s, max)[i].len() <= max,
    decreases s.len(),
{
    if s.len() > 0 {
        let n = if max < s.len() { max } else { s.len() as int };
        law_blocks_sized(s.skip(n), max);
        let rest = spec_blocks(s.skip(n), max);
        assert forall|i: int| 0 <= i < spec_blocks(s, max).len()
            implies 0 < #[trigger] spec_blocks(s, max)[i].len() <= max by {
            if i > 0 {
                assert(spec_blocks(s, max)[i] == rest[i - 1]);
            }
        }
    }
}

/// Joining parts that were all found gives their concatenation.
proof fn lemma_join_found(xs: Seq<Seq<u8>>)
    ensures
        spec_join_parts(xs.map_values(|b: Seq<u8>| Some(b))) == Some(xs.flatten()),
    decreases xs.len(),
{
    if xs.len() > 0 {
        let prev = xs.drop_last();
        lemma_join_found(prev);
        let m = xs.map_values(|b: Seq<u8>| Some(b));
        assert(m.drop_last() =~= prev.map_values(|b: Seq<u8>| Some(b)));
        assert(prev.push(xs.last()) =~= xs);
        prev.lemma_flatten_push(xs.last());
    }
}

/// What an upload stores is what a page view gives back: the data points cut
/// from a file, fetched in order and joined, are the file again.
pub proof fn law_upload_then_read(file: Seq<u8>, max: int)
    requires
        max > 0,
    ensures
        spec_join_parts(spec_blocks(file, max).map_values(|b: Seq<u8>| Some(b))) == Some(file),
{
    lemma_join_found(spec_blocks(file, max));
    law_blocks_join_to_file(file, max);
}

// ---------------------------------------------------------------------------
// Which uploads are accepted

/// Whether an upload to a path whose last component is `last` is accepted:
/// a `.html` page must be UTF-8 and carry the required HTML prefix.
pub open spec fn spec_upload_accepted(last: Seq<u8>, file: Seq<u8>) -> bool {
    crate::path::ends_with(last, crate::path::dot_html()) ==> (
        vstd::utf8::valid_utf8(file)
        && spec_insert_html_header(vstd::utf8::decode_utf8(file), Seq::empty()) is Ok
    )
}

/// Whether an upload to a path whose last component is `last` is accepted:
/// a `.html` page must be UTF-8 and carry the required HTML prefix.
pub fn upload_accepted(last: &[u8], file: &[u8]) -> (b: bool)
    ensures
        b == spec_upload_accepted(last@, file@),
{
    let suffix: [u8; 5] = [46u8, 104u8, 116u8, 109u8, 108u8];
    assert(suffix@ =~= crate::path::dot_html());
    if !bytes_end_with(last, suffix.as_slice()) {
        return true;
    }
    match utf8_str(file) {
        None => false,
        Some(text) => {
            let empty = "";
            proof {
                reveal_strlit("");
            }
            insert_html_header(text, empty).is_ok()
        },
    }
}

} // verus!
