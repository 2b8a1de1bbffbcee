//! Choosing the point a page request is answered with, and gathering its data.
use vstd::prelude::*;

use crate::hash::B64b32;
use crate::path::{comps_view, same_comps, AnyIPath};

verus! {

/// A point that matches a request, as far as choosing the latest one needs:
/// its create stamp and its hash.
#[derive(Debug, Copy, Clone)]
pub struct Candidate {
    pub stamp: u64,
    pub hash: B64b32,
}

/// The stamp and hash of a candidate.
pub open spec fn cand_view(c: Candidate) -> (u64, Seq<u8>) {
    (c.stamp, c.hash.0@)
}

/// The candidates as stamps and hashes.
pub open spec fn cands_view(c: Seq<Candidate>) -> Seq<(u64, Seq<u8>)> {
    c.map_values(|x: Candidate| cand_view(x))
}

/// The latest of the candidates: `None` when there are none; otherwise,
/// walking them in order, a candidate replaces the current choice when its
/// stamp is strictly greater (so the first of equal stamps stays).
pub open spec fn spec_latest(c: Seq<(u64, Seq<u8>)>) -> Option<(u64, Seq<u8>)>
    decreases c.len(),
{
    if c.len() == 0 {
        None
    } else {
        match spec_latest(c.drop_last()) {
            None => Some(c.last()),
            Some(best) => if c.last().0 > best.0 {
                Some(c.last())
            } else {
                Some(best)
            },
        }
    }
}

/// The hash of the latest candidate: `None` exactly when there is no
/// candidate, else the hash of the first candidate with the greatest stamp.
pub fn latest(cands: &Vec<Candidate>) -> (res: Option<B64b32>)
    ensures
        cands@.len() == 0 <==> res is None,
        match spec_latest(cands_view(cands@)) {
            None => res is None,
            Some(best) => res matches Some(h) && h.0@ == best.1,
        },
{
    if cands.len() == 0 {
        return None;
    }
    let mut stamp: u64 = cands[0].stamp;
    let mut hash = cands[0].hash;
    let mut i: usize = 1;
    proof {
        let s1 = cands_view(cands@).subrange(0, 1);
        assert(s1.drop_last() =~= Seq::<(u64, Seq<u8>)>::empty());
        assert(s1.last() == cand_view(cands@[0]));
        assert(spec_latest(s1.drop_last()) is None);
        assert(spec_latest(s1) == Some(cand_view(cands@[0])));
    }
    while i < cands.len()
        invariant
            1 <= i <= cands@.len(),
            spec_latest(cands_view(cands@).subrange(0, i as int)) == Some((stamp, hash.0@)),
        decreases cands@.len() - i,
    {
        let ghost sub = cands_view(cands@).subrange(0, i as int + 1);
        assert(sub.drop_last() =~= cands_view(cands@).subrange(0, i as int));
        assert(sub.last() == cand_view(cands@[i as int]));
        if cands[i].stamp > stamp {
            stamp = cands[i].stamp;
            hash = cands[i].hash;
        }
        i = i + 1;
    }
    assert(cands_view(cands@).subrange(0, cands@.len() as int) =~= cands_view(cands@));
    Some(hash)
}

/// The latest of a non-empty list of candidates is one of them, no candidate
/// has a later stamp, and no earlier candidate has the same stamp; an empty
/// list has none.
pub proof fn law_latest_is_latest(c: Seq<(u64, Seq<u8>)>)
    ensures
        c.len() == 0 <==> spec_latest(c) is None,
        spec_latest(c) matches Some(best) ==> {
            &&& forall|j: int| 0 <= j < c.len() ==> #[trigger] c[j].0 <= best.0
            &&& exists|i: int| 0 <= i < c.len() && c[i] == best
                && forall|j: int| 0 <= j < i ==> #[trigger] c[j].0 < best.0
        },
    decreases c.len(),
{
    if c.len() > 0 {
        let prev = c.drop_last();
        law_latest_is_latest(prev);
        let best = spec_latest(c)->0;
        match spec_latest(prev) {
            None => {
                assert(prev.len() == 0);
                let i = 0int;
                assert(c[i] == best);
            },
            Some(b) => {
                assert forall|j: int| 0 <= j < c.len() implies #[trigger] c[j].0 <= best.0 by {
                    if j < c.len() - 1 {
                        assert(c[j] == prev[j]);
                    }
                }
                if c.last().0 > b.0 {
                    let i = c.len() - 1;
                    assert forall|j: int| 0 <= j < i implies #[trigger] c[j].0 < best.0 by {
                        assert(c[j] == prev[j]);
                    }
                    assert(c[i] == best);
                } else {
                    let i = choose|i: int| 0 <= i < prev.len() && prev[i] == b
                        && forall|j: int| 0 <= j < i ==> #[trigger] prev[j].0 < b.0;
                    assert(c[i] == prev[i]);
                    assert forall|j: int| 0 <= j < i implies #[trigger] c[j].0 < b.0 by {
                        assert(c[j] == prev[j]);
                    }
                }
            },
        }
    }
}

/// What became of a point asked for by its hash.
#[derive(Debug, Copy, Clone, PartialEq, Eq, Structural)]
pub enum AskedOutcome {
    /// No point has that hash.
    Missing,
    /// The point stands under another path: redirect there.
    Elsewhere,
    /// The point stands under the request path: serve it.
    Serve,
}

/// What to do with the point a request asked for by hash: `found` is its
/// path, or `None` when no point has that hash.
pub fn asked_outcome(found: Option<&Vec<Vec<u8>>>, req_path: &AnyIPath) -> (res: AskedOutcome)
    ensures
        found is None ==> res == AskedOutcome::Missing,
        found matches Some(p) ==> (comps_view(p@) == req_path@ ==> res == AskedOutcome::Serve),
        found matches Some(p) ==> (comps_view(p@) != req_path@ ==> res == AskedOutcome::Elsewhere),
{
    match found {
        None => AskedOutcome::Missing,
        Some(p) => {
            if same_comps(p, &req_path.0) {
                AskedOutcome::Serve
            } else {
                AskedOutcome::Elsewhere
            }
        },
    }
}

// ---------------------------------------------------------------------------
// Gathering the data of a point

/// A link of a point: a 16-byte tag and the hash it points to.
#[derive(Debug, Copy, Clone)]
pub struct Link {
    pub tag: [u8; 16],
    pub ptr: B64b32,
}

/// The hashes of the links whose tag is `tag`, in order.
pub open spec fn spec_tagged(links: Seq<Link>, tag: Seq<u8>) -> Seq<Seq<u8>>
    decreases links.len(),
{
    if links.len() == 0 {
        Seq::empty()
    } else {
        let rest = spec_tagged(links.drop_last(), tag);
        if links.last().tag@ == tag {
            rest.push(links.last().ptr.0@)
        } else {
            rest
        }
    }
}

/// Whether two tags are equal.
fn tag_eq(a: &[u8; 16], b: &[u8; 16]) -> (r: bool)
    ensures
        r == (a@ == b@),
{
    let mut i: usize = 0;
    while i < 16
        invariant
            i <= 16,
            forall|j: int| 0 <= j < i ==> a@[j] == b@[j],
        decreases 16 - i,
    {
        if a[i] != b[i] {
            return false;
        }
        i = i + 1;
    }
    assert(a@ =~= b@);
    true
}

/// The hashes of the links whose tag is `tag` (for page data, the `data` tag), in order.
pub fn tagged_links(links: &Vec<Link>, tag: &[u8; 16]) -> (res: Vec<B64b32>)
    ensures
        res@.map_values(|h: B64b32| h.0@) == spec_tagged(links@, tag@),
{
    let mut out: Vec<B64b32> = Vec::new();
    let mut i: usize = 0;
    assert(links@.subrange(0, 0) =~= Seq::<Link>::empty());
    while i < links.len()
        invariant
            i <= links@.len(),
            out@.map_values(|h: B64b32| h.0@) == spec_tagged(links@.subrange(0, i as int), tag@),
        decreases links@.len() - i,
    {
        let ghost sub = links@.subrange(0, i as int + 1);
        assert(sub.drop_last() =~= links@.subrange(0, i as int));
        let ghost before = out@.map_values(|h: B64b32| h.0@);
        if tag_eq(&links[i].tag, tag) {
            out.push(links[i].ptr);
            assert(out@.map_values(|h: B64b32| h.0@) =~= before.push(links@[i as int].ptr.0@));
        }
        i = i + 1;
    }
    assert(links@.subrange(0, links@.len() as int) =~= links@);
    out
}

/// The data of a page is missing one of its data points.
#[derive(Debug, Copy, Clone, PartialEq, Eq)]
pub struct MissingData;

/// The data of the parts joined, in order; `None` when a part is missing.
pub open spec fn spec_join_parts(parts: Seq<Option<Seq<u8>>>) -> Option<Seq<u8>>
    decreases parts.len(),
{
    if parts.len() == 0 {
        Some(Seq::empty())
    } else {
        match (spec_join_parts(parts.drop_last()), parts.last()) {
            (Some(a), Some(b)) => Some(a + b),
            _ => None,
        }
    }
}

/// The values of the fetched parts.
pub open spec fn parts_view(parts: Seq<Option<Vec<u8>>>) -> Seq<Option<Seq<u8>>> {
    parts.map_values(|p: Option<Vec<u8>>| match p {
        Some(v) => Some(v@),
        None => None,
    })
}

/// Joins the data of the data points of a page, in order; refuses when one
/// of them was not found.
pub fn join_parts(parts: &Vec<Option<Vec<u8>>>) -> (res: Result<Vec<u8>, MissingData>)
    ensures
        match spec_join_parts(parts_view(parts@)) {
            Some(d) => res matches Ok(v) && v@ == d,
            None => res is Err,
        },
{
    let mut out: Vec<u8> = Vec::new();
    let mut i: usize = 0;
    assert(parts_view(parts@).subrange(0, 0) =~= Seq::<Option<Seq<u8>>>::empty());
    while i < parts.len()
        invariant
            i <= parts@.len(),
            spec_join_parts(parts_view(parts@).subrange(0, i as int)) == Some(out@),
        decreases parts@.len() - i,
    {
        let ghost sub = parts_view(parts@).subrange(0, i as int + 1);
        assert(sub.drop_last() =~= parts_view(parts@).subrange(0, i as int));
        match &parts[i] {
            None => {
                proof {
                    lemma_join_none_extends(parts_view(parts@), i as int + 1);
                    assert(parts_view(parts@).subrange(0, parts@.len() as int) =~= parts_view(parts@));
                }
                return Err(MissingData);
            },
            Some(d) => {
                let ghost before = out@;
                let mut j: usize = 0;
                while j < d.len()
                    invariant
                        j <= d@.len(),
                        out@ == before + d@.subrange(0, j as int),
                    decreases d@.len() - j,
                {
                    out.push(d[j]);
                    j = j + 1;
                    assert(out@ =~= before + d@.subrange(0, j as int));
                }
                assert(d@.subrange(0, d@.len() as int) =~= d@);
            },
        }
        i = i + 1;
    }
    assert(parts_view(parts@).subrange(0, parts@.len() as int) =~= parts_view(parts@));
    Ok(out)
}

proof fn lemma_join_none_extends(p: Seq<Option<Seq<u8>>>, k: int)
    requires
        0 <= k <= p.len(),
        spec_join_parts(p.subrange(0, k)) is None,
    ensures
        spec_join_parts(p) is None,
    decreases p.len() - k,
{
    if k < p.len() {
        let sub = p.subrange(0, k + 1);
        assert(sub.drop_last() =~= p.subrange(0, k));
        lemma_join_none_extends(p, k + 1);
    } else {
        assert(p.subrange(0, k) =~= p);
    }
}

} // verus!
