//! What the upload and vouch routes check of the points they are given.
use vstd::prelude::*;

use crate::hash::B64b32;
use crate::path::{bytes_equal, comps_view, same_comps, AnyIPath, LkPath};
use crate::read::Link;
use crate::text::utf8_str;

verus! {

/// The kind of a point.
#[derive(Debug, Copy, Clone, PartialEq, Eq, Structural)]
pub enum PointKind {
    /// Holds data only.
    Data,
    /// Holds a group, a domain, a path and links.
    Link,
    /// A link point signed with a key.
    Key,
}

/// What the routes read of a point.
pub struct PktInfo {
    pub kind: PointKind,
    pub hash: B64b32,
    pub group: Option<B64b32>,
    pub domain: Option<[u8; 16]>,
    pub path: Option<Vec<Vec<u8>>>,
    pub links: Option<Vec<Link>>,
    pub pubkey: Option<B64b32>,
    pub data: Vec<u8>,
}

/// The mathematical value of a [`PktInfo`].
pub struct PktV {
    pub kind: PointKind,
    pub hash: Seq<u8>,
    pub group: Option<Seq<u8>>,
    pub domain: Option<Seq<u8>>,
    pub path: Option<Seq<Seq<u8>>>,
    pub links: Option<Seq<(Seq<u8>, Seq<u8>)>>,
    pub pubkey: Option<Seq<u8>>,
    pub data: Seq<u8>,
}

/// The links as tags and hashes.
pub open spec fn links_view(l: Seq<Link>) -> Seq<(Seq<u8>, Seq<u8>)> {
    l.map_values(|x: Link| (x.tag@, x.ptr.0@))
}

impl View for PktInfo {
    type V = PktV;

    open spec fn view(&self) -> PktV {
        PktV {
            kind: self.kind,
            hash: self.hash.0@,
            group: match self.group {
                Some(g) => Some(g.0@),
                None => None,
            },
            domain: match self.domain {
                Some(d) => Some(d@),
                None => None,
            },
            path: match self.path {
                Some(p) => Some(comps_view(p@)),
                None => None,
            },
            links: match self.links {
                Some(l) => Some(links_view(l@)),
                None => None,
            },
            pubkey: match self.pubkey {
                Some(k) => Some(k.0@),
                None => None,
            },
            data: self.data@,
        }
    }
}

/// The points as values.
pub open spec fn pkts_view(p: Seq<PktInfo>) -> Seq<PktV> {
    p.map_values(|x: PktInfo| x@)
}

/// The path of a point; the empty path for a point without one.
pub open spec fn ipath_of(p: PktV) -> Seq<Seq<u8>> {
    match p.path {
        Some(x) => x,
        None => Seq::empty(),
    }
}

/// Why an upload or a vouch was refused (400 Bad Request).
#[derive(Debug, Copy, Clone, PartialEq, Eq, Structural)]
pub enum Refusal {
    NotOnlyData,
    NoPath,
    WrongPath,
    EmptyLinkpoint,
    NotOnePacket,
    NotAKeypoint,
    DoesNotMatch,
}

impl Refusal {
    /// The message a refused client receives.
    pub fn message(&self) -> (s: &'static str)
        ensures
            s@ == match self {
                Refusal::NotOnlyData => "currently only a list of datapoints is accepted"@,
                Refusal::NoPath => "first packet has no path"@,
                Refusal::WrongPath => "using wrong path"@,
                Refusal::EmptyLinkpoint => "a empty linkpoint is not accepted"@,
                Refusal::NotOnePacket => "expected 1 packet"@,
                Refusal::NotAKeypoint => "vouching is done with a keypoint"@,
                Refusal::DoesNotMatch => "your packet does not match the original"@,
            },
    {
        match self {
            Refusal::NotOnlyData => "currently only a list of datapoints is accepted",
            Refusal::NoPath => "first packet has no path",
            Refusal::WrongPath => "using wrong path",
            Refusal::EmptyLinkpoint => "a empty linkpoint is not accepted",
            Refusal::NotOnePacket => "expected 1 packet",
            Refusal::NotAKeypoint => "vouching is done with a keypoint",
            Refusal::DoesNotMatch => "your packet does not match the original",
        }
    }
}

/// Where accepted uploaded points go next (after they are written to quarantine).
#[derive(Debug, Copy, Clone, PartialEq, Eq)]
pub enum PktsNext {
    /// Unsigned: the uploader is sent to vouch for the point with this hash.
    Quarantine(B64b32),
    /// Signed: the vouch script decides on the point with this hash.
    Vouch(B64b32),
}

/// Why uploaded points were not accepted.
#[derive(Debug, Copy, Clone, PartialEq, Eq)]
pub enum PktsError {
    /// No point was sent (an error, 500).
    MissingPkts,
    /// Refused (400).
    Refused(Refusal),
}

/// What becomes of an upload of points to `ipath`: the first must be a link
/// point under that path, the rest data points; an unsigned link point needs data.
pub open spec fn spec_check_pkts_upload(pkts: Seq<PktV>, ipath: Seq<Seq<u8>>) -> Result<(bool, Seq<u8>), PktsError> {
    if pkts.len() == 0 {
        Err(PktsError::MissingPkts)
    } else if exists|i: int| 1 <= i < pkts.len() && #[trigger] pkts[i].kind != PointKind::Data {
        Err(PktsError::Refused(Refusal::NotOnlyData))
    } else if pkts[0].path is None {
        Err(PktsError::Refused(Refusal::NoPath))
    } else if pkts[0].path->Some_0 != ipath {
        Err(PktsError::Refused(Refusal::WrongPath))
    } else if pkts[0].pubkey is None && pkts.len() < 2 {
        Err(PktsError::Refused(Refusal::EmptyLinkpoint))
    } else {
        // (signed, hash of the first point)
        Ok((pkts[0].pubkey is Some, pkts[0].hash))
    }
}

/// Checks an upload of points to `ipath`.
pub fn check_pkts_upload(pkts: &Vec<PktInfo>, ipath: &AnyIPath) -> (res: Result<PktsNext, PktsError>)
    ensures
        match spec_check_pkts_upload(pkts_view(pkts@), ipath@) {
            Ok((signed, h)) => res matches Ok(n) && match n {
                PktsNext::Quarantine(x) => !signed && x.0@ == h,
                PktsNext::Vouch(x) => signed && x.0@ == h,
            },
            Err(e) => res == Err::<PktsNext, PktsError>(e),
        },
        res matches Ok(PktsNext::Vouch(x)) ==> pkts@[0].pubkey is Some && x.0@ == pkts@[0].hash.0@,
        res matches Ok(PktsNext::Quarantine(x)) ==> pkts@[0].pubkey is None && x.0@ == pkts@[0].hash.0@,
{
    let ghost pv = pkts_view(pkts@);
    if pkts.len() == 0 {
        return Err(PktsError::MissingPkts);
    }
    let mut i: usize = 1;
    while i < pkts.len()
        invariant
            1 <= i <= pkts@.len(),
            pv == pkts_view(pkts@),
            forall|j: int| 1 <= j < i ==> #[trigger] pv[j].kind == PointKind::Data,
        decreases pkts@.len() - i,
    {
        if pkts[i].kind != PointKind::Data {
            assert(pv[i as int].kind != PointKind::Data);
            return Err(PktsError::Refused(Refusal::NotOnlyData));
        }
        i = i + 1;
    }
    assert(!exists|j: int| 1 <= j < pv.len() && #[trigger] pv[j].kind != PointKind::Data);
    let head = &pkts[0];
    assert(pv[0] == head@);
    match &head.path {
        None => Err(PktsError::Refused(Refusal::NoPath)),
        Some(p) => {
            if !same_comps(p, &ipath.0) {
                return Err(PktsError::Refused(Refusal::WrongPath));
            }
            match head.pubkey {
                None => {
                    if pkts.len() < 2 {
                        Err(PktsError::Refused(Refusal::EmptyLinkpoint))
                    } else {
                        Ok(PktsNext::Quarantine(head.hash))
                    }
                },
                Some(_) => Ok(PktsNext::Vouch(head.hash)),
            }
        },
    }
}

/// An upload that is accepted goes to the vouch script exactly when its first
/// point is signed, and to quarantine exactly when it is not, whatever the
/// number of data points; either way it names the first point's hash. An
/// upload is accepted when it is a link point under the request path followed
/// only by data points, signed or followed by at least one data point.
pub proof fn law_signed_upload_goes_to_vouch(pkts: Seq<PktV>, ipath: Seq<Seq<u8>>)
    ensures
        spec_check_pkts_upload(pkts, ipath) matches Ok((signed, h)) ==>
            signed == (pkts[0].pubkey is Some) && h == pkts[0].hash,
        ({
            &&& pkts.len() > 0
            &&& pkts[0].path == Some(ipath)
            &&& forall|i: int| 1 <= i < pkts.len() ==> #[trigger] pkts[i].kind == PointKind::Data
        }) ==> {
            &&& pkts[0].pubkey is Some ==> spec_check_pkts_upload(pkts, ipath)
                == Ok::<(bool, Seq<u8>), PktsError>((true, pkts[0].hash))
            &&& pkts[0].pubkey is None && pkts.len() >= 2 ==> spec_check_pkts_upload(pkts, ipath)
                == Ok::<(bool, Seq<u8>), PktsError>((false, pkts[0].hash))
            &&& pkts[0].pubkey is None && pkts.len() < 2 ==> spec_check_pkts_upload(pkts, ipath)
                == Err::<(bool, Seq<u8>), PktsError>(PktsError::Refused(Refusal::EmptyLinkpoint))
        },
{
}

/// A vouch is accepted only for a key point with the same group, domain, path
/// and links as the quarantined link point; when any of them differs, and in
/// particular when the paths differ, it is refused.
pub proof fn law_vouch_needs_same_point(a: PktV, b: PktV)
    ensures
        spec_same_content(a, b) ==> a.group == b.group && a.domain == b.domain
            && ipath_of(a) == ipath_of(b) && a.path == b.path && a.links == b.links,
        a.path != b.path ==> !spec_same_content(a, b),
        a.group == b.group && a.domain == b.domain && a.path == b.path && a.links == b.links
            ==> spec_same_content(a, b),
{
}

/// Checks the points sent to vouch for a quarantined upload: exactly one key point.
pub fn check_vouch_request(pkts: &Vec<PktInfo>) -> (res: Result<(), Refusal>)
    ensures
        pkts@.len() != 1 ==> res == Err::<(), Refusal>(Refusal::NotOnePacket),
        pkts@.len() == 1 && pkts@[0].kind != PointKind::Key ==> res == Err::<(), Refusal>(Refusal::NotAKeypoint),
        pkts@.len() == 1 && pkts@[0].kind == PointKind::Key ==> res is Ok,
{
    if pkts.len() != 1 {
        return Err(Refusal::NotOnePacket);
    }
    if pkts[0].kind != PointKind::Key {
        return Err(Refusal::NotAKeypoint);
    }
    Ok(())
}

/// Whether the key point signs the same content as the quarantined link point:
/// same group, domain, path and links.
pub open spec fn spec_same_content(a: PktV, b: PktV) -> bool {
    a.group == b.group && a.domain == b.domain && a.path == b.path && a.links == b.links
}

fn same_opt_hash(a: &Option<B64b32>, b: &Option<B64b32>) -> (r: bool)
    ensures
        r == (match a {
            Some(x) => Some(x.0@),
            None => None::<Seq<u8>>,
        } == match b {
            Some(x) => Some(x.0@),
            None => None::<Seq<u8>>,
        }),
{
    match (a, b) {
        (None, None) => true,
        (Some(x), Some(y)) => x.same(y),
        _ => false,
    }
}

fn same_opt_domain(a: &Option<[u8; 16]>, b: &Option<[u8; 16]>) -> (r: bool)
    ensures
        r == (match a {
            Some(x) => Some(x@),
            None => None::<Seq<u8>>,
        } == match b {
            Some(x) => Some(x@),
            None => None::<Seq<u8>>,
        }),
{
    match (a, b) {
        (None, None) => true,
        (Some(x), Some(y)) => bytes_equal(x.as_slice(), y.as_slice()),
        _ => false,
    }
}

fn same_opt_path(a: &Option<Vec<Vec<u8>>>, b: &Option<Vec<Vec<u8>>>) -> (r: bool)
    ensures
        r == (match a {
            Some(x) => Some(comps_view(x@)),
            None => None::<Seq<Seq<u8>>>,
        } == match b {
            Some(x) => Some(comps_view(x@)),
            None => None::<Seq<Seq<u8>>>,
        }),
{
    match (a, b) {
        (None, None) => true,
        (Some(x), Some(y)) => same_comps(x, y),
        _ => false,
    }
}

fn same_links(a: &Vec<Link>, b: &Vec<Link>) -> (r: bool)
    ensures
        r == (links_view(a@) == links_view(b@)),
{
    if a.len() != b.len() {
        assert(links_view(a@).len() != links_view(b@).len());
        return false;
    }
    let mut i: usize = 0;
    while i < a.len()
        invariant
            i <= a@.len(),
            a@.len() == b@.len(),
            forall|j: int| 0 <= j < i ==> #[trigger] links_view(a@)[j] == links_view(b@)[j],
        decreases a@.len() - i,
    {
        let t = bytes_equal(a[i].tag.as_slice(), b[i].tag.as_slice());
        let p = a[i].ptr.same(&b[i].ptr);
        if !t || !p {
            assert(links_view(a@)[i as int] != links_view(b@)[i as int]);
            return false;
        }
        i = i + 1;
    }
    assert(links_view(a@) =~= links_view(b@));
    true
}

fn same_opt_links(a: &Option<Vec<Link>>, b: &Option<Vec<Link>>) -> (r: bool)
    ensures
        r == (match a {
            Some(x) => Some(links_view(x@)),
            None => None::<Seq<(Seq<u8>, Seq<u8>)>>,
        } == match b {
            Some(x) => Some(links_view(x@)),
            None => None::<Seq<(Seq<u8>, Seq<u8>)>>,
        }),
{
    match (a, b) {
        (None, None) => true,
        (Some(x), Some(y)) => same_links(x, y),
        _ => false,
    }
}

/// Checks that the key point signs the same content as the quarantined link point.
pub fn check_vouch_match(linkpoint: &PktInfo, keypoint: &PktInfo) -> (res: Result<(), Refusal>)
    ensures
        spec_same_content(linkpoint@, keypoint@) ==> res is Ok,
        res is Ok <==> (linkpoint@.group == keypoint@.group && linkpoint@.domain == keypoint@.domain
            && linkpoint@.path == keypoint@.path && linkpoint@.links == keypoint@.links),
        !spec_same_content(linkpoint@, keypoint@) ==> res == Err::<(), Refusal>(Refusal::DoesNotMatch),
{
    if !same_opt_hash(&linkpoint.group, &keypoint.group)
        || !same_opt_domain(&linkpoint.domain, &keypoint.domain)
        || !same_opt_path(&linkpoint.path, &keypoint.path)
        || !same_opt_links(&linkpoint.links, &keypoint.links)
    {
        return Err(Refusal::DoesNotMatch);
    }
    Ok(())
}

// ---------------------------------------------------------------------------
// Previewing a quarantined upload

/// The data of the points, joined in order.
pub open spec fn spec_join_data(p: Seq<PktV>) -> Seq<u8>
    decreases p.len(),
{
    if p.len() == 0 {
        Seq::empty()
    } else {
        spec_join_data(p.drop_last()) + p.last().data
    }
}

/// Why a preview failed (an error, 500).
#[derive(Debug, Copy, Clone, PartialEq, Eq, Structural)]
pub enum PreviewError {
    /// The quarantine file holds no point.
    Empty,
    /// The uploaded data is not UTF-8.
    NotUtf8,
}

/// What a preview of quarantined points answers, for the request path
/// `ipath`: the first point must stand under it; the page is the data of the
/// other points, shown only when `unsafe` was asked for.
pub open spec fn spec_preview(pkts: Seq<PktV>, ipath: Seq<Seq<u8>>, unsafe_ok: bool) -> Result<(u16, Seq<char>), PreviewError> {
    if pkts.len() == 0 {
        Err(PreviewError::Empty)
    } else if ipath_of(pkts[0]) != ipath {
        Ok((400, "path does not match the packet"@))
    } else {
        let bytes = spec_join_data(pkts.drop_first());
        if !vstd::utf8::valid_utf8(bytes) {
            Err(PreviewError::NotUtf8)
        } else if unsafe_ok {
            Ok((200, vstd::utf8::decode_utf8(bytes)))
        } else {
            Ok((400, "this instance requires you add &unsafe to the query"@))
        }
    }
}

/// Previews quarantined points at `ipath` (status and page).
pub fn preview<EXT>(pkts: &Vec<PktInfo>, ipath: &LkPath<EXT>, unsafe_flag: Option<bool>) -> (res: Result<(u16, String), PreviewError>)
    ensures
        match spec_preview(pkts_view(pkts@), ipath@, unsafe_flag == Some(true)) {
            Ok((st, page)) => res matches Ok((s, p)) && s == st && p@ == page,
            Err(e) => res == Err::<(u16, String), PreviewError>(e),
        },
{
    let ghost pv = pkts_view(pkts@);
    if pkts.len() == 0 {
        return Err(PreviewError::Empty);
    }
    let empty: Vec<Vec<u8>> = Vec::new();
    let first_path: &Vec<Vec<u8>> = match &pkts[0].path {
        Some(p) => p,
        None => &empty,
    };
    assert(comps_view(empty@) =~= Seq::<Seq<u8>>::empty());
    assert(pv[0] == pkts@[0]@);
    if !same_comps(first_path, &ipath.0) {
        return Ok((400, String::from_str("path does not match the packet")));
    }
    let mut bytes: Vec<u8> = Vec::new();
    let mut i: usize = 1;
    assert(pv.drop_first().subrange(0, 0) =~= Seq::<PktV>::empty());
    while i < pkts.len()
        invariant
            1 <= i <= pkts@.len(),
            pv == pkts_view(pkts@),
            bytes@ == spec_join_data(pv.drop_first().subrange(0, i - 1)),
        decreases pkts@.len() - i,
    {
        let ghost sub = pv.drop_first().subrange(0, i as int);
        assert(sub.drop_last() =~= pv.drop_first().subrange(0, i - 1));
        assert(sub.last() == pkts@[i as int]@);
        let d = &pkts[i].data;
        let ghost before = bytes@;
        let mut j: usize = 0;
        while j < d.len()
            invariant
                j <= d@.len(),
                bytes@ == before + d@.subrange(0, j as int),
            decreases d@.len() - j,
        {
            bytes.push(d[j]);
            j = j + 1;
            assert(bytes@ =~= before + d@.subrange(0, j as int));
        }
        assert(d@.subrange(0, d@.len() as int) =~= d@);
        i = i + 1;
    }
    assert(pv.drop_first().subrange(0, pkts@.len() - 1) =~= pv.drop_first());
    match utf8_str(bytes.as_slice()) {
        None => Err(PreviewError::NotUtf8),
        Some(text) => {
            if unsafe_flag == Some(true) {
                Ok((200, String::from_str(text)))
            } else {
                Ok((400, String::from_str("this instance requires you add &unsafe to the query")))
            }
        },
    }
}

} // verus!
