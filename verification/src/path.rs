//! Request paths: the components of a linkspace path, checked for a file type.
use vstd::prelude::*;

use core::marker::PhantomData;

use crate::text::utf8_str;

verus! {

/// A check on the last path component.
pub trait IsExt {
    /// Whether `segment` is accepted.
    spec fn spec_is_ext(segment: Seq<u8>) -> bool;

    /// Whether `segment` is accepted.
    fn is_ext(segment: &[u8]) -> (b: bool)
        ensures
            b == Self::spec_is_ext(segment@),
    ;
}

/// Accepts components that end in `.html`.
pub struct HtmlExt;

/// The bytes `.html`.
pub open spec fn dot_html() -> Seq<u8> {
    seq![46u8, 104u8, 116u8, 109u8, 108u8]
}

/// Whether `s` ends with `suffix`.
pub open spec fn ends_with(s: Seq<u8>, suffix: Seq<u8>) -> bool {
    suffix.len() <= s.len() && s.subrange(s.len() - suffix.len(), s.len() as int) == suffix
}

/// Whether `s` ends with `suffix`.
pub fn bytes_end_with(s: &[u8], suffix: &[u8]) -> (b: bool)
    ensures
        b == ends_with(s@, suffix@),
{
    let n = s.len();
    let m = suffix.len();
    if m > n {
        return false;
    }
    let mut i: usize = 0;
    while i < m
        invariant
            i <= m,
            m <= n,
            n == s@.len(),
            m == suffix@.len(),
            forall|j: int| 0 <= j < i ==> s@[n - m + j] == suffix@[j],
        decreases m - i,
    {
        if s[n - m + i] != suffix[i] {
            assert(s@.subrange(n - m, n as int)[i as int] == s@[n - m + i]);
            return false;
        }
        i = i + 1;
    }
    assert(s@.subrange(n - m, n as int) =~= suffix@);
    true
}

impl IsExt for HtmlExt {
    open spec fn spec_is_ext(segment: Seq<u8>) -> bool {
        ends_with(segment, dot_html())
    }

    fn is_ext(segment: &[u8]) -> (b: bool) {
        let suffix: [u8; 5] = [46u8, 104u8, 116u8, 109u8, 108u8];
        assert(suffix@ =~= dot_html());
        bytes_end_with(segment, suffix.as_slice())
    }
}

impl IsExt for () {
    open spec fn spec_is_ext(segment: Seq<u8>) -> bool {
        true
    }

    fn is_ext(segment: &[u8]) -> (b: bool) {
        true
    }
}

/// A path of components (as linkspace keeps them) whose last component passed `EXT`.
pub struct LkPath<EXT>(pub Vec<Vec<u8>>, pub PhantomData<EXT>);

/// A path whose last component ends in `.html`.
pub type HtmlIPath = LkPath<HtmlExt>;

/// A path of any file type.
pub type AnyIPath = LkPath<()>;

/// The components of a path.
pub open spec fn comps_view(c: Seq<Vec<u8>>) -> Seq<Seq<u8>> {
    c.map_values(|v: Vec<u8>| v@)
}

impl<EXT> View for LkPath<EXT> {
    type V = Seq<Seq<u8>>;

    open spec fn view(&self) -> Seq<Seq<u8>> {
        comps_view(self.0@)
    }
}

/// The last component of a path; the empty component for the empty path.
pub open spec fn last_comp(p: Seq<Seq<u8>>) -> Seq<u8> {
    if p.len() == 0 {
        Seq::empty()
    } else {
        p.last()
    }
}

/// A path was refused because its last component has the wrong file type.
#[derive(Debug, Copy, Clone, PartialEq, Eq)]
pub struct WrongFiletype;

/// Copies a byte sequence.
pub fn copy_bytes(b: &[u8]) -> (res: Vec<u8>)
    ensures
        res@ == b@,
{
    let mut v: Vec<u8> = Vec::new();
    let mut i: usize = 0;
    while i < b.len()
        invariant
            i <= b@.len(),
            v@ == b@.subrange(0, i as int),
        decreases b@.len() - i,
    {
        v.push(b[i]);
        i = i + 1;
        assert(v@ =~= b@.subrange(0, i as int));
    }
    assert(b@.subrange(0, b@.len() as int) =~= b@);
    v
}

/// Copies the components of a path.
pub fn copy_comps(c: &Vec<Vec<u8>>) -> (res: Vec<Vec<u8>>)
    ensures
        comps_view(res@) == comps_view(c@),
{
    let mut v: Vec<Vec<u8>> = Vec::new();
    let mut i: usize = 0;
    while i < c.len()
        invariant
            i <= c@.len(),
            v@.len() == i,
            forall|j: int| 0 <= j < i ==> #[trigger] v@[j]@ == c@[j]@,
        decreases c@.len() - i,
    {
        let b = copy_bytes(c[i].as_slice());
        v.push(b);
        i = i + 1;
    }
    assert(comps_view(v@) =~= comps_view(c@)) by {
        assert forall|j: int| 0 <= j < v@.len() implies #[trigger] comps_view(v@)[j] == comps_view(c@)[j] by {
            assert(v@[j]@ == c@[j]@);
        }
    }
    v
}

impl<EXT> LkPath<EXT> {
    /// The same path, with any file type.
    pub fn any(self) -> (res: AnyIPath)
        ensures
            res@ == self@,
    {
        LkPath(self.0, PhantomData)
    }

    /// The same path, with file type `B`.
    pub fn cast<B>(self) -> (res: LkPath<B>)
        ensures
            res@ == self@,
    {
        LkPath(self.0, PhantomData)
    }

    /// The number of components.
    pub fn len(&self) -> (n: usize)
        ensures
            n == self@.len(),
    {
        self.0.len()
    }

    /// The last component; empty for the empty path.
    pub fn last(&self) -> (s: &[u8])
        ensures
            s@ == last_comp(self@),
    {
        if self.0.len() == 0 {
            &[]
        } else {
            self.0[self.0.len() - 1].as_slice()
        }
    }

    /// A copy of the path.
    pub fn copy(&self) -> (res: Self)
        ensures
            res@ == self@,
    {
        LkPath(copy_comps(&self.0), PhantomData)
    }
}

impl<EXT: IsExt> LkPath<EXT> {
    /// Accepts the components of a request path (already checked by linkspace as
    /// a valid path) when the last one passes `EXT`.
    pub fn from_components(comps: Vec<Vec<u8>>) -> (res: Result<Self, WrongFiletype>)
        ensures
            EXT::spec_is_ext(last_comp(comps_view(comps@))) ==> (res matches Ok(p) && p@ == comps_view(comps@)),
            !EXT::spec_is_ext(last_comp(comps_view(comps@))) ==> res is Err,
    {
        let p: LkPath<EXT> = LkPath(comps, PhantomData);
        if EXT::is_ext(p.last()) {
            Ok(p)
        } else {
            Err(WrongFiletype)
        }
    }
}

impl LkPath<()> {
    /// A path of any file type with the given components.
    pub fn new(comps: &Vec<Vec<u8>>) -> (res: AnyIPath)
        ensures
            res@ == comps_view(comps@),
    {
        LkPath(copy_comps(comps), PhantomData)
    }
}

/// Whether two paths have the same components.
pub fn same_comps(a: &Vec<Vec<u8>>, b: &Vec<Vec<u8>>) -> (r: bool)
    ensures
        r == (comps_view(a@) == comps_view(b@)),
{
    if a.len() != b.len() {
        assert(comps_view(a@).len() != comps_view(b@).len());
        return false;
    }
    let mut i: usize = 0;
    while i < a.len()
        invariant
            i <= a@.len(),
            a@.len() == b@.len(),
            forall|j: int| 0 <= j < i ==> a@[j]@ == b@[j]@,
        decreases a@.len() - i,
    {
        if !bytes_equal(a[i].as_slice(), b[i].as_slice()) {
            assert(comps_view(a@)[i as int] != comps_view(b@)[i as int]);
            return false;
        }
        i = i + 1;
    }
    assert(comps_view(a@) =~= comps_view(b@));
    true
}

/// Whether two byte sequences are equal.
pub fn bytes_equal(a: &[u8], b: &[u8]) -> (r: bool)
    ensures
        r == (a@ == b@),
{
    if a.len() != b.len() {
        return false;
    }
    let mut i: usize = 0;
    while i < a.len()
        invariant
            i <= a@.len(),
            a@.len() == b@.len(),
            forall|j: int| 0 <= j < i ==> a@[j] == b@[j],
        decreases a@.len() - i,
    {
        if a[i] != b[i] {
            return false;
        }
        i = i + 1;
    }
    assert(a@ =~= b@);
    true
}

// ---------------------------------------------------------------------------
// Writing a path into a URI

/// What the `UriDisplay<Path>` impl of `str` in `rocket` writes for `s`
/// (its percent-encoding).
pub uninterp spec fn uri_path_encoded(s: Seq<char>) -> Seq<char>;

/// Calls `rocket::http::RawStr::percent_encode`, which the `UriDisplay<Path>`
/// impl of `str` writes. Claims only that the result is the named encoding of `s`.
#[verifier::external_body]
fn percent_encode_path(s: &str) -> (res: String)
    ensures
        res@ == uri_path_encoded(s@),
{
    rocket::http::RawStr::new(s).percent_encode().as_str().to_string()
}

/// The path written into a URI: `/` and the percent-encoded text of each
/// component; `None` when a component is not UTF-8.
pub open spec fn spec_uri_display(p: Seq<Seq<u8>>) -> Option<Seq<char>>
    decreases p.len(),
{
    if p.len() == 0 {
        Some(Seq::empty())
    } else {
        match spec_uri_display(p.drop_last()) {
            None => None,
            Some(s) => if vstd::utf8::valid_utf8(p.last()) {
                Some(s + "/"@ + uri_path_encoded(vstd::utf8::decode_utf8(p.last())))
            } else {
                None
            },
        }
    }
}

/// Writes a path into a URI: `/` and the percent-encoded text of each
/// component; `None` when a component is not UTF-8.
pub fn ipath_uri_display(p: &Vec<Vec<u8>>) -> (res: Option<String>)
    ensures
        match spec_uri_display(comps_view(p@)) {
            None => res is None,
            Some(s) => res matches Some(r) && r@ == s,
        },
{
    let mut out = String::new();
    let mut i: usize = 0;
    assert(comps_view(p@).subrange(0, 0) =~= Seq::<Seq<u8>>::empty());
    while i < p.len()
        invariant
            i <= p@.len(),
            spec_uri_display(comps_view(p@).subrange(0, i as int)) == Some(out@),
        decreases p@.len() - i,
    {
        let ghost sub = comps_view(p@).subrange(0, i as int + 1);
        assert(sub.drop_last() =~= comps_view(p@).subrange(0, i as int));
        assert(sub.last() == p@[i as int]@);
        match utf8_str(p[i].as_slice()) {
            None => {
                proof {
                    lemma_uri_display_none_extends(comps_view(p@), i as int + 1);
                    assert(comps_view(p@).subrange(0, p@.len() as int) =~= comps_view(p@));
                }
                return None;
            },
            Some(s) => {
                out.append("/");
                let enc = percent_encode_path(s);
                out.append(enc.as_str());
            },
        }
        i = i + 1;
    }
    assert(comps_view(p@).subrange(0, p@.len() as int) =~= comps_view(p@));
    Some(out)
}

/// Once a prefix of the path cannot be written, the whole path cannot.
proof fn lemma_uri_display_none_extends(p: Seq<Seq<u8>>, k: int)
    requires
        0 <= k <= p.len(),
        spec_uri_display(p.subrange(0, k)) is None,
    ensures
        spec_uri_display(p) is None,
    decreases p.len() - k,
{
    if k < p.len() {
        let sub = p.subrange(0, k + 1);
        assert(sub.drop_last() =~= p.subrange(0, k));
        lemma_uri_display_none_extends(p, k + 1);
    } else {
        assert(p.subrange(0, k) =~= p);
    }
}

// ---------------------------------------------------------------------------
// File extension

/// The index of the last `.` in `s`, if any.
pub open spec fn last_dot(s: Seq<u8>) -> Option<int>
    decreases s.len(),
{
    if s.len() == 0 {
        None
    } else if s.last() == 46u8 {
        Some(s.len() - 1)
    } else {
        last_dot(s.drop_last())
    }
}

/// What follows the last `.` of a component; the whole component when it has none.
pub open spec fn spec_extension(s: Seq<u8>) -> Seq<u8> {
    match last_dot(s) {
        Some(i) => s.skip(i + 1),
        None => s,
    }
}

proof fn lemma_last_dot_range(s: Seq<u8>)
    ensures
        last_dot(s) matches Some(i) ==> 0 <= i < s.len() && s[i] == 46u8,
    decreases s.len(),
{
    if s.len() > 0 && s.last() != 46u8 {
        lemma_last_dot_range(s.drop_last());
    }
}

/// What follows the last `.` of a component; the whole component when it has none.
pub fn extension(s: &[u8]) -> (e: &[u8])
    ensures
        e@ == spec_extension(s@),
{
    let mut k: usize = s.len();
    assert(s@.subrange(0, s@.len() as int) =~= s@);
    while k > 0 && s[k - 1] != 46u8
        invariant
            k <= s@.len(),
            last_dot(s@) == last_dot(s@.subrange(0, k as int)),
        decreases k,
    {
        proof {
            let t = s@.subrange(0, k as int);
            assert(t.drop_last() =~= s@.subrange(0, k - 1));
        }
        k = k - 1;
    }
    proof {
        lemma_last_dot_range(s@);
        assert(s@.subrange(0, s@.len() as int) =~= s@);
    }
    if k == 0 {
        assert(s@.subrange(0, 0) =~= Seq::<u8>::empty());
        s
    } else {
        vstd::slice::slice_subrange(s, k, s.len())
    }
}

} // verus!
