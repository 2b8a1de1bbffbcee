//! Turning the query string of a request into statements for a linkspace query.
use vstd::prelude::*;

use crate::hash::{spec_parse_b64b32, B64b32, HashParseError};
use crate::path::{comps_view, AnyIPath};
use crate::text::{parse_usize, spec_parse_usize, str_eq};
use crate::path::copy_bytes;

verus! {

/// One statement that a request adds to the site's base query.
pub enum Stmnt {
    /// `lk_query_push(query, subject, op, value)`.
    Push { subject: String, op: String, value: Vec<u8> },
    /// `lk_query_parse(query, &[expr])`, an expression in linkspace's query syntax.
    Parse(String),
    /// Only points that carry a signature: `lk_query_push(query, "type", "1", &[SIGNATURE])`.
    SignedOnly,
    /// Only points under the path: `lk_query_push(query, "prefix", "=", spath_bytes(path))`.
    Prefix(Vec<Vec<u8>>),
}

/// The mathematical value of a [`Stmnt`].
pub enum StmntV {
    Push(Seq<char>, Seq<char>, Seq<u8>),
    Parse(Seq<char>),
    SignedOnly,
    Prefix(Seq<Seq<u8>>),
}

impl View for Stmnt {
    type V = StmntV;

    open spec fn view(&self) -> StmntV {
        match self {
            Stmnt::Push { subject, op, value } => StmntV::Push(subject@, op@, value@),
            Stmnt::Parse(e) => StmntV::Parse(e@),
            Stmnt::SignedOnly => StmntV::SignedOnly,
            Stmnt::Prefix(p) => StmntV::Prefix(comps_view(p@)),
        }
    }
}

/// The statements a request adds, in order, to the site's base query.
pub struct Query {
    pub stmnts: Vec<Stmnt>,
}

impl View for Query {
    type V = Seq<StmntV>;

    open spec fn view(&self) -> Seq<StmntV> {
        self.stmnts@.map_values(|s: Stmnt| s@)
    }
}

/// A request for points: the query, and, kept apart so that a mismatch can be
/// redirected, the hash asked for and the request path; `info` marks a listing.
pub struct ReqQuery {
    pub query: Query,
    pub hash: Option<B64b32>,
    pub path: AnyIPath,
    pub info: bool,
}

/// The mathematical value of a [`ReqQuery`].
#[verifier::ext_equal]
pub struct ReqQueryV {
    pub stmnts: Seq<StmntV>,
    pub hash: Option<Seq<u8>>,
    pub path: Seq<Seq<u8>>,
    pub info: bool,
}

impl View for ReqQuery {
    type V = ReqQueryV;

    open spec fn view(&self) -> ReqQueryV {
        ReqQueryV {
            stmnts: self.query@,
            hash: match self.hash {
                Some(h) => Some(h.0@),
                None => None,
            },
            path: self.path@,
            info: self.info,
        }
    }
}

/// Which field of a point a query key names, as linkspace reads it.
#[derive(Debug, Copy, Clone, PartialEq, Eq, Structural)]
pub enum PredicateKind {
    Hash,
    Pubkey,
    Other,
}

/// A query key that linkspace reads as a field of a point, with the name
/// linkspace writes for that field.
pub struct Predicate {
    pub kind: PredicateKind,
    pub name: String,
}

/// The mathematical value of a [`Predicate`].
pub struct PredicateV {
    pub kind: PredicateKind,
    pub name: Seq<char>,
}

impl View for Predicate {
    type V = PredicateV;

    open spec fn view(&self) -> PredicateV {
        PredicateV { kind: self.kind, name: self.name@ }
    }
}

/// Why a query statement was refused.
#[derive(Debug, PartialEq, Eq)]
pub enum StmntError {
    /// The value of `list` or `tree` is not a number.
    NotANumber,
    /// `list` asks for a depth beyond 255.
    TooDeep,
    /// A field was named without a value.
    MissingValue,
    /// The key is neither a known key nor a field of a point.
    UnknownKey(String),
    /// The value of `hash` is not a hash.
    BadHash(HashParseError),
}

/// The mathematical value of a [`StmntError`].
pub enum StmntErrorV {
    NotANumber,
    TooDeep,
    MissingValue,
    UnknownKey(Seq<char>),
    BadHash(HashParseError),
}

impl View for StmntError {
    type V = StmntErrorV;

    open spec fn view(&self) -> StmntErrorV {
        match self {
            StmntError::NotANumber => StmntErrorV::NotANumber,
            StmntError::TooDeep => StmntErrorV::TooDeep,
            StmntError::MissingValue => StmntErrorV::MissingValue,
            StmntError::UnknownKey(k) => StmntErrorV::UnknownKey(k@),
            StmntError::BadHash(e) => StmntErrorV::BadHash(*e),
        }
    }
}

/// `r` with `s` added at the end of its statements.
pub open spec fn with_stmnt(r: ReqQueryV, s: StmntV) -> ReqQueryV {
    ReqQueryV { stmnts: r.stmnts.push(s), ..r }
}

/// The number added to the path length for `list` (0 when no value is given).
pub open spec fn list_extra(val: Seq<char>) -> Option<int> {
    if val.len() == 0 {
        Some(0)
    } else {
        spec_parse_usize(val)
    }
}

/// The number added to the path length for `tree` (255 when no value is given).
pub open spec fn tree_extra(val: Seq<char>) -> Option<int> {
    if val.len() == 0 {
        Some(255)
    } else {
        spec_parse_usize(val)
    }
}

/// What a field of a point with a value adds: `hash` also sets the hash asked for.
pub open spec fn spec_field_stmnt(r: ReqQueryV, val: Seq<char>, p: PredicateV) -> Result<ReqQueryV, StmntErrorV> {
    let stmnt = StmntV::Parse(p.name + ":=:"@ + val);
    if p.kind == PredicateKind::Hash {
        match spec_parse_b64b32(vstd::utf8::encode_utf8(val)) {
            Ok(h) => Ok(with_stmnt(ReqQueryV { hash: Some(h), ..r }, stmnt)),
            Err(e) => Err(StmntErrorV::BadHash(e)),
        }
    } else {
        Ok(with_stmnt(r, stmnt))
    }
}

/// What one `key=val` pair of the query string does to a request. `pred` is
/// how linkspace reads `key` as a field of a point (`None` when it does not).
pub open spec fn spec_add_stmnt(r: ReqQueryV, key: Seq<char>, val: Seq<char>, pred: Option<PredicateV>) -> Result<ReqQueryV, StmntErrorV> {
    if key == "alts"@ || key == "uploader"@ || key == "pkts"@ {
        Ok(r)
    } else if key == "mode"@ {
        Ok(with_stmnt(r, StmntV::Push(""@, "mode"@, vstd::utf8::encode_utf8(val))))
    } else if key == "follow"@ {
        Ok(with_stmnt(r, StmntV::Push(""@, "follow"@, vstd::utf8::encode_utf8(val))))
    } else if key == "list"@ {
        match list_extra(val) {
            None => Err(StmntErrorV::NotANumber),
            Some(n) => {
                let depth = r.path.len() + n;
                if depth > 255 {
                    Err(StmntErrorV::TooDeep)
                } else {
                    Ok(with_stmnt(ReqQueryV { info: true, ..r }, StmntV::Push("path_len"@, "="@, seq![depth as u8])))
                }
            },
        }
    } else if key == "tree"@ {
        match tree_extra(val) {
            None => Err(StmntErrorV::NotANumber),
            Some(n) => {
                let depth = if r.path.len() + n < 200 { r.path.len() + n } else { 200 };
                Ok(with_stmnt(ReqQueryV { info: true, ..r }, StmntV::Push("path_len"@, "<="@, seq![depth as u8])))
            },
        }
    } else {
        match pred {
            None => Err(StmntErrorV::UnknownKey(key)),
            Some(p) => if val.len() == 0 {
                if p.kind == PredicateKind::Pubkey {
                    Ok(with_stmnt(r, StmntV::SignedOnly))
                } else {
                    Err(StmntErrorV::MissingValue)
                }
            } else {
                spec_field_stmnt(r, val, p)
            },
        }
    }
}

/// The exec result matches the spec result.
pub open spec fn stmnt_result_matches(res: Result<ReqQuery, StmntError>, spec: Result<ReqQueryV, StmntErrorV>) -> bool {
    match spec {
        Ok(v) => res matches Ok(q) && q@ == v,
        Err(e) => res matches Err(err) && err@ == e,
    }
}

/// Copies a string.
fn copy_string(s: &str) -> (r: String)
    ensures
        r@ == s@,
{
    String::from_str(s)
}

/// The single byte `d`.
fn one_byte(d: u8) -> (v: Vec<u8>)
    ensures
        v@ == seq![d],
{
    let mut v: Vec<u8> = Vec::new();
    v.push(d);
    v
}

impl Query {
    /// Adds a statement at the end.
    pub fn push(&mut self, s: Stmnt)
        ensures
            final(self)@ == old(self)@.push(s@),
    {
        self.stmnts.push(s);
        assert(self@ =~= old(self)@.push(s@));
    }
}

impl ReqQuery {
    /// The request for `path` before its query string is read: only points under the path.
    pub fn for_path(path: AnyIPath) -> (r: ReqQuery)
        ensures
            r@ == (ReqQueryV {
                stmnts: seq![StmntV::Prefix(path@)],
                hash: None,
                path: path@,
                info: false,
            }),
    {
        let prefix = Stmnt::Prefix(crate::path::copy_comps(&path.0));
        let mut stmnts: Vec<Stmnt> = Vec::new();
        stmnts.push(prefix);
        let r = ReqQuery { query: Query { stmnts }, hash: None, path, info: false };
        assert(r.query@ =~= seq![StmntV::Prefix(path@)]);
        r
    }

    /// Applies one `key=val` pair of the query string. `predicate` is how
    /// linkspace reads `key` as a field of a point (`None` when it does not).
    ///
    /// `alts`, `uploader` and `pkts` change nothing; `mode` and `follow` are
    /// passed on; `list` and `tree` make the request a listing, limited to the
    /// given depth below the path; any other key must name a field of a point.
    pub fn add_stmnt(self, key: &str, val: &str, predicate: Option<Predicate>) -> (res: Result<ReqQuery, StmntError>)
        ensures
            stmnt_result_matches(
                res,
                spec_add_stmnt(
                    self@,
                    key@,
                    val@,
                    match predicate {
                        Some(p) => Some(p@),
                        None => None,
                    },
                ),
            ),
    {
        let ReqQuery { mut query, mut hash, path, mut info } = self;
        proof {
            reveal_strlit("");
        }
        let ghost pv = match predicate { Some(ref p) => Some(p@), None => None };
        let ghost sp = spec_add_stmnt(self@, key@, val@, pv);
        if str_eq(key, "alts") || str_eq(key, "uploader") || str_eq(key, "pkts") {
            Ok(ReqQuery { query, hash, path, info })
        } else if str_eq(key, "mode") {
            let v = copy_bytes(val.as_bytes());
            let subject = String::new();
            assert(subject@ == ""@);
            query.push(Stmnt::Push { subject, op: copy_string("mode"), value: v });
            let r = ReqQuery { query, hash, path, info };
            assert(v@ == vstd::utf8::encode_utf8(val@));
            assert(r@.stmnts =~= self@.stmnts.push(StmntV::Push(""@, "mode"@, vstd::utf8::encode_utf8(val@))));
            assert(r@.stmnts =~= sp->Ok_0.stmnts);
            Ok(r)
        } else if str_eq(key, "follow") {
            let v = copy_bytes(val.as_bytes());
            let subject = String::new();
            assert(subject@ == ""@);
            query.push(Stmnt::Push { subject, op: copy_string("follow"), value: v });
            let r = ReqQuery { query, hash, path, info };
            assert(r@ =~= sp->Ok_0);
            Ok(r)
        } else if str_eq(key, "list") {
            let extra = if val.unicode_len() == 0 {
                Some(0usize)
            } else {
                parse_usize(val)
            };
            match extra {
                None => Err(StmntError::NotANumber),
                Some(n) => {
                    let plen = path.len();
                    if n > 255 || plen > 255 - n {
                        Err(StmntError::TooDeep)
                    } else {
                        let depth = (plen + n) as u8;
                        info = true;
                        query.push(Stmnt::Push { subject: copy_string("path_len"), op: copy_string("="), value: one_byte(depth) });
                        let r = ReqQuery { query, hash, path, info };
                        assert(r@ =~= sp->Ok_0);
                        Ok(r)
                    }
                },
            }
        } else if str_eq(key, "tree") {
            let extra = if val.unicode_len() == 0 {
                Some(255usize)
            } else {
                parse_usize(val)
            };
            match extra {
                None => Err(StmntError::NotANumber),
                Some(n) => {
                    let plen = path.len();
                    let depth: u8 = if n < 200 && plen < 200 - n {
                        (plen + n) as u8
                    } else {
                        200
                    };
                    info = true;
                    query.push(Stmnt::Push { subject: copy_string("path_len"), op: copy_string("<="), value: one_byte(depth) });
                    let r = ReqQuery { query, hash, path, info };
                    assert(r@ =~= sp->Ok_0);
                    Ok(r)
                },
            }
        } else {
            match predicate {
                None => Err(StmntError::UnknownKey(copy_string(key))),
                Some(p) => {
                    if val.unicode_len() == 0 {
                        if p.kind == PredicateKind::Pubkey {
                            query.push(Stmnt::SignedOnly);
                            let r = ReqQuery { query, hash, path, info };
                            assert(r@ =~= sp->Ok_0);
                            Ok(r)
                        } else {
                            Err(StmntError::MissingValue)
                        }
                    } else {
                        if p.kind == PredicateKind::Hash {
                            match B64b32::parse_str(val) {
                                Ok(h) => {
                                    hash = Some(h);
                                },
                                Err(e) => {
                                    return Err(StmntError::BadHash(e));
                                },
                            }
                        }
                        let mut e = p.name;
                        e.append(":=:");
                        e.append(val);
                        query.push(Stmnt::Parse(e));
                        let r = ReqQuery { query, hash, path, info };
                        assert(r@ =~= sp->Ok_0);
                        Ok(r)
                    }
                }
            }
        }
    }
}

/// One `key=val` pair of a request's query string, with how linkspace reads
/// `key` as a field of a point (`None` when it does not).
pub struct QueryParam {
    pub key: String,
    pub val: String,
    pub predicate: Option<Predicate>,
}

/// The mathematical value of a [`QueryParam`].
pub struct QueryParamV {
    pub key: Seq<char>,
    pub val: Seq<char>,
    pub predicate: Option<PredicateV>,
}

impl View for QueryParam {
    type V = QueryParamV;

    open spec fn view(&self) -> QueryParamV {
        QueryParamV {
            key: self.key@,
            val: self.val@,
            predicate: match self.predicate {
                Some(p) => Some(p@),
                None => None,
            },
        }
    }
}

/// The values of a list of pairs.
pub open spec fn params_view(ps: Seq<QueryParam>) -> Seq<QueryParamV> {
    ps.map_values(|p: QueryParam| p@)
}

/// A pair of the query string that was refused, and why.
pub struct ParamError {
    pub key: String,
    pub val: String,
    pub error: StmntError,
}

/// What the pairs of a query string, applied in order, make of a request;
/// the first refused pair stops it.
pub open spec fn spec_apply_params(r: ReqQueryV, params: Seq<QueryParamV>) -> Result<ReqQueryV, (Seq<char>, Seq<char>, StmntErrorV)>
    decreases params.len(),
{
    if params.len() == 0 {
        Ok(r)
    } else {
        match spec_apply_params(r, params.drop_last()) {
            Err(e) => Err(e),
            Ok(r2) => {
                let p = params.last();
                match spec_add_stmnt(r2, p.key, p.val, p.predicate) {
                    Ok(r3) => Ok(r3),
                    Err(e) => Err((p.key, p.val, e)),
                }
            },
        }
    }
}

/// The initial request for `path`.
pub open spec fn spec_for_path(path: Seq<Seq<u8>>) -> ReqQueryV {
    ReqQueryV { stmnts: seq![StmntV::Prefix(path)], hash: None, path, info: false }
}

/// Whether the exec result of reading a query string matches the spec.
pub open spec fn params_result_matches(res: Result<ReqQuery, ParamError>, spec: Result<ReqQueryV, (Seq<char>, Seq<char>, StmntErrorV)>) -> bool {
    match spec {
        Ok(v) => res matches Ok(q) && q@ == v,
        Err((k, v, e)) => res matches Err(pe) && pe.key@ == k && pe.val@ == v && pe.error@ == e,
    }
}

impl ReqQuery {
    /// The request for `path` with the pairs of its query string applied in order.
    pub fn from_request(path: AnyIPath, params: Vec<QueryParam>) -> (res: Result<ReqQuery, ParamError>)
        ensures
            params_result_matches(res, spec_apply_params(spec_for_path(path@), params_view(params@))),
    {
        let ghost all = params_view(params@);
        let mut rest = params;
        let n = rest.len();
        let ghost start = spec_for_path(path@);
        let mut r = ReqQuery::for_path(path);
        assert(r@ =~= start);
        let mut i: usize = 0;
        assert(all.subrange(0, 0) =~= Seq::<QueryParamV>::empty());
        while rest.len() > 0
            invariant
                i + rest@.len() == all.len(),
                all.len() == n,
                start == spec_for_path(path@),
                all == params_view(params@),
                params_view(rest@) == all.subrange(i as int, all.len() as int),
                spec_apply_params(start, all.subrange(0, i as int)) == Ok::<ReqQueryV, (Seq<char>, Seq<char>, StmntErrorV)>(r@),
            decreases rest@.len(),
        {
            let ghost rest_before = rest@;
            let p = rest.remove(0);
            let ghost pv = all[i as int];
            assert(params_view(rest_before)[0] == pv);
            assert(p@ == pv);
            assert forall|j: int| 0 <= j < rest@.len() implies #[trigger] params_view(rest@)[j] == all.subrange(i as int + 1, all.len() as int)[j] by {
                assert(rest@[j] == rest_before[j + 1]);
                assert(params_view(rest_before)[j + 1] == all.subrange(i as int, all.len() as int)[j + 1]);
            }
            assert(params_view(rest@) =~= all.subrange(i as int + 1, all.len() as int));
            let ghost sub = all.subrange(0, i as int + 1);
            assert(sub.drop_last() =~= all.subrange(0, i as int));
            assert(sub.last() == pv);
            let QueryParam { key, val, predicate } = p;
            let ghost rv = r@;
            match r.add_stmnt(key.as_str(), val.as_str(), predicate) {
                Ok(r2) => {
                    r = r2;
                },
                Err(e) => {
                    proof {
                        assert(spec_apply_params(start, sub) == Err::<ReqQueryV, (Seq<char>, Seq<char>, StmntErrorV)>((key@, val@, e@)));
                        lemma_apply_params_err_extends(start, all, i as int + 1);
                        assert(spec_apply_params(start, all) == Err::<ReqQueryV, (Seq<char>, Seq<char>, StmntErrorV)>((key@, val@, e@)));
                    }
                    return Err(ParamError { key, val, error: e });
                },
            }
            i = i + 1;
        }
        assert(all.subrange(0, i as int) =~= all);
        Ok(r)
    }
}

/// Once a prefix of the pairs is refused, all of them are, with the same error.
proof fn lemma_apply_params_err_extends(r: ReqQueryV, ps: Seq<QueryParamV>, k: int)
    requires
        0 <= k <= ps.len(),
        spec_apply_params(r, ps.subrange(0, k)) is Err,
    ensures
        spec_apply_params(r, ps) == spec_apply_params(r, ps.subrange(0, k)),
    decreases ps.len() - k,
{
    if k < ps.len() {
        let sub = ps.subrange(0, k + 1);
        assert(sub.drop_last() =~= ps.subrange(0, k));
        lemma_apply_params_err_extends(r, ps, k + 1);
    } else {
        assert(ps.subrange(0, k) =~= ps);
    }
}

// ---------------------------------------------------------------------------
// Laws

/// The keys this module knows differ in their first character.
proof fn lemma_key_literals()
    ensures
        "alts"@.len() > 0 && "alts"@[0] == 'a',
        "uploader"@.len() > 0 && "uploader"@[0] == 'u',
        "pkts"@.len() > 0 && "pkts"@[0] == 'p',
        "mode"@.len() > 0 && "mode"@[0] == 'm',
        "follow"@.len() > 0 && "follow"@[0] == 'f',
        "list"@.len() > 0 && "list"@[0] == 'l',
        "tree"@.len() > 0 && "tree"@[0] == 't',
{
    reveal_strlit("tree");
    reveal_strlit("alts");
    reveal_strlit("uploader");
    reveal_strlit("pkts");
    reveal_strlit("mode");
    reveal_strlit("follow");
    reveal_strlit("list");
}

/// One pair of the query string keeps the request path and every statement
/// already made, adds at most one statement, and marks a listing exactly for
/// `list` and `tree`.
pub proof fn law_add_stmnt_keeps_request(r: ReqQueryV, key: Seq<char>, val: Seq<char>, pred: Option<PredicateV>)
    requires
        spec_add_stmnt(r, key, val, pred) is Ok,
    ensures
        ({
            let r2 = spec_add_stmnt(r, key, val, pred)->Ok_0;
            &&& r2.path == r.path
            &&& r.stmnts.is_prefix_of(r2.stmnts)
            &&& r2.stmnts.len() <= r.stmnts.len() + 1
            &&& r2.info == (r.info || key == "list"@ || key == "tree"@)
        }),
{
    lemma_key_literals();
    let r2 = spec_add_stmnt(r, key, val, pred)->Ok_0;
    assert(r2.stmnts.subrange(0, r.stmnts.len() as int) =~= r.stmnts);
}

/// Keys that only choose a route (`alts`, `uploader`, `pkts`) change nothing.
pub proof fn law_route_keys_change_nothing(r: ReqQueryV, key: Seq<char>, val: Seq<char>, pred: Option<PredicateV>)
    requires
        key == "alts"@ || key == "uploader"@ || key == "pkts"@,
    ensures
        spec_add_stmnt(r, key, val, pred) == Ok::<ReqQueryV, StmntErrorV>(r),
{
}

/// However its query string reads, a request stays limited to points under
/// its own path: its first statement is the path prefix, and its path is
/// the request path.
pub proof fn law_request_stays_under_path(path: Seq<Seq<u8>>, params: Seq<QueryParamV>)
    requires
        spec_apply_params(spec_for_path(path), params) is Ok,
    ensures
        spec_apply_params(spec_for_path(path), params)->Ok_0.stmnts.len() >= 1,
        spec_apply_params(spec_for_path(path), params)->Ok_0.stmnts[0] == StmntV::Prefix(path),
        spec_apply_params(spec_for_path(path), params)->Ok_0.path == path,
    decreases params.len(),
{
    if params.len() > 0 {
        law_request_stays_under_path(path, params.drop_last());
        let r2 = spec_apply_params(spec_for_path(path), params.drop_last())->Ok_0;
        let p = params.last();
        law_add_stmnt_keeps_request(r2, p.key, p.val, p.predicate);
        let r3 = spec_add_stmnt(r2, p.key, p.val, p.predicate)->Ok_0;
        assert(r3.stmnts[0] == r2.stmnts[0]);
    }
}

/// A `tree` listing never reaches deeper than 200 components.
pub proof fn law_tree_depth_bounded(r: ReqQueryV, val: Seq<char>, pred: Option<PredicateV>)
    requires
        spec_add_stmnt(r, "tree"@, val, pred) is Ok,
    ensures
        spec_add_stmnt(r, "tree"@, val, pred)->Ok_0.stmnts.last() matches StmntV::Push(s, o, v)
            && v.len() == 1 && v[0] <= 200,
{
    lemma_key_literals();
    crate::text::lemma_parse_usize_nonneg(val);
}

/// A key that is neither a route key (`alts`, `uploader`, `pkts`) nor `mode`,
/// `follow`, `list` or `tree` must name a field of a point. With a non-empty
/// value it adds exactly the linkspace expression `name:=:value`, whatever the
/// field (the public key included), and keeps the path and the listing mark;
/// only the `hash` field can refuse its value, and exactly when the value is
/// not a hash, and it then also records that hash as the one asked for. With
/// an empty value, only the public key field is accepted, and it adds the
/// statement that asks for signed points. A key that names no field is refused.
pub proof fn law_field_filter(r: ReqQueryV, key: Seq<char>, val: Seq<char>, p: PredicateV)
    requires
        key != "alts"@,
        key != "uploader"@,
        key != "pkts"@,
        key != "mode"@,
        key != "follow"@,
        key != "list"@,
        key != "tree"@,
    ensures
        val.len() > 0 && p.kind != PredicateKind::Hash ==> spec_add_stmnt(r, key, val, Some(p))
            == Ok::<ReqQueryV, StmntErrorV>(ReqQueryV {
                stmnts: r.stmnts.push(StmntV::Parse(p.name + ":=:"@ + val)),
                hash: r.hash,
                path: r.path,
                info: r.info,
            }),
        val.len() > 0 && p.kind == PredicateKind::Hash ==> match spec_parse_b64b32(vstd::utf8::encode_utf8(val)) {
            Ok(h) => spec_add_stmnt(r, key, val, Some(p)) == Ok::<ReqQueryV, StmntErrorV>(ReqQueryV {
                stmnts: r.stmnts.push(StmntV::Parse(p.name + ":=:"@ + val)),
                hash: Some(h),
                path: r.path,
                info: r.info,
            }),
            Err(e) => spec_add_stmnt(r, key, val, Some(p)) == Err::<ReqQueryV, StmntErrorV>(StmntErrorV::BadHash(e)),
        },
        val.len() == 0 && p.kind == PredicateKind::Pubkey ==> spec_add_stmnt(r, key, val, Some(p))
            == Ok::<ReqQueryV, StmntErrorV>(ReqQueryV {
                stmnts: r.stmnts.push(StmntV::SignedOnly),
                hash: r.hash,
                path: r.path,
                info: r.info,
            }),
        val.len() == 0 && p.kind != PredicateKind::Pubkey ==> spec_add_stmnt(r, key, val, Some(p))
            == Err::<ReqQueryV, StmntErrorV>(StmntErrorV::MissingValue),
        spec_add_stmnt(r, key, val, None) == Err::<ReqQueryV, StmntErrorV>(StmntErrorV::UnknownKey(key)),
{
}

/// What a request carrying an `LK-Hash` header is answered.
#[derive(Debug, PartialEq, Eq)]
pub enum HeaderHashOutcome {
    /// No such header: the request goes on to the next route.
    Forward,
    /// The header holds a hash.
    Found(B64b32),
    /// The header does not hold a hash: 400 Bad Request.
    BadRequest,
}

/// Reads the `LK-Hash` header of a request.
pub fn header_hash(header: Option<&str>) -> (res: HeaderHashOutcome)
    ensures
        header is None ==> res == HeaderHashOutcome::Forward,
        header matches Some(h) ==> match spec_parse_b64b32(vstd::utf8::encode_utf8(h@)) {
            Ok(b) => res matches HeaderHashOutcome::Found(x) && x.0@ == b,
            Err(_) => res == HeaderHashOutcome::BadRequest,
        },
{
    match header {
        None => HeaderHashOutcome::Forward,
        Some(h) => match B64b32::parse_str(h) {
            Ok(x) => HeaderHashOutcome::Found(x),
            Err(_) => HeaderHashOutcome::BadRequest,
        },
    }
}

/// Whether a request path ends in `/` (the index page is served there).
pub fn tail_slash(path: &str) -> (b: bool)
    ensures
        b == (path@.len() > 0 && path@.last() == '/'),
{
    let n = path.unicode_len();
    n > 0 && path.get_char(n - 1) == '/'
}

} // verus!
