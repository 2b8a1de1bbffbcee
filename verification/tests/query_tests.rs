use webbit::hash::{B64b32, HashParseError};
use webbit::path::AnyIPath;
use webbit::query::{
    header_hash, tail_slash, HeaderHashOutcome, Predicate, PredicateKind, QueryParam, ReqQuery, Stmnt,
    StmntError,
};

fn req(comps: &[&str]) -> ReqQuery {
    let c: Vec<Vec<u8>> = comps.iter().map(|s| s.as_bytes().to_vec()).collect();
    ReqQuery::for_path(AnyIPath::new(&c))
}

fn describe(q: &ReqQuery) -> Vec<String> {
    q.query
        .stmnts
        .iter()
        .map(|s| match s {
            Stmnt::Push { subject, op, value } => format!("push {subject}|{op}|{value:?}"),
            Stmnt::Parse(e) => format!("parse {e}"),
            Stmnt::SignedOnly => "signed".to_string(),
            Stmnt::Prefix(p) => format!("prefix {}", p.len()),
        })
        .collect()
}

fn pred(kind: PredicateKind, name: &str) -> Option<Predicate> {
    Some(Predicate { kind, name: name.to_string() })
}

#[test]
fn route_keys_change_nothing() {
    for key in ["alts", "uploader", "pkts"] {
        let q = req(&["a"]).add_stmnt(key, "x", None).unwrap();
        assert_eq!(describe(&q), vec!["prefix 1"]);
        assert!(!q.info);
    }
}

#[test]
fn mode_and_follow_are_pushed() {
    let q = req(&[]).add_stmnt("mode", "log-asc", None).unwrap();
    assert_eq!(describe(&q)[1], format!("push |mode|{:?}", b"log-asc".to_vec()));
    let q = q.add_stmnt("follow", "", None).unwrap();
    assert_eq!(describe(&q)[2], format!("push |follow|{:?}", Vec::<u8>::new()));
}

#[test]
fn list_depth_counts_from_path() {
    let q = req(&["a", "b"]).add_stmnt("list", "", None).unwrap();
    assert!(q.info);
    assert_eq!(describe(&q)[1], "push path_len|=|[2]");
    let q = req(&["a", "b"]).add_stmnt("list", "3", None).unwrap();
    assert_eq!(describe(&q)[1], "push path_len|=|[5]");
}

#[test]
fn list_too_deep_or_not_a_number() {
    assert_eq!(req(&["a"]).add_stmnt("list", "255", None).err(), Some(StmntError::TooDeep));
    assert!(req(&["a"]).add_stmnt("list", "254", None).is_ok());
    assert_eq!(req(&["a"]).add_stmnt("list", "x", None).err(), Some(StmntError::NotANumber));
    assert_eq!(
        req(&["a"]).add_stmnt("list", "99999999999999999999999", None).err(),
        Some(StmntError::NotANumber)
    );
}

#[test]
fn tree_depth_is_capped_at_200() {
    let q = req(&["a"]).add_stmnt("tree", "", None).unwrap();
    assert!(q.info);
    assert_eq!(describe(&q)[1], "push path_len|<=|[200]");
    let q = req(&["a"]).add_stmnt("tree", "2", None).unwrap();
    assert_eq!(describe(&q)[1], "push path_len|<=|[3]");
    let q = req(&["a"]).add_stmnt("tree", "18446744073709551615", None).unwrap();
    assert_eq!(describe(&q)[1], "push path_len|<=|[200]");
    assert_eq!(req(&[]).add_stmnt("tree", "-1", None).err(), Some(StmntError::NotANumber));
}

#[test]
fn field_keys() {
    assert_eq!(
        req(&[]).add_stmnt("bogus", "1", None).err(),
        Some(StmntError::UnknownKey("bogus".to_string()))
    );
    assert_eq!(
        req(&[]).add_stmnt("group", "", pred(PredicateKind::Other, "group")).err(),
        Some(StmntError::MissingValue)
    );
    let q = req(&[]).add_stmnt("pubkey", "", pred(PredicateKind::Pubkey, "pubkey")).unwrap();
    assert_eq!(describe(&q)[1], "signed");
    let q = req(&[]).add_stmnt("create", "1", pred(PredicateKind::Other, "create")).unwrap();
    assert_eq!(describe(&q)[1], "parse create:=:1");
    assert_eq!(q.hash, None);
}

#[test]
fn hash_key_sets_the_hash() {
    let h = B64b32::new([5u8; 32]);
    let text = h.b64();
    let q = req(&[]).add_stmnt("hash", &text, pred(PredicateKind::Hash, "hash")).unwrap();
    assert_eq!(q.hash, Some(h));
    assert_eq!(describe(&q)[1], format!("parse hash:=:{text}"));
    assert_eq!(
        req(&[]).add_stmnt("hash", "AAAA", pred(PredicateKind::Hash, "hash")).err(),
        Some(StmntError::BadHash(HashParseError::WrongLength(3)))
    );
}

#[test]
fn from_request_stops_at_first_refusal() {
    let path = AnyIPath::new(&vec![b"p".to_vec()]);
    let params = vec![
        QueryParam { key: "list".into(), val: "".into(), predicate: None },
        QueryParam { key: "nope".into(), val: "1".into(), predicate: None },
        QueryParam { key: "mode".into(), val: "x".into(), predicate: None },
    ];
    let err = ReqQuery::from_request(path, params).err().unwrap();
    assert_eq!(err.key, "nope");
    assert_eq!(err.val, "1");
    assert_eq!(err.error, StmntError::UnknownKey("nope".into()));
}

#[test]
fn from_request_keeps_path_prefix_first() {
    let path = AnyIPath::new(&vec![b"p".to_vec(), b"q".to_vec()]);
    let params = vec![
        QueryParam { key: "tree".into(), val: "1".into(), predicate: None },
        QueryParam { key: "mode".into(), val: "x".into(), predicate: None },
    ];
    let q = ReqQuery::from_request(path, params).ok().unwrap();
    let d = describe(&q);
    assert_eq!(d[0], "prefix 2");
    assert_eq!(d[1], "push path_len|<=|[3]");
    assert_eq!(d.len(), 3);
    assert!(q.info);
    assert_eq!(q.path.0, vec![b"p".to_vec(), b"q".to_vec()]);
}

#[test]
fn lk_hash_header() {
    assert_eq!(header_hash(None), HeaderHashOutcome::Forward);
    assert_eq!(header_hash(Some("xyz")), HeaderHashOutcome::BadRequest);
    let h = B64b32::new([3u8; 32]);
    assert_eq!(header_hash(Some(&h.b64())), HeaderHashOutcome::Found(h));
}

#[test]
fn trailing_slash() {
    assert!(tail_slash("/a/"));
    assert!(!tail_slash("/a"));
    assert!(!tail_slash(""));
}
