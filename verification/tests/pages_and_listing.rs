use webbit::hash::B64b32;
use webbit::listing::{query2html, query2json, ListEntry};
use webbit::path::AnyIPath;
use webbit::pkt::{
    check_pkts_upload, check_vouch_match, check_vouch_request, preview, PktInfo, PktsError, PktsNext,
    PointKind, PreviewError, Refusal,
};
use webbit::quarantine::WriteCursor;
use webbit::read::Link;
use webbit::routes::{favicon, routes, Method};
use webbit::views::{vouch_args, vouch_verdict, VouchVerdict};
use webbit::views::{
    alts_page, any_view, editor_with_uploader, eval_kind, page_view, quarantine_file, uploader_script,
    AnyView, EvalKind, PageView, ReadResult,
};

fn h(x: u8) -> B64b32 {
    B64b32::new([x; 32])
}

fn entry() -> ListEntry {
    ListEntry {
        hash: h(0),
        hash_mini: "mini".into(),
        create: 42,
        create_text: "T42".into(),
        delta: None,
        path: Some(vec![b"a".to_vec(), b"b c".to_vec()]),
        pubkey: None,
    }
}

#[test]
fn html_listing_line() {
    let zero = "A".repeat(43);
    let html = query2html(&vec![entry()]);
    assert_eq!(
        html,
        format!("<ol><li><a href=\"/a/b%20c?hash={zero}\"  create=\"42\">/a/b%20c mini ???  </a></li></ol>")
    );
    assert_eq!(query2html(&vec![]), "<ol></ol>");
}

#[test]
fn html_listing_with_pubkey_and_delta() {
    let mut e = entry();
    e.path = None;
    e.delta = Some("5s".into());
    e.pubkey = Some((h(255), "km".into()));
    let key = format!("{}8", "_".repeat(42));
    let zero = "A".repeat(43);
    assert_eq!(
        query2html(&vec![e]),
        format!("<ol><li><a href=\"?hash={zero}\" pubkey=\"{key}\" create=\"42\"> mini 5s  -- &( km ) </a></li></ol>")
    );
}

#[test]
fn json_listing() {
    let zero = "A".repeat(43);
    assert_eq!(query2json(&vec![]), "[]");
    let one = query2json(&vec![entry()]);
    assert_eq!(
        one,
        format!("[ {{  \"hash\":\"{zero}\", \"create\":\"T42\"  , \"path\":\"/a/b%20c\" }}]")
    );
    let mut e = entry();
    e.path = None;
    let two = query2json(&vec![entry(), e]);
    assert_eq!(
        two,
        format!("[ {{  \"hash\":\"{zero}\", \"create\":\"T42\"  , \"path\":\"/a/b%20c\" }},{{  \"hash\":\"{zero}\", \"create\":\"T42\"  , \"path\":\"\" }}]")
    );
}

fn pkt(kind: PointKind, path: Option<Vec<Vec<u8>>>, pubkey: Option<B64b32>, data: &[u8]) -> PktInfo {
    PktInfo {
        kind,
        hash: h(7),
        group: Some(h(1)),
        domain: Some([0u8; 16]),
        path,
        links: Some(vec![]),
        pubkey,
        data: data.to_vec(),
    }
}

#[test]
fn pkts_upload_checks() {
    let p = AnyIPath::new(&vec![b"x".to_vec()]);
    let head = || pkt(PointKind::Link, Some(vec![b"x".to_vec()]), None, b"");
    assert_eq!(check_pkts_upload(&vec![], &p), Err(PktsError::MissingPkts));
    assert_eq!(
        check_pkts_upload(&vec![head()], &p),
        Err(PktsError::Refused(Refusal::EmptyLinkpoint))
    );
    assert_eq!(
        check_pkts_upload(&vec![head(), pkt(PointKind::Data, None, None, b"d")], &p),
        Ok(PktsNext::Quarantine(h(7)))
    );
    assert_eq!(
        check_pkts_upload(&vec![head(), pkt(PointKind::Link, None, None, b"")], &p),
        Err(PktsError::Refused(Refusal::NotOnlyData))
    );
    let wrong = pkt(PointKind::Link, Some(vec![b"y".to_vec()]), None, b"");
    assert_eq!(
        check_pkts_upload(&vec![wrong, pkt(PointKind::Data, None, None, b"d")], &p),
        Err(PktsError::Refused(Refusal::WrongPath))
    );
    let nopath = pkt(PointKind::Link, None, None, b"");
    assert_eq!(check_pkts_upload(&vec![nopath], &p), Err(PktsError::Refused(Refusal::NoPath)));
    let signed = pkt(PointKind::Key, Some(vec![b"x".to_vec()]), Some(h(9)), b"");
    assert_eq!(check_pkts_upload(&vec![signed], &p), Ok(PktsNext::Vouch(h(7))));
    assert_eq!(Refusal::WrongPath.message(), "using wrong path");
}

#[test]
fn vouch_checks() {
    let key = pkt(PointKind::Key, Some(vec![b"x".to_vec()]), Some(h(9)), b"");
    assert_eq!(check_vouch_request(&vec![]), Err(Refusal::NotOnePacket));
    assert_eq!(
        check_vouch_request(&vec![pkt(PointKind::Link, None, None, b"")]),
        Err(Refusal::NotAKeypoint)
    );
    assert_eq!(check_vouch_request(&vec![key]), Ok(()));
    let link = pkt(PointKind::Link, Some(vec![b"x".to_vec()]), None, b"");
    let key = pkt(PointKind::Key, Some(vec![b"x".to_vec()]), Some(h(9)), b"");
    assert_eq!(check_vouch_match(&link, &key), Ok(()));
    let mut other = pkt(PointKind::Key, Some(vec![b"x".to_vec()]), Some(h(9)), b"");
    other.links = Some(vec![Link { tag: [1u8; 16], ptr: h(3) }]);
    assert_eq!(check_vouch_match(&link, &other), Err(Refusal::DoesNotMatch));
    assert_eq!(Refusal::DoesNotMatch.message(), "your packet does not match the original");
}

#[test]
fn preview_outcomes() {
    let p = AnyIPath::new(&vec![b"x.html".to_vec()]);
    let link = pkt(PointKind::Link, Some(vec![b"x.html".to_vec()]), None, b"");
    let pkts = vec![link, pkt(PointKind::Data, None, None, b"<p>"), pkt(PointKind::Data, None, None, b"hi")];
    assert_eq!(preview(&pkts, &p, Some(true)), Ok((200, "<p>hi".to_string())));
    assert_eq!(
        preview(&pkts, &p, None),
        Ok((400, "this instance requires you add &unsafe to the query".to_string()))
    );
    let other = AnyIPath::new(&vec![b"y.html".to_vec()]);
    assert_eq!(preview(&pkts, &other, Some(true)), Ok((400, "path does not match the packet".to_string())));
    assert_eq!(preview(&vec![], &p, Some(true)), Err(PreviewError::Empty));
    let bad = vec![pkt(PointKind::Link, Some(vec![b"x.html".to_vec()]), None, b""), pkt(PointKind::Data, None, None, &[0xff])];
    assert_eq!(preview(&bad, &p, Some(true)), Err(PreviewError::NotUtf8));
}

const PAGE: &str = "<!DOCTYPE html><html xmlns=\"http://www.w3.org/1999/xhtml\"><head></head>";

#[test]
fn page_views() {
    let path = AnyIPath::new(&vec![b"p.html".to_vec()]);
    match page_view(ReadResult::Found { hash: h(1), data: PAGE.as_bytes().to_vec() }, false, &path, None) {
        PageView::Html { hash, body } => {
            assert_eq!(hash, h(1));
            assert_eq!(body, PAGE.as_bytes());
        }
        _ => panic!("expected the page"),
    }
    match page_view(ReadResult::Found { hash: h(1), data: PAGE.as_bytes().to_vec() }, true, &path, None) {
        PageView::Html { body, .. } => {
            let expected = PAGE.replace("<head>", &format!("<head>{}", uploader_script()));
            assert_eq!(String::from_utf8(body).unwrap(), expected);
        }
        _ => panic!("expected the page with the uploader"),
    }
    match page_view(ReadResult::Found { hash: h(1), data: b"plain".to_vec() }, true, &path, None) {
        PageView::ContentError(m) => assert_eq!(m, "Missing <!DOCTYPE html> - got plain"),
        _ => panic!("expected a content error"),
    }
    assert!(matches!(
        page_view(ReadResult::Found { hash: h(1), data: vec![0xff] }, true, &path, None),
        PageView::InvalidUtf8 { .. }
    ));
    assert!(matches!(page_view(ReadResult::Missing, false, &path, None), PageView::EditorTemplate));
    assert!(matches!(page_view(ReadResult::Missing, true, &path, None), PageView::EditorWithUploader));
    match page_view(ReadResult::Missing, true, &path, Some(h(4))) {
        PageView::Alts { path, hash } => {
            assert_eq!(path, vec![b"p.html".to_vec()]);
            assert_eq!(hash, h(4));
        }
        _ => panic!("expected the alternatives"),
    }
    match page_view(ReadResult::Elsewhere { path: vec![b"q".to_vec()], hash: h(5) }, false, &path, None) {
        PageView::RealPath { path, target_hash } => {
            assert_eq!(path, vec![b"q".to_vec()]);
            assert_eq!(target_hash, Some(h(5)));
        }
        _ => panic!("expected a redirect"),
    }
}

#[test]
fn editor_gets_the_uploader() {
    let out = editor_with_uploader(PAGE).unwrap();
    assert!(out.contains("<head><script id='webbitScript' src='/uploader.js'></script></head>"));
    assert!(editor_with_uploader("nope").is_err());
}

#[test]
fn any_views() {
    let path = AnyIPath::new(&vec![b"p.html".to_vec()]);
    match any_view(ReadResult::Found { hash: h(1), data: b"x".to_vec() }, &path, None) {
        AnyView::File { media, .. } => {
            assert_eq!(media, Some(rocket::http::ContentType::HTML.to_string()));
            assert_eq!(media.as_deref(), Some("text/html; charset=utf-8"));
        }
        _ => panic!("expected a file"),
    }
    let icon = AnyIPath::new(&vec![b"a.b.ico".to_vec()]);
    match any_view(ReadResult::Found { hash: h(1), data: b"x".to_vec() }, &icon, None) {
        AnyView::File { media, .. } => assert_eq!(media.as_deref(), Some("image/x-icon")),
        _ => panic!("expected a file"),
    }
    let png = AnyIPath::new(&vec![b"img.PNG".to_vec()]);
    match any_view(ReadResult::Found { hash: h(1), data: b"x".to_vec() }, &png, None) {
        AnyView::File { media, .. } => assert_eq!(media.as_deref(), Some("image/png")),
        _ => panic!("expected a file"),
    }
    let blob = AnyIPath::new(&vec![b"p.unknownext".to_vec()]);
    match any_view(ReadResult::Found { hash: h(1), data: b"x".to_vec() }, &blob, None) {
        AnyView::File { media, .. } => assert_eq!(media, None),
        _ => panic!("expected a blob"),
    }
    assert!(matches!(any_view(ReadResult::Missing, &path, None), AnyView::NoEditor));
    match any_view(ReadResult::Elsewhere { path: vec![b"q".to_vec()], hash: h(5) }, &path, Some(h(6))) {
        AnyView::RealPath { target_hash, .. } => assert_eq!(target_hash, Some(h(6))),
        _ => panic!("expected a redirect"),
    }
}

#[test]
fn alternatives_page() {
    assert_eq!(
        alts_page("http://a\nhttp://b\r\n", "/p?hash=x"),
        "<ul><li><a href=\"http://a/p?hash=x\">http://a</a></li><li><a href=\"http://b/p?hash=x\">http://b</a></li></ul>"
    );
    assert_eq!(alts_page("", "/p"), "<ul></ul>");
}

#[test]
fn eval_result_kind() {
    assert_eq!(eval_kind(b"text"), EvalKind::Text);
    assert_eq!(eval_kind(&[0xc3]), EvalKind::Bytes);
}

#[test]
fn quarantine_file_name() {
    assert_eq!(quarantine_file(&h(0)), format!("./quarantine/{}", "A".repeat(43)));
}

#[test]
fn write_cursor_advances() {
    let mut c = WriteCursor::new(&vec![3, 0, 2, 4]);
    assert_eq!(c.position(), (0, 0));
    c.advance(2);
    assert_eq!(c.position(), (0, 2));
    c.advance(2);
    assert_eq!(c.position(), (1, 1));
    assert!(!c.is_done());
    c.advance(5);
    assert!(c.is_done());
    assert_eq!(c.position(), (3, 0));
}

#[test]
fn route_table() {
    let r = routes();
    assert_eq!(r.len(), 16);
    assert_eq!(r[0].name, "index");
    assert_eq!(r[1].uri, "/favicon.ico");
    assert_eq!(r[2].method, Method::Post);
    let mut ranks: Vec<i32> = r.iter().filter_map(|x| x.rank).collect();
    let n = ranks.len();
    ranks.sort();
    ranks.dedup();
    assert_eq!(ranks.len(), n);
    assert_eq!(favicon(), ("image/x-icon", "favicon.ico"));
}

#[test]
fn vouch_script_arguments_and_verdict() {
    let (k, f) = vouch_args(&h(255), &h(0));
    assert_eq!(k, format!("{}8", "_".repeat(42)));
    assert_eq!(f, format!("./quarantine/{}", "A".repeat(43)));
    assert_eq!(vouch_verdict(true), VouchVerdict::Save);
    assert_eq!(vouch_verdict(false), VouchVerdict::Refuse);
}

#[test]
fn uploader_page_can_be_saved_again() {
    let path = AnyIPath::new(&vec![b"p.html".to_vec()]);
    match page_view(ReadResult::Found { hash: h(1), data: PAGE.as_bytes().to_vec() }, true, &path, None) {
        PageView::Html { body, .. } => assert!(webbit::upload::upload_accepted(b"p.html", &body)),
        _ => panic!("expected the page with the uploader"),
    }
}
