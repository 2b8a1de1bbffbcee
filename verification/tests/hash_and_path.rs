use webbit::hash::{B64b32, HashParseError};
use webbit::path::{ipath_uri_display, extension, AnyIPath, HtmlExt, HtmlIPath, IsExt, LkPath};

#[test]
fn b64_of_zero_and_ones() {
    assert_eq!(B64b32::new([0u8; 32]).b64(), "A".repeat(43));
    let ones = B64b32::new([255u8; 32]);
    assert_eq!(ones.b64(), format!("{}8", "_".repeat(42)));
}

#[test]
fn parse_hash_roundtrip() {
    let mut b = [0u8; 32];
    for (i, x) in b.iter_mut().enumerate() {
        *x = (i * 7 + 3) as u8;
    }
    let h = B64b32::new(b);
    let text = h.b64();
    assert_eq!(text.len(), 43);
    assert_eq!(B64b32::parse_str(&text), Ok(h));
}

#[test]
fn parse_hash_errors() {
    assert_eq!(B64b32::parse_str("AAAA"), Err(HashParseError::WrongLength(3)));
    assert_eq!(B64b32::parse_str("not base64!"), Err(HashParseError::NotBase64));
    // padding is refused
    assert_eq!(B64b32::parse_str("AA=="), Err(HashParseError::NotBase64));
}

#[test]
fn body_hash_raw_or_text() {
    let raw = [9u8; 32];
    assert_eq!(B64b32::try_fit_bytes_or_b64(&raw), Ok(B64b32::new(raw)));
    let text = B64b32::new(raw).b64();
    assert_eq!(B64b32::try_fit_bytes_or_b64(text.as_bytes()), Ok(B64b32::new(raw)));
    assert!(B64b32::try_fit_bytes_or_b64(b"short").is_err());
}

#[test]
fn same_hash_check() {
    assert!(!B64b32::new([0u8; 32]).same(&B64b32::new([1u8; 32])));
    assert!(B64b32::new([1u8; 32]).same(&B64b32::new([1u8; 32])));
}

#[test]
fn html_extension_check() {
    assert!(HtmlExt::is_ext(b"index.html"));
    assert!(!HtmlExt::is_ext(b"index.htm"));
    assert!(!HtmlExt::is_ext(b"html"));
    assert!(<() as IsExt>::is_ext(b"anything"));
}

#[test]
fn path_from_components() {
    let ok: Result<HtmlIPath, _> = LkPath::from_components(vec![b"a".to_vec(), b"p.html".to_vec()]);
    assert!(ok.is_ok());
    let bad: Result<HtmlIPath, _> = LkPath::from_components(vec![b"p.txt".to_vec()]);
    assert!(bad.is_err());
    let empty: Result<HtmlIPath, _> = LkPath::from_components(vec![]);
    assert!(empty.is_err());
    let any: Result<AnyIPath, _> = LkPath::from_components(vec![]);
    assert!(any.is_ok());
}

#[test]
fn path_any_cast_new_keep_components() {
    let p: HtmlIPath = LkPath::from_components(vec![b"x".to_vec(), b"y.html".to_vec()]).unwrap();
    let a = p.any();
    assert_eq!(a.0, vec![b"x".to_vec(), b"y.html".to_vec()]);
    let h: HtmlIPath = a.cast();
    assert_eq!(h.len(), 2);
    let n = AnyIPath::new(&vec![b"z".to_vec()]);
    assert_eq!(n.last(), b"z");
}

#[test]
fn uri_display_encodes_components() {
    let p = vec![b"a b".to_vec(), b"c.html".to_vec()];
    assert_eq!(ipath_uri_display(&p), Some("/a%20b/c.html".to_string()));
    assert_eq!(ipath_uri_display(&vec![]), Some(String::new()));
    assert_eq!(ipath_uri_display(&vec![vec![0xff]]), None);
}

#[test]
fn extension_after_last_dot() {
    assert_eq!(extension(b"a.tar.gz"), b"gz");
    assert_eq!(extension(b"README"), b"README");
    assert_eq!(extension(b"x."), b"");
    assert_eq!(extension(b""), b"");
}
