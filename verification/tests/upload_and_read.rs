use webbit::hash::B64b32;
use webbit::path::AnyIPath;
use webbit::read::{asked_outcome, join_parts, latest, tagged_links, AskedOutcome, Candidate, Link};
use webbit::upload::{find_marker, split_never_ends, split_upload, upload_accepted};

#[test]
fn split_into_blocks() {
    let file: Vec<u8> = (0..10u8).collect();
    let pieces = split_upload(&file, 4);
    assert_eq!(pieces, vec![vec![0, 1, 2, 3], vec![4, 5, 6, 7], vec![8, 9]]);
    assert_eq!(pieces.concat(), file);
    assert!(split_upload(&[], 4).is_empty());
}

#[test]
fn split_marker_in_a_block_never_ends() {
    let mut file = b"abc".to_vec();
    file.extend_from_slice(b"<!--SPLIT_POINT-->");
    file.extend_from_slice(b"def");
    assert!(split_never_ends(&file, 100));
    // a marker that straddles two blocks is not found
    assert!(!split_never_ends(&file, 10));
    assert_eq!(split_upload(&file, 10).concat(), file);
    assert_eq!(find_marker(&file), Some(3));
    assert_eq!(find_marker(b"<!--SPLIT_POINT-"), None);
}

#[test]
fn html_uploads_need_the_prefix() {
    let page = b"<!DOCTYPE html><html xmlns=\"http://www.w3.org/1999/xhtml\"><head></head>";
    assert!(upload_accepted(b"p.html", page));
    assert!(!upload_accepted(b"p.html", b"<html>"));
    assert!(!upload_accepted(b"p.html", &[0xff, 0xfe]));
    assert!(upload_accepted(b"p.txt", &[0xff, 0xfe]));
}

fn h(x: u8) -> B64b32 {
    B64b32::new([x; 32])
}

#[test]
fn latest_takes_the_first_of_the_newest() {
    let c = vec![
        Candidate { stamp: 5, hash: h(1) },
        Candidate { stamp: 9, hash: h(2) },
        Candidate { stamp: 9, hash: h(3) },
        Candidate { stamp: 2, hash: h(4) },
    ];
    assert_eq!(latest(&c), Some(h(2)));
}

#[test]
fn latest_of_nothing() {
    assert_eq!(latest(&vec![]), None);
}

#[test]
fn latest_serves_an_upload_stamped_zero() {
    assert_eq!(latest(&vec![Candidate { stamp: 0, hash: h(1) }]), Some(h(1)));
    let c = vec![Candidate { stamp: 0, hash: h(3) }, Candidate { stamp: 0, hash: h(4) }];
    assert_eq!(latest(&c), Some(h(3)));
}

#[test]
fn latest_serves_a_zero_hash() {
    let zero = B64b32::new([0u8; 32]);
    assert_eq!(latest(&vec![Candidate { stamp: 7, hash: zero }]), Some(zero));
}

#[test]
fn asked_point_outcomes() {
    let path = AnyIPath::new(&vec![b"a".to_vec()]);
    assert_eq!(asked_outcome(None, &path), AskedOutcome::Missing);
    assert_eq!(asked_outcome(Some(&vec![b"a".to_vec()]), &path), AskedOutcome::Serve);
    assert_eq!(asked_outcome(Some(&vec![b"b".to_vec()]), &path), AskedOutcome::Elsewhere);
}

#[test]
fn data_links_in_order() {
    let mut data = [0u8; 16];
    data[12..].copy_from_slice(b"data");
    let other = [1u8; 16];
    let links = vec![
        Link { tag: data, ptr: h(1) },
        Link { tag: other, ptr: h(2) },
        Link { tag: data, ptr: h(3) },
    ];
    assert_eq!(tagged_links(&links, &data), vec![h(1), h(3)]);
}

#[test]
fn join_data_parts() {
    assert_eq!(join_parts(&vec![Some(b"ab".to_vec()), Some(b"c".to_vec())]), Ok(b"abc".to_vec()));
    assert!(join_parts(&vec![Some(b"ab".to_vec()), None]).is_err());
    assert_eq!(join_parts(&vec![]), Ok(vec![]));
}

#[test]
fn upload_then_read_gives_the_file_back() {
    let file: Vec<u8> = (0..=255u8).cycle().take(1000).collect();
    let pieces = split_upload(&file, 97);
    assert!(pieces.iter().all(|p| !p.is_empty() && p.len() <= 97));
    let parts: Vec<Option<Vec<u8>>> = pieces.into_iter().map(Some).collect();
    assert_eq!(join_parts(&parts), Ok(file));
}
