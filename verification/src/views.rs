//! How the page routes answer, once the point for a request was looked up.
use vstd::prelude::*;

use crate::hash::{url_safe_b64_encode, B64b32};
use crate::html::{header_error_matches, insert_html_header, spec_insert_html_header, HeaderError};
use crate::path::{comps_view, copy_bytes, copy_comps, extension, last_comp, spec_extension, AnyIPath};
use crate::text::{lines, spec_lines, utf8_str};

verus! {

/// What `rocket::http::ContentType::from_extension` gives for the file
/// extension `ext`, as the Content-Type text that type displays as; `None`
/// where rocket does not know the extension.
pub uninterp spec fn media_type_for(ext: Seq<char>) -> Option<Seq<char>>;

/// Calls `rocket::http::ContentType::from_extension` and writes the content
/// type it finds as its Content-Type text. Claims only that the result is the
/// named content type of `ext`, and `None` exactly where rocket knows none.
#[verifier::external_body]
fn content_type_for(ext: &str) -> (res: Option<String>)
    ensures
        match media_type_for(ext@) {
            Some(m) => res matches Some(t) && t@ == m,
            None => res is None,
        },
{
    match rocket::http::ContentType::from_extension(ext) {
        Some(c) => Some(c.to_string()),
        None => None,
    }
}

/// The editor a page is opened with.
#[derive(Debug, Copy, Clone, PartialEq, Eq, Structural)]
pub enum Editor {
    Default,
}

impl Default for Editor {
    fn default() -> (e: Editor)
        ensures
            e == Editor::Default,
    {
        Editor::Default
    }
}

/// What looking up the point for a request found.
pub enum ReadResult {
    /// No point.
    Missing,
    /// The point with this hash, under the request path, and its data.
    Found { hash: B64b32, data: Vec<u8> },
    /// The point asked for stands under another path.
    Elsewhere { path: Vec<Vec<u8>>, hash: B64b32 },
}

/// The script that lets a visitor edit and upload a page.
pub open spec fn spec_uploader_script() -> Seq<char> {
    "<script id='webbitScript' src='/uploader.js'></script>"@
}

/// The script that lets a visitor edit and upload a page.
pub fn uploader_script() -> (s: &'static str)
    ensures
        s@ == spec_uploader_script(),
{
    "<script id='webbitScript' src='/uploader.js'></script>"
}

/// How a page request (with or without `?uploader`) is answered.
pub enum PageView {
    /// The page, as HTML, with its hash in the `LK-Hash` header.
    Html { hash: B64b32, body: Vec<u8> },
    /// 417: the page cannot carry the uploader script, for this reason.
    ContentError(String),
    /// 417: the page is not UTF-8 (its data, for the message).
    InvalidUtf8 { data: Vec<u8> },
    /// Temporary redirect to the alternatives for the hash asked for.
    Alts { path: Vec<Vec<u8>>, hash: B64b32 },
    /// 404 with the editor.
    EditorTemplate,
    /// The editor, with the uploader script injected.
    EditorWithUploader,
    /// Permanent redirect to where the point stands.
    RealPath { path: Vec<Vec<u8>>, target_hash: Option<B64b32> },
}

/// Whether `v` is how a page request with the given lookup result is answered.
/// `uploader` is set for `?uploader`; `asked` is the hash the request asked for.
pub open spec fn page_view_is(v: PageView, read: ReadResult, uploader: bool, path: Seq<Seq<u8>>, asked: Option<B64b32>) -> bool {
    match read {
        ReadResult::Found { hash, data } => if !uploader {
            v matches PageView::Html { hash: h, body } && h == hash && body@ == data@
        } else if !vstd::utf8::valid_utf8(data@) {
            v matches PageView::InvalidUtf8 { data: d } && d@ == data@
        } else {
            match spec_insert_html_header(vstd::utf8::decode_utf8(data@), spec_uploader_script()) {
                Ok(page) => v matches PageView::Html { hash: h, body } && h == hash
                    && body@ == vstd::utf8::encode_utf8(page),
                Err(e) => v matches PageView::ContentError(m) && exists|err: HeaderError|
                    header_error_matches(err, e) && m@ == #[trigger] err.spec_message(),
            }
        },
        ReadResult::Missing => match asked {
            Some(h) => v matches PageView::Alts { path: p, hash: x } && comps_view(p@) == path && x == h,
            None => if uploader {
                v is EditorWithUploader
            } else {
                v is EditorTemplate
            },
        },
        ReadResult::Elsewhere { path: p, hash } => v matches PageView::RealPath { path: q, target_hash: Some(x) }
            && comps_view(q@) == comps_view(p@) && x == hash,
    }
}

/// How a page request is answered: the page (with the uploader script for
/// `?uploader`), a redirect, or the editor.
pub fn page_view(read: ReadResult, uploader: bool, path: &AnyIPath, asked: Option<B64b32>) -> (v: PageView)
    ensures
        page_view_is(v, read, uploader, path@, asked),
{
    match read {
        ReadResult::Found { hash, data } => {
            if !uploader {
                PageView::Html { hash, body: data }
            } else {
                match utf8_str(data.as_slice()) {
                    None => PageView::InvalidUtf8 { data },
                    Some(text) => match insert_html_header(text, uploader_script()) {
                        Ok(h) => {
                            let body = copy_bytes(h.as_str().as_bytes());
                            PageView::Html { hash, body }
                        },
                        Err(e) => {
                            let m = e.message();
                            PageView::ContentError(m)
                        },
                    },
                }
            }
        },
        ReadResult::Missing => match asked {
            Some(h) => PageView::Alts { path: copy_comps(&path.0), hash: h },
            None => if uploader {
                PageView::EditorWithUploader
            } else {
                PageView::EditorTemplate
            },
        },
        ReadResult::Elsewhere { path: p, hash } => PageView::RealPath { path: p, target_hash: Some(hash) },
    }
}

/// The editor page with the uploader script injected.
pub fn editor_with_uploader(editor: &str) -> (res: Result<String, HeaderError>)
    ensures
        match spec_insert_html_header(editor@, spec_uploader_script()) {
            Ok(page) => res matches Ok(s) && s@ == page,
            Err(e) => res matches Err(err) && header_error_matches(err, e),
        },
{
    insert_html_header(editor, uploader_script())
}

/// How a request for any file is answered.
pub enum AnyView {
    /// The file, with the Content-Type text rocket gives for its extension when
    /// rocket knows it, else as a blob.
    File { media: Option<String>, hash: B64b32, data: Vec<u8> },
    /// Temporary redirect to the alternatives for the hash asked for.
    Alts { path: Vec<Vec<u8>>, hash: B64b32 },
    /// 404 with the page that says there is no editor.
    NoEditor,
    /// Permanent redirect to where the point stands (keeping the hash asked for).
    RealPath { path: Vec<Vec<u8>>, target_hash: Option<B64b32> },
}

/// The text of the extension of the last path component, if it is UTF-8.
pub open spec fn ext_text(path: Seq<Seq<u8>>) -> Option<Seq<char>> {
    let e = spec_extension(last_comp(path));
    if vstd::utf8::valid_utf8(e) {
        Some(vstd::utf8::decode_utf8(e))
    } else {
        None
    }
}

/// Whether `v` is how a request for any file is answered.
pub open spec fn any_view_is(v: AnyView, read: ReadResult, path: Seq<Seq<u8>>, asked: Option<B64b32>) -> bool {
    match read {
        ReadResult::Found { hash, data } => v matches AnyView::File { media, hash: h, data: d }
            && h == hash && d@ == data@
            && match ext_text(path) {
                Some(t) => match media_type_for(t) {
                    Some(m) => media matches Some(x) && x@ == m,
                    None => media is None,
                },
                None => media is None,
            },
        ReadResult::Missing => match asked {
            Some(h) => v matches AnyView::Alts { path: p, hash: x } && comps_view(p@) == path && x == h,
            None => v is NoEditor,
        },
        ReadResult::Elsewhere { path: p, hash } => v matches AnyView::RealPath { path: q, target_hash: x }
            && comps_view(q@) == comps_view(p@) && x == asked,
    }
}

/// When no point was found for a file request that asked for a hash, it is
/// sent to the alternatives for its own path and that hash; it gets the page
/// that says there is no editor exactly when no hash was asked for.
pub proof fn law_missing_file_goes_to_alts(v: AnyView, path: Seq<Seq<u8>>, asked: Option<B64b32>)
    requires
        any_view_is(v, ReadResult::Missing, path, asked),
    ensures
        v is NoEditor <==> asked is None,
        asked matches Some(h) ==> v matches AnyView::Alts { path: p, hash: x }
            && comps_view(p@) == path && x == h,
{
}

/// How a request for any file is answered.
pub fn any_view(read: ReadResult, path: &AnyIPath, asked: Option<B64b32>) -> (v: AnyView)
    ensures
        any_view_is(v, read, path@, asked),
        read is Missing ==> (v is NoEditor <==> asked is None),
        read is Missing ==> (asked matches Some(h) ==> v matches AnyView::Alts { path: p, hash: x }
            && comps_view(p@) == path@ && x == h),
{
    match read {
        ReadResult::Found { hash, data } => {
            let e = extension(path.last());
            let media = match utf8_str(e) {
                Some(t) => content_type_for(t),
                None => None,
            };
            AnyView::File { media, hash, data }
        },
        ReadResult::Missing => match asked {
            Some(h) => AnyView::Alts { path: copy_comps(&path.0), hash: h },
            None => AnyView::NoEditor,
        },
        ReadResult::Elsewhere { path: p, hash } => AnyView::RealPath { path: p, target_hash: asked },
    }
}

/// How the result of an evaluation is sent: as text when it is UTF-8.
#[derive(Debug, Copy, Clone, PartialEq, Eq, Structural)]
pub enum EvalKind {
    Text,
    Bytes,
}

/// How the result of an evaluation is sent: as text when it is UTF-8, else as bytes.
pub fn eval_kind(bytes: &[u8]) -> (k: EvalKind)
    ensures
        vstd::utf8::valid_utf8(bytes@) ==> k == EvalKind::Text,
        !vstd::utf8::valid_utf8(bytes@) ==> k == EvalKind::Bytes,
{
    match utf8_str(bytes) {
        Some(_) => EvalKind::Text,
        None => EvalKind::Bytes,
    }
}

/// The file where an upload is held until someone vouches for it.
pub open spec fn spec_quarantine_file(hash: Seq<u8>) -> Seq<char> {
    "./quarantine/"@ + url_safe_b64_encode(hash)
}

/// The file where an upload is held until someone vouches for it.
pub fn quarantine_file(hash: &B64b32) -> (s: String)
    ensures
        s@ == spec_quarantine_file(hash.0@),
{
    let mut s = String::from_str("./quarantine/");
    let h = hash.b64();
    s.append(h.as_str());
    s
}

/// One line of the list of alternative hosts.
pub open spec fn spec_alts_item(host: Seq<char>, uri: Seq<char>) -> Seq<char> {
    "<li><a href=\""@ + host + uri + "\">"@ + host + "</a></li>"@
}

/// The lines of the list of alternative hosts, in order.
pub open spec fn spec_alts_items(hosts: Seq<Seq<char>>, uri: Seq<char>) -> Seq<char>
    decreases hosts.len(),
{
    if hosts.len() == 0 {
        Seq::empty()
    } else {
        spec_alts_items(hosts.drop_last(), uri) + spec_alts_item(hosts.last(), uri)
    }
}

/// The page of alternative hosts: one link per line of `alt_list` to `uri` on that host.
pub open spec fn spec_alts_page(alt_list: Seq<char>, uri: Seq<char>) -> Seq<char> {
    "<ul>"@ + spec_alts_items(spec_lines(alt_list), uri) + "</ul>"@
}

/// The page of alternative hosts: one link per line of `alt_list` to `uri` on that host.
pub fn alts_page(alt_list: &str, uri: &str) -> (s: String)
    ensures
        s@ == spec_alts_page(alt_list@, uri@),
{
    let hosts = lines(alt_list);
    let ghost hv = hosts@.map_values(|l: String| l@);
    let mut s = String::from_str("<ul>");
    let mut i: usize = 0;
    assert(hv.subrange(0, 0) =~= Seq::<Seq<char>>::empty());
    while i < hosts.len()
        invariant
            i <= hosts@.len(),
            hv == hosts@.map_values(|l: String| l@),
            s@ == "<ul>"@ + spec_alts_items(hv.subrange(0, i as int), uri@),
        decreases hosts@.len() - i,
    {
        let ghost sub = hv.subrange(0, i as int + 1);
        assert(sub.drop_last() =~= hv.subrange(0, i as int));
        assert(sub.last() == hosts@[i as int]@);
        let host = hosts[i].as_str();
        s.append("<li><a href=\"");
        s.append(host);
        s.append(uri);
        s.append("\">");
        s.append(host);
        s.append("</a></li>");
        assert(s@ =~= "<ul>"@ + spec_alts_items(sub, uri@));
        i = i + 1;
    }
    assert(hv.subrange(0, hosts@.len() as int) =~= hv);
    s.append("</ul>");
    s
}

/// The arguments the vouch script is run with: the signer's public key and
/// the quarantine file of the upload.
pub fn vouch_args(pubkey: &B64b32, quarantined: &B64b32) -> (args: (String, String))
    ensures
        args.0@ == url_safe_b64_encode(pubkey.0@),
        args.1@ == spec_quarantine_file(quarantined.0@),
{
    (pubkey.b64(), quarantine_file(quarantined))
}

/// What the vouch script's exit says.
#[derive(Debug, Copy, Clone, PartialEq, Eq, Structural)]
pub enum VouchVerdict {
    /// It agreed: the packets are saved.
    Save,
    /// It refused (417, "Computer says no").
    Refuse,
}

/// What the vouch script's exit says: only a successful exit saves the packets.
pub fn vouch_verdict(exit_success: bool) -> (v: VouchVerdict)
    ensures
        exit_success ==> v == VouchVerdict::Save,
        !exit_success ==> v == VouchVerdict::Refuse,
{
    if exit_success {
        VouchVerdict::Save
    } else {
        VouchVerdict::Refuse
    }
}

/// A page served with the uploader script can be saved back to a `.html` path:
/// it is still UTF-8 and still carries the required prefix.
pub proof fn law_uploader_page_can_be_saved(data: Seq<u8>, last: Seq<u8>)
    requires
        vstd::utf8::valid_utf8(data),
        spec_insert_html_header(vstd::utf8::decode_utf8(data), spec_uploader_script()) is Ok,
    ensures
        crate::upload::spec_upload_accepted(
            last,
            vstd::utf8::encode_utf8(spec_insert_html_header(vstd::utf8::decode_utf8(data), spec_uploader_script())->Ok_0),
        ),
{
    let page = spec_insert_html_header(vstd::utf8::decode_utf8(data), spec_uploader_script())->Ok_0;
    vstd::utf8::encode_utf8_valid_utf8(page);
    vstd::utf8::encode_utf8_decode_utf8(page);
    crate::html::law_reinsert(vstd::utf8::decode_utf8(data), spec_uploader_script(), Seq::empty());
}

} // verus!
