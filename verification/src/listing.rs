//! Listing the points that match a request, as HTML or as JSON.
use vstd::prelude::*;

use crate::hash::{url_safe_b64_encode, B64b32};
use crate::path::{comps_view, ipath_uri_display, spec_uri_display};
use crate::text::{decimal, spec_decimal};

verus! {

/// What a listing shows of one point.
pub struct ListEntry {
    /// The point's hash.
    pub hash: B64b32,
    /// The short form of the hash that linkspace writes.
    pub hash_mini: String,
    /// The create stamp, in microseconds.
    pub create: u64,
    /// The create stamp as linkspace writes it.
    pub create_text: String,
    /// How long ago the point was made, as linkspace's `[create/s:delta]`
    /// writes it; `None` when that is not UTF-8 text.
    pub delta: Option<String>,
    /// The point's path, if it has one.
    pub path: Option<Vec<Vec<u8>>>,
    /// The point's public key and its short form, if it is signed.
    pub pubkey: Option<(B64b32, String)>,
}

/// The mathematical value of a [`ListEntry`].
pub struct ListEntryV {
    pub hash: Seq<u8>,
    pub hash_mini: Seq<char>,
    pub create: u64,
    pub create_text: Seq<char>,
    pub delta: Option<Seq<char>>,
    pub path: Option<Seq<Seq<u8>>>,
    pub pubkey: Option<(Seq<u8>, Seq<char>)>,
}

impl View for ListEntry {
    type V = ListEntryV;

    open spec fn view(&self) -> ListEntryV {
        ListEntryV {
            hash: self.hash.0@,
            hash_mini: self.hash_mini@,
            create: self.create,
            create_text: self.create_text@,
            delta: match self.delta {
                Some(d) => Some(d@),
                None => None,
            },
            path: match self.path {
                Some(p) => Some(comps_view(p@)),
                None => None,
            },
            pubkey: match self.pubkey {
                Some((k, m)) => Some((k.0@, m@)),
                None => None,
            },
        }
    }
}

/// The entries as values.
pub open spec fn entries_view(e: Seq<ListEntry>) -> Seq<ListEntryV> {
    e.map_values(|x: ListEntry| x@)
}

/// The text of an optional path in a listing (empty when it cannot be written).
pub open spec fn path_text(p: Option<Seq<Seq<u8>>>) -> Seq<char> {
    match p {
        Some(p) => match spec_uri_display(p) {
            Some(s) => s,
            None => Seq::empty(),
        },
        None => Seq::empty(),
    }
}

/// One line of the HTML listing.
pub open spec fn spec_html_item(e: ListEntryV) -> Seq<char> {
    let pathname = path_text(e.path);
    let hash = url_safe_b64_encode(e.hash);
    let href = "href=\""@ + pathname + "?hash="@ + hash + "\""@;
    let delta = match e.delta {
        Some(d) => d,
        None => "???"@,
    };
    let pubkey_attr = match e.pubkey {
        Some((k, _)) => "pubkey=\""@ + url_safe_b64_encode(k) + "\""@,
        None => Seq::empty(),
    };
    let pubkey_str = match e.pubkey {
        Some((_, m)) => " -- &( "@ + m + " )"@,
        None => Seq::empty(),
    };
    "<li><a "@ + href + " "@ + pubkey_attr + " create=\""@ + spec_decimal(e.create as nat) + "\">"@
        + pathname + " "@ + e.hash_mini + " "@ + delta + " "@ + pubkey_str + " </a></li>"@
}

/// The lines of the HTML listing, in order.
pub open spec fn spec_html_items(es: Seq<ListEntryV>) -> Seq<char>
    decreases es.len(),
{
    if es.len() == 0 {
        Seq::empty()
    } else {
        spec_html_items(es.drop_last()) + spec_html_item(es.last())
    }
}

/// The HTML listing: an ordered list with one line per point.
pub open spec fn spec_query2html(es: Seq<ListEntryV>) -> Seq<char> {
    "<ol>"@ + spec_html_items(es) + "</ol>"@
}

/// One object of the JSON listing, with the comma that follows it.
pub open spec fn spec_json_item(e: ListEntryV) -> Seq<char> {
    let hash = " \"hash\":\""@ + url_safe_b64_encode(e.hash) + "\""@;
    let create = " \"create\":\""@ + e.create_text + "\""@;
    let pubkey = match e.pubkey {
        Some((k, _)) => ", \"pubkey\":\""@ + url_safe_b64_encode(k) + "\""@,
        None => Seq::empty(),
    };
    let p = match e.path {
        Some(p) => p,
        None => Seq::empty(),
    };
    let path = match spec_uri_display(p) {
        Some(s) => ", \"path\":\""@ + s + "\""@,
        None => Seq::empty(),
    };
    "{ "@ + hash + ","@ + create + " "@ + pubkey + " "@ + path + " },"@
}

/// The objects of the JSON listing, in order.
pub open spec fn spec_json_items(es: Seq<ListEntryV>) -> Seq<char>
    decreases es.len(),
{
    if es.len() == 0 {
        Seq::empty()
    } else {
        spec_json_items(es.drop_last()) + spec_json_item(es.last())
    }
}

/// The JSON listing: `[ `, the objects, the last character dropped (the
/// comma after the last object, or the space when there is none), and `]`.
pub open spec fn spec_query2json(es: Seq<ListEntryV>) -> Seq<char> {
    ("[ "@ + spec_json_items(es)).drop_last() + "]"@
}

/// The text of a path in a listing (empty when it cannot be written).
fn path_text_exec(p: &Option<Vec<Vec<u8>>>) -> (s: String)
    ensures
        s@ == path_text(match p {
            Some(p) => Some(comps_view(p@)),
            None => None,
        }),
{
    proof {
        reveal_strlit("");
    }
    match p {
        Some(p) => match ipath_uri_display(p) {
            Some(s) => s,
            None => String::new(),
        },
        None => String::new(),
    }
}

/// One line of the HTML listing.
#[verifier::spinoff_prover]
#[verifier::rlimit(40)]
pub fn html_item(e: &ListEntry) -> (s: String)
    ensures
        s@ == spec_html_item(e@),
{
    proof {
        reveal_strlit("");
    }
    let pathname = path_text_exec(&e.path);
    let hash = e.hash.b64();
    let mut s = String::from_str("<li><a ");
    s.append("href=\"");
    s.append(pathname.as_str());
    s.append("?hash=");
    s.append(hash.as_str());
    s.append("\"");
    s.append(" ");
    match &e.pubkey {
        Some((k, _)) => {
            let kt = k.b64();
            s.append("pubkey=\"");
            s.append(kt.as_str());
            s.append("\"");
        },
        None => {},
    }
    s.append(" create=\"");
    let c = decimal(e.create);
    s.append(c.as_str());
    s.append("\">");
    s.append(pathname.as_str());
    s.append(" ");
    s.append(e.hash_mini.as_str());
    s.append(" ");
    match &e.delta {
        Some(d) => s.append(d.as_str()),
        None => s.append("???"),
    }
    s.append(" ");
    match &e.pubkey {
        Some((_, m)) => {
            s.append(" -- &( ");
            s.append(m.as_str());
            s.append(" )");
        },
        None => {},
    }
    s.append(" </a></li>");
    proof {
        let ev = e@;
        let pubkey_attr = match ev.pubkey {
            Some((k, _)) => "pubkey=\""@ + url_safe_b64_encode(k) + "\""@,
            None => Seq::<char>::empty(),
        };
        let pubkey_str = match ev.pubkey {
            Some((_, m)) => " -- &( "@ + m + " )"@,
            None => Seq::<char>::empty(),
        };
        let delta = match ev.delta {
            Some(d) => d,
            None => "???"@,
        };
        let href = "href=\""@ + pathname@ + "?hash="@ + hash@ + "\""@;
        assert(s@ =~= "<li><a "@ + href + " "@ + pubkey_attr + " create=\""@ + c@ + "\">"@
            + pathname@ + " "@ + ev.hash_mini + " "@ + delta + " "@ + pubkey_str + " </a></li>"@);
    }
    s
}

/// Lists the points as an ordered HTML list.
pub fn query2html(entries: &Vec<ListEntry>) -> (s: String)
    ensures
        s@ == spec_query2html(entries_view(entries@)),
{
    let mut s = String::from_str("<ol>");
    let mut i: usize = 0;
    assert(entries_view(entries@).subrange(0, 0) =~= Seq::<ListEntryV>::empty());
    while i < entries.len()
        invariant
            i <= entries@.len(),
            s@ == "<ol>"@ + spec_html_items(entries_view(entries@).subrange(0, i as int)),
        decreases entries@.len() - i,
    {
        let ghost sub = entries_view(entries@).subrange(0, i as int + 1);
        assert(sub.drop_last() =~= entries_view(entries@).subrange(0, i as int));
        assert(sub.last() == entries@[i as int]@);
        let item = html_item(&entries[i]);
        let ghost before = s@;
        s.append(item.as_str());
        assert(s@ =~= "<ol>"@ + spec_html_items(sub));
        i = i + 1;
    }
    assert(entries_view(entries@).subrange(0, entries@.len() as int) =~= entries_view(entries@));
    s.append("</ol>");
    s
}

/// One object of the JSON listing, with the comma that follows it.
pub fn json_item(e: &ListEntry) -> (s: String)
    ensures
        s@ == spec_json_item(e@),
{
    proof {
        reveal_strlit("");
    }
    let mut s = String::from_str("{ ");
    let hash = e.hash.b64();
    s.append(" \"hash\":\"");
    s.append(hash.as_str());
    s.append("\"");
    s.append(",");
    s.append(" \"create\":\"");
    s.append(e.create_text.as_str());
    s.append("\"");
    s.append(" ");
    match &e.pubkey {
        Some((k, _)) => {
            let kt = k.b64();
            s.append(", \"pubkey\":\"");
            s.append(kt.as_str());
            s.append("\"");
        },
        None => {},
    }
    s.append(" ");
    let empty: Vec<Vec<u8>> = Vec::new();
    let p: &Vec<Vec<u8>> = match &e.path {
        Some(p) => p,
        None => &empty,
    };
    assert(comps_view(empty@) =~= Seq::<Seq<u8>>::empty());
    match ipath_uri_display(p) {
        Some(t) => {
            s.append(", \"path\":\"");
            s.append(t.as_str());
            s.append("\"");
        },
        None => {},
    }
    s.append(" },");
    proof {
        let ev = e@;
        let pubkey = match ev.pubkey {
            Some((k, _)) => ", \"pubkey\":\""@ + url_safe_b64_encode(k) + "\""@,
            None => Seq::<char>::empty(),
        };
        let pv = match ev.path {
            Some(p) => p,
            None => Seq::<Seq<u8>>::empty(),
        };
        let path = match spec_uri_display(pv) {
            Some(t) => ", \"path\":\""@ + t + "\""@,
            None => Seq::<char>::empty(),
        };
        let h = " \"hash\":\""@ + url_safe_b64_encode(ev.hash) + "\""@;
        let c = " \"create\":\""@ + ev.create_text + "\""@;
        assert(s@ =~= "{ "@ + h + ","@ + c + " "@ + pubkey + " "@ + path + " },"@);
    }
    s
}

/// Removes the last character of `s`.
fn drop_last_char(s: String) -> (r: String)
    requires
        s@.len() > 0,
    ensures
        r@ == s@.drop_last(),
{
    let n = s.as_str().unicode_len();
    let t = s.as_str().substring_char(0, n - 1);
    String::from_str(t)
}

/// Lists the points as a JSON array of objects.
pub fn query2json(entries: &Vec<ListEntry>) -> (s: String)
    ensures
        s@ == spec_query2json(entries_view(entries@)),
{
    proof {
        reveal_strlit("[ ");
    }
    let mut s = String::from_str("[ ");
    let mut i: usize = 0;
    assert(entries_view(entries@).subrange(0, 0) =~= Seq::<ListEntryV>::empty());
    while i < entries.len()
        invariant
            i <= entries@.len(),
            s@ == "[ "@ + spec_json_items(entries_view(entries@).subrange(0, i as int)),
        decreases entries@.len() - i,
    {
        let ghost sub = entries_view(entries@).subrange(0, i as int + 1);
        assert(sub.drop_last() =~= entries_view(entries@).subrange(0, i as int));
        assert(sub.last() == entries@[i as int]@);
        let item = json_item(&entries[i]);
        s.append(item.as_str());
        assert(s@ =~= "[ "@ + spec_json_items(sub));
        i = i + 1;
    }
    assert(entries_view(entries@).subrange(0, entries@.len() as int) =~= entries_view(entries@));
    let mut s = drop_last_char(s);
    s.append("]");
    s
}

/// The `pubkey` field a signed point has in the JSON listing.
pub open spec fn json_pubkey_field(key: Seq<u8>) -> Seq<char> {
    ", \"pubkey\":\""@ + url_safe_b64_encode(key) + "\""@
}

/// In the JSON listing, a signed point's `pubkey` field holds the URL-safe
/// base64 text of its full public key (not the short form).
pub proof fn law_json_pubkey_is_full_key(e: ListEntryV)
    ensures
        e.pubkey matches Some((k, m)) ==> exists|a: int| 0 <= a <= spec_json_item(e).len() - json_pubkey_field(k).len()
            && #[trigger] spec_json_item(e).subrange(a, a + json_pubkey_field(k).len()) == json_pubkey_field(k),
{
    if let Some((k, m)) = e.pubkey {
        let t = json_pubkey_field(k);
        let head = "{ "@ + (" \"hash\":\""@ + url_safe_b64_encode(e.hash) + "\""@) + ","@
            + (" \"create\":\""@ + e.create_text + "\""@) + " "@;
        let item = spec_json_item(e);
        let tail = item.subrange((head.len() + t.len()) as int, item.len() as int);
        assert(item =~= head + t + tail);
        let a = head.len() as int;
        assert(item.subrange(a, a + t.len()) =~= t);
    }
}

/// The `pubkey` attribute a signed point's link has in the HTML listing.
pub open spec fn html_pubkey_attr(key: Seq<u8>) -> Seq<char> {
    "pubkey=\""@ + url_safe_b64_encode(key) + "\""@
}

/// In the HTML listing, a signed point's link carries the URL-safe base64
/// text of its full public key in its `pubkey` attribute.
pub proof fn law_html_pubkey_is_full_key(e: ListEntryV)
    ensures
        e.pubkey matches Some((k, m)) ==> exists|a: int| 0 <= a <= spec_html_item(e).len() - html_pubkey_attr(k).len()
            && #[trigger] spec_html_item(e).subrange(a, a + html_pubkey_attr(k).len()) == html_pubkey_attr(k),
{
    if let Some((k, m)) = e.pubkey {
        let t = html_pubkey_attr(k);
        let pathname = path_text(e.path);
        let href = "href=\""@ + pathname + "?hash="@ + url_safe_b64_encode(e.hash) + "\""@;
        let head = "<li><a "@ + href + " "@;
        let item = spec_html_item(e);
        let tail = item.subrange((head.len() + t.len()) as int, item.len() as int);
        assert(item =~= head + t + tail);
        let a = head.len() as int;
        assert(item.subrange(a, a + t.len()) =~= t);
    }
}

/// An empty listing is `[]` in JSON and an empty list in HTML.
pub proof fn law_empty_listing()
    ensures
        spec_query2json(Seq::empty()) == "[]"@,
        spec_query2html(Seq::empty()) == "<ol>"@ + "</ol>"@,
{
    reveal_strlit("[ ");
    reveal_strlit("]");
    reveal_strlit("[]");
    assert(("[ "@ + spec_json_items(Seq::empty())).drop_last() + "]"@ =~= "[]"@);
    assert("<ol>"@ + spec_html_items(Seq::empty()) =~= "<ol>"@);
}

/// A JSON listing of at least one point is `[ `, the objects joined by
/// commas (each object then reads `{ ... }`), and `]`: the comma after the
/// last object is the character dropped.
pub proof fn law_json_drops_trailing_comma(es: Seq<ListEntryV>)
    requires
        es.len() > 0,
    ensures
        spec_query2json(es) == "[ "@ + spec_json_items(es.drop_last())
            + spec_json_item(es.last()).drop_last() + "]"@,
        spec_json_item(es.last()).last() == ',',
{
    reveal_strlit(" },");
    let it = spec_json_item(es.last());
    assert(("[ "@ + spec_json_items(es)).drop_last() =~= "[ "@ + spec_json_items(es.drop_last()) + it.drop_last());
}

} // verus!
