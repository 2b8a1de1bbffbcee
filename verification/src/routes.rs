//! The routes the site answers, and the fixed answer for the icon.
use vstd::prelude::*;

verus! {

/// The HTTP method of a route.
#[derive(Debug, Copy, Clone, PartialEq, Eq, Structural)]
pub enum Method {
    Get,
    Post,
}

/// A route: its handler's name, method, URI pattern, rank (when one is
/// given; rocket picks one from the pattern otherwise) and accepted format.
#[derive(Debug, Copy, Clone)]
pub struct RouteSpec {
    pub name: &'static str,
    pub method: Method,
    pub uri: &'static str,
    pub rank: Option<i32>,
    pub format: Option<&'static str>,
}

/// The mathematical value of a [`RouteSpec`].
pub struct RouteV {
    pub name: Seq<char>,
    pub method: Method,
    pub uri: Seq<char>,
    pub rank: Option<int>,
    pub format: Option<Seq<char>>,
}

impl View for RouteSpec {
    type V = RouteV;

    open spec fn view(&self) -> RouteV {
        RouteV {
            name: self.name@,
            method: self.method,
            uri: self.uri@,
            rank: match self.rank {
                Some(r) => Some(r as int),
                None => None,
            },
            format: match self.format {
                Some(f) => Some(f@),
                None => None,
            },
        }
    }
}

/// A route as a value.
pub open spec fn route(name: &str, method: Method, uri: &str, rank: Option<int>, format: Option<Seq<char>>) -> RouteV {
    RouteV { name: name@, method, uri: uri@, rank, format }
}

/// The routes of the site, in the order they are mounted.
pub open spec fn route_table() -> Seq<RouteV> {
    seq![
        route("index", Method::Get, "/<_ipath..>", Some(12), Some("text/html"@)),
        route("favicon", Method::Get, "/favicon.ico", Some(0), None),
        route("eval", Method::Post, "/eval?<hash>", None, None),
        route("get_all", Method::Get, "/<_..>?pkts", Some(3), None),
        route("view_plain", Method::Get, "/<_..>", Some(110), None),
        route("view_with_upload", Method::Get, "/<_..>?uploader", Some(100), None),
        route("view_any", Method::Get, "/<ipath..>?<hash>", Some(199), None),
        route("alts", Method::Get, "/<ipath..>?alts&<hash>", Some(2), None),
        route("save", Method::Post, "/<ipath..>?data", Some(301), None),
        route("save_pkts", Method::Post, "/<ipath..>?pkts", Some(300), Some("bytes"@)),
        route("quarantine", Method::Get, "/<hash>?<back>", Some(201), None),
        route("quarantine_blob", Method::Get, "/<hash>?pkts", Some(200), None),
        route("vouch", Method::Post, "/vouch/<hash>", None, None),
        route("preview", Method::Get, "/<ipath..>?preview&<hash>&<unsafe>", None, None),
        route("query_json", Method::Get, "/<_ipath..>", Some(11), Some("application/json"@)),
        route("query_html", Method::Get, "/<_ipath..>", Some(10), Some("text/html"@)),
    ]
}

fn rs(name: &'static str, method: Method, uri: &'static str, rank: Option<i32>, format: Option<&'static str>) -> (r: RouteSpec)
    ensures
        r@ == route(name, method, uri, match rank {
            Some(x) => Some(x as int),
            None => None,
        }, match format {
            Some(f) => Some(f@),
            None => None,
        }),
{
    RouteSpec { name, method, uri, rank, format }
}

/// The routes of the site, in the order they are mounted.
pub fn routes() -> (r: Vec<RouteSpec>)
    ensures
        r@.map_values(|x: RouteSpec| x@) == route_table(),
{
    let mut r: Vec<RouteSpec> = Vec::new();
    r.push(rs("index", Method::Get, "/<_ipath..>", Some(12), Some("text/html")));
    r.push(rs("favicon", Method::Get, "/favicon.ico", Some(0), None));
    r.push(rs("eval", Method::Post, "/eval?<hash>", None, None));
    r.push(rs("get_all", Method::Get, "/<_..>?pkts", Some(3), None));
    r.push(rs("view_plain", Method::Get, "/<_..>", Some(110), None));
    r.push(rs("view_with_upload", Method::Get, "/<_..>?uploader", Some(100), None));
    r.push(rs("view_any", Method::Get, "/<ipath..>?<hash>", Some(199), None));
    r.push(rs("alts", Method::Get, "/<ipath..>?alts&<hash>", Some(2), None));
    r.push(rs("save", Method::Post, "/<ipath..>?data", Some(301), None));
    r.push(rs("save_pkts", Method::Post, "/<ipath..>?pkts", Some(300), Some("bytes")));
    r.push(rs("quarantine", Method::Get, "/<hash>?<back>", Some(201), None));
    r.push(rs("quarantine_blob", Method::Get, "/<hash>?pkts", Some(200), None));
    r.push(rs("vouch", Method::Post, "/vouch/<hash>", None, None));
    r.push(rs("preview", Method::Get, "/<ipath..>?preview&<hash>&<unsafe>", None, None));
    r.push(rs("query_json", Method::Get, "/<_ipath..>", Some(11), Some("application/json")));
    r.push(rs("query_html", Method::Get, "/<_ipath..>", Some(10), Some("text/html")));
    assert(r@.map_values(|x: RouteSpec| x@) =~= route_table());
    r
}

/// No two routes are given the same rank, so rocket never has to choose
/// between two routes of equal rank that match the same request.
pub proof fn law_ranks_distinct()
    ensures
        forall|i: int, j: int| 0 <= i < j < route_table().len()
            && (#[trigger] route_table()[i]).rank is Some && (#[trigger] route_table()[j]).rank is Some
            ==> route_table()[i].rank != route_table()[j].rank,
{
}

/// The answer for `/favicon.ico`: the icon's media type and the file it is read from.
pub fn favicon() -> (r: (&'static str, &'static str))
    ensures
        r.0@ == "image/x-icon"@,
        r.1@ == "favicon.ico"@,
{
    ("image/x-icon", "favicon.ico")
}

} // verus!
