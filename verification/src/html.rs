//! Injecting a fragment into the `<head>` of an uploaded HTML page.
use vstd::prelude::*;

use crate::text::{
    count_leading_ws, leading_ws, starts_with_at,
};

verus! {

/// The three fragments every page served with the uploader must begin with,
/// in order; only ASCII whitespace (a little of it) may stand before each one.
pub open spec fn html_prefix() -> Seq<Seq<char>> {
    seq![
        "<!DOCTYPE html>"@,
        "<html xmlns=\"http://www.w3.org/1999/xhtml\">"@,
        "<head>"@,
    ]
}

/// The fragments of [`html_prefix`] joined together.
pub open spec fn html_prefix_joined() -> Seq<char> {
    html_prefix()[0] + html_prefix()[1] + html_prefix()[2]
}

/// Fragment `i` of the required HTML prefix.
pub fn html_prefix_part(i: usize) -> (s: &'static str)
    requires
        i < 3,
    ensures
        s@ == html_prefix()[i as int],
{
    if i == 0 {
        "<!DOCTYPE html>"
    } else if i == 1 {
        "<html xmlns=\"http://www.w3.org/1999/xhtml\">"
    } else {
        "<head>"
    }
}

/// Why a page was refused by [`insert_html_header`].
#[derive(Debug, PartialEq, Eq)]
pub enum HeaderError {
    /// Eight or more whitespace characters stood before a prefix fragment.
    TooMuchWhitespace,
    /// Prefix fragment `expected` was missing; `got` is the text found in its place.
    Missing { expected: usize, got: String },
}

/// What [`insert_html_header`] gives for `data`, from prefix fragment `i` on:
/// the text left after all fragments were stripped, or the reason for refusal.
pub open spec fn strip_prefix_from(data: Seq<char>, i: nat) -> Result<Seq<char>, (nat, Seq<char>)>
    decreases 3 - i,
{
    if i >= 3 {
        Ok(data)
    } else {
        let n = leading_ws(data);
        let t = data.skip(n as int);
        if n >= 8 {
            // the text is not needed to explain this refusal
            Err((3, Seq::empty()))
        } else if html_prefix()[i as int].is_prefix_of(t) {
            strip_prefix_from(t.skip(html_prefix()[i as int].len() as int), i + 1)
        } else {
            Err((i, t))
        }
    }
}

/// The page with `head` injected right after `<head>`, or why it was refused.
/// A refusal `(3, _)` means too much whitespace; `(i, got)` with `i < 3` means
/// fragment `i` was missing and `got` stood in its place.
pub open spec fn spec_insert_html_header(data: Seq<char>, head: Seq<char>) -> Result<Seq<char>, (nat, Seq<char>)> {
    match strip_prefix_from(data, 0) {
        Ok(rest) => Ok(html_prefix_joined() + head + rest),
        Err(e) => Err(e),
    }
}

/// The refusal of the spec, as the library's error value.
pub open spec fn header_error_matches(e: HeaderError, spec_err: (nat, Seq<char>)) -> bool {
    match e {
        HeaderError::TooMuchWhitespace => spec_err.0 == 3,
        HeaderError::Missing { expected, got } => spec_err.0 == expected && expected < 3
            && got@ == spec_err.1,
    }
}

impl HeaderError {
    /// The message shown to a client whose page was refused.
    pub open spec fn spec_message(&self) -> Seq<char> {
        match self {
            HeaderError::TooMuchWhitespace => "too much whitespace"@,
            HeaderError::Missing { expected, got } =>
                "Missing "@ + html_prefix()[*expected as int] + " - got "@ + got@,
        }
    }

    /// The message shown to a client whose page was refused.
    pub fn message(&self) -> (s: String)
        requires
            self matches HeaderError::Missing { expected, .. } ==> expected < 3,
        ensures
            s@ == self.spec_message(),
    {
        match self {
            HeaderError::TooMuchWhitespace => String::from_str("too much whitespace"),
            HeaderError::Missing { expected, got } => {
                let mut s = String::from_str("Missing ");
                s.append(html_prefix_part(*expected));
                s.append(" - got ");
                s.append(got.as_str());
                s
            },
        }
    }
}

/// Injects `head` right after the `<head>` tag of `data`.
///
/// `data` must start with `<!DOCTYPE html>`, `<html xmlns="http://www.w3.org/1999/xhtml">`
/// and `<head>`, each preceded by fewer than eight ASCII whitespace characters.
pub fn insert_html_header(data: &str, head: &str) -> (res: Result<String, HeaderError>)
    ensures
        match spec_insert_html_header(data@, head@) {
            Ok(page) => res matches Ok(s) && s@ == page,
            Err(e) => res matches Err(err) && header_error_matches(err, e),
        },
{
    let len = data.unicode_len();
    let mut pos: usize = 0;
    let mut i: usize = 0;
    assert(data@.skip(0) == data@);
    while i < 3
        invariant
            i <= 3,
            pos <= len,
            len == data@.len(),
            strip_prefix_from(data@, 0) == strip_prefix_from(data@.skip(pos as int), i as nat),
        decreases 3 - i,
    {
        let n = count_leading_ws(data, pos);
        let ghost cur = data@.skip(pos as int);
        assert(data@.skip((pos + n) as int) == cur.skip(n as int));
        if n >= 8 {
            return Err(HeaderError::TooMuchWhitespace);
        }
        let el = html_prefix_part(i);
        if !starts_with_at(data, pos + n, el) {
            let got = data.substring_char(pos + n, len);
            assert(got@ == cur.skip(n as int));
            proof {
                let t = cur.skip(n as int);
                if html_prefix()[i as int].is_prefix_of(t) {
                    assert(data@.subrange((pos + n) as int, (pos + n + el@.len()) as int) =~= t.subrange(0, el@.len() as int));
                }
            }
            return Err(HeaderError::Missing { expected: i, got: String::from_str(got) });
        }
        proof {
            let t = cur.skip(n as int);
            assert(t.subrange(0, el@.len() as int) =~= data@.subrange((pos + n) as int, (pos + n + el@.len()) as int));
            assert(t.skip(el@.len() as int) =~= data@.skip((pos + n + el@.len()) as int));
        }
        pos = pos + n + el.unicode_len();
        i = i + 1;
    }
    let rest = data.substring_char(pos, len);
    assert(rest@ =~= data@.skip(pos as int));
    let mut out = String::from_str(html_prefix_part(0));
    out.append(html_prefix_part(1));
    out.append(html_prefix_part(2));
    out.append(head);
    out.append(rest);
    Ok(out)
}

// ---------------------------------------------------------------------------
// Laws

/// Every page the header was injected into starts with the required prefix.
pub proof fn law_inserted_page_starts_with_prefix(data: Seq<char>, head: Seq<char>)
    requires
        spec_insert_html_header(data, head) is Ok,
    ensures
        html_prefix_joined().is_prefix_of(spec_insert_html_header(data, head)->Ok_0),
{
    let page = spec_insert_html_header(data, head)->Ok_0;
    assert(page.subrange(0, html_prefix_joined().len() as int) =~= html_prefix_joined());
}

proof fn lemma_no_leading_ws_after_prefix_char(s: Seq<char>)
    requires
        s.len() > 0,
        s[0] == '<',
    ensures
        leading_ws(s) == 0,
{
    reveal_with_fuel(leading_ws, 2);
}

/// A page produced by [`insert_html_header`] is accepted again, and a second
/// injection places the new fragment in front of the first one.
pub proof fn law_reinsert(data: Seq<char>, h1: Seq<char>, h2: Seq<char>)
    requires
        spec_insert_html_header(data, h1) is Ok,
    ensures
        spec_insert_html_header(spec_insert_html_header(data, h1)->Ok_0, h2) == Ok::<Seq<char>, (nat, Seq<char>)>(
            html_prefix_joined() + h2 + h1 + strip_prefix_from(data, 0)->Ok_0,
        ),
{
    reveal_strlit("<!DOCTYPE html>");
    reveal_strlit("<html xmlns=\"http://www.w3.org/1999/xhtml\">");
    reveal_strlit("<head>");
    let rest = strip_prefix_from(data, 0)->Ok_0;
    let p0 = html_prefix()[0];
    let p1 = html_prefix()[1];
    let p2 = html_prefix()[2];
    let page = p0 + p1 + p2 + h1 + rest;
    assert(spec_insert_html_header(data, h1)->Ok_0 == page) by {
        assert(html_prefix_joined() + h1 + rest =~= page);
    }
    // step 0
    lemma_no_leading_ws_after_prefix_char(page);
    assert(page.skip(0) =~= page);
    assert(p0.is_prefix_of(page)) by {
        assert(page.subrange(0, p0.len() as int) =~= p0);
    }
    let s1 = page.skip(p0.len() as int);
    assert(s1 =~= p1 + p2 + h1 + rest);
    lemma_no_leading_ws_after_prefix_char(s1);
    assert(s1.skip(0) =~= s1);
    assert(p1.is_prefix_of(s1)) by {
        assert(s1.subrange(0, p1.len() as int) =~= p1);
    }
    let s2 = s1.skip(p1.len() as int);
    assert(s2 =~= p2 + h1 + rest);
    lemma_no_leading_ws_after_prefix_char(s2);
    assert(s2.skip(0) =~= s2);
    assert(p2.is_prefix_of(s2)) by {
        assert(s2.subrange(0, p2.len() as int) =~= p2);
    }
    let s3 = s2.skip(p2.len() as int);
    assert(s3 =~= h1 + rest);
    assert(strip_prefix_from(s3, 3) == Ok::<Seq<char>, (nat, Seq<char>)>(s3));
    assert(strip_prefix_from(s2, 2) == Ok::<Seq<char>, (nat, Seq<char>)>(s3));
    assert(strip_prefix_from(s1, 1) == Ok::<Seq<char>, (nat, Seq<char>)>(s3));
    assert(strip_prefix_from(page, 0) == Ok::<Seq<char>, (nat, Seq<char>)>(s3));
    assert(html_prefix_joined() + h2 + s3 =~= html_prefix_joined() + h2 + h1 + rest);
}

} // verus!
