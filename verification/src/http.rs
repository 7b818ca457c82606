//! The requests and responses that the middleware sees, as plain values.
use vstd::prelude::*;
use crate::text::{eq_ignore_ascii_case, same_ignoring_ascii_case};

verus! {

/// A header list seen as plain text pairs.
pub open spec fn headers_view(hs: Seq<(String, String)>) -> Seq<(Seq<char>, Seq<char>)> {
    hs.map_values(|h: (String, String)| (h.0@, h.1@))
}

/// The value of the first header named `name` (letter case aside).
pub open spec fn header_value(hs: Seq<(Seq<char>, Seq<char>)>, name: Seq<char>) -> Option<Seq<char>>
    decreases hs.len(),
{
    if hs.len() == 0 {
        None
    } else if same_ignoring_ascii_case(hs[0].0, name) {
        Some(hs[0].1)
    } else {
        header_value(hs.drop_first(), name)
    }
}

/// `hs` without the headers named `name` (letter case aside).
pub open spec fn without_header(hs: Seq<(Seq<char>, Seq<char>)>, name: Seq<char>) -> Seq<(Seq<char>, Seq<char>)>
    decreases hs.len(),
{
    if hs.len() == 0 {
        seq![]
    } else if same_ignoring_ascii_case(hs.last().0, name) {
        without_header(hs.drop_last(), name)
    } else {
        without_header(hs.drop_last(), name).push(hs.last())
    }
}

/// `hs` with `name` set to `value`: other headers of that name go and the
/// new one comes last.
pub open spec fn with_header_set(
    hs: Seq<(Seq<char>, Seq<char>)>,
    name: Seq<char>,
    value: Seq<char>,
) -> Seq<(Seq<char>, Seq<char>)> {
    without_header(hs, name).push((name, value))
}

fn lookup(hs: &Vec<(String, String)>, name: &str) -> (r: Option<String>)
    ensures
        match r {
            Some(v) => header_value(headers_view(hs@), name@) == Some(v@),
            None => header_value(headers_view(hs@), name@) is None,
        },
{
    let ghost all = headers_view(hs@);
    let mut i: usize = 0;
    proof {
        assert(all.skip(0) =~= all);
    }
    while i < hs.len()
        invariant
            i <= hs.len(),
            all == headers_view(hs@),
            header_value(all, name@) == header_value(all.skip(i as int), name@),
        decreases hs.len() - i,
    {
        proof {
            assert(all.skip(i as int)[0] == all[i as int]);
            assert(all.skip(i as int).drop_first() =~= all.skip(i + 1));
        }
        if eq_ignore_ascii_case(hs[i].0.as_str(), name) {
            return Some(hs[i].1.clone());
        }
        i = i + 1;
    }
    None
}

fn set_in(hs: &mut Vec<(String, String)>, name: &str, value: &str)
    ensures
        headers_view(final(hs)@) == with_header_set(headers_view(old(hs)@), name@, value@),
{
    broadcast use vstd::string::group_string_axioms;
    let ghost all = headers_view(hs@);
    let mut out: Vec<(String, String)> = Vec::new();
    let mut i: usize = 0;
    proof {
        assert(all.take(0) =~= Seq::<(Seq<char>, Seq<char>)>::empty());
        assert(headers_view(out@) =~= Seq::<(Seq<char>, Seq<char>)>::empty());
    }
    while i < hs.len()
        invariant
            i <= hs.len(),
            all == headers_view(hs@),
            headers_view(out@) == without_header(all.take(i as int), name@),
        decreases hs.len() - i,
    {
        proof {
            assert(all.take(i + 1).drop_last() =~= all.take(i as int));
            assert(all.take(i + 1).last() == all[i as int]);
        }
        if !eq_ignore_ascii_case(hs[i].0.as_str(), name) {
            let h = (hs[i].0.clone(), hs[i].1.clone());
            proof {
                assert(headers_view(out@.push(h)) =~= headers_view(out@).push(all[i as int]));
            }
            out.push(h);
        }
        i = i + 1;
    }
    proof {
        assert(all.take(i as int) =~= all);
    }
    let h = (name.to_string(), value.to_string());
    proof {
        assert(headers_view(out@.push(h)) =~= headers_view(out@).push((name@, value@)));
    }
    out.push(h);
    *hs = out;
}

/// An incoming request: its path and its headers.
pub struct Request {
    pub path: String,
    pub headers: Vec<(String, String)>,
}

impl Request {
    /// The value of the first header named `name`, letter case aside.
    pub fn header(&self, name: &str) -> (r: Option<String>)
        ensures
            match r {
                Some(v) => header_value(headers_view(self.headers@), name@) == Some(v@),
                None => header_value(headers_view(self.headers@), name@) is None,
            },
    {
        lookup(&self.headers, name)
    }
}

/// An outgoing response: status code, headers and body text.
pub struct Response {
    pub status: u16,
    pub headers: Vec<(String, String)>,
    pub body: String,
}

/// A response as plain values.
pub struct ResponseView {
    pub status: u16,
    pub headers: Seq<(Seq<char>, Seq<char>)>,
    pub body: Seq<char>,
}

/// The media type of JSON bodies.
pub open spec fn json_media_type() -> Seq<char> {
    "application/json"@
}

/// The media type of HTML bodies.
pub open spec fn html_media_type() -> Seq<char> {
    "text/html; charset=utf-8"@
}

/// The media type of plain text bodies.
pub open spec fn text_media_type() -> Seq<char> {
    "text/plain; charset=utf-8"@
}

/// A `200` response holding `body` as content of type `media`.
pub open spec fn ok_with(media: Seq<char>, body: Seq<char>) -> ResponseView {
    ResponseView { status: 200, headers: seq![("content-type"@, media)], body }
}

impl Response {
    pub open spec fn view(&self) -> ResponseView {
        ResponseView { status: self.status, headers: headers_view(self.headers@), body: self.body@ }
    }

    /// An empty response with status `status`.
    pub fn new(status: u16) -> (r: Response)
        ensures
            r.view() == (ResponseView { status, headers: seq![], body: seq![] }),
    {
        let r = Response { status, headers: Vec::new(), body: String::new() };
        proof {
            assert(headers_view(r.headers@) =~= Seq::<(Seq<char>, Seq<char>)>::empty());
        }
        r
    }

    fn with_type(media: &str, body: String) -> (r: Response)
        ensures
            r.view() == ok_with(media@, body@),
    {
        broadcast use vstd::string::group_string_axioms;
        let mut headers: Vec<(String, String)> = Vec::new();
        headers.push(("content-type".to_string(), media.to_string()));
        let r = Response { status: 200, headers, body };
        proof {
            assert(headers_view(r.headers@) =~= seq![("content-type"@, media@)]);
        }
        r
    }

    /// A `200` response with a JSON body.
    pub fn json(body: String) -> (r: Response)
        ensures
            r.view() == ok_with(json_media_type(), body@),
    {
        Response::with_type("application/json", body)
    }

    /// A `200` response with an HTML body.
    pub fn html(body: &str) -> (r: Response)
        ensures
            r.view() == ok_with(html_media_type(), body@),
    {
        broadcast use vstd::string::group_string_axioms;
        Response::with_type("text/html; charset=utf-8", body.to_string())
    }

    /// A `200` response with a plain text body.
    pub fn text(body: &str) -> (r: Response)
        ensures
            r.view() == ok_with(text_media_type(), body@),
    {
        broadcast use vstd::string::group_string_axioms;
        Response::with_type("text/plain; charset=utf-8", body.to_string())
    }

    /// This response with header `name` set to `value`.
    pub fn with_header(self, name: &str, value: &str) -> (r: Response)
        ensures
            r.view() == (ResponseView {
                headers: with_header_set(self.view().headers, name@, value@),
                ..self.view()
            }),
    {
        let mut r = self;
        set_in(&mut r.headers, name, value);
        r
    }

    /// Sets header `name` to `value`.
    pub fn set_header(&mut self, name: &str, value: &str)
        ensures
            final(self).view() == (ResponseView {
                headers: with_header_set(old(self).view().headers, name@, value@),
                ..old(self).view()
            }),
    {
        set_in(&mut self.headers, name, value);
    }

    /// The value of the first header named `name`, letter case aside.
    pub fn header(&self, name: &str) -> (r: Option<String>)
        ensures
            match r {
                Some(v) => header_value(self.view().headers, name@) == Some(v@),
                None => header_value(self.view().headers, name@) is None,
            },
    {
        lookup(&self.headers, name)
    }

    /// The body text.
    pub fn body_str(&self) -> (r: &str)
        ensures
            r@ == self.body@,
    {
        self.body.as_str()
    }

    /// Whether the status is a redirection (3xx).
    pub fn is_redirection(&self) -> (r: bool)
        ensures
            r == (300 <= self.status < 400),
    {
        self.status >= 300 && self.status < 400
    }
}

/// The header just set is the one read back.
pub proof fn law_header_set_then_read(hs: Seq<(Seq<char>, Seq<char>)>, name: Seq<char>, value: Seq<char>)
    ensures
        header_value(with_header_set(hs, name, value), name) == Some(value),
    decreases hs.len(),
{
    lemma_without_header_lookup(hs, name);
    lemma_header_value_push(without_header(hs, name), name, name, value);
    assert(same_ignoring_ascii_case(name, name));
}

/// Setting a header leaves every header of another name as it was.
pub proof fn law_header_set_keeps_others(
    hs: Seq<(Seq<char>, Seq<char>)>,
    name: Seq<char>,
    value: Seq<char>,
    other: Seq<char>,
)
    requires
        !same_ignoring_ascii_case(name, other),
    ensures
        header_value(with_header_set(hs, name, value), other) == header_value(hs, other),
{
    lemma_without_header_keeps(hs, name, other);
    lemma_header_value_push(without_header(hs, name), other, name, value);
}

proof fn lemma_same_case_symmetric(a: Seq<char>, b: Seq<char>)
    ensures
        same_ignoring_ascii_case(a, b) == same_ignoring_ascii_case(b, a),
{
}

proof fn lemma_same_case_transitive(a: Seq<char>, b: Seq<char>, c: Seq<char>)
    requires
        same_ignoring_ascii_case(a, b),
        same_ignoring_ascii_case(b, c),
    ensures
        same_ignoring_ascii_case(a, c),
{
    assert forall|i: int| 0 <= i < a.len() implies crate::text::ascii_lower(#[trigger] a[i])
        == crate::text::ascii_lower(c[i]) by {
        assert(crate::text::ascii_lower(a[i]) == crate::text::ascii_lower(b[i]));
        assert(crate::text::ascii_lower(b[i]) == crate::text::ascii_lower(c[i]));
    }
}

proof fn lemma_header_value_push(
    hs: Seq<(Seq<char>, Seq<char>)>,
    name: Seq<char>,
    k: Seq<char>,
    v: Seq<char>,
)
    ensures
        header_value(hs.push((k, v)), name) == if header_value(hs, name) is Some {
            header_value(hs, name)
        } else if same_ignoring_ascii_case(k, name) {
            Some(v)
        } else {
            None
        },
    decreases hs.len(),
{
    if hs.len() > 0 {
        assert(hs.push((k, v))[0] == hs[0]);
        assert(hs.push((k, v)).drop_first() =~= hs.drop_first().push((k, v)));
        lemma_header_value_push(hs.drop_first(), name, k, v);
    } else {
        assert(hs.push((k, v))[0] == (k, v));
        assert(hs.push((k, v)).drop_first() =~= Seq::<(Seq<char>, Seq<char>)>::empty());
        assert(header_value(Seq::<(Seq<char>, Seq<char>)>::empty(), name) is None);
    }
}

proof fn lemma_without_header_lookup(hs: Seq<(Seq<char>, Seq<char>)>, name: Seq<char>)
    ensures
        header_value(without_header(hs, name), name) is None,
    decreases hs.len(),
{
    if hs.len() > 0 {
        lemma_without_header_lookup(hs.drop_last(), name);
        if !same_ignoring_ascii_case(hs.last().0, name) {
            lemma_header_value_push(without_header(hs.drop_last(), name), name, hs.last().0, hs.last().1);
        }
    }
}

proof fn lemma_header_value_drop_last(hs: Seq<(Seq<char>, Seq<char>)>, name: Seq<char>)
    requires
        hs.len() > 0,
    ensures
        header_value(hs, name) == header_value(hs.drop_last().push(hs.last()), name),
{
    assert(hs.drop_last().push(hs.last()) =~= hs);
}

proof fn lemma_without_header_keeps(hs: Seq<(Seq<char>, Seq<char>)>, name: Seq<char>, other: Seq<char>)
    requires
        !same_ignoring_ascii_case(name, other),
    ensures
        header_value(without_header(hs, name), other) == header_value(hs, other),
    decreases hs.len(),
{
    if hs.len() > 0 {
        let d = hs.drop_last();
        lemma_without_header_keeps(d, name, other);
        lemma_header_value_drop_last(hs, other);
        lemma_header_value_push(d, other, hs.last().0, hs.last().1);
        if same_ignoring_ascii_case(hs.last().0, name) {
            if same_ignoring_ascii_case(hs.last().0, other) {
                lemma_same_case_symmetric(hs.last().0, name);
                lemma_same_case_transitive(name, hs.last().0, other);
            }
        } else {
            lemma_header_value_push(without_header(d, name), other, hs.last().0, hs.last().1);
        }
    }
}

} // verus!
