//! What is answered to a request.
use crate::text::pairs;
use vstd::prelude::*;

verus! {

/// An answer: a status, headers in order, and a text.
pub struct Reply {
    pub status: u16,
    pub headers: Vec<(String, String)>,
    pub body: String,
}

/// An answer over mathematical values.
pub struct Answer {
    pub status: u16,
    pub headers: Seq<(Seq<char>, Seq<char>)>,
    pub body: Seq<char>,
}

impl View for Reply {
    type V = Answer;

    open spec fn view(&self) -> Answer {
        Answer { status: self.status, headers: pairs(self.headers@), body: self.body@ }
    }
}

/// An answer with one header that names the type of its text.
pub open spec fn typed(status: u16, content_type: Seq<char>, body: Seq<char>) -> Answer {
    Answer { status, headers: seq![("content-type"@, content_type)], body }
}

/// A plain-text answer.
pub open spec fn plain(status: u16, body: Seq<char>) -> Answer {
    typed(status, "text/plain; charset=utf-8"@, body)
}

/// A page.
pub open spec fn html(status: u16, body: Seq<char>) -> Answer {
    typed(status, "text/html; charset=utf-8"@, body)
}

/// A JSON answer.
pub open spec fn json(status: u16, body: Seq<char>) -> Answer {
    typed(status, "application/json"@, body)
}

/// An answer without a text that sends the visitor elsewhere.
pub open spec fn elsewhere(status: u16, location: Seq<char>) -> Answer {
    Answer { status, headers: seq![("location"@, location)], body: Seq::empty() }
}

/// An answer that is only its status.
pub open spec fn bare(status: u16) -> Answer {
    Answer { status, headers: Seq::empty(), body: Seq::empty() }
}

/// An answer with one more header.
pub open spec fn with_header(a: Answer, name: Seq<char>, value: Seq<char>) -> Answer {
    Answer { headers: a.headers.push((name, value)), ..a }
}

impl Reply {
    /// An answer with one header that names the type of its text.
    pub fn typed(status: u16, content_type: &str, body: String) -> (r: Reply)
        ensures
            r@ == typed(status, content_type@, body@),
    {
        let mut headers: Vec<(String, String)> = Vec::new();
        headers.push(("content-type".to_owned(), content_type.to_owned()));
        let r = Reply { status, headers, body };
        assert(r@.headers =~= seq![("content-type"@, content_type@)]);
        r
    }

    /// A plain-text answer.
    pub fn plain(status: u16, body: String) -> (r: Reply)
        ensures
            r@ == plain(status, body@),
    {
        Reply::typed(status, "text/plain; charset=utf-8", body)
    }

    /// A plain-text answer with a fixed text.
    pub fn says(status: u16, body: &str) -> (r: Reply)
        ensures
            r@ == plain(status, body@),
    {
        Reply::plain(status, body.to_owned())
    }

    /// A page.
    pub fn html(status: u16, body: String) -> (r: Reply)
        ensures
            r@ == html(status, body@),
    {
        Reply::typed(status, "text/html; charset=utf-8", body)
    }

    /// A JSON answer.
    pub fn json(status: u16, body: String) -> (r: Reply)
        ensures
            r@ == json(status, body@),
    {
        Reply::typed(status, "application/json", body)
    }

    /// An answer without a text that sends the visitor elsewhere.
    pub fn elsewhere(status: u16, location: &str) -> (r: Reply)
        ensures
            r@ == elsewhere(status, location@),
    {
        let mut headers: Vec<(String, String)> = Vec::new();
        headers.push(("location".to_owned(), location.to_owned()));
        let r = Reply { status, headers, body: String::new() };
        assert(r@.headers =~= seq![("location"@, location@)]);
        r
    }

    /// An answer that is only its status.
    pub fn bare(status: u16) -> (r: Reply)
        ensures
            r@ == bare(status),
    {
        let headers: Vec<(String, String)> = Vec::new();
        let r = Reply { status, headers, body: String::new() };
        assert(r@.headers =~= Seq::empty());
        r
    }

    /// The same answer with one more header.
    pub fn with(self, name: &str, value: &str) -> (r: Reply)
        ensures
            r@ == with_header(self@, name@, value@),
    {
        let mut headers = self.headers;
        let ghost before = headers@;
        headers.push((name.to_owned(), value.to_owned()));
        let r = Reply { status: self.status, headers, body: self.body };
        assert(r@.headers =~= pairs(before).push((name@, value@)));
        r
    }
}

} // verus!
