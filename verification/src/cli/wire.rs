//! Just enough of a client to call the server's tools.
//!
//! The transport is Streamable HTTP: `initialize` returns a session id in a
//! header, every later call must carry it, and responses are SSE-framed even
//! when a single JSON object is all that comes back.
use crate::encode::{json_quote, json_string};
use crate::platform::client_oauth::text_of;
use crate::text::{lines, lines_of, strip_end, strip_prefix, stripped_end, texts};
use vstd::prelude::*;

verus! {

/// How long a call may take, in milliseconds.
pub const TIMEOUT: u64 = 120_000;

/// What opens a session.
pub const INITIALIZE: &'static str = "{\"id\":1,\"jsonrpc\":\"2.0\",\"method\":\"initialize\",\"params\":{\"capabilities\":{},\"clientInfo\":{\"name\":\"toolsite-cli\",\"version\":\"0.1.0\"},\"protocolVersion\":\"2025-03-26\"}}";

/// What the protocol expects before any call.
pub const INITIALIZED: &'static str = "{\"jsonrpc\":\"2.0\",\"method\":\"notifications/initialized\"}";

/// Where a server's tools are called.
pub open spec fn tools_at(base_url: Seq<char>) -> Seq<char> {
    stripped_end(base_url, "/"@) + "/mcp"@
}

/// Where a server's tools are called.
pub fn endpoint(base_url: &str) -> (r: String)
    ensures
        r@ == tools_at(base_url@),
{
    strip_end(base_url, "/").concat("/mcp")
}

/// A session with a server.
pub struct Mcp {
    pub url: String,
    pub token: String,
    pub session: String,
}

/// What a server answered to the opening of a session: its status, that in
/// words, and the id of the session, where it gave one.
pub struct Opened {
    pub status: u16,
    pub reason: String,
    pub session: Option<String>,
}

/// Why there is no session.
pub open spec fn connect_refusal(url: Seq<char>, opened: Opened) -> Option<Seq<char>> {
    if opened.status == 401 {
        Some(url + " rejected the token (401). Check TOOLSITE_TOKEN."@)
    } else if !(200 <= opened.status < 300) {
        Some(url + " answered "@ + opened.reason@)
    } else if opened.session is None {
        Some("server did not issue a session id"@)
    } else {
        None
    }
}

impl Mcp {
    /// A session with the server at a base URL, by its answer to the opening.
    pub fn connect(base_url: &str, token: &str, opened: Opened) -> (r: Result<Mcp, String>)
        ensures
            match r {
                Ok(mcp) => {
                    &&& connect_refusal(tools_at(base_url@), opened) is None
                    &&& mcp.url@ == tools_at(base_url@)
                    &&& mcp.token@ == token@
                    &&& opened.session == Some(mcp.session)
                },
                Err(m) => connect_refusal(tools_at(base_url@), opened) == Some(m@),
            },
    {
        let url = endpoint(base_url);
        if opened.status == 401 {
            return Err(url.concat(" rejected the token (401). Check TOOLSITE_TOKEN."));
        }
        if !(200 <= opened.status && opened.status < 300) {
            return Err(url.concat(" answered ").concat(opened.reason.as_str()));
        }
        match opened.session {
            Some(session) => Ok(Mcp { url, token: token.to_owned(), session }),
            None => Err("server did not issue a session id".to_owned()),
        }
    }

    /// What comes of a call: the text that the tool answered, or the error it
    /// reported.
    pub fn call(&self, tool: &str, body: &str, payload: Option<Payload>) -> (r: Result<
        String,
        String,
    >)
        ensures
            match (r, call_result(tool@, body@, payload)) {
                (Ok(a), Ok(b)) => a@ == b,
                (Err(a), Err(b)) => a@ == b,
                _ => false,
            },
    {
        let p = match payload {
            Some(p) => p,
            None => {
                return Err(
                    "could not parse a response from ".to_owned().concat(tool).concat(
                        ": ",
                    ).concat(body),
                );
            },
        };
        if let Some(error) = p.error {
            return Err(tool.to_owned().concat(" failed: ").concat(error.as_str()));
        }
        if !p.result {
            return Err(tool.to_owned().concat(" returned no result: ").concat(body));
        }
        let text: String = match p.text {
            Some(text) => text,
            None => "".to_owned(),
        };
        if p.is_error {
            Err(text)
        } else {
            Ok(text)
        }
    }
}

/// What calls a tool. The arguments are JSON already.
pub fn call_body(tool: &str, arguments: &str) -> (r: String)
    ensures
        r@
            == "{\"id\":2,\"jsonrpc\":\"2.0\",\"method\":\"tools/call\",\"params\":{\"arguments\":"@
            + arguments@ + ",\"name\":"@ + json_string(tool@) + "}}"@,
{
    "{\"id\":2,\"jsonrpc\":\"2.0\",\"method\":\"tools/call\",\"params\":{\"arguments\":".to_owned().concat(
        arguments,
    ).concat(",\"name\":").concat(json_quote(tool).as_str()).concat("}}")
}

/// Whether a text is JSON.
pub uninterp spec fn is_json(text: Seq<char>) -> bool;

/// `serde_json::from_str` into a value: whether the text is JSON, a function of
/// it.
#[verifier::external_body]
fn parses(text: &str) -> (r: bool)
    ensures
        r == is_json(text@),
{
    serde_json::from_str::<serde_json::Value>(text).is_ok()
}

/// The first of some texts that is JSON, by whether each is.
pub open spec fn first_json(candidates: Seq<Seq<char>>) -> Option<Seq<char>>
    decreases candidates.len(),
{
    if candidates.len() == 0 {
        None
    } else {
        match first_json(candidates.drop_last()) {
            Some(text) => Some(text),
            None => if is_json(candidates.last()) {
                Some(candidates.last())
            } else {
                None
            },
        }
    }
}

/// What the lines of an SSE stream carry.
pub open spec fn carried(lines: Seq<Seq<char>>) -> Seq<Seq<char>>
    decreases lines.len(),
{
    if lines.len() == 0 {
        Seq::empty()
    } else if "data: "@.is_prefix_of(lines.last()) {
        carried(lines.drop_last()).push(lines.last().skip("data: "@.len() as int))
    } else {
        carried(lines.drop_last())
    }
}

/// What a body may carry as JSON, in the order it is tried in: what its lines
/// carry as an SSE stream, and then all of it. A server that answered with plain
/// JSON is fine too.
pub open spec fn candidates_in(body: Seq<char>) -> Seq<Seq<char>> {
    carried(lines_of(body)).push(body)
}

/// What a body may carry as JSON.
pub fn candidates(body: &str) -> (r: Vec<String>)
    ensures
        texts(r@) == candidates_in(body@),
{
    let all = lines(body);
    let ghost ls = lines_of(body@);
    let mut r: Vec<String> = Vec::new();
    let mut i: usize = 0;
    proof {
        assert(texts(r@) =~= carried(ls.take(0)));
    }
    while i < all.len()
        invariant
            i <= all.len(),
            texts(all@) == ls,
            texts(r@) == carried(ls.take(i as int)),
        decreases all.len() - i,
    {
        proof {
            assert(ls.take(i + 1).drop_last() =~= ls.take(i as int));
            assert(ls.take(i + 1).last() == texts(all@)[i as int]);
        }
        if let Some(data) = strip_prefix(all[i].as_str(), "data: ") {
            let ghost before = r@;
            let ghost d = data@;
            r.push(data);
            assert(texts(r@) =~= texts(before).push(d));
        }
        i += 1;
    }
    let ghost before = r@;
    r.push(body.to_owned());
    proof {
        assert(texts(all@).len() == all@.len());
        assert(ls.take(ls.len() as int) =~= ls);
        assert(texts(r@) =~= texts(before).push(body@));
    }
    r
}

/// JSON that is found among the first texts is the first of all.
proof fn lemma_json_stays(candidates: Seq<Seq<char>>, n: int)
    requires
        0 <= n <= candidates.len(),
        first_json(candidates.take(n)) is Some,
    ensures
        first_json(candidates) == first_json(candidates.take(n)),
    decreases candidates.len(),
{
    if n < candidates.len() {
        assert(candidates.drop_last().take(n) =~= candidates.take(n));
        lemma_json_stays(candidates.drop_last(), n);
    } else {
        assert(candidates.take(n) =~= candidates);
    }
}

/// The first JSON in an SSE stream, or a body that is JSON itself.
pub fn parse_sse(body: &str) -> (r: Option<String>)
    ensures
        text_of(r) == first_json(candidates_in(body@)),
{
    let all = candidates(body);
    let ghost cs = candidates_in(body@);
    let mut i: usize = 0;
    while i < all.len()
        invariant
            i <= all.len(),
            texts(all@) == cs,
            cs == candidates_in(body@),
            first_json(cs.take(i as int)) is None,
        decreases all.len() - i,
    {
        proof {
            assert(cs.take(i + 1).drop_last() =~= cs.take(i as int));
            assert(cs.take(i + 1).last() == texts(all@)[i as int]);
        }
        if parses(all[i].as_str()) {
            proof {
                lemma_json_stays(cs, i + 1);
            }
            return Some(all[i].clone());
        }
        i += 1;
    }
    proof {
        assert(texts(all@).len() == all@.len());
        assert(cs.take(cs.len() as int) =~= cs);
    }
    None
}

/// What a server answered to a call: an error as it is written, or a result with
/// the text it begins with and whether that tells of a failure.
pub struct Payload {
    pub error: Option<String>,
    pub result: bool,
    pub text: Option<String>,
    pub is_error: bool,
}

/// What comes of a call.
pub open spec fn call_result(tool: Seq<char>, body: Seq<char>, payload: Option<Payload>) -> Result<
    Seq<char>,
    Seq<char>,
> {
    match payload {
        None => Err("could not parse a response from "@ + tool + ": "@ + body),
        Some(p) => match p.error {
            Some(error) => Err(tool + " failed: "@ + error@),
            None => if !p.result {
                Err(tool + " returned no result: "@ + body)
            } else {
                let text = match p.text {
                    Some(text) => text@,
                    None => ""@,
                };
                if p.is_error {
                    Err(text)
                } else {
                    Ok(text)
                }
            },
        },
    }
}

} // verus!
