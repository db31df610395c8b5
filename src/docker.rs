//! Running a command inside a container through the container engine's
//! HTTP control API: create an exec instance, then start it and collect its
//! output. The caller carries each request over the control socket.
use vstd::prelude::*;
use vstd::string::{StrSliceExecFns, StringExecFns};
use vstd::utf8::encode_utf8;

use crate::net::hex_char;
use crate::template::{decimal, push_decimal};
use crate::text::{lossy_text, lossy_text_of, same_text, slice_chars, text_bytes};

verus! {

/// `serde_json::Error`, returned by the encoder.
#[verifier::external_type_specification]
#[verifier::external_body]
pub struct ExJsonError(serde_json::Error);

/// How serde_json writes one character inside a string literal: quote and
/// backslash escaped, the usual short escapes, other control characters as
/// `\u00XX` in lower-case hexadecimal, everything else as it is.
pub open spec fn json_escape(c: char) -> Seq<char> {
    if c == '"' {
        seq!['\\', '"']
    } else if c == '\\' {
        seq!['\\', '\\']
    } else if c == '\u{8}' {
        seq!['\\', 'b']
    } else if c == '\u{c}' {
        seq!['\\', 'f']
    } else if c == '\n' {
        seq!['\\', 'n']
    } else if c == '\r' {
        seq!['\\', 'r']
    } else if c == '\t' {
        seq!['\\', 't']
    } else if (c as u32) < 0x20 {
        seq!['\\', 'u', '0', '0', hex_char((c as u32 / 16) as nat), hex_char((c as u32 % 16) as nat)]
    } else {
        seq![c]
    }
}

pub open spec fn json_escaped(s: Seq<char>) -> Seq<char>
    decreases s.len(),
{
    if s.len() == 0 {
        Seq::empty()
    } else {
        json_escaped(s.drop_last()) + json_escape(s.last())
    }
}

/// The JSON string literal that serde_json writes for a text.
pub open spec fn json_string_of(s: Seq<char>) -> Seq<char> {
    seq!['"'] + json_escaped(s) + seq!['"']
}

/// Relies on `serde_json::to_string` for a `str`: the string literal that
/// its compact formatter writes. Writing a string into a `Vec` cannot fail.
#[verifier::external_body]
fn json_string(s: &str) -> (r: Result<String, serde_json::Error>)
    ensures
        r is Ok,
        r is Ok ==> r->Ok_0@ == json_string_of(s@),
{
    serde_json::to_string(s)
}

/// The pairs of a JSON object whose values are all strings, by key in
/// ascending order, as serde_json reads it; `None` for any other text.
pub uninterp spec fn json_string_map_of(s: Seq<char>) -> Option<Seq<(Seq<char>, Seq<char>)>>;

pub open spec fn pairs_view(v: Seq<(String, String)>) -> Seq<(Seq<char>, Seq<char>)> {
    v.map_values(|p: (String, String)| (p.0@, p.1@))
}

/// Relies on `serde_json::from_str` into a `BTreeMap<String, String>`.
#[verifier::external_body]
fn json_string_map(s: &str) -> (r: Option<Vec<(String, String)>>)
    ensures
        r is None ==> json_string_map_of(s@) is None,
        r is Some ==> json_string_map_of(s@) == Some(pairs_view(r->Some_0@)),
{
    serde_json::from_str::<std::collections::BTreeMap<String, String>>(s).ok().map(
        |m| m.into_iter().collect(),
    )
}

/// An HTTP/1.0 POST of a JSON `content` to `path`.
pub open spec fn post_text(path: Seq<char>, content: Seq<char>) -> Seq<char> {
    "POST "@ + path + " HTTP/1.0\r\nContent-Type: application/json\r\nContent-Length: "@
        + decimal(encode_utf8(content).len()) + "\r\n\r\n"@ + content
}

/// The body that creates an exec instance running `sh -c <command>` with
/// its output attached and no terminal.
pub open spec fn create_content(command_json: Seq<char>) -> Seq<char> {
    "{\"AttachStdout\": true, \"Tty\": false, \"Cmd\": [\"sh\", \"-c\", "@ + command_json + "]}"@
}

pub open spec fn start_content() -> Seq<char> {
    "{\"Detach\": false, \"Tty\": false}"@
}

fn post(path: String, content: &str) -> (r: Vec<u8>)
    ensures
        r@ == encode_utf8(post_text(path@, content@)),
{
    let mut t = String::from_str("POST ");
    t.append(path.as_str());
    t.append(" HTTP/1.0\r\nContent-Type: application/json\r\nContent-Length: ");
    let body = text_bytes(content);
    push_decimal(&mut t, body.len());
    t.append("\r\n\r\n");
    t.append(content);
    text_bytes(t.as_str())
}

/// The request that creates an exec instance of `command` in `container_id`.
pub fn create_exec_request(container_id: &str, command: &str) -> (r: Vec<u8>)
    ensures
        r@ == encode_utf8(
            post_text(
                "/containers/"@ + container_id@ + "/exec"@,
                create_content(json_string_of(command@)),
            ),
        ),
{
    let j = match json_string(command) {
        Ok(j) => j,
        Err(_) => {
            assert(false);
            String::new()
        },
    };
    let mut content = String::from_str(
        "{\"AttachStdout\": true, \"Tty\": false, \"Cmd\": [\"sh\", \"-c\", ",
    );
    content.append(j.as_str());
    content.append("]}");
    let mut path = String::from_str("/containers/");
    path.append(container_id);
    path.append("/exec");
    post(path, content.as_str())
}

/// The request that starts the exec instance `exec_id` and waits for it.
pub fn start_exec_request(exec_id: &str) -> (r: Vec<u8>)
    ensures
        r@ == encode_utf8(post_text("/exec/"@ + exec_id@ + "/start"@, start_content())),
{
    let mut path = String::from_str("/exec/");
    path.append(exec_id);
    path.append("/start");
    post(path, "{\"Detach\": false, \"Tty\": false}")
}

/// The position of the first `c` in `s` at or after `i`.
pub open spec fn find_char(s: Seq<char>, c: char, i: int) -> Option<int>
    decreases s.len() - i,
{
    if i >= s.len() || i < 0 {
        None
    } else if s[i] == c {
        Some(i)
    } else {
        find_char(s, c, i + 1)
    }
}

/// The value of the first pair with key `k`.
pub open spec fn lookup(pairs: Seq<(Seq<char>, Seq<char>)>, k: Seq<char>) -> Option<Seq<char>>
    decreases pairs.len(),
{
    if pairs.len() == 0 {
        None
    } else if pairs[0].0 == k {
        Some(pairs[0].1)
    } else {
        lookup(pairs.drop_first(), k)
    }
}

/// The exec id in the engine's answer to a create request: the JSON
/// object that starts at the first `{`, and its `Id`.
pub open spec fn created_exec_id(response: Seq<u8>) -> Option<Seq<char>> {
    let t = lossy_text_of(response);
    match find_char(t, '{', 0) {
        None => None,
        Some(i) => match json_string_map_of(t.skip(i)) {
            None => None,
            Some(pairs) => lookup(pairs, "Id"@),
        },
    }
}

/// Reads the exec id from the answer to a create request.
pub fn parse_create_response(response: &[u8]) -> (r: Result<String, String>)
    ensures
        r is Ok <==> created_exec_id(response@) is Some,
        r is Ok ==> Some(r->Ok_0@) == created_exec_id(response@),
{
    let t = lossy_text(response);
    let n = t.as_str().unicode_len();
    let mut i: usize = 0;
    while i < n && t.as_str().get_char(i) != '{'
        invariant
            n == t@.len(),
            i <= n,
            find_char(t@, '{', 0) == find_char(t@, '{', i as int),
        decreases n - i,
    {
        i = i + 1;
    }
    if i == n {
        return Err(String::from_str("no JSON object in the create-exec response"));
    }
    let body = slice_chars(t.as_str(), i, n);
    assert(body@ =~= t@.skip(i as int));
    match json_string_map(body.as_str()) {
        None => {
            let mut e = String::from_str("unexpected create-exec response: ");
            e.append(body.as_str());
            Err(e)
        },
        Some(pairs) => {
            let ghost pv = pairs_view(pairs@);
            assert(pv.skip(0) =~= pv);
            assert(find_char(t@, '{', i as int) == Some(i as int));
            let mut j: usize = 0;
            while j < pairs.len()
                invariant
                    j <= pairs@.len(),
                    pv == pairs_view(pairs@),
                    lookup(pv, "Id"@) == lookup(pv.skip(j as int), "Id"@),
                    t@ == lossy_text_of(response@),
                    find_char(t@, '{', 0) == Some(i as int),
                    json_string_map_of(t@.skip(i as int)) == Some(pv),
                decreases pairs@.len() - j,
            {
                assert(pv.skip(j as int).drop_first() =~= pv.skip(j + 1));
                assert(pv.skip(j as int)[0] == pv[j as int]);
                if same_text(pairs[j].0.as_str(), "Id") {
                    return Ok(pairs[j].1.clone());
                }
                j = j + 1;
            }
            let mut e = String::from_str("no exec id in the create-exec response: ");
            e.append(body.as_str());
            Err(e)
        },
    }
}

/// The position of the first blank line (`\r\n\r\n`) in `b` at or after `i`.
pub open spec fn find_blank_line(b: Seq<u8>, i: int) -> Option<int>
    decreases b.len() - i,
{
    if i < 0 || i + 4 > b.len() {
        None
    } else if b[i] == 13 && b[i + 1] == 10 && b[i + 2] == 13 && b[i + 3] == 10 {
        Some(i)
    } else {
        find_blank_line(b, i + 1)
    }
}

/// The output in the answer to a start request: what follows the headers.
pub fn parse_start_response(response: &[u8]) -> (r: Result<Vec<u8>, String>)
    ensures
        r is Ok <==> find_blank_line(response@, 0) is Some,
        r is Ok ==> r->Ok_0@ == response@.skip(find_blank_line(response@, 0)->Some_0 + 4),
{
    let n = response.len();
    let mut i: usize = 0;
    while n >= 4 && i <= n - 4
        invariant
            n == response@.len(),
            find_blank_line(response@, 0) == find_blank_line(response@, i as int),
        decreases n - i,
    {
        if response[i] == 13 && response[i + 1] == 10 && response[i + 2] == 13 && response[i + 3]
            == 10 {
            let mut out: Vec<u8> = Vec::new();
            let mut k = i + 4;
            while k < n
                invariant
                    i + 4 <= k <= n,
                    n == response@.len(),
                    out@ == response@.subrange(i + 4, k as int),
                decreases n - k,
            {
                out.push(response[k]);
                assert(out@ =~= response@.subrange(i + 4, k + 1));
                k = k + 1;
            }
            assert(out@ =~= response@.skip(i + 4));
            return Ok(out);
        }
        i = i + 1;
    }
    Err(String::from_str("no body in the start-exec response"))
}

/// Where a container run stands.
#[derive(Clone, Copy, Debug, PartialEq, Eq, Structural)]
pub enum ExecStage {
    Creating,
    Starting,
    Finished,
}

/// What the caller does next.
pub enum ExecStep {
    /// Send this request on a fresh control connection and report the answer.
    Request(Vec<u8>),
    /// The run is over: its output, or why it failed.
    Done(Result<Vec<u8>, String>),
}

/// A command run inside a container.
pub struct DockerExec {
    pub stage: ExecStage,
}

/// Starts running `command` inside `container_id`: the first step is the
/// request that creates the exec instance.
pub fn exec(container_id: &str, command: &str) -> (r: (DockerExec, ExecStep))
    ensures
        r.0.stage == ExecStage::Creating,
        r.1 matches ExecStep::Request(q) && q@ == encode_utf8(
            post_text(
                "/containers/"@ + container_id@ + "/exec"@,
                create_content(json_string_of(command@)),
            ),
        ),
{
    (DockerExec { stage: ExecStage::Creating }, ExecStep::Request(create_exec_request(container_id, command)))
}

impl DockerExec {
    /// Takes the answer to the last request (or why none came) and returns
    /// the next step.
    pub fn on_response(&mut self, response: Result<Vec<u8>, String>) -> (r: ExecStep)
        requires
            old(self).stage != ExecStage::Finished,
        ensures
            response is Err ==> final(self).stage == ExecStage::Finished,
            response is Err ==> (r matches ExecStep::Done(d) && d == response),
            old(self).stage == ExecStage::Creating && response is Ok ==> match created_exec_id(
                response->Ok_0@,
            ) {
                Some(id) => final(self).stage == ExecStage::Starting && (r matches ExecStep::Request(
                    q,
                ) && q@ == encode_utf8(post_text("/exec/"@ + id + "/start"@, start_content()))),
                None => final(self).stage == ExecStage::Finished && (r matches ExecStep::Done(d)
                    && d is Err),
            },
            old(self).stage == ExecStage::Starting && response is Ok ==> final(self).stage
                == ExecStage::Finished,
            old(self).stage == ExecStage::Starting && response is Ok ==> (r matches ExecStep::Done(
                d,
            ) && match find_blank_line(response->Ok_0@, 0) {
                Some(i) => d is Ok && d->Ok_0@ == response->Ok_0@.skip(i + 4),
                None => d is Err,
            }),
    {
        match response {
            Err(e) => {
                self.stage = ExecStage::Finished;
                ExecStep::Done(Err(e))
            },
            Ok(bytes) => {
                if self.stage == ExecStage::Creating {
                    match parse_create_response(bytes.as_slice()) {
                        Ok(id) => {
                            self.stage = ExecStage::Starting;
                            ExecStep::Request(start_exec_request(id.as_str()))
                        },
                        Err(e) => {
                            self.stage = ExecStage::Finished;
                            ExecStep::Done(Err(e))
                        },
                    }
                } else {
                    self.stage = ExecStage::Finished;
                    ExecStep::Done(parse_start_response(bytes.as_slice()))
                }
            },
        }
    }
}

} // verus!
