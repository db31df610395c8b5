//! The HTTP engine's answers: one request per connection, 200 with the
//! resolved body or 404 without one.
use vstd::prelude::*;
use vstd::string::{StrSliceExecFns, StringExecFns};
use vstd::utf8::encode_utf8;

use crate::config::Service;
use crate::engine::{chunk_text, prompt_answer, Reply, ReplyView};
use crate::record::{DataView, Record};
use crate::template::{decimal, push_decimal};
use crate::text::{trim, trimmed};

verus! {

/// The header block of a response: status line, `Connection: close`, the
/// extra headers trimmed, and the length of a body of `len` bytes.
pub open spec fn head_text(code: u32, message: Seq<char>, headers: Seq<Seq<char>>, len: nat) -> Seq<
    char,
> {
    "HTTP/1.0 "@ + decimal(code as nat) + " "@ + message + "\r\nConnection: close\r\n"@
        + header_lines(headers) + "Content-length: "@ + decimal(len) + "\r\n\r\n"@
}

/// Each header, trimmed, on a line of its own.
pub open spec fn header_lines(headers: Seq<Seq<char>>) -> Seq<char>
    decreases headers.len(),
{
    if headers.len() == 0 {
        Seq::empty()
    } else {
        header_lines(headers.drop_last()) + trimmed(headers.last()) + "\r\n"@
    }
}

/// A complete response: the header block, then the body, if any.
pub open spec fn response_bytes(
    code: u32,
    message: Seq<char>,
    headers: Seq<Seq<char>>,
    data: Option<Seq<u8>>,
) -> Seq<u8> {
    match data {
        Some(d) => encode_utf8(head_text(code, message, headers, d.len())) + d,
        None => encode_utf8(head_text(code, message, headers, 0)),
    }
}

/// Builds a response with status `code` and reason `message`, the extra
/// `headers`, and `data` as the body, with its length in bytes as
/// `Content-length` (0 without a body).
pub fn response(code: u32, message: &str, headers: &Vec<String>, data: Option<Vec<u8>>) -> (r: Vec<u8>)
    ensures
        r@ == response_bytes(code, message@, crate::template::texts(headers@), match data {
            Some(d) => Some(d@),
            None => None,
        }),
{
    let mut head = String::from_str("HTTP/1.0 ");
    push_decimal(&mut head, code as usize);
    head.append(" ");
    head.append(message);
    head.append("\r\nConnection: close\r\n");
    let ghost hs = crate::template::texts(headers@);
    let ghost start = head@;
    let mut i: usize = 0;
    while i < headers.len()
        invariant
            i <= headers@.len(),
            hs == crate::template::texts(headers@),
            head@ == start + header_lines(hs.take(i as int)),
        decreases headers@.len() - i,
    {
        let t = trim(headers[i].as_str());
        head.append(t.as_str());
        head.append("\r\n");
        assert(hs.take(i + 1).drop_last() =~= hs.take(i as int));
        assert(head@ =~= start + header_lines(hs.take(i + 1)));
        i = i + 1;
    }
    assert(hs.take(headers@.len() as int) =~= hs);
    head.append("Content-length: ");
    let len: usize = match &data {
        Some(d) => d.len(),
        None => 0,
    };
    push_decimal(&mut head, len);
    head.append("\r\n\r\n");
    let mut out = head.as_str().as_bytes_vec();
    match data {
        Some(d) => {
            let mut d = d;
            let ghost dv = d@;
            out.append(&mut d);
            assert(head@ =~= head_text(code, message@, hs, dv.len()));
            assert(out@ =~= encode_utf8(head@) + dv);
            out
        },
        None => {
            assert(head@ =~= head_text(code, message@, hs, 0));
            out
        },
    }
}

/// Settings of an HTTP service.
pub struct Config {
    pub address: String,
    pub headers: Vec<String>,
    pub tls: bool,
    pub key_file: String,
    pub cert_file: String,
    pub timeout: u64,
}

pub const DEFAULT_CERT_FILE: &'static str = "/tmp/medusa-https.crt";
pub const DEFAULT_KEY_FILE: &'static str = "/tmp/medusa-https.key";
pub const DEFAULT_TIMEOUT: u64 = 10;

/// Whether `c` holds the settings of `svc`, with defaults for the options it
/// lacks.
pub open spec fn configured(svc: &Service, c: &Config) -> bool {
    &&& c.address@ == svc.address@
    &&& c.tls == svc.bool_spec("tls"@, false)
    &&& c.timeout == svc.unsigned_spec("timeout"@, DEFAULT_TIMEOUT)
    &&& c.key_file@ == svc.string_spec("key"@, DEFAULT_KEY_FILE@)
    &&& c.cert_file@ == svc.string_spec("certificate"@, DEFAULT_CERT_FILE@)
    &&& crate::template::texts(c.headers@) == svc.strings_spec("headers"@, Seq::empty())
}

/// The HTTP settings of `svc`, with defaults for the options it lacks.
pub fn from_service(svc: &Service) -> (r: Config)
    ensures
        configured(svc, &r),
{
    let none: Vec<String> = Vec::new();
    assert(crate::template::texts(none@) =~= Seq::<Seq<char>>::empty());
    let headers = svc.strings("headers", none);
    Config {
        address: svc.address.clone(),
        headers,
        tls: svc.bool("tls", false),
        key_file: svc.string("key", DEFAULT_KEY_FILE),
        cert_file: svc.string("certificate", DEFAULT_CERT_FILE),
        timeout: svc.unsigned("timeout", DEFAULT_TIMEOUT),
    }
}

/// Opens the record of a connection: notes it, and the request received,
/// if any; the text to resolve, or `None` when the client sent nothing (then
/// nothing is answered).
pub fn on_request(record: &mut Record, received: &Option<Vec<u8>>) -> (r: Option<String>)
    ensures
        final(record).same_header(old(record)),
        match received {
            Some(b) if b@.len() > 0 => r is Some && r->Some_0@ == chunk_text(b@)
                && final(record).events() == old(record).events().push(
                DataView::Log("connected"@),
            ).push(DataView::Request(chunk_text(b@))),
            _ => r is None && final(record).events() == old(record).events().push(
                DataView::Log("connected"@),
            ),
        },
{
    record.log(String::from_str("connected"));
    match prompt_answer(received) {
        Some(text) => {
            record.request(text.clone());
            Some(text)
        },
        None => None,
    }
}

/// Closes the record of a connection, after the one exchange.
pub fn on_close(record: &mut Record)
    ensures
        final(record).same_header(old(record)),
        final(record).events() == old(record).events().push(DataView::Log("disconnected"@)),
{
    record.log(String::from_str("disconnected"));
}

/// The response to the rules' answer: 200 with the output as body (an
/// empty body for the exit directive), or 404 without a body when no rule
/// matched.
pub fn reply_response(headers: &Vec<String>, reply: Reply) -> (r: Vec<u8>)
    ensures
        r@ == match reply@ {
            ReplyView::Output(b) => response_bytes(200, "OK"@, crate::template::texts(headers@), Some(b)),
            ReplyView::Exit => response_bytes(
                200,
                "OK"@,
                crate::template::texts(headers@),
                Some(Seq::empty()),
            ),
            ReplyView::NotFound => response_bytes(
                404,
                "Not Found"@,
                crate::template::texts(headers@),
                None,
            ),
        },
{
    match reply {
        Reply::Output(b) => response(200, "OK", headers, Some(b)),
        Reply::Exit => {
            let empty: Vec<u8> = Vec::new();
            assert(empty@ =~= Seq::<u8>::empty());
            response(200, "OK", headers, Some(empty))
        },
        Reply::NotFound => response(404, "Not Found", headers, None),
    }
}

/// The encoding of the private key that TLS is set up with.
#[derive(Clone, Copy, Debug, PartialEq, Eq, Structural)]
pub enum KeyEncoding {
    Pkcs8,
    Pkcs1,
}

pub open spec fn found(count: Option<usize>) -> bool {
    match count {
        Some(n) => n > 0,
        None => false,
    }
}

/// Picks the private key of `key_file`, which holds `pkcs8` keys in PKCS#8
/// encoding and `pkcs1` in PKCS#1 (`None`: not looked for): PKCS#8 first,
/// PKCS#1 as the fallback, else an error that names the file.
pub fn choose_key(key_file: &str, pkcs8: usize, pkcs1: Option<usize>) -> (r: Result<KeyEncoding, String>)
    ensures
        pkcs8 > 0 ==> r == Ok::<KeyEncoding, String>(KeyEncoding::Pkcs8),
        pkcs8 == 0 && found(pkcs1) ==> r == Ok::<KeyEncoding, String>(KeyEncoding::Pkcs1),
        pkcs8 == 0 && !found(pkcs1) ==> r is Err && r->Err_0@
            == "no valid PKCS#8 or PKCS#1 encoded keys found in "@ + key_file@,
{
    if pkcs8 > 0 {
        Ok(KeyEncoding::Pkcs8)
    } else {
        match pkcs1 {
            Some(n) if n > 0 => Ok(KeyEncoding::Pkcs1),
            _ => {
                let mut e = String::from_str("no valid PKCS#8 or PKCS#1 encoded keys found in ");
                e.append(key_file);
                Err(e)
            },
        }
    }
}

/// The error for a TLS file that cannot be opened: it names the file.
pub fn open_error(path: &str, reason: &str) -> (r: String)
    ensures
        r@ == "could not open "@ + path@ + ": "@ + reason@,
{
    let mut e = String::from_str("could not open ");
    e.append(path);
    e.append(": ");
    e.append(reason);
    e
}

} // verus!
