//! The SSH engine's decisions: credentials are recorded and granted by the
//! access policy, command lines are assembled from echoed keystrokes or
//! taken from exec requests, and answers are framed with the prompt.
use hex_slice::AsHex;
use vstd::prelude::*;
use vstd::string::{StrSliceExecFns, StringExecFns};
use vstd::utf8::{decode_utf8, encode_utf8, valid_utf8};

use crate::config::{admits, admitted, Service};
use crate::net::IpAddress;
use crate::engine::{
    alnum_word, not_found_message, not_found_text, plain_not_found, Reply, ReplyView,
};
use crate::net::hex;
use crate::record::{opt_view, DataView, Record};
use crate::text::{text_bytes, trim, trimmed};

verus! {

/// Settings of an SSH service.
pub struct Config {
    pub address: String,
    pub server_id: String,
    pub server_id_raw: String,
    pub banner: String,
    pub prompt: String,
    pub timeout: u64,
}

pub const DEFAULT_ID: &'static str = "SSH-2.0-OpenSSH_7.2p2 Ubuntu-4ubuntu2.10";
pub const DEFAULT_BANNER: &'static str = "Last login: Mon Sep  5 14:12:09 2022 from 127.0.0.1";
pub const DEFAULT_PROMPT: &'static str = "# ";
pub const DEFAULT_TIMEOUT: u64 = 10;

/// Whether `c` holds the settings of `svc`, with defaults for the options it
/// lacks.
pub open spec fn configured(svc: &Service, c: &Config) -> bool {
    &&& c.address@ == svc.address@
    &&& c.server_id@ == svc.string_spec("server_id"@, DEFAULT_ID@)
    &&& c.server_id_raw@ == svc.string_spec("server_id_raw"@, ""@)
    &&& c.banner@ == svc.string_spec("banner"@, DEFAULT_BANNER@)
    &&& c.prompt@ == svc.string_spec("prompt"@, DEFAULT_PROMPT@)
    &&& c.timeout == svc.unsigned_spec("timeout"@, DEFAULT_TIMEOUT)
}

/// The SSH settings of `svc`, with defaults for the options it lacks.
pub fn from_service(svc: &Service) -> (r: Config)
    ensures
        configured(svc, &r),
{
    Config {
        address: svc.address.clone(),
        server_id: svc.string("server_id", DEFAULT_ID),
        server_id_raw: svc.string("server_id_raw", ""),
        banner: svc.string("banner", DEFAULT_BANNER),
        prompt: svc.string("prompt", DEFAULT_PROMPT),
        timeout: svc.unsigned("timeout", DEFAULT_TIMEOUT),
    }
}

/// How the server introduces itself.
pub enum ServerId {
    /// A version text that the SSH layer frames itself.
    Standard(String),
    /// The exact identification line.
    Raw(String),
}

impl Config {
    /// The raw identification line when one is set, else the version text.
    pub fn server_identity(&self) -> (r: ServerId)
        ensures
            self.server_id_raw@.len() > 0 ==> (r matches ServerId::Raw(s) && s@
                == self.server_id_raw@),
            self.server_id_raw@.len() == 0 ==> (r matches ServerId::Standard(s) && s@
                == self.server_id@),
    {
        if self.server_id_raw.as_str().unicode_len() > 0 {
            ServerId::Raw(self.server_id_raw.clone())
        } else {
            ServerId::Standard(self.server_id.clone())
        }
    }
}

/// Bytes in hexadecimal, as hex_slice's `{:x}` writes a slice: in square
/// brackets, separated by spaces, each without leading zeros.
pub open spec fn hex_list(b: Seq<u8>) -> Seq<char> {
    seq!['['] + hex_items(b) + seq![']']
}

pub open spec fn hex_items(b: Seq<u8>) -> Seq<char>
    decreases b.len(),
{
    if b.len() == 0 {
        Seq::empty()
    } else if b.len() == 1 {
        hex(b[0] as nat)
    } else {
        hex_items(b.drop_last()) + seq![' '] + hex(b.last() as nat)
    }
}

/// Relies on hex_slice's `AsHex::as_hex` and its `LowerHex` impl.
#[verifier::external_body]
fn hex_text(b: &[u8]) -> (r: String)
    ensures
        r@ == hex_list(b@),
{
    format!("{:x}", b.as_hex())
}

/// Relies on `std::str::from_utf8`: the text, when the bytes are UTF-8.
#[verifier::external_body]
fn utf8_text(b: &[u8]) -> (r: Option<String>)
    ensures
        r is Some <==> valid_utf8(b@),
        r is Some ==> r->Some_0@ == decode_utf8(b@),
{
    std::str::from_utf8(b).ok().map(|s| s.to_string())
}

/// A command line from the bytes a client submitted: the text when it is
/// UTF-8, else the bytes in hexadecimal; trimmed either way.
pub open spec fn command_text(b: Seq<u8>) -> Seq<char> {
    if valid_utf8(b) {
        trimmed(decode_utf8(b))
    } else {
        trimmed(hex_list(b))
    }
}

/// The command line in `b`.
pub fn command_of(b: &[u8]) -> (r: String)
    ensures
        r@ == command_text(b@),
{
    match utf8_text(b) {
        Some(t) => trim(t.as_str()),
        None => {
            let h = hex_text(b);
            trim(h.as_str())
        },
    }
}

/// What to do with keystrokes received on an interactive channel.
pub enum Keystrokes {
    /// Echo these bytes back.
    Echo(Vec<u8>),
    /// A carriage return ended this command line.
    Line(String),
}

/// What to send on the channel after a command.
pub enum Answer {
    /// Send these bytes.
    Data(Vec<u8>),
    /// Close the channel.
    Close,
}

/// The state kept for one SSH connection.
pub struct ClientHandler {
    pub record: Record,
    /// Whether the access policy admits the peer.
    pub allowed: bool,
    pub banner: String,
    pub prompt: String,
    /// Keystrokes of the command line being typed.
    pub command: Vec<u8>,
}

pub open spec fn prompt_tail(prompt: Seq<char>) -> Seq<u8> {
    seq![13u8, 10u8] + encode_utf8(prompt)
}

impl ClientHandler {
    /// The handler for a new connection from a peer at `ip`, recorded in
    /// `record`; the peer is admitted when the allow-list `only` admits it.
    pub fn new(config: &Config, record: Record, only: &Vec<IpAddress>, ip: &IpAddress) -> (r:
        ClientHandler)
        ensures
            r.record.events() == record.events().push(DataView::Log("connected"@)),
            r.allowed == admits(only@, *ip),
            r.banner@ == config.banner@,
            r.prompt@ == config.prompt@,
            r.command@.len() == 0,
    {
        let mut record = record;
        record.log(String::from_str("connected"));
        ClientHandler {
            record,
            allowed: admitted(only, ip),
            banner: config.banner.clone(),
            prompt: config.prompt.clone(),
            command: Vec::new(),
        }
    }

    /// Records the credentials offered with any authentication method and
    /// says whether to accept them: whenever the peer is admitted.
    pub fn auth(&mut self, username: String, password: Option<String>, key: Option<String>) -> (r:
        bool)
        ensures
            r == old(self).allowed,
            final(self).record.events() == old(self).record.events().push(
                DataView::Authentication {
                    username: username@,
                    password: opt_view(password),
                    key: opt_view(key),
                },
            ),
            final(self).record.same_header(&old(self).record),
            final(self).allowed == old(self).allowed,
            final(self).prompt == old(self).prompt,
            final(self).banner == old(self).banner,
            final(self).command == old(self).command,
    {
        self.record.auth(username, password, key);
        self.allowed
    }

    /// What a shell request shows: the banner, a blank line and the prompt.
    pub fn shell_request(&mut self) -> (r: Vec<u8>)
        ensures
            r@ == encode_utf8(old(self).banner@) + seq![13u8, 10u8] + prompt_tail(
                old(self).prompt@,
            ),
            final(self).record.events() == old(self).record.events().push(
                DataView::Log("shell request"@),
            ),
            final(self).record.same_header(&old(self).record),
            final(self).allowed == old(self).allowed,
            final(self).prompt == old(self).prompt,
            final(self).banner == old(self).banner,
            final(self).command == old(self).command,
    {
        self.record.log(String::from_str("shell request"));
        let mut out = text_bytes(self.banner.as_str());
        out.push(13);
        out.push(10);
        out.push(13);
        out.push(10);
        let mut p = text_bytes(self.prompt.as_str());
        out.append(&mut p);
        assert(out@ =~= encode_utf8(self.banner@) + seq![13u8, 10u8] + prompt_tail(self.prompt@));
        out
    }

    /// Takes keystrokes: a lone carriage return ends the line being typed,
    /// anything else is added to it and echoed.
    pub fn data(&mut self, data: &[u8]) -> (r: Keystrokes)
        ensures
            final(self).record == old(self).record,
            final(self).allowed == old(self).allowed,
            final(self).prompt == old(self).prompt,
            final(self).banner == old(self).banner,
            data@ == seq![13u8] ==> (r matches Keystrokes::Line(l) && l@ == command_text(
                old(self).command@,
            )),
            data@ == seq![13u8] ==> final(self).command@.len() == 0,
            data@ != seq![13u8] ==> (r matches Keystrokes::Echo(e) && e@ == data@),
            data@ != seq![13u8] ==> final(self).command@ == old(self).command@ + data@,
    {
        if data.len() == 1 && data[0] == 13 {
            assert(data@ =~= seq![13u8]);
            let line = command_of(self.command.as_slice());
            self.command = Vec::new();
            Keystrokes::Line(line)
        } else {
            assert(data@ != seq![13u8]) by {
                if data@ == seq![13u8] {
                    assert(data@.len() == 1 && data@[0] == 13);
                }
            }
            let mut i: usize = 0;
            let ghost start = self.command@;
            let mut echo: Vec<u8> = Vec::new();
            while i < data.len()
                invariant
                    i <= data@.len(),
                    self.command@ == start + data@.take(i as int),
                    echo@ == data@.take(i as int),
                    self.record == old(self).record,
                    self.allowed == old(self).allowed,
                    self.prompt == old(self).prompt,
                    self.banner == old(self).banner,
                decreases data@.len() - i,
            {
                self.command.push(data[i]);
                echo.push(data[i]);
                assert(data@.take(i + 1) =~= data@.take(i as int).push(data@[i as int]));
                assert(self.command@ =~= start + data@.take(i + 1));
                i = i + 1;
            }
            assert(data@.take(data@.len() as int) =~= data@);
            Keystrokes::Echo(echo)
        }
    }

    /// Records the command line `command` before it goes to the rules.
    pub fn on_command(&mut self, command: &String)
        ensures
            final(self).record.events() == old(self).record.events().push(
                DataView::Command(command@),
            ),
            final(self).record.same_header(&old(self).record),
            final(self).allowed == old(self).allowed,
            final(self).prompt == old(self).prompt,
            final(self).banner == old(self).banner,
            final(self).command == old(self).command,
    {
        self.record.command(command.clone());
    }

    /// What to send after the rules answered `reply` to `command`: the
    /// output or the shell's complaint, then the prompt; the exit directive
    /// closes the channel.
    pub fn answer(&self, command: &str, reply: Reply) -> (r: Answer)
        ensures
            match reply@ {
                ReplyView::Exit => r is Close,
                ReplyView::Output(b) => r matches Answer::Data(d) && d@ == seq![13u8, 10u8] + b
                    + prompt_tail(self.prompt@),
                ReplyView::NotFound => r matches Answer::Data(d) && d@ == encode_utf8(
                    not_found_text(command@),
                ) + prompt_tail(self.prompt@),
            },
            reply@ == ReplyView::NotFound && alnum_word(command@) ==> (r matches Answer::Data(d)
                && d@ == encode_utf8(plain_not_found(command@)) + prompt_tail(self.prompt@)),
    {
        let mut tail: Vec<u8> = vec![13u8, 10u8];
        let mut p = text_bytes(self.prompt.as_str());
        tail.append(&mut p);
        assert(tail@ =~= prompt_tail(self.prompt@));
        match reply {
            Reply::Exit => Answer::Close,
            Reply::Output(b) => {
                let mut out: Vec<u8> = vec![13u8, 10u8];
                let ghost bv = b@;
                let mut b = b;
                out.append(&mut b);
                out.append(&mut tail);
                assert(out@ =~= seq![13u8, 10u8] + bv + prompt_tail(self.prompt@));
                Answer::Data(out)
            },
            Reply::NotFound => {
                let m = not_found_message(command);
                let mut out = text_bytes(m.as_str());
                out.append(&mut tail);
                Answer::Data(out)
            },
        }
    }
}

} // verus!
