//! The session transcript: an append-only list of timestamped entries that is
//! compacted and stored under a path derived from the peer and the service.
use vstd::prelude::*;
use vstd::string::{StrSliceExecFns, StringExecFns};

use crate::net::{ip_text, PeerAddress};
use crate::text::push_char;

verus! {

/// An instant in UTC: seconds since the Unix epoch and the nanoseconds past
/// that second.
#[derive(Clone, Copy, Debug, PartialEq, Eq, Structural)]
pub struct Timestamp {
    pub secs: i64,
    pub nanos: u32,
}

/// Relies on `chrono::Utc::now`: the current time, split into seconds and
/// nanoseconds.
#[verifier::external_body]
pub(crate) fn now() -> (r: Timestamp) {
    let t = chrono::Utc::now();
    Timestamp { secs: t.timestamp(), nanos: t.timestamp_subsec_nanos() }
}

/// The ISO 8601 / RFC 3339 text of an instant, as chrono's `%+` writes it;
/// `None` for an instant chrono cannot represent.
pub uninterp spec fn iso8601_of(secs: i64, nanos: u32) -> Option<Seq<char>>;

/// Relies on `chrono::DateTime::from_timestamp` and its `%+` format.
#[verifier::external_body]
pub(crate) fn iso8601(t: Timestamp) -> (r: Option<String>)
    ensures
        r is None ==> iso8601_of(t.secs, t.nanos) is None,
        r is Some ==> iso8601_of(t.secs, t.nanos) == Some(r->Some_0@),
{
    chrono::DateTime::from_timestamp(t.secs, t.nanos).map(|d| d.format("%+").to_string())
}

/// Relies on `gethostname::gethostname`: the name of this machine, when it
/// is valid Unicode.
#[verifier::external_body]
fn host_name() -> (r: Option<String>) {
    gethostname::gethostname().to_str().map(|s| s.to_string())
}

/// One observed event.
pub enum Data {
    Authentication { username: String, password: Option<String>, key: Option<String> },
    Log(String),
    Command(String),
    Request(String),
    Raw(Vec<u8>),
}

pub enum DataView {
    Authentication { username: Seq<char>, password: Option<Seq<char>>, key: Option<Seq<char>> },
    Log(Seq<char>),
    Command(Seq<char>),
    Request(Seq<char>),
    Raw(Seq<u8>),
}

pub open spec fn opt_view(o: Option<String>) -> Option<Seq<char>> {
    match o {
        Some(s) => Some(s@),
        None => None,
    }
}

impl View for Data {
    type V = DataView;

    open spec fn view(&self) -> DataView {
        match self {
            Data::Authentication { username, password, key } => DataView::Authentication {
                username: username@,
                password: opt_view(*password),
                key: opt_view(*key),
            },
            Data::Log(s) => DataView::Log(s@),
            Data::Command(s) => DataView::Command(s@),
            Data::Request(s) => DataView::Request(s@),
            Data::Raw(b) => DataView::Raw(b@),
        }
    }
}

/// An event with the time it was observed.
pub struct Entry {
    pub time: Timestamp,
    pub data: Data,
}

pub struct EntryView {
    pub time: Timestamp,
    pub data: DataView,
}

impl View for Entry {
    type V = EntryView;

    open spec fn view(&self) -> EntryView {
        EntryView { time: self.time, data: self.data@ }
    }
}

impl Entry {
    /// An entry for `data`, stamped with the current time.
    pub fn new(data: Data) -> (r: Entry)
        ensures
            r.data@ == data@,
    {
        Entry { time: now(), data }
    }
}

/// The entries with each run of adjacent raw entries joined into one raw
/// entry, which keeps the time of the first of the run.
pub open spec fn compacted(es: Seq<EntryView>) -> Seq<EntryView>
    decreases es.len(),
{
    if es.len() == 0 {
        Seq::empty()
    } else {
        let init = compacted(es.drop_last());
        let e = es.last();
        match (e.data, init.len() > 0) {
            (DataView::Raw(b), true) => match init.last().data {
                DataView::Raw(a) => init.drop_last().push(
                    EntryView { time: init.last().time, data: DataView::Raw(a + b) },
                ),
                _ => init.push(e),
            },
            _ => init.push(e),
        }
    }
}

/// The transcript of one session.
pub struct Record {
    pub created_at: Timestamp,
    pub hostname: String,
    pub protocol: String,
    pub service: String,
    pub address: String,
    pub port: u16,
    pub entries: Vec<Entry>,
}

pub open spec fn entries_view(es: Seq<Entry>) -> Seq<EntryView> {
    es.map_values(|e: Entry| e@)
}

impl Record {
    pub open spec fn events(&self) -> Seq<DataView> {
        self.entries@.map_values(|e: Entry| e.data@)
    }

    /// Whether the other fields of `self` and `other` agree.
    pub open spec fn same_header(&self, other: &Record) -> bool {
        &&& self.created_at == other.created_at
        &&& self.hostname@ == other.hostname@
        &&& self.protocol@ == other.protocol@
        &&& self.service@ == other.service@
        &&& self.address@ == other.address@
        &&& self.port == other.port
    }

    fn push(&mut self, data: Data)
        ensures
            final(self).same_header(old(self)),
            final(self).events() == old(self).events().push(data@),
            final(self).entries@.drop_last() == old(self).entries@,
    {
        let ghost d = data@;
        self.entries.push(Entry::new(data));
        assert(self.events() =~= old(self).events().push(d));
        assert(self.entries@.drop_last() =~= old(self).entries@);
    }

    /// Appends a free-form note; the earlier entries stay as they were.
    pub fn log(&mut self, text: String)
        ensures
            final(self).same_header(old(self)),
            final(self).events() == old(self).events().push(DataView::Log(text@)),
            final(self).entries@.drop_last() == old(self).entries@,
    {
        self.push(Data::Log(text))
    }

    /// Appends the credentials a client offered.
    pub fn auth(&mut self, username: String, password: Option<String>, key: Option<String>)
        ensures
            final(self).same_header(old(self)),
            final(self).events() == old(self).events().push(
                DataView::Authentication {
                    username: username@,
                    password: opt_view(password),
                    key: opt_view(key),
                },
            ),
            final(self).entries@.drop_last() == old(self).entries@,
    {
        self.push(Data::Authentication { username, password, key })
    }

    /// Appends a request.
    pub fn request(&mut self, request: String)
        ensures
            final(self).same_header(old(self)),
            final(self).events() == old(self).events().push(DataView::Request(request@)),
            final(self).entries@.drop_last() == old(self).entries@,
    {
        self.push(Data::Request(request))
    }

    /// Appends a command line.
    pub fn command(&mut self, command: String)
        ensures
            final(self).same_header(old(self)),
            final(self).events() == old(self).events().push(DataView::Command(command@)),
            final(self).entries@.drop_last() == old(self).entries@,
    {
        self.push(Data::Command(command))
    }

    /// Appends received bytes.
    pub fn raw(&mut self, data: Vec<u8>)
        ensures
            final(self).same_header(old(self)),
            final(self).events() == old(self).events().push(DataView::Raw(data@)),
            final(self).entries@.drop_last() == old(self).entries@,
    {
        self.push(Data::Raw(data))
    }

    /// The number of entries.
    pub fn size(&self) -> (r: usize)
        ensures
            r == self.entries@.len(),
    {
        self.entries.len()
    }

    /// Joins each run of adjacent raw entries into one.
    pub fn compact(&mut self)
        ensures
            final(self).same_header(old(self)),
            entries_view(final(self).entries@) == compacted(entries_view(old(self).entries@)),
    {
        let mut rest: Vec<Entry> = Vec::new();
        std::mem::swap(&mut rest, &mut self.entries);
        let ghost src = entries_view(rest@);
        let total = rest.len();
        let mut done: usize = 0;
        let mut out: Vec<Entry> = Vec::new();
        while rest.len() > 0
            invariant
                src.len() == total,
                done + rest@.len() == src.len(),
                entries_view(rest@) == src.skip(done as int),
                entries_view(out@) == compacted(src.take(done as int)),
                self.entries@.len() == 0,
                self.same_header(old(self)),
            decreases rest@.len(),
        {
            let ghost before = rest@;
            let e = rest.remove(0);
            let ghost ev = e@;
            assert(ev == src[done as int]) by {
                assert(entries_view(before)[0] == e@);
            }
            assert(src.take(done + 1).drop_last() =~= src.take(done as int));
            assert(src.take(done + 1).last() == ev);
            let merged = match e.data {
                Data::Raw(b) => {
                    let n = out.len();
                    if n > 0 && matches!(out[n - 1].data, Data::Raw(_)) {
                        let last = out.pop().unwrap();
                        match last.data {
                            Data::Raw(a) => {
                                let mut a = a;
                                let mut b = b;
                                a.append(&mut b);
                                out.push(Entry { time: last.time, data: Data::Raw(a) });
                            },
                            _ => {},
                        }
                        true
                    } else {
                        out.push(Entry { time: e.time, data: Data::Raw(b) });
                        false
                    }
                },
                other => {
                    out.push(Entry { time: e.time, data: other });
                    false
                },
            };
            proof {
                let pre = compacted(src.take(done as int));
                if merged {
                    assert(entries_view(out@) =~= pre.drop_last().push(
                        EntryView { time: pre.last().time, data: DataView::Raw(match pre.last().data { DataView::Raw(a) => a, _ => Seq::empty() } + match ev.data { DataView::Raw(b) => b, _ => Seq::empty() }) },
                    ));
                } else {
                    assert(entries_view(out@) =~= pre.push(ev));
                }
                assert(entries_view(rest@) =~= entries_view(before).drop_first());
                assert(entries_view(rest@) =~= src.skip(done + 1));
            }
            done = done + 1;
        }
        assert(src.take(done as int) =~= src);
        self.entries = out;
    }
}

pub open spec fn is_raw(e: EntryView) -> bool {
    e.data is Raw
}

/// Two raw entries logged one after the other are stored as one raw entry
/// holding both payloads in order, stamped with the time of the first.
pub proof fn lemma_adjacent_raw_merge(
    es: Seq<EntryView>,
    t1: Timestamp,
    a: Seq<u8>,
    t2: Timestamp,
    b: Seq<u8>,
)
    ensures
        compacted(
            es.push(EntryView { time: t1, data: DataView::Raw(a) }).push(
                EntryView { time: t2, data: DataView::Raw(b) },
            ),
        ) == compacted(es.push(EntryView { time: t1, data: DataView::Raw(a + b) })),
{
    let e1 = EntryView { time: t1, data: DataView::Raw(a) };
    let e2 = EntryView { time: t2, data: DataView::Raw(b) };
    let e12 = EntryView { time: t1, data: DataView::Raw(a + b) };
    let s1 = es.push(e1);
    let s2 = s1.push(e2);
    let s3 = es.push(e12);
    assert(s2.drop_last() =~= s1);
    assert(s1.drop_last() =~= es);
    assert(s3.drop_last() =~= es);
    let c = compacted(es);
    if c.len() > 0 && is_raw(c.last()) {
        let x = match c.last().data {
            DataView::Raw(x) => x,
            _ => Seq::empty(),
        };
        assert(x + a + b =~= x + (a + b));
        assert(compacted(s1).drop_last() =~= c.drop_last());
    } else {
        assert(compacted(s1).drop_last() =~= c);
    }
}

/// After compaction no two adjacent entries are both raw.
pub proof fn lemma_compacted_no_adjacent_raw(es: Seq<EntryView>)
    ensures
        forall|i: int|
            0 <= i < compacted(es).len() - 1 ==> !(is_raw(#[trigger] compacted(es)[i]) && is_raw(
                compacted(es)[i + 1],
            )),
    decreases es.len(),
{
    if es.len() > 0 {
        let init = es.drop_last();
        lemma_compacted_no_adjacent_raw(init);
        let c = compacted(init);
        let r = compacted(es);
        assert forall|i: int| 0 <= i < r.len() - 1 implies !(is_raw(#[trigger] r[i]) && is_raw(
            r[i + 1],
        )) by {
            if i + 1 < c.len() - 1 || (i + 1 == c.len() - 1 && r.len() == c.len() + 1) {
                assert(r[i] == c[i] && r[i + 1] == c[i + 1]);
            } else if r.len() == c.len() {
                assert(r[i] == c[i]);
                if i > 0 {
                    assert(c[i - 1] == r[i - 1]);
                }
            } else {
                assert(r[i] == c[i]);
            }
        }
    }
}

/// The scalar an entry carries in a stored record: text, or raw bytes.
pub enum Payload {
    Text(String),
    Bytes(Vec<u8>),
}

pub enum PayloadView {
    Text(Seq<char>),
    Bytes(Seq<u8>),
}

impl View for Payload {
    type V = PayloadView;

    open spec fn view(&self) -> PayloadView {
        match self {
            Payload::Text(s) => PayloadView::Text(s@),
            Payload::Bytes(b) => PayloadView::Bytes(b@),
        }
    }
}

/// Credentials as one line of text: `username:<u>`, then ` password:<p>`
/// and ` key:<k>` for those that were offered.
pub open spec fn auth_text(
    username: Seq<char>,
    password: Option<Seq<char>>,
    key: Option<Seq<char>>,
) -> Seq<char> {
    "username:"@ + username + match password {
        Some(p) => " password:"@ + p,
        None => Seq::empty(),
    } + match key {
        Some(k) => " key:"@ + k,
        None => Seq::empty(),
    }
}

/// The type tag of an entry in a stored record.
pub open spec fn kind_name(d: DataView) -> Seq<char> {
    match d {
        DataView::Authentication { .. } => "auth"@,
        DataView::Log(_) => "log"@,
        DataView::Command(_) => "command"@,
        DataView::Request(_) => "request"@,
        DataView::Raw(_) => "raw"@,
    }
}

/// What an entry stores: always a scalar, credentials included.
pub open spec fn payload_of(d: DataView) -> PayloadView {
    match d {
        DataView::Authentication { username, password, key } => PayloadView::Text(
            auth_text(username, password, key),
        ),
        DataView::Log(s) => PayloadView::Text(s),
        DataView::Command(s) => PayloadView::Text(s),
        DataView::Request(s) => PayloadView::Text(s),
        DataView::Raw(b) => PayloadView::Bytes(b),
    }
}

impl Data {
    /// The type tag under which the entry is stored.
    pub fn kind(&self) -> (r: &'static str)
        ensures
            r@ == kind_name(self@),
    {
        match self {
            Data::Authentication { .. } => "auth",
            Data::Log(_) => "log",
            Data::Command(_) => "command",
            Data::Request(_) => "request",
            Data::Raw(_) => "raw",
        }
    }

    /// The scalar under which the entry is stored.
    pub fn payload(&self) -> (r: Payload)
        ensures
            r@ == payload_of(self@),
    {
        match self {
            Data::Authentication { username, password, key } => {
                let mut t = String::from_str("username:");
                t.append(username.as_str());
                match password {
                    Some(p) => {
                        t.append(" password:");
                        t.append(p.as_str());
                    },
                    None => {},
                }
                match key {
                    Some(k) => {
                        t.append(" key:");
                        t.append(k.as_str());
                    },
                    None => {},
                }
                assert(t@ =~= auth_text(username@, opt_view(*password), opt_view(*key)));
                Payload::Text(t)
            },
            Data::Log(s) => Payload::Text(s.clone()),
            Data::Command(s) => Payload::Text(s.clone()),
            Data::Request(s) => Payload::Text(s.clone()),
            Data::Raw(b) => {
                let c = b.clone();
                assert(c@ =~= b@);
                Payload::Bytes(c)
            },
        }
    }
}

/// `dir` followed by the path component `name`.
pub open spec fn join(dir: Seq<char>, name: Seq<char>) -> Seq<char> {
    if dir.len() == 0 {
        name
    } else if dir.last() == '/' {
        dir + name
    } else {
        dir + seq!['/'] + name
    }
}

/// Where a record is stored: `<folder>/<address>/<service>/<start>.json`.
pub open spec fn record_path(
    folder: Seq<char>,
    address: Seq<char>,
    service: Seq<char>,
    start: Seq<char>,
) -> Seq<char> {
    join(join(join(folder, address), service), start + ".json"@)
}

fn push_component(path: &mut String, name: &str)
    ensures
        final(path)@ == join(old(path)@, name@),
{
    let n = path.as_str().unicode_len();
    if n > 0 && path.as_str().get_char(n - 1) != '/' {
        push_char(path, '/');
    }
    path.append(name);
}

impl Record {
    /// The file this record is stored in under `folder`; `None` when its
    /// start time has no calendar form.
    pub fn path(&self, folder: &str) -> (r: Option<String>)
        ensures
            r is None <==> iso8601_of(self.created_at.secs, self.created_at.nanos) is None,
            r is Some ==> r->Some_0@ == record_path(
                folder@,
                self.address@,
                self.service@,
                iso8601_of(self.created_at.secs, self.created_at.nanos)->Some_0,
            ),
    {
        match iso8601(self.created_at) {
            None => None,
            Some(start) => {
                let mut p = String::from_str(folder);
                push_component(&mut p, self.address.as_str());
                push_component(&mut p, self.service.as_str());
                let mut file = start;
                file.append(".json");
                push_component(&mut p, file.as_str());
                Some(p)
            },
        }
    }
}

/// A new, empty record of a session of `service` (spoken over `protocol`)
/// with `peer`, started now.
pub fn for_address(protocol: &str, service: &str, peer: &PeerAddress) -> (r: Record)
    ensures
        r.protocol@ == protocol@,
        r.service@ == service@,
        r.address@ == ip_text(peer.ip),
        r.port == peer.port,
        r.entries@.len() == 0,
{
    let hostname = match host_name() {
        Some(h) => h,
        None => String::from_str("could not detect hostname"),
    };
    Record {
        created_at: now(),
        hostname,
        protocol: String::from_str(protocol),
        service: String::from_str(service),
        address: peer.ip.to_text(),
        port: peer.port,
        entries: Vec::new(),
    }
}

} // verus!
