//! The raw TCP engine as a state machine: an optional banner, then each
//! chunk received is recorded and answered.
use vstd::prelude::*;
use vstd::string::{StrSliceExecFns, StringExecFns};
use vstd::utf8::encode_utf8;

use crate::config::Service;
use crate::engine::{
    alnum_word, chunk_text, not_found_message, not_found_text, plain_not_found, Reply, ReplyView,
};
use crate::record::{DataView, Record};
use crate::text::{lossy_text, lossy_text_of, text_bytes, trim};

verus! {

/// Settings of a raw TCP service.
pub struct Config {
    pub address: String,
    pub banner: String,
    pub timeout: u64,
}

pub const DEFAULT_TIMEOUT: u64 = 10;

/// Whether `c` holds the settings of `svc`, with defaults for the options it
/// lacks.
pub open spec fn configured(svc: &Service, c: &Config) -> bool {
    &&& c.address@ == svc.address@
    &&& c.banner@ == svc.string_spec("banner"@, ""@)
    &&& c.timeout == svc.unsigned_spec("timeout"@, DEFAULT_TIMEOUT)
}

/// The TCP settings of `svc`: no banner and the default timeout unless set.
pub fn from_service(svc: &Service) -> (r: Config)
    ensures
        configured(svc, &r),
{
    Config {
        address: svc.address.clone(),
        banner: svc.string("banner", ""),
        timeout: svc.unsigned("timeout", DEFAULT_TIMEOUT),
    }
}

#[derive(Clone, Copy, Debug, PartialEq, Eq, Structural)]
pub enum TcpPhase {
    Banner,
    Reading,
    Resolving,
    Writing,
    Done,
}

/// What the caller does next.
pub enum TcpAction {
    Send(Vec<u8>),
    /// Read one chunk within the configured timeout.
    Receive,
    /// Resolve this text with the service's rules.
    Resolve(String),
    /// Close the connection and store the record.
    Finish,
}

pub enum TcpActionView {
    Send(Seq<u8>),
    Receive,
    Resolve(Seq<char>),
    Finish,
}

impl View for TcpAction {
    type V = TcpActionView;

    open spec fn view(&self) -> TcpActionView {
        match self {
            TcpAction::Send(b) => TcpActionView::Send(b@),
            TcpAction::Receive => TcpActionView::Receive,
            TcpAction::Resolve(s) => TcpActionView::Resolve(s@),
            TcpAction::Finish => TcpActionView::Finish,
        }
    }
}

/// What happened to the last action.
pub enum TcpEvent {
    Sent(bool),
    /// The chunk read; `None` when the read failed or timed out.
    Received(Option<Vec<u8>>),
    Answered(Reply),
}

pub enum TcpEventView {
    Sent(bool),
    Received(Option<Seq<u8>>),
    Answered(ReplyView),
}

impl View for TcpEvent {
    type V = TcpEventView;

    open spec fn view(&self) -> TcpEventView {
        match self {
            TcpEvent::Sent(b) => TcpEventView::Sent(*b),
            TcpEvent::Received(o) => TcpEventView::Received(
                match o {
                    Some(b) => Some(b@),
                    None => None,
                },
            ),
            TcpEvent::Answered(r) => TcpEventView::Answered(r@),
        }
    }
}

/// One TCP session.
pub struct TcpSession {
    pub config: Config,
    pub record: Record,
    pub phase: TcpPhase,
    /// The text being answered.
    pub current: String,
}

/// The session ends: a last note, then the connection closes.
pub open spec fn finish_step(events: Seq<DataView>) -> (
    TcpPhase,
    Seq<DataView>,
    TcpActionView,
) {
    (TcpPhase::Done, events.push(DataView::Log("disconnected"@)), TcpActionView::Finish)
}

/// The next phase, the record's entries and the action after `e`.
pub open spec fn tcp_next(phase: TcpPhase, current: Seq<char>, events: Seq<DataView>, e: TcpEventView) -> (
    TcpPhase,
    Seq<DataView>,
    TcpActionView,
) {
    match (phase, e) {
        (TcpPhase::Banner, TcpEventView::Sent(true)) => (TcpPhase::Reading, events, TcpActionView::Receive),
        (TcpPhase::Reading, TcpEventView::Received(Some(b))) if b.len() > 0 => (
            TcpPhase::Resolving,
            events.push(DataView::Raw(b)),
            TcpActionView::Resolve(lossy_text_of(b)),
        ),
        (TcpPhase::Resolving, TcpEventView::Answered(ReplyView::Output(b))) => (
            TcpPhase::Writing,
            events,
            TcpActionView::Send(b),
        ),
        (TcpPhase::Resolving, TcpEventView::Answered(ReplyView::NotFound)) => (
            TcpPhase::Writing,
            events,
            TcpActionView::Send(encode_utf8(not_found_text(current))),
        ),
        (TcpPhase::Writing, TcpEventView::Sent(_)) => (TcpPhase::Reading, events, TcpActionView::Receive),
        _ => finish_step(events),
    }
}

impl TcpSession {
    /// A new session: notes the connection, then sends the banner; without
    /// a banner there is nothing to answer and the session ends.
    pub fn start(config: Config, record: Record) -> (r: (TcpSession, TcpAction))
        ensures
            config.banner@.len() > 0 ==> r.0.phase == TcpPhase::Banner && r.1@ == TcpActionView::Send(
                encode_utf8(config.banner@) + seq![13u8, 10u8],
            ) && r.0.record.events() == record.events().push(DataView::Log("connected"@)),
            config.banner@.len() == 0 ==> r.0.phase == TcpPhase::Done && r.1@ == TcpActionView::Finish
                && r.0.record.events() == record.events().push(DataView::Log("connected"@)).push(
                DataView::Log("disconnected"@),
            ),
    {
        let mut record = record;
        record.log(String::from_str("connected"));
        if config.banner.as_str().unicode_len() > 0 {
            let mut b = text_bytes(config.banner.as_str());
            b.push(13);
            b.push(10);
            assert(b@ =~= encode_utf8(config.banner@) + seq![13u8, 10u8]);
            (TcpSession { config, record, phase: TcpPhase::Banner, current: String::new() }, TcpAction::Send(b))
        } else {
            record.log(String::from_str("disconnected"));
            (TcpSession { config, record, phase: TcpPhase::Done, current: String::new() }, TcpAction::Finish)
        }
    }

    /// Takes what happened to the last action and returns the next one.
    pub fn on_event(&mut self, event: TcpEvent) -> (r: TcpAction)
        requires
            old(self).phase != TcpPhase::Done,
        ensures
            (final(self).phase, final(self).record.events(), r@) == tcp_next(
                old(self).phase,
                old(self).current@,
                old(self).record.events(),
                event@,
            ),
            final(self).record.same_header(&old(self).record),
            final(self).phase == TcpPhase::Resolving ==> match event@ {
                TcpEventView::Received(Some(b)) => final(self).current@ == chunk_text(b),
                _ => false,
            },
            final(self).phase != TcpPhase::Resolving ==> final(self).current == old(self).current,
            old(self).phase == TcpPhase::Resolving && event@ == TcpEventView::Answered(
                ReplyView::NotFound,
            ) && alnum_word(old(self).current@) ==> r@ == TcpActionView::Send(
                encode_utf8(plain_not_found(old(self).current@)),
            ),
    {
        match (self.phase, event) {
            (TcpPhase::Banner, TcpEvent::Sent(true)) => {
                self.phase = TcpPhase::Reading;
                TcpAction::Receive
            },
            (TcpPhase::Reading, TcpEvent::Received(Some(b))) => {
                if b.len() > 0 {
                    let text = lossy_text(b.as_slice());
                    self.record.raw(b);
                    self.current = trim(text.as_str());
                    self.phase = TcpPhase::Resolving;
                    TcpAction::Resolve(text)
                } else {
                    self.finish()
                }
            },
            (TcpPhase::Resolving, TcpEvent::Answered(Reply::Output(b))) => {
                self.phase = TcpPhase::Writing;
                TcpAction::Send(b)
            },
            (TcpPhase::Resolving, TcpEvent::Answered(Reply::NotFound)) => {
                self.phase = TcpPhase::Writing;
                let m = not_found_message(self.current.as_str());
                TcpAction::Send(text_bytes(m.as_str()))
            },
            (TcpPhase::Writing, TcpEvent::Sent(_)) => {
                self.phase = TcpPhase::Reading;
                TcpAction::Receive
            },
            _ => self.finish(),
        }
    }

    fn finish(&mut self) -> (r: TcpAction)
        ensures
            (final(self).phase, final(self).record.events(), r@) == finish_step(
                old(self).record.events(),
            ),
            final(self).record.same_header(&old(self).record),
            final(self).current == old(self).current,
    {
        self.record.log(String::from_str("disconnected"));
        self.phase = TcpPhase::Done;
        TcpAction::Finish
    }
}

} // verus!
