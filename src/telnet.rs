//! The Telnet engine as a state machine: the caller performs each action on
//! the connection and feeds back what happened.
use vstd::prelude::*;
use vstd::string::{StrSliceExecFns, StringExecFns};
use vstd::utf8::encode_utf8;

use crate::config::Service;
use crate::engine::{
    alnum_word, chunk_text, command_lines, lines_of, not_found_message, not_found_text,
    plain_not_found, prompt_answer, Reply, ReplyView,
};
use crate::record::{opt_view, DataView, Record};
use crate::text::{lossy_text, text_bytes, trim};

verus! {

/// Settings of a Telnet service.
pub struct Config {
    pub address: String,
    pub banner: String,
    pub login_prompt: String,
    pub password_prompt: String,
    pub prompt: String,
    pub timeout: u64,
}

pub const DEFAULT_BANNER: &'static str = "server v1.0";
pub const DEFAULT_LOGIN_PROMPT: &'static str = "login: ";
pub const DEFAULT_PASSWORD_PROMPT: &'static str = "password: ";
pub const DEFAULT_PROMPT: &'static str = "# ";
pub const DEFAULT_TIMEOUT: u64 = 10;

/// Whether `c` holds the settings of `svc`, with defaults for the options it
/// lacks.
pub open spec fn configured(svc: &Service, c: &Config) -> bool {
    &&& c.address@ == svc.address@
    &&& c.banner@ == svc.string_spec("banner"@, DEFAULT_BANNER@)
    &&& c.login_prompt@ == svc.string_spec("login_prompt"@, DEFAULT_LOGIN_PROMPT@)
    &&& c.password_prompt@ == svc.string_spec("password_prompt"@, DEFAULT_PASSWORD_PROMPT@)
    &&& c.prompt@ == svc.string_spec("prompt"@, DEFAULT_PROMPT@)
    &&& c.timeout == svc.unsigned_spec("timeout"@, DEFAULT_TIMEOUT)
}

/// The Telnet settings of `svc`, with defaults for the options it lacks.
pub fn from_service(svc: &Service) -> (r: Config)
    ensures
        configured(svc, &r),
{
    Config {
        address: svc.address.clone(),
        banner: svc.string("banner", DEFAULT_BANNER),
        login_prompt: svc.string("login_prompt", DEFAULT_LOGIN_PROMPT),
        password_prompt: svc.string("password_prompt", DEFAULT_PASSWORD_PROMPT),
        prompt: svc.string("prompt", DEFAULT_PROMPT),
        timeout: svc.unsigned("timeout", DEFAULT_TIMEOUT),
    }
}

/// Where a session stands.
#[derive(Clone, Copy, Debug, PartialEq, Eq, Structural)]
pub enum TelnetPhase {
    /// Option negotiation sent; waiting for the client's own, briefly.
    Negotiating,
    /// Banner being sent.
    Banner,
    /// Login prompt sent; waiting for the user name.
    Login,
    /// Password prompt sent; waiting for the password.
    Password,
    /// Command prompt sent; waiting for commands.
    Command,
    /// A command line is with the rules.
    Resolving,
    /// An answer is being sent.
    Writing,
    /// The session is over.
    Done,
}

/// What the caller does next.
pub enum TelnetAction {
    /// Send `send`, then read one chunk: within the short negotiation grace
    /// period when `grace`, else within the configured timeout.
    Exchange { send: Vec<u8>, grace: bool },
    /// Send these bytes.
    Send(Vec<u8>),
    /// Resolve this command line with the service's rules.
    Resolve(String),
    /// Close the connection and store the record.
    Finish,
}

pub enum TelnetActionView {
    Exchange { send: Seq<u8>, grace: bool },
    Send(Seq<u8>),
    Resolve(Seq<char>),
    Finish,
}

impl View for TelnetAction {
    type V = TelnetActionView;

    open spec fn view(&self) -> TelnetActionView {
        match self {
            TelnetAction::Exchange { send, grace } => TelnetActionView::Exchange {
                send: send@,
                grace: *grace,
            },
            TelnetAction::Send(b) => TelnetActionView::Send(b@),
            TelnetAction::Resolve(s) => TelnetActionView::Resolve(s@),
            TelnetAction::Finish => TelnetActionView::Finish,
        }
    }
}

/// What happened to the last action.
pub enum TelnetEvent {
    /// A `Send` went out (`true`) or failed.
    Sent(bool),
    /// An `Exchange`: whether the bytes went out, and the chunk read (`None`
    /// when the read failed or timed out; empty at end of stream).
    Exchanged { sent: bool, received: Option<Vec<u8>> },
    /// The rules' answer to a `Resolve`.
    Answered(Reply),
}

pub enum TelnetEventView {
    Sent(bool),
    Exchanged { sent: bool, received: Option<Seq<u8>> },
    Answered(ReplyView),
}

impl View for TelnetEvent {
    type V = TelnetEventView;

    open spec fn view(&self) -> TelnetEventView {
        match self {
            TelnetEvent::Sent(b) => TelnetEventView::Sent(*b),
            TelnetEvent::Exchanged { sent, received } => TelnetEventView::Exchanged {
                sent: *sent,
                received: match received {
                    Some(b) => Some(b@),
                    None => None,
                },
            },
            TelnetEvent::Answered(r) => TelnetEventView::Answered(r@),
        }
    }
}

/// Telnet: IAC WON'T ECHO.
pub open spec fn wont_echo() -> Seq<u8> {
    seq![255u8, 252u8, 1u8]
}

pub open spec fn crlf_bytes() -> Seq<u8> {
    seq![13u8, 10u8]
}

/// The state of a session, in terms of views.
pub struct TelnetView {
    pub phase: TelnetPhase,
    pub username: Option<Seq<char>>,
    pub password: Option<Seq<char>>,
    pub pending: Seq<Seq<char>>,
    pub current: Seq<char>,
    pub events: Seq<DataView>,
}

/// One Telnet session.
pub struct TelnetSession {
    pub config: Config,
    pub record: Record,
    pub phase: TelnetPhase,
    /// The user name read at the login prompt.
    pub username: Option<String>,
    /// The password read at the password prompt.
    pub password: Option<String>,
    /// Command lines received and not yet answered.
    pub pending: Vec<String>,
    /// The command line being answered.
    pub current: String,
}

/// The prompt for the command lines.
pub open spec fn command_step(cfg: Config, s: TelnetView) -> (TelnetView, TelnetActionView) {
    (
        TelnetView { phase: TelnetPhase::Command, pending: Seq::empty(), ..s },
        TelnetActionView::Exchange { send: encode_utf8(cfg.prompt@), grace: false },
    )
}

/// The credentials are complete: they are recorded (when a user name was
/// given) before the first command prompt.
pub open spec fn credentials_done(cfg: Config, s: TelnetView) -> (TelnetView, TelnetActionView) {
    let events = match s.username {
        Some(u) => s.events.push(
            DataView::Authentication { username: u, password: s.password, key: None },
        ),
        None => s.events,
    };
    command_step(cfg, TelnetView { events, ..s })
}

pub open spec fn password_step(cfg: Config, s: TelnetView) -> (TelnetView, TelnetActionView) {
    if cfg.password_prompt@.len() > 0 {
        (
            TelnetView { phase: TelnetPhase::Password, ..s },
            TelnetActionView::Exchange { send: encode_utf8(cfg.password_prompt@), grace: false },
        )
    } else {
        credentials_done(cfg, s)
    }
}

pub open spec fn login_step(cfg: Config, s: TelnetView) -> (TelnetView, TelnetActionView) {
    if cfg.login_prompt@.len() > 0 {
        (
            TelnetView { phase: TelnetPhase::Login, ..s },
            TelnetActionView::Exchange { send: encode_utf8(cfg.login_prompt@), grace: false },
        )
    } else {
        password_step(cfg, s)
    }
}

pub open spec fn banner_step(cfg: Config, s: TelnetView) -> (TelnetView, TelnetActionView) {
    if cfg.banner@.len() > 0 {
        (
            TelnetView { phase: TelnetPhase::Banner, ..s },
            TelnetActionView::Send(encode_utf8(cfg.banner@) + crlf_bytes()),
        )
    } else {
        login_step(cfg, s)
    }
}

/// The session ends: a last note, then the connection closes.
pub open spec fn finish_step(s: TelnetView) -> (TelnetView, TelnetActionView) {
    (
        TelnetView {
            phase: TelnetPhase::Done,
            events: s.events.push(DataView::Log("disconnected"@)),
            ..s
        },
        TelnetActionView::Finish,
    )
}

/// The next pending command line goes to the rules, recorded first; with
/// none left, the prompt is shown again.
pub open spec fn line_step(cfg: Config, s: TelnetView) -> (TelnetView, TelnetActionView) {
    if s.pending.len() == 0 {
        command_step(cfg, s)
    } else {
        let line = s.pending[0];
        (
            TelnetView {
                phase: TelnetPhase::Resolving,
                pending: s.pending.drop_first(),
                current: line,
                events: s.events.push(DataView::Command(line)),
                ..s
            },
            TelnetActionView::Resolve(line),
        )
    }
}

/// The text a prompt read yields, when the prompt went out.
pub open spec fn answer_of(sent: bool, received: Option<Seq<u8>>) -> Option<Seq<char>> {
    match received {
        Some(b) if sent && b.len() > 0 => Some(chunk_text(b)),
        _ => None,
    }
}

/// The session's next state and action after `e`.
pub open spec fn telnet_next(cfg: Config, s: TelnetView, e: TelnetEventView) -> (
    TelnetView,
    TelnetActionView,
) {
    match (s.phase, e) {
        (TelnetPhase::Negotiating, TelnetEventView::Exchanged { sent, .. }) => if sent {
            banner_step(cfg, s)
        } else {
            finish_step(s)
        },
        (TelnetPhase::Banner, TelnetEventView::Sent(ok)) => if ok {
            login_step(cfg, s)
        } else {
            finish_step(s)
        },
        (TelnetPhase::Login, TelnetEventView::Exchanged { sent, received }) => password_step(
            cfg,
            TelnetView { username: answer_of(sent, received), ..s },
        ),
        (TelnetPhase::Password, TelnetEventView::Exchanged { sent, received }) => credentials_done(
            cfg,
            TelnetView { password: answer_of(sent, received), ..s },
        ),
        (TelnetPhase::Command, TelnetEventView::Exchanged { sent, received }) => match answer_of(
            sent,
            received,
        ) {
            Some(text) => line_step(cfg, TelnetView { pending: command_lines(text), ..s }),
            None => finish_step(s),
        },
        (TelnetPhase::Resolving, TelnetEventView::Answered(r)) => match r {
            ReplyView::Exit => finish_step(s),
            ReplyView::Output(b) => (
                TelnetView { phase: TelnetPhase::Writing, ..s },
                TelnetActionView::Send(b + crlf_bytes()),
            ),
            ReplyView::NotFound => (
                TelnetView { phase: TelnetPhase::Writing, ..s },
                TelnetActionView::Send(encode_utf8(not_found_text(s.current)) + crlf_bytes()),
            ),
        },
        (TelnetPhase::Writing, TelnetEventView::Sent(ok)) => if ok {
            line_step(cfg, s)
        } else {
            finish_step(s)
        },
        _ => finish_step(s),
    }
}

impl TelnetSession {
    pub open spec fn view(&self) -> TelnetView {
        TelnetView {
            phase: self.phase,
            username: opt_view(self.username),
            password: opt_view(self.password),
            pending: crate::template::texts(self.pending@),
            current: self.current@,
            events: self.record.events(),
        }
    }

    /// Where the session stands.
    pub fn phase(&self) -> (r: TelnetPhase)
        ensures
            r == self.view().phase,
    {
        self.phase
    }

    /// A new session recorded in `record`: notes the connection and opens
    /// the option negotiation.
    pub fn start(config: Config, record: Record) -> (r: (TelnetSession, TelnetAction))
        ensures
            r.0.view().phase == TelnetPhase::Negotiating,
            r.0.view().username is None,
            r.0.view().password is None,
            r.0.view().pending.len() == 0,
            r.0.view().events == record.events().push(DataView::Log("connected"@)),
            r.0.config == config,
            r.1@ == (TelnetActionView::Exchange { send: wont_echo(), grace: true }),
    {
        let mut record = record;
        record.log(String::from_str("connected"));
        let s = TelnetSession {
            config,
            record,
            phase: TelnetPhase::Negotiating,
            username: None,
            password: None,
            pending: Vec::new(),
            current: String::new(),
        };
        assert(s.view().pending =~= Seq::<Seq<char>>::empty());
        let send: Vec<u8> = vec![255u8, 252u8, 1u8];
        assert(send@ =~= wont_echo());
        (s, TelnetAction::Exchange { send, grace: true })
    }

    fn finish(&mut self) -> (r: TelnetAction)
        ensures
            (final(self).view(), r@) == finish_step(old(self).view()),
            final(self).config == old(self).config,
    {
        self.record.log(String::from_str("disconnected"));
        self.phase = TelnetPhase::Done;
        proof {
            reveal_strlit("disconnected");
        }
        TelnetAction::Finish
    }

    fn to_commands(&mut self) -> (r: TelnetAction)
        ensures
            (final(self).view(), r@) == command_step(old(self).config, old(self).view()),
            final(self).config == old(self).config,
    {
        self.phase = TelnetPhase::Command;
        self.pending = Vec::new();
        assert(self.view().pending =~= Seq::<Seq<char>>::empty());
        TelnetAction::Exchange { send: text_bytes(self.config.prompt.as_str()), grace: false }
    }

    fn credentials_done(&mut self) -> (r: TelnetAction)
        ensures
            (final(self).view(), r@) == credentials_done(old(self).config, old(self).view()),
            final(self).config == old(self).config,
    {
        match &self.username {
            Some(u) => {
                let user = u.clone();
                let pass = match &self.password {
                    Some(p) => Some(p.clone()),
                    None => None,
                };
                self.record.auth(user, pass, None);
            },
            None => {},
        }
        self.to_commands()
    }

    fn password_step(&mut self) -> (r: TelnetAction)
        ensures
            (final(self).view(), r@) == password_step(old(self).config, old(self).view()),
            final(self).config == old(self).config,
    {
        if self.config.password_prompt.as_str().unicode_len() > 0 {
            self.phase = TelnetPhase::Password;
            TelnetAction::Exchange {
                send: text_bytes(self.config.password_prompt.as_str()),
                grace: false,
            }
        } else {
            self.credentials_done()
        }
    }

    fn login_step(&mut self) -> (r: TelnetAction)
        ensures
            (final(self).view(), r@) == login_step(old(self).config, old(self).view()),
            final(self).config == old(self).config,
    {
        if self.config.login_prompt.as_str().unicode_len() > 0 {
            self.phase = TelnetPhase::Login;
            TelnetAction::Exchange {
                send: text_bytes(self.config.login_prompt.as_str()),
                grace: false,
            }
        } else {
            self.password_step()
        }
    }

    fn banner_step(&mut self) -> (r: TelnetAction)
        ensures
            (final(self).view(), r@) == banner_step(old(self).config, old(self).view()),
            final(self).config == old(self).config,
    {
        if self.config.banner.as_str().unicode_len() > 0 {
            self.phase = TelnetPhase::Banner;
            let mut b = text_bytes(self.config.banner.as_str());
            b.push(13);
            b.push(10);
            assert(b@ =~= encode_utf8(self.config.banner@) + crlf_bytes());
            TelnetAction::Send(b)
        } else {
            self.login_step()
        }
    }

    fn line_step(&mut self) -> (r: TelnetAction)
        ensures
            (final(self).view(), r@) == line_step(old(self).config, old(self).view()),
            final(self).config == old(self).config,
    {
        if self.pending.len() == 0 {
            self.to_commands()
        } else {
            let ghost before = crate::template::texts(self.pending@);
            let line = self.pending.remove(0);
            assert(line@ == before[0]);
            assert(crate::template::texts(self.pending@) =~= before.drop_first());
            self.current = line.clone();
            self.record.command(line.clone());
            self.phase = TelnetPhase::Resolving;
            TelnetAction::Resolve(line)
        }
    }

    /// Takes what happened to the last action and returns the next one.
    pub fn on_event(&mut self, event: TelnetEvent) -> (r: TelnetAction)
        requires
            old(self).view().phase != TelnetPhase::Done,
        ensures
            (final(self).view(), r@) == telnet_next(old(self).config, old(self).view(), event@),
            final(self).config == old(self).config,
            old(self).phase == TelnetPhase::Resolving && event@ == TelnetEventView::Answered(
                ReplyView::NotFound,
            ) && alnum_word(old(self).current@) ==> r@ == TelnetActionView::Send(
                encode_utf8(plain_not_found(old(self).current@)) + crlf_bytes(),
            ),
    {
        match (self.phase, event) {
            (TelnetPhase::Negotiating, TelnetEvent::Exchanged { sent, .. }) => {
                if sent {
                    self.banner_step()
                } else {
                    self.finish()
                }
            },
            (TelnetPhase::Banner, TelnetEvent::Sent(ok)) => {
                if ok {
                    self.login_step()
                } else {
                    self.finish()
                }
            },
            (TelnetPhase::Login, TelnetEvent::Exchanged { sent, received }) => {
                self.username = if sent { prompt_answer(&received) } else { None };
                self.password_step()
            },
            (TelnetPhase::Password, TelnetEvent::Exchanged { sent, received }) => {
                self.password = if sent { prompt_answer(&received) } else { None };
                self.credentials_done()
            },
            (TelnetPhase::Command, TelnetEvent::Exchanged { sent, received }) => {
                let text = if sent { prompt_answer(&received) } else { None };
                match text {
                    Some(t) => {
                        self.pending = lines_of(t.as_str());
                        self.line_step()
                    },
                    None => self.finish(),
                }
            },
            (TelnetPhase::Resolving, TelnetEvent::Answered(reply)) => {
                match reply {
                    Reply::Exit => self.finish(),
                    Reply::Output(b) => {
                        self.phase = TelnetPhase::Writing;
                        let ghost bv = b@;
                        let mut b = b;
                        b.push(13);
                        b.push(10);
                        assert(b@ =~= bv + crlf_bytes());
                        TelnetAction::Send(b)
                    },
                    Reply::NotFound => {
                        self.phase = TelnetPhase::Writing;
                        let m = not_found_message(self.current.as_str());
                        let mut b = text_bytes(m.as_str());
                        b.push(13);
                        b.push(10);
                        assert(b@ =~= encode_utf8(not_found_text(self.current@)) + crlf_bytes());
                        TelnetAction::Send(b)
                    },
                }
            },
            (TelnetPhase::Writing, TelnetEvent::Sent(ok)) => {
                if ok {
                    self.line_step()
                } else {
                    self.finish()
                }
            },
            _ => self.finish(),
        }
    }
}

/// Credentials come before commands: once the password prompt has been
/// answered, the user name and password are recorded as one entry, and only
/// then is the command prompt shown.
pub proof fn lemma_credentials_before_prompt(
    cfg: Config,
    s: TelnetView,
    sent: bool,
    received: Option<Seq<u8>>,
)
    requires
        s.phase == TelnetPhase::Password,
        s.username is Some,
    ensures
        ({
            let (next, action) = telnet_next(
                cfg,
                s,
                TelnetEventView::Exchanged { sent, received },
            );
            &&& next.events == s.events.push(
                DataView::Authentication {
                    username: s.username->Some_0,
                    password: answer_of(sent, received),
                    key: None,
                },
            )
            &&& next.phase == TelnetPhase::Command
            &&& action == TelnetActionView::Exchange { send: encode_utf8(cfg.prompt@), grace: false }
        }),
{
}

} // verus!
