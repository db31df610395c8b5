//! The UDP engine: each datagram is a session of its own.
use vstd::prelude::*;
use vstd::string::StrSliceExecFns;
use vstd::utf8::encode_utf8;

use crate::config::Service;
use crate::engine::{Reply, ReplyView};
use crate::record::{DataView, Record};
use crate::text::{lossy_text, lossy_text_of, text_bytes};

verus! {

/// Settings of a UDP service.
pub struct Config {
    pub address: String,
    pub banner: String,
    pub timeout: u64,
}

pub const DEFAULT_BANNER: &'static str = "hi";
pub const DEFAULT_TIMEOUT: u64 = 10;

/// Whether `c` holds the settings of `svc`, with defaults for the options it
/// lacks.
pub open spec fn configured(svc: &Service, c: &Config) -> bool {
    &&& c.address@ == svc.address@
    &&& c.banner@ == svc.string_spec("banner"@, DEFAULT_BANNER@)
    &&& c.timeout == svc.unsigned_spec("timeout"@, DEFAULT_TIMEOUT)
}

/// The UDP settings of `svc`, with defaults for the options it lacks.
pub fn from_service(svc: &Service) -> (r: Config)
    ensures
        configured(svc, &r),
{
    Config {
        address: svc.address.clone(),
        banner: svc.string("banner", DEFAULT_BANNER),
        timeout: svc.unsigned("timeout", DEFAULT_TIMEOUT),
    }
}

/// What to do with one received datagram.
pub struct UdpPlan {
    /// The banner to send back first, if one is configured.
    pub banner: Option<Vec<u8>>,
    /// The text to resolve.
    pub input: String,
}

/// Records a received datagram in the peer's fresh `record` and says what
/// to send and to resolve.
pub fn on_datagram(config: &Config, record: &mut Record, datagram: Vec<u8>) -> (r: UdpPlan)
    ensures
        final(record).same_header(old(record)),
        final(record).events() == old(record).events().push(DataView::Raw(datagram@)),
        r.input@ == lossy_text_of(datagram@),
        config.banner@.len() > 0 ==> r.banner is Some && r.banner->Some_0@ == encode_utf8(
            config.banner@,
        ),
        config.banner@.len() == 0 ==> r.banner is None,
{
    let banner = if config.banner.as_str().unicode_len() > 0 {
        Some(text_bytes(config.banner.as_str()))
    } else {
        None
    };
    let input = lossy_text(datagram.as_slice());
    record.raw(datagram);
    UdpPlan { banner, input }
}

/// The datagram to answer with: the rules' output; nothing when no rule
/// matched or the rule ends the exchange.
pub fn answer(reply: Reply) -> (r: Option<Vec<u8>>)
    ensures
        match reply@ {
            ReplyView::Output(b) => r is Some && r->Some_0@ == b,
            _ => r is None,
        },
{
    match reply {
        Reply::Output(b) => Some(b),
        _ => None,
    }
}

} // verus!
