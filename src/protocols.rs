//! The closed set of emulated protocols, chosen by name when a service is
//! built.
use vstd::prelude::*;
use vstd::string::StringExecFns;

use crate::config::Service;
use crate::text::same_text;

verus! {

/// A service's settings, by protocol.
pub enum Settings {
    Tcp(crate::tcp::Config),
    Udp(crate::udp::Config),
    Telnet(crate::telnet::Config),
    Http(crate::http::Config),
    Ssh(crate::ssh::Config),
}

/// The protocol names that can be served.
pub open spec fn supported(name: Seq<char>) -> bool {
    name == "tcp"@ || name == "udp"@ || name == "telnet"@ || name == "http"@ || name == "ssh"@
}

/// The settings of `service` for the protocol named `protocol_name`; an
/// unknown name is an error that names it.
pub fn factory(protocol_name: &str, service: &Service) -> (r: Result<Settings, String>)
    ensures
        r is Ok <==> supported(protocol_name@),
        protocol_name@ == "tcp"@ ==> (r matches Ok(Settings::Tcp(c)) && crate::tcp::configured(
            service,
            &c,
        )),
        protocol_name@ == "udp"@ ==> (r matches Ok(Settings::Udp(c)) && crate::udp::configured(
            service,
            &c,
        )),
        protocol_name@ == "telnet"@ ==> (r matches Ok(Settings::Telnet(c)) && crate::telnet::configured(
            service,
            &c,
        )),
        protocol_name@ == "http"@ ==> (r matches Ok(Settings::Http(c)) && crate::http::configured(
            service,
            &c,
        )),
        protocol_name@ == "ssh"@ ==> (r matches Ok(Settings::Ssh(c)) && crate::ssh::configured(
            service,
            &c,
        )),
        r is Err ==> r->Err_0@ == "protocol '"@ + protocol_name@ + "' is not supported"@,
{
    proof {
        reveal_strlit("tcp");
        reveal_strlit("udp");
        reveal_strlit("telnet");
        reveal_strlit("http");
        reveal_strlit("ssh");
        let names = seq!["tcp"@, "udp"@, "telnet"@, "http"@, "ssh"@];
        assert("tcp"@[0] == 't' && "udp"@[0] == 'u' && "telnet"@[0] == 't' && "http"@[0] == 'h'
            && "ssh"@[0] == 's');
        assert("tcp"@.len() == 3 && "telnet"@.len() == 6);
        assert(forall|i: int, j: int|
            0 <= i < 5 && 0 <= j < 5 && i != j ==> #[trigger] names[i] != #[trigger] names[j]);
    }
    if same_text(protocol_name, "tcp") {
        Ok(Settings::Tcp(crate::tcp::from_service(service)))
    } else if same_text(protocol_name, "udp") {
        Ok(Settings::Udp(crate::udp::from_service(service)))
    } else if same_text(protocol_name, "telnet") {
        Ok(Settings::Telnet(crate::telnet::from_service(service)))
    } else if same_text(protocol_name, "http") {
        Ok(Settings::Http(crate::http::from_service(service)))
    } else if same_text(protocol_name, "ssh") {
        Ok(Settings::Ssh(crate::ssh::from_service(service)))
    } else {
        let mut e = String::from_str("protocol '");
        e.append(protocol_name);
        e.append("' is not supported");
        Err(e)
    }
}

} // verus!
