use medusa::config::{ConfigValue, Service};
use medusa::docker::{
    create_exec_request, exec, parse_create_response, parse_start_response, start_exec_request,
    DockerExec, ExecStage, ExecStep,
};
use medusa::engine::Reply;
use medusa::http::{choose_key, on_close, on_request, open_error, reply_response, response, KeyEncoding};
use medusa::net::{IpAddress, PeerAddress};
use medusa::protocols::{factory, Settings};
use medusa::record::{for_address, Data};
use medusa::ssh::{command_of, Answer, ClientHandler, Keystrokes, ServerId, Config as SshConfig};
use medusa::tcp::{TcpAction, Config as TcpConfig, TcpEvent, TcpPhase, TcpSession};
use medusa::telnet::{TelnetAction, Config as TelnetConfig, TelnetEvent, TelnetPhase, TelnetSession};
use medusa::udp::{answer, on_datagram, Config as UdpConfig};

fn peer() -> PeerAddress {
    PeerAddress { ip: IpAddress::V4(0x7f00_0001), port: 5555 }
}

fn telnet_config() -> TelnetConfig {
    TelnetConfig {
        address: "0.0.0.0:23".to_string(),
        banner: "Welcome".to_string(),
        login_prompt: "login: ".to_string(),
        password_prompt: "password: ".to_string(),
        prompt: "# ".to_string(),
        timeout: 10,
    }
}

fn sent_bytes(a: TelnetAction) -> Vec<u8> {
    match a {
        TelnetAction::Exchange { send, .. } => send,
        TelnetAction::Send(b) => b,
        _ => panic!("expected bytes to send"),
    }
}

fn exchanged(b: &[u8]) -> TelnetEvent {
    TelnetEvent::Exchanged { sent: true, received: Some(b.to_vec()) }
}

#[test]
fn telnet_credentials_recorded_before_prompt() {
    let (mut s, a) = TelnetSession::start(telnet_config(), for_address("telnet", "t", &peer()));
    assert!(matches!(a, TelnetAction::Exchange { ref send, grace: true } if send == &vec![255u8, 252, 1]));
    let a = s.on_event(TelnetEvent::Exchanged { sent: true, received: None });
    assert_eq!(sent_bytes(a), b"Welcome\r\n".to_vec());
    let a = s.on_event(TelnetEvent::Sent(true));
    assert_eq!(sent_bytes(a), b"login: ".to_vec());
    let a = s.on_event(exchanged(b"root\r\n"));
    assert_eq!(sent_bytes(a), b"password: ".to_vec());
    let auths = s.record.entries.iter().filter(|e| matches!(e.data, Data::Authentication { .. })).count();
    assert_eq!(auths, 0);
    let a = s.on_event(exchanged(b"toor\r\n"));
    assert_eq!(sent_bytes(a), b"# ".to_vec());
    assert_eq!(s.phase(), TelnetPhase::Command);
    let auths: Vec<&Data> = s
        .record
        .entries
        .iter()
        .map(|e| &e.data)
        .filter(|d| matches!(d, Data::Authentication { .. }))
        .collect();
    assert_eq!(auths.len(), 1);
    match auths[0] {
        Data::Authentication { username, password, key } => {
            assert_eq!(username, "root");
            assert_eq!(password.as_deref(), Some("toor"));
            assert!(key.is_none());
        }
        _ => unreachable!(),
    }
}

#[test]
fn telnet_unknown_command_reply() {
    let (mut s, _) = TelnetSession::start(telnet_config(), for_address("telnet", "t", &peer()));
    s.on_event(TelnetEvent::Exchanged { sent: true, received: None });
    s.on_event(TelnetEvent::Sent(true));
    s.on_event(TelnetEvent::Exchanged { sent: true, received: None });
    s.on_event(TelnetEvent::Exchanged { sent: false, received: None });
    let a = s.on_event(exchanged(b"whoami\r\n"));
    assert!(matches!(a, TelnetAction::Resolve(ref l) if l == "whoami"));
    let out = sent_bytes(s.on_event(TelnetEvent::Answered(Reply::NotFound)));
    let text = String::from_utf8(out).unwrap();
    assert!(text.contains("command not found: \"whoami\""));
    assert!(text.ends_with("\r\n"));
    let a = s.on_event(TelnetEvent::Sent(true));
    assert_eq!(sent_bytes(a), b"# ".to_vec());
    let a = s.on_event(exchanged(b"ls\nexit\n"));
    assert!(matches!(a, TelnetAction::Resolve(ref l) if l == "ls"));
    let a = s.on_event(TelnetEvent::Answered(Reply::Output(b"file".to_vec())));
    assert_eq!(sent_bytes(a), b"file\r\n".to_vec());
    let a = s.on_event(TelnetEvent::Sent(true));
    assert!(matches!(a, TelnetAction::Resolve(ref l) if l == "exit"));
    let a = s.on_event(TelnetEvent::Answered(Reply::Exit));
    assert!(matches!(a, TelnetAction::Finish));
    assert_eq!(s.phase(), TelnetPhase::Done);
    let commands = s.record.entries.iter().filter(|e| matches!(e.data, Data::Command(_))).count();
    assert_eq!(commands, 3);
    assert!(matches!(&s.record.entries.last().unwrap().data, Data::Log(l) if l == "disconnected"));
}

#[test]
fn telnet_without_prompts_records_no_credentials() {
    let mut cfg = telnet_config();
    cfg.banner = String::new();
    cfg.login_prompt = String::new();
    cfg.password_prompt = String::new();
    let (mut s, _) = TelnetSession::start(cfg, for_address("telnet", "t", &peer()));
    let a = s.on_event(TelnetEvent::Exchanged { sent: true, received: Some(vec![]) });
    assert_eq!(sent_bytes(a), b"# ".to_vec());
    assert!(!s.record.entries.iter().any(|e| matches!(e.data, Data::Authentication { .. })));
    let a = s.on_event(TelnetEvent::Exchanged { sent: true, received: Some(vec![]) });
    assert!(matches!(a, TelnetAction::Finish));
}

#[test]
fn tcp_unknown_command_reply() {
    let cfg = TcpConfig { address: "0.0.0.0:9".to_string(), banner: "hello".to_string(), timeout: 5 };
    let (mut s, a) = TcpSession::start(cfg, for_address("tcp", "t", &peer()));
    assert!(matches!(a, TcpAction::Send(ref b) if b == &b"hello\r\n".to_vec()));
    assert!(matches!(s.on_event(TcpEvent::Sent(true)), TcpAction::Receive));
    let a = s.on_event(TcpEvent::Received(Some(b"whoami\n".to_vec())));
    assert!(matches!(a, TcpAction::Resolve(ref t) if t == "whoami\n"));
    assert!(matches!(&s.record.entries.last().unwrap().data, Data::Raw(b) if b == &b"whoami\n".to_vec()));
    match s.on_event(TcpEvent::Answered(Reply::NotFound)) {
        TcpAction::Send(b) => assert!(String::from_utf8(b).unwrap().contains("command not found: \"whoami\"")),
        _ => panic!("expected a reply"),
    }
    assert!(matches!(s.on_event(TcpEvent::Sent(false)), TcpAction::Receive));
    assert!(matches!(s.on_event(TcpEvent::Received(None)), TcpAction::Finish));
    assert_eq!(s.phase, TcpPhase::Done);
}

#[test]
fn tcp_without_banner_ends_at_once() {
    let cfg = TcpConfig { address: "0.0.0.0:9".to_string(), banner: String::new(), timeout: 5 };
    let (s, a) = TcpSession::start(cfg, for_address("tcp", "t", &peer()));
    assert!(matches!(a, TcpAction::Finish));
    assert_eq!(s.record.size(), 2);
}

#[test]
fn http_unmatched_request_is_404() {
    let r = response(404, "Not Found", &vec!["Server: x ".to_string()], None);
    assert_eq!(
        String::from_utf8(r).unwrap(),
        "HTTP/1.0 404 Not Found\r\nConnection: close\r\nServer: x\r\nContent-length: 0\r\n\r\n"
    );
}

#[test]
fn http_ok_response_counts_body_bytes() {
    let r = response(200, "OK", &vec![], Some("héllo".as_bytes().to_vec()));
    assert_eq!(
        String::from_utf8(r).unwrap(),
        "HTTP/1.0 200 OK\r\nConnection: close\r\nContent-length: 6\r\n\r\nhéllo"
    );
}

#[test]
fn udp_datagram_is_recorded_and_answered() {
    let cfg = UdpConfig { address: "0.0.0.0:53".to_string(), banner: "hi".to_string(), timeout: 3 };
    let mut rec = for_address("udp", "u", &peer());
    let plan = on_datagram(&cfg, &mut rec, b"ping".to_vec());
    assert_eq!(plan.banner, Some(b"hi".to_vec()));
    assert_eq!(plan.input, "ping");
    assert_eq!(rec.size(), 1);
    assert_eq!(answer(Reply::Output(b"pong".to_vec())), Some(b"pong".to_vec()));
    assert_eq!(answer(Reply::NotFound), None);
}

fn ssh_config() -> SshConfig {
    SshConfig {
        address: "0.0.0.0:22".to_string(),
        server_id: "SSH-2.0-Test".to_string(),
        server_id_raw: String::new(),
        banner: "Last login".to_string(),
        prompt: "$ ".to_string(),
        timeout: 10,
    }
}

#[test]
fn ssh_keystrokes_form_a_line() {
    let mut h = ClientHandler::new(&ssh_config(), for_address("ssh", "s", &peer()), &vec![], &peer().ip);
    assert!(h.allowed);
    assert!(matches!(h.data(b"l"), Keystrokes::Echo(ref e) if e == &b"l".to_vec()));
    assert!(matches!(h.data(b"s "), Keystrokes::Echo(_)));
    assert!(matches!(h.data(b"\r"), Keystrokes::Line(ref l) if l == "ls"));
    assert!(h.command.is_empty());
    assert_eq!(command_of(&[0xff, 0x0a]), "[ff a]");
}

#[test]
fn ssh_unknown_command_reply() {
    let only = vec![IpAddress::V4(0x0a00_0001)];
    let mut h = ClientHandler::new(&ssh_config(), for_address("ssh", "s", &peer()), &only, &peer().ip);
    assert!(!h.auth("root".to_string(), Some("123456".to_string()), None));
    assert!(matches!(&h.record.entries[1].data, Data::Authentication { username, .. } if username == "root"));
    let line = "whoami".to_string();
    h.on_command(&line);
    match h.answer(&line, Reply::NotFound) {
        Answer::Data(d) => {
            let t = String::from_utf8(d).unwrap();
            assert!(t.contains("command not found: \"whoami\""));
            assert!(t.ends_with("\r\n$ "));
        }
        Answer::Close => panic!("expected data"),
    }
    assert!(matches!(h.answer(&line, Reply::Exit), Answer::Close));
    assert_eq!(h.shell_request(), b"Last login\r\n\r\n$ ".to_vec());
    assert!(matches!(ssh_config().server_identity(), ServerId::Standard(ref s) if s == "SSH-2.0-Test"));
}

#[test]
fn docker_requests_and_responses() {
    let q = String::from_utf8(create_exec_request("c1", "echo \"hi\"")).unwrap();
    assert!(q.starts_with("POST /containers/c1/exec HTTP/1.0\r\nContent-Type: application/json\r\n"));
    assert!(q.ends_with("{\"AttachStdout\": true, \"Tty\": false, \"Cmd\": [\"sh\", \"-c\", \"echo \\\"hi\\\"\"]}"));
    let body = q.split("\r\n\r\n").nth(1).unwrap();
    assert!(q.contains(&format!("Content-Length: {}\r\n", body.len())));
    let s = String::from_utf8(start_exec_request("abc")).unwrap();
    assert!(s.starts_with("POST /exec/abc/start HTTP/1.0\r\n"));
    let created = b"HTTP/1.0 201 Created\r\nContent-Type: application/json\r\n\r\n{\"Id\":\"e1f\",\"Warnings\":\"\"}\n";
    assert_eq!(parse_create_response(created), Ok("e1f".to_string()));
    assert!(parse_create_response(b"HTTP/1.0 404 Not Found\r\n\r\n").is_err());
    assert!(parse_create_response(b"HTTP/1.0 500\r\n\r\n{\"message\":\"boom\"}").is_err());
    assert_eq!(parse_start_response(b"HTTP/1.0 200 OK\r\nA: b\r\n\r\nout\r\n\r\n"), Ok(b"out\r\n\r\n".to_vec()));
    assert!(parse_start_response(b"HTTP/1.0 200 OK\r\n").is_err());
}

#[test]
fn docker_exec_steps() {
    let (mut run, step) = exec("box", "id");
    assert!(matches!(step, ExecStep::Request(_)));
    let step = run.on_response(Ok(b"HTTP/1.0 201 Created\r\n\r\n{\"Id\":\"77\"}".to_vec()));
    assert!(matches!(step, ExecStep::Request(ref q) if q.starts_with(b"POST /exec/77/start")));
    assert_eq!(run.stage, ExecStage::Starting);
    let step = run.on_response(Ok(b"HTTP/1.0 200 OK\r\n\r\nuid=0".to_vec()));
    assert!(matches!(step, ExecStep::Done(Ok(ref b)) if b == &b"uid=0".to_vec()));
    let mut failed = DockerExec { stage: ExecStage::Creating };
    assert!(matches!(failed.on_response(Err("refused".to_string())), ExecStep::Done(Err(ref e)) if e == "refused"));
}

#[test]
fn factory_picks_protocol_by_name() {
    let svc = Service {
        proto: "telnet".to_string(),
        address: "0.0.0.0:2323".to_string(),
        commands: vec![],
        config: vec![("prompt".to_string(), ConfigValue::Str("$ ".to_string()))],
    };
    match factory("telnet", &svc) {
        Ok(Settings::Telnet(c)) => {
            assert_eq!(c.prompt, "$ ");
            assert_eq!(c.banner, "server v1.0");
            assert_eq!(c.login_prompt, "login: ");
            assert_eq!(c.timeout, 10);
            assert_eq!(c.address, "0.0.0.0:2323");
        }
        _ => panic!("expected telnet settings"),
    }
    assert!(matches!(factory("http", &svc), Ok(Settings::Http(ref c)) if c.key_file == "/tmp/medusa-https.key" && !c.tls));
    assert!(matches!(factory("ftp", &svc), Err(ref e) if e == "protocol 'ftp' is not supported"));
}

#[test]
fn tls_key_falls_back_then_names_the_file() {
    assert_eq!(choose_key("/k.pem", 1, None), Ok(KeyEncoding::Pkcs8));
    assert_eq!(choose_key("/k.pem", 0, Some(2)), Ok(KeyEncoding::Pkcs1));
    assert_eq!(
        choose_key("/etc/wrong/key.pem", 0, Some(0)),
        Err("no valid PKCS#8 or PKCS#1 encoded keys found in /etc/wrong/key.pem".to_string())
    );
    let e = open_error("/nonexistent/server.key", "No such file or directory (os error 2)");
    assert_eq!(e, "could not open /nonexistent/server.key: No such file or directory (os error 2)");
}

#[test]
fn http_reply_statuses() {
    let ok = String::from_utf8(reply_response(&vec![], Reply::Output(b"body".to_vec()))).unwrap();
    assert!(ok.starts_with("HTTP/1.0 200 OK\r\n") && ok.ends_with("Content-length: 4\r\n\r\nbody"));
    let missing = String::from_utf8(reply_response(&vec![], Reply::NotFound)).unwrap();
    assert!(missing.starts_with("HTTP/1.0 404 Not Found\r\n") && missing.ends_with("Content-length: 0\r\n\r\n"));
}

#[test]
fn invalid_utf8_is_decoded_leniently() {
    let cfg = TcpConfig { address: "0.0.0.0:9".to_string(), banner: "b".to_string(), timeout: 5 };
    let (mut s, _) = TcpSession::start(cfg, for_address("tcp", "t", &peer()));
    s.on_event(TcpEvent::Sent(true));
    let a = s.on_event(TcpEvent::Received(Some(vec![b'a', 0xff, b'b'])));
    assert!(matches!(a, TcpAction::Resolve(ref t) if t == "a\u{FFFD}b"));
}

#[test]
fn http_session_notes_and_request_are_recorded() {
    let mut rec = for_address("http", "h", &peer());
    let text = on_request(&mut rec, &Some(b"GET / HTTP/1.0\r\n\r\n".to_vec()));
    assert_eq!(text.as_deref(), Some("GET / HTTP/1.0"));
    on_close(&mut rec);
    let kinds: Vec<&str> = rec.entries.iter().map(|e| e.data.kind()).collect();
    assert_eq!(kinds, vec!["log", "request", "log"]);
    let mut silent = for_address("http", "h", &peer());
    assert!(on_request(&mut silent, &None).is_none());
    assert_eq!(silent.size(), 1);
}

#[test]
fn ssh_admission_follows_allow_list() {
    let only = vec![IpAddress::V4(0x7f00_0001)];
    let h = ClientHandler::new(&ssh_config(), for_address("ssh", "s", &peer()), &only, &peer().ip);
    assert!(h.allowed);
    let other = IpAddress::V4(0x0808_0808);
    let mut h = ClientHandler::new(&ssh_config(), for_address("ssh", "s", &peer()), &only, &other);
    assert!(!h.allowed);
    assert!(!h.auth("admin".to_string(), None, None));
}

#[test]
fn docker_exec_always_starts_with_create_request() {
    let (run, step) = exec("web", "cat /etc/passwd");
    assert_eq!(run.stage, ExecStage::Creating);
    assert!(matches!(step, ExecStep::Request(ref q) if q.starts_with(b"POST /containers/web/exec HTTP/1.0\r\n")));
}

#[test]
fn docker_command_is_json_escaped() {
    let q = String::from_utf8(create_exec_request("c", "a\u{1}\tb\\")).unwrap();
    assert!(q.ends_with("[\"sh\", \"-c\", \"a\\u0001\\tb\\\\\"]}"));
}
