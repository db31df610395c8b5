use medusa::engine::{lines_of, not_found_message, settle, Reply};
use medusa::resolver::{complete, resolve, shell_output, CommandHandler, Resolution};
use medusa::template::{substitute, token_text};

fn handler(parser: &str, template: &str) -> CommandHandler {
    CommandHandler::new(parser.to_string(), template.to_string()).unwrap()
}

fn respond_bytes(r: Resolution) -> Vec<u8> {
    match r {
        Resolution::Respond(b) => b,
        _ => panic!("expected a direct response"),
    }
}

#[test]
fn help_answers_literal_text() {
    let h = handler("^help$", "commands: help, exit");
    assert_eq!(respond_bytes(h.parse("help")), b"commands: help, exit".to_vec());
    assert!(matches!(h.parse("helpme"), Resolution::NoMatch));
}

#[test]
fn echo_substitutes_first_group() {
    let h = handler("^echo (.+)$", "{{$1}}");
    assert_eq!(respond_bytes(h.parse("echo hi there")), b"hi there".to_vec());
}

#[test]
fn substitution_replaces_present_groups_and_keeps_missing_ones() {
    let caps = groups(&["whole", "x", "y"]);
    let r = substitute("a {{$1}} b {{$2}} c {{$3}} d {{$1}}", &caps);
    assert_eq!(r, "a x b y c {{$3}} d x");
}

#[test]
fn substitution_does_not_rescan_captured_text() {
    let caps = groups(&["w", "{{$2}}", "two"]);
    assert_eq!(substitute("<{{$1}}|{{$2}}>", &caps), "<{{$2}}|two>");
}

#[test]
fn substitution_needs_exact_token_digits() {
    let caps: Vec<Option<String>> = (0..12).map(|i| Some(format!("g{}", i))).collect();
    assert_eq!(substitute("{{$01}} {{$10}} {{$11}} {{$1}}", &caps), "{{$01}} g10 g11 g1");
    assert_eq!(token_text(42), "{{$42}}");
}

fn groups(texts: &[&str]) -> Vec<Option<String>> {
    texts.iter().map(|t| Some(t.to_string())).collect()
}

#[test]
fn token_of_group_without_part_in_match_is_kept() {
    let h = handler("^cat( (.+))?$", "[{{$2}}]");
    assert_eq!(respond_bytes(h.parse("cat")), b"[{{$2}}]".to_vec());
    let caps = vec![Some("w".to_string()), None, Some("b".to_string())];
    assert_eq!(substitute("{{$1}}-{{$2}}", &caps), "{{$1}}-b");
    assert_eq!(respond_bytes(h.parse("cat file")), b"[file]".to_vec());
}

#[test]
fn first_matching_rule_wins() {
    let hs = vec![handler("^ls", "first"), handler("^ls -la$", "second")];
    let (i, r) = resolve(&hs, "ls -la");
    assert_eq!(i, 0);
    assert_eq!(respond_bytes(r), b"first".to_vec());
    let (i, r) = resolve(&hs, "pwd");
    assert_eq!(i, 2);
    assert!(matches!(r, Resolution::NoMatch));
}

#[test]
fn later_rule_answers_when_earlier_ones_miss() {
    let hs = vec![handler("^id$", "uid=0"), handler("^uname", "Linux")];
    let (i, r) = resolve(&hs, "uname -a");
    assert_eq!(i, 1);
    assert_eq!(respond_bytes(r), b"Linux".to_vec());
}

#[test]
fn shell_directive_runs_once_per_resolved_text() {
    let mut hs = vec![handler("^run (\\w+)( .*)?$", "@shell echo {{$1}}")];
    let (i, r) = resolve(&hs, "run a");
    let key = match r {
        Resolution::Shell { key, command } => {
            assert_eq!(command, "echo a");
            key
        }
        _ => panic!("expected a shell directive"),
    };
    assert_eq!(key, "@shell echo a");
    let out = complete(&mut hs, i, key, Ok(b"a\r\n".to_vec()));
    assert_eq!(out, b"a\r\n".to_vec());
    let (_, again) = resolve(&hs, "run a");
    assert_eq!(respond_bytes(again), b"a\r\n".to_vec());
    let (_, other_input) = resolve(&hs, "run a trailing words");
    assert_eq!(respond_bytes(other_input), b"a\r\n".to_vec());
    let (_, different) = resolve(&hs, "run b");
    assert!(matches!(different, Resolution::Shell { .. }));
}

#[test]
fn failed_directive_answers_empty_and_is_not_cached() {
    let mut hs = vec![handler("^ps$", "@docker box ps aux")];
    let (i, r) = resolve(&hs, "ps");
    let key = match r {
        Resolution::Docker { key, container, command } => {
            assert_eq!(container, "box");
            assert_eq!(command, "ps aux");
            key
        }
        _ => panic!("expected a docker directive"),
    };
    let out = complete(&mut hs, i, key, Err("no socket".to_string()));
    assert!(out.is_empty());
    let (_, again) = resolve(&hs, "ps");
    assert!(matches!(again, Resolution::Docker { .. }));
}

#[test]
fn docker_directive_needs_container_and_command() {
    let h = handler("^x$", "@docker onlycontainer");
    assert_eq!(respond_bytes(h.parse("x")), b"@docker onlycontainer".to_vec());
    let h = handler("^y$", "@docker   c9 \t uname  -a");
    match h.parse("y") {
        Resolution::Docker { container, command, .. } => {
            assert_eq!(container, "c9");
            assert_eq!(command, "uname  -a");
        }
        _ => panic!("expected a docker directive"),
    }
}

#[test]
fn exit_directive_ends_session() {
    let h = handler("^exit(\\s.+)?$", "@exit");
    assert!(matches!(h.parse("exit"), Resolution::Exit));
    assert!(matches!(settle(h.parse("exit now")), Some(Reply::Exit)));
}

#[test]
fn invalid_pattern_is_refused_with_its_text() {
    let e = CommandHandler::new("(unclosed".to_string(), "x".to_string()).err().unwrap();
    assert!(e.starts_with("can't compile regex '(unclosed': "));
}

#[test]
fn shell_output_prefers_error_stream_and_uses_crlf() {
    assert_eq!(shell_output(&b"out\nput".to_vec(), &b"".to_vec()), b"out\r\nput".to_vec());
    assert_eq!(shell_output(&b"out\n".to_vec(), &b"err\n".to_vec()), b"err\r\n".to_vec());
    assert_eq!(shell_output(&b"".to_vec(), &b"".to_vec()), Vec::<u8>::new());
}

#[test]
fn settle_maps_resolutions() {
    assert!(matches!(settle(Resolution::NoMatch), Some(Reply::NotFound)));
    assert!(matches!(settle(Resolution::Respond(vec![1])), Some(Reply::Output(ref b)) if b == &vec![1u8]));
    assert!(settle(Resolution::Shell { key: "k".to_string(), command: "c".to_string() }).is_none());
}

#[test]
fn command_lines_are_split_trimmed_and_filtered() {
    assert_eq!(lines_of("a\n\n  b c \r\n\n"), vec!["a".to_string(), "b c".to_string()]);
    assert!(lines_of("").is_empty());
}

#[test]
fn not_found_names_first_word_quoted() {
    assert_eq!(not_found_message("whoami"), "\r\nsh: command not found: \"whoami\"");
    assert_eq!(not_found_message("ls -la /"), "\r\nsh: command not found: \"ls\"");
}

#[test]
fn tokens_anywhere_are_replaced_or_kept() {
    let caps = vec![Some("all".to_string()), Some("one".to_string()), None];
    assert_eq!(substitute("a{b}{{$1}}c{{$2}}d{{$3}}{{$1}}", &caps), "a{b}onec{{$2}}d{{$3}}one");
}
