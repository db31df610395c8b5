//! The response resolver: ordered pattern/template rules with a per-rule
//! cache of directive outputs.
use vstd::prelude::*;
use vstd::string::StringExecFns;
use vstd::utf8::encode_utf8;
use vstd::string::StrSliceExecFns;

use crate::pattern::{captures_of, groups_view, regex_accepts, regex_error_message, Pattern};
use crate::template::{render, starts_with, substitute};
use crate::text::{
    contains_char_from, has_prefix, leading_space, leading_word, same_text, skip_space, skip_word,
    slice_chars, text_bytes,
};

verus! {

/// The resolved text that ends a session.
pub const EXIT_HANDLER_TOKEN: &'static str = "@exit";

pub open spec fn exit_token() -> Seq<char> {
    seq!['@', 'e', 'x', 'i', 't']
}

pub open spec fn shell_prefix() -> Seq<char> {
    seq!['@', 's', 'h', 'e', 'l', 'l', ' ']
}

pub open spec fn docker_word() -> Seq<char> {
    seq!['@', 'd', 'o', 'c', 'k', 'e', 'r']
}

/// The container and the command of a `@docker <container> <command>`
/// directive: the word is followed by whitespace, the container id (no
/// whitespace), whitespace, and a non-empty command without a line break.
pub open spec fn docker_parts(key: Seq<char>) -> Option<(Seq<char>, Seq<char>)> {
    if !starts_with(key, docker_word()) {
        None
    } else {
        let a = key.skip(7);
        let b = a.skip(leading_space(a) as int);
        let w = leading_word(b);
        let c = b.skip(w as int);
        let cmd = c.skip(leading_space(c) as int);
        if leading_space(a) > 0 && w > 0 && leading_space(c) > 0 && cmd.len() > 0 && !cmd.contains(
            '\n',
        ) {
            Some((b.take(w as int), cmd))
        } else {
            None
        }
    }
}

/// What a rule asks for, in terms of views.
pub enum ResolutionView {
    NoMatch,
    Respond(Seq<u8>),
    Exit,
    Shell { key: Seq<char>, command: Seq<char> },
    Docker { key: Seq<char>, container: Seq<char>, command: Seq<char> },
}

/// What a rule asks for once its pattern matched.
pub enum Resolution {
    /// The pattern did not match.
    NoMatch,
    /// These bytes are the answer.
    Respond(Vec<u8>),
    /// The session ends.
    Exit,
    /// Run `command` in a local shell; its output is cached under `key`.
    Shell { key: String, command: String },
    /// Run `command` inside `container`; its output is cached under `key`.
    Docker { key: String, container: String, command: String },
}

impl View for Resolution {
    type V = ResolutionView;

    open spec fn view(&self) -> ResolutionView {
        match self {
            Resolution::NoMatch => ResolutionView::NoMatch,
            Resolution::Respond(b) => ResolutionView::Respond(b@),
            Resolution::Exit => ResolutionView::Exit,
            Resolution::Shell { key, command } => ResolutionView::Shell {
                key: key@,
                command: command@,
            },
            Resolution::Docker { key, container, command } => ResolutionView::Docker {
                key: key@,
                container: container@,
                command: command@,
            },
        }
    }
}

/// What a resolved text asks for when nothing is cached under it.
pub open spec fn classify(key: Seq<char>) -> ResolutionView {
    if key == exit_token() {
        ResolutionView::Exit
    } else if starts_with(key, shell_prefix()) {
        ResolutionView::Shell { key, command: key.skip(7) }
    } else if let Some((container, command)) = docker_parts(key) {
        ResolutionView::Docker { key, container, command }
    } else {
        ResolutionView::Respond(encode_utf8(key))
    }
}

/// What a rule with this template and cache does with a match whose groups
/// are `groups` (`None`: no match).
pub open spec fn resolve_groups(
    template: Seq<char>,
    cache: Map<Seq<char>, Seq<u8>>,
    groups: Option<Seq<Option<Seq<char>>>>,
) -> ResolutionView {
    match groups {
        None => ResolutionView::NoMatch,
        Some(g) => {
            let key = render(template, g);
            if cache.contains_key(key) {
                ResolutionView::Respond(cache[key])
            } else {
                classify(key)
            }
        },
    }
}

/// The map that a list of cache entries stands for.
pub open spec fn cache_map(entries: Seq<(String, Vec<u8>)>) -> Map<Seq<char>, Seq<u8>>
    decreases entries.len(),
{
    if entries.len() == 0 {
        Map::empty()
    } else {
        cache_map(entries.drop_last()).insert(entries.last().0@, entries.last().1@)
    }
}

pub open spec fn keys_unique(entries: Seq<(String, Vec<u8>)>) -> bool {
    forall|i: int, j: int|
        0 <= i < entries.len() && 0 <= j < entries.len() && i != j ==> (#[trigger] entries[i]).0@
            != (#[trigger] entries[j]).0@
}

proof fn lemma_cache_map(entries: Seq<(String, Vec<u8>)>, k: Seq<char>)
    requires
        keys_unique(entries),
    ensures
        cache_map(entries).contains_key(k) <==> exists|i: int|
            0 <= i < entries.len() && (#[trigger] entries[i]).0@ == k,
        forall|i: int|
            0 <= i < entries.len() && (#[trigger] entries[i]).0@ == k ==> cache_map(entries)[k]
                == entries[i].1@,
    decreases entries.len(),
{
    if entries.len() > 0 {
        let init = entries.drop_last();
        assert(keys_unique(init)) by {
            assert forall|i: int, j: int|
                0 <= i < init.len() && 0 <= j < init.len() && i != j implies (#[trigger] init[i]).0@
                != (#[trigger] init[j]).0@ by {
                assert(init[i] == entries[i] && init[j] == entries[j]);
            }
        }
        lemma_cache_map(init, k);
        if cache_map(entries).contains_key(k) && k != entries.last().0@ {
            let i = choose|i: int| 0 <= i < init.len() && (#[trigger] init[i]).0@ == k;
            assert(entries[i] == init[i]);
        }
        assert forall|i: int| 0 <= i < entries.len() && (#[trigger] entries[i]).0@ == k implies cache_map(
            entries,
        )[k] == entries[i].1@ by {
            if i < init.len() {
                assert(entries[i] == init[i]);
                assert(entries[entries.len() - 1].0@ != k);
            }
        }
        if exists|i: int| 0 <= i < entries.len() && (#[trigger] entries[i]).0@ == k {
            let i = choose|i: int| 0 <= i < entries.len() && (#[trigger] entries[i]).0@ == k;
            if i < init.len() {
                assert(init[i] == entries[i]);
            }
        }
    }
}

/// One rule: a pattern, a template, and the outputs of the directives it ran.
pub struct CommandHandler {
    parser: String,
    handler: String,
    compiled: Pattern,
    cache: Vec<(String, Vec<u8>)>,
}

impl CommandHandler {
    /// The pattern's source text.
    pub closed spec fn parser(&self) -> Seq<char> {
        self.parser@
    }

    /// The template.
    pub closed spec fn template(&self) -> Seq<char> {
        self.handler@
    }

    /// Directive outputs by resolved text.
    pub closed spec fn cache(&self) -> Map<Seq<char>, Seq<u8>> {
        cache_map(self.cache@)
    }

    pub closed spec fn wf(&self) -> bool {
        &&& self.compiled.source() == self.parser@
        &&& keys_unique(self.cache@)
    }

    /// A rule for `parser` answering with `handler`; fails with a message
    /// naming the pattern when the pattern does not compile.
    pub fn new(parser: String, handler: String) -> (r: Result<Self, String>)
        ensures
            r is Ok <==> regex_accepts(parser@),
            r is Err ==> {
                let prefix = "can't compile regex '"@ + parser@ + "': "@;
                &&& prefix.len() <= r->Err_0@.len()
                &&& r->Err_0@.subrange(0, prefix.len() as int) == prefix
            },
            r is Ok ==> {
                let h = r->Ok_0;
                &&& h.wf()
                &&& h.parser() == parser@
                &&& h.template() == handler@
                &&& h.cache() == Map::<Seq<char>, Seq<u8>>::empty()
            },
    {
        match Pattern::new(parser.as_str()) {
            Ok(compiled) => {
                let h = CommandHandler { parser, handler, compiled, cache: Vec::new() };
                assert(h.cache@ =~= Seq::<(String, Vec<u8>)>::empty());
                Ok(h)
            },
            Err(e) => {
                let mut msg = String::from_str("can't compile regex '");
                msg.append(parser.as_str());
                msg.append("': ");
                let ghost prefix = msg@;
                msg.append(regex_error_message(&e).as_str());
                assert(msg@.subrange(0, prefix.len() as int) =~= prefix);
                Err(msg)
            },
        }
    }

    /// The cached output for `key`, if any.
    fn cached(&self, key: &str) -> (r: Option<Vec<u8>>)
        requires
            self.wf(),
        ensures
            r is Some <==> self.cache().contains_key(key@),
            r is Some ==> r->Some_0@ == self.cache()[key@],
    {
        proof {
            lemma_cache_map(self.cache@, key@);
        }
        let mut i: usize = 0;
        while i < self.cache.len()
            invariant
                i <= self.cache@.len(),
                keys_unique(self.cache@),
                forall|j: int| 0 <= j < i ==> (#[trigger] self.cache@[j]).0@ != key@,
            decreases self.cache@.len() - i,
        {
            if same_text(self.cache[i].0.as_str(), key) {
                let out = self.cache[i].1.clone();
                assert(out@ =~= self.cache@[i as int].1@);
                assert(self.cache@[i as int].0@ == key@);
                proof {
                    lemma_cache_map(self.cache@, key@);
                }
                return Some(out);
            }
            i = i + 1;
        }
        None
    }

    /// Keeps `output` as the answer for the resolved text `key`.
    pub fn store(&mut self, key: String, output: Vec<u8>)
        requires
            old(self).wf(),
        ensures
            final(self).wf(),
            final(self).parser() == old(self).parser(),
            final(self).template() == old(self).template(),
            final(self).cache() == old(self).cache().insert(key@, output@),
    {
        let ghost old_entries = self.cache@;
        proof {
            lemma_cache_map(old_entries, key@);
        }
        let mut i: usize = 0;
        let n = self.cache.len();
        let mut found = false;
        while i < n && !found
            invariant
                self.cache@ == old_entries,
                n == old_entries.len(),
                i <= n,
                found ==> i < n && old_entries[i as int].0@ == key@,
                forall|j: int| 0 <= j < i ==> (#[trigger] old_entries[j]).0@ != key@,
            decreases n - i, (if found { 0int } else { 1int }),
        {
            if same_text(self.cache[i].0.as_str(), key.as_str()) {
                found = true;
            } else {
                i = i + 1;
            }
        }
        if found {
            self.cache.set(i, (key, output));
            proof {
                let e = self.cache@;
                assert(keys_unique(e)) by {
                    assert forall|a: int, b: int|
                        0 <= a < e.len() && 0 <= b < e.len() && a != b implies (#[trigger] e[a]).0@
                        != (#[trigger] e[b]).0@ by {
                        if a != i && b != i {
                            assert(e[a] == old_entries[a] && e[b] == old_entries[b]);
                        } else if a == i {
                            assert(e[b] == old_entries[b]);
                        } else {
                            assert(e[a] == old_entries[a]);
                        }
                    }
                }
                let m = cache_map(old_entries).insert(key@, output@);
                assert(e[i as int].0@ == key@ && e[i as int].1@ == output@);
                assert forall|k: Seq<char>| #[trigger] cache_map(e).contains_key(k) <==> m.contains_key(k) by {
                    lemma_cache_map(e, k);
                    lemma_cache_map(old_entries, k);
                    if cache_map(old_entries).contains_key(k) {
                        let j = choose|j: int| 0 <= j < old_entries.len() && (#[trigger] old_entries[j]).0@ == k;
                        if j != i {
                            assert(e[j] == old_entries[j]);
                        }
                    }
                    if cache_map(e).contains_key(k) {
                        let j = choose|j: int| 0 <= j < e.len() && (#[trigger] e[j]).0@ == k;
                        if j != i {
                            assert(e[j] == old_entries[j]);
                        }
                    }
                }
                assert forall|k: Seq<char>| #[trigger] cache_map(e).contains_key(k) implies cache_map(e)[k] == m[k] by {
                    lemma_cache_map(e, k);
                    lemma_cache_map(old_entries, k);
                    let j = choose|j: int| 0 <= j < e.len() && (#[trigger] e[j]).0@ == k;
                    if j != i {
                        assert(e[j] == old_entries[j]);
                    }
                }
                assert(cache_map(e) =~= m);
            }
            return;
        }
        self.cache.push((key, output));
        proof {
            let e = self.cache@;
            assert(e.drop_last() =~= old_entries);
            assert(keys_unique(e)) by {
                assert forall|a: int, b: int|
                    0 <= a < e.len() && 0 <= b < e.len() && a != b implies (#[trigger] e[a]).0@
                    != (#[trigger] e[b]).0@ by {
                    if a < old_entries.len() && b < old_entries.len() {
                        assert(e[a] == old_entries[a] && e[b] == old_entries[b]);
                    } else if a < old_entries.len() {
                        assert(e[a] == old_entries[a]);
                    } else {
                        assert(e[b] == old_entries[b]);
                    }
                }
            }
        }
    }

    /// Matches `command` against the pattern; on a match, substitutes the
    /// groups into the template and says what the resolved text asks for: a
    /// cached output, the end of the session, a directive to run, or the
    /// resolved text itself.
    pub fn parse(&self, command: &str) -> (r: Resolution)
        requires
            self.wf(),
        ensures
            r@ == resolve_groups(self.template(), self.cache(), captures_of(self.parser(), command@)),
    {
        match self.compiled.captures(command) {
            None => Resolution::NoMatch,
            Some(groups) => {
                let key = substitute(self.handler.as_str(), &groups);
                match self.cached(key.as_str()) {
                    Some(out) => Resolution::Respond(out),
                    None => classify_text(key),
                }
            },
        }
    }
}

/// What the resolved text `key` asks for when nothing is cached under it.
pub fn classify_text(key: String) -> (r: Resolution)
    ensures
        r@ == classify(key@),
{
    proof {
        reveal_strlit("@exit");
        reveal_strlit("@shell ");
        reveal_strlit("@docker");
    }
    assert("@exit"@ =~= exit_token());
    assert("@shell "@ =~= shell_prefix());
    assert("@docker"@ =~= docker_word());
    if same_text(key.as_str(), EXIT_HANDLER_TOKEN) {
        return Resolution::Exit;
    }
    let n = key.as_str().unicode_len();
    if has_prefix(key.as_str(), "@shell ") {
        let command = slice_chars(key.as_str(), 7, n);
        return Resolution::Shell { key, command };
    }
    if has_prefix(key.as_str(), "@docker") {
        let ghost a = key@.skip(7);
        let s1 = skip_space(key.as_str(), 7);
        assert(key@.skip(s1 as int) =~= a.skip(leading_space(a) as int));
        let w = skip_word(key.as_str(), s1);
        let ghost b = a.skip(leading_space(a) as int);
        assert(key@.skip(w as int) =~= b.skip(leading_word(b) as int));
        let s2 = skip_space(key.as_str(), w);
        let ghost c = b.skip(leading_word(b) as int);
        assert(key@.skip(s2 as int) =~= c.skip(leading_space(c) as int));
        if s1 > 7 && w > s1 && s2 > w && s2 < n && !contains_char_from(key.as_str(), s2, '\n') {
            let container = slice_chars(key.as_str(), s1, w);
            let command = slice_chars(key.as_str(), s2, n);
            assert(container@ =~= b.take(leading_word(b) as int));
            assert(command@ =~= key@.skip(s2 as int));
            return Resolution::Docker { key, container, command };
        }
    }
    let bytes = text_bytes(key.as_str());
    Resolution::Respond(bytes)
}

/// The first rule, from `i` on, whose pattern matches `input`
/// (`hs.len()` when none does).
pub open spec fn first_match(hs: Seq<CommandHandler>, input: Seq<char>, i: int) -> int
    decreases hs.len() - i,
{
    if i >= hs.len() {
        hs.len() as int
    } else if captures_of(hs[i].parser(), input) is Some {
        i
    } else {
        first_match(hs, input, i + 1)
    }
}

/// What the first matching rule of `hs` asks for.
pub open spec fn chain_result(hs: Seq<CommandHandler>, input: Seq<char>) -> ResolutionView {
    let j = first_match(hs, input, 0);
    if j >= hs.len() {
        ResolutionView::NoMatch
    } else {
        resolve_groups(hs[j].template(), hs[j].cache(), captures_of(hs[j].parser(), input))
    }
}

pub open spec fn all_wf(hs: Seq<CommandHandler>) -> bool {
    forall|i: int| 0 <= i < hs.len() ==> (#[trigger] hs[i]).wf()
}

proof fn lemma_first_match_range(hs: Seq<CommandHandler>, input: Seq<char>, i: int)
    requires
        0 <= i <= hs.len(),
    ensures
        i <= first_match(hs, input, i) <= hs.len(),
        first_match(hs, input, i) < hs.len() ==> captures_of(
            hs[first_match(hs, input, i)].parser(),
            input,
        ) is Some,
    decreases hs.len() - i,
{
    if i < hs.len() && captures_of(hs[i].parser(), input) is None {
        lemma_first_match_range(hs, input, i + 1);
    }
}

/// Tries the rules in order and returns the index of the first one whose
/// pattern matches, with what it asks for (`NoMatch` and `handlers.len()`
/// when none matches).
pub fn resolve(handlers: &Vec<CommandHandler>, input: &str) -> (r: (usize, Resolution))
    requires
        all_wf(handlers@),
    ensures
        r.0 == first_match(handlers@, input@, 0),
        r.1@ == chain_result(handlers@, input@),
{
    let mut i: usize = 0;
    while i < handlers.len()
        invariant
            i <= handlers@.len(),
            all_wf(handlers@),
            first_match(handlers@, input@, 0) == first_match(handlers@, input@, i as int),
        decreases handlers@.len() - i,
    {
        let h = &handlers[i];
        assert(h.wf());
        let r = h.parse(input);
        match r {
            Resolution::NoMatch => {},
            _ => {
                return (i, r);
            },
        }
        i = i + 1;
    }
    (i, Resolution::NoMatch)
}

/// Records the outcome of running the directive that rule `index` asked for
/// under the resolved text `key`, and returns the answer: the output, now
/// cached, or nothing when the run failed (failures are not cached).
pub fn complete(
    handlers: &mut Vec<CommandHandler>,
    index: usize,
    key: String,
    outcome: Result<Vec<u8>, String>,
) -> (r: Vec<u8>)
    requires
        index < old(handlers)@.len(),
        all_wf(old(handlers)@),
    ensures
        all_wf(final(handlers)@),
        final(handlers)@.len() == old(handlers)@.len(),
        forall|j: int|
            0 <= j < old(handlers)@.len() && j != index ==> (#[trigger] final(handlers)@[j]) == old(
                handlers,
            )@[j],
        final(handlers)@[index as int].parser() == old(handlers)@[index as int].parser(),
        final(handlers)@[index as int].template() == old(handlers)@[index as int].template(),
        match outcome {
            Ok(out) => {
                &&& r@ == out@
                &&& final(handlers)@[index as int].cache() == old(
                    handlers,
                )@[index as int].cache().insert(key@, out@)
            },
            Err(_) => {
                &&& r@.len() == 0
                &&& final(handlers)@[index as int] == old(handlers)@[index as int]
            },
        },
{
    match outcome {
        Ok(out) => {
            let mut h = handlers.remove(index);
            assert(h == old(handlers)@[index as int]);
            let r = out.clone();
            assert(r@ =~= out@);
            h.store(key, out);
            handlers.insert(index, h);
            proof {
                assert forall|j: int| 0 <= j < final(handlers)@.len() implies (#[trigger] final(handlers)@[j]).wf() by {
                    if j < index {
                        assert(final(handlers)@[j] == old(handlers)@[j]);
                    } else if j > index {
                        assert(final(handlers)@[j] == old(handlers)@[j]);
                    }
                }
            }
            r
        },
        Err(_) => Vec::new(),
    }
}

/// `b` with every line feed preceded by a carriage return.
pub open spec fn crlf(b: Seq<u8>) -> Seq<u8>
    decreases b.len(),
{
    if b.len() == 0 {
        Seq::empty()
    } else if b.last() == 10 {
        crlf(b.drop_last()) + seq![13u8, 10u8]
    } else {
        crlf(b.drop_last()).push(b.last())
    }
}

/// What a shell run answers: its error output when there is any, else its
/// standard output, with line feeds turned into carriage return, line feed.
pub fn shell_output(stdout: &Vec<u8>, stderr: &Vec<u8>) -> (r: Vec<u8>)
    ensures
        r@ == crlf(if stderr@.len() > 0 { stderr@ } else { stdout@ }),
{
    let src = if stderr.len() > 0 { stderr } else { stdout };
    let mut r: Vec<u8> = Vec::new();
    let mut i: usize = 0;
    while i < src.len()
        invariant
            i <= src@.len(),
            r@ == crlf(src@.take(i as int)),
        decreases src@.len() - i,
    {
        assert(src@.take(i + 1).drop_last() =~= src@.take(i as int));
        if src[i] == 10 {
            r.push(13);
            r.push(10);
            assert(r@ =~= crlf(src@.take(i as int)) + seq![13u8, 10u8]);
        } else {
            r.push(src[i]);
        }
        i = i + 1;
    }
    assert(src@.take(src@.len() as int) =~= src@);
    r
}

/// The first matching rule decides: when the first rule matches, the answer
/// is that rule's, whatever the others would say.
pub proof fn lemma_first_match_wins(hs: Seq<CommandHandler>, input: Seq<char>)
    requires
        hs.len() >= 1,
        captures_of(hs[0].parser(), input) is Some,
    ensures
        chain_result(hs, input) == resolve_groups(
            hs[0].template(),
            hs[0].cache(),
            captures_of(hs[0].parser(), input),
        ),
{
}

/// Rules that do not match are passed over: the answer is that of the first
/// rule that matches.
pub proof fn lemma_skip_unmatched(hs: Seq<CommandHandler>, input: Seq<char>)
    requires
        hs.len() >= 1,
        captures_of(hs[0].parser(), input) is None,
    ensures
        chain_result(hs, input) == chain_result(hs.drop_first(), input),
{
    lemma_shift(hs, input, 1);
    lemma_first_match_range(hs.drop_first(), input, 0);
    let jt = first_match(hs.drop_first(), input, 0);
    if jt < hs.len() - 1 {
        assert(hs.drop_first()[jt] == hs[jt + 1]);
    }
}

proof fn lemma_shift(hs: Seq<CommandHandler>, input: Seq<char>, i: int)
    requires
        1 <= i <= hs.len(),
    ensures
        first_match(hs, input, i) == first_match(hs.drop_first(), input, i - 1) + 1,
    decreases hs.len() - i,
{
    if i < hs.len() {
        assert(hs.drop_first()[i - 1] == hs[i]);
        if captures_of(hs[i].parser(), input) is None {
            lemma_shift(hs, input, i + 1);
        }
    }
}

/// A directive runs once per resolved text: once its output is cached, any
/// input that resolves to the same text is answered from the cache, with
/// the same bytes and no further run.
pub proof fn lemma_cache_replays(
    template: Seq<char>,
    cache: Map<Seq<char>, Seq<u8>>,
    first: Seq<Option<Seq<char>>>,
    second: Seq<Option<Seq<char>>>,
    out: Seq<u8>,
)
    requires
        render(template, first) == render(template, second),
    ensures
        ({
            let key = render(template, first);
            resolve_groups(template, cache.insert(key, out), Some(second))
                == ResolutionView::Respond(out)
        }),
{
}

} // verus!
