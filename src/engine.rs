//! Pieces shared by the protocol engines: what a resolved input answers,
//! how received bytes become input lines, and the reply to unknown commands.
use vstd::prelude::*;
use vstd::string::{StrSliceExecFns, StringExecFns};

use crate::resolver::Resolution;
use crate::text::{lossy_text, lossy_text_of, push_char, trim, trimmed};

verus! {

/// What the rules answered to one input.
pub enum Reply {
    /// No rule matched.
    NotFound,
    /// These bytes are the answer.
    Output(Vec<u8>),
    /// The session ends.
    Exit,
}

pub enum ReplyView {
    NotFound,
    Output(Seq<u8>),
    Exit,
}

impl View for Reply {
    type V = ReplyView;

    open spec fn view(&self) -> ReplyView {
        match self {
            Reply::NotFound => ReplyView::NotFound,
            Reply::Output(b) => ReplyView::Output(b@),
            Reply::Exit => ReplyView::Exit,
        }
    }
}

/// The answer a resolution gives without running anything; `None` for a
/// directive, which must be run first.
pub fn settle(r: Resolution) -> (a: Option<Reply>)
    ensures
        match r {
            Resolution::NoMatch => a == Some(Reply::NotFound),
            Resolution::Respond(b) => a == Some(Reply::Output(b)),
            Resolution::Exit => a == Some(Reply::Exit),
            _ => a is None,
        },
{
    match r {
        Resolution::NoMatch => Some(Reply::NotFound),
        Resolution::Respond(b) => Some(Reply::Output(b)),
        Resolution::Exit => Some(Reply::Exit),
        _ => None,
    }
}

/// A received chunk as text: decoded leniently and trimmed.
pub open spec fn chunk_text(b: Seq<u8>) -> Seq<char> {
    trimmed(lossy_text_of(b))
}

/// The text a client sent in answer to a prompt: nothing for a failed or
/// empty read, else the chunk as text.
pub fn prompt_answer(received: &Option<Vec<u8>>) -> (r: Option<String>)
    ensures
        match received {
            Some(b) if b@.len() > 0 => r is Some && r->Some_0@ == chunk_text(b@),
            _ => r is None,
        },
{
    match received {
        Some(b) => {
            if b.len() == 0 {
                None
            } else {
                let t = lossy_text(b.as_slice());
                Some(trim(t.as_str()))
            }
        },
        None => None,
    }
}

/// `s` cut at each `sep` (as `str::split` does: `k` separators give
/// `k + 1` pieces).
pub open spec fn split_on(s: Seq<char>, sep: char) -> Seq<Seq<char>>
    decreases s.len(),
{
    if s.len() == 0 {
        seq![Seq::empty()]
    } else {
        let p = split_on(s.drop_last(), sep);
        if s.last() == sep {
            p.push(Seq::empty())
        } else {
            p.drop_last().push(p.last().push(s.last()))
        }
    }
}

proof fn lemma_split_on_len(s: Seq<char>, sep: char)
    ensures
        split_on(s, sep).len() >= 1,
    decreases s.len(),
{
    if s.len() > 0 {
        lemma_split_on_len(s.drop_last(), sep);
    }
}

/// The non-empty pieces, trimmed, in order.
pub open spec fn kept_lines(pieces: Seq<Seq<char>>) -> Seq<Seq<char>>
    decreases pieces.len(),
{
    if pieces.len() == 0 {
        Seq::empty()
    } else {
        let rest = kept_lines(pieces.drop_last());
        let t = trimmed(pieces.last());
        if t.len() > 0 {
            rest.push(t)
        } else {
            rest
        }
    }
}

/// The command lines in a submitted text: split at line feeds, each piece
/// trimmed, empty ones dropped.
pub open spec fn command_lines(s: Seq<char>) -> Seq<Seq<char>> {
    kept_lines(split_on(s, '\n'))
}

/// The command lines in `s`.
pub fn lines_of(s: &str) -> (r: Vec<String>)
    ensures
        crate::template::texts(r@) == command_lines(s@),
{
    fields_of(s, '\n')
}

/// The pieces of `s` between the separators `sep`, trimmed, without the
/// empty ones.
pub fn fields_of(s: &str, sep: char) -> (r: Vec<String>)
    ensures
        crate::template::texts(r@) == kept_lines(split_on(s@, sep)),
{
    let n = s.unicode_len();
    let mut pieces: Vec<String> = Vec::new();
    let mut cur = String::new();
    let mut i: usize = 0;
    while i < n
        invariant
            n == s@.len(),
            i <= n,
            crate::template::texts(pieces@).push(cur@) == split_on(s@.take(i as int), sep),
        decreases n - i,
    {
        let c = s.get_char(i);
        proof {
            lemma_split_on_len(s@.take(i as int), sep);
        }
        assert(s@.take(i + 1).drop_last() =~= s@.take(i as int));
        let ghost before = crate::template::texts(pieces@);
        if c == sep {
            let mut done = String::new();
            std::mem::swap(&mut done, &mut cur);
            pieces.push(done);
            assert(crate::template::texts(pieces@).push(cur@) =~= before.push(done@).push(Seq::empty()));
        } else {
            push_char(&mut cur, c);
            assert(crate::template::texts(pieces@).push(cur@) =~= before.push(cur@));
            assert(before.push(cur@) =~= split_on(s@.take(i as int), sep).drop_last().push(
                split_on(s@.take(i as int), sep).last().push(c),
            ));
        }
        i = i + 1;
    }
    assert(s@.take(n as int) =~= s@);
    pieces.push(cur);
    let ghost all = crate::template::texts(pieces@);
    let mut r: Vec<String> = Vec::new();
    let mut j: usize = 0;
    while j < pieces.len()
        invariant
            j <= pieces@.len(),
            all == crate::template::texts(pieces@),
            all == split_on(s@, sep),
            crate::template::texts(r@) == kept_lines(all.take(j as int)),
        decreases pieces@.len() - j,
    {
        let t = trim(pieces[j].as_str());
        assert(all.take(j + 1).drop_last() =~= all.take(j as int));
        if t.unicode_len() > 0 {
            r.push(t);
            assert(crate::template::texts(r@) =~= kept_lines(all.take(j as int)).push(t@));
        }
        j = j + 1;
    }
    assert(all.take(pieces@.len() as int) =~= all);
    r
}

/// The characters of `s` before its first space (all of `s` without one).
pub open spec fn first_word(s: Seq<char>) -> Seq<char>
    decreases s.len(),
{
    if s.len() == 0 || s[0] == ' ' {
        Seq::empty()
    } else {
        seq![s[0]] + first_word(s.drop_first())
    }
}

fn first_word_of(s: &str) -> (r: String)
    ensures
        r@ == first_word(s@),
{
    let n = s.unicode_len();
    let mut i: usize = 0;
    while i < n && s.get_char(i) != ' '
        invariant
            n == s@.len(),
            i <= n,
            forall|j: int| 0 <= j < i ==> s@[j] != ' ',
        decreases n - i,
    {
        i = i + 1;
    }
    proof {
        lemma_first_word(s@, i as int);
    }
    crate::text::slice_chars(s, 0, i)
}

proof fn lemma_first_word(s: Seq<char>, i: int)
    requires
        0 <= i <= s.len(),
        forall|j: int| 0 <= j < i ==> s[j] != ' ',
        i == s.len() || s[i] == ' ',
    ensures
        first_word(s) == s.subrange(0, i),
    decreases i,
{
    if i > 0 {
        assert forall|j: int| 0 <= j < i - 1 implies s.drop_first()[j] != ' ' by {
            assert(s.drop_first()[j] == s[j + 1]);
        }
        lemma_first_word(s.drop_first(), i - 1);
        assert(s.subrange(0, i) =~= seq![s[0]] + s.drop_first().subrange(0, i - 1));
    } else {
        assert(s.subrange(0, 0) =~= Seq::<char>::empty());
    }
}

/// How Rust's `Debug` writes a string: in double quotes, with escapes.
pub uninterp spec fn debug_quoted_of(s: Seq<char>) -> Seq<char>;

pub open spec fn is_ascii_alnum(c: char) -> bool {
    ('0' <= c <= '9') || ('a' <= c <= 'z') || ('A' <= c <= 'Z')
}

/// Relies on the `Debug` impl of `str`: the text in double quotes, where
/// ASCII letters and digits stand for themselves.
#[verifier::external_body]
fn debug_quoted(s: &str) -> (r: String)
    ensures
        r@ == debug_quoted_of(s@),
        (forall|i: int| 0 <= i < s@.len() ==> is_ascii_alnum(#[trigger] s@[i])) ==> r@ == seq!['"']
            + s@ + seq!['"'],
{
    format!("{:?}", s)
}

/// The reply to a command that no rule matched: a shell's complaint naming
/// the command's first word.
pub open spec fn not_found_text(line: Seq<char>) -> Seq<char> {
    "\r\nsh: command not found: "@ + debug_quoted_of(first_word(line))
}

/// Whether the first word of `line` is made of ASCII letters and digits.
pub open spec fn alnum_word(line: Seq<char>) -> bool {
    forall|i: int| 0 <= i < first_word(line).len() ==> is_ascii_alnum(#[trigger] first_word(line)[i])
}

/// The complaint about a command whose first word needs no escaping.
pub open spec fn plain_not_found(line: Seq<char>) -> Seq<char> {
    "\r\nsh: command not found: \""@ + first_word(line) + "\""@
}

/// The reply to the command `line` that no rule matched; a first word of
/// letters and digits appears in double quotes as it is.
pub fn not_found_message(line: &str) -> (r: String)
    ensures
        r@ == not_found_text(line@),
        alnum_word(line@) ==> r@ == plain_not_found(line@),
{
    let w = first_word_of(line);
    let q = debug_quoted(w.as_str());
    let mut r = String::from_str("\r\nsh: command not found: ");
    r.append(q.as_str());
    proof {
        reveal_strlit("\"");
        reveal_strlit("\r\nsh: command not found: ");
        reveal_strlit("\r\nsh: command not found: \"");
        if alnum_word(line@) {
            assert(r@ =~= plain_not_found(line@));
        }
    }
    r
}

} // verus!
