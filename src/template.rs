//! Handler templates: positional tokens `{{$1}}`, `{{$2}}`, ... are replaced
//! by the corresponding capture groups of the matched input.
use vstd::prelude::*;
use vstd::string::{StrSliceExecFns, StringExecFns};

use crate::pattern::groups_view;
use crate::text::push_char;

verus! {

/// The decimal digit character for `d < 10`.
pub open spec fn digit_char(d: nat) -> char {
    ((d + 48) as u8) as char
}

/// Decimal notation of `n`, without leading zeros.
pub open spec fn decimal(n: nat) -> Seq<char>
    decreases n,
{
    if n < 10 {
        seq![digit_char(n)]
    } else {
        decimal(n / 10).push(digit_char(n % 10))
    }
}

/// The token that stands for capture group `n`: `{{$n}}`.
pub open spec fn token(n: nat) -> Seq<char> {
    seq!['{', '{', '$'] + decimal(n) + seq!['}', '}']
}

pub open spec fn starts_with(s: Seq<char>, p: Seq<char>) -> bool {
    p.len() <= s.len() && s.subrange(0, p.len() as int) == p
}

/// The smallest group number in `n..=k` whose token begins `t`.
pub open spec fn first_token(t: Seq<char>, n: nat, k: nat) -> Option<nat>
    decreases k + 1 - n,
{
    if n > k {
        None
    } else if starts_with(t, token(n)) {
        Some(n)
    } else {
        first_token(t, n + 1, k)
    }
}

/// The template `t` with every token `{{$n}}` of a group that took part in
/// the match (`1 <= n < caps.len()`, `caps[n]` present) replaced by that
/// group's text, in one left-to-right pass: the text of a capture is never
/// scanned for tokens itself, and every other token is left as it is.
pub open spec fn render(t: Seq<char>, caps: Seq<Option<Seq<char>>>) -> Seq<char>
    decreases t.len(),
{
    if t.len() == 0 {
        Seq::empty()
    } else {
        match first_token(t, 1, (caps.len() - 1) as nat) {
            Some(n) if 0 < token(n).len() <= t.len() && caps[n as int] is Some => caps[n as int]->Some_0
                + render(t.subrange(token(n).len() as int, t.len() as int), caps),
            _ => seq![t[0]] + render(t.drop_first(), caps),
        }
    }
}

proof fn lemma_digit_char(d: nat)
    requires
        d < 10,
    ensures
        '0' <= digit_char(d) <= '9',
        forall|e: nat| e < 10 && digit_char(e) == digit_char(d) ==> e == d,
{
    assert forall|e: nat| e < 10 && digit_char(e) == digit_char(d) implies e == d by {
        assert(((e + 48) as u8) as u32 == e + 48);
        assert(((d + 48) as u8) as u32 == d + 48);
    }
}

proof fn lemma_decimal_digits(n: nat)
    ensures
        decimal(n).len() >= 1,
        n >= 10 ==> decimal(n).len() >= 2,
        forall|i: int| 0 <= i < decimal(n).len() ==> '0' <= #[trigger] decimal(n)[i] <= '9',
    decreases n,
{
    if n < 10 {
        lemma_digit_char(n);
    } else {
        lemma_decimal_digits(n / 10);
        lemma_digit_char(n % 10);
        let d = decimal(n / 10);
        assert forall|i: int| 0 <= i < decimal(n).len() implies '0' <= #[trigger] decimal(n)[i]
            <= '9' by {
            if i < d.len() {
                assert(decimal(n)[i] == d[i]);
            }
        }
    }
}

proof fn lemma_decimal_injective(m: nat, n: nat)
    requires
        decimal(m) == decimal(n),
    ensures
        m == n,
    decreases m + n,
{
    lemma_decimal_digits(m);
    lemma_decimal_digits(n);
    if m < 10 && n < 10 {
        lemma_digit_char(n);
        assert(decimal(m)[0] == digit_char(m));
    } else if m >= 10 && n >= 10 {
        let dm = decimal(m);
        lemma_digit_char(n % 10);
        assert(dm.last() == digit_char(m % 10));
        assert(decimal(n).last() == digit_char(n % 10));
        assert(dm.drop_last() =~= decimal(m / 10));
        assert(decimal(n).drop_last() =~= decimal(n / 10));
        lemma_decimal_injective(m / 10, n / 10);
    }
}

/// A text that begins with the token of `n` begins with no other token.
proof fn lemma_token_unique(n: nat, m: nat, s: Seq<char>)
    requires
        starts_with(token(n) + s, token(m)),
    ensures
        m == n,
{
    let t = token(n) + s;
    let dn = decimal(n);
    let dm = decimal(m);
    lemma_decimal_digits(n);
    lemma_decimal_digits(m);
    assert(t.subrange(0, token(m).len() as int) == token(m));
    if dm.len() < dn.len() {
        assert(token(m)[3 + dm.len() as int] == '}');
        assert(t[3 + dm.len() as int] == dn[dm.len() as int]);
    } else if dm.len() > dn.len() {
        assert(token(m)[3 + dn.len() as int] == dm[dn.len() as int]);
        assert(t[3 + dn.len() as int] == '}');
    } else {
        assert forall|i: int| 0 <= i < dm.len() implies dm[i] == dn[i] by {
            assert(token(m)[3 + i] == dm[i]);
            assert(t[3 + i] == dn[i]);
        }
        assert(dm =~= dn);
        lemma_decimal_injective(m, n);
    }
}

proof fn lemma_first_token_none(t: Seq<char>, n: nat, k: nat)
    requires
        !(t.len() >= 2 && t[0] == '{' && t[1] == '{'),
    ensures
        first_token(t, n, k) is None,
    decreases k + 1 - n,
{
    if n <= k {
        let tk = token(n);
        if starts_with(t, tk) {
            assert(t[0] == tk[0] && t[1] == tk[1]);
        }
        lemma_first_token_none(t, n + 1, k);
    }
}

proof fn lemma_first_token_exact(n: nat, s: Seq<char>, j: nat, k: nat)
    requires
        1 <= j,
        n <= k,
    ensures
        j <= n ==> first_token(token(n) + s, j, k) == Some(n),
        j > n ==> first_token(token(n) + s, j, k) is None,
    decreases k + 1 - j,
{
    let t = token(n) + s;
    if j <= k {
        if starts_with(t, token(j)) {
            lemma_token_unique(n, j, s);
        } else {
            assert(t.subrange(0, token(n).len() as int) =~= token(n));
        }
        lemma_first_token_exact(n, s, j + 1, k);
    }
}

proof fn lemma_first_token_absent(m: nat, s: Seq<char>, j: nat, k: nat)
    requires
        k < m,
    ensures
        first_token(token(m) + s, j, k) is None,
    decreases k + 1 - j,
{
    if j <= k {
        if starts_with(token(m) + s, token(j)) {
            lemma_token_unique(m, j, s);
        }
        lemma_first_token_absent(m, s, j + 1, k);
    }
}

/// A character that does not open a token is copied as it is.
proof fn lemma_render_plain_step(t: Seq<char>, caps: Seq<Option<Seq<char>>>)
    requires
        t.len() > 0,
        !(t.len() >= 2 && t[0] == '{' && t[1] == '{'),
    ensures
        render(t, caps) == seq![t[0]] + render(t.drop_first(), caps),
{
    lemma_first_token_none(t, 1, (caps.len() - 1) as nat);
}

/// Text without an opening brace is copied as it is, whatever follows it.
proof fn lemma_render_plain_prefix(p: Seq<char>, s: Seq<char>, caps: Seq<Option<Seq<char>>>)
    requires
        forall|i: int| 0 <= i < p.len() ==> p[i] != '{',
    ensures
        render(p + s, caps) == p + render(s, caps),
    decreases p.len(),
{
    if p.len() > 0 {
        let t = p + s;
        lemma_render_plain_step(t, caps);
        assert(t.drop_first() =~= p.drop_first() + s);
        lemma_render_plain_prefix(p.drop_first(), s, caps);
        assert(p =~= seq![p[0]] + p.drop_first());
        assert(seq![t[0]] + (p.drop_first() + render(s, caps)) =~= p + render(s, caps));
    }
}

/// Every token `{{$n}}` of a group that took part in the match is replaced
/// by that group's text.
pub proof fn lemma_token_replaced(n: nat, s: Seq<char>, caps: Seq<Option<Seq<char>>>)
    requires
        1 <= n < caps.len(),
        caps[n as int] is Some,
    ensures
        render(token(n) + s, caps) == caps[n as int]->Some_0 + render(s, caps),
{
    let t = token(n) + s;
    lemma_first_token_exact(n, s, 1, (caps.len() - 1) as nat);
    assert(t.subrange(token(n).len() as int, t.len() as int) =~= s);
}

/// A token `{{$m}}` of a group that the pattern lacks (`m >= caps.len()`)
/// or that took no part in the match is left in place.
pub proof fn lemma_token_kept(m: nat, s: Seq<char>, caps: Seq<Option<Seq<char>>>)
    requires
        caps.len() >= 1,
        m >= caps.len() || caps[m as int] is None,
    ensures
        render(token(m) + s, caps) == token(m) + render(s, caps),
{
    let t = token(m) + s;
    let d = decimal(m);
    let rest = seq!['$'] + d + seq!['}', '}'];
    lemma_decimal_digits(m);
    assert forall|i: int| 0 <= i < rest.len() implies rest[i] != '{' by {
        if 1 <= i < 1 + d.len() {
            assert(rest[i] == d[i - 1]);
        }
    }
    let k = (caps.len() - 1) as nat;
    if m > k {
        lemma_first_token_absent(m, s, 1, k);
    } else {
        lemma_first_token_exact(m, s, 1, k);
    }
    assert(t.drop_first() =~= seq!['{'] + (rest + s));
    lemma_render_plain_step(t.drop_first(), caps);
    assert(t.drop_first().drop_first() =~= rest + s);
    lemma_render_plain_prefix(rest, s, caps);
    assert(token(m) =~= seq!['{', '{'] + rest);
    assert(seq![t[0]] + (seq!['{'] + (rest + render(s, caps))) =~= token(m) + render(s, caps));
}

/// A template without an opening brace is its own rendering.
pub proof fn lemma_plain_template(t: Seq<char>, caps: Seq<Option<Seq<char>>>)
    requires
        forall|i: int| 0 <= i < t.len() ==> t[i] != '{',
    ensures
        render(t, caps) == t,
{
    lemma_render_plain_prefix(t, Seq::empty(), caps);
    assert(t + Seq::<char>::empty() =~= t);
}

pub open spec fn opens_token(x: Seq<char>) -> bool {
    x.len() >= 3 && x[0] == '{' && x[1] == '{' && x[2] == '$'
}

/// No token begins in `p` and ends in a text `x` that opens a token.
proof fn lemma_no_straddle(p: Seq<char>, x: Seq<char>, j: nat)
    requires
        p.len() >= 1,
        opens_token(x),
        starts_with(p + x, token(j)),
    ensures
        token(j).len() <= p.len(),
{
    let t = p + x;
    let tk = token(j);
    let d = decimal(j);
    let l = p.len() as int;
    lemma_decimal_digits(j);
    if tk.len() > l {
        assert(t.subrange(0, tk.len() as int)[l] == tk[l]);
        assert(t[l] == x[0]);
        if l == 1 {
            assert(t.subrange(0, tk.len() as int)[2] == tk[2]);
            assert(t[2] == x[1]);
        } else if l == 2 {
            assert(tk[2] == '$');
        } else if l < 3 + d.len() {
            assert(tk[l] == d[l - 3]);
        } else {
            assert(tk[l] == '}');
        }
    }
}

proof fn lemma_first_token_starts(t: Seq<char>, n: nat, k: nat)
    ensures
        first_token(t, n, k) matches Some(m) ==> starts_with(t, token(m)),
    decreases k + 1 - n,
{
    if n <= k && !starts_with(t, token(n)) {
        lemma_first_token_starts(t, n + 1, k);
    }
}

proof fn lemma_first_token_prefix(p: Seq<char>, x: Seq<char>, n: nat, k: nat)
    requires
        p.len() >= 1,
        opens_token(x),
    ensures
        first_token(p + x, n, k) == first_token(p, n, k),
    decreases k + 1 - n,
{
    if n <= k {
        let l = token(n).len() as int;
        if starts_with(p + x, token(n)) {
            lemma_no_straddle(p, x, n);
            assert((p + x).subrange(0, l) =~= p.subrange(0, l));
        } else if starts_with(p, token(n)) {
            assert((p + x).subrange(0, l) =~= p.subrange(0, l));
        }
        lemma_first_token_prefix(p, x, n + 1, k);
    }
}

/// Rendering is local: text in front of a token renders as it would alone.
proof fn lemma_render_split(p: Seq<char>, x: Seq<char>, caps: Seq<Option<Seq<char>>>)
    requires
        opens_token(x),
    ensures
        render(p + x, caps) == render(p, caps) + render(x, caps),
    decreases p.len(),
{
    let t = p + x;
    if p.len() == 0 {
        assert(t =~= x);
    } else {
        let k = (caps.len() - 1) as nat;
        lemma_first_token_prefix(p, x, 1, k);
        lemma_first_token_starts(p, 1, k);
        match first_token(p, 1, k) {
            Some(n) if 0 < token(n).len() <= p.len() && caps[n as int] is Some => {
                let l = token(n).len() as int;
                let q = p.subrange(l, p.len() as int);
                assert(t.subrange(l, t.len() as int) =~= q + x);
                lemma_render_split(q, x, caps);
                assert(caps[n as int]->Some_0 + (render(q, caps) + render(x, caps)) =~= (
                caps[n as int]->Some_0 + render(q, caps)) + render(x, caps));
            },
            _ => {
                assert(t.drop_first() =~= p.drop_first() + x);
                lemma_render_split(p.drop_first(), x, caps);
                assert(t[0] == p[0]);
                assert(seq![p[0]] + (render(p.drop_first(), caps) + render(x, caps)) =~= (seq![p[0]]
                    + render(p.drop_first(), caps)) + render(x, caps));
            },
        }
    }
}

/// Wherever a token `{{$n}}` stands in a template, it is replaced by the text
/// of group `n` when that group took part in the match, and left in place
/// when the pattern has no group `n` or the group took no part; the text
/// around it renders as it would alone.
pub proof fn lemma_substitution(
    p: Seq<char>,
    n: nat,
    s: Seq<char>,
    caps: Seq<Option<Seq<char>>>,
)
    requires
        caps.len() >= 1,
    ensures
        1 <= n < caps.len() && caps[n as int] is Some ==> render(p + token(n) + s, caps) == render(
            p,
            caps,
        ) + caps[n as int]->Some_0 + render(s, caps),
        n >= caps.len() || caps[n as int] is None ==> render(p + token(n) + s, caps) == render(
            p,
            caps,
        ) + token(n) + render(s, caps),
{
    let x = token(n) + s;
    assert(p + token(n) + s =~= p + x);
    assert(x[0] == '{' && x[1] == '{' && x[2] == '$');
    lemma_render_split(p, x, caps);
    if 1 <= n < caps.len() && caps[n as int] is Some {
        lemma_token_replaced(n, s, caps);
        assert(render(p, caps) + (caps[n as int]->Some_0 + render(s, caps)) =~= render(p, caps)
            + caps[n as int]->Some_0 + render(s, caps));
    }
    if n >= caps.len() || caps[n as int] is None {
        lemma_token_kept(n, s, caps);
        assert(render(p, caps) + (token(n) + render(s, caps)) =~= render(p, caps) + token(n)
            + render(s, caps));
    }
}

/// Appends the decimal notation of `n` to `s`.
pub(crate) fn push_decimal(s: &mut String, n: usize)
    ensures
        final(s)@ == old(s)@ + decimal(n as nat),
    decreases n,
{
    if n >= 10 {
        push_decimal(s, n / 10);
    }
    let d: u8 = (n % 10) as u8;
    push_char(s, (d + 48) as char);
    proof {
        assert(digit_char((n % 10) as nat) == ((d + 48) as char));
    }
    assert(final(s)@ =~= old(s)@ + decimal(n as nat));
}

/// The token that stands for capture group `n`.
pub fn token_text(n: usize) -> (r: String)
    ensures
        r@ == token(n as nat),
{
    let mut r = String::new();
    push_char(&mut r, '{');
    push_char(&mut r, '{');
    push_char(&mut r, '$');
    push_decimal(&mut r, n);
    push_char(&mut r, '}');
    push_char(&mut r, '}');
    assert(r@ =~= token(n as nat));
    r
}

/// Whether `p` occurs in `t` at character position `i`.
pub(crate) fn occurs_at(t: &str, i: usize, p: &str) -> (r: bool)
    requires
        i <= t@.len(),
    ensures
        r == starts_with(t@.subrange(i as int, t@.len() as int), p@),
{
    let tn = t.unicode_len();
    let pn = p.unicode_len();
    if pn > tn - i {
        return false;
    }
    let ghost rest = t@.subrange(i as int, t@.len() as int);
    let mut j: usize = 0;
    while j < pn
        invariant
            tn == t@.len(),
            pn == p@.len(),
            i + pn <= tn,
            j <= pn,
            rest == t@.subrange(i as int, t@.len() as int),
            forall|x: int| 0 <= x < j ==> rest[x] == p@[x],
        decreases pn - j,
    {
        if t.get_char(i + j) != p.get_char(j) {
            assert(rest.subrange(0, pn as int)[j as int] != p@[j as int]);
            return false;
        }
        j = j + 1;
    }
    assert(rest.subrange(0, pn as int) =~= p@);
    true
}

/// The view of a list of capture texts.
pub open spec fn texts(caps: Seq<String>) -> Seq<Seq<char>> {
    caps.map_values(|c: String| c@)
}

/// The template with each token `{{$n}}` replaced by the text of group `n`
/// when that group took part in the match (`caps[n]` present,
/// `1 <= n < caps.len()`); other text, including tokens of other groups, is
/// kept.
pub fn substitute(template: &str, caps: &Vec<Option<String>>) -> (r: String)
    requires
        caps@.len() >= 1,
    ensures
        r@ == render(template@, groups_view(caps@)),
{
    let ghost cs = groups_view(caps@);
    let k = caps.len() - 1;
    let mut tokens: Vec<String> = Vec::new();
    let mut n: usize = 0;
    while n <= k
        invariant
            k + 1 == caps@.len(),
            k < usize::MAX,
            n <= k + 1,
            tokens@.len() == n,
            forall|j: int| 0 <= j < n ==> (#[trigger] tokens@[j])@ == token(j as nat),
        decreases k + 1 - n,
    {
        tokens.push(token_text(n));
        n = n + 1;
    }
    let len = template.unicode_len();
    let mut r = String::new();
    let mut i: usize = 0;
    assert(template@.subrange(0, len as int) =~= template@);
    while i < len
        invariant
            len == template@.len(),
            i <= len,
            k + 1 == caps@.len(),
            cs == groups_view(caps@),
            k < usize::MAX,
            tokens@.len() == k + 1,
            forall|j: int| 0 <= j <= k ==> (#[trigger] tokens@[j])@ == token(j as nat),
            r@ + render(template@.subrange(i as int, len as int), cs) == render(template@, cs),
        decreases len - i,
    {
        let ghost rest = template@.subrange(i as int, len as int);
        let mut found: usize = 0;
        let mut m: usize = 1;
        while m <= k && found == 0
            invariant
                1 <= m <= k + 1,
                k + 1 == caps@.len(),
                k < usize::MAX,
                tokens@.len() == k + 1,
                i < len == template@.len(),
                rest == template@.subrange(i as int, len as int),
                forall|j: int| 0 <= j <= k ==> (#[trigger] tokens@[j])@ == token(j as nat),
                found == 0 ==> first_token(rest, 1, k as nat) == first_token(rest, m as nat, k as nat),
                found != 0 ==> 1 <= found <= k && first_token(rest, 1, k as nat) == Some(found as nat)
                    && starts_with(rest, token(found as nat)),
            decreases k + 1 - m, (if found == 0 { 1int } else { 0int }),
        {
            if occurs_at(template, i, tokens[m].as_str()) {
                found = m;
            } else {
                m = m + 1;
            }
        }
        let ghost tail = template@.subrange(i as int + 1, len as int);
        assert(rest.drop_first() =~= tail);
        let present = found != 0 && caps[found].is_some();
        if present {
            let tl = tokens[found].unicode_len();
            proof {
                assert(tokens@[found as int]@ == token(found as nat));
                assert(starts_with(rest, token(found as nat)));
                assert(rest.subrange(tl as int, rest.len() as int) =~= template@.subrange(
                    i + tl,
                    len as int,
                ));
            }
            match &caps[found] {
                Some(c) => r.append(c.as_str()),
                None => {},
            }
            i = i + tl;
        } else {
            push_char(&mut r, template.get_char(i));
            i = i + 1;
        }
        assert(r@ + render(template@.subrange(i as int, len as int), cs) =~= render(template@, cs));
    }
    r
}

} // verus!
