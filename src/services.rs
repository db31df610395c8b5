//! Naming of service definition files found under the services directory.
use vstd::prelude::*;
use vstd::string::StrSliceExecFns;

use crate::template::{occurs_at, starts_with};
use crate::text::push_char;

verus! {

/// `s` with every occurrence of `p`, from left to right, removed (as
/// `str::replace(p, "")` does).
pub open spec fn remove_all(s: Seq<char>, p: Seq<char>) -> Seq<char>
    decreases s.len(),
{
    if p.len() == 0 || s.len() == 0 {
        s
    } else if starts_with(s, p) {
        remove_all(s.skip(p.len() as int), p)
    } else {
        seq![s[0]] + remove_all(s.drop_first(), p)
    }
}

/// `s` without its leading slashes.
pub open spec fn drop_slashes(s: Seq<char>) -> Seq<char>
    decreases s.len(),
{
    if s.len() > 0 && s[0] == '/' {
        drop_slashes(s.drop_first())
    } else {
        s
    }
}

/// `s` without any number of trailing `.yml`.
pub open spec fn drop_yml(s: Seq<char>) -> Seq<char>
    decreases s.len(),
{
    if s.len() >= 4 && s.skip(s.len() - 4) == ".yml"@ {
        drop_yml(s.take(s.len() - 4))
    } else {
        s
    }
}

/// The name of the service defined in the file at `path` under `root`:
/// the path without `root`, leading slashes and the `.yml` extension, with
/// each remaining slash turned into a dash.
pub open spec fn name_of(path: Seq<char>, root: Seq<char>) -> Seq<char> {
    drop_yml(drop_slashes(remove_all(path, root))).map_values(
        |c: char|
            if c == '/' {
                '-'
            } else {
                c
            },
    )
}

/// The name of the service defined in the file at `path` under `root`.
pub fn service_name(path: &str, root: &str) -> (r: String)
    ensures
        r@ == name_of(path@, root@),
{
    let n = path.unicode_len();
    let m = root.unicode_len();
    let mut kept: Vec<char> = Vec::new();
    let mut i: usize = 0;
    if m == 0 {
        while i < n
            invariant
                n == path@.len(),
                i <= n,
                kept@ == path@.take(i as int),
            decreases n - i,
        {
            kept.push(path.get_char(i));
            assert(kept@ =~= path@.take(i + 1));
            i = i + 1;
        }
        assert(path@.take(n as int) =~= path@);
    } else {
        assert(path@.skip(0) =~= path@);
        while i < n
            invariant
                n == path@.len(),
                m == root@.len(),
                m > 0,
                i <= n,
                kept@ + remove_all(path@.skip(i as int), root@) == remove_all(path@, root@),
            decreases n - i,
        {
            let ghost rest = path@.skip(i as int);
            if occurs_at(path, i, root) {
                assert(rest.skip(m as int) =~= path@.skip(i + m));
                i = i + m;
            } else {
                kept.push(path.get_char(i));
                assert(rest.drop_first() =~= path@.skip(i + 1));
                assert(kept@ + remove_all(path@.skip(i + 1), root@) =~= remove_all(path@, root@));
                i = i + 1;
            }
        }
        assert(path@.skip(n as int) =~= Seq::<char>::empty());
        assert(kept@ + Seq::<char>::empty() =~= kept@);
    }
    let ghost removed = kept@;
    let k = kept.len();
    let mut a: usize = 0;
    assert(kept@.skip(0) =~= kept@);
    while a < k && kept[a] == '/'
        invariant
            k == kept@.len(),
            a <= k,
            drop_slashes(removed) == drop_slashes(kept@.skip(a as int)),
            kept@ == removed,
        decreases k - a,
    {
        assert(kept@.skip(a as int).drop_first() =~= kept@.skip(a + 1));
        a = a + 1;
    }
    assert(drop_slashes(kept@.skip(a as int)) == kept@.skip(a as int));
    let mut b: usize = k;
    proof {
        reveal_strlit(".yml");
        assert(kept@.skip(a as int).take((b - a) as int) =~= kept@.skip(a as int));
    }
    while b - a >= 4 && kept[b - 4] == '.' && kept[b - 3] == 'y' && kept[b - 2] == 'm' && kept[b - 1]
        == 'l'
        invariant
            a <= b <= k,
            k == kept@.len(),
            drop_yml(kept@.skip(a as int)) == drop_yml(kept@.subrange(a as int, b as int)),
        decreases b,
    {
        let ghost t = kept@.subrange(a as int, b as int);
        proof {
            reveal_strlit(".yml");
        }
        assert(t.skip(t.len() - 4) =~= ".yml"@);
        assert(t.take(t.len() - 4) =~= kept@.subrange(a as int, b - 4));
        b = b - 4;
    }
    proof {
        reveal_strlit(".yml");
        let t = kept@.subrange(a as int, b as int);
        if t.len() >= 4 && t.skip(t.len() - 4) == ".yml"@ {
            assert(t.skip(t.len() - 4)[0] == '.' && t.skip(t.len() - 4)[1] == 'y' && t.skip(
                t.len() - 4,
            )[2] == 'm' && t.skip(t.len() - 4)[3] == 'l');
        }
        assert(kept@.skip(a as int) =~= kept@.subrange(a as int, k as int));
    }
    let ghost base = kept@.subrange(a as int, b as int);
    let mut r = String::new();
    let mut j = a;
    while j < b
        invariant
            a <= j <= b <= k,
            k == kept@.len(),
            base == kept@.subrange(a as int, b as int),
            r@ == base.take(j - a).map_values(
                |c: char|
                    if c == '/' {
                        '-'
                    } else {
                        c
                    },
            ),
        decreases b - j,
    {
        let c = kept[j];
        push_char(&mut r, if c == '/' { '-' } else { c });
        assert(base.take(j + 1 - a) =~= base.take(j - a).push(c));
        assert(r@ =~= base.take(j + 1 - a).map_values(
            |c: char|
                if c == '/' {
                    '-'
                } else {
                    c
                },
        ));
        j = j + 1;
    }
    assert(base.take(b - a) =~= base);
    r
}

} // verus!
