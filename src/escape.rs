//! Reference paths: `#/definitions/<name>` with `<` and `>` percent-escaped.

use vstd::prelude::*;
use crate::model::opt_str;

verus! {

pub open spec fn escape_char(c: char) -> Seq<char> {
    if c == '<' {
        seq!['%', '3', 'C']
    } else if c == '>' {
        seq!['%', '3', 'E']
    } else {
        seq![c]
    }
}

/// `s` with each `<` written `%3C` and each `>` written `%3E`.
pub open spec fn escape(s: Seq<char>) -> Seq<char>
    decreases s.len(),
{
    if s.len() == 0 {
        Seq::empty()
    } else {
        escape(s.drop_last()) + escape_char(s.last())
    }
}

/// `t` with each `%3C` read back as `<` and each `%3E` as `>`, left to right.
pub open spec fn unescape(t: Seq<char>) -> Seq<char>
    decreases t.len(),
{
    if t.len() == 0 {
        t
    } else if t.len() >= 3 && t[0] == '%' && t[1] == '3' && t[2] == 'C' {
        seq!['<'] + unescape(t.skip(3))
    } else if t.len() >= 3 && t[0] == '%' && t[1] == '3' && t[2] == 'E' {
        seq!['>'] + unescape(t.skip(3))
    } else {
        seq![t[0]] + unescape(t.skip(1))
    }
}

/// `s` holds `%3C` or `%3E` itself, so that its escaped form is ambiguous.
pub open spec fn holds_escape_code(s: Seq<char>) -> bool {
    exists|i: int|
        0 <= i && i + 2 < s.len() && #[trigger] s[i] == '%' && s[i + 1] == '3' && (s[i + 2] == 'C'
            || s[i + 2] == 'E')
}

pub open spec fn definitions_prefix() -> Seq<char> {
    seq!['#', '/', 'd', 'e', 'f', 'i', 'n', 'i', 't', 'i', 'o', 'n', 's', '/']
}

/// The reference path of the definition named `name`.
pub open spec fn reference_path_of(name: Seq<char>) -> Seq<char> {
    definitions_prefix() + escape(name)
}

/// The definition name that a reference path points at, if it is a definitions path.
pub open spec fn name_of_reference(path: Seq<char>) -> Option<Seq<char>> {
    if path.len() >= definitions_prefix().len() && path.take(definitions_prefix().len() as int)
        == definitions_prefix() {
        Some(unescape(path.skip(definitions_prefix().len() as int)))
    } else {
        None
    }
}

proof fn lemma_escape_concat(a: Seq<char>, b: Seq<char>)
    ensures
        escape(a + b) == escape(a) + escape(b),
    decreases b.len(),
{
    if b.len() == 0 {
        assert(a + b =~= a);
        assert(escape(b) =~= Seq::<char>::empty());
        assert(escape(a) + escape(b) =~= escape(a));
    } else {
        assert((a + b).drop_last() =~= a + b.drop_last());
        assert((a + b).last() == b.last());
        lemma_escape_concat(a, b.drop_last());
        assert(escape(a) + escape(b) =~= escape(a) + escape(b.drop_last()) + escape_char(b.last()));
    }
}

proof fn lemma_escape_front(s: Seq<char>)
    requires
        s.len() > 0,
    ensures
        escape(s) == escape_char(s[0]) + escape(s.skip(1)),
{
    assert(s =~= seq![s[0]] + s.skip(1));
    lemma_escape_concat(seq![s[0]], s.skip(1));
    assert(seq![s[0]].drop_last() =~= Seq::<char>::empty());
    assert(escape(Seq::<char>::empty()) =~= Seq::<char>::empty());
    assert(escape(seq![s[0]]) == escape(seq![s[0]].drop_last()) + escape_char(s[0]));
    assert(escape(seq![s[0]]) =~= escape_char(s[0]));
}

proof fn lemma_unescape_escape(s: Seq<char>)
    requires
        !holds_escape_code(s),
    ensures
        unescape(escape(s)) == s,
    decreases s.len(),
{
    if s.len() == 0 {
        assert(escape(s) =~= Seq::<char>::empty());
    } else {
        let c = s[0];
        let rest = s.skip(1);
        let e = escape(rest);
        let t = escape(s);
        lemma_escape_front(s);
        assert(!holds_escape_code(rest)) by {
            if holds_escape_code(rest) {
                let i = choose|i: int|
                    0 <= i && i + 2 < rest.len() && #[trigger] rest[i] == '%' && rest[i + 1] == '3'
                        && (rest[i + 2] == 'C' || rest[i + 2] == 'E');
                assert(s[i + 1] == '%');
            }
        }
        lemma_unescape_escape(rest);
        if c == '<' || c == '>' {
            assert(t.skip(3) =~= e);
            assert(s =~= seq![c] + rest);
        } else {
            assert(t =~= seq![c] + e);
            assert(t.skip(1) =~= e);
            if c == '%' && t.len() >= 3 && t[1] == '3' {
                lemma_escape_front(rest);
                assert(rest[0] == '3');
                let rest2 = rest.skip(1);
                lemma_escape_front(rest2);
                assert(t[2] == escape_char(rest2[0])[0]);
                if rest2[0] == 'C' || rest2[0] == 'E' {
                    assert(s[0] == '%' && s[1] == '3' && s[2] == rest2[0]);
                    assert(holds_escape_code(s));
                }
            }
            assert(s =~= seq![c] + rest);
        }
    }
}

/// Escaping is undone by unescaping, for every name that does not itself
/// hold `%3C` or `%3E`: the reference path of such a name leads back to it.
pub proof fn lemma_reference_round_trip(name: Seq<char>)
    requires
        !holds_escape_code(name),
    ensures
        name_of_reference(reference_path_of(name)) == Some(name),
{
    let p = reference_path_of(name);
    assert(p.take(definitions_prefix().len() as int) =~= definitions_prefix());
    assert(p.skip(definitions_prefix().len() as int) =~= escape(name));
    lemma_unescape_escape(name);
}

/// `name` with `<` and `>` percent-escaped.
pub fn escape_name(name: &str) -> (r: String)
    ensures
        r@ == escape(name@),
{
    let n = name.unicode_len();
    let mut r = String::new();
    let mut i: usize = 0;
    while i < n
        invariant
            n == name@.len(),
            i <= n,
            r@ == escape(name@.subrange(0, i as int)),
        decreases n - i,
    {
        let c = name.get_char(i);
        proof {
            reveal_strlit("%3C");
            reveal_strlit("%3E");
            assert(name@.subrange(0, i + 1).drop_last() =~= name@.subrange(0, i as int));
        }
        if c == '<' {
            r.append("%3C");
        } else if c == '>' {
            r.append("%3E");
        } else {
            r.append(name.substring_char(i, i + 1));
            assert(name@.subrange(i as int, i + 1) =~= seq![c]);
        }
        i += 1;
    }
    assert(name@.subrange(0, n as int) =~= name@);
    r
}

/// The reference path `#/definitions/<escaped name>` of a definition.
pub fn reference_path(name: &str) -> (r: String)
    ensures
        r@ == reference_path_of(name@),
{
    let mut r = String::from_str("#/definitions/");
    proof {
        reveal_strlit("#/definitions/");
    }
    assert(r@ =~= definitions_prefix());
    let e = escape_name(name);
    r.append(e.as_str());
    r
}

/// The definition name that `path` points at; `None` when it is no definitions path.
pub fn reference_name(path: &str) -> (r: Option<String>)
    ensures
        opt_str(r) == name_of_reference(path@),
{
    let n = path.unicode_len();
    let pre = "#/definitions/";
    proof {
        reveal_strlit("#/definitions/");
    }
    assert(pre@ =~= definitions_prefix());
    let m = pre.unicode_len();
    if n < m {
        return None;
    }
    let mut k: usize = 0;
    while k < m
        invariant
            m == definitions_prefix().len(),
            pre@ == definitions_prefix(),
            n == path@.len(),
            m <= n,
            k <= m,
            forall|j: int| 0 <= j < k ==> path@[j] == definitions_prefix()[j],
        decreases m - k,
    {
        if path.get_char(k) != pre.get_char(k) {
            assert(path@.take(m as int)[k as int] != definitions_prefix()[k as int]);
            return None;
        }
        k += 1;
    }
    assert(path@.take(m as int) =~= definitions_prefix());
    let t = path.substring_char(m, n);
    Some(unescape_str(t))
}

/// `t` with `%3C` and `%3E` read back as `<` and `>`.
pub fn unescape_str(t: &str) -> (r: String)
    ensures
        r@ == unescape(t@),
{
    let n = t.unicode_len();
    let mut r = String::new();
    let mut i: usize = 0;
    assert(t@.skip(0) =~= t@);
    assert(r@ + unescape(t@) =~= unescape(t@));
    while i < n
        invariant
            n == t@.len(),
            i <= n,
            r@ + unescape(t@.skip(i as int)) == unescape(t@),
        decreases n - i,
    {
        let ghost u = t@.skip(i as int);
        let ghost r0 = r@;
        let c = t.get_char(i);
        if c == '%' && n - i > 2 && t.get_char(i + 1) == '3' && (t.get_char(i + 2) == 'C'
            || t.get_char(i + 2) == 'E') {
            assert(u.skip(3) =~= t@.skip(i + 3));
            if t.get_char(i + 2) == 'C' {
                assert(unescape(u) == seq!['<'] + unescape(u.skip(3)));
                proof {
                    reveal_strlit("<");
                }
                r.append("<");
                assert(r@ + unescape(t@.skip(i + 3)) =~= r0 + unescape(u));
            } else {
                assert(unescape(u) == seq!['>'] + unescape(u.skip(3)));
                proof {
                    reveal_strlit(">");
                }
                r.append(">");
                assert(r@ + unescape(t@.skip(i + 3)) =~= r0 + unescape(u));
            }
            i += 3;
        } else {
            assert(u.skip(1) =~= t@.skip(i + 1));
            r.append(t.substring_char(i, i + 1));
            assert(t@.subrange(i as int, i + 1) =~= seq![c]);
            assert(unescape(u) == seq![c] + unescape(u.skip(1)));
            assert(r@ + unescape(t@.skip(i + 1)) =~= r0 + unescape(u));
            i += 1;
        }
    }
    assert(t@.skip(n as int) =~= Seq::<char>::empty());
    assert(r@ + Seq::<char>::empty() =~= r@);
    r
}

} // verus!
