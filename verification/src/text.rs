//! Verified text helpers: whitespace trimming, separator splitting and
//! prefix tests over `Seq<char>` views of strings.

use vstd::prelude::*;

verus! {

/// The characters that count as whitespace when trimming: the Unicode
/// `White_Space` set, as documented for `char::is_whitespace`.
pub open spec fn is_space_char(c: char) -> bool {
    c == ' ' || c == '\t' || c == '\n' || c == '\r' || c == '\u{b}' || c == '\u{c}'
        || c == '\u{85}' || c == '\u{a0}' || c == '\u{1680}'
        || (0x2000 <= c as u32 && c as u32 <= 0x200a)
        || c == '\u{2028}' || c == '\u{2029}' || c == '\u{202f}' || c == '\u{205f}'
        || c == '\u{3000}'
}

/// Runtime test matching `is_space_char`.
pub fn is_space(c: char) -> (r: bool)
    ensures
        r == is_space_char(c),
{
    c == ' ' || c == '\t' || c == '\n' || c == '\r' || c == '\u{b}' || c == '\u{c}'
        || c == '\u{85}' || c == '\u{a0}' || c == '\u{1680}'
        || (0x2000 <= c as u32 && c as u32 <= 0x200a)
        || c == '\u{2028}' || c == '\u{2029}' || c == '\u{202f}' || c == '\u{205f}'
        || c == '\u{3000}'
}

/// The sequence with leading whitespace removed.
pub open spec fn trim_start_spec(s: Seq<char>) -> Seq<char>
    decreases s.len(),
{
    if s.len() == 0 {
        s
    } else if is_space_char(s[0]) {
        trim_start_spec(s.drop_first())
    } else {
        s
    }
}

/// The sequence with trailing whitespace removed.
pub open spec fn trim_end_spec(s: Seq<char>) -> Seq<char>
    decreases s.len(),
{
    if s.len() == 0 {
        s
    } else if is_space_char(s[s.len() - 1]) {
        trim_end_spec(s.drop_last())
    } else {
        s
    }
}

/// The sequence with whitespace removed from both ends.
pub open spec fn trim_spec(s: Seq<char>) -> Seq<char> {
    trim_end_spec(trim_start_spec(s))
}

proof fn lemma_trim_start_at(s: Seq<char>, i: int)
    requires
        0 <= i <= s.len(),
        forall|k: int| 0 <= k < i ==> is_space_char(s[k]),
        i == s.len() || !is_space_char(s[i]),
    ensures
        trim_start_spec(s) == s.subrange(i, s.len() as int),
    decreases i,
{
    if i == 0 {
        assert(trim_start_spec(s) =~= s.subrange(0, s.len() as int));
    } else {
        assert(is_space_char(s[0]));
        let d = s.drop_first();
        assert(forall|k: int| 0 <= k < i - 1 ==> is_space_char(#[trigger] d[k]));
        lemma_trim_start_at(d, i - 1);
        assert(d.subrange(i - 1, d.len() as int) =~= s.subrange(i, s.len() as int));
    }
}

proof fn lemma_trim_end_at(s: Seq<char>, j: int)
    requires
        0 <= j <= s.len(),
        forall|k: int| j <= k < s.len() ==> is_space_char(s[k]),
        j == 0 || !is_space_char(s[j - 1]),
    ensures
        trim_end_spec(s) == s.subrange(0, j),
    decreases s.len(),
{
    if j == s.len() {
        if s.len() == 0 {
            assert(trim_end_spec(s) =~= s.subrange(0, j));
        } else {
            assert(!is_space_char(s[s.len() - 1]));
            assert(trim_end_spec(s) =~= s.subrange(0, j));
        }
    } else {
        assert(is_space_char(s[s.len() - 1]));
        let d = s.drop_last();
        lemma_trim_end_at(d, j);
        assert(d.subrange(0, j) =~= s.subrange(0, j));
    }
}

/// Removes whitespace from both ends, as `str::trim` does.
pub fn trim(s: &str) -> (r: String)
    ensures
        r@ == trim_spec(s@),
{
    let n = s.unicode_len();
    let mut i: usize = 0;
    while i < n && is_space(s.get_char(i))
        invariant
            0 <= i <= n,
            n == s@.len(),
            forall|k: int| 0 <= k < i ==> is_space_char(s@[k]),
        decreases n - i,
    {
        i = i + 1;
    }
    let mut j: usize = n;
    while j > i && is_space(s.get_char(j - 1))
        invariant
            i <= j <= n,
            n == s@.len(),
            forall|k: int| j <= k < n ==> is_space_char(s@[k]),
        decreases j,
    {
        j = j - 1;
    }
    proof {
        lemma_trim_start_at(s@, i as int);
        let t = s@.subrange(i as int, n as int);
        assert(forall|k: int| j - i <= k < t.len() ==> is_space_char(#[trigger] t[k]));
        lemma_trim_end_at(t, j - i);
        assert(t.subrange(0, j - i) =~= s@.subrange(i as int, j as int));
    }
    s.substring_char(i, j).to_owned()
}

/// Removes whitespace from the end only, as `str::trim_end` does.
pub fn trim_end(s: &str) -> (r: String)
    ensures
        r@ == trim_end_spec(s@),
{
    let n = s.unicode_len();
    let mut j: usize = n;
    while j > 0 && is_space(s.get_char(j - 1))
        invariant
            0 <= j <= n,
            n == s@.len(),
            forall|k: int| j <= k < n ==> is_space_char(s@[k]),
        decreases j,
    {
        j = j - 1;
    }
    proof {
        lemma_trim_end_at(s@, j as int);
    }
    s.substring_char(0, j).to_owned()
}

/// Splitting a sequence on a separator character: the separators themselves
/// are dropped, and `n` separators always yield `n + 1` pieces.
pub open spec fn split_on(s: Seq<char>, sep: char) -> Seq<Seq<char>>
    decreases s.len(),
{
    if s.len() == 0 {
        seq![Seq::<char>::empty()]
    } else if s[0] == sep {
        seq![Seq::<char>::empty()] + split_on(s.drop_first(), sep)
    } else {
        let rest = split_on(s.drop_first(), sep);
        seq![seq![s[0]] + rest[0]] + rest.drop_first()
    }
}

pub proof fn lemma_split_on_len(s: Seq<char>, sep: char)
    ensures
        split_on(s, sep).len() >= 1,
    decreases s.len(),
{
    if s.len() > 0 {
        lemma_split_on_len(s.drop_first(), sep);
    }
}

proof fn lemma_split_on_push(t: Seq<char>, sep: char, c: char)
    ensures
        c == sep ==> split_on(t.push(c), sep) == split_on(t, sep).push(Seq::<char>::empty()),
        c != sep ==> split_on(t.push(c), sep) == split_on(t, sep).update(
            split_on(t, sep).len() - 1,
            split_on(t, sep).last().push(c),
        ),
    decreases t.len(),
{
    lemma_split_on_len(t, sep);
    if t.len() == 0 {
        if c == sep {
            assert(t.push(c)[0] == sep);
            assert(t.push(c).drop_first() =~= t);
            assert(split_on(t.push(c), sep) =~= split_on(t, sep).push(Seq::<char>::empty()));
        } else {
            assert(t.push(c)[0] == c);
            assert(t.push(c).drop_first() =~= t);
            assert(split_on(t.push(c), sep) =~= split_on(t, sep).update(
                0,
                split_on(t, sep).last().push(c),
            ));
        }
    } else {
        let u = t.drop_first();
        lemma_split_on_len(u, sep);
        lemma_split_on_push(u, sep, c);
        assert(t.push(c).drop_first() =~= u.push(c));
        assert(t.push(c)[0] == t[0]);
        if t[0] == sep {
            if c == sep {
                assert(split_on(t.push(c), sep) =~= split_on(t, sep).push(Seq::<char>::empty()));
            } else {
                assert(split_on(t, sep).last() == split_on(u, sep).last());
                assert(split_on(t.push(c), sep) =~= split_on(t, sep).update(
                    split_on(t, sep).len() - 1,
                    split_on(t, sep).last().push(c),
                ));
            }
        } else {
            let rest = split_on(u, sep);
            if c == sep {
                assert(split_on(u.push(c), sep) == rest.push(Seq::<char>::empty()));
                assert(split_on(u.push(c), sep)[0] == rest[0]);
                assert(split_on(t.push(c), sep) =~= split_on(t, sep).push(Seq::<char>::empty()));
            } else {
                let rest2 = split_on(u.push(c), sep);
                if rest.len() == 1 {
                    assert(rest2 == rest.update(0, rest.last().push(c)));
                    assert(rest2[0] == rest[0].push(c));
                    assert(split_on(t.push(c), sep) =~= split_on(t, sep).update(
                        split_on(t, sep).len() - 1,
                        split_on(t, sep).last().push(c),
                    ));
                } else {
                    assert(rest2[0] == rest[0]);
                    assert(split_on(t.push(c), sep) =~= split_on(t, sep).update(
                        split_on(t, sep).len() - 1,
                        split_on(t, sep).last().push(c),
                    ));
                }
            }
        }
    }
}

/// The views of a vector of strings.
pub open spec fn views_of(v: Seq<String>) -> Seq<Seq<char>> {
    v.map_values(|t: String| t@)
}

/// Splits on a separator character, as `str::split` with a `char` pattern.
pub fn split_char(s: &str, sep: char) -> (r: Vec<String>)
    ensures
        views_of(r@) == split_on(s@, sep),
{
    let n = s.unicode_len();
    let mut out: Vec<String> = Vec::new();
    let mut start: usize = 0;
    let mut i: usize = 0;
    proof {
        assert(views_of(out@).push(s@.subrange(0, 0)) =~~= split_on(s@.take(0), sep));
    }
    while i < n
        invariant
            0 <= start <= i <= n,
            n == s@.len(),
            views_of(out@).push(s@.subrange(start as int, i as int)) == split_on(
                s@.take(i as int),
                sep,
            ),
        decreases n - i,
    {
        let ghost prev = s@.take(i as int);
        let c = s.get_char(i);
        proof {
            lemma_split_on_push(prev, sep, c);
            lemma_split_on_len(prev, sep);
            assert(s@.take(i + 1) =~= prev.push(c));
        }
        if c == sep {
            let piece = s.substring_char(start, i).to_owned();
            out.push(piece);
            start = i + 1;
            proof {
                assert(views_of(out@).push(s@.subrange(start as int, i + 1)) =~~= split_on(
                    s@.take(i + 1),
                    sep,
                ));
            }
        } else {
            proof {
                let so = split_on(prev, sep);
                assert(so.last() == s@.subrange(start as int, i as int));
                assert(s@.subrange(start as int, i + 1) =~= s@.subrange(
                    start as int,
                    i as int,
                ).push(c));
                assert(views_of(out@).push(s@.subrange(start as int, i + 1)) =~~= split_on(
                    s@.take(i + 1),
                    sep,
                ));
            }
        }
        i = i + 1;
    }
    let piece = s.substring_char(start, n).to_owned();
    let ghost out0 = out@;
    out.push(piece);
    proof {
        assert(s@.take(n as int) =~= s@);
        assert(views_of(out@) =~~= views_of(out0).push(piece@));
    }
    out
}

/// Whether `p` is a prefix of `s`.
pub open spec fn is_prefix_of(p: Seq<char>, s: Seq<char>) -> bool {
    p.len() <= s.len() && s.subrange(0, p.len() as int) == p
}

/// Runtime prefix test, as `str::starts_with`.
pub fn starts_with(s: &str, p: &str) -> (r: bool)
    ensures
        r == is_prefix_of(p@, s@),
{
    let pn = p.unicode_len();
    let sn = s.unicode_len();
    if pn > sn {
        proof {
            assert(!is_prefix_of(p@, s@));
        }
        return false;
    }
    let mut i: usize = 0;
    while i < pn
        invariant
            0 <= i <= pn <= sn,
            pn == p@.len(),
            sn == s@.len(),
            forall|k: int| 0 <= k < i ==> p@[k] == s@[k],
        decreases pn - i,
    {
        if s.get_char(i) != p.get_char(i) {
            proof {
                assert(s@.subrange(0, pn as int)[i as int] != p@[i as int]);
            }
            return false;
        }
        i = i + 1;
    }
    proof {
        assert(s@.subrange(0, pn as int) =~= p@);
    }
    true
}

/// The characters of `s` after the first `n`.
pub fn skip_chars(s: &str, n: usize) -> (r: String)
    requires
        n <= s@.len(),
    ensures
        r@ == s@.subrange(n as int, s@.len() as int),
{
    let len = s.unicode_len();
    s.substring_char(n, len).to_owned()
}

/// Joins two strings, returning their concatenation.
pub fn concat_strs(a: &str, b: &str) -> (r: String)
    ensures
        r@ == a@ + b@,
{
    let mut s = a.to_owned();
    s.append(b);
    s
}

/// Character-wise string equality, reflected as view equality.
pub fn str_eq(a: &str, b: &str) -> (r: bool)
    ensures
        r == (a@ == b@),
{
    let an = a.unicode_len();
    let bn = b.unicode_len();
    if an != bn {
        return false;
    }
    let mut i: usize = 0;
    while i < an
        invariant
            0 <= i <= an,
            an == a@.len(),
            bn == b@.len(),
            an == bn,
            forall|k: int| 0 <= k < i ==> a@[k] == b@[k],
        decreases an - i,
    {
        if a.get_char(i) != b.get_char(i) {
            return false;
        }
        i = i + 1;
    }
    proof {
        assert(a@ =~= b@);
    }
    true
}

} // verus!
