//! Character-level string operations with their mathematical meaning.

use vstd::prelude::*;

verus! {

/// `s` begins with `p`.
pub open spec fn starts_with(s: Seq<char>, p: Seq<char>) -> bool {
    p.len() <= s.len() && s.take(p.len() as int) == p
}

/// `s` ends with `p`.
pub open spec fn ends_with(s: Seq<char>, p: Seq<char>) -> bool {
    p.len() <= s.len() && s.skip(s.len() - p.len()) == p
}

/// `p` occurs in `s` starting at position `i`.
pub open spec fn occurs_at(s: Seq<char>, p: Seq<char>, i: int) -> bool {
    0 <= i && i + p.len() <= s.len() && s.subrange(i, i + p.len()) == p
}

/// `p` occurs somewhere in `s`.
pub open spec fn contains(s: Seq<char>, p: Seq<char>) -> bool {
    exists|i: int| occurs_at(s, p, i)
}

/// Every non-overlapping occurrence of `p`, searched from the left, replaced by `t`.
pub open spec fn replace_all(s: Seq<char>, p: Seq<char>, t: Seq<char>) -> Seq<char>
    decreases s.len(),
{
    if p.len() == 0 {
        insert_around(s, t)
    } else if s.len() == 0 {
        s
    } else if starts_with(s, p) {
        t + replace_all(s.skip(p.len() as int), p, t)
    } else {
        seq![s[0]] + replace_all(s.skip(1), p, t)
    }
}

/// `t` before, between and after the characters of `s` (what replacing the
/// empty text by `t` gives).
pub open spec fn insert_around(s: Seq<char>, t: Seq<char>) -> Seq<char>
    decreases s.len(),
{
    if s.len() == 0 {
        t
    } else {
        t + seq![s[0]] + insert_around(s.skip(1), t)
    }
}

/// `s` with every leading repetition of `p` removed.
pub open spec fn trim_start_all(s: Seq<char>, p: Seq<char>) -> Seq<char>
    decreases s.len(),
{
    if p.len() > 0 && starts_with(s, p) {
        trim_start_all(s.skip(p.len() as int), p)
    } else {
        s
    }
}

/// The pieces of `s` between the occurrences of `c`, as `str::split` yields them.
pub open spec fn split_on(s: Seq<char>, c: char) -> Seq<Seq<char>>
    decreases s.len(),
{
    if s.len() == 0 {
        seq![Seq::empty()]
    } else {
        let prev = split_on(s.drop_last(), c);
        if s.last() == c {
            prev.push(Seq::empty())
        } else {
            prev.update(prev.len() - 1, prev.last().push(s.last()))
        }
    }
}

pub proof fn lemma_split_nonempty(s: Seq<char>, c: char)
    ensures
        split_on(s, c).len() >= 1,
    decreases s.len(),
{
    if s.len() > 0 {
        lemma_split_nonempty(s.drop_last(), c);
    }
}

/// The pieces joined with `sep` between consecutive pieces.
pub open spec fn join_with(parts: Seq<Seq<char>>, sep: Seq<char>) -> Seq<char>
    decreases parts.len(),
{
    if parts.len() == 0 {
        Seq::empty()
    } else if parts.len() == 1 {
        parts[0]
    } else {
        join_with(parts.drop_last(), sep) + sep + parts.last()
    }
}

/// Appends one character to a string (`String::push`).
#[verifier::external_body]
pub(crate) fn push_char(s: &mut String, c: char)
    ensures
        final(s)@ == old(s)@.push(c),
{
    s.push(c);
}

/// The characters of `s`, in order.
pub fn chars_of(s: &str) -> (v: Vec<char>)
    ensures
        v@ == s@,
{
    let mut v: Vec<char> = Vec::new();
    for c in it: s.chars()
        invariant
            v@ == it.seq().take(it.index() as int),
            it.seq() == s@,
    {
        v.push(c);
    }
    v
}

/// The string made of the characters `v[from..to]`.
pub fn string_of_range(v: &Vec<char>, from: usize, to: usize) -> (s: String)
    requires
        from <= to <= v.len(),
    ensures
        s@ == v@.subrange(from as int, to as int),
{
    let mut s = String::new();
    let mut i = from;
    while i < to
        invariant
            from <= i <= to <= v.len(),
            s@ == v@.subrange(from as int, i as int),
        decreases to - i,
    {
        push_char(&mut s, v[i]);
        i = i + 1;
        assert(s@ =~= v@.subrange(from as int, i as int));
    }
    s
}

/// The string made of the characters of `v`.
pub fn string_of(v: &Vec<char>) -> (s: String)
    ensures
        s@ == v@,
{
    let s = string_of_range(v, 0, v.len());
    assert(v@.subrange(0, v@.len() as int) =~= v@);
    s
}

/// Appends the characters of `t` to `v`.
pub fn extend_chars(v: &mut Vec<char>, t: &Vec<char>)
    ensures
        final(v)@ == old(v)@ + t@,
{
    let mut i: usize = 0;
    while i < t.len()
        invariant
            i <= t.len(),
            v@ == old(v)@ + t@.take(i as int),
        decreases t.len() - i,
    {
        v.push(t[i]);
        i = i + 1;
        assert(v@ =~= old(v)@ + t@.take(i as int));
    }
    assert(t@.take(t@.len() as int) =~= t@);
}

/// The texts of a list of strings.
pub open spec fn string_texts(v: Seq<String>) -> Seq<Seq<char>> {
    v.map_values(|x: String| x@)
}

/// The pieces of `s` between the occurrences of `c` (`str::split`).
pub fn split_char(s: &str, c: char) -> (r: Vec<String>)
    ensures
        string_texts(r@) == split_on(s@, c),
{
    let v = chars_of(s);
    let mut pieces: Vec<String> = Vec::new();
    let mut cur = String::new();
    let mut i: usize = 0;
    assert(v@.take(0) =~= Seq::<char>::empty());
    while i < v.len()
        invariant
            i <= v@.len(),
            v@ == s@,
            string_texts(pieces@).push(cur@) == split_on(v@.take(i as int), c),
        decreases v@.len() - i,
    {
        let ghost prev = split_on(v@.take(i as int), c);
        assert(v@.take(i + 1).drop_last() =~= v@.take(i as int));
        assert(v@.take(i + 1).last() == v@[i as int]);
        if v[i] == c {
            let done = cur;
            cur = String::new();
            pieces.push(done);
            assert(string_texts(pieces@) =~= prev);
            assert(string_texts(pieces@).push(cur@) =~= prev.push(Seq::empty()));
        } else {
            push_char(&mut cur, v[i]);
            assert(string_texts(pieces@).push(cur@) =~= prev.update(
                prev.len() - 1,
                prev.last().push(v@[i as int]),
            ));
        }
        i = i + 1;
    }
    let ghost before = string_texts(pieces@);
    pieces.push(cur);
    assert(string_texts(pieces@) =~= before.push(cur@));
    assert(v@.take(v@.len() as int) =~= v@);
    pieces
}

/// Whether `p` occurs in `s` at position `i`.
pub fn occurs_at_exec(s: &Vec<char>, p: &Vec<char>, i: usize) -> (b: bool)
    ensures
        b == occurs_at(s@, p@, i as int),
{
    if i > s.len() || p.len() > s.len() - i {
        return false;
    }
    let mut k: usize = 0;
    while k < p.len()
        invariant
            k <= p.len(),
            i + p.len() <= s.len(),
            forall|j: int| 0 <= j < k ==> s@[i + j] == p@[j],
        decreases p.len() - k,
    {
        if s[i + k] != p[k] {
            assert(s@.subrange(i as int, i + p.len())[k as int] != p@[k as int]);
            return false;
        }
        k = k + 1;
    }
    assert(s@.subrange(i as int, i + p.len()) =~= p@);
    true
}

/// Whether `s` begins with `p`.
pub fn starts_with_exec(s: &Vec<char>, p: &Vec<char>) -> (b: bool)
    ensures
        b == starts_with(s@, p@),
{
    let b = occurs_at_exec(s, p, 0);
    assert(s@.subrange(0, p@.len() as int) =~= s@.take(p@.len() as int));
    b
}

/// Whether `s` ends with `p`.
pub fn ends_with_exec(s: &Vec<char>, p: &Vec<char>) -> (b: bool)
    ensures
        b == ends_with(s@, p@),
{
    if p.len() > s.len() {
        return false;
    }
    let b = occurs_at_exec(s, p, s.len() - p.len());
    assert(s@.subrange(s@.len() - p@.len(), s@.len() as int) =~= s@.skip(s@.len() - p@.len()));
    b
}

/// Whether `s` ends with the character `c`.
pub fn ends_with_char(s: &str, c: char) -> (b: bool)
    ensures
        b == ends_with(s@, seq![c]),
{
    let v = chars_of(s);
    if v.len() == 0 {
        return false;
    }
    let last = v[v.len() - 1];
    assert(v@.skip(v@.len() - 1) =~= seq![v@[v@.len() - 1]]);
    if last == c {
        assert(v@.skip(v@.len() - 1) =~= seq![c]);
        true
    } else {
        assert(v@.skip(v@.len() - 1)[0] != seq![c][0]);
        false
    }
}

proof fn lemma_skip_skip(s: Seq<char>, a: int, b: int)
    requires
        0 <= a,
        0 <= b,
        a + b <= s.len(),
    ensures
        s.skip(a).skip(b) == s.skip(a + b),
{
    assert(s.skip(a).skip(b) =~= s.skip(a + b));
}

proof fn lemma_occurs_starts(s: Seq<char>, p: Seq<char>, i: int)
    requires
        0 <= i <= s.len(),
    ensures
        occurs_at(s, p, i) == starts_with(s.skip(i), p),
{
    if occurs_at(s, p, i) {
        assert(s.skip(i).take(p.len() as int) =~= s.subrange(i, i + p.len()));
    }
    if starts_with(s.skip(i), p) {
        assert(s.skip(i).take(p.len() as int) =~= s.subrange(i, i + p.len()));
    }
}

/// `t` before, between and after the characters of `s`.
fn insert_around_exec(s: &Vec<char>, t: &Vec<char>) -> (r: String)
    ensures
        r@ == insert_around(s@, t@),
{
    let mut out: Vec<char> = Vec::new();
    let mut i: usize = 0;
    assert(s@.skip(0) =~= s@);
    while i < s.len()
        invariant
            i <= s@.len(),
            out@ + insert_around(s@.skip(i as int), t@) == insert_around(s@, t@),
        decreases s@.len() - i,
    {
        let ghost rest = s@.skip(i as int);
        proof {
            lemma_skip_skip(s@, i as int, 1);
            assert(rest[0] == s@[i as int]);
            assert(insert_around(rest, t@) == t@ + seq![s@[i as int]] + insert_around(
                s@.skip(i + 1),
                t@,
            ));
        }
        let ghost prev = out@;
        extend_chars(&mut out, t);
        out.push(s[i]);
        proof {
            assert(out@ == prev + t@ + seq![s@[i as int]]);
            assert(out@ + insert_around(s@.skip(i + 1), t@) =~= prev + (t@ + seq![s@[i as int]]
                + insert_around(s@.skip(i + 1), t@)));
        }
        i = i + 1;
    }
    assert(s@.skip(i as int) =~= Seq::<char>::empty());
    let ghost last = out@;
    extend_chars(&mut out, t);
    assert(out@ =~= last + insert_around(Seq::<char>::empty(), t@));
    string_of(&out)
}

/// `s` with every occurrence of `from` replaced by `to` (`str::replace`).
pub fn replace(s: &str, from: &str, to: &str) -> (r: String)
    ensures
        r@ == replace_all(s@, from@, to@),
{
    let sv = chars_of(s);
    let pv = chars_of(from);
    let tv = chars_of(to);
    if pv.len() == 0 {
        return insert_around_exec(&sv, &tv);
    }
    let mut out: Vec<char> = Vec::new();
    let mut i: usize = 0;
    assert(sv@.skip(0) =~= sv@);
    while i < sv.len()
        invariant
            i <= sv.len(),
            pv@.len() > 0,
            sv@ == s@,
            pv@ == from@,
            tv@ == to@,
            out@ + replace_all(sv@.skip(i as int), pv@, tv@) == replace_all(s@, from@, to@),
        decreases sv.len() - i,
    {
        let ghost rest = sv@.skip(i as int);
        proof {
            lemma_occurs_starts(sv@, pv@, i as int);
        }
        if occurs_at_exec(&sv, &pv, i) {
            proof {
                lemma_skip_skip(sv@, i as int, pv@.len() as int);
                assert(replace_all(rest, pv@, tv@) == tv@ + replace_all(
                    rest.skip(pv@.len() as int),
                    pv@,
                    tv@,
                ));
                assert(out@ + tv@ + replace_all(sv@.skip(i + pv@.len()), pv@, tv@) == out@ + (tv@
                    + replace_all(sv@.skip(i + pv@.len()), pv@, tv@)));
            }
            extend_chars(&mut out, &tv);
            i = i + pv.len();
        } else {
            proof {
                lemma_skip_skip(sv@, i as int, 1);
                assert(rest[0] == sv@[i as int]);
                assert(replace_all(rest, pv@, tv@) == seq![sv@[i as int]] + replace_all(
                    rest.skip(1),
                    pv@,
                    tv@,
                ));
                assert(out@.push(sv@[i as int]) + replace_all(sv@.skip(i + 1), pv@, tv@) =~= out@
                    + (seq![sv@[i as int]] + replace_all(sv@.skip(i + 1), pv@, tv@)));
            }
            out.push(sv[i]);
            i = i + 1;
        }
    }
    assert(sv@.skip(i as int) =~= Seq::<char>::empty());
    assert(out@ + Seq::<char>::empty() =~= out@);
    string_of(&out)
}

/// `s` with every leading repetition of `p` removed (`str::trim_start_matches`).
pub fn trim_start_matches(s: &str, p: &str) -> (r: String)
    ensures
        r@ == trim_start_all(s@, p@),
{
    let sv = chars_of(s);
    let pv = chars_of(p);
    let mut i: usize = 0;
    assert(sv@.skip(0) =~= sv@);
    if pv.len() == 0 {
        return string_of(&sv);
    }
    while i < sv.len() && occurs_at_exec(&sv, &pv, i)
        invariant
            i <= sv.len(),
            pv@.len() > 0,
            sv@ == s@,
            pv@ == p@,
            trim_start_all(sv@.skip(i as int), pv@) == trim_start_all(s@, p@),
        decreases sv.len() - i,
    {
        proof {
            lemma_occurs_starts(sv@, pv@, i as int);
            lemma_skip_skip(sv@, i as int, pv@.len() as int);
        }
        i = i + pv.len();
    }
    proof {
        lemma_occurs_starts(sv@, pv@, i as int);
        if i == sv.len() {
            assert(sv@.skip(i as int) =~= Seq::<char>::empty());
        }
    }
    let r = string_of_range(&sv, i, sv.len());
    assert(sv@.subrange(i as int, sv@.len() as int) =~= sv@.skip(i as int));
    r
}

/// Replacing a non-empty pattern changes nothing in a text where it does not
/// occur, and a text that starts with the pattern starts, after the
/// replacement, with the replacement.
pub proof fn law_replace_all_occurrences(s: Seq<char>, p: Seq<char>, t: Seq<char>)
    requires
        p.len() > 0,
    ensures
        (forall|i: int| !#[trigger] occurs_at(s, p, i)) ==> replace_all(s, p, t) == s,
        starts_with(s, p) ==> replace_all(s, p, t) == t + replace_all(s.skip(p.len() as int), p, t),
    decreases s.len(),
{
    if s.len() > 0 && (forall|i: int| !#[trigger] occurs_at(s, p, i)) {
        assert(!occurs_at(s, p, 0));
        assert(!starts_with(s, p)) by {
            if starts_with(s, p) {
                assert(s.subrange(0, p.len() as int) =~= s.take(p.len() as int));
            }
        }
        assert forall|i: int| !#[trigger] occurs_at(s.skip(1), p, i) by {
            if occurs_at(s.skip(1), p, i) {
                assert(s.skip(1).subrange(i, i + p.len()) =~= s.subrange(i + 1, i + 1 + p.len()));
                assert(occurs_at(s, p, i + 1));
            }
        }
        law_replace_all_occurrences(s.skip(1), p, t);
        assert(seq![s[0]] + s.skip(1) =~= s);
    }
}

} // verus!
