//! Text operations on strings, specified over their character sequences.

use vstd::prelude::*;

verus! {

/// `s` ends with `t`.
pub open spec fn ends_with(s: Seq<char>, t: Seq<char>) -> bool {
    t.len() <= s.len() && s.skip(s.len() - t.len()) == t
}

/// Appending the same text to both sides keeps a suffix relation.
pub proof fn lemma_ends_with_append(s: Seq<char>, t: Seq<char>, u: Seq<char>)
    requires
        ends_with(s, t),
    ensures
        ends_with(s + u, t + u),
{
    assert((s + u).skip((s + u).len() - (t + u).len()) =~= s.skip(s.len() - t.len()) + u);
}

/// Concatenation of two strings.
pub fn str_concat(a: &str, b: &str) -> (res: String)
    ensures
        res@ == a@ + b@,
{
    let mut r = a.to_owned();
    r.append(b);
    r
}


/// `String::push`: appends one character.
pub assume_specification[ String::push ](s: &mut String, ch: char)
    ensures
        final(s)@ == old(s)@.push(ch),
;

/// `s` has `pat` at position `i`.
pub open spec fn occurs_at(s: Seq<char>, i: int, pat: Seq<char>) -> bool {
    0 <= i && i + pat.len() <= s.len() && s.subrange(i, i + pat.len()) == pat
}

/// Every occurrence of `from` in `s`, scanning from the left and without
/// overlaps, replaced by `to`. An empty `from` occurs before each character
/// and at the end.
pub open spec fn replace_all(s: Seq<char>, from: Seq<char>, to: Seq<char>) -> Seq<char>
    decreases s.len(),
{
    if s.len() == 0 {
        if from.len() == 0 {
            to
        } else {
            s
        }
    } else if from.len() == 0 {
        to + seq![s[0]] + replace_all(s.skip(1), from, to)
    } else if occurs_at(s, 0, from) {
        to + replace_all(s.skip(from.len() as int), from, to)
    } else {
        seq![s[0]] + replace_all(s.skip(1), from, to)
    }
}

/// The parts, with `sep` between each two.
pub open spec fn join(parts: Seq<Seq<char>>, sep: Seq<char>) -> Seq<char>
    decreases parts.len(),
{
    if parts.len() == 0 {
        seq![]
    } else if parts.len() == 1 {
        parts[0]
    } else {
        join(parts.drop_last(), sep) + sep + parts.last()
    }
}

/// The characters of `s`.
pub fn chars_of(s: &str) -> (res: Vec<char>)
    ensures
        res@ == s@,
{
    let n = s.unicode_len();
    let mut res: Vec<char> = Vec::new();
    let mut i: usize = 0;
    while i < n
        invariant
            n == s@.len(),
            i <= n,
            res@ == s@.take(i as int),
        decreases n - i,
    {
        let c = s.get_char(i);
        res.push(c);
        i = i + 1;
        assert(res@ =~= s@.take(i as int));
    }
    assert(res@ =~= s@);
    res
}

/// Whether `pat` occurs in `s` at `i`.
fn occurs_at_exec(s: &Vec<char>, i: usize, pat: &Vec<char>) -> (res: bool)
    ensures
        res == occurs_at(s@, i as int, pat@),
{
    if pat.len() > s.len() || i > s.len() - pat.len() {
        return false;
    }
    let n = s.len();
    let mut j: usize = 0;
    while j < pat.len()
        invariant
            n == s@.len(),
            i + pat@.len() <= s@.len(),
            j <= pat@.len(),
            forall|k: int| 0 <= k < j ==> s@[i + k] == pat@[k],
        decreases pat@.len() - j,
    {
        assert(i + j < s@.len());
        if s[i + j] != pat[j] {
            assert(s@.subrange(i as int, i + pat@.len())[j as int] != pat@[j as int]);
            return false;
        }
        j = j + 1;
    }
    assert(s@.subrange(i as int, i + pat@.len()) =~= pat@);
    true
}

/// `str::replace`: every occurrence of `from` replaced by `to`, from the
/// left and without overlaps.
pub fn replace(s: &str, from: &str, to: &str) -> (res: String)
    ensures
        res@ == replace_all(s@, from@, to@),
{
    let cs = chars_of(s);
    let fs = chars_of(from);
    let mut res = String::new();
    let mut i: usize = 0;
    assert(s@.skip(0) =~= s@);
    assert(res@ + replace_all(s@, from@, to@) =~= replace_all(s@, from@, to@));
    if fs.len() == 0 {
        while i < cs.len()
            invariant
                cs@ == s@,
                from@.len() == 0,
                i <= cs@.len(),
                replace_all(s@, from@, to@) == res@ + replace_all(s@.skip(i as int), from@, to@),
            decreases cs@.len() - i,
        {
            proof {
                assert(s@.skip(i as int).skip(1) =~= s@.skip(i + 1));
                assert(s@.skip(i as int)[0] == cs@[i as int]);
            }
            let ghost before = res@;
            res.append(to);
            res.push(cs[i]);
            proof {
                let rest = replace_all(s@.skip(i + 1), from@, to@);
                assert(res@ + rest =~= before + (to@ + seq![cs@[i as int]] + rest));
            }
            i = i + 1;
        }
        assert(s@.skip(i as int) =~= Seq::<char>::empty());
        res.append(to);
        return res;
    }
    while i < cs.len()
        invariant
            cs@ == s@,
            fs@ == from@,
            fs@.len() > 0,
            i <= cs@.len(),
            replace_all(s@, from@, to@) == res@ + replace_all(s@.skip(i as int), from@, to@),
        decreases cs@.len() - i,
    {
        let rest = Ghost(s@.skip(i as int));
        if occurs_at_exec(&cs, i, &fs) {
            proof {
                assert(rest@.subrange(0, from@.len() as int) =~= s@.subrange(i as int, i + from@.len()));
                assert(occurs_at(rest@, 0, from@));
                assert(rest@.skip(from@.len() as int) =~= s@.skip(i + from@.len()));
            }
            res.append(to);
            i = i + fs.len();
        } else {
            proof {
                assert(rest@.len() > 0);
                if occurs_at(rest@, 0, from@) {
                    assert(s@.subrange(i as int, i + from@.len()) =~= rest@.subrange(0, from@.len() as int));
                }
                assert(rest@.skip(1) =~= s@.skip(i + 1));
            }
            res.push(cs[i]);
            i = i + 1;
        }
    }
    assert(s@.skip(i as int) =~= Seq::<char>::empty());
    assert(res@ =~= res@ + Seq::<char>::empty());
    res
}

/// The strings of `parts`, with `sep` between each two.
pub fn join_strings(parts: &Vec<String>, sep: &str) -> (res: String)
    ensures
        res@ == join(parts@.map_values(|p: String| p@), sep@),
{
    let ghost views = parts@.map_values(|p: String| p@);
    let mut res = String::new();
    let mut i: usize = 0;
    while i < parts.len()
        invariant
            i <= parts@.len(),
            views == parts@.map_values(|p: String| p@),
            res@ == join(views.take(i as int), sep@),
        decreases parts@.len() - i,
    {
        if i > 0 {
            res.append(sep);
        }
        res.append(parts[i].as_str());
        proof {
            let next = views.take(i + 1);
            assert(next.drop_last() =~= views.take(i as int));
            if i == 0 {
                assert(res@ =~= next[0]);
            }
        }
        i = i + 1;
    }
    assert(views.take(i as int) =~= views);
    res
}

/// A text in which the pattern does not occur is left as it is.
pub proof fn replace_without_occurrence(s: Seq<char>, from: Seq<char>, to: Seq<char>)
    requires
        from.len() > 0,
        forall|i: int| 0 <= i < s.len() ==> !#[trigger] occurs_at(s, i, from),
    ensures
        replace_all(s, from, to) == s,
    decreases s.len(),
{
    if from.len() > 0 && s.len() > 0 {
        assert(!occurs_at(s, 0, from));
        let rest = s.skip(1);
        assert forall|i: int| 0 <= i < rest.len() implies !#[trigger] occurs_at(rest, i, from) by {
            if occurs_at(rest, i, from) {
                assert(s.subrange(i + 1, i + 1 + from.len()) =~= rest.subrange(i, i + from.len()));
                assert(occurs_at(s, i + 1, from));
            }
        }
        replace_without_occurrence(rest, from, to);
        assert(seq![s[0]] + rest =~= s);
    }
}

/// `a` comes before `b` in the order of strings: by code points, from the
/// left, a proper prefix first. (UTF-8 keeps this order byte for byte, so it
/// is the order of `String`'s `Ord`.)
pub open spec fn str_less(a: Seq<char>, b: Seq<char>) -> bool
    decreases a.len(),
{
    if a.len() == 0 {
        b.len() > 0
    } else if b.len() == 0 {
        false
    } else if a[0] < b[0] {
        true
    } else if a[0] == b[0] {
        str_less(a.drop_first(), b.drop_first())
    } else {
        false
    }
}

/// No string comes before itself.
pub proof fn lemma_str_less_irreflexive(a: Seq<char>)
    ensures
        !str_less(a, a),
    decreases a.len(),
{
    if a.len() > 0 {
        lemma_str_less_irreflexive(a.drop_first());
    }
}

/// The order of strings is transitive.
pub proof fn lemma_str_less_transitive(a: Seq<char>, b: Seq<char>, c: Seq<char>)
    requires
        str_less(a, b),
        str_less(b, c),
    ensures
        str_less(a, c),
    decreases a.len(),
{
    if a.len() > 0 && b.len() > 0 && c.len() > 0 {
        if a[0] == b[0] && b[0] == c[0] {
            lemma_str_less_transitive(a.drop_first(), b.drop_first(), c.drop_first());
        }
    }
}

/// Of two different strings, one comes before the other.
pub proof fn lemma_str_less_total(a: Seq<char>, b: Seq<char>)
    ensures
        a == b || str_less(a, b) || str_less(b, a),
    decreases a.len(),
{
    if a.len() > 0 && b.len() > 0 {
        if a[0] == b[0] {
            lemma_str_less_total(a.drop_first(), b.drop_first());
            if a.drop_first() == b.drop_first() {
                assert(a =~= seq![a[0]] + a.drop_first());
                assert(b =~= seq![b[0]] + b.drop_first());
            }
        } else {
            assert(a[0] != b[0]);
        }
    } else if a.len() == 0 && b.len() == 0 {
        assert(a =~= b);
    }
}

/// Whether `a` comes before `b` in the order of strings.
pub fn str_less_exec(a: &str, b: &str) -> (res: bool)
    ensures
        res == str_less(a@, b@),
{
    let ac = chars_of(a);
    let bc = chars_of(b);
    let mut i: usize = 0;
    assert(a@.skip(0) =~= a@);
    assert(b@.skip(0) =~= b@);
    while i < ac.len() && i < bc.len() && ac[i] == bc[i]
        invariant
            ac@ == a@,
            bc@ == b@,
            i <= ac@.len(),
            i <= bc@.len(),
            str_less(a@, b@) == str_less(a@.skip(i as int), b@.skip(i as int)),
        decreases ac@.len() - i,
    {
        proof {
            assert(a@.skip(i as int).drop_first() =~= a@.skip(i + 1));
            assert(b@.skip(i as int).drop_first() =~= b@.skip(i + 1));
        }
        i = i + 1;
    }
    if i == ac.len() {
        i < bc.len()
    } else if i == bc.len() {
        false
    } else {
        ac[i] < bc[i]
    }
}
} // verus!
