use vstd::prelude::*;
use vstd::std_specs::iter::IteratorSpec;

verus! {

broadcast use vstd::string::group_string_axioms;

/// Relies on `String::push`: appends one character.
#[verifier::external_body]
pub(crate) fn push_char(s: &mut String, c: char)
    ensures
        final(s)@ == old(s)@.push(c),
{
    s.push(c)
}

/// The characters of `s`, in order.
pub fn chars_of(s: &str) -> (r: Vec<char>)
    ensures
        r@ == s@,
{
    let mut it = s.chars();
    let mut out: Vec<char> = Vec::new();
    loop
        invariant
            out@ + it.remaining() == s@,
            it.obeys_prophetic_iter_laws(),
            it.decrease() is Some,
        decreases it.decrease()->0,
    {
        match it.next() {
            Some(c) => {
                out.push(c);
            },
            None => {
                assert(it.remaining().len() == 0);
                assert(out@ =~= s@);
                return out;
            },
        }
    }
}

/// A string holding exactly the characters `cs`.
pub fn string_of(cs: &[char]) -> (r: String)
    ensures
        r@ == cs@,
{
    let mut out = String::new();
    let mut i: usize = 0;
    while i < cs.len()
        invariant
            0 <= i <= cs@.len(),
            out@ == cs@.subrange(0, i as int),
        decreases cs@.len() - i,
    {
        push_char(&mut out, cs[i]);
        i = i + 1;
        assert(out@ =~= cs@.subrange(0, i as int));
    }
    assert(cs@.subrange(0, cs@.len() as int) =~= cs@);
    out
}

/// What `str::trim` makes of a string.
pub uninterp spec fn trim_of(s: Seq<char>) -> Seq<char>;

/// Relies on `str::trim`: `s` without leading and trailing whitespace, which
/// depends on the characters of `s` alone.
#[verifier::external_body]
pub(crate) fn trim(s: &str) -> (r: String)
    ensures
        r@ == trim_of(s@),
{
    s.trim().to_string()
}

pub fn trim_chars(cs: &Vec<char>) -> (r: Vec<char>)
    ensures
        r@ == trim_of(cs@),
{
    let s = string_of(cs.as_slice());
    let t = trim(s.as_str());
    chars_of(t.as_str())
}

/// `t` starts `s`.
pub open spec fn starts_with(s: Seq<char>, t: Seq<char>) -> bool {
    t.len() <= s.len() && s.take(t.len() as int) == t
}

/// `t` occurs somewhere in `s`.
pub open spec fn contains(s: Seq<char>, t: Seq<char>) -> bool {
    exists|k: int| 0 <= k <= s.len() && #[trigger] starts_with(s.skip(k), t)
}

/// Whether `t` occurs in `cs` at index `i`.
pub fn occurs_at(cs: &Vec<char>, i: usize, t: &Vec<char>) -> (r: bool)
    requires
        i <= cs@.len(),
    ensures
        r == starts_with(cs@.skip(i as int), t@),
{
    let n = cs.len();
    if t.len() > n - i {
        return false;
    }
    let mut k: usize = 0;
    while k < t.len()
        invariant
            n == cs@.len(),
            i + t@.len() <= n,
            k <= t@.len(),
            forall|j: int| 0 <= j < k ==> cs@[i + j] == #[trigger] t@[j],
        decreases t@.len() - k,
    {
        if cs[i + k] != t[k] {
            assert(cs@.skip(i as int).take(t@.len() as int)[k as int] != t@[k as int]);
            return false;
        }
        k = k + 1;
    }
    assert(cs@.skip(i as int).take(t@.len() as int) =~= t@);
    true
}

/// Whether `t` occurs anywhere in `cs`.
pub fn contains_chars(cs: &Vec<char>, t: &Vec<char>) -> (r: bool)
    ensures
        r == contains(cs@, t@),
{
    let mut i: usize = 0;
    while i < cs.len()
        invariant
            i <= cs@.len(),
            forall|k: int| 0 <= k < i ==> !#[trigger] starts_with(cs@.skip(k), t@),
        decreases cs@.len() - i,
    {
        if occurs_at(cs, i, t) {
            return true;
        }
        i = i + 1;
    }
    occurs_at(cs, i, t)
}

/// The pieces of `s` between occurrences of `d`, as `str::split` gives them:
/// the empty string has one empty piece.
pub open spec fn split_on(s: Seq<char>, d: char) -> Seq<Seq<char>>
    decreases s.len(),
{
    if s.len() == 0 {
        seq![seq![]]
    } else {
        let p = split_on(s.drop_last(), d);
        if s.last() == d {
            p.push(seq![])
        } else {
            p.update(p.len() - 1, p.last().push(s.last()))
        }
    }
}

/// The pieces of `cs` between occurrences of `d`.
pub fn split_chars(cs: &Vec<char>, d: char) -> (r: Vec<Vec<char>>)
    ensures
        r@.len() >= 1,
        r@.map_values(|p: Vec<char>| p@) == split_on(cs@, d),
{
    let mut done: Vec<Vec<char>> = Vec::new();
    let mut cur: Vec<char> = Vec::new();
    let mut i: usize = 0;
    while i < cs.len()
        invariant
            i <= cs@.len(),
            done@.map_values(|p: Vec<char>| p@).push(cur@) == split_on(cs@.take(i as int), d),
        decreases cs@.len() - i,
    {
        let c = cs[i];
        let ghost before = done@.map_values(|p: Vec<char>| p@);
        let ghost old_cur = cur@;
        proof {
            assert(cs@.take(i + 1).drop_last() =~= cs@.take(i as int));
            assert(cs@.take(i + 1).last() == c);
        }
        if c == d {
            done.push(cur);
            cur = Vec::new();
            assert(done@.map_values(|p: Vec<char>| p@) =~= before.push(old_cur));
        } else {
            cur.push(c);
            assert(before.push(old_cur).update(before.len() as int, old_cur.push(c)) =~= before.push(
                cur@,
            ));
        }
        i = i + 1;
    }
    assert(cs@.take(i as int) =~= cs@);
    let ghost before = done@.map_values(|p: Vec<char>| p@);
    done.push(cur);
    assert(done@.map_values(|p: Vec<char>| p@) =~= before.push(done@.last()@));
    done
}

/// `l` without one trailing carriage return.
pub open spec fn strip_cr(l: Seq<char>) -> Seq<char> {
    if l.len() > 0 && l.last() == '\r' {
        l.drop_last()
    } else {
        l
    }
}

/// The lines of `s`, as `str::lines` gives them: split at each newline, a
/// carriage return before a newline dropped, and no line after a final
/// newline.
pub open spec fn lines_of(s: Seq<char>) -> Seq<Seq<char>> {
    let p = split_on(s, '\n');
    let q = Seq::new(
        p.len(),
        |k: int|
            if k < p.len() - 1 {
                strip_cr(p[k])
            } else {
                p[k]
            },
    );
    if p.last().len() == 0 {
        q.drop_last()
    } else {
        q
    }
}

/// The lines of `cs`.
pub fn split_lines(cs: &Vec<char>) -> (r: Vec<Vec<char>>)
    ensures
        r@.map_values(|p: Vec<char>| p@) == lines_of(cs@),
{
    let pieces = split_chars(cs, '\n');
    let ghost p = split_on(cs@, '\n');
    let n = pieces.len();
    let mut out: Vec<Vec<char>> = Vec::new();
    let mut k: usize = 0;
    while k < n
        invariant
            n == pieces@.len(),
            n >= 1,
            pieces@.map_values(|v: Vec<char>| v@) == p,
            k <= n,
            out@.len() == k,
            forall|j: int|
                0 <= j < k ==> (#[trigger] out@[j])@ == (if j < n - 1 {
                    strip_cr(p[j])
                } else {
                    p[j]
                }),
        decreases n - k,
    {
        let mut line: Vec<char> = Vec::new();
        let len = pieces[k].len();
        let keep = if k < n - 1 && len > 0 && pieces[k][len - 1] == '\r' {
            len - 1
        } else {
            len
        };
        let mut j: usize = 0;
        while j < keep
            invariant
                k < n,
                n == pieces@.len(),
                keep <= len,
                len == pieces@[k as int]@.len(),
                j <= keep,
                line@ == pieces@[k as int]@.take(j as int),
            decreases keep - j,
        {
            line.push(pieces[k][j]);
            j = j + 1;
            assert(line@ =~= pieces@[k as int]@.take(j as int));
        }
        assert(pieces@[k as int]@ == p[k as int]);
        assert(line@ =~= (if k < n - 1 {
            strip_cr(p[k as int])
        } else {
            p[k as int]
        }));
        out.push(line);
        k = k + 1;
    }
    let ghost q = Seq::new(
        p.len(),
        |k: int|
            if k < p.len() - 1 {
                strip_cr(p[k])
            } else {
                p[k]
            },
    );
    assert(out@.map_values(|v: Vec<char>| v@) =~= q);
    assert(pieces@[n - 1]@ == p.last());
    if pieces[n - 1].len() == 0 {
        let ghost before = out@;
        out.pop();
        assert(out@.map_values(|v: Vec<char>| v@) =~= q.drop_last());
    }
    out
}

/// The lines joined with `sep` between each two.
pub open spec fn join(ls: Seq<Seq<char>>, sep: Seq<char>) -> Seq<char>
    decreases ls.len(),
{
    if ls.len() == 0 {
        seq![]
    } else if ls.len() == 1 {
        ls[0]
    } else {
        join(ls.drop_last(), sep) + sep + ls.last()
    }
}

/// Joins `ls[from..to]` with `sep`.
pub fn join_chars(ls: &Vec<Vec<char>>, from: usize, to: usize, sep: &Vec<char>) -> (r: Vec<char>)
    requires
        from <= to <= ls@.len(),
    ensures
        r@ == join(ls@.map_values(|p: Vec<char>| p@).subrange(from as int, to as int), sep@),
{
    let ghost all = ls@.map_values(|p: Vec<char>| p@);
    let mut out: Vec<char> = Vec::new();
    let mut k: usize = from;
    while k < to
        invariant
            from <= k <= to <= ls@.len(),
            all == ls@.map_values(|p: Vec<char>| p@),
            out@ == join(all.subrange(from as int, k as int), sep@),
        decreases to - k,
    {
        let ghost prev = all.subrange(from as int, k as int);
        let ghost next = all.subrange(from as int, k + 1);
        assert(next.drop_last() =~= prev);
        assert(next.last() == ls@[k as int]@);
        if k > from {
            extend(&mut out, sep);
        } else {
            assert(prev.len() == 0);
        }
        extend(&mut out, &ls[k]);
        proof {
            if k == from {
                assert(next.len() == 1);
                assert(out@ =~= next[0]);
            }
        }
        k = k + 1;
    }
    out
}

/// Appends `src` to `dst`.
pub fn extend(dst: &mut Vec<char>, src: &Vec<char>)
    ensures
        final(dst)@ == old(dst)@ + src@,
{
    let mut k: usize = 0;
    while k < src.len()
        invariant
            k <= src@.len(),
            dst@ == old(dst)@ + src@.take(k as int),
        decreases src@.len() - k,
    {
        dst.push(src[k]);
        k = k + 1;
        assert(dst@ =~= old(dst)@ + src@.take(k as int));
    }
    assert(src@.take(k as int) =~= src@);
}

} // verus!
