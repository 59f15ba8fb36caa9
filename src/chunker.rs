use vstd::prelude::*;
use vstd::seq_lib::lemma_flatten_concat;

use crate::text::{chars_of, string_of};

verus! {

broadcast use Seq::group_seq_flatten;

/// Platform limit on the characters of one text message.
pub const TEXT_LIMIT: usize = 4096;

/// Platform limit on the characters of one media caption.
pub const CAPTION_LIMIT: usize = 1024;

/// A token ends after a space or a newline.
pub open spec fn is_break(c: char) -> bool {
    c == ' ' || c == '\n'
}

/// The tokens of `s`: maximal runs that end with a break character (or at the
/// end of `s`), the break kept with the token before it.
pub open spec fn tokens(s: Seq<char>) -> Seq<Seq<char>>
    decreases s.len(),
{
    if s.len() == 0 {
        seq![]
    } else {
        let p = tokens(s.drop_last());
        let c = s.last();
        if p.len() == 0 || is_break(p.last().last()) {
            p.push(seq![c])
        } else {
            p.update(p.len() - 1, p.last().push(c))
        }
    }
}

/// A token longer than `limit`, cut into pieces of exactly `limit`
/// characters, the last piece holding the rest.
pub open spec fn hard_cut(t: Seq<char>, limit: nat) -> Seq<Seq<char>>
    decreases t.len(),
{
    if t.len() == 0 || limit == 0 {
        seq![]
    } else if t.len() <= limit {
        seq![t]
    } else {
        seq![t.take(limit as int)] + hard_cut(t.skip(limit as int), limit)
    }
}

/// Closes the open chunk `cur` if it holds anything.
pub open spec fn flush(done: Seq<Seq<char>>, cur: Seq<char>) -> Seq<Seq<char>> {
    if cur.len() > 0 {
        done.push(cur)
    } else {
        done
    }
}

/// One token added to the closed chunks and the open chunk.
pub open spec fn pack_step(
    st: (Seq<Seq<char>>, Seq<char>),
    t: Seq<char>,
    limit: nat,
) -> (Seq<Seq<char>>, Seq<char>) {
    if t.len() > limit {
        (flush(st.0, st.1) + hard_cut(t, limit), seq![])
    } else if st.1.len() + t.len() > limit {
        (st.0.push(st.1), t)
    } else {
        (st.0, st.1 + t)
    }
}

/// The greedy packing of `toks`, left to right.
pub open spec fn pack(toks: Seq<Seq<char>>, limit: nat) -> (Seq<Seq<char>>, Seq<char>)
    decreases toks.len(),
{
    if toks.len() == 0 {
        (seq![], seq![])
    } else {
        pack_step(pack(toks.drop_last(), limit), toks.last(), limit)
    }
}

/// The chunks of `s` under `limit`.
pub open spec fn chunks_of(s: Seq<char>, limit: nat) -> Seq<Seq<char>> {
    let st = pack(tokens(s), limit);
    flush(st.0, st.1)
}

pub open spec fn all_fit(cs: Seq<Seq<char>>, limit: nat) -> bool {
    forall|i: int| 0 <= i < cs.len() ==> 0 < #[trigger] cs[i].len() <= limit
}

proof fn lemma_tokens(s: Seq<char>)
    ensures
        tokens(s).flatten() == s,
        tokens(s).len() == 0 <==> s.len() == 0,
        forall|i: int| 0 <= i < tokens(s).len() ==> #[trigger] tokens(s)[i].len() > 0,
    decreases s.len(),
{
    if s.len() > 0 {
        let p = tokens(s.drop_last());
        lemma_tokens(s.drop_last());
        let c = s.last();
        if p.len() == 0 || is_break(p.last().last()) {
            assert(p.push(seq![c]).flatten() =~= p.flatten() + seq![c]);
        } else {
            let q = p.drop_last();
            assert(p =~= q.push(p.last()));
            assert(p.update(p.len() - 1, p.last().push(c)) =~= q.push(p.last().push(c)));
            assert(q.push(p.last()).flatten() =~= q.flatten() + p.last());
            assert(q.push(p.last().push(c)).flatten() =~= q.flatten() + p.last().push(c));
        }
        assert(s.drop_last() + seq![c] =~= s);
    }
}

proof fn lemma_hard_cut(t: Seq<char>, limit: nat)
    requires
        limit > 0,
    ensures
        hard_cut(t, limit).flatten() == t,
        all_fit(hard_cut(t, limit), limit),
        t.len() > 0 ==> hard_cut(t, limit).len() > 0,
    decreases t.len(),
{
    if t.len() == 0 {
    } else if t.len() <= limit {
        assert(seq![t].flatten() =~= t) by {
            seq![t].lemma_flatten_one_element();
        }
    } else {
        let rest = hard_cut(t.skip(limit as int), limit);
        lemma_hard_cut(t.skip(limit as int), limit);
        lemma_flatten_concat(seq![t.take(limit as int)], rest);
        seq![t.take(limit as int)].lemma_flatten_one_element();
        assert(t.take(limit as int) + t.skip(limit as int) =~= t);
        let h = seq![t.take(limit as int)] + rest;
        assert forall|i: int| 0 <= i < h.len() implies 0 < #[trigger] h[i].len() <= limit by {
            if i > 0 {
                assert(h[i] == rest[i - 1]);
            }
        }
    }
}

proof fn lemma_pack(toks: Seq<Seq<char>>, limit: nat)
    requires
        limit > 0,
        forall|i: int| 0 <= i < toks.len() ==> #[trigger] toks[i].len() > 0,
    ensures
        all_fit(pack(toks, limit).0, limit),
        pack(toks, limit).1.len() <= limit,
        pack(toks, limit).0.flatten() + pack(toks, limit).1 == toks.flatten(),
        toks.len() > 0 ==> flush(pack(toks, limit).0, pack(toks, limit).1).len() > 0,
    decreases toks.len(),
{
    if toks.len() > 0 {
        let p = toks.drop_last();
        let t = toks.last();
        assert forall|i: int| 0 <= i < p.len() implies #[trigger] p[i].len() > 0 by {
            assert(p[i] == toks[i]);
        }
        lemma_pack(p, limit);
        let st = pack(p, limit);
        assert(toks =~= p.push(t));
        assert(toks.flatten() == p.flatten() + t);
        if t.len() > limit {
            lemma_hard_cut(t, limit);
            let f = flush(st.0, st.1);
            assert(f.flatten() == st.0.flatten() + st.1) by {
                if st.1.len() == 0 {
                    assert(st.0.flatten() + st.1 =~= st.0.flatten());
                }
            }
            lemma_flatten_concat(f, hard_cut(t, limit));
            let d = f + hard_cut(t, limit);
            assert forall|i: int| 0 <= i < d.len() implies 0 < #[trigger] d[i].len() <= limit by {
                if i < f.len() {
                    if i < st.0.len() {
                        assert(d[i] == st.0[i]);
                    } else {
                        assert(d[i] == st.1);
                    }
                } else {
                    assert(d[i] == hard_cut(t, limit)[i - f.len()]);
                }
            }
            assert(d.flatten() + seq![] =~= d.flatten());
            assert(hard_cut(t, limit).len() > 0);
        } else if st.1.len() + t.len() > limit {
            let d = st.0.push(st.1);
            assert forall|i: int| 0 <= i < d.len() implies 0 < #[trigger] d[i].len() <= limit by {
                if i < st.0.len() {
                    assert(d[i] == st.0[i]);
                }
            }
            assert(d.flatten() + t =~= st.0.flatten() + st.1 + t);
        } else {
            assert(st.0.flatten() + (st.1 + t) =~= st.0.flatten() + st.1 + t);
        }
    }
}

/// What chunking promises for every text and every positive limit: each chunk
/// holds at least one and at most `limit` characters, there are no chunks
/// exactly when the text is empty, and the chunks joined in order give back
/// the text.
pub proof fn lemma_chunks_within_limit(s: Seq<char>, limit: nat)
    requires
        limit > 0,
    ensures
        all_fit(chunks_of(s, limit), limit),
        chunks_of(s, limit).len() == 0 <==> s.len() == 0,
        chunks_of(s, limit).flatten() == s,
{
    lemma_tokens(s);
    let toks = tokens(s);
    lemma_pack(toks, limit);
    let st = pack(toks, limit);
    let f = flush(st.0, st.1);
    assert forall|i: int| 0 <= i < f.len() implies 0 < #[trigger] f[i].len() <= limit by {
        if i < st.0.len() {
            assert(f[i] == st.0[i]);
        }
    }
    if st.1.len() == 0 {
        assert(st.0.flatten() + st.1 =~= st.0.flatten());
    }
}

/// How a token enters the chunks: whole when it fits the limit, otherwise
/// in the pieces `hard_cut` makes of it.
pub open spec fn unit_pieces(t: Seq<char>, limit: nat) -> Seq<Seq<char>> {
    if t.len() > limit {
        hard_cut(t, limit)
    } else {
        seq![t]
    }
}

/// The units of a token sequence, in order.
pub open spec fn units(toks: Seq<Seq<char>>, limit: nat) -> Seq<Seq<char>>
    decreases toks.len(),
{
    if toks.len() == 0 {
        seq![]
    } else {
        units(toks.drop_last(), limit) + unit_pieces(toks.last(), limit)
    }
}

pub open spec fn singletons(ps: Seq<Seq<char>>) -> Seq<Seq<Seq<char>>> {
    ps.map_values(|p: Seq<char>| seq![p])
}

/// Each group of units joined into one text.
pub open spec fn joined(g: Seq<Seq<Seq<char>>>) -> Seq<Seq<char>> {
    g.map_values(|x: Seq<Seq<char>>| x.flatten())
}

pub open spec fn group_flush(g: Seq<Seq<Seq<char>>>, cur: Seq<Seq<char>>) -> Seq<Seq<Seq<char>>> {
    if cur.flatten().len() > 0 {
        g.push(cur)
    } else {
        g
    }
}

/// `pack`, keeping the units that make up each chunk.
pub open spec fn group_fold(toks: Seq<Seq<char>>, limit: nat) -> (Seq<Seq<Seq<char>>>, Seq<Seq<char>>)
    decreases toks.len(),
{
    if toks.len() == 0 {
        (seq![], seq![])
    } else {
        let st = group_fold(toks.drop_last(), limit);
        let t = toks.last();
        if t.len() > limit {
            (group_flush(st.0, st.1) + singletons(hard_cut(t, limit)), seq![])
        } else if st.1.flatten().len() + t.len() > limit {
            (st.0.push(st.1), seq![t])
        } else {
            (st.0, st.1.push(t))
        }
    }
}

proof fn lemma_flatten_nonempty(g: Seq<Seq<char>>)
    requires
        g.len() > 0,
        g[0].len() > 0,
    ensures
        g.flatten().len() > 0,
{
    assert(g.flatten() == g.first() + g.drop_first().flatten());
}

proof fn lemma_singletons(ps: Seq<Seq<char>>)
    ensures
        joined(singletons(ps)) == ps,
        singletons(ps).flatten() == ps,
    decreases ps.len(),
{
    assert forall|i: int| 0 <= i < ps.len() implies #[trigger] joined(singletons(ps))[i] == ps[i] by {
        seq![ps[i]].lemma_flatten_one_element();
    }
    assert(joined(singletons(ps)) =~= ps);
    if ps.len() > 0 {
        lemma_singletons(ps.drop_last());
        assert(singletons(ps) =~= singletons(ps.drop_last()).push(seq![ps.last()]));
        assert(ps.drop_last().push(ps.last()) =~= ps);
        assert(singletons(ps.drop_last()).push(seq![ps.last()]).flatten() =~= ps.drop_last()
            + seq![ps.last()]);
    }
}

proof fn lemma_group_fold(toks: Seq<Seq<char>>, limit: nat)
    requires
        limit > 0,
        forall|i: int| 0 <= i < toks.len() ==> #[trigger] toks[i].len() > 0,
    ensures
        joined(group_fold(toks, limit).0) == pack(toks, limit).0,
        group_fold(toks, limit).1.flatten() == pack(toks, limit).1,
        group_fold(toks, limit).0.flatten() + group_fold(toks, limit).1 == units(toks, limit),
        forall|k: int|
            0 <= k < group_fold(toks, limit).1.len() ==> #[trigger] group_fold(toks, limit).1[k].len()
                > 0,
    decreases toks.len(),
{
    if toks.len() > 0 {
        let p = toks.drop_last();
        let t = toks.last();
        assert forall|i: int| 0 <= i < p.len() implies #[trigger] p[i].len() > 0 by {
            assert(p[i] == toks[i]);
        }
        lemma_group_fold(p, limit);
        let g = group_fold(p, limit);
        let st = pack(p, limit);
        if t.len() > limit {
            let f = group_flush(g.0, g.1);
            lemma_singletons(hard_cut(t, limit));
            if g.1.len() > 0 {
                lemma_flatten_nonempty(g.1);
            }
            assert(joined(f) == flush(st.0, st.1)) by {
                if g.1.flatten().len() > 0 {
                    assert(joined(g.0.push(g.1)) =~= joined(g.0).push(g.1.flatten()));
                }
            }
            assert(joined(f + singletons(hard_cut(t, limit))) =~= joined(f) + joined(
                singletons(hard_cut(t, limit)),
            ));
            assert(f.flatten() == g.0.flatten() + g.1) by {
                if g.1.flatten().len() == 0 {
                    assert(g.1 =~= Seq::<Seq<char>>::empty());
                    assert(g.0.flatten() + g.1 =~= g.0.flatten());
                }
            }
            lemma_flatten_concat(f, singletons(hard_cut(t, limit)));
            assert((f + singletons(hard_cut(t, limit))).flatten() + Seq::<Seq<char>>::empty()
                =~= (f + singletons(hard_cut(t, limit))).flatten());
        } else if g.1.flatten().len() + t.len() > limit {
            assert(joined(g.0.push(g.1)) =~= joined(g.0).push(g.1.flatten()));
            seq![t].lemma_flatten_one_element();
            assert(g.0.push(g.1).flatten() + seq![t] =~= g.0.flatten() + g.1 + seq![t]);
        } else {
            assert(g.0.flatten() + g.1.push(t) =~= g.0.flatten() + g.1 + seq![t]);
        }
    }
}

/// Chunking never splits a token that fits the limit: for every text and
/// positive limit, the chunks are consecutive runs of the text's units (each
/// token that fits, whole, and the `limit`-long pieces of each that does
/// not), each chunk the units of its run joined.
pub proof fn lemma_tokens_kept_whole(s: Seq<char>, limit: nat)
    requires
        limit > 0,
    ensures
        exists|g: Seq<Seq<Seq<char>>>|
            g.flatten() == units(tokens(s), limit) && #[trigger] joined(g) == chunks_of(s, limit),
{
    lemma_tokens(s);
    let toks = tokens(s);
    lemma_group_fold(toks, limit);
    let g = group_fold(toks, limit);
    let st = pack(toks, limit);
    let f = group_flush(g.0, g.1);
    if g.1.len() > 0 {
        lemma_flatten_nonempty(g.1);
    }
    if g.1.flatten().len() > 0 {
        assert(joined(g.0.push(g.1)) =~= joined(g.0).push(g.1.flatten()));
    } else {
        assert(g.1 =~= Seq::<Seq<char>>::empty());
        assert(g.0.flatten() + g.1 =~= g.0.flatten());
    }
    assert(joined(f) == chunks_of(s, limit));
    assert(f.flatten() == units(toks, limit));
}

/// The chunks as sequences of characters.
pub open spec fn views(v: Seq<Vec<char>>) -> Seq<Seq<char>> {
    v.map_values(|p: Vec<char>| p@)
}

fn extend_chars(dst: &mut Vec<char>, src: &Vec<char>)
    ensures
        final(dst)@ == old(dst)@ + src@,
{
    let mut k: usize = 0;
    while k < src.len()
        invariant
            k <= src@.len(),
            dst@ == old(dst)@ + src@.take(k as int),
        decreases src@.len() - k,
    {
        dst.push(src[k]);
        k = k + 1;
        assert(dst@ =~= old(dst)@ + src@.take(k as int));
    }
    assert(src@.take(k as int) =~= src@);
}

/// Appends to `out` the pieces that `hard_cut` makes of `t`.
fn cut_token(t: &Vec<char>, limit: usize, out: &mut Vec<Vec<char>>)
    requires
        limit > 0,
    ensures
        views(final(out)@) == views(old(out)@) + hard_cut(t@, limit as nat),
{
    let ghost init = views(old(out)@);
    let mut start: usize = 0;
    let n = t.len();
    assert(t@.skip(0) =~= t@);
    while start < n
        invariant
            n == t@.len(),
            limit > 0,
            start <= n,
            views(out@) + hard_cut(t@.skip(start as int), limit as nat) == init + hard_cut(
                t@,
                limit as nat,
            ),
        decreases n - start,
    {
        let end = if n - start <= limit { n } else { start + limit };
        let mut piece: Vec<char> = Vec::new();
        let mut k: usize = start;
        while k < end
            invariant
                start <= k <= end <= n,
                n == t@.len(),
                piece@ == t@.subrange(start as int, k as int),
            decreases end - k,
        {
            piece.push(t[k]);
            k = k + 1;
            assert(piece@ =~= t@.subrange(start as int, k as int));
        }
        let ghost rest = t@.skip(start as int);
        let ghost before = out@;
        proof {
            if n - start <= limit {
                assert(hard_cut(rest, limit as nat) == seq![rest]);
                assert(piece@ =~= rest);
                assert(t@.skip(end as int) =~= Seq::<char>::empty());
                assert(hard_cut(t@.skip(end as int), limit as nat) =~= Seq::<Seq<char>>::empty());
                assert(seq![rest] + Seq::<Seq<char>>::empty() =~= seq![rest]);
            } else {
                assert(piece@ =~= rest.take(limit as int));
                assert(rest.skip(limit as int) =~= t@.skip(end as int));
            }
        }
        out.push(piece);
        assert(views(out@) =~= views(before).push(piece@));
        assert(views(out@) + hard_cut(t@.skip(end as int), limit as nat) =~= views(before)
            + hard_cut(rest, limit as nat));
        start = end;
    }
    assert(t@.skip(start as int) =~= Seq::<char>::empty());
    assert(views(out@) + Seq::<Seq<char>>::empty() =~= views(out@));
}

/// Splits `cs` into its tokens.
fn tokenize(cs: &Vec<char>) -> (r: Vec<Vec<char>>)
    ensures
        views(r@) == tokens(cs@),
{
    let mut toks: Vec<Vec<char>> = Vec::new();
    let mut cur: Vec<char> = Vec::new();
    let mut i: usize = 0;
    while i < cs.len()
        invariant
            i <= cs@.len(),
            flush(views(toks@), cur@) == tokens(cs@.take(i as int)),
            forall|j: int| 0 <= j < toks@.len() ==> is_break(#[trigger] toks@[j]@.last())
                && toks@[j]@.len() > 0,
            cur@.len() > 0 ==> !is_break(cur@.last()),
        decreases cs@.len() - i,
    {
        let c = cs[i];
        let ghost old_toks = toks@;
        let ghost old_cur = cur@;
        proof {
            assert(cs@.take(i + 1).drop_last() =~= cs@.take(i as int));
            assert(cs@.take(i + 1).last() == c);
            let p = tokens(cs@.take(i as int));
            if old_cur.len() > 0 {
                assert(p == views(old_toks).push(old_cur));
            } else {
                assert(p == views(old_toks));
                if p.len() > 0 {
                    assert(p.last() == old_toks[p.len() - 1]@);
                }
            }
        }
        cur.push(c);
        if c == ' ' || c == '\n' {
            toks.push(cur);
            cur = Vec::new();
            assert(views(toks@) =~= views(old_toks).push(old_cur.push(c)));
        }
        proof {
            if old_cur.len() > 0 {
                assert(views(old_toks).push(old_cur).update(
                    views(old_toks).len() as int,
                    old_cur.push(c),
                ) =~= views(old_toks).push(old_cur.push(c)));
            } else {
                assert(old_cur.push(c) =~= seq![c]);
            }
        }
        i = i + 1;
    }
    assert(cs@.take(i as int) =~= cs@);
    if cur.len() > 0 {
        let ghost old_toks = toks@;
        toks.push(cur);
        assert(views(toks@) =~= views(old_toks).push(toks@.last()@));
    }
    toks
}

/// Splits `text` into chunks of at most `limit` characters. Tokens (runs
/// ending with a space or a newline) are gathered into a chunk while they fit;
/// a token longer than `limit` is cut at every `limit` characters and never
/// shares a chunk.
pub fn split_text(text: &str, limit: usize) -> (r: Vec<String>)
    requires
        limit > 0,
    ensures
        r@.len() == chunks_of(text@, limit as nat).len(),
        forall|i: int| 0 <= i < r@.len() ==> #[trigger] r@[i]@ == chunks_of(text@, limit as nat)[i],
{
    let cs = chars_of(text);
    let toks = tokenize(&cs);
    proof {
        lemma_tokens(cs@);
    }
    let ghost all = tokens(text@);
    let mut done: Vec<Vec<char>> = Vec::new();
    let mut cur: Vec<char> = Vec::new();
    let mut i: usize = 0;
    while i < toks.len()
        invariant
            limit > 0,
            views(toks@) == all,
            all == tokens(text@),
            forall|j: int| 0 <= j < all.len() ==> #[trigger] all[j].len() > 0,
            i <= all.len(),
            (views(done@), cur@) == pack(all.take(i as int), limit as nat),
        decreases all.len() - i,
    {
        proof {
            assert forall|j: int| 0 <= j < all.take(i as int).len() implies #[trigger] all.take(
                i as int,
            )[j].len() > 0 by {
                assert(all.take(i as int)[j] == all[j]);
            }
            lemma_pack(all.take(i as int), limit as nat);
            assert(all.take(i + 1).drop_last() =~= all.take(i as int));
            assert(all.take(i + 1).last() == all[i as int]);
            assert(toks@[i as int]@ == all[i as int]);
        }
        let t = &toks[i];
        let ghost old_done = views(done@);
        let ghost old_cur = cur@;
        if t.len() > limit {
            if cur.len() > 0 {
                done.push(cur);
                cur = Vec::new();
                assert(views(done@) =~= old_done.push(old_cur));
            }
            cut_token(t, limit, &mut done);
        } else if t.len() > limit - cur.len() {
            done.push(cur);
            cur = Vec::new();
            assert(views(done@) =~= old_done.push(old_cur));
            extend_chars(&mut cur, t);
            assert(cur@ =~= t@);
        } else {
            extend_chars(&mut cur, t);
        }
        i = i + 1;
    }
    assert(all.take(i as int) =~= all);
    if cur.len() > 0 {
        let ghost old_done = views(done@);
        done.push(cur);
        assert(views(done@) =~= old_done.push(done@.last()@));
    }
    let ghost chunks = views(done@);
    let mut out: Vec<String> = Vec::new();
    let mut k: usize = 0;
    while k < done.len()
        invariant
            k <= done@.len(),
            chunks == views(done@),
            out@.len() == k,
            forall|j: int| 0 <= j < k ==> #[trigger] out@[j]@ == chunks[j],
        decreases done@.len() - k,
    {
        let s = string_of(done[k].as_slice());
        out.push(s);
        k = k + 1;
    }
    out
}

} // verus!
