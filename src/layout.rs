use vstd::prelude::*;

use crate::outgoing::{ButtonInfo, ReplyKeyboardButton};

verus! {

broadcast use Seq::group_seq_flatten;

/// Row budget, in characters, for inline (callback) buttons.
pub const INLINE_ROW_BUDGET: usize = 26;

/// Row budget, in characters, for reply-keyboard buttons.
pub const REPLY_ROW_BUDGET: usize = 20;

/// A button with a visible label whose length counts against a row budget.
pub trait Labelled {
    spec fn label_len(&self) -> nat;

    fn text_len(&self) -> (r: usize)
        ensures
            r == self.label_len(),
    ;
}

impl Labelled for ButtonInfo {
    open spec fn label_len(&self) -> nat {
        self.text@.len()
    }

    fn text_len(&self) -> (r: usize) {
        self.text.as_str().unicode_len()
    }
}

impl Labelled for ReplyKeyboardButton {
    open spec fn label_len(&self) -> nat {
        self.text@.len()
    }

    fn text_len(&self) -> (r: usize) {
        self.text.as_str().unicode_len()
    }
}

/// The summed label length of a row.
pub open spec fn row_width<T: Labelled>(row: Seq<T>) -> nat
    decreases row.len(),
{
    if row.len() == 0 {
        0
    } else {
        row_width(row.drop_last()) + row.last().label_len()
    }
}

/// Greedy packing, left to right: the closed rows and the open row.
pub open spec fn pack_fold<T: Labelled>(items: Seq<T>, budget: nat) -> (Seq<Seq<T>>, Seq<T>)
    decreases items.len(),
{
    if items.len() == 0 {
        (seq![], seq![])
    } else {
        let st = pack_fold(items.drop_last(), budget);
        let b = items.last();
        if st.1.len() == 0 || row_width(st.1) + b.label_len() <= budget {
            (st.0, st.1.push(b))
        } else {
            (st.0.push(st.1), seq![b])
        }
    }
}

/// The rows that greedy packing gives `items` under `budget`.
pub open spec fn packed_rows<T: Labelled>(items: Seq<T>, budget: nat) -> Seq<Seq<T>> {
    let st = pack_fold(items, budget);
    if st.1.len() > 0 {
        st.0.push(st.1)
    } else {
        st.0
    }
}

/// The rows as sequences.
pub open spec fn rows_view<T>(rows: Seq<Vec<T>>) -> Seq<Seq<T>> {
    rows.map_values(|r: Vec<T>| r@)
}

/// A row fits when its labels fit the budget, or when it is one button whose
/// label alone is over the budget.
pub open spec fn row_fits<T: Labelled>(row: Seq<T>, budget: nat) -> bool {
    row.len() > 0 && (row_width(row) <= budget || (row.len() == 1 && row[0].label_len()
        > budget))
}

proof fn lemma_pack_fold<T: Labelled>(items: Seq<T>, budget: nat)
    ensures
        pack_fold(items, budget).0.flatten() + pack_fold(items, budget).1 == items,
        forall|i: int|
            0 <= i < pack_fold(items, budget).0.len() ==> row_fits(
                #[trigger] pack_fold(items, budget).0[i],
                budget,
            ),
        pack_fold(items, budget).1.len() > 0 ==> row_fits(pack_fold(items, budget).1, budget),
        items.len() > 0 ==> pack_fold(items, budget).1.len() > 0,
    decreases items.len(),
{
    if items.len() > 0 {
        let p = items.drop_last();
        lemma_pack_fold(p, budget);
        let st = pack_fold(p, budget);
        let b = items.last();
        assert(p.push(b) =~= items);
        if st.1.len() == 0 || row_width(st.1) + b.label_len() <= budget {
            let c = st.1.push(b);
            assert(c.drop_last() =~= st.1);
            assert(row_width(c) == row_width(st.1) + b.label_len());
            if st.1.len() == 0 {
                assert(row_width(st.1) == 0);
                assert(c[0] == b);
            }
            assert(st.0.flatten() + c =~= st.0.flatten() + st.1 + seq![b]);
        } else {
            let d = st.0.push(st.1);
            assert forall|i: int| 0 <= i < d.len() implies row_fits(#[trigger] d[i], budget) by {
                if i < st.0.len() {
                    assert(d[i] == st.0[i]);
                }
            }
            let one = seq![b];
            assert(one.drop_last() =~= Seq::<T>::empty());
            assert(row_width(Seq::<T>::empty()) == 0);
            assert(row_width(one) == row_width(one.drop_last()) + one.last().label_len());
            assert(one[0] == b);
            assert(d.flatten() + one =~= st.0.flatten() + st.1 + seq![b]);
        }
    }
}

/// What greedy packing promises for any buttons and budget: the rows, read
/// in order, hold exactly the buttons given (so the row sizes add up to the
/// number of buttons), and no row is empty or over the budget, but for a row
/// of one button whose own label is over it.
pub proof fn lemma_packed_rows<T: Labelled>(items: Seq<T>, budget: nat)
    ensures
        packed_rows(items, budget).flatten() == items,
        forall|i: int|
            0 <= i < packed_rows(items, budget).len() ==> row_fits(
                #[trigger] packed_rows(items, budget)[i],
                budget,
            ),
{
    lemma_pack_fold(items, budget);
    let st = pack_fold(items, budget);
    let r = packed_rows(items, budget);
    if st.1.len() > 0 {
        assert forall|i: int| 0 <= i < r.len() implies row_fits(#[trigger] r[i], budget) by {
            if i < st.0.len() {
                assert(r[i] == st.0[i]);
            }
        }
    } else {
        assert(st.0.flatten() + st.1 =~= st.0.flatten());
    }
}

/// Greedy packing of buttons into rows: a button joins the current row while
/// the row's labels with it stay within `budget`, or when the row is empty;
/// otherwise it starts the next row.
pub fn pack_row<T: Labelled>(buttons: Vec<T>, budget: usize) -> (rows: Vec<Vec<T>>)
    ensures
        rows_view(rows@) == packed_rows(buttons@, budget as nat),
{
    let ghost items = buttons@;
    let mut rev: Vec<T> = Vec::new();
    let mut src = buttons;
    while src.len() > 0
        invariant
            src@ + rev@.reverse() == items,
        decreases src.len(),
    {
        let ghost before = src@;
        let b = src.pop().unwrap();
        rev.push(b);
        assert(before =~= src@.push(b));
        assert(rev@.reverse() =~= seq![b] + rev@.drop_last().reverse());
        assert(src@ + rev@.reverse() =~= before + rev@.drop_last().reverse());
    }
    assert(rev@.reverse() =~= items);
    let mut rows: Vec<Vec<T>> = Vec::new();
    let mut cur: Vec<T> = Vec::new();
    let mut cur_len: usize = 0;
    let ghost mut taken: int = 0;
    while rev.len() > 0
        invariant
            0 <= taken,
            taken + rev@.len() == items.len(),
            rev@.reverse() == items.skip(taken),
            (rows_view(rows@), cur@) == pack_fold(items.take(taken), budget as nat),
            cur_len == row_width(cur@),
        decreases rev.len(),
    {
        let ghost before = rev@;
        let b = rev.pop().unwrap();
        proof {
            assert(before =~= rev@.push(b));
            assert(before.reverse() =~= seq![b] + rev@.reverse());
            assert(items.skip(taken)[0] == b);
            assert(items.take(taken + 1).drop_last() =~= items.take(taken));
            assert(items.take(taken + 1).last() == b);
            assert(rev@.reverse() =~= before.reverse().drop_first());
            assert(items.skip(taken).drop_first() =~= items.skip(taken + 1));
            lemma_pack_fold(items.take(taken), budget as nat);
        }
        let l = b.text_len();
        let joins = cur.len() == 0 || (cur_len <= budget && l <= budget - cur_len);
        if joins {
            let ghost old_cur = cur@;
            cur.push(b);
            proof {
                assert(cur@.drop_last() =~= old_cur);
                if old_cur.len() == 0 {
                    assert(row_width(old_cur) == 0);
                }
            }
            cur_len = cur_len + l;
        } else {
            let ghost old_rows = rows@;
            let ghost old_cur = cur@;
            let mut fresh: Vec<T> = Vec::new();
            fresh.push(b);
            rows.push(cur);
            cur = fresh;
            proof {
                assert(rows_view(rows@) =~= rows_view(old_rows).push(old_cur));
                assert(cur@.drop_last() =~= Seq::<T>::empty());
                assert(row_width(Seq::<T>::empty()) == 0);
            }
            cur_len = l;
        }
        proof {
            taken = taken + 1;
        }
    }
    assert(items.take(taken) =~= items);
    if cur.len() > 0 {
        let ghost old_rows = rows@;
        rows.push(cur);
        assert(rows_view(rows@) =~= rows_view(old_rows).push(rows@.last()@));
    }
    rows
}

/// Auto-layout applies only when the caller gave exactly one row holding
/// more than one button; any other arrangement is kept as given.
pub open spec fn wants_auto_layout<T>(rows: Seq<Vec<T>>) -> bool {
    rows.len() == 1 && rows[0]@.len() > 1
}

/// Lays out buttons: a single row of several buttons is packed under
/// `budget`; any other arrangement is returned unchanged.
pub fn organize_rows<T: Labelled>(rows: Vec<Vec<T>>, budget: usize) -> (r: Vec<Vec<T>>)
    ensures
        wants_auto_layout(rows@) ==> rows_view(r@) == packed_rows(rows@[0]@, budget as nat),
        !wants_auto_layout(rows@) ==> r == rows,
{
    if rows.len() == 1 && rows[0].len() > 1 {
        let mut rows = rows;
        let single = rows.pop().unwrap();
        pack_row(single, budget)
    } else {
        rows
    }
}

impl ButtonInfo {
    /// Packs one row of inline buttons under the inline row budget.
    pub fn create_inline_keyboard(buttons: Vec<ButtonInfo>) -> (rows: Vec<Vec<ButtonInfo>>)
        ensures
            rows_view(rows@) == packed_rows(buttons@, INLINE_ROW_BUDGET as nat),
    {
        pack_row(buttons, INLINE_ROW_BUDGET)
    }
}

} // verus!
