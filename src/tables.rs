use vstd::prelude::*;

use crate::chunker::views;
use crate::text::{
    chars_of, contains, contains_chars, extend, join, join_chars, lines_of,
    split_chars, split_lines, split_on, string_of, trim_chars, trim_of,
};

verus! {

/// A line that starts and ends with `|`. With its first and last characters
/// both `|`, it holds two of them exactly when it is two or more long.
pub open spec fn is_table_row(l: Seq<char>) -> bool {
    l.len() >= 2 && l[0] == '|' && l.last() == '|'
}

pub open spec fn is_separator_char(c: char) -> bool {
    c == '|' || c == '-' || c == ' ' || c == ':'
}

/// A line of a table that only draws the rule under the header.
pub open spec fn is_separator(l: Seq<char>) -> bool {
    forall|k: int| 0 <= k < l.len() ==> is_separator_char(#[trigger] l[k])
}

/// The trimmed cells of a table line.
pub open spec fn row_cells(l: Seq<char>) -> Seq<Seq<char>> {
    split_on(l.subrange(1, l.len() - 1), '|').map_values(|c: Seq<char>| trim_of(c))
}

/// A trimmed line that holds cells: it starts and ends with `|` and is no
/// separator.
pub open spec fn holds_cells(l: Seq<char>) -> bool {
    l.len() > 0 && l[0] == '|' && l.last() == '|' && !is_separator(l)
}

/// The cells of each line of a table that holds cells, in order.
pub open spec fn table_rows(ls: Seq<Seq<char>>) -> Seq<Seq<Seq<char>>>
    decreases ls.len(),
{
    if ls.len() == 0 {
        seq![]
    } else {
        let p = table_rows(ls.drop_last());
        let l = trim_of(ls.last());
        if holds_cells(l) {
            p.push(row_cells(l))
        } else {
            p
        }
    }
}

/// The width of column `c`: its longest cell.
pub open spec fn col_width(rows: Seq<Seq<Seq<char>>>, c: int) -> nat
    decreases rows.len(),
{
    if rows.len() == 0 {
        0
    } else {
        let w = col_width(rows.drop_last(), c);
        let r = rows.last();
        if 0 <= c < r.len() && r[c].len() > w {
            r[c].len()
        } else {
            w
        }
    }
}

/// The number of columns: the most cells in a row.
pub open spec fn num_cols(rows: Seq<Seq<Seq<char>>>) -> nat
    decreases rows.len(),
{
    if rows.len() == 0 {
        0
    } else {
        let n = num_cols(rows.drop_last());
        if rows.last().len() > n {
            rows.last().len()
        } else {
            n
        }
    }
}

pub open spec fn repeat(c: char, n: nat) -> Seq<char> {
    Seq::new(n, |i: int| c)
}

/// `cell` padded with spaces to `w` characters.
pub open spec fn pad(cell: Seq<char>, w: nat) -> Seq<char> {
    if cell.len() < w {
        cell + repeat(' ', (w - cell.len()) as nat)
    } else {
        cell
    }
}

pub open spec fn gap() -> Seq<char> {
    seq![' ', ' ']
}

/// The first `k` cells of `row`, each padded to its column's width, two
/// spaces apart.
pub open spec fn render_cells(row: Seq<Seq<char>>, rows: Seq<Seq<Seq<char>>>, k: int) -> Seq<char>
    decreases k,
{
    if k <= 0 {
        seq![]
    } else {
        render_cells(row, rows, k - 1) + (if k > 1 {
            gap()
        } else {
            seq![]
        }) + pad(row[k - 1], col_width(rows, k - 1))
    }
}

/// The rule under the header for the first `k` columns.
pub open spec fn rule(rows: Seq<Seq<Seq<char>>>, k: int) -> Seq<char>
    decreases k,
{
    if k <= 0 {
        seq![]
    } else {
        rule(rows, k - 1) + (if k > 1 {
            gap()
        } else {
            seq![]
        }) + repeat('-', col_width(rows, k - 1))
    }
}

/// Rows 1 to `k` - 1, each rendered and ended with a newline.
pub open spec fn data_lines(rows: Seq<Seq<Seq<char>>>, k: int) -> Seq<char>
    decreases k,
{
    if k <= 1 {
        seq![]
    } else {
        data_lines(rows, k - 1) + render_cells(rows[k - 1], rows, rows[k - 1].len() as int)
            + seq!['\n']
    }
}

/// The header, the rule and the data rows, each ended with a newline.
pub open spec fn table_body(rows: Seq<Seq<Seq<char>>>) -> Seq<char> {
    render_cells(rows[0], rows, rows[0].len() as int) + seq!['\n'] + rule(
        rows,
        num_cols(rows) as int,
    ) + seq!['\n'] + data_lines(rows, rows.len() as int)
}

/// A markdown table as aligned plain text: columns padded to their widest
/// cell, two spaces apart, a rule of dashes under the header, separator lines
/// dropped. A text of fewer than two lines, or with no line of cells, is
/// kept as it is.
pub open spec fn aligned_text(t: Seq<char>) -> Seq<char> {
    let ls = lines_of(t);
    let rows = table_rows(ls);
    if ls.len() < 2 || rows.len() == 0 {
        t
    } else {
        table_body(rows).drop_last()
    }
}

fn copy_chars(v: &Vec<char>) -> (r: Vec<char>)
    ensures
        r@ == v@,
{
    let mut r: Vec<char> = Vec::new();
    extend(&mut r, v);
    assert(r@ =~= v@);
    r
}

fn push_repeat(out: &mut Vec<char>, c: char, n: usize)
    ensures
        final(out)@ == old(out)@ + repeat(c, n as nat),
{
    let mut k: usize = 0;
    while k < n
        invariant
            k <= n,
            out@ == old(out)@ + repeat(c, k as nat),
        decreases n - k,
    {
        out.push(c);
        k = k + 1;
        assert(out@ =~= old(out)@ + repeat(c, k as nat));
    }
}

fn is_separator_line(l: &Vec<char>) -> (r: bool)
    ensures
        r == is_separator(l@),
{
    let mut k: usize = 0;
    while k < l.len()
        invariant
            k <= l@.len(),
            forall|j: int| 0 <= j < k ==> is_separator_char(#[trigger] l@[j]),
        decreases l@.len() - k,
    {
        let c = l[k];
        if !(c == '|' || c == '-' || c == ' ' || c == ':') {
            return false;
        }
        k = k + 1;
    }
    true
}

fn cells_of(l: &Vec<char>) -> (r: Vec<Vec<char>>)
    requires
        l@.len() >= 2,
    ensures
        views(r@) == row_cells(l@),
{
    let mut inner: Vec<char> = Vec::new();
    let mut k: usize = 1;
    while k < l.len() - 1
        invariant
            l@.len() >= 2,
            1 <= k <= l@.len() - 1,
            inner@ == l@.subrange(1, k as int),
        decreases l@.len() - 1 - k,
    {
        inner.push(l[k]);
        k = k + 1;
        assert(inner@ =~= l@.subrange(1, k as int));
    }
    let pieces = split_chars(&inner, '|');
    let ghost pv = split_on(inner@, '|');
    let mut out: Vec<Vec<char>> = Vec::new();
    let mut j: usize = 0;
    while j < pieces.len()
        invariant
            j <= pieces@.len(),
            views(pieces@) == pv,
            views(out@) == pv.take(j as int).map_values(|c: Seq<char>| trim_of(c)),
        decreases pieces@.len() - j,
    {
        let t = trim_chars(&pieces[j]);
        assert(pieces@[j as int]@ == pv[j as int]);
        let ghost before = views(out@);
        out.push(t);
        assert(views(out@) =~= before.push(t@));
        assert(pv.take(j + 1) =~= pv.take(j as int).push(pv[j as int]));
        assert(pv.take(j + 1).map_values(|c: Seq<char>| trim_of(c)) =~= pv.take(j as int).map_values(
            |c: Seq<char>| trim_of(c),
        ).push(trim_of(pv[j as int])));
        j = j + 1;
    }
    assert(pv.take(j as int) =~= pv);
    out
}

pub open spec fn rows_views(rows: Seq<Vec<Vec<char>>>) -> Seq<Seq<Seq<char>>> {
    rows.map_values(|r: Vec<Vec<char>>| views(r@))
}

fn collect_rows(ls: &Vec<Vec<char>>) -> (r: Vec<Vec<Vec<char>>>)
    ensures
        rows_views(r@) == table_rows(views(ls@)),
{
    let ghost lv = views(ls@);
    let mut rows: Vec<Vec<Vec<char>>> = Vec::new();
    let mut i: usize = 0;
    while i < ls.len()
        invariant
            i <= ls@.len(),
            lv == views(ls@),
            rows_views(rows@) == table_rows(lv.take(i as int)),
        decreases ls@.len() - i,
    {
        proof {
            assert(lv.take(i + 1).drop_last() =~= lv.take(i as int));
            assert(lv.take(i + 1).last() == ls@[i as int]@);
        }
        let l = trim_chars(&ls[i]);
        let n = l.len();
        if n > 0 && l[0] == '|' && l[n - 1] == '|' && !is_separator_line(&l) {
            proof {
                if n < 2 {
                    assert(is_separator_char(l@[0]));
                }
            }
            let cells = cells_of(&l);
            let ghost before = rows_views(rows@);
            rows.push(cells);
            assert(rows_views(rows@) =~= before.push(views(cells@)));
        }
        i = i + 1;
    }
    assert(lv.take(i as int) =~= lv);
    rows
}

fn column_count(rows: &Vec<Vec<Vec<char>>>) -> (r: usize)
    ensures
        r == num_cols(rows_views(rows@)),
{
    let ghost rv = rows_views(rows@);
    let mut n: usize = 0;
    let mut i: usize = 0;
    while i < rows.len()
        invariant
            i <= rows@.len(),
            rv == rows_views(rows@),
            n == num_cols(rv.take(i as int)),
        decreases rows@.len() - i,
    {
        proof {
            assert(rv.take(i + 1).drop_last() =~= rv.take(i as int));
            assert(rv.take(i + 1).last() == views(rows@[i as int]@));
        }
        if rows[i].len() > n {
            n = rows[i].len();
        }
        i = i + 1;
    }
    assert(rv.take(i as int) =~= rv);
    n
}

fn column_width(rows: &Vec<Vec<Vec<char>>>, c: usize) -> (r: usize)
    ensures
        r == col_width(rows_views(rows@), c as int),
{
    let ghost rv = rows_views(rows@);
    let mut w: usize = 0;
    let mut i: usize = 0;
    while i < rows.len()
        invariant
            i <= rows@.len(),
            rv == rows_views(rows@),
            w == col_width(rv.take(i as int), c as int),
        decreases rows@.len() - i,
    {
        proof {
            assert(rv.take(i + 1).drop_last() =~= rv.take(i as int));
            assert(rv.take(i + 1).last() == views(rows@[i as int]@));
        }
        if c < rows[i].len() && rows[i][c].len() > w {
            w = rows[i][c].len();
        }
        i = i + 1;
    }
    assert(rv.take(i as int) =~= rv);
    w
}

fn push_row(out: &mut Vec<char>, row: &Vec<Vec<char>>, widths: &Vec<usize>, Ghost(rv): Ghost<Seq<Seq<Seq<char>>>>)
    requires
        row@.len() <= widths@.len(),
        forall|c: int| 0 <= c < widths@.len() ==> #[trigger] widths@[c] == col_width(rv, c),
    ensures
        final(out)@ == old(out)@ + render_cells(views(row@), rv, row@.len() as int),
{
    let ghost r = views(row@);
    let mut k: usize = 0;
    while k < row.len()
        invariant
            k <= row@.len() <= widths@.len(),
            r == views(row@),
            forall|c: int| 0 <= c < widths@.len() ==> #[trigger] widths@[c] == col_width(rv, c),
            out@ == old(out)@ + render_cells(r, rv, k as int),
        decreases row@.len() - k,
    {
        let ghost before = out@;
        if k > 0 {
            out.push(' ');
            out.push(' ');
        }
        extend(out, &row[k]);
        let len = row[k].len();
        let w = widths[k];
        if len < w {
            push_repeat(out, ' ', w - len);
        }
        assert(r[k as int] == row@[k as int]@);
        assert(out@ =~= before + (if k + 1 > 1 {
            gap()
        } else {
            seq![]
        }) + pad(r[k as int], col_width(rv, k as int)));
        k = k + 1;
    }
}

fn push_rule(out: &mut Vec<char>, widths: &Vec<usize>, Ghost(rv): Ghost<Seq<Seq<Seq<char>>>>)
    requires
        forall|c: int| 0 <= c < widths@.len() ==> #[trigger] widths@[c] == col_width(rv, c),
    ensures
        final(out)@ == old(out)@ + rule(rv, widths@.len() as int),
{
    let mut k: usize = 0;
    while k < widths.len()
        invariant
            k <= widths@.len(),
            forall|c: int| 0 <= c < widths@.len() ==> #[trigger] widths@[c] == col_width(rv, c),
            out@ == old(out)@ + rule(rv, k as int),
        decreases widths@.len() - k,
    {
        let ghost before = out@;
        if k > 0 {
            out.push(' ');
            out.push(' ');
        }
        push_repeat(out, '-', widths[k]);
        assert(out@ =~= before + (if k + 1 > 1 {
            gap()
        } else {
            seq![]
        }) + repeat('-', col_width(rv, k as int)));
        k = k + 1;
    }
}

proof fn lemma_row_within_cols(rows: Seq<Seq<Seq<char>>>, i: int)
    requires
        0 <= i < rows.len(),
    ensures
        rows[i].len() <= num_cols(rows),
    decreases rows.len(),
{
    if i < rows.len() - 1 {
        lemma_row_within_cols(rows.drop_last(), i);
    }
}

fn aligned_chars(t: &Vec<char>) -> (r: Vec<char>)
    ensures
        r@ == aligned_text(t@),
{
    let ls = split_lines(t);
    let rows = collect_rows(&ls);
    if ls.len() < 2 || rows.len() == 0 {
        return copy_chars(t);
    }
    let ghost rv = rows_views(rows@);
    let ncols = column_count(&rows);
    let mut widths: Vec<usize> = Vec::new();
    let mut c: usize = 0;
    while c < ncols
        invariant
            c <= ncols,
            rv == rows_views(rows@),
            widths@.len() == c,
            forall|j: int| 0 <= j < c ==> #[trigger] widths@[j] == col_width(rv, j),
        decreases ncols - c,
    {
        widths.push(column_width(&rows, c));
        c = c + 1;
    }
    let mut out: Vec<char> = Vec::new();
    proof {
        lemma_row_within_cols(rv, 0);
        assert(views(rows@[0]@) == rv[0]);
    }
    push_row(&mut out, &rows[0], &widths, Ghost(rv));
    out.push('\n');
    push_rule(&mut out, &widths, Ghost(rv));
    out.push('\n');
    let ghost head = out@;
    assert(head =~= render_cells(rv[0], rv, rv[0].len() as int) + seq!['\n'] + rule(
        rv,
        num_cols(rv) as int,
    ) + seq!['\n']);
    let mut i: usize = 1;
    while i < rows.len()
        invariant
            1 <= i <= rows@.len(),
            rv == rows_views(rows@),
            widths@.len() == num_cols(rv),
            forall|j: int| 0 <= j < widths@.len() ==> #[trigger] widths@[j] == col_width(rv, j),
            out@ == head + data_lines(rv, i as int),
        decreases rows@.len() - i,
    {
        proof {
            lemma_row_within_cols(rv, i as int);
            assert(views(rows@[i as int]@) == rv[i as int]);
        }
        let ghost before = out@;
        push_row(&mut out, &rows[i], &widths, Ghost(rv));
        out.push('\n');
        assert(out@ =~= head + data_lines(rv, i + 1));
        i = i + 1;
    }
    assert(out@ == table_body(rv));
    out.pop();
    assert(out@ =~= table_body(rv).drop_last());
    out
}

/// Renders a markdown table as aligned plain text; see `aligned_text`.
pub fn convert_markdown_table_to_aligned_text(table_text: &str) -> (r: String)
    ensures
        r@ == aligned_text(table_text@),
{
    let cs = chars_of(table_text);
    let out = aligned_chars(&cs);
    string_of(out.as_slice())
}

pub open spec fn pre_open() -> Seq<char> {
    seq!['<', 'p', 'r', 'e', '>']
}

pub open spec fn pre_close() -> Seq<char> {
    seq!['<', '/', 'p', 'r', 'e', '>']
}

/// From line `j` on, the extent of a table: where it ends and how many table
/// lines it holds. A blank line inside is kept when a table line follows it.
pub open spec fn scan_table(ls: Seq<Seq<char>>, j: int) -> (int, nat)
    decreases ls.len() - j,
{
    if j < 0 || j >= ls.len() {
        (j, 0)
    } else if is_table_row(trim_of(ls[j])) {
        let r = scan_table(ls, j + 1);
        (r.0, r.1 + 1)
    } else if trim_of(ls[j]).len() == 0 && j + 1 < ls.len() && is_table_row(trim_of(ls[j + 1])) {
        scan_table(ls, j + 1)
    } else {
        (j, 0)
    }
}

/// The output lines for input lines `i` on, `inside` telling whether a
/// `<pre>` block is open. Outside such blocks, a run of two or more table
/// lines becomes one line: its aligned text wrapped in `<pre>` tags.
pub open spec fn convert_from(ls: Seq<Seq<char>>, i: int, inside: bool) -> Seq<Seq<char>>
    decreases ls.len() - i,
{
    if i < 0 || i >= ls.len() {
        seq![]
    } else {
        let line = trim_of(ls[i]);
        let ins = inside || contains(line, pre_open());
        let sc = scan_table(ls, i);
        if contains(line, pre_close()) {
            seq![ls[i]] + convert_from(ls, i + 1, false)
        } else if ins {
            seq![ls[i]] + convert_from(ls, i + 1, true)
        } else if is_table_row(line) && sc.1 >= 2 && i < sc.0 <= ls.len() {
            seq![
                pre_open() + aligned_text(join(ls.subrange(i, sc.0), seq!['\n'])) + pre_close(),
            ] + convert_from(ls, sc.0, false)
        } else {
            seq![ls[i]] + convert_from(ls, i + 1, false)
        }
    }
}

/// `t` with each markdown table outside `<pre>` blocks replaced by its
/// aligned form inside `<pre>` tags.
pub open spec fn aligned_tables(t: Seq<char>) -> Seq<char> {
    join(convert_from(lines_of(t), 0, false), seq!['\n'])
}

proof fn lemma_scan_bounds(ls: Seq<Seq<char>>, j: int)
    requires
        0 <= j <= ls.len(),
    ensures
        j <= scan_table(ls, j).0 <= ls.len(),
        scan_table(ls, j).1 > 0 ==> j < scan_table(ls, j).0,
    decreases ls.len() - j,
{
    if j < ls.len() {
        if is_table_row(trim_of(ls[j])) {
            lemma_scan_bounds(ls, j + 1);
        } else if trim_of(ls[j]).len() == 0 && j + 1 < ls.len() && is_table_row(
            trim_of(ls[j + 1]),
        ) {
            lemma_scan_bounds(ls, j + 1);
        }
    }
}

fn is_row_line(l: &Vec<char>) -> (r: bool)
    ensures
        r == is_table_row(l@),
{
    let n = l.len();
    n >= 2 && l[0] == '|' && l[n - 1] == '|'
}

/// Converts each markdown table of `text` that stands outside `<pre>` blocks
/// into aligned plain text wrapped in `<pre>` tags; see `aligned_tables`.
pub fn convert_markdown_tables_to_aligned(text: &str) -> (r: String)
    ensures
        r@ == aligned_tables(text@),
{
    let cs = chars_of(text);
    let ls = split_lines(&cs);
    let ghost lv = views(ls@);
    let open_tag: Vec<char> = vec!['<', 'p', 'r', 'e', '>'];
    let close_tag: Vec<char> = vec!['<', '/', 'p', 'r', 'e', '>'];
    let nl: Vec<char> = vec!['\n'];
    assert(open_tag@ =~= pre_open());
    assert(close_tag@ =~= pre_close());
    assert(nl@ =~= seq!['\n']);
    let n = ls.len();
    let mut out: Vec<Vec<char>> = Vec::new();
    let mut i: usize = 0;
    let mut inside = false;
    while i < n
        invariant
            n == ls@.len(),
            lv == views(ls@),
            lv == lines_of(text@),
            open_tag@ == pre_open(),
            close_tag@ == pre_close(),
            nl@ == seq!['\n'],
            i <= n,
            views(out@) + convert_from(lv, i as int, inside) == convert_from(lv, 0, false),
        decreases n - i,
    {
        let ghost before = views(out@);
        let ghost old_i = i as int;
        let ghost old_inside = inside;
        assert(ls@[i as int]@ == lv[i as int]);
        let line = trim_chars(&ls[i]);
        let opens = contains_chars(&line, &open_tag);
        let ins = inside || opens;
        if contains_chars(&line, &close_tag) {
            out.push(copy_chars(&ls[i]));
            assert(views(out@) =~= before + seq![lv[i as int]]);
            i = i + 1;
            inside = false;
            assert(convert_from(lv, old_i, old_inside) == seq![lv[old_i]] + convert_from(
                lv,
                i as int,
                inside,
            ));
        } else if ins {
            out.push(copy_chars(&ls[i]));
            assert(views(out@) =~= before + seq![lv[i as int]]);
            i = i + 1;
            inside = true;
            assert(convert_from(lv, old_i, old_inside) == seq![lv[old_i]] + convert_from(
                lv,
                i as int,
                inside,
            ));
        } else {
            let mut end = i;
            let mut count: usize = 0;
            if is_row_line(&line) {
                proof {
                    lemma_scan_bounds(lv, i as int);
                }
                while end < n
                    invariant
                        n == ls@.len(),
                        lv == views(ls@),
                        i <= end <= n,
                        count <= end - i,
                        scan_table(lv, i as int) == (
                            scan_table(lv, end as int).0,
                            (count + scan_table(lv, end as int).1) as nat,
                        ),
                    ensures
                        i <= end <= n,
                        scan_table(lv, i as int) == (end as int, count as nat),
                    decreases n - end,
                {
                    assert(ls@[end as int]@ == lv[end as int]);
                    let cur = trim_chars(&ls[end]);
                    if is_row_line(&cur) {
                        count = count + 1;
                        end = end + 1;
                    } else if cur.len() == 0 && end + 1 < n {
                        assert(ls@[end + 1]@ == lv[end + 1]);
                        let next = trim_chars(&ls[end + 1]);
                        if is_row_line(&next) {
                            end = end + 1;
                        } else {
                            assert(scan_table(lv, end as int) == (end as int, 0nat));
                            break;
                        }
                    } else {
                        assert(scan_table(lv, end as int) == (end as int, 0nat));
                        break;
                    }
                }
                proof {
                    lemma_scan_bounds(lv, i as int);
                }
            }
            if is_row_line(&line) && count >= 2 {
                let joined = join_chars(&ls, i, end, &nl);
                let table = aligned_chars(&joined);
                let mut wrapped: Vec<char> = Vec::new();
                extend(&mut wrapped, &open_tag);
                extend(&mut wrapped, &table);
                extend(&mut wrapped, &close_tag);
                proof {
                    assert(line@ == trim_of(lv[i as int]));
                    assert(!contains(line@, pre_close()));
                    assert(!(inside || contains(line@, pre_open())));
                    assert(is_table_row(trim_of(lv[i as int])));
                    assert(scan_table(lv, i as int).0 == end);
                    assert(scan_table(lv, i as int).1 >= 2);
                    assert(views(ls@).subrange(i as int, end as int) == lv.subrange(
                        i as int,
                        end as int,
                    ));
                }
                out.push(wrapped);
                assert(views(out@) =~= before + seq![
                    pre_open() + aligned_text(join(lv.subrange(i as int, end as int), seq!['\n']))
                        + pre_close(),
                ]);
                i = end;
                inside = false;
                assert(convert_from(lv, old_i, old_inside) == seq![
                    pre_open() + aligned_text(join(lv.subrange(old_i, end as int), seq!['\n']))
                        + pre_close(),
                ] + convert_from(lv, i as int, inside));
            } else {
                out.push(copy_chars(&ls[i]));
                assert(views(out@) =~= before + seq![lv[i as int]]);
                i = i + 1;
                inside = false;
                assert(convert_from(lv, old_i, old_inside) == seq![lv[old_i]] + convert_from(
                    lv,
                    i as int,
                    inside,
                ));
            }
        }
        assert(views(out@) + convert_from(lv, i as int, inside) =~= before + convert_from(
            lv,
            old_i,
            old_inside,
        ));
    }
    assert(views(out@) + Seq::<Seq<char>>::empty() =~= views(out@));
    let r = join_chars(&out, 0, out.len(), &nl);
    assert(views(out@).subrange(0, out@.len() as int) =~= views(out@));
    string_of(r.as_slice())
}

} // verus!
