//! Width-bounded greedy word wrapping and column-width computation for
//! aligned multi-row output.

use vstd::prelude::*;
use vstd::string::StringSliceAdditionalSpecFns;

verus! {

/// The length of a string in bytes: the sum of the UTF-8 encoded lengths
/// of its characters.
pub open spec fn byte_len(s: Seq<char>) -> int {
    vstd::utf8::encode_utf8(s).len() as int
}

/// The running maximum used for column widths: the greater of `old` and
/// the byte length of `s`.
pub open spec fn spec_width(old: int, s: Seq<char>) -> int {
    if byte_len(s) > old {
        byte_len(s)
    } else {
        old
    }
}

/// Extends a running maximum column width by one cell.
pub fn width(old: usize, s: &str) -> (r: usize)
    ensures
        r == spec_width(old as int, s@),
{
    let l = s.as_bytes().len();
    proof {
        assert(s.spec_bytes() == vstd::utf8::encode_utf8(s@));
    }
    if l > old {
        l
    } else {
        old
    }
}

/// The maximum byte length found in column `j` over all rows; zero when no
/// row reaches that column.
pub open spec fn spec_col_width(rows: Seq<Vec<String>>, j: int) -> int
    decreases rows.len(),
{
    if rows.len() == 0 {
        0
    } else {
        let prev = spec_col_width(rows.drop_last(), j);
        let row = rows.last();
        if 0 <= j < row@.len() {
            spec_width(prev, row@[j]@)
        } else {
            prev
        }
    }
}

/// Computes, for `expected` column positions, the maximum byte length
/// observed at that position over all rows.
pub fn columns(expected: usize, rows: &Vec<Vec<String>>) -> (r: Vec<usize>)
    ensures
        r@.len() == expected,
        forall|j: int| 0 <= j < expected ==> r@[j] == spec_col_width(rows@, j),
{
    let mut result: Vec<usize> = Vec::new();
    let mut k: usize = 0;
    while k < expected
        invariant
            result@.len() == k <= expected,
            forall|j: int| 0 <= j < k ==> result@[j] == 0,
        decreases expected - k,
    {
        result.push(0);
        k = k + 1;
    }
    proof {
        assert(rows@.take(0) =~= Seq::<Vec<String>>::empty());
    }
    let mut i: usize = 0;
    while i < rows.len()
        invariant
            result@.len() == expected,
            0 <= i <= rows@.len(),
            forall|j: int| 0 <= j < expected ==> result@[j] == spec_col_width(rows@.take(i as int), j),
        decreases rows@.len() - i,
    {
        let row = &rows[i];
        let n = if row.len() < expected {
            row.len()
        } else {
            expected
        };
        let ghost mid = result@;
        let mut j: usize = 0;
        while j < n
            invariant
                result@.len() == expected,
                n <= expected,
                n <= row@.len(),
                0 <= j <= n,
                forall|c: int| j <= c < expected ==> result@[c] == mid[c],
                forall|c: int| 0 <= c < j ==> result@[c] == spec_width(mid[c] as int, row@[c]@),
            decreases n - j,
        {
            let w = width(result[j], row[j].as_str());
            result.set(j, w);
            j = j + 1;
        }
        proof {
            assert(rows@.take(i + 1).drop_last() =~= rows@.take(i as int));
            assert(rows@.take(i + 1).last() == rows@[i as int]);
            assert forall|c: int| 0 <= c < expected implies result@[c] == spec_col_width(
                rows@.take(i + 1),
                c,
            ) by {
                if c >= n {
                    assert(result@[c] == mid[c]);
                    assert(c >= row@.len() || byte_len(row@[c]@) <= mid[c] || c
                        < row@.len());
                }
            }
        }
        i = i + 1;
    }
    proof {
        assert(rows@.take(rows@.len() as int) =~= rows@);
    }
    result
}


/// The greedy wrapping of `items` into lines of at most `width` bytes
/// (except that an item longer than `width` stands alone on its line):
/// a running budget starts at `width`; an item that does not fit the
/// remaining budget first flushes the current line and resets the budget;
/// every item is then appended to the current line, spending its length
/// from the budget, which saturates at zero.
pub open spec fn spec_wrap(
    items: Seq<String>,
    width: int,
    budget: int,
    cur: Seq<String>,
) -> Seq<Seq<String>>
    decreases items.len(),
{
    if items.len() == 0 {
        if cur.len() == 0 {
            Seq::empty()
        } else {
            seq![cur]
        }
    } else {
        let l = byte_len(items[0]@);
        if l > budget {
            let next_budget = if width >= l {
                width - l
            } else {
                0
            };
            let tail = spec_wrap(items.drop_first(), width, next_budget, seq![items[0]]);
            if cur.len() == 0 {
                tail
            } else {
                seq![cur] + tail
            }
        } else {
            spec_wrap(items.drop_first(), width, budget - l, cur.push(items[0]))
        }
    }
}

/// Law: wrapping neither drops nor duplicates an item — the produced
/// lines, concatenated in order, are exactly the pending line followed by
/// the items, in their original order.
pub proof fn lemma_wrap_preserves_items(
    items: Seq<String>,
    width: int,
    budget: int,
    cur: Seq<String>,
)
    ensures
        spec_wrap(items, width, budget, cur).flatten() =~= cur + items,
    decreases items.len(),
{
    if items.len() == 0 {
        if cur.len() == 0 {
            assert(spec_wrap(items, width, budget, cur).flatten() =~= cur + items);
        } else {
            let one = seq![cur];
            assert(one.drop_first() =~= Seq::<Seq<String>>::empty());
            assert(one.drop_first().flatten() =~= Seq::<String>::empty());
            assert(one.flatten() =~= cur + items);
        }
    } else {
        let l = byte_len(items[0]@);
        if l > budget {
            let next_budget = if width >= l {
                width - l
            } else {
                0
            };
            let tail = spec_wrap(items.drop_first(), width, next_budget, seq![items[0]]);
            lemma_wrap_preserves_items(items.drop_first(), width, next_budget, seq![items[0]]);
            assert(seq![items[0]] + items.drop_first() =~= items);
            if cur.len() > 0 {
                let whole = seq![cur] + tail;
                assert(whole.drop_first() =~= tail);
                assert(whole.first() == cur);
                assert(whole.flatten() =~= cur + items);
            }
        } else {
            lemma_wrap_preserves_items(items.drop_first(), width, budget - l, cur.push(items[0]));
            assert(cur.push(items[0]) + items.drop_first() =~= cur + items);
        }
    }
}

/// Law: `display` neither drops nor duplicates an item — its lines,
/// concatenated in order, are exactly the input items.
pub proof fn lemma_display_preserves_items(items: Seq<String>, width: int)
    ensures
        spec_wrap(items, width, width, Seq::empty()).flatten() =~= items,
{
    lemma_wrap_preserves_items(items, width, width, Seq::empty());
    assert(Seq::<String>::empty() + items =~= items);
}

/// The lines of wrapped output, each line seen as the sequence of the
/// strings it holds.
pub open spec fn lines_view(v: Seq<Vec<String>>) -> Seq<Seq<String>> {
    v.map_values(|l: Vec<String>| l@)
}

proof fn lemma_lines_view_push(v: Seq<Vec<String>>, l: Vec<String>)
    ensures
        lines_view(v.push(l)) =~= lines_view(v).push(l@),
{
}

/// A list of string-like items to be packed into width-bounded lines.
pub struct BoundingBox {
    items: Vec<String>,
}

impl BoundingBox {
    /// Wraps the given items.
    pub fn new(items: Vec<String>) -> (r: BoundingBox)
        ensures
            r.spec_items() == items@,
    {
        BoundingBox { items }
    }

    /// The items held.
    pub closed spec fn spec_items(&self) -> Seq<String> {
        self.items@
    }

    /// Greedily packs the items into lines of at most `width` bytes, one
    /// pass, no backtracking; an item longer than `width` stands alone on
    /// its own line. Returns the total item count and the lines.
    pub fn display(self, width: usize) -> (r: (usize, Vec<Vec<String>>))
        ensures
            r.0 == self.spec_items().len(),
            lines_view(r.1@) == spec_wrap(
                self.spec_items(),
                width as int,
                width as int,
                Seq::empty(),
            ),
    {
        let items = self.items;
        let mut vec: Vec<Vec<String>> = Vec::new();
        let mut temp: Vec<String> = Vec::new();
        let mut count: usize = 0;
        let mut budget: usize = width;
        let mut idx: usize = 0;
        let ghost all = items@;
        let ghost goal = spec_wrap(all, width as int, width as int, Seq::<String>::empty());
        proof {
            assert(all.skip(0) =~= all);
            assert(lines_view(vec@) =~= Seq::<Seq<String>>::empty());
            assert(lines_view(vec@) + goal =~= goal);
        }
        while idx < items.len()
            invariant
                0 <= idx <= all.len(),
                items@ == all,
                count == idx,
                goal == spec_wrap(all, width as int, width as int, Seq::<String>::empty()),
                goal == lines_view(vec@) + spec_wrap(
                    all.skip(idx as int),
                    width as int,
                    budget as int,
                    temp@,
                ),
            decreases all.len() - idx,
        {
            let item_str = items[idx].as_str();
            let n_len = item_str.as_bytes().len();
            proof {
                assert(all.skip(idx as int)[0] == all[idx as int]);
                assert(all.skip(idx as int).drop_first() =~= all.skip(idx + 1));
                assert(item_str.spec_bytes() == vstd::utf8::encode_utf8(all[idx as int]@));
                assert(n_len as int == byte_len(all[idx as int]@));
            }
            let ghost old_budget = budget as int;
            let ghost old_temp = temp@;
            let ghost old_vec = vec@;
            let ghost pending = spec_wrap(all.skip(idx as int), width as int, budget as int, temp@);
            if n_len > budget {
                if temp.len() > 0 {
                    let flushed = temp;
                    temp = Vec::new();
                    vec.push(flushed);
                }
                budget = width;
            }
            budget = budget.saturating_sub(n_len);
            let item = items[idx].clone();
            temp.push(item);
            count = count + 1;
            idx = idx + 1;
            proof {
                let l = byte_len(all[idx - 1]@);
                let w = width as int;
                let nb: int = if w >= l {
                    w - l
                } else {
                    0
                };
                if l > old_budget {
                    assert(temp@ =~= seq![all[idx - 1]]);
                    assert(budget as int == nb);
                    let tail = spec_wrap(all.skip(idx as int), w, nb, temp@);
                    if old_temp.len() > 0 {
                        assert(pending == seq![old_temp] + tail);
                        lemma_lines_view_push(old_vec, vec@.last());
                        assert(lines_view(vec@) =~= lines_view(old_vec).push(old_temp));
                        assert(lines_view(old_vec) + pending =~= lines_view(vec@) + tail);
                    } else {
                        assert(pending == tail);
                    }
                } else {
                    assert(temp@ == old_temp.push(all[idx - 1]));
                    assert(budget as int == old_budget - l);
                    assert(pending == spec_wrap(
                        all.skip(idx as int),
                        w,
                        budget as int,
                        temp@,
                    ));
                }
            }
        }
        proof {
            assert(all.skip(all.len() as int) =~= Seq::<String>::empty());
        }
        if temp.len() > 0 {
            let ghost pre_vec = vec@;
            let ghost last_line = temp@;
            vec.push(temp);
            proof {
                lemma_lines_view_push(pre_vec, vec@.last());
                assert(lines_view(pre_vec) + seq![last_line] =~= lines_view(vec@));
            }
        } else {
            proof {
                assert(lines_view(vec@) + Seq::<Seq<String>>::empty() =~= lines_view(vec@));
            }
        }
        (count, vec)
    }
}

/// Rendering state threaded through the text renderers: whether the
/// header line has already been produced.
pub enum State {
    /// Nothing was rendered yet: the header must be written first.
    First,
    /// The header was already written.
    Next,
}

impl Default for State {
    fn default() -> (r: Self)
        ensures
            r is First,
    {
        State::First
    }
}

impl State {
    /// Returns to the initial state.
    pub fn reset(&mut self) -> (r: State)
        ensures
            (*final(self)) is First,
            r is First,
    {
        *self = State::First;
        State::First
    }

    /// Moves past the header.
    pub fn advance(&mut self) -> (r: State)
        ensures
            (*final(self)) is Next,
            r is Next,
    {
        *self = State::Next;
        State::Next
    }
}

} // verus!
