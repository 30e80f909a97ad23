//! The listing: decoded items, sorted as requested, shaped into table rows.

use vstd::prelude::*;
use crate::codec::{decode_all, models, spec_decode};
use crate::date::{display_form, instant_lt, instant_lt_x, DueDate};
use crate::item::{ItemModel, TodoItem};
use crate::sorting::{all_due_ok, sorted_by, sort_items, SortMode};

verus! {

/// One table row: the priority digit, the rendered due date with its
/// overdue flag, and the text.
pub struct ViewRow {
    pub priority: Option<i8>,
    pub due: Option<String>,
    pub overdue: bool,
    pub text: String,
}

/// The model of a table row.
pub struct RowModel {
    pub priority: Option<i8>,
    pub due: Option<Seq<char>>,
    pub overdue: bool,
    pub text: Seq<char>,
}

impl View for ViewRow {
    type V = RowModel;

    open spec fn view(&self) -> RowModel {
        RowModel {
            priority: self.priority,
            due: match self.due {
                Some(s) => Some(s@),
                None => None,
            },
            overdue: self.overdue,
            text: self.text@,
        }
    }
}

/// The row an item renders to: the due cell carries the display form of
/// the timestamp and is flagged when the timestamp lies strictly before
/// `now`.
pub open spec fn row_of(m: ItemModel, now: Option<DueDate>) -> RowModel {
    RowModel {
        priority: m.priority,
        due: match m.due {
            Some(d) => Some(display_form(d)),
            None => None,
        },
        overdue: match (m.due, now) {
            (Option::Some(d), Option::Some(n)) => instant_lt(d, n),
            _ => false,
        },
        text: m.text,
    }
}

/// The rows of a sequence of items, in order. An item whose stored
/// priority falls outside the digit range is passed over: the defensive
/// re-check at display time, since the store may have been hand-edited.
pub open spec fn rows_of(s: Seq<TodoItem>, now: Option<DueDate>) -> Seq<RowModel>
    decreases s.len(),
{
    if s.len() == 0 {
        Seq::<RowModel>::empty()
    } else {
        rows_of(s.drop_last(), now) + (if s.last()@.priority_ok() {
            seq![row_of(s.last()@, now)]
        } else {
            Seq::<RowModel>::empty()
        })
    }
}

/// The models of a sequence of rows.
pub open spec fn row_models(s: Seq<ViewRow>) -> Seq<RowModel> {
    s.map_values(|r: ViewRow| r@)
}

/// Sorts the items as requested and renders them to rows. The rows are
/// those of some ordering of exactly the given items that is sorted by the
/// mode's preorder; the unsorted mode keeps the given order.
pub fn view_rows(items: Vec<TodoItem>, mode: SortMode, now: Option<DueDate>) -> (r: Vec<ViewRow>)
    requires
        all_due_ok(items@),
        now matches Some(n) ==> n.valid(),
    ensures
        exists|s: Seq<TodoItem>|
            {
                &&& s.to_multiset() == items@.to_multiset()
                &&& sorted_by(mode, s)
                &&& (mode == SortMode::Unsorted ==> s == items@)
                &&& row_models(r@) == rows_of(s, now)
            },
{
    let mut v = items;
    sort_items(&mut v, mode);
    let ghost s = v@;
    let mut out: Vec<ViewRow> = Vec::new();
    let mut i: usize = 0;
    while i < v.len()
        invariant
            i <= v@.len(),
            v@ == s,
            all_due_ok(v@),
            now matches Some(n) ==> n.valid(),
            row_models(out@) == rows_of(s.take(i as int), now),
        decreases v@.len() - i,
    {
        let ghost out0 = out@;
        let it = &v[i];
        let pri_ok = match it.priority {
            Some(p) => 0 <= p && p <= 9,
            None => true,
        };
        if pri_ok {
            let due_cell: Option<String> = match &it.due {
                Some(d) => Some(d.display()),
                None => None,
            };
            let overdue = match (&it.due, &now) {
                (Option::Some(d), Option::Some(n)) => instant_lt_x(d, n),
                _ => false,
            };
            let row = ViewRow { priority: it.priority, due: due_cell, overdue, text: it.item.clone() };
            assert(row@ == row_of(it@, now));
            out.push(row);
        }
        proof {
            assert(s.take(i + 1).drop_last() =~= s.take(i as int));
            assert(s.take(i + 1).last() == s[i as int]);
            if s[i as int]@.priority_ok() {
                assert(row_models(out@) =~= row_models(out0) + seq![out@.last()@]);
            } else {
                assert(out@ == out0);
            }
            assert(row_models(out@) =~= rows_of(s.take(i + 1), now));
        }
        i += 1;
    }
    proof {
        assert(s.take(s.len() as int) =~= s);
    }
    out
}

/// The whole view path: decodes the stored lines, and renders the rows in
/// the requested order. An empty listing — nothing decoded — yields no
/// table at all; the caller prints its message instead.
pub fn view_items(lines: &Vec<String>, mode: SortMode, now: Option<DueDate>) -> (r: Option<
    Vec<ViewRow>,
>)
    requires
        now matches Some(n) ==> n.valid(),
    ensures
        r is None <==> decode_all(lines.deep_view()).len() == 0,
        r matches Some(rows) ==> exists|its: Seq<TodoItem>, s: Seq<TodoItem>|
            {
                &&& models(its) == decode_all(lines.deep_view())
                &&& s.to_multiset() == its.to_multiset()
                &&& sorted_by(mode, s)
                &&& (mode == SortMode::Unsorted ==> s == its)
                &&& row_models(rows@) == rows_of(s, now)
            },
{
    let items = TodoItem::load_items(lines);
    let ghost its = items@;
    proof {
        crate::codec::lemma_decode_all_inv(lines.deep_view());
        assert forall|i: int| 0 <= i < its.len() implies (#[trigger] its[i]@).due_ok() by {
            assert(models(its)[i] == its[i]@);
        }
    }
    if items.len() == 0 {
        return None;
    }
    let rows = view_rows(items, mode, now);
    proof {
        let s = choose|s: Seq<TodoItem>|
            {
                &&& s.to_multiset() == its.to_multiset()
                &&& sorted_by(mode, s)
                &&& (mode == SortMode::Unsorted ==> s == its)
                &&& row_models(rows@) == rows_of(s, now)
            };
    }
    Some(rows)
}

} // verus!
