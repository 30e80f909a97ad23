//! Sort orders over items, with the absent-last rule: an item lacking the
//! requested sort key comes after every item that has it, for ascending and
//! descending orders alike, and two such items rank equal.

use vstd::prelude::*;
use crate::date::{instant_le, instant_le_x};
use crate::item::{ItemModel, TodoItem};

verus! {

broadcast use vstd::seq_lib::group_to_multiset_ensures;

/// The six requested orders (`d`/`da`, `dd`, `p`/`pa`, `pd`, or none).
#[derive(Clone, Copy, PartialEq, Eq, Structural, Debug)]
pub enum SortMode {
    Unsorted,
    DueAsc,
    DueDesc,
    PriAsc,
    PriDesc,
}

/// The mode a sort flag requests: `d` and `da` due ascending, `dd` due
/// descending, `p` and `pa` priority ascending, `pd` priority descending;
/// no flag, or any other value, leaves the listing in store order.
pub open spec fn flag_mode(flag: Option<Seq<char>>) -> SortMode {
    match flag {
        Some(s) => if s == "d"@ || s == "da"@ {
            SortMode::DueAsc
        } else if s == "dd"@ {
            SortMode::DueDesc
        } else if s == "p"@ || s == "pa"@ {
            SortMode::PriAsc
        } else if s == "pd"@ {
            SortMode::PriDesc
        } else {
            SortMode::Unsorted
        },
        None => SortMode::Unsorted,
    }
}

/// Character-for-character string comparison.
fn str_eq(a: &str, b: &str) -> (r: bool)
    ensures
        r == (a@ == b@),
{
    let na = a.unicode_len();
    let nb = b.unicode_len();
    if na != nb {
        return false;
    }
    let mut k: usize = 0;
    while k < na
        invariant
            k <= na == a@.len(),
            nb == b@.len(),
            na == nb,
            forall|j: int| 0 <= j < k ==> a@[j] == b@[j],
        decreases na - k,
    {
        if a.get_char(k) != b.get_char(k) {
            return false;
        }
        k += 1;
    }
    proof {
        assert(a@ =~= b@);
    }
    true
}

/// Executable `flag_mode`.
pub fn sort_mode_of_flag(flag: Option<&str>) -> (r: SortMode)
    ensures
        r == flag_mode(match flag {
            Some(s) => Some(s@),
            None => None::<Seq<char>>,
        }),
{
    match flag {
        Some(s) => {
            if str_eq(s, "d") || str_eq(s, "da") {
                SortMode::DueAsc
            } else if str_eq(s, "dd") {
                SortMode::DueDesc
            } else if str_eq(s, "p") || str_eq(s, "pa") {
                SortMode::PriAsc
            } else if str_eq(s, "pd") {
                SortMode::PriDesc
            } else {
                SortMode::Unsorted
            }
        },
        None => SortMode::Unsorted,
    }
}

/// Whether the item carries the key the mode sorts by.
pub open spec fn key_present(mode: SortMode, m: ItemModel) -> bool {
    match mode {
        SortMode::DueAsc | SortMode::DueDesc => m.due is Some,
        SortMode::PriAsc | SortMode::PriDesc => m.priority is Some,
        SortMode::Unsorted => true,
    }
}

/// The total preorder each mode sorts by. Within present keys the natural
/// order of the key decides, reversed for the descending modes; an absent
/// key ranks after every present one in either direction.
pub open spec fn item_le(mode: SortMode, a: ItemModel, b: ItemModel) -> bool {
    match mode {
        SortMode::Unsorted => true,
        SortMode::DueAsc => match (a.due, b.due) {
            (Option::Some(x), Option::Some(y)) => instant_le(x, y),
            (Option::Some(x), Option::None) => true,
            (Option::None, Option::Some(y)) => false,
            (Option::None, Option::None) => true,
        },
        SortMode::DueDesc => match (a.due, b.due) {
            (Option::Some(x), Option::Some(y)) => instant_le(y, x),
            (Option::Some(x), Option::None) => true,
            (Option::None, Option::Some(y)) => false,
            (Option::None, Option::None) => true,
        },
        SortMode::PriAsc => match (a.priority, b.priority) {
            (Option::Some(x), Option::Some(y)) => x <= y,
            (Option::Some(x), Option::None) => true,
            (Option::None, Option::Some(y)) => false,
            (Option::None, Option::None) => true,
        },
        SortMode::PriDesc => match (a.priority, b.priority) {
            (Option::Some(x), Option::Some(y)) => y <= x,
            (Option::Some(x), Option::None) => true,
            (Option::None, Option::Some(y)) => false,
            (Option::None, Option::None) => true,
        },
    }
}

/// `item_le` is total in each mode.
pub proof fn lemma_item_le_total(mode: SortMode, a: ItemModel, b: ItemModel)
    ensures
        item_le(mode, a, b) || item_le(mode, b, a),
{
}

/// `item_le` is transitive in each mode.
pub proof fn lemma_item_le_trans(mode: SortMode, a: ItemModel, b: ItemModel, c: ItemModel)
    requires
        item_le(mode, a, b),
        item_le(mode, b, c),
    ensures
        item_le(mode, a, c),
{
}

/// The sequence is ordered by the mode's preorder.
pub open spec fn sorted_by(mode: SortMode, s: Seq<TodoItem>) -> bool {
    forall|i: int, j: int|
        0 <= i < j < s.len() ==> item_le(mode, #[trigger] s[i]@, #[trigger] s[j]@)
}

/// The absent-last law, first half: in a sorted sequence, everything after
/// an item that lacks the sort key lacks it too — present keys never follow
/// absent ones, ascending or descending.
pub proof fn lemma_absent_keys_last(mode: SortMode, s: Seq<TodoItem>, i: int, j: int)
    requires
        sorted_by(mode, s),
        0 <= i < j < s.len(),
        !key_present(mode, s[i]@),
    ensures
        !key_present(mode, s[j]@),
{
    assert(item_le(mode, s[i]@, s[j]@));
}

/// The absent-last law, second half: two items lacking the sort key rank
/// equal — each at or before the other.
pub proof fn lemma_absent_keys_equal(mode: SortMode, a: ItemModel, b: ItemModel)
    requires
        !key_present(mode, a),
        !key_present(mode, b),
    ensures
        item_le(mode, a, b),
        item_le(mode, b, a),
{
}

/// Executable `item_le`.
pub fn item_le_x(mode: SortMode, a: &TodoItem, b: &TodoItem) -> (r: bool)
    requires
        a@.due_ok(),
        b@.due_ok(),
    ensures
        r == item_le(mode, a@, b@),
{
    match mode {
        SortMode::Unsorted => true,
        SortMode::DueAsc => match (&a.due, &b.due) {
            (Option::Some(x), Option::Some(y)) => instant_le_x(x, y),
            (Option::Some(_), Option::None) => true,
            (Option::None, Option::Some(_)) => false,
            (Option::None, Option::None) => true,
        },
        SortMode::DueDesc => match (&a.due, &b.due) {
            (Option::Some(x), Option::Some(y)) => instant_le_x(y, x),
            (Option::Some(_), Option::None) => true,
            (Option::None, Option::Some(_)) => false,
            (Option::None, Option::None) => true,
        },
        SortMode::PriAsc => match (&a.priority, &b.priority) {
            (Option::Some(x), Option::Some(y)) => *x <= *y,
            (Option::Some(_), Option::None) => true,
            (Option::None, Option::Some(_)) => false,
            (Option::None, Option::None) => true,
        },
        SortMode::PriDesc => match (&a.priority, &b.priority) {
            (Option::Some(x), Option::Some(y)) => *y <= *x,
            (Option::Some(_), Option::None) => true,
            (Option::None, Option::Some(_)) => false,
            (Option::None, Option::None) => true,
        },
    }
}

/// Every item of the sequence has a well-formed due field.
pub open spec fn all_due_ok(s: Seq<TodoItem>) -> bool {
    forall|i: int| 0 <= i < s.len() ==> (#[trigger] s[i]@).due_ok()
}

/// Where `x` belongs among the first `upto` items, which are sorted:
/// everything before the answer is at or below `x`, everything from the
/// answer up to `upto` is at or above it.
fn insert_pos(mode: SortMode, v: &Vec<TodoItem>, upto: usize, x: &TodoItem) -> (j: usize)
    requires
        upto <= v@.len(),
        x@.due_ok(),
        all_due_ok(v@),
        forall|a: int, b: int| 0 <= a < b < upto ==> item_le(mode, #[trigger] v@[a]@, #[trigger] v@[b]@),
    ensures
        j <= upto,
        forall|k: int| 0 <= k < j ==> item_le(mode, #[trigger] v@[k]@, x@),
        forall|k: int| j <= k < upto ==> item_le(mode, x@, #[trigger] v@[k]@),
{
    let mut j: usize = 0;
    while j < upto
        invariant
            j <= upto <= v@.len(),
            x@.due_ok(),
            all_due_ok(v@),
            forall|a: int, b: int|
                0 <= a < b < upto ==> item_le(mode, #[trigger] v@[a]@, #[trigger] v@[b]@),
            forall|k: int| 0 <= k < j ==> item_le(mode, #[trigger] v@[k]@, x@),
        decreases upto - j,
    {
        if !item_le_x(mode, &v[j], x) {
            proof {
                lemma_item_le_total(mode, v@[j as int]@, x@);
                assert forall|k: int| j <= k < upto implies item_le(mode, x@, #[trigger] v@[k]@) by {
                    if k > j {
                        lemma_item_le_trans(mode, x@, v@[j as int]@, v@[k]@);
                    }
                }
            }
            return j;
        }
        j += 1;
    }
    upto
}

/// Sorts the items by the requested mode; the unsorted mode keeps store
/// order. The result holds the same items and is ordered by the mode's
/// preorder.
pub fn sort_items(v: &mut Vec<TodoItem>, mode: SortMode)
    requires
        all_due_ok(old(v)@),
    ensures
        final(v)@.to_multiset() == old(v)@.to_multiset(),
        final(v)@.len() == old(v)@.len(),
        all_due_ok(final(v)@),
        sorted_by(mode, final(v)@),
        mode == SortMode::Unsorted ==> final(v)@ == old(v)@,
{
    if mode == SortMode::Unsorted {
        return;
    }
    let ghost orig = v@;
    let mut i: usize = 0;
    while i < v.len()
        invariant
            mode != SortMode::Unsorted,
            i <= v@.len(),
            v@.len() == orig.len(),
            v@.to_multiset() == orig.to_multiset(),
            all_due_ok(v@),
            forall|a: int, b: int| 0 <= a < b < i ==> item_le(mode, #[trigger] v@[a]@, #[trigger] v@[b]@),
        decreases v@.len() - i,
    {
        let ghost prev = v@;
        let x = v.remove(i);
        let ghost mid = v@;
        proof {
            assert(forall|k: int| 0 <= k < i ==> mid[k] == prev[k]);
            assert forall|k: int| 0 <= k < mid.len() implies (#[trigger] mid[k]@).due_ok() by {
                if k < i {
                    assert(mid[k] == prev[k]);
                } else {
                    assert(mid[k] == prev[k + 1]);
                }
            }
        }
        let j = insert_pos(mode, v, i, &x);
        v.insert(j, x);
        proof {
            assert(v@ == mid.insert(j as int, x));
            assert(v@.to_multiset() == orig.to_multiset()) by {
                assert(mid.to_multiset() == prev.to_multiset().remove(x));
                assert(v@.to_multiset() =~= prev.to_multiset());
            }
            assert forall|k: int| 0 <= k < v@.len() implies (#[trigger] v@[k]@).due_ok() by {
                if k < j {
                    assert(v@[k] == mid[k]);
                } else if k == j {
                    assert(v@[k] == x);
                } else {
                    assert(v@[k] == mid[k - 1]);
                }
            }
            assert forall|a: int, b: int| 0 <= a < b < i + 1 implies item_le(
                mode,
                #[trigger] v@[a]@,
                #[trigger] v@[b]@,
            ) by {
                if b < j {
                    assert(v@[a] == mid[a] && v@[b] == mid[b]);
                } else if b == j {
                    assert(v@[a] == mid[a]);
                } else if a < j {
                    assert(v@[a] == mid[a] && v@[b] == mid[b - 1]);
                } else if a == j {
                    assert(v@[b] == mid[b - 1]);
                } else {
                    assert(v@[a] == mid[a - 1] && v@[b] == mid[b - 1]);
                }
            }
        }
        i += 1;
    }
}

} // verus!
