//! Totals per group name, as the C++ and Rust views report them.
//!
//! Items carry an optional group name and a size.  `group_totals` is the
//! specification: the groups in order of first appearance, each with the
//! summed size and the number of items.  Reports then order the groups by
//! name, or rank them by size.
use vstd::prelude::*;

use crate::sorting::{
    is_sorted, lemma_sorted_by_key_is_sorted, lemma_sorted_by_key_permutes, sort_by_key, sorted_by_key,
    SortKey,
};
use crate::text::{
    copy_string, lemma_lex_le_total, lemma_lex_le_transitive, lex_le, lex_lt, str_eq, str_le,
};

verus! {

/// One group: its name, summed size and number of items.
#[derive(Debug, Clone, PartialEq, Eq)]
pub struct GroupTotal {
    pub name: String,
    pub size: u64,
    pub count: usize,
}

/// Groups order by name.
impl SortKey for GroupTotal {
    open spec fn key_le(self, other: Self) -> bool {
        lex_le(self.name@, other.name@)
    }

    proof fn lemma_key_total(a: Self, b: Self) {
        lemma_lex_le_total(a.name@, b.name@);
    }

    proof fn lemma_key_transitive(a: Self, b: Self, c: Self) {
        lemma_lex_le_transitive(a.name@, b.name@, c.name@);
    }

    fn exec_key_le(&self, other: &Self) -> (r: bool) {
        str_le(&self.name, &other.name)
    }
}

/// Named sizes rank by size, largest first, then by name.
impl SortKey for (String, u64) {
    open spec fn key_le(self, other: Self) -> bool {
        self.1 > other.1 || (self.1 == other.1 && lex_le(self.0@, other.0@))
    }

    proof fn lemma_key_total(a: Self, b: Self) {
        lemma_lex_le_total(a.0@, b.0@);
    }

    proof fn lemma_key_transitive(a: Self, b: Self, c: Self) {
        if a.1 == b.1 && b.1 == c.1 {
            lemma_lex_le_transitive(a.0@, b.0@, c.0@);
        }
    }

    fn exec_key_le(&self, other: &Self) -> (r: bool) {
        if self.1 != other.1 {
            self.1 > other.1
        } else {
            str_le(&self.0, &other.0)
        }
    }
}

/// A group in the specification: name, summed size, item count.
pub type Group = (Seq<char>, int, int);

/// Adds one item to the groups: to its group if there is one, else as a new
/// group at the end.
pub open spec fn add_item(g: Seq<Group>, key: Seq<char>, size: int) -> Seq<Group>
    decreases g.len(),
{
    if g.len() == 0 {
        seq![(key, size, 1int)]
    } else if g[0].0 == key {
        g.update(0, (key, g[0].1 + size, g[0].2 + 1))
    } else {
        seq![g[0]] + add_item(g.drop_first(), key, size)
    }
}

/// Optional group name and size of each item.
pub open spec fn keyed_view(v: Seq<(Option<String>, u64)>) -> Seq<(Option<Seq<char>>, u64)> {
    v.map_values(
        |x: (Option<String>, u64)|
            (
                match x.0 {
                    Some(s) => Some(s@),
                    None => None,
                },
                x.1,
            ),
    )
}

/// The groups of the named items, in order of first appearance.
pub open spec fn group_totals(items: Seq<(Option<Seq<char>>, u64)>) -> Seq<Group>
    decreases items.len(),
{
    if items.len() == 0 {
        Seq::empty()
    } else {
        let g = group_totals(items.drop_last());
        match items.last().0 {
            Some(k) => add_item(g, k, items.last().1 as int),
            None => g,
        }
    }
}

/// Sum of the sizes of all items.
pub open spec fn size_sum(items: Seq<(Option<Seq<char>>, u64)>) -> int
    decreases items.len(),
{
    if items.len() == 0 {
        0
    } else {
        size_sum(items.drop_last()) + items.last().1
    }
}

/// Group names occur once.
pub open spec fn distinct_names(g: Seq<Group>) -> bool {
    forall|i: int, j: int| 0 <= i < j < g.len() ==> g[i].0 != g[j].0
}

/// The group totals `rows` are exactly `g`, position by position.
pub open spec fn rows_match(rows: Seq<GroupTotal>, g: Seq<Group>) -> bool {
    &&& rows.len() == g.len()
    &&& forall|i: int|
        0 <= i < g.len() ==> (#[trigger] rows[i]).name@ == g[i].0 && rows[i].size == g[i].1
            && rows[i].count == g[i].2
}

/// Adding to an existing group updates it in place; otherwise a group is appended.
proof fn lemma_add_item(g: Seq<Group>, key: Seq<char>, size: int, j: int)
    requires
        0 <= j <= g.len(),
        forall|k: int| 0 <= k < j ==> g[k].0 != key,
        j < g.len() ==> g[j].0 == key,
    ensures
        add_item(g, key, size) == if j < g.len() {
            g.update(j, (key, g[j].1 + size, g[j].2 + 1))
        } else {
            g.push((key, size, 1int))
        },
    decreases g.len(),
{
    if g.len() == 0 {
    } else if j == 0 {
    } else {
        lemma_add_item(g.drop_first(), key, size, j - 1);
        if j < g.len() {
            assert(seq![g[0]] + g.drop_first().update(j - 1, (key, g[j].1 + size, g[j].2 + 1))
                =~= g.update(j, (key, g[j].1 + size, g[j].2 + 1)));
        } else {
            assert(seq![g[0]] + g.drop_first().push((key, size, 1int)) =~= g.push((key, size, 1int)));
        }
    }
}

/// Group totals: distinct names, every total within the sum of all sizes and
/// every count within the number of items.
pub proof fn lemma_group_bounds(items: Seq<(Option<Seq<char>>, u64)>)
    ensures
        distinct_names(group_totals(items)),
        forall|i: int|
            0 <= i < group_totals(items).len() ==> 0 <= #[trigger] group_totals(items)[i].1 <= size_sum(
                items,
            ) && 1 <= group_totals(items)[i].2 <= items.len(),
        size_sum(items) >= 0,
    decreases items.len(),
{
    if items.len() > 0 {
        lemma_group_bounds(items.drop_last());
    }
    if items.len() > 0 {
        let g = group_totals(items.drop_last());
        match items.last().0 {
            Some(k) => {
                let j = first_index(g, k);
                lemma_first_index(g, k);
                lemma_add_item(g, k, items.last().1 as int, j);
            },
            None => {},
        }
    }
}

/// Every group is named by some item.
pub proof fn lemma_group_keys_present(items: Seq<(Option<Seq<char>>, u64)>)
    ensures
        forall|i: int|
            #![trigger group_totals(items)[i]]
            0 <= i < group_totals(items).len() ==> exists|j: int|
                0 <= j < items.len() && #[trigger] items[j].0 == Some(group_totals(items)[i].0),
    decreases items.len(),
{
    if items.len() > 0 {
        let pre = items.drop_last();
        lemma_group_keys_present(pre);
        let g = group_totals(pre);
        assert forall|i: int| #![trigger g[i]] 0 <= i < g.len() implies exists|j: int|
            0 <= j < items.len() && #[trigger] items[j].0 == Some(g[i].0) by {
            let j = choose|j: int| 0 <= j < pre.len() && #[trigger] pre[j].0 == Some(g[i].0);
            assert(items[j] == pre[j]);
        }
        match items.last().0 {
            Some(k) => {
                let j = first_index(g, k);
                lemma_first_index(g, k);
                lemma_add_item(g, k, items.last().1 as int, j);
                let t = group_totals(items);
                assert forall|i: int| #![trigger group_totals(items)[i]] 0 <= i < t.len() implies exists|m: int|
                    0 <= m < items.len() && #[trigger] items[m].0 == Some(t[i].0) by {
                    if i < g.len() {
                        assert(t[i].0 == g[i].0);
                    } else {
                        assert(items[items.len() - 1].0 == Some(t[i].0));
                    }
                }
            },
            None => {},
        }
    }
}

/// Summed size of the items named `key`.
pub open spec fn key_total(items: Seq<(Option<Seq<char>>, u64)>, key: Seq<char>) -> int
    decreases items.len(),
{
    if items.len() == 0 {
        0
    } else {
        key_total(items.drop_last(), key) + if items.last().0 == Some(key) {
            items.last().1 as int
        } else {
            0
        }
    }
}

/// Number of the items named `key`.
pub open spec fn key_count(items: Seq<(Option<Seq<char>>, u64)>, key: Seq<char>) -> int
    decreases items.len(),
{
    if items.len() == 0 {
        0
    } else {
        key_count(items.drop_last(), key) + if items.last().0 == Some(key) {
            1int
        } else {
            0
        }
    }
}

/// There is a group named `key` exactly when an item is named `key`, and
/// that group sums the sizes of those items and counts them.
pub proof fn lemma_group_of_key(items: Seq<(Option<Seq<char>>, u64)>, key: Seq<char>)
    ensures
        (exists|i: int| 0 <= i < group_totals(items).len() && (#[trigger] group_totals(items)[i]).0 == key)
            <==> key_count(items, key) > 0,
        forall|i: int|
            0 <= i < group_totals(items).len() && (#[trigger] group_totals(items)[i]).0 == key
                ==> group_totals(items)[i].1 == key_total(items, key) && group_totals(items)[i].2
                == key_count(items, key),
        key_count(items, key) >= 0,
        key_count(items, key) == 0 ==> key_total(items, key) == 0,
    decreases items.len(),
{
    if items.len() > 0 {
        let pre = items.drop_last();
        lemma_group_of_key(pre, key);
        lemma_group_bounds(pre);
        let g = group_totals(pre);
        let t = group_totals(items);
        match items.last().0 {
            Some(k) => {
                let j = first_index(g, k);
                lemma_first_index(g, k);
                lemma_add_item(g, k, items.last().1 as int, j);
                if k == key {
                    if key_count(pre, key) > 0 {
                        let i0 = choose|i: int| 0 <= i < g.len() && (#[trigger] g[i]).0 == key;
                        assert(j <= i0);
                        assert(j < g.len());
                        assert forall|i: int| 0 <= i < t.len() && (#[trigger] t[i]).0 == key implies t[i].1
                            == key_total(items, key) && t[i].2 == key_count(items, key) by {
                            if i != j {
                                assert(g[i].0 == key);
                                assert(g[j].0 == key);
                            }
                        }
                        assert(t[j].0 == key);
                    } else {
                        if j < g.len() {
                            assert(g[j].0 == key);
                        }
                        assert forall|i: int| 0 <= i < t.len() && (#[trigger] t[i]).0 == key implies t[i].1
                            == key_total(items, key) && t[i].2 == key_count(items, key) by {
                            if i < g.len() {
                                assert(g[i].0 == key);
                            }
                        }
                        assert(t[g.len() as int].0 == key);
                    }
                } else {
                    assert forall|i: int| 0 <= i < t.len() && (#[trigger] t[i]).0 == key implies t[i].1
                        == key_total(items, key) && t[i].2 == key_count(items, key) by {
                        assert(i < g.len());
                        assert(t[i] == g[i]);
                    }
                    if key_count(pre, key) > 0 {
                        let i0 = choose|i: int| 0 <= i < g.len() && (#[trigger] g[i]).0 == key;
                        assert(t[i0] == g[i0]);
                    }
                    if exists|i: int| 0 <= i < t.len() && (#[trigger] t[i]).0 == key {
                        let i0 = choose|i: int| 0 <= i < t.len() && (#[trigger] t[i]).0 == key;
                        assert(i0 < g.len());
                        assert(g[i0] == t[i0]);
                    }
                }
            },
            None => {},
        }
    }
}

/// Index of the group named `key`, or the number of groups.
pub open spec fn first_index(g: Seq<Group>, key: Seq<char>) -> int
    decreases g.len(),
{
    if g.len() == 0 {
        0
    } else if g[0].0 == key {
        0
    } else {
        1 + first_index(g.drop_first(), key)
    }
}

proof fn lemma_first_index(g: Seq<Group>, key: Seq<char>)
    ensures
        0 <= first_index(g, key) <= g.len(),
        forall|k: int| 0 <= k < first_index(g, key) ==> g[k].0 != key,
        first_index(g, key) < g.len() ==> g[first_index(g, key)].0 == key,
    decreases g.len(),
{
    if g.len() > 0 && g[0].0 != key {
        lemma_first_index(g.drop_first(), key);
        assert forall|k: int| 0 <= k < first_index(g, key) implies g[k].0 != key by {
            if k > 0 {
                assert(g[k] == g.drop_first()[k - 1]);
            }
        }
    }
}

/// Sizes of a prefix never exceed those of the whole list.
proof fn lemma_size_sum_prefix(items: Seq<(Option<Seq<char>>, u64)>, k: int)
    requires
        0 <= k <= items.len(),
    ensures
        size_sum(items.take(k)) <= size_sum(items),
    decreases items.len(),
{
    if k < items.len() {
        assert(items.drop_last().take(k) =~= items.take(k));
        lemma_size_sum_prefix(items.drop_last(), k);
    } else {
        assert(items.take(k) =~= items);
    }
}

/// Copies a group total.
fn copy_group(g: &GroupTotal) -> (out: GroupTotal)
    ensures
        out == *g,
{
    GroupTotal { name: copy_string(&g.name), size: g.size, count: g.count }
}

/// The groups of the named items, in order of first appearance.
pub fn accumulate_groups(items: &Vec<(Option<String>, u64)>) -> (out: Vec<GroupTotal>)
    requires
        size_sum(keyed_view(items@)) <= u64::MAX,
    ensures
        rows_match(out@, group_totals(keyed_view(items@))),
{
    let ghost all = keyed_view(items@);
    let mut out: Vec<GroupTotal> = Vec::new();
    let mut i: usize = 0;
    while i < items.len()
        invariant
            0 <= i <= items.len(),
            all == keyed_view(items@),
            size_sum(all) <= u64::MAX,
            rows_match(out@, group_totals(all.take(i as int))),
        decreases items.len() - i,
    {
        let ghost pre = all.take(i as int);
        let ghost next = all.take(i + 1);
        assert(next.drop_last() =~= pre);
        assert(next.last() == all[i as int]);
        proof {
            lemma_group_bounds(next);
            lemma_size_sum_prefix(all, i + 1);
        }
        match &items[i].0 {
            None => {
                assert(group_totals(next) == group_totals(pre));
            },
            Some(key) => {
                let size = items[i].1;
                let ghost g = group_totals(pre);
                let mut j: usize = 0;
                while j < out.len() && !str_eq(out[j].name.as_str(), key.as_str())
                    invariant
                        0 <= j <= out.len(),
                        rows_match(out@, g),
                        forall|k: int| 0 <= k < j ==> g[k].0 != key@,
                    decreases out.len() - j,
                {
                    j += 1;
                }
                proof {
                    lemma_add_item(g, key@, size as int, j as int);
                    assert(all[i as int] == (Some(key@), size));
                    assert(group_totals(next) == add_item(g, key@, size as int));
                }
                if j < out.len() {
                    assert(group_totals(next)[j as int] == (key@, g[j as int].1 + size, g[j as int].2 + 1));
                    assert(group_totals(next)[j as int].1 <= size_sum(next));
                    assert(group_totals(next)[j as int].2 <= next.len());
                    let mut row = copy_group(&out[j]);
                    row.size = row.size + size;
                    row.count = row.count + 1;
                    let ghost before = out@;
                    out.set(j, row);
                    assert(rows_match(out@, group_totals(next))) by {
                        assert forall|k: int| 0 <= k < group_totals(next).len() implies (#[trigger] out@[k]).name@
                            == group_totals(next)[k].0 && out@[k].size == group_totals(next)[k].1
                            && out@[k].count == group_totals(next)[k].2 by {
                            if k != j {
                                assert(out@[k] == before[k]);
                            }
                        }
                    }
                } else {
                    let ghost before = out@;
                    out.push(GroupTotal { name: copy_string(key), size, count: 1 });
                    assert(rows_match(out@, group_totals(next))) by {
                        assert forall|k: int| 0 <= k < group_totals(next).len() implies (#[trigger] out@[k]).name@
                            == group_totals(next)[k].0 && out@[k].size == group_totals(next)[k].1
                            && out@[k].count == group_totals(next)[k].2 by {
                            if k < before.len() {
                                assert(out@[k] == before[k]);
                            }
                        }
                    }
                }
            },
        }
        i += 1;
    }
    assert(all.take(items.len() as int) =~= all);
    out
}

/// Group totals ordered by name: `(name, size)` pairs.
pub fn totals_by_name(groups: Vec<GroupTotal>) -> (out: Vec<(String, u64)>)
    ensures
        out@.len() == groups@.len(),
        forall|i: int|
            0 <= i < out@.len() ==> (#[trigger] out@[i]).0 == sorted_by_key(groups@)[i].name
                && out@[i].1 == sorted_by_key(groups@)[i].size,
        forall|i: int|
            0 <= i < out@.len() ==> exists|j: int|
                0 <= j < groups@.len() && (#[trigger] out@[i]).1 == groups@[j].size,
{
    broadcast use vstd::seq_lib::group_to_multiset_ensures;

    proof {
        lemma_sorted_by_key_is_sorted(groups@);
        lemma_sorted_by_key_permutes(groups@);
    }
    let ghost g = groups@;
    let sorted = sort_by_key(groups);
    let mut out: Vec<(String, u64)> = Vec::new();
    let mut i: usize = 0;
    while i < sorted.len()
        invariant
            0 <= i <= sorted.len(),
            out@.len() == i,
            forall|k: int|
                0 <= k < i ==> (#[trigger] out@[k]).0 == sorted@[k].name && out@[k].1 == sorted@[k].size,
        decreases sorted.len() - i,
    {
        out.push((copy_string(&sorted[i].name), sorted[i].size));
        i += 1;
    }
    assert forall|i: int| 0 <= i < out@.len() implies exists|j: int|
        0 <= j < g.len() && (#[trigger] out@[i]).1 == g[j].size by {
        let x = sorted@[i];
        assert(sorted@.to_multiset().count(x) > 0);
        assert(g.to_multiset().count(x) > 0);
        assert(g.contains(x));
    }
    out
}

/// The display names of the first `limit` members ranked by size, largest
/// first, then by name.
pub fn top_names(members: Vec<(String, u64)>, limit: usize) -> (out: Vec<String>)
    ensures
        out@.len() == if sorted_by_key(members@).len() < limit {
            sorted_by_key(members@).len() as int
        } else {
            limit as int
        },
        forall|i: int| 0 <= i < out@.len() ==> #[trigger] out@[i] == sorted_by_key(members@)[i].0,
{
    let sorted = sort_by_key(members);
    let mut out: Vec<String> = Vec::new();
    let mut i: usize = 0;
    while i < sorted.len() && i < limit
        invariant
            0 <= i <= sorted.len(),
            i <= limit,
            out@.len() == i,
            forall|k: int| 0 <= k < i ==> #[trigger] out@[k] == sorted@[k].0,
        decreases sorted.len() - i,
    {
        out.push(copy_string(&sorted[i].0));
        i += 1;
    }
    out
}

} // verus!
