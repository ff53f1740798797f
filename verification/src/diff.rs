//! Differences between two analyses: every named entry (section, symbol,
//! object, ...) with its size before and after, the change, and the lists
//! ranked by the size of the change.
use vstd::prelude::*;

use crate::cpp::{aggregate_group_sizes, is_group_sizes, summary_size_sum, CppGroupBy, CppView};
use crate::model::{
    ArchiveContribution, DiffChangeKind, DiffEntry, DiffResult, DiffSummary, FunctionAttribution,
    LineRangeAttribution, ObjectContribution, ObjectSourceKind, SectionTotal, SourceFile, SymbolInfo,
};
use crate::sorting::{is_sorted, lemma_sorted_by_key_is_sorted, lemma_sorted_by_key_permutes, sort_by_key, sorted_by_key, SortKey};
use crate::text::{
    chars_of, copy_string, dec, lemma_lex_le_total, lemma_lex_le_transitive, lex_le, push_dec,
    push_str_chars, str_eq, str_le, string_of,
};

verus! {

// ---------------------------------------------------------------------------
// Keys
// ---------------------------------------------------------------------------
/// The diff key of a section.
pub fn section_key(name: &str) -> (r: String)
    ensures
        r@ == name@,
{
    name.to_owned()
}

/// The diff key of a symbol.
pub fn symbol_key(name: &str) -> (r: String)
    ensures
        r@ == name@,
{
    name.to_owned()
}

/// The diff key of an object file; linker-internal contributions are marked
/// so that they never collide with a real path.
pub fn object_key(kind: ObjectSourceKind, path: &str) -> (r: String)
    ensures
        r@ == match kind {
            ObjectSourceKind::Object => path@,
            ObjectSourceKind::Internal => "[internal] "@ + path@,
        },
{
    match kind {
        ObjectSourceKind::Object => path.to_owned(),
        ObjectSourceKind::Internal => {
            let mut out = chars_of("[internal] ");
            push_str_chars(&mut out, path);
            string_of(&out)
        },
    }
}

/// The diff key of a source file.
pub fn source_file_key(path: &str) -> (r: String)
    ensures
        r@ == path@,
{
    path.to_owned()
}

/// The diff key of a function: `path::name` when its file is known.
pub fn function_key(path: Option<&str>, raw_name: &str) -> (r: String)
    ensures
        r@ == match path {
            Some(p) => p@ + "::"@ + raw_name@,
            None => raw_name@,
        },
{
    match path {
        Some(p) => {
            let mut out = chars_of(p);
            push_str_chars(&mut out, "::");
            push_str_chars(&mut out, raw_name);
            string_of(&out)
        },
        None => raw_name.to_owned(),
    }
}

/// The diff key of a line range: `path:start-end`.
pub fn line_key(path: &str, line_start: u64, line_end: u64) -> (r: String)
    ensures
        r@ == path@ + seq![':'] + dec(line_start as nat) + seq!['-'] + dec(line_end as nat),
{
    let mut out = chars_of(path);
    out.push(':');
    push_dec(&mut out, line_start);
    out.push('-');
    push_dec(&mut out, line_end);
    string_of(&out)
}

/// The diff key of an archive member: `archive:member`, or the archive alone.
pub fn archive_member_key(item: &ArchiveContribution) -> (r: String)
    ensures
        r@ == match item.member_path {
            Some(m) => item.archive_path@ + seq![':'] + m@,
            None => item.archive_path@,
        },
{
    match &item.member_path {
        Some(member) => {
            let mut out = chars_of(item.archive_path.as_str());
            out.push(':');
            push_str_chars(&mut out, member.as_str());
            string_of(&out)
        },
        None => copy_string(&item.archive_path),
    }
}

// ---------------------------------------------------------------------------
// Entries
// ---------------------------------------------------------------------------
/// Rank of a change when changes of equal size are listed.
pub open spec fn change_rank(k: DiffChangeKind) -> int {
    match k {
        DiffChangeKind::Added => 0,
        DiffChangeKind::Increased => 1,
        DiffChangeKind::Removed => 2,
        DiffChangeKind::Decreased => 3,
        DiffChangeKind::Unchanged => 4,
        DiffChangeKind::Moved => 5,
    }
}

/// `|d|`.
pub open spec fn abs(d: int) -> int {
    if d < 0 {
        -d
    } else {
        d
    }
}

/// Entries list the largest changes first, then by kind of change, then by name.
impl SortKey for DiffEntry {
    open spec fn key_le(self, other: Self) -> bool {
        abs(self.delta as int) > abs(other.delta as int) || (abs(self.delta as int) == abs(
            other.delta as int,
        ) && (change_rank(self.change) < change_rank(other.change) || (change_rank(self.change)
            == change_rank(other.change) && lex_le(self.name@, other.name@))))
    }

    proof fn lemma_key_total(a: Self, b: Self) {
        lemma_lex_le_total(a.name@, b.name@);
    }

    proof fn lemma_key_transitive(a: Self, b: Self, c: Self) {
        if abs(a.delta as int) == abs(b.delta as int) && abs(b.delta as int) == abs(c.delta as int)
            && change_rank(a.change) == change_rank(b.change) && change_rank(b.change) == change_rank(
            c.change,
        ) {
            lemma_lex_le_transitive(a.name@, b.name@, c.name@);
        }
    }

    fn exec_key_le(&self, other: &Self) -> (r: bool) {
        let a = if self.delta < 0 {
            -(self.delta as i128)
        } else {
            self.delta as i128
        };
        let b = if other.delta < 0 {
            -(other.delta as i128)
        } else {
            other.delta as i128
        };
        if a != b {
            return a > b;
        }
        let ra = rank_of(self.change);
        let rb = rank_of(other.change);
        if ra != rb {
            return ra < rb;
        }
        str_le(&self.name, &other.name)
    }
}

/// Rank of a change (see `change_rank`).
fn rank_of(k: DiffChangeKind) -> (r: u8)
    ensures
        r as int == change_rank(k),
{
    match k {
        DiffChangeKind::Added => 0,
        DiffChangeKind::Increased => 1,
        DiffChangeKind::Removed => 2,
        DiffChangeKind::Decreased => 3,
        DiffChangeKind::Unchanged => 4,
        DiffChangeKind::Moved => 5,
    }
}

/// The change between a size before and after.
pub open spec fn change_of(current: int, previous: int) -> DiffChangeKind {
    if current > 0 && previous == 0 {
        DiffChangeKind::Added
    } else if current == 0 && previous > 0 {
        DiffChangeKind::Removed
    } else if current - previous > 0 {
        DiffChangeKind::Increased
    } else if current - previous < 0 {
        DiffChangeKind::Decreased
    } else {
        DiffChangeKind::Unchanged
    }
}

/// The size of the last item named `name`.
pub open spec fn last_size(items: Seq<(Seq<char>, u64)>, name: Seq<char>) -> Option<u64>
    decreases items.len(),
{
    if items.len() == 0 {
        None
    } else if items.last().0 == name {
        Some(items.last().1)
    } else {
        last_size(items.drop_last(), name)
    }
}

/// Whether some item is named `name`.
pub open spec fn named_in(items: Seq<(Seq<char>, u64)>, name: Seq<char>) -> bool {
    exists|i: int| 0 <= i < items.len() && (#[trigger] items[i]).0 == name
}

/// `e` is the diff entry of its name.
pub open spec fn entry_for(e: DiffEntry, current: Seq<(Seq<char>, u64)>, previous: Seq<(Seq<char>, u64)>) -> bool {
    let c = match last_size(current, e.name@) {
        Some(x) => x as int,
        None => 0,
    };
    let p = match last_size(previous, e.name@) {
        Some(x) => x as int,
        None => 0,
    };
    &&& e.current == c
    &&& e.previous == p
    &&& e.delta == c - p
    &&& e.change == change_of(c, p)
}

/// `es` holds exactly one entry for every name of either list.
pub open spec fn entries_for(es: Seq<DiffEntry>, current: Seq<(Seq<char>, u64)>, previous: Seq<(Seq<char>, u64)>) -> bool {
    &&& forall|i: int, j: int| 0 <= i < j < es.len() ==> es[i].name@ != es[j].name@
    &&& forall|i: int|
        0 <= i < es.len() ==> entry_for(#[trigger] es[i], current, previous) && (named_in(
            current,
            es[i].name@,
        ) || named_in(previous, es[i].name@))
    &&& forall|n: Seq<char>|
        #![trigger named_in(current, n)]
        #![trigger named_in(previous, n)]
        named_in(current, n) || named_in(previous, n) ==> exists|i: int|
            0 <= i < es.len() && (#[trigger] es[i]).name@ == n
}

/// Names and sizes as texts.
pub open spec fn pairs_view(v: Seq<(String, u64)>) -> Seq<(Seq<char>, u64)> {
    v.map_values(|x: (String, u64)| (x.0@, x.1))
}

/// Sizes fit the signed difference.
pub open spec fn sizes_fit(items: Seq<(Seq<char>, u64)>) -> bool {
    forall|i: int| 0 <= i < items.len() ==> (#[trigger] items[i]).1 <= i64::MAX
}

/// The size of the last item named `name`, or zero.
pub open spec fn size_or_zero(items: Seq<(Seq<char>, u64)>, name: Seq<char>) -> int {
    match last_size(items, name) {
        Some(x) => x as int,
        None => 0,
    }
}

/// What the merge table holds after reading `current` and a prefix of `previous`.
pub open spec fn table_ok(
    t: Seq<(String, u64, u64)>,
    current: Seq<(Seq<char>, u64)>,
    previous: Seq<(Seq<char>, u64)>,
) -> bool {
    &&& forall|i: int, j: int| 0 <= i < j < t.len() ==> t[i].0@ != t[j].0@
    &&& forall|k: int|
        0 <= k < t.len() ==> (#[trigger] t[k]).1 == size_or_zero(current, t[k].0@) && t[k].2
            == size_or_zero(previous, t[k].0@) && (named_in(current, t[k].0@) || named_in(
            previous,
            t[k].0@,
        ))
    &&& forall|n: Seq<char>|
        #![trigger named_in(current, n)]
        #![trigger named_in(previous, n)]
        named_in(current, n) || named_in(previous, n) ==> exists|k: int|
            0 <= k < t.len() && (#[trigger] t[k]).0@ == n
}

proof fn lemma_step(items: Seq<(Seq<char>, u64)>, i: int, n: Seq<char>)
    requires
        0 <= i < items.len(),
    ensures
        last_size(items.take(i + 1), n) == if items[i].0 == n {
            Some(items[i].1)
        } else {
            last_size(items.take(i), n)
        },
        named_in(items.take(i + 1), n) == (named_in(items.take(i), n) || items[i].0 == n),
{
    let a = items.take(i + 1);
    assert(a.drop_last() =~= items.take(i));
    assert(a.last() == items[i]);
    if named_in(a, n) {
        let k = choose|k: int| 0 <= k < a.len() && (#[trigger] a[k]).0 == n;
        if k < i {
            assert(items.take(i)[k] == a[k]);
        }
    }
    if named_in(items.take(i), n) {
        let k = choose|k: int| 0 <= k < i && (#[trigger] items.take(i)[k]).0 == n;
        assert(a[k] == items.take(i)[k]);
    }
    if items[i].0 == n {
        assert(a[i] == items[i]);
    }
}

/// Index of the table row named `name`, if any.
fn find_row(t: &Vec<(String, u64, u64)>, name: &String) -> (r: Option<usize>)
    ensures
        match r {
            Some(k) => k < t@.len() && t@[k as int].0@ == name@,
            None => forall|k: int| 0 <= k < t@.len() ==> (#[trigger] t@[k]).0@ != name@,
        },
{
    let mut k: usize = 0;
    while k < t.len()
        invariant
            k <= t.len(),
            forall|j: int| 0 <= j < k ==> (#[trigger] t@[j]).0@ != name@,
        decreases t.len() - k,
    {
        if str_eq(t[k].0.as_str(), name.as_str()) {
            return Some(k);
        }
        k += 1;
    }
    None
}

/// The diff entries of two lists of named sizes: one entry per name of
/// either list (the last size of a repeated name counts, a missing one is
/// zero), largest change first, then by kind of change, then by name.
pub fn diff_named(current: &Vec<(String, u64)>, previous: &Vec<(String, u64)>) -> (out: Vec<DiffEntry>)
    requires
        sizes_fit(pairs_view(current@)),
        sizes_fit(pairs_view(previous@)),
    ensures
        exists|es: Seq<DiffEntry>|
            #[trigger] entries_for(es, pairs_view(current@), pairs_view(previous@)) && out@ == sorted_by_key(es),
{
    let ghost cur = pairs_view(current@);
    let ghost prev = pairs_view(previous@);
    let mut t: Vec<(String, u64, u64)> = Vec::new();
    let ghost empty: Seq<(Seq<char>, u64)> = Seq::empty();
    let mut i: usize = 0;
    assert(cur.take(0) =~= empty);
    while i < current.len()
        invariant
            i <= current.len(),
            empty == Seq::<(Seq<char>, u64)>::empty(),
            table_ok(t@, cur.take(i as int), empty),
            cur == pairs_view(current@),
        decreases current.len() - i,
    {
        let ghost pre = cur.take(i as int);
        let ghost next = cur.take(i + 1);
        let ghost old_t = t@;
        assert forall|n: Seq<char>| true implies last_size(next, n) == (if cur[i as int].0 == n {
            Some(cur[i as int].1)
        } else {
            last_size(pre, n)
        }) && named_in(next, n) == (named_in(pre, n) || cur[i as int].0 == n) by {
            lemma_step(cur, i as int, n);
        }
        assert forall|n: Seq<char>| !named_in(empty, n) by {}
        match find_row(&t, &current[i].0) {
            Some(k) => {
                let row = (copy_string(&t[k].0), current[i].1, t[k].2);
                t.set(k, row);
                assert(table_ok(t@, next, empty)) by {
                    assert forall|n: Seq<char>|
                        #![trigger named_in(next, n)]
                        #![trigger named_in(empty, n)]
                        named_in(next, n) || named_in(empty, n) implies exists|m: int|
                        0 <= m < t@.len() && (#[trigger] t@[m]).0@ == n by {
                        if named_in(pre, n) {
                            let m = choose|m: int| 0 <= m < old_t.len() && (#[trigger] old_t[m]).0@ == n;
                            assert(t@[m].0@ == n);
                        } else {
                            assert(t@[k as int].0@ == n);
                        }
                    }
                }
            },
            None => {
                t.push((copy_string(&current[i].0), current[i].1, 0));
                assert(table_ok(t@, next, empty)) by {
                    assert forall|n: Seq<char>|
                        #![trigger named_in(next, n)]
                        #![trigger named_in(empty, n)]
                        named_in(next, n) || named_in(empty, n) implies exists|m: int|
                        0 <= m < t@.len() && (#[trigger] t@[m]).0@ == n by {
                        if named_in(pre, n) {
                            let m = choose|m: int| 0 <= m < old_t.len() && (#[trigger] old_t[m]).0@ == n;
                            assert(t@[m] == old_t[m]);
                        } else {
                            assert(t@[old_t.len() as int].0@ == n);
                        }
                    }
                    assert forall|a: int, b: int| 0 <= a < b < t@.len() implies t@[a].0@ != t@[b].0@ by {
                        if b == old_t.len() {
                            assert(t@[a] == old_t[a]);
                        }
                    }
                    assert forall|k: int| 0 <= k < t@.len() implies (#[trigger] t@[k]).1 == size_or_zero(next, t@[k].0@)
                        && t@[k].2 == size_or_zero(empty, t@[k].0@) && (named_in(next, t@[k].0@) || named_in(empty, t@[k].0@)) by {
                        if k < old_t.len() {
                            assert(t@[k] == old_t[k]);
                        }
                    }
                }
            },
        }
        i += 1;
    }
    assert(cur.take(current.len() as int) =~= cur);
    let mut j: usize = 0;
    assert(prev.take(0) =~= empty);
    assert(table_ok(t@, cur, prev.take(0)));
    while j < previous.len()
        invariant
            j <= previous.len(),
            table_ok(t@, cur, prev.take(j as int)),
            cur == pairs_view(current@),
            prev == pairs_view(previous@),
        decreases previous.len() - j,
    {
        let ghost pre = prev.take(j as int);
        let ghost next = prev.take(j + 1);
        let ghost old_t = t@;
        assert forall|n: Seq<char>| true implies last_size(next, n) == (if prev[j as int].0 == n {
            Some(prev[j as int].1)
        } else {
            last_size(pre, n)
        }) && named_in(next, n) == (named_in(pre, n) || prev[j as int].0 == n) by {
            lemma_step(prev, j as int, n);
        }
        match find_row(&t, &previous[j].0) {
            Some(k) => {
                let row = (copy_string(&t[k].0), t[k].1, previous[j].1);
                t.set(k, row);
                assert(table_ok(t@, cur, next)) by {
                    assert forall|q: int| 0 <= q < t@.len() implies (#[trigger] t@[q]).1 == size_or_zero(cur, t@[q].0@)
                        && t@[q].2 == size_or_zero(next, t@[q].0@) && (named_in(cur, t@[q].0@) || named_in(next, t@[q].0@)) by {
                        if q != k {
                            assert(t@[q] == old_t[q]);
                            assert(old_t[q].0@ != old_t[k as int].0@);
                        }
                    }
                    assert forall|n: Seq<char>|
                        #![trigger named_in(cur, n)]
                        #![trigger named_in(next, n)]
                        named_in(cur, n) || named_in(next, n) implies exists|m: int|
                        0 <= m < t@.len() && (#[trigger] t@[m]).0@ == n by {
                        if named_in(cur, n) || named_in(pre, n) {
                            let m = choose|m: int| 0 <= m < old_t.len() && (#[trigger] old_t[m]).0@ == n;
                            assert(t@[m].0@ == n);
                        } else {
                            assert(t@[k as int].0@ == n);
                        }
                    }
                }
            },
            None => {
                t.push((copy_string(&previous[j].0), 0, previous[j].1));
                assert(table_ok(t@, cur, next)) by {
                    assert forall|n: Seq<char>|
                        #![trigger named_in(cur, n)]
                        #![trigger named_in(next, n)]
                        named_in(cur, n) || named_in(next, n) implies exists|m: int|
                        0 <= m < t@.len() && (#[trigger] t@[m]).0@ == n by {
                        if named_in(cur, n) || named_in(pre, n) {
                            let m = choose|m: int| 0 <= m < old_t.len() && (#[trigger] old_t[m]).0@ == n;
                            assert(t@[m] == old_t[m]);
                        } else {
                            assert(t@[old_t.len() as int].0@ == n);
                        }
                    }
                    assert forall|a: int, b: int| 0 <= a < b < t@.len() implies t@[a].0@ != t@[b].0@ by {
                        if b == old_t.len() {
                            assert(t@[a] == old_t[a]);
                        }
                    }
                    assert forall|k: int| 0 <= k < t@.len() implies (#[trigger] t@[k]).1 == size_or_zero(cur, t@[k].0@)
                        && t@[k].2 == size_or_zero(next, t@[k].0@) && (named_in(cur, t@[k].0@) || named_in(next, t@[k].0@)) by {
                        if k < old_t.len() {
                            assert(t@[k] == old_t[k]);
                            assert(old_t[k].0@ != prev[j as int].0);
                        } else {
                            assert(!named_in(cur, t@[k].0@) ==> last_size(cur, t@[k].0@) is None) by {
                                lemma_last_size_named(cur, t@[k].0@);
                            }
                        }
                    }
                }
            },
        }
        j += 1;
    }
    assert(prev.take(previous.len() as int) =~= prev);
    let mut es: Vec<DiffEntry> = Vec::new();
    let mut m: usize = 0;
    while m < t.len()
        invariant
            m <= t.len(),
            table_ok(t@, cur, prev),
            cur == pairs_view(current@),
            prev == pairs_view(previous@),
            sizes_fit(cur),
            sizes_fit(prev),
            es@.len() == m,
            forall|k: int|
                0 <= k < m ==> (#[trigger] es@[k]).name@ == t@[k].0@ && entry_for(es@[k], cur, prev),
        decreases t.len() - m,
    {
        proof {
            lemma_size_bound(cur, t@[m as int].0@);
            lemma_size_bound(prev, t@[m as int].0@);
        }
        let c = t[m].1;
        let p = t[m].2;
        let delta: i64 = (c as i64) - (p as i64);
        let change = if c > 0 && p == 0 {
            DiffChangeKind::Added
        } else if c == 0 && p > 0 {
            DiffChangeKind::Removed
        } else if delta > 0 {
            DiffChangeKind::Increased
        } else if delta < 0 {
            DiffChangeKind::Decreased
        } else {
            DiffChangeKind::Unchanged
        };
        es.push(DiffEntry { name: copy_string(&t[m].0), current: c, previous: p, delta, change });
        m += 1;
    }
    let ghost unsorted = es@;
    assert(entries_for(unsorted, cur, prev)) by {
        assert forall|n: Seq<char>|
            #![trigger named_in(cur, n)]
            #![trigger named_in(prev, n)]
            named_in(cur, n) || named_in(prev, n) implies exists|i: int|
            0 <= i < unsorted.len() && (#[trigger] unsorted[i]).name@ == n by {
            let k = choose|k: int| 0 <= k < t@.len() && (#[trigger] t@[k]).0@ == n;
            assert(unsorted[k].name@ == n);
        }
        assert forall|a: int, b: int| 0 <= a < b < unsorted.len() implies unsorted[a].name@ != unsorted[b].name@ by {
            assert(t@[a].0@ != t@[b].0@);
        }
    }
    sort_by_key(es)
}

/// A recorded size is one of the items' sizes, so it fits the signed difference.
proof fn lemma_size_bound(items: Seq<(Seq<char>, u64)>, n: Seq<char>)
    requires
        sizes_fit(items),
    ensures
        0 <= size_or_zero(items, n) <= i64::MAX,
    decreases items.len(),
{
    if items.len() > 0 && items.last().0 != n {
        assert(sizes_fit(items.drop_last())) by {
            assert forall|i: int| 0 <= i < items.drop_last().len() implies (#[trigger] items.drop_last()[i]).1 <= i64::MAX by {
                assert(items.drop_last()[i] == items[i]);
            }
        }
        lemma_size_bound(items.drop_last(), n);
    } else if items.len() > 0 {
        assert(items.last() == items[items.len() - 1]);
    }
}

/// A name that no item has has no size.
proof fn lemma_last_size_named(items: Seq<(Seq<char>, u64)>, n: Seq<char>)
    ensures
        !named_in(items, n) ==> last_size(items, n) is None,
    decreases items.len(),
{
    if items.len() > 0 {
        if !named_in(items, n) {
            assert(items.last() == items[items.len() - 1]);
            assert(!named_in(items.drop_last(), n)) by {
                if named_in(items.drop_last(), n) {
                    let k = choose|k: int| 0 <= k < items.drop_last().len() && (#[trigger] items.drop_last()[k]).0 == n;
                    assert(items[k] == items.drop_last()[k]);
                }
            }
        }
        lemma_last_size_named(items.drop_last(), n);
    }
}

// ---------------------------------------------------------------------------
// Selections
// ---------------------------------------------------------------------------
/// The entries that grew (added or increased), in order.
pub open spec fn growth(entries: Seq<DiffEntry>) -> Seq<DiffEntry>
    decreases entries.len(),
{
    if entries.len() == 0 {
        Seq::empty()
    } else {
        let rest = growth(entries.drop_last());
        let e = entries.last();
        if e.change == DiffChangeKind::Added || e.change == DiffChangeKind::Increased {
            rest.push(e)
        } else {
            rest
        }
    }
}

/// The entries of one kind of change, in order.
pub open spec fn of_kind(entries: Seq<DiffEntry>, kind: DiffChangeKind) -> Seq<DiffEntry>
    decreases entries.len(),
{
    if entries.len() == 0 {
        Seq::empty()
    } else {
        let rest = of_kind(entries.drop_last(), kind);
        if entries.last().change == kind {
            rest.push(entries.last())
        } else {
            rest
        }
    }
}

/// At most the first `limit` items.
pub open spec fn first_n<T>(s: Seq<T>, limit: usize) -> Seq<T> {
    if s.len() <= limit {
        s
    } else {
        s.take(limit as int)
    }
}

/// Copies an entry.
fn copy_entry(e: &DiffEntry) -> (out: DiffEntry)
    ensures
        out == *e,
{
    DiffEntry {
        name: copy_string(&e.name),
        current: e.current,
        previous: e.previous,
        delta: e.delta,
        change: e.change,
    }
}

/// The first `limit` entries that grew, in list order.
pub fn top_increases(entries: &Vec<DiffEntry>, limit: usize) -> (out: Vec<DiffEntry>)
    ensures
        out@ == first_n(growth(entries@), limit),
{
    let mut out: Vec<DiffEntry> = Vec::new();
    let mut i: usize = 0;
    while i < entries.len() && out.len() < limit
        invariant
            i <= entries.len(),
            out@.len() <= limit,
            out@ == growth(entries@.take(i as int)),
        decreases entries.len() - i,
    {
        assert(entries@.take(i + 1).drop_last() =~= entries@.take(i as int));
        assert(entries@.take(i + 1).last() == entries@[i as int]);
        let e = &entries[i];
        if e.change == DiffChangeKind::Added || e.change == DiffChangeKind::Increased {
            out.push(copy_entry(e));
        }
        i += 1;
    }
    proof {
        lemma_growth_extends(entries@, i as int, limit);
    }
    out
}

/// Once `limit` entries have grown, later entries do not change the first `limit`.
proof fn lemma_growth_extends(entries: Seq<DiffEntry>, i: int, limit: usize)
    requires
        0 <= i <= entries.len(),
        i == entries.len() || growth(entries.take(i)).len() >= limit,
        growth(entries.take(i)).len() <= limit,
    ensures
        first_n(growth(entries), limit) == growth(entries.take(i)),
{
    if i == entries.len() {
        assert(entries.take(i) =~= entries);
    } else {
        lemma_growth_prefix(entries, i, entries.len() as int);
        assert(entries.take(entries.len() as int) =~= entries);
        assert(growth(entries).take(limit as int) =~= growth(entries.take(i)));
        if growth(entries).len() == limit {
            assert(growth(entries) =~= growth(entries).take(limit as int));
        }
    }
}

/// The growth of a prefix is a prefix of the growth.
proof fn lemma_growth_prefix(entries: Seq<DiffEntry>, i: int, j: int)
    requires
        0 <= i <= j <= entries.len(),
    ensures
        growth(entries.take(j)).len() >= growth(entries.take(i)).len(),
        growth(entries.take(j)).take(growth(entries.take(i)).len() as int) == growth(entries.take(i)),
    decreases j - i,
{
    if i == j {
        assert(growth(entries.take(j)).take(growth(entries.take(i)).len() as int) =~= growth(entries.take(i)));
    } else {
        lemma_growth_prefix(entries, i, j - 1);
        assert(entries.take(j).drop_last() =~= entries.take(j - 1));
        let gi = growth(entries.take(i));
        let gj1 = growth(entries.take(j - 1));
        let gj = growth(entries.take(j));
        assert(gj.take(gi.len() as int) =~= gj1.take(gi.len() as int));
    }
    if j == entries.len() {
        assert(entries.take(j) =~= entries);
    }
}

/// The names of the first `limit` entries of one kind, in list order.
pub fn names_for_kind(entries: &Vec<DiffEntry>, kind: DiffChangeKind, limit: usize) -> (out: Vec<String>)
    ensures
        out@.len() == first_n(of_kind(entries@, kind), limit).len(),
        forall|i: int| 0 <= i < out@.len() ==> #[trigger] out@[i] == of_kind(entries@, kind)[i].name,
{
    let mut all: Vec<DiffEntry> = Vec::new();
    let mut i: usize = 0;
    while i < entries.len()
        invariant
            i <= entries.len(),
            all@ == of_kind(entries@.take(i as int), kind),
        decreases entries.len() - i,
    {
        assert(entries@.take(i + 1).drop_last() =~= entries@.take(i as int));
        assert(entries@.take(i + 1).last() == entries@[i as int]);
        if entries[i].change == kind {
            all.push(copy_entry(&entries[i]));
        }
        i += 1;
    }
    assert(entries@.take(entries.len() as int) =~= entries@);
    let mut out: Vec<String> = Vec::new();
    let mut k: usize = 0;
    while k < all.len() && k < limit
        invariant
            k <= all.len(),
            k <= limit,
            all@ == of_kind(entries@, kind),
            out@.len() == k,
            forall|j: int| 0 <= j < k ==> #[trigger] out@[j] == all@[j].name,
        decreases all.len() - k,
    {
        out.push(copy_string(&all[k].name));
        k += 1;
    }
    out
}

/// The number of entries of one kind.
pub fn count_kind(entries: &Vec<DiffEntry>, kind: DiffChangeKind) -> (n: usize)
    ensures
        n == of_kind(entries@, kind).len(),
{
    let mut n: usize = 0;
    let mut i: usize = 0;
    while i < entries.len()
        invariant
            i <= entries.len(),
            n == of_kind(entries@.take(i as int), kind).len(),
            n <= i,
        decreases entries.len() - i,
    {
        assert(entries@.take(i + 1).drop_last() =~= entries@.take(i as int));
        assert(entries@.take(i + 1).last() == entries@[i as int]);
        if entries[i].change == kind {
            n += 1;
        }
        i += 1;
    }
    assert(entries@.take(entries.len() as int) =~= entries@);
    n
}

// ---------------------------------------------------------------------------
// Laws
// ---------------------------------------------------------------------------
/// Comparing an analysis with itself shows no change.
pub proof fn law_self_diff_is_unchanged(items: Seq<(Seq<char>, u64)>, es: Seq<DiffEntry>)
    requires
        entries_for(es, items, items),
    ensures
        forall|i: int|
            0 <= i < es.len() ==> (#[trigger] es[i]).change == DiffChangeKind::Unchanged && es[i].delta
                == 0,
{
    assert forall|i: int| 0 <= i < es.len() implies (#[trigger] es[i]).change == DiffChangeKind::Unchanged
        && es[i].delta == 0 by {
        assert(entry_for(es[i], items, items));
    }
}

/// Swapping the two analyses swaps sizes, negates the change and turns
/// additions into removals (and back).
pub proof fn law_swap_negates(e: DiffEntry, f: DiffEntry, a: Seq<(Seq<char>, u64)>, b: Seq<(Seq<char>, u64)>)
    requires
        entry_for(e, a, b),
        entry_for(f, b, a),
        e.name@ == f.name@,
    ensures
        f.current == e.previous,
        f.previous == e.current,
        f.delta == -e.delta,
        e.change == DiffChangeKind::Added <==> f.change == DiffChangeKind::Removed,
        e.change == DiffChangeKind::Increased <==> f.change == DiffChangeKind::Decreased,
        e.change == DiffChangeKind::Unchanged <==> f.change == DiffChangeKind::Unchanged,
{
}

/// The entries of a diff list every name once, largest change first.
pub proof fn law_diff_is_ranked(es: Seq<DiffEntry>, a: Seq<(Seq<char>, u64)>, b: Seq<(Seq<char>, u64)>)
    requires
        entries_for(es, a, b),
    ensures
        is_sorted(sorted_by_key(es)),
        sorted_by_key(es).to_multiset() == es.to_multiset(),
{
    lemma_sorted_by_key_is_sorted(es);
    lemma_sorted_by_key_permutes(es);
}

// ---------------------------------------------------------------------------
// Whole analyses
// ---------------------------------------------------------------------------
/// What a comparison of two analyses reads from each of them.
#[derive(Debug, Clone, PartialEq, Eq)]
pub struct AnalysisSnapshot {
    pub rom_bytes: u64,
    pub ram_bytes: u64,
    pub section_totals: Vec<SectionTotal>,
    pub symbols: Vec<SymbolInfo>,
    pub object_contributions: Vec<ObjectContribution>,
    pub archive_contributions: Vec<ArchiveContribution>,
    pub source_files: Vec<SourceFile>,
    pub function_attributions: Vec<FunctionAttribution>,
    pub line_hotspots: Vec<LineRangeAttribution>,
    pub cpp_view: CppView,
    pub unknown_source_size: u64,
}

/// `out` is the ranked diff of two lists of named sizes.
pub open spec fn is_diff(out: Seq<DiffEntry>, current: Seq<(Seq<char>, u64)>, previous: Seq<(Seq<char>, u64)>) -> bool {
    exists|es: Seq<DiffEntry>| #[trigger] entries_for(es, current, previous) && out == sorted_by_key(es)
}

/// Key text of an object contribution.
pub open spec fn object_key_text(kind: ObjectSourceKind, path: Seq<char>) -> Seq<char> {
    match kind {
        ObjectSourceKind::Object => path,
        ObjectSourceKind::Internal => "[internal] "@ + path,
    }
}

/// Key text of a function attribution.
pub open spec fn function_key_text(path: Option<Seq<char>>, raw: Seq<char>) -> Seq<char> {
    match path {
        Some(p) => p + "::"@ + raw,
        None => raw,
    }
}

/// Key text of an archive contribution.
pub open spec fn archive_key_text(item: ArchiveContribution) -> Seq<char> {
    match item.member_path {
        Some(m) => item.archive_path@ + seq![':'] + m@,
        None => item.archive_path@,
    }
}

/// Named sizes of the section totals.
pub open spec fn section_items(v: Seq<SectionTotal>) -> Seq<(Seq<char>, u64)> {
    v.map_values(|x: SectionTotal| (x.section_name@, x.size))
}

/// Named sizes of the symbols.
pub open spec fn symbol_items(v: Seq<SymbolInfo>) -> Seq<(Seq<char>, u64)> {
    v.map_values(|x: SymbolInfo| (x.name@, x.size))
}

/// Named sizes of the object contributions.
pub open spec fn object_items(v: Seq<ObjectContribution>) -> Seq<(Seq<char>, u64)> {
    v.map_values(|x: ObjectContribution| (object_key_text(x.source_kind, x.object_path@), x.size))
}

/// Named sizes of the archive contributions.
pub open spec fn archive_items(v: Seq<ArchiveContribution>) -> Seq<(Seq<char>, u64)> {
    v.map_values(|x: ArchiveContribution| (archive_key_text(x), x.size))
}

/// Named sizes of the source files.
pub open spec fn source_file_items(v: Seq<SourceFile>) -> Seq<(Seq<char>, u64)> {
    v.map_values(|x: SourceFile| (x.path@, x.size))
}

/// Named sizes of the function attributions.
pub open spec fn function_items(v: Seq<FunctionAttribution>) -> Seq<(Seq<char>, u64)> {
    v.map_values(
        |x: FunctionAttribution|
            (
                function_key_text(
                    match x.path {
                        Some(p) => Some(p@),
                        None => None,
                    },
                    x.raw_name@,
                ),
                x.size,
            ),
    )
}

/// Named sizes of the line hotspots.
pub open spec fn line_items(v: Seq<LineRangeAttribution>) -> Seq<(Seq<char>, u64)> {
    v.map_values(
        |x: LineRangeAttribution|
            (x.path@ + seq![':'] + dec(x.line_start as nat) + seq!['-'] + dec(x.line_end as nat), x.size),
    )
}

/// `out` is the ranked diff of the C++ groups of two views.
pub open spec fn is_group_diff(out: Seq<DiffEntry>, current: CppView, previous: CppView, g: CppGroupBy) -> bool {
    exists|a: Seq<(String, u64)>, b: Seq<(String, u64)>|
        #[trigger] is_group_sizes(a, current.classified_symbols@, g) && #[trigger] is_group_sizes(
            b,
            previous.classified_symbols@,
            g,
        ) && is_diff(out, pairs_view(a), pairs_view(b))
}

/// The counts of added, removed, increased and decreased entries of a list.
pub open spec fn counts_of(es: Seq<DiffEntry>) -> (int, int, int, int) {
    (
        of_kind(es, DiffChangeKind::Added).len() as int,
        of_kind(es, DiffChangeKind::Removed).len() as int,
        of_kind(es, DiffChangeKind::Increased).len() as int,
        of_kind(es, DiffChangeKind::Decreased).len() as int,
    )
}

/// Every size a snapshot lists fits the signed difference.
pub open spec fn snapshot_fits(s: AnalysisSnapshot) -> bool {
    &&& s.rom_bytes <= i64::MAX
    &&& s.ram_bytes <= i64::MAX
    &&& s.unknown_source_size <= i64::MAX
    &&& sizes_fit(section_items(s.section_totals@))
    &&& sizes_fit(symbol_items(s.symbols@))
    &&& sizes_fit(object_items(s.object_contributions@))
    &&& sizes_fit(archive_items(s.archive_contributions@))
    &&& sizes_fit(source_file_items(s.source_files@))
    &&& sizes_fit(function_items(s.function_attributions@))
    &&& sizes_fit(line_items(s.line_hotspots@))
    &&& summary_size_sum(s.cpp_view.classified_symbols@) <= i64::MAX
}

/// Diff of two lists of named sizes, given as owned pairs.
fn diff_pairs(current: Vec<(String, u64)>, previous: Vec<(String, u64)>) -> (out: Vec<DiffEntry>)
    requires
        sizes_fit(pairs_view(current@)),
        sizes_fit(pairs_view(previous@)),
    ensures
        is_diff(out@, pairs_view(current@), pairs_view(previous@)),
{
    diff_named(&current, &previous)
}

/// Group sizes of a view as a diff input.
fn cpp_sizes(view: &CppView, g: CppGroupBy) -> (out: Vec<(String, u64)>)
    requires
        summary_size_sum(view.classified_symbols@) <= i64::MAX,
    ensures
        is_group_sizes(out@, view.classified_symbols@, g),
        sizes_fit(pairs_view(out@)),
{
    let out = aggregate_group_sizes(view, g);
    assert forall|i: int| 0 <= i < pairs_view(out@).len() implies (#[trigger] pairs_view(out@)[i]).1 <= i64::MAX by {
        assert(out@[i].1 <= summary_size_sum(view.classified_symbols@));
    }
    out
}

/// The diff of the C++ groups of two views.
fn cpp_group_diff(current: &CppView, previous: &CppView, g: CppGroupBy) -> (out: Vec<DiffEntry>)
    requires
        summary_size_sum(current.classified_symbols@) <= i64::MAX,
        summary_size_sum(previous.classified_symbols@) <= i64::MAX,
    ensures
        is_group_diff(out@, *current, *previous, g),
{
    let a = cpp_sizes(current, g);
    let b = cpp_sizes(previous, g);
    let ghost av = a@;
    let ghost bv = b@;
    let out = diff_pairs(a, b);
    assert(is_group_sizes(av, current.classified_symbols@, g) && is_group_sizes(bv, previous.classified_symbols@, g) && is_diff(out@, pairs_view(av), pairs_view(bv)));
    out
}

/// Named sizes of the section totals, computed.
fn section_pairs(v: &Vec<SectionTotal>) -> (out: Vec<(String, u64)>)
    ensures
        pairs_view(out@) == section_items(v@),
{
    let mut out: Vec<(String, u64)> = Vec::new();
    let mut i: usize = 0;
    while i < v.len()
        invariant
            i <= v.len(),
            out@.len() == i,
            forall|j: int| 0 <= j < i ==> #[trigger] pairs_view(out@)[j] == section_items(v@)[j],
        decreases v.len() - i,
    {
        let ghost old_out = out@;
        out.push((section_key(v[i].section_name.as_str()), v[i].size));
        proof {
            assert forall|j: int| 0 <= j < i + 1 implies #[trigger] pairs_view(out@)[j] == section_items(v@)[j] by {
                if j < i {
                    assert(out@[j] == old_out[j]);
                    assert(pairs_view(old_out)[j] == section_items(v@)[j]);
                }
            }
        }
        i += 1;
    }
    assert(pairs_view(out@) =~= section_items(v@));
    out
}

/// Named sizes of the symbols, computed.
fn symbol_pairs(v: &Vec<SymbolInfo>) -> (out: Vec<(String, u64)>)
    ensures
        pairs_view(out@) == symbol_items(v@),
{
    let mut out: Vec<(String, u64)> = Vec::new();
    let mut i: usize = 0;
    while i < v.len()
        invariant
            i <= v.len(),
            out@.len() == i,
            forall|j: int| 0 <= j < i ==> #[trigger] pairs_view(out@)[j] == symbol_items(v@)[j],
        decreases v.len() - i,
    {
        let ghost old_out = out@;
        out.push((symbol_key(v[i].name.as_str()), v[i].size));
        proof {
            assert forall|j: int| 0 <= j < i + 1 implies #[trigger] pairs_view(out@)[j] == symbol_items(v@)[j] by {
                if j < i {
                    assert(out@[j] == old_out[j]);
                    assert(pairs_view(old_out)[j] == symbol_items(v@)[j]);
                }
            }
        }
        i += 1;
    }
    assert(pairs_view(out@) =~= symbol_items(v@));
    out
}

/// Named sizes of the object contributions, computed.
fn object_pairs(v: &Vec<ObjectContribution>) -> (out: Vec<(String, u64)>)
    ensures
        pairs_view(out@) == object_items(v@),
{
    let mut out: Vec<(String, u64)> = Vec::new();
    let mut i: usize = 0;
    while i < v.len()
        invariant
            i <= v.len(),
            out@.len() == i,
            forall|j: int| 0 <= j < i ==> #[trigger] pairs_view(out@)[j] == object_items(v@)[j],
        decreases v.len() - i,
    {
        let ghost old_out = out@;
        out.push((object_key(v[i].source_kind, v[i].object_path.as_str()), v[i].size));
        proof {
            assert forall|j: int| 0 <= j < i + 1 implies #[trigger] pairs_view(out@)[j] == object_items(v@)[j] by {
                if j < i {
                    assert(out@[j] == old_out[j]);
                    assert(pairs_view(old_out)[j] == object_items(v@)[j]);
                }
            }
        }
        i += 1;
    }
    assert(pairs_view(out@) =~= object_items(v@));
    out
}

/// Named sizes of the archive contributions, computed.
fn archive_pairs(v: &Vec<ArchiveContribution>) -> (out: Vec<(String, u64)>)
    ensures
        pairs_view(out@) == archive_items(v@),
{
    let mut out: Vec<(String, u64)> = Vec::new();
    let mut i: usize = 0;
    while i < v.len()
        invariant
            i <= v.len(),
            out@.len() == i,
            forall|j: int| 0 <= j < i ==> #[trigger] pairs_view(out@)[j] == archive_items(v@)[j],
        decreases v.len() - i,
    {
        let ghost old_out = out@;
        out.push((archive_member_key(&v[i]), v[i].size));
        proof {
            assert forall|j: int| 0 <= j < i + 1 implies #[trigger] pairs_view(out@)[j] == archive_items(v@)[j] by {
                if j < i {
                    assert(out@[j] == old_out[j]);
                    assert(pairs_view(old_out)[j] == archive_items(v@)[j]);
                }
            }
        }
        i += 1;
    }
    assert(pairs_view(out@) =~= archive_items(v@));
    out
}

/// Named sizes of the source files, computed.
fn source_file_pairs(v: &Vec<SourceFile>) -> (out: Vec<(String, u64)>)
    ensures
        pairs_view(out@) == source_file_items(v@),
{
    let mut out: Vec<(String, u64)> = Vec::new();
    let mut i: usize = 0;
    while i < v.len()
        invariant
            i <= v.len(),
            out@.len() == i,
            forall|j: int| 0 <= j < i ==> #[trigger] pairs_view(out@)[j] == source_file_items(v@)[j],
        decreases v.len() - i,
    {
        let ghost old_out = out@;
        out.push((source_file_key(v[i].path.as_str()), v[i].size));
        proof {
            assert forall|j: int| 0 <= j < i + 1 implies #[trigger] pairs_view(out@)[j] == source_file_items(v@)[j] by {
                if j < i {
                    assert(out@[j] == old_out[j]);
                    assert(pairs_view(old_out)[j] == source_file_items(v@)[j]);
                }
            }
        }
        i += 1;
    }
    assert(pairs_view(out@) =~= source_file_items(v@));
    out
}

/// Named sizes of the function attributions, computed.
fn function_pairs(v: &Vec<FunctionAttribution>) -> (out: Vec<(String, u64)>)
    ensures
        pairs_view(out@) == function_items(v@),
{
    let mut out: Vec<(String, u64)> = Vec::new();
    let mut i: usize = 0;
    while i < v.len()
        invariant
            i <= v.len(),
            out@.len() == i,
            forall|j: int| 0 <= j < i ==> #[trigger] pairs_view(out@)[j] == function_items(v@)[j],
        decreases v.len() - i,
    {
        let path: Option<&str> = match &v[i].path {
            Some(p) => Some(p.as_str()),
            None => None,
        };
        let ghost old_out = out@;
        out.push((function_key(path, v[i].raw_name.as_str()), v[i].size));
        proof {
            assert forall|j: int| 0 <= j < i + 1 implies #[trigger] pairs_view(out@)[j] == function_items(v@)[j] by {
                if j < i {
                    assert(out@[j] == old_out[j]);
                    assert(pairs_view(old_out)[j] == function_items(v@)[j]);
                }
            }
        }
        i += 1;
    }
    assert(pairs_view(out@) =~= function_items(v@));
    out
}

/// Named sizes of the line hotspots, computed.
fn line_pairs(v: &Vec<LineRangeAttribution>) -> (out: Vec<(String, u64)>)
    ensures
        pairs_view(out@) == line_items(v@),
{
    let mut out: Vec<(String, u64)> = Vec::new();
    let mut i: usize = 0;
    while i < v.len()
        invariant
            i <= v.len(),
            out@.len() == i,
            forall|j: int| 0 <= j < i ==> #[trigger] pairs_view(out@)[j] == line_items(v@)[j],
        decreases v.len() - i,
    {
        let ghost old_out = out@;
        out.push((line_key(v[i].path.as_str(), v[i].line_start, v[i].line_end), v[i].size));
        proof {
            assert forall|j: int| 0 <= j < i + 1 implies #[trigger] pairs_view(out@)[j] == line_items(v@)[j] by {
                if j < i {
                    assert(out@[j] == old_out[j]);
                    assert(pairs_view(old_out)[j] == line_items(v@)[j]);
                }
            }
        }
        i += 1;
    }
    assert(pairs_view(out@) =~= line_items(v@));
    out
}

/// Compares two analyses: the ROM, RAM and unknown-source deltas, a ranked
/// diff of every kind of named entry, and how many entries were added,
/// removed, increased and decreased.
pub fn diff_results(current: &AnalysisSnapshot, previous: &AnalysisSnapshot) -> (out: DiffResult)
    requires
        snapshot_fits(*current),
        snapshot_fits(*previous),
    ensures
        out.rom_delta == current.rom_bytes - previous.rom_bytes,
        out.ram_delta == current.ram_bytes - previous.ram_bytes,
        out.unknown_source_delta == current.unknown_source_size - previous.unknown_source_size,
        is_diff(out.section_diffs@, section_items(current.section_totals@), section_items(previous.section_totals@)),
        is_diff(out.symbol_diffs@, symbol_items(current.symbols@), symbol_items(previous.symbols@)),
        is_diff(
            out.object_diffs@,
            object_items(current.object_contributions@),
            object_items(previous.object_contributions@),
        ),
        is_diff(
            out.archive_diffs@,
            archive_items(current.archive_contributions@),
            archive_items(previous.archive_contributions@),
        ),
        is_diff(out.source_file_diffs@, source_file_items(current.source_files@), source_file_items(previous.source_files@)),
        is_diff(
            out.function_diffs@,
            function_items(current.function_attributions@),
            function_items(previous.function_attributions@),
        ),
        is_diff(out.line_diffs@, line_items(current.line_hotspots@), line_items(previous.line_hotspots@)),
        is_group_diff(out.cpp_template_family_diffs@, current.cpp_view, previous.cpp_view, CppGroupBy::CppTemplateFamily),
        is_group_diff(out.cpp_class_diffs@, current.cpp_view, previous.cpp_view, CppGroupBy::CppClass),
        is_group_diff(out.cpp_runtime_overhead_diffs@, current.cpp_view, previous.cpp_view, CppGroupBy::CppRuntimeOverhead),
        is_group_diff(out.cpp_lambda_group_diffs@, current.cpp_view, previous.cpp_view, CppGroupBy::CppLambdaGroup),
        counts_of(out.section_diffs@) == (out.summary.section_added as int, out.summary.section_removed as int, out.summary.section_increased as int, out.summary.section_decreased as int),
        counts_of(out.symbol_diffs@) == (out.summary.symbol_added as int, out.summary.symbol_removed as int, out.summary.symbol_increased as int, out.summary.symbol_decreased as int),
        counts_of(out.object_diffs@) == (out.summary.object_added as int, out.summary.object_removed as int, out.summary.object_increased as int, out.summary.object_decreased as int),
        counts_of(out.source_file_diffs@) == (out.summary.source_file_added as int, out.summary.source_file_removed as int, out.summary.source_file_increased as int, out.summary.source_file_decreased as int),
        counts_of(out.function_diffs@) == (out.summary.function_added as int, out.summary.function_removed as int, out.summary.function_increased as int, out.summary.function_decreased as int),
        counts_of(out.line_diffs@) == (out.summary.line_added as int, out.summary.line_removed as int, out.summary.line_increased as int, out.summary.line_decreased as int),
{
    let section_diffs = diff_pairs(section_pairs(&current.section_totals), section_pairs(&previous.section_totals));
    let symbol_diffs = diff_pairs(symbol_pairs(&current.symbols), symbol_pairs(&previous.symbols));
    let object_diffs = diff_pairs(
        object_pairs(&current.object_contributions),
        object_pairs(&previous.object_contributions),
    );
    let archive_diffs = diff_pairs(
        archive_pairs(&current.archive_contributions),
        archive_pairs(&previous.archive_contributions),
    );
    let source_file_diffs = diff_pairs(source_file_pairs(&current.source_files), source_file_pairs(&previous.source_files));
    let function_diffs = diff_pairs(
        function_pairs(&current.function_attributions),
        function_pairs(&previous.function_attributions),
    );
    let line_diffs = diff_pairs(line_pairs(&current.line_hotspots), line_pairs(&previous.line_hotspots));
    let cpp_template_family_diffs = cpp_group_diff(&current.cpp_view, &previous.cpp_view, CppGroupBy::CppTemplateFamily);
    let cpp_class_diffs = cpp_group_diff(&current.cpp_view, &previous.cpp_view, CppGroupBy::CppClass);
    let cpp_runtime_overhead_diffs = cpp_group_diff(&current.cpp_view, &previous.cpp_view, CppGroupBy::CppRuntimeOverhead);
    let cpp_lambda_group_diffs = cpp_group_diff(&current.cpp_view, &previous.cpp_view, CppGroupBy::CppLambdaGroup);
    let summary = DiffSummary {
        section_added: count_kind(&section_diffs, DiffChangeKind::Added),
        section_removed: count_kind(&section_diffs, DiffChangeKind::Removed),
        section_increased: count_kind(&section_diffs, DiffChangeKind::Increased),
        section_decreased: count_kind(&section_diffs, DiffChangeKind::Decreased),
        symbol_added: count_kind(&symbol_diffs, DiffChangeKind::Added),
        symbol_removed: count_kind(&symbol_diffs, DiffChangeKind::Removed),
        symbol_increased: count_kind(&symbol_diffs, DiffChangeKind::Increased),
        symbol_decreased: count_kind(&symbol_diffs, DiffChangeKind::Decreased),
        object_added: count_kind(&object_diffs, DiffChangeKind::Added),
        object_removed: count_kind(&object_diffs, DiffChangeKind::Removed),
        object_increased: count_kind(&object_diffs, DiffChangeKind::Increased),
        object_decreased: count_kind(&object_diffs, DiffChangeKind::Decreased),
        source_file_added: count_kind(&source_file_diffs, DiffChangeKind::Added),
        source_file_removed: count_kind(&source_file_diffs, DiffChangeKind::Removed),
        source_file_increased: count_kind(&source_file_diffs, DiffChangeKind::Increased),
        source_file_decreased: count_kind(&source_file_diffs, DiffChangeKind::Decreased),
        function_added: count_kind(&function_diffs, DiffChangeKind::Added),
        function_removed: count_kind(&function_diffs, DiffChangeKind::Removed),
        function_increased: count_kind(&function_diffs, DiffChangeKind::Increased),
        function_decreased: count_kind(&function_diffs, DiffChangeKind::Decreased),
        line_added: count_kind(&line_diffs, DiffChangeKind::Added),
        line_removed: count_kind(&line_diffs, DiffChangeKind::Removed),
        line_increased: count_kind(&line_diffs, DiffChangeKind::Increased),
        line_decreased: count_kind(&line_diffs, DiffChangeKind::Decreased),
    };
    DiffResult {
        rom_delta: current.rom_bytes as i64 - previous.rom_bytes as i64,
        ram_delta: current.ram_bytes as i64 - previous.ram_bytes as i64,
        unknown_source_delta: current.unknown_source_size as i64 - previous.unknown_source_size as i64,
        summary,
        section_diffs,
        symbol_diffs,
        object_diffs,
        archive_diffs,
        source_file_diffs,
        function_diffs,
        line_diffs,
        cpp_template_family_diffs,
        cpp_class_diffs,
        cpp_runtime_overhead_diffs,
        cpp_lambda_group_diffs,
    }
}

} // verus!
