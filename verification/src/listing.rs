//! Which rows the process list shows, and in what order.
//!
//! A listing is a sequence of positions among the rows that the system reported.

use vstd::prelude::*;
use vstd::seq_lib::lemma_multiset_commutative;

use crate::sort_key::{
    is_nan_bits, law_column_order, law_columns_compare_fields, law_search_finds_any_part,
    law_single_order, single_value, Key, RowKey, SortColumn,
};
use crate::text::{law_text_order_total, text_less};

verus! {

/// What some keys stand for.
pub open spec fn views(keys: Seq<RowKey>) -> Seq<Key> {
    Seq::new(keys.len(), |i: int| keys[i]@)
}

/// The positions, among the first `n` keys, of the rows that a search keeps.
pub open spec fn kept_among(keys: Seq<Key>, needle: Seq<char>, n: nat) -> Seq<usize>
    decreases n,
{
    if n == 0 {
        Seq::empty()
    } else {
        let before = kept_among(keys, needle, (n - 1) as nat);
        if keys[n - 1].matches(needle) {
            before.push((n - 1) as usize)
        } else {
            before
        }
    }
}

/// The positions of the rows that a search keeps, in the order of the keys.
pub open spec fn kept(keys: Seq<Key>, needle: Seq<char>) -> Seq<usize> {
    kept_among(keys, needle, keys.len())
}

/// Whether the row at `i` is to be shown before the row at `j`: it stands above
/// it in the sorted column, or level with it and was reported earlier.
pub open spec fn shown_before(
    keys: Seq<Key>,
    column: SortColumn,
    ascending: bool,
    i: usize,
    j: usize,
) -> bool {
    let (a, b) = (keys[i as int], keys[j as int]);
    a.above(b, column, ascending) || (!b.above(a, column, ascending) && i < j)
}

/// Whether a listing is sorted, rows that compare equal keeping their order.
pub open spec fn is_sorted(
    keys: Seq<Key>,
    column: SortColumn,
    ascending: bool,
    listing: Seq<usize>,
) -> bool {
    forall|a: int, b: int|
        0 <= a < b < listing.len() ==> shown_before(
            keys,
            column,
            ascending,
            #[trigger] listing[a],
            #[trigger] listing[b],
        )
}

/// Whether every row that is listed has a place in the order of `column`.
pub open spec fn all_have_place(
    keys: Seq<Key>,
    column: SortColumn,
    listing: Seq<usize>,
) -> bool {
    forall|k: int|
        0 <= k < listing.len() ==> keys[#[trigger] listing[k] as int].has_place(column)
}

/// Whether every row that is listed can be compared in `column`.
pub open spec fn all_fit(keys: Seq<Key>, column: SortColumn, listing: Seq<usize>) -> bool {
    column is Disk ==> forall|k: int|
        0 <= k < listing.len() ==> keys[#[trigger] listing[k] as int].disk_fits()
}

/// Whether a listing holds positions of `keys` only.
pub open spec fn in_range(keys: Seq<Key>, listing: Seq<usize>) -> bool {
    forall|k: int| 0 <= k < listing.len() ==> (#[trigger] listing[k]) < keys.len()
}

/// Whether the positions in a listing go up.
pub open spec fn goes_up(listing: Seq<usize>) -> bool {
    forall|a: int, b: int|
        0 <= a < b < listing.len() ==> #[trigger] listing[a] < #[trigger] listing[b]
}

/// What is shown first stays before what is shown after it.
proof fn lemma_shown_before_transitive(
    keys: Seq<Key>,
    column: SortColumn,
    ascending: bool,
    i: usize,
    j: usize,
    k: usize,
)
    requires
        keys[i as int].has_place(column),
        keys[j as int].has_place(column),
        keys[k as int].has_place(column),
        shown_before(keys, column, ascending, i, j),
        shown_before(keys, column, ascending, j, k),
    ensures
        shown_before(keys, column, ascending, i, k),
{
    let (a, b, c) = (keys[i as int], keys[j as int], keys[k as int]);
    law_column_order(a, b, c, column);
    law_column_order(b, a, c, column);
    law_column_order(a, c, b, column);
    law_column_order(c, b, a, column);
    law_column_order(c, a, b, column);
    law_column_order(b, c, a, column);
}

/// Whether merging two listings gives a sorted one: both are sorted, and all
/// their rows have a place in the order of `column`.
spec fn can_merge(
    keys: Seq<Key>,
    column: SortColumn,
    ascending: bool,
    left: Seq<usize>,
    right: Seq<usize>,
) -> bool {
    &&& all_have_place(keys, column, left)
    &&& all_have_place(keys, column, right)
    &&& is_sorted(keys, column, ascending, left)
    &&& is_sorted(keys, column, ascending, right)
}

/// Merges two sorted listings into one. Where rows compare equal, those of
/// `left` come first.
fn merge(
    keys: &Vec<RowKey>,
    left: &Vec<usize>,
    right: &Vec<usize>,
    column: SortColumn,
    ascending: bool,
) -> (merged: Vec<usize>)
    requires
        in_range(views(keys@), left@),
        in_range(views(keys@), right@),
        all_fit(views(keys@), column, left@),
        all_fit(views(keys@), column, right@),
        forall|a: int, b: int|
            0 <= a < left.len() && 0 <= b < right.len() ==> #[trigger] left@[a]
                < #[trigger] right@[b],
        left.len() + right.len() <= usize::MAX,
    ensures
        merged@.to_multiset() == left@.to_multiset().add(right@.to_multiset()),
        can_merge(views(keys@), column, ascending, left@, right@) ==> is_sorted(
            views(keys@),
            column,
            ascending,
            merged@,
        ),
{
    let ghost sortable = can_merge(views(keys@), column, ascending, left@, right@);
    let mut merged: Vec<usize> = Vec::new();
    let mut i: usize = 0;
    let mut j: usize = 0;
    proof {
        assert(left@.take(0) =~= Seq::empty());
        assert(right@.take(0) =~= Seq::empty());
        assert(merged@ =~= Seq::empty());
        Seq::<usize>::empty().to_multiset_ensures();
        assert(merged@.to_multiset() =~= left@.take(0).to_multiset().add(
            right@.take(0).to_multiset(),
        ));
    }
    while i < left.len() || j < right.len()
        invariant
            i <= left.len(),
            j <= right.len(),
            left.len() + right.len() <= usize::MAX,
            in_range(views(keys@), left@),
            in_range(views(keys@), right@),
            all_fit(views(keys@), column, left@),
            all_fit(views(keys@), column, right@),
            forall|a: int, b: int|
                0 <= a < left.len() && 0 <= b < right.len() ==> #[trigger] left@[a]
                    < #[trigger] right@[b],
            sortable == can_merge(views(keys@), column, ascending, left@, right@),
            merged@.to_multiset() == left@.take(i as int).to_multiset().add(
                right@.take(j as int).to_multiset(),
            ),
            sortable ==> is_sorted(views(keys@), column, ascending, merged@),
            sortable ==> forall|a: int, b: int|
                0 <= a < merged.len() && i <= b < left.len() ==> shown_before(
                    views(keys@),
                    column,
                    ascending,
                    #[trigger] merged@[a],
                    #[trigger] left@[b],
                ),
            sortable ==> forall|a: int, b: int|
                0 <= a < merged.len() && j <= b < right.len() ==> shown_before(
                    views(keys@),
                    column,
                    ascending,
                    #[trigger] merged@[a],
                    #[trigger] right@[b],
                ),
        decreases left.len() - i + right.len() - j,
    {
        let from_right: bool = if i >= left.len() {
            true
        } else if j >= right.len() {
            false
        } else {
            keys[right[j]].is_above(&keys[left[i]], column, ascending)
        };
        let ghost before = merged@;
        proof {
            before.to_multiset_ensures();
        }
        if from_right {
            proof {
                right@.take(j as int).to_multiset_ensures();
                assert(right@.take(j + 1) =~= right@.take(j as int).push(right@[j as int]));
                if sortable && i < left.len() {
                    assert forall|b: int| i <= b < left.len() implies shown_before(
                        views(keys@),
                        column,
                        ascending,
                        right@[j as int],
                        #[trigger] left@[b],
                    ) by {
                        if b > i {
                            lemma_shown_before_transitive(
                                views(keys@),
                                column,
                                ascending,
                                right@[j as int],
                                left@[i as int],
                                left@[b],
                            );
                        }
                    }
                }
            }
            merged.push(right[j]);
            j = j + 1;
        } else {
            proof {
                left@.take(i as int).to_multiset_ensures();
                assert(left@.take(i + 1) =~= left@.take(i as int).push(left@[i as int]));
                if sortable && j < right.len() {
                    assert forall|b: int| j <= b < right.len() implies shown_before(
                        views(keys@),
                        column,
                        ascending,
                        left@[i as int],
                        #[trigger] right@[b],
                    ) by {
                        if b > j {
                            lemma_shown_before_transitive(
                                views(keys@),
                                column,
                                ascending,
                                left@[i as int],
                                right@[j as int],
                                right@[b],
                            );
                        }
                    }
                }
            }
            merged.push(left[i]);
            i = i + 1;
        }
        proof {
            assert(merged@.to_multiset() =~= left@.take(i as int).to_multiset().add(
                right@.take(j as int).to_multiset(),
            ));
        }
    }
    proof {
        assert(left@.take(left.len() as int) =~= left@);
        assert(right@.take(right.len() as int) =~= right@);
    }
    merged
}

/// Sorts the part of a rising listing from `start` up to `end`.
fn sort_part(
    keys: &Vec<RowKey>,
    listing: &Vec<usize>,
    start: usize,
    end: usize,
    column: SortColumn,
    ascending: bool,
) -> (sorted: Vec<usize>)
    requires
        start <= end <= listing.len(),
        in_range(views(keys@), listing@),
        goes_up(listing@),
        end - start >= 2 ==> all_fit(
            views(keys@),
            column,
            listing@.subrange(start as int, end as int),
        ),
    ensures
        sorted@.to_multiset() == listing@.subrange(start as int, end as int).to_multiset(),
        all_have_place(views(keys@), column, listing@.subrange(start as int, end as int))
            ==> is_sorted(views(keys@), column, ascending, sorted@),
    decreases end - start,
{
    let ghost part = listing@.subrange(start as int, end as int);
    if end - start < 2 {
        let mut sorted: Vec<usize> = Vec::new();
        if start < end {
            sorted.push(listing[start]);
        }
        assert(sorted@ =~= part);
        return sorted;
    }
    let middle: usize = start + (end - start) / 2;
    let ghost left_part = listing@.subrange(start as int, middle as int);
    let ghost right_part = listing@.subrange(middle as int, end as int);
    proof {
        assert(part =~= left_part + right_part);
        lemma_multiset_commutative(left_part, right_part);
        assert(forall|k: int| 0 <= k < left_part.len() ==> #[trigger] left_part[k] == part[k]);
        assert(forall|k: int|
            0 <= k < right_part.len() ==> #[trigger] right_part[k] == part[k + left_part.len()]);
    }
    let left: Vec<usize> = sort_part(keys, listing, start, middle, column, ascending);
    let right: Vec<usize> = sort_part(keys, listing, middle, end, column, ascending);
    proof {
        lemma_same_items(left@, left_part);
        lemma_same_items(right@, right_part);
    }
    merge(keys, &left, &right, column, ascending)
}

/// Listings with the same items, each as often, have the same length, and what
/// stands in one stands in the other.
proof fn lemma_same_items(a: Seq<usize>, b: Seq<usize>)
    requires
        a.to_multiset() == b.to_multiset(),
    ensures
        a.len() == b.len(),
        forall|k: int| 0 <= k < a.len() ==> b.contains(#[trigger] a[k]),
        forall|k: int| 0 <= k < b.len() ==> a.contains(#[trigger] b[k]),
{
    a.to_multiset_ensures();
    b.to_multiset_ensures();
    assert forall|k: int| 0 <= k < a.len() implies b.contains(#[trigger] a[k]) by {
        assert(a.contains(a[k]));
        assert(a.to_multiset().count(a[k]) > 0);
    }
    assert forall|k: int| 0 <= k < b.len() implies a.contains(#[trigger] b[k]) by {
        assert(b.contains(b[k]));
        assert(b.to_multiset().count(b[k]) > 0);
    }
}

/// What a search keeps goes up, is in range and is exactly what matches.
pub proof fn law_search_keeps_matches(keys: Seq<Key>, needle: Seq<char>)
    requires
        keys.len() <= usize::MAX,
    ensures
        in_range(keys, kept(keys, needle)),
        goes_up(kept(keys, needle)),
        forall|i: usize|
            #[trigger] kept(keys, needle).contains(i) <==> i < keys.len()
                && keys[i as int].matches(needle),
{
    lemma_kept_among(keys, needle, keys.len());
}

proof fn lemma_kept_among(keys: Seq<Key>, needle: Seq<char>, n: nat)
    requires
        n <= keys.len() <= usize::MAX,
    ensures
        kept_among(keys, needle, n).len() <= n,
        forall|k: int|
            0 <= k < kept_among(keys, needle, n).len() ==> (#[trigger] kept_among(
                keys,
                needle,
                n,
            )[k]) < n,
        goes_up(kept_among(keys, needle, n)),
        forall|i: usize|
            #[trigger] kept_among(keys, needle, n).contains(i) <==> i < n
                && keys[i as int].matches(needle),
    decreases n,
{
    if n > 0 {
        let m = (n - 1) as nat;
        lemma_kept_among(keys, needle, m);
        let before = kept_among(keys, needle, m);
        let after = kept_among(keys, needle, n);
        assert forall|i: usize| #[trigger] after.contains(i) <==> i < n
            && keys[i as int].matches(needle) by {
            if before.contains(i) {
                let k = choose|k: int| 0 <= k < before.len() && before[k] == i;
                assert(after[k] == i);
            }
            if i == m && keys[m as int].matches(needle) {
                assert(after[before.len() as int] == i);
            }
            if after.contains(i) {
                let k = choose|k: int| 0 <= k < after.len() && after[k] == i;
                if k < before.len() {
                    assert(before[k] == i);
                }
            }
        }
    }
}

/// The rows that a search for `needle` keeps, as positions in `keys`.
pub fn search(keys: &Vec<RowKey>, needle: &str) -> (listing: Vec<usize>)
    ensures
        listing@ == kept(views(keys@), needle@),
{
    let mut listing: Vec<usize> = Vec::new();
    let mut i: usize = 0;
    while i < keys.len()
        invariant
            i <= keys.len(),
            listing@ == kept_among(views(keys@), needle@, i as nat),
        decreases keys.len() - i,
    {
        if keys[i].is_match(needle) {
            listing.push(i);
        }
        i = i + 1;
    }
    listing
}

/// Whether sorting what a search keeps would overflow: the list is sorted by
/// disk traffic, there is something to compare, and the traffic of a row that
/// is shown does not fit its counter.
pub open spec fn sort_overflows(
    keys: Seq<Key>,
    needle: Seq<char>,
    column: SortColumn,
) -> bool {
    kept(keys, needle).len() >= 2 && !all_fit(keys, column, kept(keys, needle))
}

/// The listing to show: what the search keeps, sorted by `column`, equal rows
/// in the order in which they were reported. There is none where sorting
/// would overflow. A usage that is not a number has no place in the order of
/// usage; with one among the rows the listing is only complete.
pub fn sorted_listing(
    keys: &Vec<RowKey>,
    needle: &str,
    column: SortColumn,
    ascending: bool,
) -> (listing: Option<Vec<usize>>)
    ensures
        listing is None <==> sort_overflows(views(keys@), needle@, column),
        listing matches Some(shown) ==> {
            &&& shown@.to_multiset() == kept(views(keys@), needle@).to_multiset()
            &&& all_have_place(views(keys@), column, kept(views(keys@), needle@)) ==> is_sorted(
                views(keys@),
                column,
                ascending,
                shown@,
            )
        },
{
    let found: Vec<usize> = search(keys, needle);
    proof {
        assert(keys.len() <= usize::MAX);
        law_search_keeps_matches(views(keys@), needle@);
        assert(found@.subrange(0, found.len() as int) =~= found@);
    }
    if found.len() >= 2 {
        let mut i: usize = 0;
        while i < found.len()
            invariant
                i <= found.len(),
                found.len() >= 2,
                found@ == kept(views(keys@), needle@),
                in_range(views(keys@), found@),
                column is Disk ==> forall|k: int|
                    0 <= k < i ==> views(keys@)[#[trigger] found@[k] as int].disk_fits(),
            decreases found.len() - i,
        {
            if !keys[found[i]].fits_column(column) {
                return None;
            }
            i = i + 1;
        }
    }
    Some(sort_part(keys, &found, 0, found.len(), column, ascending))
}

/// A listing shows exactly the rows that match, each of them once.
pub proof fn law_listing_shows_each_match_once(
    keys: Seq<Key>,
    needle: Seq<char>,
    listing: Seq<usize>,
)
    requires
        keys.len() <= usize::MAX,
        listing.to_multiset() == kept(keys, needle).to_multiset(),
    ensures
        listing.no_duplicates(),
        forall|i: usize|
            #[trigger] listing.contains(i) <==> i < keys.len() && keys[i as int].matches(needle),
{
    let found = kept(keys, needle);
    law_search_keeps_matches(keys, needle);
    assert(found.no_duplicates());
    found.lemma_multiset_has_no_duplicates();
    listing.lemma_multiset_has_no_duplicates_conv();
    lemma_same_items(listing, found);
    assert forall|i: usize| #[trigger] listing.contains(i) <==> found.contains(i) by {
        if listing.contains(i) {
            let k = choose|k: int| 0 <= k < listing.len() && listing[k] == i;
            assert(found.contains(listing[k]));
        }
        if found.contains(i) {
            let k = choose|k: int| 0 <= k < found.len() && found[k] == i;
            assert(listing.contains(found[k]));
        }
    }
}

/// There is one sorted listing of given rows only: two that hold the same
/// positions are the same.
pub proof fn law_sorted_listing_unique(
    keys: Seq<Key>,
    column: SortColumn,
    ascending: bool,
    a: Seq<usize>,
    b: Seq<usize>,
)
    requires
        a.to_multiset() == b.to_multiset(),
        all_have_place(keys, column, a),
        is_sorted(keys, column, ascending, a),
        is_sorted(keys, column, ascending, b),
    ensures
        a == b,
    decreases a.len(),
{
    lemma_same_items(a, b);
    if a.len() == 0 {
        assert(a =~= b);
    } else {
        let (i, j) = (a[0], b[0]);
        let at_a = choose|k: int| 0 <= k < a.len() && a[k] == j;
        let at_b = choose|k: int| 0 <= k < b.len() && b[k] == i;
        if i != j {
            assert(shown_before(keys, column, ascending, a[0], a[at_a]));
            assert(shown_before(keys, column, ascending, b[0], b[at_b]));
            lemma_shown_before_transitive(keys, column, ascending, i, j, i);
            law_column_order(keys[i as int], keys[i as int], keys[i as int], column);
        }
        let (rest_a, rest_b) = (a.drop_first(), b.drop_first());
        assert(a =~= seq![i] + rest_a);
        assert(b =~= seq![j] + rest_b);
        lemma_multiset_commutative(seq![i], rest_a);
        lemma_multiset_commutative(seq![j], rest_b);
        assert(rest_a.to_multiset() =~= a.to_multiset().sub(seq![i].to_multiset()));
        assert(rest_b.to_multiset() =~= b.to_multiset().sub(seq![j].to_multiset()));
        assert forall|k: int|
            0 <= k < rest_a.len() implies keys[#[trigger] rest_a[k] as int].has_place(column) by {
            assert(rest_a[k] == a[k + 1]);
        }
        law_sorted_listing_unique(keys, column, ascending, rest_a, rest_b);
    }
}

/// Turning the direction round turns round every two rows that differ in the
/// sorted column; only rows that compare equal keep their order.
pub proof fn law_direction_reverses(
    keys: Seq<Key>,
    column: SortColumn,
    rising: Seq<usize>,
    falling: Seq<usize>,
    i: usize,
    j: usize,
)
    requires
        all_have_place(keys, column, rising),
        is_sorted(keys, column, true, rising),
        is_sorted(keys, column, false, falling),
        rising.to_multiset() == falling.to_multiset(),
        rising.contains(i),
        rising.contains(j),
        keys[i as int].less(keys[j as int], column),
    ensures
        rising.index_of(i) < rising.index_of(j),
        falling.index_of(j) < falling.index_of(i),
{
    let (a, b) = (keys[i as int], keys[j as int]);
    lemma_same_items(rising, falling);
    let (x, y) = (rising.index_of(i), rising.index_of(j));
    assert(rising[x] == i && rising[y] == j);
    assert(falling.contains(rising[x]) && falling.contains(rising[y]));
    let (p, q) = (falling.index_of(i), falling.index_of(j));
    assert(falling[p] == i && falling[q] == j);
    law_column_order(a, b, a, column);
    if y < x {
        assert(shown_before(keys, column, true, rising[y], rising[x]));
    }
    if p < q {
        assert(shown_before(keys, column, false, falling[p], falling[q]));
    }
}

/// Without anything to search for, every row is shown.
pub proof fn law_empty_needle_keeps_all(keys: Seq<Key>)
    ensures
        kept(keys, Seq::empty()) == Seq::new(keys.len(), |i: int| i as usize),
{
    lemma_empty_needle_keeps_all(keys, keys.len());
}

proof fn lemma_empty_needle_keeps_all(keys: Seq<Key>, n: nat)
    ensures
        kept_among(keys, Seq::empty(), n) == Seq::new(n, |i: int| i as usize),
    decreases n,
{
    if n > 0 {
        lemma_empty_needle_keeps_all(keys, (n - 1) as nat);
        let (nothing, name) = (Seq::<char>::empty(), keys[n - 1].lower_name);
        assert(name.subrange(0, 0int + nothing.len()) =~= nothing);
        assert(keys[n - 1].matches(nothing));
    }
    assert(kept_among(keys, Seq::empty(), n) =~= Seq::new(n, |i: int| i as usize));
}

/// Keys are what they stand for one by one.
pub proof fn law_views_one_by_one(keys: Seq<RowKey>, i: int)
    requires
        0 <= i < keys.len(),
    ensures
        views(keys).len() == keys.len(),
        views(keys)[i] == keys[i]@,
{
}

/// What a search keeps goes by the rows in their order: its positions rise, and a
/// position is there exactly when the whole name at it is something, what is
/// looked for and something more.
pub proof fn law_search_result(keys: Seq<Key>, needle: Seq<char>)
    requires
        keys.len() <= usize::MAX,
    ensures
        forall|a: int, b: int|
            0 <= a < b < kept(keys, needle).len() ==> #[trigger] kept(keys, needle)[a]
                < #[trigger] kept(keys, needle)[b],
        forall|i: usize|
            #[trigger] kept(keys, needle).contains(i) <==> i < keys.len() && exists|
                prefix: Seq<char>,
                suffix: Seq<char>,
            |
                keys[i as int].lower_name == #[trigger] (prefix + needle + suffix),
{
    law_search_keeps_matches(keys, needle);
    assert forall|i: usize|
        #[trigger] kept(keys, needle).contains(i) <==> i < keys.len() && exists|
            prefix: Seq<char>,
            suffix: Seq<char>,
        |
            keys[i as int].lower_name == #[trigger] (prefix + needle + suffix) by {
        law_search_finds_any_part(keys[i as int], needle);
    }
}

/// In a sorted listing a number that the list is sorted by never falls from one row
/// to a later one when it is to rise, and never rises when it is to fall; names
/// come in the order of texts. Rows that agree in it come in the order in which
/// they were reported.
pub proof fn law_sorted_fields(
    keys: Seq<Key>,
    column: SortColumn,
    ascending: bool,
    listing: Seq<usize>,
    a: int,
    b: int,
)
    requires
        is_sorted(keys, column, ascending, listing),
        0 <= a < b < listing.len(),
        column is Cpu ==> !is_nan_bits(keys[listing[a] as int].cpu_usage_bits) && !is_nan_bits(
            keys[listing[b] as int].cpu_usage_bits,
        ),
    ensures
        ({
            let (x, y) = (keys[listing[a] as int], keys[listing[b] as int]);
            let (first, second) = if ascending {
                (x, y)
            } else {
                (y, x)
            };
            &&& column is Pid ==> first.pid <= second.pid && (x.pid == y.pid ==> listing[a]
                < listing[b])
            &&& column is Ram ==> first.memory <= second.memory && (x.memory == y.memory
                ==> listing[a] < listing[b])
            &&& column is Disk ==> {
                &&& first.read_bytes + first.written_bytes <= second.read_bytes
                    + second.written_bytes
                &&& x.read_bytes + x.written_bytes == y.read_bytes + y.written_bytes ==> listing[a]
                    < listing[b]
            }
            &&& column is Cpu ==> {
                &&& single_value(first.cpu_usage_bits) <= single_value(second.cpu_usage_bits)
                &&& single_value(x.cpu_usage_bits) == single_value(y.cpu_usage_bits) ==> listing[a]
                    < listing[b]
            }
            &&& column is Name ==> {
                &&& x.lower_name == y.lower_name || text_less(first.lower_name, second.lower_name)
                &&& x.lower_name == y.lower_name ==> listing[a] < listing[b]
            }
        }),
{
    let (i, j) = (listing[a], listing[b]);
    let (x, y) = (keys[i as int], keys[j as int]);
    assert(shown_before(keys, column, ascending, listing[a], listing[b]));
    law_columns_compare_fields(x, y);
    law_columns_compare_fields(y, x);
    law_single_order(x.cpu_usage_bits, y.cpu_usage_bits);
    law_single_order(y.cpu_usage_bits, x.cpu_usage_bits);
    law_text_order_total(x.lower_name, y.lower_name);
    law_text_order_total(y.lower_name, x.lower_name);
}

/// Sorting overflows exactly when the list is sorted by disk traffic and two rows
/// or more match, of which one has moved more bytes than its counter holds.
pub proof fn law_sort_overflows(keys: Seq<Key>, needle: Seq<char>, column: SortColumn)
    requires
        keys.len() <= usize::MAX,
    ensures
        sort_overflows(keys, needle, column) <==> column is Disk && exists|i: int, j: int|
            0 <= i < keys.len() && 0 <= j < keys.len() && i != j && (#[trigger] keys[i]).matches(
                needle,
            ) && (#[trigger] keys[j]).matches(needle) && keys[i].read_bytes
                + keys[i].written_bytes > u64::MAX,
{
    let found = kept(keys, needle);
    law_search_keeps_matches(keys, needle);
    if sort_overflows(keys, needle, column) {
        let k = choose|k: int|
            0 <= k < found.len() && !keys[#[trigger] found[k] as int].disk_fits();
        let l: int = if k == 0 {
            1
        } else {
            0
        };
        let (i, j) = (found[k] as int, found[l] as int);
        assert(found.contains(found[k]) && found.contains(found[l]));
        law_columns_compare_fields(keys[i], keys[j]);
        assert(keys[i].matches(needle) && keys[j].matches(needle));
    }
    if column is Disk && exists|i: int, j: int|
        0 <= i < keys.len() && 0 <= j < keys.len() && i != j && (#[trigger] keys[i]).matches(
            needle,
        ) && (#[trigger] keys[j]).matches(needle) && keys[i].read_bytes + keys[i].written_bytes
            > u64::MAX {
        let (i, j) = choose|i: int, j: int|
            0 <= i < keys.len() && 0 <= j < keys.len() && i != j && (#[trigger] keys[i]).matches(
                needle,
            ) && (#[trigger] keys[j]).matches(needle) && keys[i].read_bytes
                + keys[i].written_bytes > u64::MAX;
        assert(found.contains(i as usize) && found.contains(j as usize));
        let k = choose|k: int| 0 <= k < found.len() && found[k] == i as usize;
        let l = choose|l: int| 0 <= l < found.len() && found[l] == j as usize;
        law_columns_compare_fields(keys[i], keys[j]);
        assert(!keys[found[k] as int].disk_fits());
    }
}

} // verus!
