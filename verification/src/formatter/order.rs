//! The order in which the table shows the reports: by kind, or by group and then kind,
//! reports that compare equal staying in the order of the run.

use crate::discovery::{ResourceDescriptor, ResourceModel};
use crate::text::{
    chars_of, comes_before, lemma_text_lt_irreflexive, lemma_text_lt_total,
    lemma_text_lt_transitive, opt_text_lt, text_lt,
};
use crate::types::{ReportModel, ResourceCheckResult};
use vstd::prelude::*;

verus! {

/// What the rows are ordered by: the group, where it is shown, and the kind.
pub struct SortKey {
    pub group: Option<Seq<char>>,
    pub kind: Seq<char>,
}

/// The key of a resource. Where the group is not shown it does not count.
pub open spec fn sort_key(by_group: bool, resource: ResourceModel) -> SortKey {
    SortKey {
        group: if by_group {
            resource.group
        } else {
            None
        },
        kind: resource.kind,
    }
}

/// Strict order of the keys: by group, an absent group first, then by kind.
pub open spec fn key_lt(a: SortKey, b: SortKey) -> bool {
    opt_text_lt(a.group, b.group) || (a.group == b.group && text_lt(a.kind, b.kind))
}

/// Whether the report at `x` is shown above the one at `y`: its key is smaller, or the
/// keys are equal and it came earlier in the run.
pub open spec fn shown_before(by_group: bool, items: Seq<ReportModel>, x: int, y: int) -> bool {
    let a = sort_key(by_group, items[x].resource);
    let b = sort_key(by_group, items[y].resource);
    key_lt(a, b) || (!key_lt(b, a) && x < y)
}

/// Whether `order` lists the positions of `items` in the order of display: each position
/// once, sorted by key, positions of equal keys ascending.
pub open spec fn is_display_order(by_group: bool, items: Seq<ReportModel>, order: Seq<int>) -> bool {
    &&& order.len() == items.len()
    &&& forall|i: int| 0 <= i < order.len() ==> 0 <= #[trigger] order[i] < items.len()
    &&& forall|k: int| 0 <= k < items.len() ==> order.contains(k)
    &&& forall|i: int, j: int|
        0 <= i < j < order.len() ==> shown_before(by_group, items, #[trigger] order[i], #[trigger] order[j])
}

/// The positions of `items` in the order of display.
pub open spec fn display_order(by_group: bool, items: Seq<ReportModel>) -> Seq<int> {
    choose|order: Seq<int>| is_display_order(by_group, items, order)
}

/// Of two keys, one is smaller or they are equal, and never both ways.
pub proof fn lemma_key_lt_total(a: SortKey, b: SortKey)
    ensures
        key_lt(a, b) || key_lt(b, a) || a == b,
        !(key_lt(a, b) && key_lt(b, a)),
        !key_lt(a, a),
{
    lemma_text_lt_total(a.kind, b.kind);
    lemma_text_lt_irreflexive(a.kind);
    if let Some(x) = a.group {
        lemma_text_lt_irreflexive(x);
        if let Some(y) = b.group {
            lemma_text_lt_total(x, y);
        }
    }
}

/// The order of the keys is transitive.
pub proof fn lemma_key_lt_transitive(a: SortKey, b: SortKey, c: SortKey)
    requires
        key_lt(a, b),
        key_lt(b, c),
    ensures
        key_lt(a, c),
{
    match (a.group, b.group, c.group) {
        (Some(x), Some(y), Some(z)) => {
            if text_lt(x, y) && text_lt(y, z) {
                lemma_text_lt_transitive(x, y, z);
            }
        },
        _ => {},
    }
    lemma_key_lt_total(a, b);
    lemma_key_lt_total(b, c);
    if let Some(x) = a.group {
        lemma_text_lt_irreflexive(x);
    }
    if a.group == b.group && b.group == c.group {
        lemma_text_lt_transitive(a.kind, b.kind, c.kind);
    }
}

/// A key that is not above `b`, which is not above `c`, is not above `c`.
pub proof fn lemma_key_not_lt_transitive(a: SortKey, b: SortKey, c: SortKey)
    requires
        !key_lt(b, a),
        !key_lt(c, b),
    ensures
        !key_lt(c, a),
{
    lemma_key_lt_total(a, b);
    lemma_key_lt_total(b, c);
    if key_lt(c, a) {
        if a == b {
        } else if b == c {
        } else {
            lemma_key_lt_transitive(c, a, b);
        }
    }
}

/// Two display orders of the same reports agree up to position `upto`.
proof fn lemma_orders_agree_upto(
    by_group: bool,
    items: Seq<ReportModel>,
    first: Seq<int>,
    second: Seq<int>,
    upto: int,
)
    requires
        is_display_order(by_group, items, first),
        is_display_order(by_group, items, second),
        0 <= upto <= items.len(),
    ensures
        forall|i: int| 0 <= i < upto ==> first[i] == second[i],
    decreases upto,
{
    if upto > 0 {
        lemma_orders_agree_upto(by_group, items, first, second, upto - 1);
        let i = upto - 1;
        let x = first[i];
        let y = second[i];
        if x != y {
            assert(second.contains(x));
            let p = choose|p: int| 0 <= p < second.len() && second[p] == x;
            assert(first.contains(y));
            let q = choose|q: int| 0 <= q < first.len() && first[q] == y;
            let kx = sort_key(by_group, items[x].resource);
            let ky = sort_key(by_group, items[y].resource);
            lemma_key_lt_total(kx, ky);
            lemma_key_lt_total(kx, kx);
            lemma_key_lt_total(ky, ky);
            if p < i {
                assert(first[p] == x);
                assert(shown_before(by_group, items, first[p], first[i]));
            } else {
                assert(shown_before(by_group, items, second[i], second[p]));
            }
            if q < i {
                assert(second[q] == y);
                assert(shown_before(by_group, items, second[q], second[i]));
            } else {
                assert(shown_before(by_group, items, first[i], first[q]));
            }
        }
    }
}

/// The reports have one display order only.
pub proof fn lemma_display_order_is_unique(
    by_group: bool,
    items: Seq<ReportModel>,
    first: Seq<int>,
    second: Seq<int>,
)
    requires
        is_display_order(by_group, items, first),
        is_display_order(by_group, items, second),
    ensures
        first == second,
{
    lemma_orders_agree_upto(by_group, items, first, second, items.len() as int);
    assert(first =~= second);
}

/// The characters that a report is ordered by.
struct KeyChars {
    group: Option<Vec<char>>,
    kind: Vec<char>,
}

impl View for KeyChars {
    type V = SortKey;

    closed spec fn view(&self) -> SortKey {
        SortKey {
            group: match self.group {
                Some(g) => Some(g@),
                None => None,
            },
            kind: self.kind@,
        }
    }
}

/// The key of `resource`.
fn key_chars(by_group: bool, resource: &ResourceDescriptor) -> (k: KeyChars)
    ensures
        k@ == sort_key(by_group, resource@),
{
    let group = if by_group {
        match &resource.group {
            Some(g) => Some(chars_of(g.as_str())),
            None => None,
        }
    } else {
        None
    };
    KeyChars { group, kind: chars_of(resource.kind.as_str()) }
}

/// Whether key `a` is smaller than key `b`.
fn key_before(a: &KeyChars, b: &KeyChars) -> (r: bool)
    ensures
        r == key_lt(a@, b@),
{
    match (&a.group, &b.group) {
        (None, None) => comes_before(&a.kind, &b.kind),
        (None, Some(_)) => true,
        (Some(_), None) => false,
        (Some(x), Some(y)) => {
            if comes_before(x, y) {
                true
            } else if comes_before(y, x) {
                proof {
                    lemma_text_lt_total(x@, y@);
                }
                false
            } else {
                proof {
                    lemma_text_lt_total(x@, y@);
                }
                comes_before(&a.kind, &b.kind)
            }
        },
    }
}

/// The order `order` of the first `n` reports, as `is_display_order` states it of all.
spec fn orders_first(by_group: bool, items: Seq<ReportModel>, order: Seq<int>, n: int) -> bool {
    &&& order.len() == n
    &&& forall|i: int| 0 <= i < order.len() ==> 0 <= #[trigger] order[i] < n
    &&& forall|k: int| 0 <= k < n ==> order.contains(k)
    &&& forall|i: int, j: int|
        0 <= i < j < order.len() ==> shown_before(by_group, items, #[trigger] order[i], #[trigger] order[j])
}

/// Whether the report at `k` belongs at `at` in `order`: above every report with a
/// larger key, below the others.
spec fn is_slot(by_group: bool, items: Seq<ReportModel>, order: Seq<int>, k: int, at: int) -> bool {
    let mine = sort_key(by_group, items[k].resource);
    &&& 0 <= at <= order.len()
    &&& forall|j: int|
        at <= j < order.len() ==> key_lt(mine, sort_key(by_group, items[#[trigger] order[j]].resource))
    &&& at > 0 ==> !key_lt(mine, sort_key(by_group, items[order[at - 1]].resource))
}

/// Putting the report at `k` into its slot extends the order of the first `k` reports to
/// the order of the first `k + 1`.
proof fn lemma_insert_keeps_order(
    by_group: bool,
    items: Seq<ReportModel>,
    before: Seq<int>,
    k: int,
    at: int,
)
    requires
        0 <= k < items.len(),
        orders_first(by_group, items, before, k),
        is_slot(by_group, items, before, k, at),
    ensures
        orders_first(by_group, items, before.insert(at, k), k + 1),
{
    let after = before.insert(at, k);
    let mine = sort_key(by_group, items[k].resource);
    assert forall|i: int, j: int| 0 <= i < j < after.len() implies shown_before(
        by_group,
        items,
        #[trigger] after[i],
        #[trigger] after[j],
    ) by {
        if j < at {
            assert(after[i] == before[i] && after[j] == before[j]);
        } else if i > at {
            assert(after[i] == before[i - 1] && after[j] == before[j - 1]);
        } else if i < at && j > at {
            assert(after[i] == before[i] && after[j] == before[j - 1]);
        } else if i == at {
            assert(after[j] == before[j - 1]);
            assert(key_lt(mine, sort_key(by_group, items[before[j - 1]].resource)));
        } else {
            assert(after[i] == before[i]);
            let theirs = sort_key(by_group, items[before[i]].resource);
            let pivot = sort_key(by_group, items[before[at - 1]].resource);
            if i < at - 1 {
                assert(shown_before(by_group, items, before[i], before[at - 1]));
                lemma_key_lt_total(theirs, pivot);
                lemma_key_not_lt_transitive(theirs, pivot, mine);
            }
            assert(before[i] < k);
        }
    }
    assert forall|v: int| 0 <= v < k + 1 implies after.contains(v) by {
        if v == k {
            assert(after[at] == k);
        } else {
            assert(before.contains(v));
            let p = choose|p: int| 0 <= p < before.len() && before[p] == v;
            if p < at {
                assert(after[p] == v);
            } else {
                assert(after[p + 1] == v);
            }
        }
    }
    assert forall|i: int| 0 <= i < after.len() implies 0 <= #[trigger] after[i] < k + 1 by {
        if i < at {
            assert(after[i] == before[i]);
        } else if i > at {
            assert(after[i] == before[i - 1]);
        }
    }
}

/// The slot of the report at `k`, searched downwards from `upper`.
proof fn lemma_slot_exists(
    by_group: bool,
    items: Seq<ReportModel>,
    order: Seq<int>,
    k: int,
    upper: int,
) -> (at: int)
    requires
        0 <= upper <= order.len(),
        forall|j: int|
            upper <= j < order.len() ==> key_lt(
                sort_key(by_group, items[k].resource),
                sort_key(by_group, items[#[trigger] order[j]].resource),
            ),
    ensures
        is_slot(by_group, items, order, k, at),
    decreases upper,
{
    let mine = sort_key(by_group, items[k].resource);
    if upper > 0 && key_lt(mine, sort_key(by_group, items[order[upper - 1]].resource)) {
        lemma_slot_exists(by_group, items, order, k, upper - 1)
    } else {
        upper
    }
}

/// An order of the first `n` reports.
proof fn lemma_first_have_order(by_group: bool, items: Seq<ReportModel>, n: int) -> (order: Seq<int>)
    requires
        0 <= n <= items.len(),
    ensures
        orders_first(by_group, items, order, n),
    decreases n,
{
    if n == 0 {
        Seq::empty()
    } else {
        let before = lemma_first_have_order(by_group, items, n - 1);
        let at = lemma_slot_exists(by_group, items, before, n - 1, n - 1);
        lemma_insert_keeps_order(by_group, items, before, n - 1, at);
        before.insert(at, n - 1)
    }
}

/// Every sequence of reports has a display order, and `display_order` is it.
pub proof fn lemma_display_order_exists(by_group: bool, items: Seq<ReportModel>)
    ensures
        is_display_order(by_group, items, display_order(by_group, items)),
{
    let order = lemma_first_have_order(by_group, items, items.len() as int);
    assert(is_display_order(by_group, items, order));
}

/// The positions held by `order`, as integers.
pub open spec fn positions(order: Seq<usize>) -> Seq<int> {
    order.map_values(|p: usize| p as int)
}

/// The positions of `items` in the order of display: sorted by kind, or by group and then
/// kind where the group is shown; reports with equal keys keep the order of the run.
pub fn sorted_positions(by_group: bool, items: &Vec<ResourceCheckResult>) -> (order: Vec<usize>)
    ensures
        positions(order@) == display_order(by_group, items.deep_view()),
        is_display_order(by_group, items.deep_view(), positions(order@)),
{
    let ghost reports = items.deep_view();
    let mut keys: Vec<KeyChars> = Vec::new();
    let mut n: usize = 0;
    while n < items.len()
        invariant
            n <= items.len(),
            keys.len() == n,
            reports == items.deep_view(),
            forall|i: int| 0 <= i < n ==> (#[trigger] keys@[i])@ == sort_key(by_group, reports[i].resource),
        decreases items.len() - n,
    {
        keys.push(key_chars(by_group, &items[n].resource));
        n += 1;
    }
    let mut order: Vec<usize> = Vec::new();
    let mut k: usize = 0;
    while k < items.len()
        invariant
            k <= items.len(),
            keys.len() == items.len(),
            reports == items.deep_view(),
            forall|i: int|
                0 <= i < keys.len() ==> (#[trigger] keys@[i])@ == sort_key(by_group, reports[i].resource),
            orders_first(by_group, reports, positions(order@), k as int),
            forall|i: int| 0 <= i < order@.len() ==> #[trigger] order@[i] < k,
        decreases items.len() - k,
    {
        let ghost before = positions(order@);
        let mut at: usize = order.len();
        while at > 0 && key_before(&keys[k], &keys[order[at - 1]])
            invariant
                at <= order.len(),
                order.len() == k,
                k < items.len(),
                keys.len() == items.len(),
                reports == items.deep_view(),
                before == positions(order@),
                forall|i: int| 0 <= i < order@.len() ==> #[trigger] order@[i] < k,
                forall|i: int|
                    0 <= i < keys.len() ==> (#[trigger] keys@[i])@ == sort_key(
                        by_group,
                        reports[i].resource,
                    ),
                forall|j: int|
                    at <= j < before.len() ==> key_lt(
                        sort_key(by_group, reports[k as int].resource),
                        sort_key(by_group, reports[#[trigger] before[j]].resource),
                    ),
            decreases at,
        {
            assert(before[at - 1] == order@[at - 1]);
            at -= 1;
        }
        proof {
            if at > 0 {
                assert(before[at - 1] == order@[at - 1]);
            }
            lemma_insert_keeps_order(by_group, reports, before, k as int, at as int);
        }
        let ghost earlier = order@;
        order.insert(at, k);
        proof {
            assert forall|i: int| 0 <= i < order@.len() implies #[trigger] order@[i] < k + 1 by {
                if i < at {
                    assert(order@[i] == earlier[i]);
                } else if i > at {
                    assert(order@[i] == earlier[i - 1]);
                }
            }
            assert(positions(order@) =~= before.insert(at as int, k as int));
        }
        k += 1;
    }
    proof {
        let found = positions(order@);
        assert(is_display_order(by_group, reports, found));
        lemma_display_order_exists(by_group, reports);
        lemma_display_order_is_unique(by_group, reports, found, display_order(by_group, reports));
    }
    order
}

} // verus!
