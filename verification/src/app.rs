//! The application state: the loaded service list, its category grouping,
//! the filter text, the flattened visible-item projection the cursor walks,
//! and the dirty-change tracking against the state loaded from the
//! directory.
//!
//! The dirty set is not stored: a service is dirty exactly when its
//! in-memory enabled flag differs from the flag recorded at the last load,
//! so the defining invariant of the dirty set holds by construction.
use vstd::prelude::*;

use crate::categories::{categorize_index, category_label, category_name, spec_categorize};
use crate::services::{
    ChangeAction, ChangeResult, PendingChange, Service, ServiceInfo, ServiceScope,
};
use crate::text::{contains_ci, str_contains_ci};

verus! {

/// Which scope's services are on display.
#[derive(Debug, Clone, Copy, PartialEq, Eq, Structural)]
pub enum Tab {
    System,
    User,
}

/// The input mode; exactly one is active and gates what the event
/// interpreter may invoke.
#[derive(Debug, Clone, Copy, PartialEq, Eq, Structural)]
pub enum Mode {
    Normal,
    Filter,
    Confirm,
    Applying,
    Info,
}

/// One category on display: its label, its position in the fixed category
/// order, the indices of its member services, and whether it is folded up.
#[derive(Debug)]
pub struct CategoryGroup {
    pub name: &'static str,
    pub id: usize,
    pub services: Vec<usize>,
    pub collapsed: bool,
}

/// One line of the flattened projection: a category header or a service,
/// each holding its index into the separately owned array.
#[derive(Debug, Clone, Copy, PartialEq, Eq, Structural)]
pub enum VisibleItem {
    Category(usize),
    Service(usize),
}

/// The service scope a tab shows.
pub open spec fn spec_scope_for_tab(t: Tab) -> ServiceScope {
    match t {
        Tab::System => ServiceScope::System,
        Tab::User => ServiceScope::User,
    }
}

/// The service scope a tab shows, as executable code.
pub fn scope_for_tab(t: Tab) -> (r: ServiceScope)
    ensures
        r == spec_scope_for_tab(t),
{
    match t {
        Tab::System => ServiceScope::System,
        Tab::User => ServiceScope::User,
    }
}

/// `s` with its enabled flag replaced.
pub open spec fn with_enabled(s: Service, e: bool) -> Service {
    Service { name: s.name, enabled: e, active: s.active }
}

/// `c` with its collapsed flag replaced.
pub open spec fn with_collapsed(c: CategoryGroup, f: bool) -> CategoryGroup {
    CategoryGroup { name: c.name, id: c.id, services: c.services, collapsed: f }
}

/// A service name passes the filter: the filter is empty, or it occurs in
/// the name ignoring ASCII case.
pub open spec fn passes_filter(name: Seq<char>, filter: Seq<char>) -> bool {
    filter.len() == 0 || contains_ci(name, filter)
}

/// The member indices in `ms` whose service passes the filter, in order.
pub open spec fn visible_members(ms: Seq<usize>, svcs: Seq<Service>, filter: Seq<char>) -> Seq<
    usize,
>
    decreases ms.len(),
{
    if ms.len() == 0 {
        Seq::empty()
    } else {
        let rest = visible_members(ms.drop_last(), svcs, filter);
        if passes_filter(svcs[ms.last() as int].name@, filter) {
            rest.push(ms.last())
        } else {
            rest
        }
    }
}

/// The visible items category `k` contributes: nothing when no member
/// passes the filter; otherwise its header, followed by its passing
/// members unless it is collapsed.
pub open spec fn cat_segment(
    cats: Seq<CategoryGroup>,
    k: int,
    svcs: Seq<Service>,
    filter: Seq<char>,
) -> Seq<VisibleItem> {
    let vm = visible_members(cats[k].services@, svcs, filter);
    if vm.len() == 0 {
        Seq::empty()
    } else if cats[k].collapsed {
        seq![VisibleItem::Category(k as usize)]
    } else {
        seq![VisibleItem::Category(k as usize)] + vm.map(
            |j: int, s: usize| VisibleItem::Service(s),
        )
    }
}

/// The visible items of categories `k` onward.
pub open spec fn visible_from(
    cats: Seq<CategoryGroup>,
    k: int,
    svcs: Seq<Service>,
    filter: Seq<char>,
) -> Seq<VisibleItem>
    decreases cats.len() - k,
{
    if k < 0 || k >= cats.len() {
        Seq::empty()
    } else {
        cat_segment(cats, k, svcs, filter) + visible_from(cats, k + 1, svcs, filter)
    }
}

/// The whole flattened projection, as a function of the categories, the
/// services and the filter alone.
pub open spec fn spec_visible(
    cats: Seq<CategoryGroup>,
    svcs: Seq<Service>,
    filter: Seq<char>,
) -> Seq<VisibleItem> {
    visible_from(cats, 0, svcs, filter)
}

/// `ms` is exactly the ordered list of indices of the services of
/// category `cat`: strictly increasing, members only, and complete.
pub open spec fn is_members_of(ms: Seq<usize>, svcs: Seq<Service>, cat: int) -> bool {
    &&& forall|a: int, b: int| 0 <= a < b < ms.len() ==> ms[a] < ms[b]
    &&& forall|a: int|
        0 <= a < ms.len() ==> (#[trigger] ms[a]) < svcs.len() && spec_categorize(
            svcs[ms[a] as int].name@,
        ) == cat
    &&& forall|i: int|
        0 <= i < svcs.len() && spec_categorize(svcs[i].name@) == cat ==> ms.contains(i as usize)
}

/// The category groups are well formed over the service list: labels match
/// the fixed order, ids strictly increase, no group is empty, each group
/// holds exactly its members, and every non-empty category has a group.
pub open spec fn categories_wf(cats: Seq<CategoryGroup>, svcs: Seq<Service>) -> bool {
    &&& forall|k: int| 0 <= k < cats.len() ==> (#[trigger] cats[k].id) < 9
    &&& forall|k: int|
        0 <= k < cats.len() ==> (#[trigger] cats[k].name)@ == category_name(cats[k].id as int)
    &&& forall|k1: int, k2: int|
        0 <= k1 < k2 < cats.len() ==> (#[trigger] cats[k1].id) < (#[trigger] cats[k2].id)
    &&& forall|k: int| 0 <= k < cats.len() ==> (#[trigger] cats[k].services)@.len() > 0
    &&& forall|k: int|
        0 <= k < cats.len() ==> is_members_of((#[trigger] cats[k].services)@, svcs, cats[k].id as int)
    &&& forall|i: int| 0 <= i < svcs.len() ==> has_group_for(cats, (#[trigger] svcs[i].name)@)
}

/// Some group carries the category of this service name.
pub open spec fn has_group_for(cats: Seq<CategoryGroup>, name: Seq<char>) -> bool {
    exists|k: int| 0 <= k < cats.len() && (#[trigger] cats[k].id) == spec_categorize(name)
}

/// The item's index is within the named bounds.
pub open spec fn item_in_range(it: VisibleItem, ncats: int, nsvcs: int) -> bool {
    match it {
        VisibleItem::Category(k) => k < ncats,
        VisibleItem::Service(s) => s < nsvcs,
    }
}

/// Where the cursor lands after the list under it shrank to `len` items:
/// kept where it is while valid, pulled back to the last item otherwise,
/// and 0 on an empty list.
pub open spec fn clamp_cursor(c: int, len: int) -> int {
    if c < len {
        c
    } else if len == 0 {
        0
    } else {
        len - 1
    }
}

/// What one call of `rebuild_visible` does to the state: the projection
/// is recomputed from the categories, the services and the filter, the
/// cursor is clamped back into range, and nothing else changes.
pub open spec fn rebuilds_to(pre: App, post: App) -> bool {
    &&& post == (App { cursor: post.cursor, visible_items: post.visible_items, ..pre })
    &&& post.visible_items@ == spec_visible(pre.categories@, pre.services@, pre.filter@)
    &&& post.cursor == clamp_cursor(pre.cursor as int, post.visible_items@.len() as int)
}

/// What one call of `toggle_current` on service `s` does to the state:
/// that service's enabled flag flips and nothing else changes.
pub open spec fn toggles_service(pre: App, post: App, s: int) -> bool {
    &&& post == (App { services: post.services, ..pre })
    &&& post.services@ == pre.services@.update(
        s,
        with_enabled(pre.services@[s], !pre.services@[s].enabled),
    )
}

/// Rebuilding the visible items is idempotent: a second rebuild with no
/// intervening state change yields identical visible items (and leaves
/// the cursor where the first rebuild put it).
pub proof fn lemma_rebuild_visible_idempotent(a: App, b: App, c: App)
    requires
        rebuilds_to(a, b),
        rebuilds_to(b, c),
    ensures
        c.visible_items@ == b.visible_items@,
        c.cursor == b.cursor,
{
}

/// Toggling the same service twice restores every enabled flag, and with
/// it the dirty set: a service is dirty exactly when its enabled flag
/// differs from the loaded one, so the round trip leaves the dirty set
/// as it was — in particular, a service toggled twice is not dirty again.
pub proof fn lemma_toggle_twice_round_trip(a: App, b: App, c: App, s: int)
    requires
        0 <= s < a.services@.len(),
        toggles_service(a, b, s),
        toggles_service(b, c, s),
    ensures
        c.services@.len() == a.services@.len(),
        forall|j: int|
            0 <= j < a.services@.len() ==> (#[trigger] c.services@[j]).enabled
                == a.services@[j].enabled && c.services@[j].name@ == a.services@[j].name@,
        forall|j: int|
            0 <= j < a.services@.len() ==> (#[trigger] c.spec_dirty_at(j)) == a.spec_dirty_at(j),
        c.original@ == a.original@,
{
}

/// Filter invariant, for the members of one category: every index that
/// the filter lets through names a service that passes the filter, and
/// each comes from the member list.
proof fn lemma_visible_members_sound(ms: Seq<usize>, svcs: Seq<Service>, filter: Seq<char>)
    ensures
        forall|j: int|
            0 <= j < visible_members(ms, svcs, filter).len() ==> {
                let s = #[trigger] visible_members(ms, svcs, filter)[j];
                &&& ms.contains(s)
                &&& passes_filter(svcs[s as int].name@, filter)
            },
    decreases ms.len(),
{
    if ms.len() > 0 {
        lemma_visible_members_sound(ms.drop_last(), svcs, filter);
        assert forall|j: int|
            0 <= j < visible_members(ms, svcs, filter).len() implies {
            let s = #[trigger] visible_members(ms, svcs, filter)[j];
            &&& ms.contains(s)
            &&& passes_filter(svcs[s as int].name@, filter)
        } by {
            let vm = visible_members(ms, svcs, filter);
            let rest = visible_members(ms.drop_last(), svcs, filter);
            if j < rest.len() {
                assert(ms.drop_last().contains(rest[j]));
                let a = choose|a: int| 0 <= a < ms.drop_last().len() && ms.drop_last()[a] == rest[j];
                assert(ms[a] == rest[j]);
            } else {
                assert(vm[j] == ms.last());
                assert(ms[ms.len() - 1] == ms.last());
            }
        }
    }
}

/// Filter invariant, from category `k` onward: every service item of the
/// projection names a service that passes the filter, and every category
/// item stands for a category with at least one passing member.
proof fn lemma_visible_from_sound(
    cats: Seq<CategoryGroup>,
    svcs: Seq<Service>,
    filter: Seq<char>,
    k: int,
    t: int,
)
    requires
        0 <= k,
        cats.len() <= usize::MAX,
        0 <= t < visible_from(cats, k, svcs, filter).len(),
    ensures
        match visible_from(cats, k, svcs, filter)[t] {
            VisibleItem::Category(c) => k <= c < cats.len() && visible_members(
                cats[c as int].services@,
                svcs,
                filter,
            ).len() > 0,
            VisibleItem::Service(s) => passes_filter(svcs[s as int].name@, filter),
        },
    decreases cats.len() - k,
{
    let seg = cat_segment(cats, k, svcs, filter);
    let vm = visible_members(cats[k].services@, svcs, filter);
    if t < seg.len() {
        assert(visible_from(cats, k, svcs, filter)[t] == seg[t]);
        if t == 0 {
            assert(seg[0] == VisibleItem::Category(k as usize));
            assert(vm.len() > 0);
            assert(k <= (k as usize) < cats.len());
        } else {
            assert(seg[t] == vm.map(|j: int, s: usize| VisibleItem::Service(s))[t - 1]);
            assert(vm.map(|j: int, s: usize| VisibleItem::Service(s))[t - 1]
                == VisibleItem::Service(vm[t - 1]));
            lemma_visible_members_sound(cats[k].services@, svcs, filter);
            assert(passes_filter(svcs[vm[t - 1] as int].name@, filter));
        }
    } else {
        lemma_visible_from_sound(cats, svcs, filter, k + 1, t - seg.len());
        assert(visible_from(cats, k, svcs, filter)[t] == visible_from(cats, k + 1, svcs, filter)[t
            - seg.len()]);
    }
}

/// Filter invariant: for any filter text, every service item of the
/// projection names a service whose identifier contains the filter up to
/// ASCII case (trivially, when the filter is empty), and every category
/// item stands for a category at least one of whose members passes.
pub proof fn lemma_filter_invariant(
    cats: Seq<CategoryGroup>,
    svcs: Seq<Service>,
    filter: Seq<char>,
    t: int,
)
    requires
        cats.len() <= usize::MAX,
        0 <= t < spec_visible(cats, svcs, filter).len(),
    ensures
        match spec_visible(cats, svcs, filter)[t] {
            VisibleItem::Category(c) => 0 <= c < cats.len() && visible_members(
                cats[c as int].services@,
                svcs,
                filter,
            ).len() > 0,
            VisibleItem::Service(s) => passes_filter(svcs[s as int].name@, filter),
        },
{
    lemma_visible_from_sound(cats, svcs, filter, 0, t);
}

/// Suffix segments are untouched when a category before them changes.
proof fn lemma_visible_from_unchanged(
    c1: Seq<CategoryGroup>,
    c2: Seq<CategoryGroup>,
    svcs: Seq<Service>,
    filter: Seq<char>,
    k: int,
)
    requires
        c2.len() == c1.len(),
        forall|j: int| k <= j < c1.len() ==> c2[j] == c1[j],
    ensures
        visible_from(c2, k, svcs, filter) == visible_from(c1, k, svcs, filter),
    decreases c1.len() - k,
{
    if 0 <= k < c1.len() {
        lemma_visible_from_unchanged(c1, c2, svcs, filter, k + 1);
    }
}

/// The projection splits at category `k`: the items of the categories
/// before it, its own segment, and the items of the categories after it.
proof fn lemma_visible_decompose(
    cats: Seq<CategoryGroup>,
    svcs: Seq<Service>,
    filter: Seq<char>,
    j: int,
    k: int,
)
    requires
        0 <= j <= k < cats.len(),
    ensures
        visible_from(cats, j, svcs, filter) == visible_from(cats.take(k), j, svcs, filter)
            + cat_segment(cats, k, svcs, filter) + visible_from(cats, k + 1, svcs, filter),
    decreases k - j,
{
    let pre = cats.take(k);
    if j == k {
        assert(visible_from(pre, j, svcs, filter) == Seq::<VisibleItem>::empty());
        assert(visible_from(cats, j, svcs, filter) == cat_segment(cats, j, svcs, filter)
            + visible_from(cats, j + 1, svcs, filter));
        assert(visible_from(pre, j, svcs, filter) + cat_segment(cats, k, svcs, filter)
            + visible_from(cats, k + 1, svcs, filter) =~= cat_segment(cats, k, svcs, filter)
            + visible_from(cats, k + 1, svcs, filter));
    } else {
        lemma_visible_decompose(cats, svcs, filter, j + 1, k);
        assert(pre[j] == cats[j]);
        assert(cat_segment(pre, j, svcs, filter) == cat_segment(cats, j, svcs, filter));
        assert(visible_from(pre, j, svcs, filter) == cat_segment(pre, j, svcs, filter)
            + visible_from(pre, j + 1, svcs, filter));
        assert(visible_from(cats, j, svcs, filter) =~= visible_from(pre, j, svcs, filter)
            + cat_segment(cats, k, svcs, filter) + visible_from(cats, k + 1, svcs, filter));
    }
}

/// Collapse invariant: changing one category's collapsed flag changes
/// exactly that category's stretch of the projection. The items before
/// and after it stay as they are; the category keeps its header while it
/// has members that pass the filter; collapsing sheds exactly its service
/// items, and expanding restores them in their original relative order.
pub proof fn lemma_collapse_effect(
    cats: Seq<CategoryGroup>,
    svcs: Seq<Service>,
    filter: Seq<char>,
    k: int,
    f: bool,
)
    requires
        0 <= k < cats.len(),
    ensures
        ({
            let cats2 = cats.update(k, with_collapsed(cats[k], f));
            let vm = visible_members(cats[k].services@, svcs, filter);
            let header: Seq<VisibleItem> = if vm.len() == 0 {
                Seq::empty()
            } else {
                seq![VisibleItem::Category(k as usize)]
            };
            let body: Seq<VisibleItem> = if vm.len() == 0 || f {
                Seq::empty()
            } else {
                vm.map(|j: int, s: usize| VisibleItem::Service(s))
            };
            spec_visible(cats2, svcs, filter) == spec_visible(cats.take(k), svcs, filter) + header
                + body + visible_from(cats, k + 1, svcs, filter)
        }),
{
    let cats2 = cats.update(k, with_collapsed(cats[k], f));
    let vm = visible_members(cats[k].services@, svcs, filter);
    let header: Seq<VisibleItem> = if vm.len() == 0 {
        Seq::empty()
    } else {
        seq![VisibleItem::Category(k as usize)]
    };
    let body: Seq<VisibleItem> = if vm.len() == 0 || f {
        Seq::empty()
    } else {
        vm.map(|j: int, s: usize| VisibleItem::Service(s))
    };
    lemma_visible_decompose(cats2, svcs, filter, 0, k);
    assert(cats2.take(k) =~= cats.take(k));
    lemma_visible_from_unchanged(cats, cats2, svcs, filter, k + 1);
    assert(cats2[k] == with_collapsed(cats[k], f));
    assert(cats2[k].services == cats[k].services);
    assert(cat_segment(cats2, k, svcs, filter) =~= header + body);
    assert(spec_visible(cats2, svcs, filter) == visible_from(cats2.take(k), 0, svcs, filter)
        + cat_segment(cats2, k, svcs, filter) + visible_from(cats2, k + 1, svcs, filter));
    assert(visible_from(cats.take(k), 0, svcs, filter) + (header + body) + visible_from(
        cats,
        k + 1,
        svcs,
        filter,
    ) =~= visible_from(cats.take(k), 0, svcs, filter) + header + body + visible_from(
        cats,
        k + 1,
        svcs,
        filter,
    ));
}

/// The projection of unchanged state decomposes the same way: reading
/// `lemma_collapse_effect` at the category's current flag shows which
/// items an expand restores — the same member items, in the same order.
pub proof fn lemma_visible_split_at(
    cats: Seq<CategoryGroup>,
    svcs: Seq<Service>,
    filter: Seq<char>,
    k: int,
)
    requires
        0 <= k < cats.len(),
    ensures
        spec_visible(cats, svcs, filter) == spec_visible(cats.take(k), svcs, filter) + cat_segment(
            cats,
            k,
            svcs,
            filter,
        ) + visible_from(cats, k + 1, svcs, filter),
{
    lemma_visible_decompose(cats, svcs, filter, 0, k);
}

/// The indices of the dirty services among the first `n`, in list order.
pub open spec fn dirty_indices_upto(svcs: Seq<Service>, orig: Seq<bool>, n: int) -> Seq<int>
    decreases n,
{
    if n <= 0 {
        Seq::empty()
    } else {
        let rest = dirty_indices_upto(svcs, orig, n - 1);
        if svcs[n - 1].enabled != orig[n - 1] {
            rest.push(n - 1)
        } else {
            rest
        }
    }
}

/// The indices of the dirty services, in list order.
pub open spec fn dirty_indices(svcs: Seq<Service>, orig: Seq<bool>) -> Seq<int> {
    dirty_indices_upto(svcs, orig, svcs.len() as int)
}

/// The dirty indices among the first `n` are exactly the positions whose
/// enabled flag differs from the loaded one, each below `n` and in
/// strictly increasing order.
proof fn lemma_dirty_upto_exact(svcs: Seq<Service>, orig: Seq<bool>, n: int, i: int)
    requires
        0 <= n,
    ensures
        dirty_indices_upto(svcs, orig, n).contains(i) == (0 <= i < n && svcs[i].enabled
            != orig[i]),
    decreases n,
{
    let cur = dirty_indices_upto(svcs, orig, n);
    if n > 0 {
        lemma_dirty_upto_exact(svcs, orig, n - 1, i);
        let rest = dirty_indices_upto(svcs, orig, n - 1);
        if svcs[n - 1].enabled != orig[n - 1] {
            assert(cur == rest.push(n - 1));
            if 0 <= i < n && svcs[i].enabled != orig[i] {
                if i == n - 1 {
                    assert(cur[cur.len() - 1] == i);
                } else {
                    let j = choose|j: int| 0 <= j < rest.len() && rest[j] == i;
                    assert(cur[j] == i);
                }
            }
            if cur.contains(i) {
                let j = choose|j: int| 0 <= j < cur.len() && cur[j] == i;
                if j < rest.len() {
                    assert(rest[j] == i);
                }
            }
        }
    }
}

/// The dirty-set invariant: a service index stands among the dirty
/// indices exactly when its in-memory enabled flag differs from the one
/// recorded at the last load.
pub proof fn lemma_dirty_indices_exact(svcs: Seq<Service>, orig: Seq<bool>, i: int)
    requires
        0 <= i < svcs.len(),
    ensures
        dirty_indices(svcs, orig).contains(i) == (svcs[i].enabled != orig[i]),
{
    lemma_dirty_upto_exact(svcs, orig, svcs.len() as int, i);
}

/// The dirty indices come in service-list order: strictly increasing,
/// never in the order the user happened to toggle in.
pub proof fn lemma_dirty_indices_increasing(svcs: Seq<Service>, orig: Seq<bool>, n: int)
    requires
        0 <= n,
    ensures
        forall|a: int, b: int|
            0 <= a < b < dirty_indices_upto(svcs, orig, n).len() ==> dirty_indices_upto(
                svcs,
                orig,
                n,
            )[a] < dirty_indices_upto(svcs, orig, n)[b],
        forall|a: int|
            0 <= a < dirty_indices_upto(svcs, orig, n).len() ==> 0 <= #[trigger] dirty_indices_upto(
                svcs,
                orig,
                n,
            )[a] < n,
    decreases n,
{
    if n > 0 {
        lemma_dirty_indices_increasing(svcs, orig, n - 1);
        let rest = dirty_indices_upto(svcs, orig, n - 1);
        let cur = dirty_indices_upto(svcs, orig, n);
        if svcs[n - 1].enabled != orig[n - 1] {
            assert(cur == rest.push(n - 1));
            assert forall|a: int| 0 <= a < cur.len() implies 0 <= #[trigger] cur[a] < n by {
                if a < rest.len() {
                    assert(cur[a] == rest[a]);
                }
            }
            assert forall|a: int, b: int| 0 <= a < b < cur.len() implies cur[a] < cur[b] by {
                assert(cur[a] == rest[a]);
                if b < rest.len() {
                    assert(cur[b] == rest[b]);
                } else {
                    assert(cur[b] == n - 1);
                    assert(rest[a] < n - 1);
                }
            }
        }
    }
}

/// The application state. All fields are plain data for the presentation
/// layer to read; the verified methods keep `wf` standing.
#[derive(Debug)]
pub struct App {
    pub services: Vec<Service>,
    pub original: Vec<bool>,
    pub tab: Tab,
    pub mode: Mode,
    pub filter: String,
    pub categories: Vec<CategoryGroup>,
    pub cursor: usize,
    pub visible_items: Vec<VisibleItem>,
    pub results: Vec<ChangeResult>,
    pub info: Option<ServiceInfo>,
    pub should_quit: bool,
}

impl App {
    /// Well-formedness: the original-state record runs parallel to the
    /// service list, the groups are exact, every visible item points into
    /// its array, and the cursor is valid or 0 on an empty projection.
    pub open spec fn wf(self) -> bool {
        &&& self.original@.len() == self.services@.len()
        &&& categories_wf(self.categories@, self.services@)
        &&& forall|t: int|
            0 <= t < self.visible_items@.len() ==> item_in_range(
                #[trigger] self.visible_items@[t],
                self.categories@.len() as int,
                self.services@.len() as int,
            )
        &&& self.cursor < self.visible_items@.len() || self.cursor == 0
    }

    /// Service `i` is dirty: its enabled flag differs from the loaded one.
    pub open spec fn spec_dirty_at(self, i: int) -> bool {
        self.services@[i].enabled != self.original@[i]
    }

    /// Some service with this identifier is dirty.
    pub open spec fn spec_name_dirty(self, name: Seq<char>) -> bool {
        exists|i: int|
            0 <= i < self.services@.len() && (#[trigger] self.services@[i].name)@ == name
                && self.spec_dirty_at(i)
    }

    /// A fresh, empty application state: system tab, normal mode, nothing
    /// loaded yet.
    pub fn new() -> (a: App)
        ensures
            a.wf(),
            a.services@ == Seq::<Service>::empty(),
            a.original@ == Seq::<bool>::empty(),
            a.tab == Tab::System,
            a.mode == Mode::Normal,
            a.filter@ == Seq::<char>::empty(),
            a.categories@ == Seq::<CategoryGroup>::empty(),
            a.cursor == 0,
            a.visible_items@ == Seq::<VisibleItem>::empty(),
            a.results@ == Seq::<ChangeResult>::empty(),
            a.info is None,
            !a.should_quit,
    {
        App {
            services: Vec::new(),
            original: Vec::new(),
            tab: Tab::System,
            mode: Mode::Normal,
            filter: String::new(),
            categories: Vec::new(),
            cursor: 0,
            visible_items: Vec::new(),
            results: Vec::new(),
            info: None,
            should_quit: false,
        }
    }

    /// Replace the whole state with a freshly loaded service list: record
    /// its enabled flags as the original state (so nothing is dirty),
    /// clear the filter, the results and the cursor, and rebuild the
    /// groups and the visible projection. The tab, the mode and the info
    /// panel are left as they are.
    pub fn refresh(&mut self, services: Vec<Service>)
        requires
            old(self).wf(),
        ensures
            final(self).wf(),
            final(self).services@ == services@,
            final(self).original@.len() == services@.len(),
            forall|i: int|
                0 <= i < services@.len() ==> final(self).original@[i] == services@[i].enabled,
            final(self).filter@ == Seq::<char>::empty(),
            final(self).results@ == Seq::<ChangeResult>::empty(),
            final(self).cursor == 0,
            final(self).tab == old(self).tab,
            final(self).mode == old(self).mode,
            final(self).info == old(self).info,
            final(self).should_quit == old(self).should_quit,
            forall|k: int|
                0 <= k < final(self).categories@.len()
                    ==> !(#[trigger] final(self).categories@[k]).collapsed,
            final(self).visible_items@ == spec_visible(
                final(self).categories@,
                services@,
                Seq::<char>::empty(),
            ),
            dirty_indices(final(self).services@, final(self).original@).len() == 0,
    {
        let n = services.len();
        let mut original: Vec<bool> = Vec::new();
        let mut i: usize = 0;
        while i < n
            invariant
                n == services@.len(),
                i <= n,
                original@.len() == i,
                forall|j: int| 0 <= j < i ==> original@[j] == services@[j].enabled,
            decreases n - i,
        {
            original.push(services[i].enabled);
            i = i + 1;
        }
        let categories = build_categories(&services);
        let filter = String::new();
        let visible = build_visible(&categories, &services, &filter);
        self.services = services;
        self.original = original;
        self.filter = filter;
        self.categories = categories;
        self.visible_items = visible;
        self.cursor = 0;
        self.results = Vec::new();
        proof {
            lemma_clean_upto(self.services@, self.original@, self.services@.len() as int);
        }
    }

    /// Move the cursor by `delta` with wraparound; a no-op on an empty
    /// projection. The cursor never leaves `[0, len)`.
    pub fn move_cursor(&mut self, delta: i32)
        requires
            old(self).wf(),
        ensures
            final(self).wf(),
            *final(self) == (App { cursor: final(self).cursor, ..*old(self) }),
            old(self).visible_items@.len() == 0 ==> final(self).cursor == old(self).cursor,
            old(self).visible_items@.len() > 0 ==> final(self).cursor as int == (
            old(self).cursor + delta) % (old(self).visible_items@.len() as int),
    {
        let len = self.visible_items.len();
        if len == 0 {
            return ;
        }
        let c = self.cursor;
        let mag: u64 = if delta >= 0 {
            delta as u64
        } else {
            (-(delta as i64)) as u64
        };
        let steps: usize = (mag % (len as u64)) as usize;
        proof {
            vstd::arithmetic::div_mod::lemma_mod_bound(mag as int, len as int);
        }
        if delta >= 0 {
            let room = len - 1 - c;
            self.cursor = if steps <= room {
                c + steps
            } else {
                steps - room - 1
            };
            proof {
                lemma_wrap_forward(c as int, delta as int, mag as int, steps as int, len as int);
            }
        } else {
            self.cursor = if steps <= c {
                c - steps
            } else {
                len - (steps - c)
            };
            proof {
                lemma_wrap_backward(c as int, delta as int, mag as int, steps as int, len as int);
            }
        }
    }

    /// If the cursor is on a service, flip its enabled flag; the dirty set
    /// needs no separate update, being derived from the flags themselves.
    /// A no-op when the cursor is on a category header.
    pub fn toggle_current(&mut self)
        requires
            old(self).wf(),
        ensures
            final(self).wf(),
            match old(self).current_service() {
                Some(s) => toggles_service(*old(self), *final(self), s),
                None => *final(self) == *old(self),
            },
    {
        if self.cursor < self.visible_items.len() {
            let item = self.visible_items[self.cursor];
            if let VisibleItem::Service(svc_idx) = item {
                let name = self.services[svc_idx].name.clone();
                let enabled = self.services[svc_idx].enabled;
                let active = self.services[svc_idx].active;
                self.services[svc_idx] = Service { name, enabled: !enabled, active };
                proof {
                    assert(final(self).services@ =~= old(self).services@.update(
                        svc_idx as int,
                        with_enabled(old(self).services@[svc_idx as int], !enabled),
                    ));
                    lemma_categories_wf_same_names(
                        self.categories@,
                        old(self).services@,
                        self.services@,
                    );
                }
            }
        }
    }

    /// Recompute the visible-item projection from the categories, the
    /// filter and the collapse flags; the result is a pure function of
    /// those, so a second call with nothing changed yields the same items.
    /// Keeps the cursor in range when the projection shrank under it.
    pub fn rebuild_visible(&mut self)
        requires
            old(self).wf(),
        ensures
            final(self).wf(),
            rebuilds_to(*old(self), *final(self)),
    {
        let v = build_visible(&self.categories, &self.services, &self.filter);
        self.visible_items = v;
        if self.cursor >= self.visible_items.len() {
            let len = self.visible_items.len();
            self.cursor = if len == 0 {
                0
            } else {
                len - 1
            };
        }
    }

    /// Replace the filter text, rebuild the projection, and put the
    /// cursor back at the top.
    pub fn set_filter(&mut self, text: String)
        requires
            old(self).wf(),
        ensures
            final(self).wf(),
            *final(self) == (App {
                filter: final(self).filter,
                cursor: 0,
                visible_items: final(self).visible_items,
                ..*old(self)
            }),
            final(self).filter@ == text@,
            final(self).visible_items@ == spec_visible(
                old(self).categories@,
                old(self).services@,
                text@,
            ),
            final(self).cursor == 0,
    {
        self.filter = text;
        self.rebuild_visible();
        self.cursor = 0;
    }

    /// Flip the collapsed flag of the category under the cursor — for a
    /// service, of its owning category — then rebuild the projection and
    /// keep the cursor in range. A no-op when there is no target.
    pub fn toggle_collapse(&mut self)
        requires
            old(self).wf(),
        ensures
            final(self).wf(),
            match old(self).collapse_target() {
                Some(k) => {
                    &&& *final(self) == (App {
                        categories: final(self).categories,
                        cursor: final(self).cursor,
                        visible_items: final(self).visible_items,
                        ..*old(self)
                    })
                    &&& final(self).categories@ == old(self).categories@.update(
                        k,
                        with_collapsed(
                            old(self).categories@[k],
                            !old(self).categories@[k].collapsed,
                        ),
                    )
                    &&& final(self).visible_items@ == spec_visible(
                        final(self).categories@,
                        old(self).services@,
                        old(self).filter@,
                    )
                    &&& final(self).cursor == clamp_cursor(
                        old(self).cursor as int,
                        final(self).visible_items@.len() as int,
                    )
                },
                None => *final(self) == *old(self),
            },
    {
        let mut target: Option<usize> = None;
        if self.cursor < self.visible_items.len() {
            match self.visible_items[self.cursor] {
                VisibleItem::Category(k) => {
                    target = Some(k);
                },
                VisibleItem::Service(s) => {
                    target = find_owning_category(&self.categories, s);
                },
            }
        }
        if let Some(k) = target {
            let collapsed = self.categories[k].collapsed;
            self.categories[k].collapsed = !collapsed;
            proof {
                assert(self.categories@ =~= old(self).categories@.update(
                    k as int,
                    with_collapsed(old(self).categories@[k as int], !collapsed),
                ));
                lemma_categories_wf_flag_change(
                    old(self).categories@,
                    self.categories@,
                    self.services@,
                );
            }
            self.rebuild_visible();
        }
    }

    /// The category the cursor acts on when collapsing: the category under
    /// the cursor, or the owning category of the service under it.
    pub open spec fn collapse_target(self) -> Option<int> {
        if self.cursor < self.visible_items@.len() {
            match self.visible_items@[self.cursor as int] {
                VisibleItem::Category(k) => Some(k as int),
                VisibleItem::Service(s) => owning_category(self.categories@, s),
            }
        } else {
            None
        }
    }

    /// Switch to the other scope's tab: the filter is cleared and the
    /// state reloaded from the handed-in service list. Any unapplied
    /// changes are discarded by design — after the switch nothing is
    /// dirty and the filter is empty, whatever held before.
    pub fn switch_tab(&mut self, services: Vec<Service>)
        requires
            old(self).wf(),
        ensures
            final(self).wf(),
            final(self).tab == (match old(self).tab {
                Tab::System => Tab::User,
                Tab::User => Tab::System,
            }),
            final(self).filter@ == Seq::<char>::empty(),
            dirty_indices(final(self).services@, final(self).original@).len() == 0,
            final(self).services@ == services@,
            final(self).results@ == Seq::<ChangeResult>::empty(),
            final(self).cursor == 0,
            final(self).mode == old(self).mode,
            final(self).info == old(self).info,
            final(self).should_quit == old(self).should_quit,
            final(self).visible_items@ == spec_visible(
                final(self).categories@,
                services@,
                Seq::<char>::empty(),
            ),
    {
        self.tab = match self.tab {
            Tab::System => Tab::User,
            Tab::User => Tab::System,
        };
        self.refresh(services);
    }

    /// Record the finished batch's results, then reload from the handed-in
    /// fresh listing, so the displayed state reflects ground truth rather
    /// than the optimistic in-memory toggles.
    pub fn apply_done(&mut self, results: Vec<ChangeResult>, services: Vec<Service>)
        requires
            old(self).wf(),
        ensures
            final(self).wf(),
            final(self).results@ == results@,
            final(self).services@ == services@,
            final(self).filter@ == Seq::<char>::empty(),
            final(self).cursor == 0,
            dirty_indices(final(self).services@, final(self).original@).len() == 0,
            final(self).tab == old(self).tab,
            final(self).mode == old(self).mode,
            final(self).info == old(self).info,
            final(self).should_quit == old(self).should_quit,
            final(self).visible_items@ == spec_visible(
                final(self).categories@,
                services@,
                Seq::<char>::empty(),
            ),
    {
        self.refresh(services);
        self.results = results;
    }

    /// If the cursor is on a service, record that service's descriptive
    /// info and switch to info mode; a no-op otherwise.
    pub fn show_info(&mut self, info: ServiceInfo)
        requires
            old(self).wf(),
        ensures
            final(self).wf(),
            match old(self).current_service() {
                Some(s) => {
                    &&& *final(self) == (App {
                        mode: Mode::Info,
                        info: final(self).info,
                        ..*old(self)
                    })
                    &&& final(self).info == Some(info)
                },
                None => *final(self) == *old(self),
            },
    {
        if self.cursor < self.visible_items.len() {
            if let VisibleItem::Service(_s) = self.visible_items[self.cursor] {
                self.info = Some(info);
                self.mode = Mode::Info;
            }
        }
    }

    /// The pending changes, derived from the dirty services in service
    /// list order: one change per dirty service, enabling it when its
    /// in-memory flag is on, disabling it when off, in the current scope.
    pub fn pending_changes(&self) -> (r: Vec<PendingChange>)
        requires
            self.wf(),
        ensures
            r@.len() == dirty_indices(self.services@, self.original@).len(),
            forall|j: int|
                0 <= j < r@.len() ==> {
                    let i = dirty_indices(self.services@, self.original@)[j];
                    &&& (#[trigger] r@[j]).service@ == self.services@[i].name@
                    &&& r@[j].scope == spec_scope_for_tab(self.tab)
                    &&& r@[j].action == (if self.services@[i].enabled {
                        ChangeAction::Enable
                    } else {
                        ChangeAction::Disable
                    })
                },
    {
        let scope = scope_for_tab(self.tab);
        let mut r: Vec<PendingChange> = Vec::new();
        let n = self.services.len();
        let mut i: usize = 0;
        while i < n
            invariant
                self.wf(),
                n == self.services@.len(),
                i <= n,
                scope == spec_scope_for_tab(self.tab),
                r@.len() == dirty_indices_upto(self.services@, self.original@, i as int).len(),
                forall|j: int|
                    0 <= j < r@.len() ==> {
                        let di = dirty_indices_upto(self.services@, self.original@, i as int)[j];
                        &&& 0 <= di < i
                        &&& (#[trigger] r@[j]).service@ == self.services@[di].name@
                        &&& r@[j].scope == spec_scope_for_tab(self.tab)
                        &&& r@[j].action == (if self.services@[di].enabled {
                            ChangeAction::Enable
                        } else {
                            ChangeAction::Disable
                        })
                    },
            decreases n - i,
        {
            proof {
                reveal_dirty_step(self.services@, self.original@, i as int);
            }
            if self.services[i].enabled != self.original[i] {
                let action = if self.services[i].enabled {
                    ChangeAction::Enable
                } else {
                    ChangeAction::Disable
                };
                r.push(
                    PendingChange { service: self.services[i].name.clone(), scope, action },
                );
            }
            i = i + 1;
        }
        r
    }

    /// The service index under the cursor, if the cursor is on a service.
    pub open spec fn current_service(self) -> Option<int> {
        if self.cursor < self.visible_items@.len() {
            match self.visible_items@[self.cursor as int] {
                VisibleItem::Service(s) => Some(s as int),
                VisibleItem::Category(k) => None,
            }
        } else {
            None
        }
    }

    /// Whether this service is dirty, looked up by its identifier.
    pub fn is_service_dirty(&self, svc: &Service) -> (r: bool)
        requires
            self.wf(),
        ensures
            r == self.spec_name_dirty(svc.name@),
    {
        let mut i: usize = 0;
        let n = self.services.len();
        while i < n
            invariant
                self.wf(),
                n == self.services@.len(),
                i <= n,
                forall|j: int|
                    0 <= j < i ==> !((#[trigger] self.services@[j].name)@ == svc.name@
                        && self.spec_dirty_at(j)),
            decreases n - i,
        {
            if self.services[i].name.eq(&svc.name) && self.services[i].enabled != self.original[i] {
                return true;
            }
            i = i + 1;
        }
        false
    }

    /// How many services are dirty.
    pub fn pending_count(&self) -> (r: usize)
        requires
            self.wf(),
        ensures
            r == dirty_indices(self.services@, self.original@).len(),
    {
        let mut i: usize = 0;
        let mut count: usize = 0;
        let n = self.services.len();
        while i < n
            invariant
                self.wf(),
                n == self.services@.len(),
                i <= n,
                count == dirty_indices_upto(self.services@, self.original@, i as int).len(),
                count <= i,
            decreases n - i,
        {
            proof {
                reveal_dirty_step(self.services@, self.original@, i as int);
            }
            if self.services[i].enabled != self.original[i] {
                count = count + 1;
            }
            i = i + 1;
        }
        count
    }

    /// Whether any service is dirty.
    pub fn has_pending_changes(&self) -> (r: bool)
        requires
            self.wf(),
        ensures
            r == (dirty_indices(self.services@, self.original@).len() > 0),
    {
        self.pending_count() > 0
    }
}

/// Build the category groups of a freshly loaded service list: one group
/// per non-empty category, in the fixed category order, members in list
/// order, all groups expanded.
fn build_categories(services: &Vec<Service>) -> (cats: Vec<CategoryGroup>)
    ensures
        categories_wf(cats@, services@),
        forall|k: int| 0 <= k < cats@.len() ==> !(#[trigger] cats@[k]).collapsed,
{
    let n = services.len();
    let mut cats: Vec<CategoryGroup> = Vec::new();
    let mut c: usize = 0;
    while c < 9
        invariant
            n == services@.len(),
            c <= 9,
            forall|k: int| 0 <= k < cats@.len() ==> (#[trigger] cats@[k].id) < c,
            forall|k: int|
                0 <= k < cats@.len() ==> (#[trigger] cats@[k].name)@ == category_name(
                    cats@[k].id as int,
                ),
            forall|k1: int, k2: int|
                0 <= k1 < k2 < cats@.len() ==> (#[trigger] cats@[k1].id) < (#[trigger] cats@[k2].id),
            forall|k: int| 0 <= k < cats@.len() ==> (#[trigger] cats@[k].services)@.len() > 0,
            forall|k: int|
                0 <= k < cats@.len() ==> is_members_of(
                    (#[trigger] cats@[k].services)@,
                    services@,
                    cats@[k].id as int,
                ),
            forall|i: int|
                0 <= i < n && spec_categorize((#[trigger] services@[i].name)@) < c
                    ==> has_group_for(cats@, services@[i].name@),
            forall|k: int| 0 <= k < cats@.len() ==> !(#[trigger] cats@[k]).collapsed,
        decreases 9 - c,
    {
        let mut ms: Vec<usize> = Vec::new();
        let mut i: usize = 0;
        while i < n
            invariant
                n == services@.len(),
                i <= n,
                forall|a: int|
                    0 <= a < ms@.len() ==> (#[trigger] ms@[a]) < i && spec_categorize(
                        services@[ms@[a] as int].name@,
                    ) == c,
                forall|a: int, b: int| 0 <= a < b < ms@.len() ==> ms@[a] < ms@[b],
                forall|j: int|
                    0 <= j < i && spec_categorize((#[trigger] services@[j].name)@) == c
                        ==> ms@.contains(j as usize),
            decreases n - i,
        {
            let ghost prev_ms = ms@;
            if categorize_index(services[i].name.as_str()) == c {
                ms.push(i);
                proof {
                    assert forall|j: int|
                        0 <= j < i + 1 && spec_categorize(
                            (#[trigger] services@[j].name)@,
                        ) == c implies ms@.contains(j as usize) by {
                        if j < i {
                            assert(prev_ms.contains(j as usize));
                            let a = choose|a: int| 0 <= a < prev_ms.len() && prev_ms[a] == j as usize;
                            assert(ms@[a] == j as usize);
                        } else {
                            assert(ms@[ms@.len() - 1] == j as usize);
                        }
                    }
                }
            }
            i = i + 1;
        }
        if ms.len() > 0 {
            let g = CategoryGroup {
                name: category_label(c),
                id: c,
                services: ms,
                collapsed: false,
            };
            let ghost prev = cats@;
            cats.push(g);
            proof {
                assert forall|i: int|
                    0 <= i < n && spec_categorize((#[trigger] services@[i].name)@) < c
                        + 1 implies has_group_for(cats@, services@[i].name@) by {
                    let cat = spec_categorize(services@[i].name@);
                    if cat < c {
                        assert(has_group_for(prev, services@[i].name@));
                        let k = choose|k: int|
                            0 <= k < prev.len() && (#[trigger] prev[k].id) == cat;
                        assert(cats@[k].id == cat);
                    } else {
                        assert(cats@[cats@.len() - 1].id == cat);
                    }
                }
            }
        } else {
            proof {
                assert forall|i: int|
                    0 <= i < n && spec_categorize((#[trigger] services@[i].name)@) < c
                        + 1 implies has_group_for(cats@, services@[i].name@) by {
                    let cat = spec_categorize(services@[i].name@);
                    if cat == c {
                        assert(ms@.contains(i as usize));
                    }
                }
            }
        }
        c = c + 1;
    }
    proof {
        assert forall|i: int| 0 <= i < services@.len() implies has_group_for(
            cats@,
            (#[trigger] services@[i].name)@,
        ) by {
            crate::categories::lemma_categorize_in_range(services@[i].name@);
        }
    }
    cats
}

/// Recompute the flattened projection from the groups, the services and
/// the filter.
fn build_visible(cats: &Vec<CategoryGroup>, services: &Vec<Service>, filter: &String) -> (v: Vec<
    VisibleItem,
>)
    requires
        categories_wf(cats@, services@),
    ensures
        v@ == spec_visible(cats@, services@, filter@),
        forall|t: int|
            0 <= t < v@.len() ==> item_in_range(
                #[trigger] v@[t],
                cats@.len() as int,
                services@.len() as int,
            ),
{
    let ncats = cats.len();
    let mut v: Vec<VisibleItem> = Vec::new();
    let mut k: usize = 0;
    while k < ncats
        invariant
            categories_wf(cats@, services@),
            ncats == cats@.len(),
            k <= ncats,
            v@ + visible_from(cats@, k as int, services@, filter@) == spec_visible(
                cats@,
                services@,
                filter@,
            ),
            forall|t: int|
                0 <= t < v@.len() ==> item_in_range(
                    #[trigger] v@[t],
                    cats@.len() as int,
                    services@.len() as int,
                ),
        decreases ncats - k,
    {
        let nm = cats[k].services.len();
        let mut vm: Vec<usize> = Vec::new();
        let mut a: usize = 0;
        proof {
            assert(cats@[k as int].services@.take(0) =~= Seq::<usize>::empty());
        }
        while a < nm
            invariant
                categories_wf(cats@, services@),
                ncats == cats@.len(),
                k < ncats,
                nm == cats@[k as int].services@.len(),
                a <= nm,
                vm@ == visible_members(
                    cats@[k as int].services@.take(a as int),
                    services@,
                    filter@,
                ),
                forall|t: int| 0 <= t < vm@.len() ==> (#[trigger] vm@[t]) < services@.len(),
            decreases nm - a,
        {
            let idx = *vec_ref(&cats[k].services, a);
            proof {
                assert(is_members_of(cats@[k as int].services@, services@, cats@[k as int].id as int));
                assert(cats@[k as int].services@[a as int] < services@.len());
            }
            let keep = filter.as_str().is_empty() || str_contains_ci(
                services[idx].name.as_str(),
                filter.as_str(),
            );
            if keep {
                vm.push(idx);
            }
            proof {
                let ms = cats@[k as int].services@;
                assert(ms.take(a + 1).drop_last() =~= ms.take(a as int));
                assert(ms.take(a + 1).last() == ms[a as int]);
            }
            a = a + 1;
        }
        proof {
            assert(cats@[k as int].services@.take(nm as int) =~= cats@[k as int].services@);
        }
        let ghost seg = cat_segment(cats@, k as int, services@, filter@);
        let ghost v_before = v@;
        if vm.len() > 0 {
            v.push(VisibleItem::Category(k));
            if !cats[k].collapsed {
                let nvm = vm.len();
                let mut b: usize = 0;
                while b < nvm
                    invariant
                        nvm == vm@.len(),
                        b <= nvm,
                        v@ == v_before + seq![VisibleItem::Category(k as usize)] + vm@.take(
                            b as int,
                        ).map(|j: int, s: usize| VisibleItem::Service(s)),
                        forall|t: int| 0 <= t < vm@.len() ==> (#[trigger] vm@[t]) < services@.len(),
                        k < ncats,
                        ncats == cats@.len(),
                    decreases nvm - b,
                {
                    proof {
                        assert(v@ + seq![VisibleItem::Service(vm@[b as int])] =~= v_before + seq![
                            VisibleItem::Category(k as usize),
                        ] + vm@.take(b + 1).map(|j: int, s: usize| VisibleItem::Service(s))) by {
                            assert(vm@.take(b + 1) =~= vm@.take(b as int).push(vm@[b as int]));
                            assert(vm@.take(b + 1).map(
                                |j: int, s: usize| VisibleItem::Service(s),
                            ) =~= vm@.take(b as int).map(|j: int, s: usize| VisibleItem::Service(s)).push(
                                VisibleItem::Service(vm@[b as int]),
                            ));
                        }
                    }
                    let item = *vec_ref(&vm, b);
                    v.push(VisibleItem::Service(item));
                    b = b + 1;
                }
                proof {
                    assert(vm@.take(nvm as int) =~= vm@);
                    assert(v@ =~= v_before + seg);
                }
            } else {
                proof {
                    assert(v@ =~= v_before + seg);
                }
            }
        } else {
            proof {
                assert(seg =~= Seq::<VisibleItem>::empty());
                assert(v@ =~= v_before + seg);
            }
        }
        proof {
            assert(visible_from(cats@, k as int, services@, filter@) == seg + visible_from(
                cats@,
                k + 1,
                services@,
                filter@,
            ));
            assert(v_before + (seg + visible_from(cats@, k + 1, services@, filter@)) =~= (v_before
                + seg) + visible_from(cats@, k + 1, services@, filter@));
        }
        k = k + 1;
    }
    proof {
        assert(v@ + visible_from(cats@, ncats as int, services@, filter@) =~= v@);
    }
    v
}

/// The first category at position `k` or later whose members hold `s`.
pub open spec fn owning_category_from(cats: Seq<CategoryGroup>, s: usize, k: int) -> Option<int>
    decreases cats.len() - k,
{
    if k < 0 || k >= cats.len() {
        None
    } else if cats[k].services@.contains(s) {
        Some(k)
    } else {
        owning_category_from(cats, s, k + 1)
    }
}

/// The first category whose members hold `s`.
pub open spec fn owning_category(cats: Seq<CategoryGroup>, s: usize) -> Option<int> {
    owning_category_from(cats, s, 0)
}

/// Find the owning category of service index `s` by linear search.
fn find_owning_category(cats: &Vec<CategoryGroup>, s: usize) -> (r: Option<usize>)
    ensures
        match r {
            Some(k) => owning_category(cats@, s) == Some(k as int) && k < cats@.len(),
            None => owning_category(cats@, s) is None,
        },
{
    let nc = cats.len();
    let mut k: usize = 0;
    while k < nc
        invariant
            nc == cats@.len(),
            k <= nc,
            owning_category(cats@, s) == owning_category_from(cats@, s, k as int),
        decreases nc - k,
    {
        if vec_usize_contains(&cats[k].services, s) {
            return Some(k);
        }
        k = k + 1;
    }
    None
}

/// Whether the vector holds the value.
fn vec_usize_contains(v: &Vec<usize>, x: usize) -> (r: bool)
    ensures
        r == v@.contains(x),
{
    let n = v.len();
    let mut i: usize = 0;
    while i < n
        invariant
            n == v@.len(),
            i <= n,
            forall|j: int| 0 <= j < i ==> v@[j] != x,
        decreases n - i,
    {
        if v[i] == x {
            return true;
        }
        i = i + 1;
    }
    false
}

/// Category groups stay well formed when one group's collapsed flag
/// changes: well-formedness reads nothing of the flag.
proof fn lemma_categories_wf_flag_change(
    c1: Seq<CategoryGroup>,
    c2: Seq<CategoryGroup>,
    svcs: Seq<Service>,
)
    requires
        categories_wf(c1, svcs),
        c2.len() == c1.len(),
        forall|k: int|
            0 <= k < c1.len() ==> (#[trigger] c2[k]).id == c1[k].id && c2[k].name == c1[k].name
                && c2[k].services == c1[k].services,
    ensures
        categories_wf(c2, svcs),
{
    assert forall|k: int| 0 <= k < c2.len() implies is_members_of(
        (#[trigger] c2[k].services)@,
        svcs,
        c2[k].id as int,
    ) by {
        assert(is_members_of(c1[k].services@, svcs, c1[k].id as int));
    }
    assert forall|i: int| 0 <= i < svcs.len() implies has_group_for(
        c2,
        (#[trigger] svcs[i].name)@,
    ) by {
        assert(has_group_for(c1, svcs[i].name@));
        let k = choose|k: int|
            0 <= k < c1.len() && (#[trigger] c1[k].id) == spec_categorize(svcs[i].name@);
        assert(c2[k].id == spec_categorize(svcs[i].name@));
    }
}

/// A borrowed element of a vector.
fn vec_ref<T>(v: &Vec<T>, i: usize) -> (r: &T)
    requires
        i < v@.len(),
    ensures
        *r == v@[i as int],
{
    &v[i]
}

/// With every original flag equal to its service's enabled flag, nothing
/// is dirty.
proof fn lemma_clean_upto(svcs: Seq<Service>, orig: Seq<bool>, n: int)
    requires
        forall|i: int| 0 <= i < n ==> (#[trigger] svcs[i].enabled) == orig[i],
    ensures
        dirty_indices_upto(svcs, orig, n).len() == 0,
    decreases n,
{
    if n > 0 {
        lemma_clean_upto(svcs, orig, n - 1);
    }
}

/// Category groups stay well formed when the service names are unchanged:
/// the grouping reads nothing of a service but its identifier.
proof fn lemma_categories_wf_same_names(cats: Seq<CategoryGroup>, s1: Seq<Service>, s2: Seq<Service>)
    requires
        categories_wf(cats, s1),
        s2.len() == s1.len(),
        forall|i: int| 0 <= i < s1.len() ==> (#[trigger] s2[i].name)@ == s1[i].name@,
    ensures
        categories_wf(cats, s2),
{
    assert forall|k: int| 0 <= k < cats.len() implies is_members_of(
        (#[trigger] cats[k].services)@,
        s2,
        cats[k].id as int,
    ) by {
        assert(is_members_of(cats[k].services@, s1, cats[k].id as int));
        let ms = cats[k].services@;
        let cat = cats[k].id as int;
        assert forall|a: int| 0 <= a < ms.len() implies (#[trigger] ms[a]) < s2.len()
            && spec_categorize(s2[ms[a] as int].name@) == cat by {
            assert(s2[ms[a] as int].name@ == s1[ms[a] as int].name@);
        }
        assert forall|i: int|
            0 <= i < s2.len() && spec_categorize(s2[i].name@) == cat implies ms.contains(
            i as usize,
        ) by {
            assert(s2[i].name@ == s1[i].name@);
            assert(spec_categorize(s1[i].name@) == cat);
        }
    }
    assert forall|i: int| 0 <= i < s2.len() implies has_group_for(
        cats,
        (#[trigger] s2[i].name)@,
    ) by {
        assert(s2[i].name@ == s1[i].name@);
        assert(has_group_for(cats, s1[i].name@));
    }
}

/// Unfold one step of `dirty_indices_upto`.
proof fn reveal_dirty_step(svcs: Seq<Service>, orig: Seq<bool>, n: int)
    requires
        n >= 0,
    ensures
        dirty_indices_upto(svcs, orig, n + 1) == if svcs[n].enabled != orig[n] {
            dirty_indices_upto(svcs, orig, n).push(n)
        } else {
            dirty_indices_upto(svcs, orig, n)
        },
{
}

/// Forward wraparound lands on the Euclidean remainder.
proof fn lemma_wrap_forward(c: int, delta: int, mag: int, steps: int, len: int)
    requires
        0 < len,
        0 <= c < len,
        delta >= 0,
        mag == delta,
        steps == mag % len,
    ensures
        c + steps < len ==> (c + delta) % len == c + steps,
        c + steps >= len ==> (c + delta) % len == c + steps - len,
{
    vstd::arithmetic::div_mod::lemma_mod_bound(mag, len);
    vstd::arithmetic::div_mod::lemma_add_mod_noop(c, delta, len);
    vstd::arithmetic::div_mod::lemma_small_mod(c as nat, len as nat);
    if c + steps < len {
        vstd::arithmetic::div_mod::lemma_small_mod((c + steps) as nat, len as nat);
    } else {
        vstd::arithmetic::div_mod::lemma_mod_sub_multiples_vanish(c + steps, len);
        vstd::arithmetic::div_mod::lemma_small_mod((c + steps - len) as nat, len as nat);
    }
}

/// Backward wraparound lands on the Euclidean remainder.
proof fn lemma_wrap_backward(c: int, delta: int, mag: int, steps: int, len: int)
    requires
        0 < len,
        0 <= c < len,
        delta < 0,
        mag == -delta,
        steps == mag % len,
    ensures
        steps <= c ==> (c + delta) % len == c - steps,
        steps > c ==> (c + delta) % len == len - (steps - c),
{
    vstd::arithmetic::div_mod::lemma_mod_bound(mag, len);
    vstd::arithmetic::div_mod::lemma_sub_mod_noop(c, mag, len);
    vstd::arithmetic::div_mod::lemma_small_mod(c as nat, len as nat);
    vstd::arithmetic::div_mod::lemma_small_mod(steps as nat, len as nat);
    if steps <= c {
        vstd::arithmetic::div_mod::lemma_small_mod((c - steps) as nat, len as nat);
        assert((c - mag) % len == (c - steps) % len);
    } else {
        vstd::arithmetic::div_mod::lemma_mod_add_multiples_vanish(c - steps, len);
        vstd::arithmetic::div_mod::lemma_small_mod((c - steps + len) as nat, len as nat);
        assert((c - mag) % len == (c - steps) % len);
    }
}

} // verus!
