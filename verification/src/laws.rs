//! What holds of the client whatever happens to it.

use vstd::prelude::*;
use crate::emulator::{after_resize, emulators_stay_whole, size_of, whole, VtStep};
use crate::geometry::{Rect, Size};
use crate::ids::{AgentId, TerminalId};
use crate::pane::{Placement, TreeView};
use crate::sidebar::inner_size;
use crate::state::{fitted_parser, primary_of, AppView};
use crate::table::{
    drop_key, drop_then_lookup, keyed, lookup, place, place_is_only, place_is_where, put,
    put_then_lookup,
};
use crate::workspace::{gone, pane_sizes};

verus! {

// --- tables ---

pub(crate) proof fn put_all<K, W>(s: Seq<(K, W)>, key: K, value: W)
    requires
        keyed(s),
    ensures
        keyed(put(s, key, value)),
        forall|k: K|
            #[trigger] lookup(put(s, key, value), k) == if k == key {
                Some(value)
            } else {
                lookup(s, k)
            },
{
    assert forall|k: K|
        #[trigger] lookup(put(s, key, value), k) == if k == key {
            Some(value)
        } else {
            lookup(s, k)
        } by {
        put_then_lookup(s, key, value, k);
    }
    put_then_lookup(s, key, value, key);
}

pub(crate) proof fn drop_all<K, W>(s: Seq<(K, W)>, key: K)
    requires
        keyed(s),
    ensures
        keyed(drop_key(s, key)),
        forall|k: K|
            #[trigger] lookup(drop_key(s, key), k) == if k == key {
                None
            } else {
                lookup(s, k)
            },
{
    assert forall|k: K|
        #[trigger] lookup(drop_key(s, key), k) == if k == key {
            None
        } else {
            lookup(s, k)
        } by {
        drop_then_lookup(s, key, k);
    }
    drop_then_lookup(s, key, key);
}

// --- what every state keeps ---

/// Every pane tree is well formed.
pub open spec fn trees_ok(
    tree: TreeView<TerminalId>,
    trees: Seq<(AgentId, TreeView<TerminalId>)>,
) -> bool {
    &&& tree.wf()
    &&& forall|i: int| 0 <= i < trees.len() ==> (#[trigger] trees[i]).1.wf()
}

/// Whether an emulator suits a terminal that is attached at size `s`: it has that size, and can take
/// what comes.
pub open spec fn screen_ok(s: Size, h: Seq<VtStep>) -> bool {
    s.rows >= 1 && s.cols >= 1 && size_of(h) == (s.rows, s.cols) && whole(h)
}

/// Every attached terminal, and no other, has an emulator that suits it.
pub open spec fn screens_ok(
    attached: Seq<(TerminalId, Size)>,
    parsers: Seq<(TerminalId, Seq<VtStep>)>,
) -> bool {
    forall|t: TerminalId|
        match (#[trigger] lookup(attached, t), lookup(parsers, t)) {
            (Some(s), Some(h)) => screen_ok(s, h),
            (None, None) => true,
            _ => false,
        }
}

/// The agent in the main area is not a mini as well.
pub open spec fn minis_ok(active: Option<AgentId>, minis: Seq<AgentId>) -> bool {
    match active {
        Some(id) => !minis.contains(id),
        None => true,
    }
}

/// What holds of the client in every state.
pub open spec fn sound(v: AppView) -> bool {
    &&& keyed(v.trees)
    &&& keyed(v.saved_layouts)
    &&& keyed(v.terminals)
    &&& keyed(v.parsers)
    &&& keyed(v.attached)
    &&& keyed(v.passthrough)
    &&& trees_ok(v.tree, v.trees)
    &&& screens_ok(v.attached, v.parsers)
    &&& minis_ok(v.active_agent, v.minis)
}

/// Whether two states agree on what [`sound`] speaks of.
pub open spec fn same_core(v: AppView, w: AppView) -> bool {
    &&& w.trees == v.trees
    &&& w.saved_layouts == v.saved_layouts
    &&& w.terminals == v.terminals
    &&& w.parsers == v.parsers
    &&& w.attached == v.attached
    &&& w.passthrough == v.passthrough
    &&& w.tree == v.tree
    &&& w.minis == v.minis
    &&& w.active_agent == v.active_agent
}

pub(crate) proof fn put_tree_ok(
    trees: Seq<(AgentId, TreeView<TerminalId>)>,
    id: AgentId,
    tree: TreeView<TerminalId>,
)
    requires
        forall|i: int| 0 <= i < trees.len() ==> (#[trigger] trees[i]).1.wf(),
        tree.wf(),
    ensures
        forall|i: int| 0 <= i < put(trees, id, tree).len() ==> (#[trigger] put(trees, id, tree)[i]).1.wf(),
{
    place_is_where(trees, id);
}

pub(crate) proof fn drop_tree_ok(trees: Seq<(AgentId, TreeView<TerminalId>)>, id: AgentId)
    requires
        forall|i: int| 0 <= i < trees.len() ==> (#[trigger] trees[i]).1.wf(),
    ensures
        forall|i: int| 0 <= i < drop_key(trees, id).len() ==> (#[trigger] drop_key(trees, id)[i]).1.wf(),
        lookup(trees, id) matches Some(t) ==> t.wf(),
{
    place_is_where(trees, id);
    if let Some(k) = place(trees, id) {
        let out = drop_key(trees, id);
        assert forall|i: int| 0 <= i < out.len() implies (#[trigger] out[i]).1.wf() by {
            if i < k {
                assert(out[i] == trees[i]);
            } else {
                assert(out[i] == trees[i + 1]);
            }
        }
    }
}

// --- emulators ---

proof fn fitted_keeps_screens(
    attached: Seq<(TerminalId, Size)>,
    parsers: Seq<(TerminalId, Seq<VtStep>)>,
    t: TerminalId,
    size: Size,
)
    requires
        keyed(attached),
        keyed(parsers),
        screens_ok(attached, parsers),
        size.rows >= 1,
        size.cols >= 1,
    ensures
        keyed(put(attached, t, size)),
        keyed(fitted_parser(parsers, t, size)),
        screens_ok(put(attached, t, size), fitted_parser(parsers, t, size)),
{
    put_all(attached, t, size);
    let a = put(attached, t, size);
    let p = fitted_parser(parsers, t, size);
    let h = match lookup(parsers, t) {
        Some(h) => {
            emulators_stay_whole(h, Seq::empty(), size.rows, size.cols);
            after_resize(h, size.rows, size.cols)
        },
        None => seq![VtStep::Start { rows: size.rows, cols: size.cols }],
    };
    put_all(parsers, t, h);
    assert(p == put(parsers, t, h));
    emulators_stay_whole(h, Seq::empty(), size.rows, size.cols);
    assert(screen_ok(size, h)) by {
        if let Some(before) = lookup(parsers, t) {
            assert(lookup(attached, t) is Some);
        }
    }
    assert forall|k: TerminalId|
        match (#[trigger] lookup(a, k), lookup(p, k)) {
            (Some(s), Some(h)) => screen_ok(s, h),
            (None, None) => true,
            _ => false,
        } by {
        assert(lookup(p, k) == if k == t {
            Some(h)
        } else {
            lookup(parsers, k)
        });
        if k != t {
            assert(lookup(attached, k) == lookup(a, k));
        }
    }
}

pub(crate) proof fn dropping_keeps_screens(
    attached: Seq<(TerminalId, Size)>,
    parsers: Seq<(TerminalId, Seq<VtStep>)>,
    t: TerminalId,
)
    requires
        keyed(attached),
        keyed(parsers),
        screens_ok(attached, parsers),
    ensures
        keyed(drop_key(attached, t)),
        keyed(drop_key(parsers, t)),
        screens_ok(drop_key(attached, t), drop_key(parsers, t)),
{
    drop_all(attached, t);
    drop_all(parsers, t);
    let a = drop_key(attached, t);
    let p = drop_key(parsers, t);
    assert forall|k: TerminalId|
        match (#[trigger] lookup(a, k), lookup(p, k)) {
            (Some(s), Some(h)) => screen_ok(s, h),
            (None, None) => true,
            _ => false,
        } by {
        assert(lookup(p, k) == if k == t {
            None
        } else {
            lookup(parsers, k)
        });
        if k != t {
            assert(lookup(attached, k) == lookup(a, k));
        }
    }
}

pub(crate) proof fn replacing_keeps_screens(
    attached: Seq<(TerminalId, Size)>,
    parsers: Seq<(TerminalId, Seq<VtStep>)>,
    t: TerminalId,
    h: Seq<VtStep>,
)
    requires
        keyed(attached),
        keyed(parsers),
        screens_ok(attached, parsers),
        lookup(attached, t) matches Some(s) && size_of(h) == (s.rows, s.cols) && whole(h),
    ensures
        keyed(put(parsers, t, h)),
        screens_ok(attached, put(parsers, t, h)),
{
    put_all(parsers, t, h);
    let p = put(parsers, t, h);
    assert forall|k: TerminalId|
        match (#[trigger] lookup(attached, k), lookup(p, k)) {
            (Some(s), Some(h)) => screen_ok(s, h),
            (None, None) => true,
            _ => false,
        } by {
        assert(lookup(p, k) == if k == t {
            Some(h)
        } else {
            lookup(parsers, k)
        });
    }
}

// --- reconciling ---

/// Whether all sizes are at least one cell.
pub open spec fn sized(s: Seq<(TerminalId, Size)>) -> bool {
    forall|i: int| 0 <= i < s.len() ==> (#[trigger] s[i]).1.rows >= 1 && s[i].1.cols >= 1
}

proof fn put_sized(s: Seq<(TerminalId, Size)>, t: TerminalId, r: Rect)
    requires
        sized(s),
    ensures
        sized(put(s, t, inner_size(r))),
{
    place_is_where(s, t);
}

proof fn pane_sizes_ok(places: Seq<Placement<TerminalId>>, n: int)
    ensures
        keyed(pane_sizes(places, n)),
        sized(pane_sizes(places, n)),
    decreases n,
{
    if n > 0 {
        pane_sizes_ok(places, n - 1);
        if let Some(t) = places[n - 1].payload {
            put_all(pane_sizes(places, n - 1), t, inner_size(places[n - 1].rect));
            put_sized(pane_sizes(places, n - 1), t, places[n - 1].rect);
        }
    }
}

proof fn with_minis_ok(v: AppView, sizes: Seq<(TerminalId, Size)>, band: Rect, n: int)
    requires
        keyed(sizes),
        sized(sizes),
    ensures
        keyed(v.with_minis(sizes, band, n)),
        sized(v.with_minis(sizes, band, n)),
    decreases n,
{
    if n > 0 {
        with_minis_ok(v, sizes, band, n - 1);
        if v.mini_streams(n - 1) {
            let t = primary_of(v.agents, v.minis[n - 1])->0;
            let before = v.with_minis(sizes, band, n - 1);
            put_all(before, t, inner_size(v.mini_rects(band)[n - 1]));
            put_sized(before, t, v.mini_rects(band)[n - 1]);
        }
    }
}

/// What should be attached names each terminal once, at a real size.
pub proof fn desired_is_a_table(v: AppView)
    ensures
        keyed(v.desired()),
        sized(v.desired()),
{
    let places = v.tree.layout(v.area);
    pane_sizes_ok(places, places.len() as int);
    if let Some(band) = v.minis_band() {
        with_minis_ok(v, pane_sizes(places, places.len() as int), band, v.minis.len() as int);
    }
}

pub(crate) proof fn owners_keyed(v: AppView, terminals: Seq<(TerminalId, AgentId)>, n: int)
    requires
        keyed(terminals),
    ensures
        keyed(v.mini_owners(terminals, n)),
    decreases n,
{
    if n > 0 {
        owners_keyed(v, terminals, n - 1);
        if v.mini_streams(n - 1) {
            put_all(
                v.mini_owners(terminals, n - 1),
                primary_of(v.agents, v.minis[n - 1])->0,
                v.minis[n - 1],
            );
        }
    }
}

proof fn attach_one_sound(v: AppView, t: TerminalId, size: Size)
    requires
        sound(v),
        size.rows >= 1,
        size.cols >= 1,
    ensures
        sound(v.attach_one(t, size)),
        v.attach_one(t, size).tree == v.tree,
        v.attach_one(t, size).trees == v.trees,
        v.attach_one(t, size).scroll == v.scroll,
        forall|k: TerminalId|
            #[trigger] lookup(v.attach_one(t, size).attached, k) == if k == t {
                Some(size)
            } else {
                lookup(v.attached, k)
            },
{
    fitted_keeps_screens(v.attached, v.parsers, t, size);
    put_all(v.attached, t, size);
}

pub(crate) proof fn attach_all_sound(v: AppView, d: Seq<(TerminalId, Size)>, n: int)
    requires
        sound(v),
        sized(d),
        keyed(d),
        0 <= n <= d.len(),
    ensures
        sound(v.attach_all(d, n)),
        v.attach_all(d, n).tree == v.tree,
        v.attach_all(d, n).trees == v.trees,
        v.attach_all(d, n).scroll == v.scroll,
        forall|k: TerminalId|
            #[trigger] lookup(v.attach_all(d, n).attached, k) == match lookup(d.take(n), k) {
                Some(s) => Some(s),
                None => lookup(v.attached, k),
            },
    decreases n,
{
    if n <= 0 {
        assert(d.take(0) =~= Seq::<(TerminalId, Size)>::empty());
    } else {
        attach_all_sound(v, d, n - 1);
        let w = v.attach_all(d, n - 1);
        attach_one_sound(w, d[n - 1].0, d[n - 1].1);
        let x = v.attach_all(d, n);
        assert(d.take(n).drop_last() =~= d.take(n - 1));
        place_is_where(d.take(n - 1), d[n - 1].0);
        assert forall|k: TerminalId|
            #[trigger] lookup(x.attached, k) == match lookup(d.take(n), k) {
                Some(s) => Some(s),
                None => lookup(v.attached, k),
            } by {
            assert(lookup(w.attached, k) == match lookup(d.take(n - 1), k) {
                Some(s) => Some(s),
                None => lookup(v.attached, k),
            });
            if k == d[n - 1].0 {
                assert(lookup(d.take(n), k) == Some(d[n - 1].1));
            } else {
                assert(lookup(d.take(n), k) == lookup(d.take(n - 1), k)) by {
                    place_is_where(d.take(n - 1), k);
                }
            }
        }
    }
}

pub(crate) proof fn gone_is_what_is_left(a: Seq<(TerminalId, Size)>, d: Seq<(TerminalId, Size)>, n: int)
    requires
        0 <= n <= a.len(),
    ensures
        forall|t: TerminalId|
            #[trigger] gone(a, d, n).contains(t) <==> (lookup(d, t) is None && exists|i: int|
                0 <= i < n && (#[trigger] a[i]).0 == t),
    decreases n,
{
    if n > 0 {
        gone_is_what_is_left(a, d, n - 1);
        let before = gone(a, d, n - 1);
        let all = gone(a, d, n);
        assert forall|t: TerminalId|
            #[trigger] all.contains(t) <==> (lookup(d, t) is None && exists|i: int|
                0 <= i < n && (#[trigger] a[i]).0 == t) by {
            if all.contains(t) {
                let k = choose|k: int| 0 <= k < all.len() && all[k] == t;
                if k < before.len() {
                    assert(before[k] == t);
                    assert(before.contains(t));
                    let i = choose|i: int| 0 <= i < n - 1 && (#[trigger] a[i]).0 == t;
                    assert(a[i].0 == t);
                } else {
                    assert(a[n - 1].0 == t);
                }
            }
            if lookup(d, t) is None && exists|i: int| 0 <= i < n && (#[trigger] a[i]).0 == t {
                let i = choose|i: int| 0 <= i < n && (#[trigger] a[i]).0 == t;
                if i < n - 1 {
                    assert(a[i].0 == t);
                    assert(before.contains(t));
                    let k = choose|k: int| 0 <= k < before.len() && before[k] == t;
                    assert(all[k] == t);
                } else {
                    assert(all[all.len() - 1] == t);
                }
            }
        }
    }
}

pub(crate) proof fn detach_all_sound(v: AppView, ts: Seq<TerminalId>, n: int)
    requires
        sound(v),
        0 <= n <= ts.len(),
    ensures
        sound(v.detach_all(ts, n)),
        v.detach_all(ts, n).tree == v.tree,
        v.detach_all(ts, n).trees == v.trees,
        forall|k: TerminalId|
            #[trigger] lookup(v.detach_all(ts, n).attached, k) == if ts.take(n).contains(k) {
                None
            } else {
                lookup(v.attached, k)
            },
        v.detach_all(ts, n).scroll matches Some(s) ==> v.scroll == Some(s) && !ts.take(n).contains(
            s.terminal,
        ),
        v.scroll is Some && !ts.take(n).contains(v.scroll->0.terminal) ==> v.detach_all(ts, n).scroll
            == v.scroll,
    decreases n,
{
    if n <= 0 {
        assert(ts.take(0) =~= Seq::<TerminalId>::empty());
    } else {
        detach_all_sound(v, ts, n - 1);
        let w = v.detach_all(ts, n - 1);
        let t = ts[n - 1];
        dropping_keeps_screens(w.attached, w.parsers, t);
        drop_all(w.attached, t);
        let x = v.detach_all(ts, n);
        assert(ts.take(n) =~= ts.take(n - 1).push(t));
        assert forall|k: TerminalId| #[trigger] ts.take(n).contains(k) == (ts.take(n - 1).contains(k)
            || k == t) by {
            if ts.take(n - 1).contains(k) {
                let i = choose|i: int| 0 <= i < ts.take(n - 1).len() && #[trigger] ts.take(n - 1)[i] == k;
                assert(ts.take(n)[i] == k);
            }
            if k == t {
                assert(ts.take(n)[n - 1] == k);
            }
            if ts.take(n).contains(k) {
                let i = choose|i: int| 0 <= i < ts.take(n).len() && #[trigger] ts.take(n)[i] == k;
                if i < n - 1 {
                    assert(ts.take(n - 1)[i] == k);
                }
            }
        }
        assert forall|k: TerminalId|
            #[trigger] lookup(x.attached, k) == if ts.take(n).contains(k) {
                None
            } else {
                lookup(v.attached, k)
            } by {
            assert(lookup(w.attached, k) == if ts.take(n - 1).contains(k) {
                None
            } else {
                lookup(v.attached, k)
            });
        }
    }
}

/// Reconciling attaches what is on screen, at its size, and nothing else; it leaves the panes alone;
/// and no window of history is kept for a terminal that is not attached, unless it was kept for one
/// before.
pub proof fn reconciling_attaches_what_is_shown(v: AppView)
    requires
        sound(v),
    ensures
        sound(v.reconcile()),
        forall|t: TerminalId| #[trigger] lookup(v.reconcile().attached, t) == lookup(v.desired(), t),
        v.reconcile().tree == v.tree,
        v.reconcile().trees == v.trees,
        v.reconcile().scroll matches Some(s) ==> v.scroll == Some(s) && (lookup(
            v.reconcile().attached,
            s.terminal,
        ) is Some || lookup(v.attached, s.terminal) is None),
{
    reveal(AppView::reconcile);
    desired_is_a_table(v);
    let d = v.desired();
    let named = AppView { terminals: v.owners(), ..v };
    if v.minis_band() is Some {
        owners_keyed(v, v.terminals, v.minis.len() as int);
    }
    attach_all_sound(named, d, d.len() as int);
    assert(d.take(d.len() as int) =~= d);
    let a = named.attach_all(d, d.len() as int);
    let n = a.attached.len() as int;
    let ts = gone(a.attached, d, n);
    gone_is_what_is_left(a.attached, d, n);
    detach_all_sound(a, ts, ts.len() as int);
    assert(ts.take(ts.len() as int) =~= ts);
    let w = a.detach_all(ts, ts.len() as int);
    assert forall|t: TerminalId| #[trigger] lookup(w.attached, t) == lookup(d, t) by {
        assert(lookup(a.attached, t) == match lookup(d, t) {
            Some(s) => Some(s),
            None => lookup(v.attached, t),
        });
        place_is_where(a.attached, t);
        if lookup(d, t) is None && lookup(a.attached, t) is Some {
            let i = place(a.attached, t)->0;
            assert(a.attached[i].0 == t);
            assert(ts.contains(t));
        }
        if lookup(d, t) is Some {
            assert(!ts.contains(t));
        }
    }
    if let Some(s) = w.scroll {
        assert(!ts.contains(s.terminal));
        assert(lookup(w.attached, s.terminal) == lookup(d, s.terminal));
        assert(lookup(a.attached, s.terminal) == match lookup(d, s.terminal) {
            Some(s) => Some(s),
            None => lookup(v.attached, s.terminal),
        });
        place_is_where(a.attached, s.terminal);
        if lookup(d, s.terminal) is None && lookup(v.attached, s.terminal) is Some {
            let i = place(a.attached, s.terminal)->0;
            assert(a.attached[i].0 == s.terminal);
            assert(ts.contains(s.terminal));
        }
    }
    assert(same_core(w, w.persist()));
}

proof fn attach_all_settled(v: AppView, d: Seq<(TerminalId, Size)>, n: int)
    requires
        forall|i: int| 0 <= i < d.len() ==> lookup(v.attached, (#[trigger] d[i]).0) == Some(d[i].1),
        0 <= n <= d.len(),
    ensures
        v.attach_all(d, n) == v,
    decreases n,
{
    if n > 0 {
        attach_all_settled(v, d, n - 1);
    }
}

proof fn nothing_gone(a: Seq<(TerminalId, Size)>, d: Seq<(TerminalId, Size)>, n: int)
    requires
        forall|i: int| 0 <= i < a.len() ==> lookup(d, (#[trigger] a[i]).0) is Some,
        0 <= n <= a.len(),
    ensures
        gone(a, d, n).len() == 0,
    decreases n,
{
    if n > 0 {
        nothing_gone(a, d, n - 1);
    }
}

proof fn rects_depend_on(v: AppView, w: AppView, band: Rect, i: int)
    requires
        w.minis == v.minis,
        w.minimized == v.minimized,
    ensures
        w.minis_total(band, i) == v.minis_total(band, i),
    decreases i,
{
    if i > 0 {
        rects_depend_on(v, w, band, i - 1);
    }
}

pub(crate) proof fn mini_x_depends_on(v: AppView, w: AppView, band: Rect, i: int)
    requires
        w.minis == v.minis,
        w.minimized == v.minimized,
    ensures
        w.mini_x(band, i) == v.mini_x(band, i),
        w.mini_clipped(band, i) == v.mini_clipped(band, i),
    decreases i,
{
    if i > 0 {
        mini_x_depends_on(v, w, band, i - 1);
        assert(w.mini_x(band, i) == w.mini_x(band, i - 1) + w.mini_clipped(band, i - 1));
        assert(v.mini_x(band, i) == v.mini_x(band, i - 1) + v.mini_clipped(band, i - 1));
    } else {
        rects_depend_on(v, w, band, v.minis.len() as int);
    }
    assert(w.mini_w(band, i) == v.mini_w(band, i));
}

proof fn with_minis_depends_on(
    v: AppView,
    w: AppView,
    sizes: Seq<(TerminalId, Size)>,
    band: Rect,
    n: int,
)
    requires
        w.minis == v.minis,
        w.minimized == v.minimized,
        w.agents == v.agents,
        n <= v.minis.len(),
    ensures
        w.with_minis(sizes, band, n) == v.with_minis(sizes, band, n),
    decreases n,
{
    if n > 0 {
        with_minis_depends_on(v, w, sizes, band, n - 1);
        mini_x_depends_on(v, w, band, n - 1);
    }
}

/// What is on screen depends on the panes, the area and the minis alone.
pub proof fn desired_depends_on(v: AppView, w: AppView)
    requires
        w.tree == v.tree,
        w.area == v.area,
        w.minis == v.minis,
        w.minimized == v.minimized,
        w.minis_hidden == v.minis_hidden,
        w.agents == v.agents,
    ensures
        w.desired() == v.desired(),
{
    let places = v.tree.layout(v.area);
    if let Some(band) = v.minis_band() {
        with_minis_depends_on(
            v,
            w,
            pane_sizes(places, places.len() as int),
            band,
            v.minis.len() as int,
        );
    }
}

pub(crate) proof fn attach_all_frame(v: AppView, d: Seq<(TerminalId, Size)>, n: int)
    ensures
        ({
            let w = v.attach_all(d, n);
            &&& w.area == v.area && w.minis == v.minis && w.minimized == v.minimized
            &&& w.minis_hidden == v.minis_hidden && w.agents == v.agents && w.tree == v.tree
            &&& w.active_agent == v.active_agent && w.prev_active_agent == v.prev_active_agent
        }),
    decreases n,
{
    if n > 0 {
        attach_all_frame(v, d, n - 1);
    }
}

pub(crate) proof fn detach_all_frame(v: AppView, ts: Seq<TerminalId>, n: int)
    ensures
        ({
            let w = v.detach_all(ts, n);
            &&& w.area == v.area && w.minis == v.minis && w.minimized == v.minimized
            &&& w.minis_hidden == v.minis_hidden && w.agents == v.agents && w.tree == v.tree
            &&& w.active_agent == v.active_agent && w.prev_active_agent == v.prev_active_agent
        }),
    decreases n,
{
    if n > 0 {
        detach_all_frame(v, ts, n - 1);
    }
}

/// Reconciling changes nothing of what is on screen, nor of which agents are active.
pub proof fn reconciling_keeps_the_screen(v: AppView)
    ensures
        ({
            let w = v.reconcile();
            &&& w.area == v.area && w.minis == v.minis && w.minimized == v.minimized
            &&& w.minis_hidden == v.minis_hidden && w.agents == v.agents && w.tree == v.tree
            &&& w.active_agent == v.active_agent && w.prev_active_agent == v.prev_active_agent
            &&& w.desired() == v.desired()
        }),
{
    reveal(AppView::reconcile);
    let d = v.desired();
    let named = AppView { terminals: v.owners(), ..v };
    attach_all_frame(named, d, d.len() as int);
    let a = named.attach_all(d, d.len() as int);
    let ts = gone(a.attached, d, a.attached.len() as int);
    detach_all_frame(a, ts, ts.len() as int);
    desired_depends_on(v, v.reconcile());
}

/// Reconciling twice attaches and detaches nothing the second time: it only says again what to
/// restore.
pub proof fn reconciling_settles(v: AppView)
    requires
        sound(v),
    ensures
        ({
            let w = v.reconcile();
            let x = w.reconcile();
            &&& x.attached == w.attached
            &&& x.parsers == w.parsers
            &&& x.scroll == w.scroll
            &&& x.out == w.persist().out
        }),
{
    let w = v.reconcile();
    reconciling_attaches_what_is_shown(v);
    reconciling_keeps_the_screen(v);
    desired_is_a_table(v);
    let d = w.desired();
    let named = AppView { terminals: w.owners(), ..w };
    assert forall|i: int| 0 <= i < d.len() implies lookup(named.attached, (#[trigger] d[i]).0)
        == Some(d[i].1) by {
        place_is_only(d, i);
        assert(lookup(w.attached, d[i].0) == lookup(d, d[i].0));
    }
    attach_all_settled(named, d, d.len() as int);
    assert forall|i: int| 0 <= i < w.attached.len() implies lookup(d, (#[trigger] w.attached[i]).0)
        is Some by {
        place_is_only(w.attached, i);
        assert(lookup(w.attached, w.attached[i].0) == lookup(d, w.attached[i].0));
    }
    nothing_gone(w.attached, d, w.attached.len() as int);
    reveal(AppView::reconcile);
}

} // verus!
