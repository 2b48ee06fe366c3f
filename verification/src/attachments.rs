//! What reconciling tells the daemon: which terminals it wants to see, and which no longer.

use vstd::prelude::*;
use crate::geometry::Size;
use crate::ids::TerminalId;
use crate::laws::{
    attach_all_sound, desired_is_a_table, gone_is_what_is_left, owners_keyed,
    reconciling_attaches_what_is_shown, sized, sound,
};
use crate::state::AppView;
use crate::table::{keyed, lookup, place, place_is_only, place_is_where};
use crate::wire::MsgView;
use crate::workspace::gone;

verus! {

/// Whether `msg` is among what was sent between two states of the outbox.
pub open spec fn newly_sent(before: Seq<MsgView>, after: Seq<MsgView>, msg: MsgView) -> bool {
    exists|i: int| before.len() <= i < after.len() && #[trigger] after[i] == msg
}

/// Whether one state of the outbox goes on from another.
pub open spec fn goes_on_from(before: Seq<MsgView>, after: Seq<MsgView>) -> bool {
    before.len() <= after.len() && after.take(before.len() as int) == before
}

proof fn sending_one(before: Seq<MsgView>, out: Seq<MsgView>, sent: MsgView)
    requires
        goes_on_from(before, out),
    ensures
        goes_on_from(before, out.push(sent)),
        forall|m: MsgView|
            #[trigger] newly_sent(before, out.push(sent), m) == (newly_sent(before, out, m) || m
                == sent),
{
    let after = out.push(sent);
    assert(after.take(before.len() as int) =~= out.take(before.len() as int));
    assert forall|m: MsgView|
        #[trigger] newly_sent(before, after, m) == (newly_sent(before, out, m) || m == sent) by {
        if newly_sent(before, after, m) {
            let i = choose|i: int| before.len() <= i < after.len() && #[trigger] after[i] == m;
            if i < out.len() {
                assert(out[i] == m);
            }
        }
        if newly_sent(before, out, m) {
            let i = choose|i: int| before.len() <= i < out.len() && #[trigger] out[i] == m;
            assert(after[i] == m);
        }
        if m == sent {
            assert(after[out.len() as int] == m);
        }
    }
}

proof fn attaching_sends(
    v: AppView,
    before: Seq<MsgView>,
    d: Seq<(TerminalId, Size)>,
    n: int,
)
    requires
        sound(v),
        sized(d),
        keyed(d),
        0 <= n <= d.len(),
        v.out == before,
    ensures
        goes_on_from(before, v.attach_all(d, n).out),
        forall|t: TerminalId, size: Size|
            #[trigger] newly_sent(
                before,
                v.attach_all(d, n).out,
                MsgView::Attach { terminal: t, size },
            ) <==> lookup(d.take(n), t) == Some(size) && lookup(v.attached, t) != Some(size),
        forall|t: TerminalId|
            !#[trigger] newly_sent(
                before,
                v.attach_all(d, n).out,
                MsgView::Detach { terminal: t },
            ),
    decreases n,
{
    if n <= 0 {
        assert(d.take(0) =~= Seq::<(TerminalId, Size)>::empty());
        assert(before.take(before.len() as int) =~= before);
    } else {
        attaching_sends(v, before, d, n - 1);
        attach_all_sound(v, d, n - 1);
        let w = v.attach_all(d, n - 1);
        let (t, size) = d[n - 1];
        let part = d.take(n);
        assert(part.drop_last() =~= d.take(n - 1));
        place_is_where(d.take(n - 1), t);
        assert(lookup(d.take(n - 1), t) is None) by {
            if let Some(i) = place(d.take(n - 1), t) {
                assert(d[i].0 != d[n - 1].0);
            }
        }
        assert(lookup(w.attached, t) == lookup(v.attached, t));
        assert forall|k: TerminalId| k != t implies #[trigger] lookup(part, k) == lookup(
            d.take(n - 1),
            k,
        ) by {
            place_is_where(d.take(n - 1), k);
        }
        assert(lookup(part, t) == Some(size));
        if lookup(w.attached, t) != Some(size) {
            let attach = MsgView::Attach { terminal: t, size };
            sending_one(before, w.out, attach);
            sending_one(before, w.out.push(attach), MsgView::Scroll { terminal: t, lines: 0 });
        }
        let out = v.attach_all(d, n).out;
        assert forall|k: TerminalId, s: Size|
            #[trigger] newly_sent(before, out, MsgView::Attach { terminal: k, size: s })
                <==> lookup(part, k) == Some(s) && lookup(v.attached, k) != Some(s) by {
            assert(newly_sent(before, w.out, MsgView::Attach { terminal: k, size: s }) <==> lookup(
                d.take(n - 1),
                k,
            ) == Some(s) && lookup(v.attached, k) != Some(s));
        }
        assert forall|k: TerminalId|
            !#[trigger] newly_sent(before, out, MsgView::Detach { terminal: k }) by {
            assert(!newly_sent(before, w.out, MsgView::Detach { terminal: k }));
        }
    }
}

proof fn detaching_sends(v: AppView, before: Seq<MsgView>, ts: Seq<TerminalId>, n: int)
    requires
        goes_on_from(before, v.out),
        0 <= n <= ts.len(),
    ensures
        goes_on_from(before, v.detach_all(ts, n).out),
        forall|m: MsgView|
            #[trigger] newly_sent(before, v.detach_all(ts, n).out, m) <==> newly_sent(
                before,
                v.out,
                m,
            ) || exists|i: int|
                0 <= i < n && m == (MsgView::Detach { terminal: #[trigger] ts[i] }),
    decreases n,
{
    if n > 0 {
        detaching_sends(v, before, ts, n - 1);
        let w = v.detach_all(ts, n - 1);
        let sent = MsgView::Detach { terminal: ts[n - 1] };
        sending_one(before, w.out, sent);
        assert forall|m: MsgView|
            #[trigger] newly_sent(before, v.detach_all(ts, n).out, m) <==> newly_sent(
                before,
                v.out,
                m,
            ) || exists|i: int|
                0 <= i < n && m == (MsgView::Detach { terminal: #[trigger] ts[i] }) by {
            assert(newly_sent(before, w.out, m) <==> newly_sent(before, v.out, m) || exists|i: int|
                0 <= i < n - 1 && m == (MsgView::Detach { terminal: #[trigger] ts[i] }));
            if m == sent {
                assert(m == (MsgView::Detach { terminal: ts[n - 1] }));
            }
        }
    }
}

proof fn persisting_sends(v: AppView, before: Seq<MsgView>)
    requires
        goes_on_from(before, v.out),
    ensures
        goes_on_from(before, v.persist().out),
        forall|m: MsgView|
            m is Attach || m is Detach ==> #[trigger] newly_sent(before, v.persist().out, m)
                == newly_sent(before, v.out, m),
{
    let a = match v.active_agent {
        Some(agent) => {
            let msg = MsgView::SetLayout { agent, layout: v.tree.to_layout() };
            sending_one(before, v.out, msg);
            v.send(msg)
        },
        None => v,
    };
    let minis = MsgView::SetMinis(a.minis);
    let active = MsgView::SetActive(a.active_agent);
    sending_one(before, a.out, minis);
    sending_one(before, a.out.push(minis), active);
    sending_one(
        before,
        a.out.push(minis).push(active),
        MsgView::SetPrevious(a.prev_active_agent),
    );
}

/// Reconciling asks to see just the terminals that are on screen and were not attached at that size,
/// and no longer to see just those that were attached and are not on screen. Of these it keeps no
/// emulator and no window of history.
pub proof fn reconciling_sends_what_changed(v: AppView)
    requires
        sound(v),
    ensures
        goes_on_from(v.out, v.reconcile().out),
        forall|t: TerminalId, size: Size|
            #[trigger] newly_sent(
                v.out,
                v.reconcile().out,
                MsgView::Attach { terminal: t, size },
            ) <==> lookup(v.desired(), t) == Some(size) && lookup(v.attached, t) != Some(size),
        forall|t: TerminalId|
            #[trigger] newly_sent(v.out, v.reconcile().out, MsgView::Detach { terminal: t }) <==> (
            lookup(v.attached, t) is Some && lookup(v.desired(), t) is None),
        forall|t: TerminalId|
            #[trigger] newly_sent(v.out, v.reconcile().out, MsgView::Detach { terminal: t })
                ==> lookup(v.reconcile().parsers, t) is None && !v.reconcile().scrolls(t),
{
    let out = v.reconcile().out;
    reconciling_attaches_what_is_shown(v);
    reveal(AppView::reconcile);
    desired_is_a_table(v);
    let d = v.desired();
    let named = AppView { terminals: v.owners(), ..v };
    if v.minis_band() is Some {
        owners_keyed(v, v.terminals, v.minis.len() as int);
    }
    attaching_sends(named, v.out, d, d.len() as int);
    attach_all_sound(named, d, d.len() as int);
    assert(d.take(d.len() as int) =~= d);
    let a = named.attach_all(d, d.len() as int);
    let ts = gone(a.attached, d, a.attached.len() as int);
    gone_is_what_is_left(a.attached, d, a.attached.len() as int);
    detaching_sends(a, v.out, ts, ts.len() as int);
    let b = a.detach_all(ts, ts.len() as int);
    persisting_sends(b, v.out);
    assert forall|t: TerminalId, size: Size|
        #[trigger] newly_sent(v.out, out, MsgView::Attach { terminal: t, size }) <==> lookup(d, t)
            == Some(size) && lookup(v.attached, t) != Some(size) by {
        assert(newly_sent(v.out, b.out, MsgView::Attach { terminal: t, size }) == newly_sent(
            v.out,
            a.out,
            MsgView::Attach { terminal: t, size },
        ));
    }
    assert forall|t: TerminalId|
        #[trigger] newly_sent(v.out, out, MsgView::Detach { terminal: t }) <==> (lookup(
            v.attached,
            t,
        ) is Some && lookup(d, t) is None) by {
        let m = MsgView::Detach { terminal: t };
        assert(newly_sent(v.out, out, m) == newly_sent(v.out, b.out, m));
        assert(!newly_sent(v.out, a.out, m));
        assert(lookup(a.attached, t) == match lookup(d, t) {
            Some(s) => Some(s),
            None => lookup(v.attached, t),
        });
        place_is_where(a.attached, t);
        if newly_sent(v.out, b.out, m) {
            let i = choose|i: int|
                0 <= i < ts.len() && m == (MsgView::Detach { terminal: #[trigger] ts[i] });
            assert(ts.contains(t));
            let k = choose|k: int| 0 <= k < a.attached.len() && (#[trigger] a.attached[k]).0 == t;
            place_is_only(a.attached, k);
        }
        if lookup(v.attached, t) is Some && lookup(d, t) is None {
            let k = place(a.attached, t)->0;
            assert(a.attached[k].0 == t);
            assert(ts.contains(t));
            let i = choose|i: int| 0 <= i < ts.len() && ts[i] == t;
            assert(m == (MsgView::Detach { terminal: ts[i] }));
        }
    }
    assert forall|t: TerminalId|
        #[trigger] newly_sent(v.out, out, MsgView::Detach { terminal: t }) implies lookup(
        v.reconcile().parsers,
        t,
    ) is None && !v.reconcile().scrolls(t) by {
        assert(lookup(v.reconcile().attached, t) == lookup(d, t));
    }
}

} // verus!
