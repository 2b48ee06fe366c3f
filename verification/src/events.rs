//! The client's loop: one event at a time, or a burst of them before the next redraw.

use vstd::prelude::*;
use crate::input::{Event, KeyCode, KeyEvent, KeyEventKind};
use crate::keys::with_ctrl;
use crate::state::{App, AppView, Flow};
use crate::wire::DaemonMsg;
use crate::workspace::{at_most_usize, blanks_of};

verus! {

/// How often the screen is redrawn with nothing happening, in seconds, so that ages go on growing.
pub const AGE_TICK_SECS: u64 = 30;

impl AppView {
    /// The client after an event of the outer terminal, or after the stream of them ended.
    #[verifier::opaque]
    pub open spec fn handle_event(self, ev: Option<Event>) -> (AppView, Flow) {
        match ev {
            Some(Event::Key(key)) => if key.code == KeyCode::Super {
                (
                    AppView { super_held: key.kind != KeyEventKind::Release, ..self },
                    Flow::Continue,
                )
            } else if key.kind == KeyEventKind::Press {
                self.on_key(key)
            } else {
                (self, Flow::Continue)
            },
            Some(Event::Resize(cols, rows)) => (self.on_resize(cols, rows), Flow::Continue),
            Some(Event::Mouse(me)) => (self.on_mouse(me), Flow::Continue),
            Some(Event::Paste(text)) => (self.on_paste(text@), Flow::Continue),
            Some(Event::Other) => (self, Flow::Continue),
            None => (self, Flow::Quit),
        }
    }

    /// The client after the first `n` of a burst of messages.
    pub open spec fn after_msgs(self, msgs: Seq<Option<DaemonMsg>>, n: int) -> AppView
        decreases n,
    {
        if n <= 0 {
            self
        } else {
            self.after_msgs(msgs, n - 1).handle_daemon(msgs[n - 1]).0
        }
    }

    /// The client after the first `n` of a burst of events.
    pub open spec fn after_events(self, events: Seq<Option<Event>>, n: int) -> AppView
        decreases n,
    {
        if n <= 0 {
            self
        } else {
            self.after_events(events, n - 1).handle_event(events[n - 1]).0
        }
    }

    /// Whether one of the first `n` of a burst of events ends the client.
    pub open spec fn events_quit(self, events: Seq<Option<Event>>, n: int) -> bool
        decreases n,
    {
        if n <= 0 {
            false
        } else {
            self.events_quit(events, n - 1) || self.after_events(events, n - 1).handle_event(
                events[n - 1],
            ).1 == Flow::Quit
        }
    }
}

/// Whether one of `msgs` is the end of the stream.
pub open spec fn msgs_quit(msgs: Seq<Option<DaemonMsg>>) -> bool {
    exists|i: int| 0 <= i < msgs.len() && #[trigger] msgs[i] is None
}

/// The number of blank panes in the layouts that a message brings.
pub open spec fn blanks_brought(msg: Option<DaemonMsg>) -> nat {
    match msg {
        Some(DaemonMsg::Layouts(list)) => blanks_of(list@, list@.len() as int),
        _ => 0,
    }
}

/// The number of blank panes in the layouts that the first `n` of `msgs` bring.
pub open spec fn all_blanks_brought(msgs: Seq<Option<DaemonMsg>>, n: int) -> nat
    decreases n,
{
    if n <= 0 {
        0
    } else {
        all_blanks_brought(msgs, n - 1) + blanks_brought(msgs[n - 1])
    }
}

fn count_blanks_brought(msg: &Option<DaemonMsg>) -> (n: usize)
    ensures
        n == at_most_usize(blanks_brought(*msg)),
{
    match msg {
        Some(DaemonMsg::Layouts(list)) => {
            let mut n: usize = 0;
            let mut i: usize = 0;
            while i < list.len()
                invariant
                    i <= list@.len(),
                    n == at_most_usize(blanks_of(list@, i as int)),
                decreases list@.len() - i,
            {
                n = n.saturating_add(list[i].1.blank_panes());
                i = i + 1;
            }
            n
        },
        _ => 0,
    }
}

impl App {
    /// How many fresh ids a burst may need: one for each blank pane of a layout that is saved or that
    /// it brings, and one for each event, which may be a split.
    pub fn ids_wanted_by(&self, msgs: &Vec<Option<DaemonMsg>>, events: &Vec<Option<Event>>) -> (n:
        usize)
        ensures
            n == at_most_usize(
                self@.saved_blanks() + all_blanks_brought(msgs@, msgs@.len() as int) + events@.len()
                    + 1,
            ),
    {
        let mut n: usize = self.ids_wanted();
        let mut i: usize = 0;
        while i < msgs.len()
            invariant
                i <= msgs@.len(),
                n == at_most_usize(self@.saved_blanks() + all_blanks_brought(msgs@, i as int) + 1),
            decreases msgs@.len() - i,
        {
            n = n.saturating_add(count_blanks_brought(&msgs[i]));
            i = i + 1;
        }
        n.saturating_add(events.len())
    }

    /// One event of the outer terminal, or the end of the stream of them, which ends the client.
    ///
    /// A Super key on its own is no input: it shows the numbers while it is held.
    pub fn handle_event(&mut self, ev: Option<Event>) -> (flow: Flow)
        ensures
            final(self)@ == old(self)@.handle_event(ev).0,
            flow == old(self)@.handle_event(ev).1,
    {
        proof {
            reveal(AppView::handle_event);
        }
        match ev {
            Some(Event::Key(key)) => {
                if key.code == KeyCode::Super {
                    self.super_held = key.kind != KeyEventKind::Release;
                    Flow::Continue
                } else if key.kind == KeyEventKind::Press {
                    self.on_key(key)
                } else {
                    Flow::Continue
                }
            },
            Some(Event::Resize(cols, rows)) => {
                self.on_resize(cols, rows);
                Flow::Continue
            },
            Some(Event::Mouse(me)) => {
                self.on_mouse(me);
                Flow::Continue
            },
            Some(Event::Paste(text)) => {
                self.on_paste(text.as_str());
                Flow::Continue
            },
            Some(Event::Other) => Flow::Continue,
            None => Flow::Quit,
        }
    }

    /// A burst of the daemon's messages, all of which are applied.
    pub fn handle_msgs(&mut self, msgs: Vec<Option<DaemonMsg>>) -> (flow: Flow)
        ensures
            final(self)@ == old(self)@.after_msgs(msgs@, msgs@.len() as int),
            flow == if msgs_quit(msgs@) {
                Flow::Quit
            } else {
                Flow::Continue
            },
    {
        let ghost v = self@;
        let ghost all = msgs@;
        let mut msgs = msgs;
        let mut flow = Flow::Continue;
        let ghost mut n: int = 0;
        assert(all.skip(0) =~= all);
        while msgs.len() > 0
            invariant
                0 <= n <= all.len(),
                msgs@ == all.skip(n),
                self@ == v.after_msgs(all, n),
                flow == Flow::Quit <==> exists|i: int| 0 <= i < n && #[trigger] all[i] is None,
            decreases msgs@.len(),
        {
            let msg = msgs.remove(0);
            assert(msg == all[n]);
            assert(msgs@ =~= all.skip(n + 1));
            if self.handle_daemon(msg) == Flow::Quit {
                flow = Flow::Quit;
            }
            proof {
                n = n + 1;
            }
        }
        flow
    }

    /// A burst of events, all of which are applied.
    pub fn handle_events(&mut self, events: Vec<Option<Event>>) -> (flow: Flow)
        ensures
            final(self)@ == old(self)@.after_events(events@, events@.len() as int),
            flow == if old(self)@.events_quit(events@, events@.len() as int) {
                Flow::Quit
            } else {
                Flow::Continue
            },
    {
        let ghost v = self@;
        let ghost all = events@;
        let mut events = events;
        let mut flow = Flow::Continue;
        let ghost mut n: int = 0;
        assert(all.skip(0) =~= all);
        while events.len() > 0
            invariant
                0 <= n <= all.len(),
                events@ == all.skip(n),
                self@ == v.after_events(all, n),
                flow == Flow::Quit <==> v.events_quit(all, n),
            decreases events@.len(),
        {
            let ev = events.remove(0);
            assert(ev == all[n]);
            assert(events@ =~= all.skip(n + 1));
            if self.handle_event(ev) == Flow::Quit {
                flow = Flow::Quit;
            }
            proof {
                n = n + 1;
            }
        }
        flow
    }

    /// Everything that was waiting: first the messages, then the events. `ended` says that one of the
    /// streams is at its end. The client ends if anything of it says so, and then draws nothing more;
    /// otherwise it reports which agent is being viewed, and is to be drawn once.
    pub fn handle_burst(
        &mut self,
        msgs: Vec<Option<DaemonMsg>>,
        events: Vec<Option<Event>>,
        ended: bool,
    ) -> (flow: Flow)
        ensures
            ({
                let v = old(self)@.after_msgs(msgs@, msgs@.len() as int);
                let w = v.after_events(events@, events@.len() as int);
                let quit = ended || msgs_quit(msgs@) || v.events_quit(
                    events@,
                    events@.len() as int,
                );
                &&& flow == if quit {
                    Flow::Quit
                } else {
                    Flow::Continue
                }
                &&& final(self)@ == if quit {
                    w
                } else {
                    w.sync_focus()
                }
            }),
    {
        let a = self.handle_msgs(msgs);
        let b = self.handle_events(events);
        if ended || a == Flow::Quit || b == Flow::Quit {
            return Flow::Quit;
        }
        self.sync_focus();
        Flow::Continue
    }
}

/// The quit key ends the client in whatever mode it is, and changes nothing.
pub proof fn quit_key_always_quits(v: AppView, key: KeyEvent)
    requires
        with_ctrl(key, 'q'),
    ensures
        v.on_key(key) == (v, Flow::Quit),
{
    reveal(AppView::on_key);
}

} // verus!
