//! Broadcast dispatch over the cache: delivering one event to every widget
//! in id order, collecting the derived events, and rebroadcasting a radio
//! selection once so the other members of its group can clear themselves.

use crate::cache::spec_deliver;
use crate::cache::EntryModel;
use crate::cache::WidgetCache;
use crate::events::SemanticEvent;
use crate::widget::Widget;
use vstd::prelude::*;

verus! {

/// The events a derived result contributes to the forwarded stream: one
/// event or none.
pub open spec fn opt_seq(e: Option<SemanticEvent>) -> Seq<SemanticEvent> {
    match e {
        Some(x) => seq![x],
        None => Seq::empty(),
    }
}

/// One plain broadcast pass: `event` delivered to the last `remaining`
/// widgets of the table in id order, with no rebroadcast. Yields the table
/// afterwards, the derived events in delivery order, and whether any widget
/// asked for a repaint.
pub open spec fn spec_pass<W: Widget>(
    v: Seq<EntryModel<W>>,
    event: SemanticEvent,
    remaining: nat,
) -> (Seq<EntryModel<W>>, Seq<SemanticEvent>, bool)
    decreases remaining,
{
    if remaining == 0 {
        (v, Seq::empty(), false)
    } else {
        let i = v.len() - remaining;
        let step = spec_deliver(v, i, event);
        let rest = spec_pass(step.0, event, (remaining - 1) as nat);
        (rest.0, opt_seq(step.1) + rest.1, step.2 || rest.2)
    }
}

/// The broadcast pass the engine runs on a button release: `event` goes to
/// the last `remaining` widgets in id order; whenever a widget answers with
/// a radio selection, that selection is rebroadcast once to every widget —
/// never recursively, which makes the rebroadcast terminate by construction
/// instead of relying on widgets not re-emitting on a settled state.
pub open spec fn spec_pass_rebroadcast<W: Widget>(
    v: Seq<EntryModel<W>>,
    event: SemanticEvent,
    remaining: nat,
) -> (Seq<EntryModel<W>>, Seq<SemanticEvent>, bool)
    decreases remaining,
{
    if remaining == 0 {
        (v, Seq::empty(), false)
    } else {
        let i = v.len() - remaining;
        let step = spec_deliver(v, i, event);
        match step.1 {
            Some(x) => {
                if x is WidgetRadioSelected {
                    let rb = spec_pass(step.0, x, step.0.len());
                    let rest = spec_pass_rebroadcast(rb.0, event, (remaining - 1) as nat);
                    (rest.0, seq![x] + rb.1 + rest.1, step.2 || rb.2 || rest.2)
                } else {
                    let rest = spec_pass_rebroadcast(step.0, event, (remaining - 1) as nat);
                    (rest.0, seq![x] + rest.1, step.2 || rest.2)
                }
            },
            None => {
                let rest = spec_pass_rebroadcast(step.0, event, (remaining - 1) as nat);
                (rest.0, rest.1, step.2 || rest.2)
            },
        }
    }
}

/// A plain pass never changes the table's length.
pub proof fn lemma_spec_pass_len<W: Widget>(v: Seq<EntryModel<W>>, event: SemanticEvent, remaining: nat)
    ensures
        spec_pass(v, event, remaining).0.len() == v.len(),
    decreases remaining,
{
    if remaining > 0 {
        let i = v.len() - remaining;
        lemma_spec_pass_len(spec_deliver(v, i, event).0, event, (remaining - 1) as nat);
    }
}

/// A rebroadcasting pass never changes the table's length.
pub proof fn lemma_spec_pass_rebroadcast_len<W: Widget>(
    v: Seq<EntryModel<W>>,
    event: SemanticEvent,
    remaining: nat,
)
    ensures
        spec_pass_rebroadcast(v, event, remaining).0.len() == v.len(),
    decreases remaining,
{
    if remaining > 0 {
        let i = v.len() - remaining;
        let step = spec_deliver(v, i, event);
        match step.1 {
            Some(x) => {
                if x is WidgetRadioSelected {
                    lemma_spec_pass_len(step.0, x, step.0.len());
                    let rb = spec_pass(step.0, x, step.0.len());
                    lemma_spec_pass_rebroadcast_len(rb.0, event, (remaining - 1) as nat);
                } else {
                    lemma_spec_pass_rebroadcast_len(step.0, event, (remaining - 1) as nat);
                }
            },
            None => {
                lemma_spec_pass_rebroadcast_len(step.0, event, (remaining - 1) as nat);
            },
        }
    }
}

/// The full broadcast the engine runs on a button release: every widget in
/// id order, radio selections rebroadcast once.
pub open spec fn spec_broadcast<W: Widget>(v: Seq<EntryModel<W>>, event: SemanticEvent) -> (
    Seq<EntryModel<W>>,
    Seq<SemanticEvent>,
    bool,
) {
    spec_pass_rebroadcast(v, event, v.len())
}

impl<W: Widget> WidgetCache<W> {
    /// Delivers `event` to every widget in id order without rebroadcast and
    /// collects the derived events in delivery order. Used for the frame
    /// tick and for the rebroadcast of a radio selection.
    pub fn broadcast_plain(&mut self, event: &SemanticEvent) -> (emitted: Vec<SemanticEvent>)
        ensures
            ({
                let o = spec_pass(old(self)@, *event, old(self)@.len());
                &&& final (self)@ == o.0
                &&& emitted@ == o.1
                &&& final (self).spec_invalidated() == (old(self).spec_invalidated() || o.2)
            }),
    {
        let n = self.size();
        let ghost n_int = n as int;
        let mut emitted: Vec<SemanticEvent> = Vec::new();
        let ghost mut repainted: bool = false;
        let mut i: u32 = 0;
        while i < n
            invariant
                i <= n,
                n_int == n,
                n_int == old(self)@.len(),
                self@.len() == n_int,
                self.spec_invalidated() == (old(self).spec_invalidated() || repainted),
                spec_pass(old(self)@, *event, n as nat) == ({
                    let cur = spec_pass(self@, *event, (n - i) as nat);
                    (cur.0, emitted@ + cur.1, repainted || cur.2)
                }),
            decreases n - i,
        {
            let ghost pre = self@;
            let ghost pre_emitted = emitted@;
            let derived = self.deliver_to(i, event);
            if let Some(x) = derived {
                emitted.push(x);
            }
            proof {
                let step = spec_deliver(pre, i as int, *event);
                repainted = repainted || step.2;
                assert(pre.len() - (n - i) == i);
                let cur = spec_pass(self@, *event, (n - i - 1) as nat);
                assert(spec_pass(pre, *event, (n - i) as nat) == (
                    cur.0,
                    opt_seq(step.1) + cur.1,
                    step.2 || cur.2,
                ));
                assert(emitted@ + cur.1 =~= pre_emitted + (opt_seq(step.1) + cur.1));
            }
            i = i + 1;
        }
        proof {
            let cur = spec_pass(self@, *event, 0);
            assert(emitted@ + cur.1 =~= emitted@);
        }
        emitted
    }

    /// Delivers `event` to every widget in id order, rebroadcasting any
    /// derived radio selection once to every widget, and collects all
    /// derived events in delivery order. This is how one radio button's
    /// selection clears every other member of its group.
    pub fn broadcast(&mut self, event: &SemanticEvent) -> (emitted: Vec<SemanticEvent>)
        ensures
            ({
                let o = spec_broadcast(old(self)@, *event);
                &&& final (self)@ == o.0
                &&& emitted@ == o.1
                &&& final (self).spec_invalidated() == (old(self).spec_invalidated() || o.2)
            }),
    {
        let n = self.size();
        let ghost n_int = n as int;
        let mut emitted: Vec<SemanticEvent> = Vec::new();
        let ghost mut repainted: bool = false;
        let mut i: u32 = 0;
        while i < n
            invariant
                i <= n,
                n_int == n,
                n_int == old(self)@.len(),
                self@.len() == n_int,
                self.spec_invalidated() == (old(self).spec_invalidated() || repainted),
                spec_pass_rebroadcast(old(self)@, *event, n as nat) == ({
                    let cur = spec_pass_rebroadcast(self@, *event, (n - i) as nat);
                    (cur.0, emitted@ + cur.1, repainted || cur.2)
                }),
            decreases n - i,
        {
            let ghost pre = self@;
            let ghost pre_emitted = emitted@;
            let derived = self.deliver_to(i, event);
            proof {
                assert(pre.len() - (n - i) == i);
            }
            if let Some(x) = derived {
                emitted.push(x);
                let is_radio = match x {
                    SemanticEvent::WidgetRadioSelected { .. } => true,
                    _ => false,
                };
                if is_radio {
                    let ghost mid = self@;
                    let mut rb = self.broadcast_plain(&x);
                    emitted.append(&mut rb);
                    proof {
                        lemma_spec_pass_len(mid, x, mid.len());
                        let step = spec_deliver(pre, i as int, *event);
                        let rbs = spec_pass(mid, x, mid.len());
                        repainted = repainted || step.2 || rbs.2;
                        let cur = spec_pass_rebroadcast(self@, *event, (n - i - 1) as nat);
                        assert(spec_pass_rebroadcast(pre, *event, (n - i) as nat) == (
                            cur.0,
                            seq![x] + rbs.1 + cur.1,
                            step.2 || rbs.2 || cur.2,
                        ));
                        assert(emitted@ + cur.1 =~= pre_emitted + (seq![x] + rbs.1 + cur.1));
                    }
                } else {
                    proof {
                        let step = spec_deliver(pre, i as int, *event);
                        repainted = repainted || step.2;
                        let cur = spec_pass_rebroadcast(self@, *event, (n - i - 1) as nat);
                        assert(spec_pass_rebroadcast(pre, *event, (n - i) as nat) == (
                            cur.0,
                            seq![x] + cur.1,
                            step.2 || cur.2,
                        ));
                        assert(emitted@ + cur.1 =~= pre_emitted + (seq![x] + cur.1));
                    }
                }
            } else {
                proof {
                    let step = spec_deliver(pre, i as int, *event);
                    repainted = repainted || step.2;
                    let cur = spec_pass_rebroadcast(self@, *event, (n - i - 1) as nat);
                    assert(spec_pass_rebroadcast(pre, *event, (n - i) as nat) == (
                        cur.0,
                        cur.1,
                        step.2 || cur.2,
                    ));
                    assert(emitted@ + cur.1 =~= pre_emitted + cur.1);
                }
            }
            i = i + 1;
        }
        proof {
            let cur = spec_pass_rebroadcast(self@, *event, 0);
            assert(emitted@ + cur.1 =~= emitted@);
        }
        emitted
    }
}

} // verus!
