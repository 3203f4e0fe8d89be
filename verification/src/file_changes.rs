//! The subscribers to file changes, and the unit signals queued for them.

use vstd::prelude::*;

verus! {

/// One subscriber to file changes, as a plain value.
pub struct ListenerView {
    /// The subscriber's number.
    pub id: nat,
    /// Whether the subscriber still listens.
    pub connected: bool,
    /// How many signals were sent to it and not yet taken.
    pub signals: nat,
}

impl ListenerView {
    /// The subscriber after one more signal has arrived. A queue that holds
    /// `usize::MAX` signals takes no more.
    pub open spec fn signalled(self) -> ListenerView {
        if self.signals < usize::MAX {
            ListenerView { signals: self.signals + 1, ..self }
        } else {
            self
        }
    }
}

/// The subscribers after one signal went out: those that no longer listen are
/// gone, each of the others has one signal more, and their order stays.
pub open spec fn signal_all(listeners: Seq<ListenerView>) -> Seq<ListenerView>
    decreases listeners.len(),
{
    if listeners.len() == 0 {
        Seq::empty()
    } else {
        let before = signal_all(listeners.drop_last());
        if listeners.last().connected {
            before.push(listeners.last().signalled())
        } else {
            before
        }
    }
}

/// The position of the first subscriber numbered `id`, or the number of
/// subscribers where there is none.
pub open spec fn listener_slot(listeners: Seq<ListenerView>, id: nat) -> int
    decreases listeners.len(),
{
    if listeners.len() == 0 {
        0
    } else if listeners[0].id == id {
        0
    } else {
        1 + listener_slot(listeners.drop_first(), id)
    }
}

/// The list of subscribers as a plain value.
pub struct SignalsView {
    /// The subscribers, in the order in which they subscribed.
    pub listeners: Seq<ListenerView>,
    /// The number that the next subscriber gets.
    pub next_id: nat,
}

impl SignalsView {
    /// No subscriber yet.
    pub open spec fn empty() -> SignalsView {
        SignalsView { listeners: Seq::empty(), next_id: 0 }
    }

    /// What holds of the list at every moment: the subscribers stand in the
    /// order of their numbers, and every number is below the one that the
    /// next subscriber gets. So no two subscribers share a number.
    pub open spec fn well_formed(self) -> bool {
        &&& forall|i: int, j: int|
            0 <= i < j < self.listeners.len() ==> (#[trigger] self.listeners[i]).id
                < (#[trigger] self.listeners[j]).id
        &&& forall|i: int|
            0 <= i < self.listeners.len() ==> (#[trigger] self.listeners[i]).id < self.next_id
    }

    /// Whether a subscriber numbered `id` is there and listens.
    pub open spec fn listens(self, id: nat) -> bool {
        let slot = listener_slot(self.listeners, id);
        slot < self.listeners.len() && self.listeners[slot].connected
    }

    /// How many signals wait for subscriber `id`; none for one that is not there.
    pub open spec fn waiting(self, id: nat) -> nat {
        let slot = listener_slot(self.listeners, id);
        if slot < self.listeners.len() {
            self.listeners[slot].signals
        } else {
            0
        }
    }

    /// After one more subscriber has joined.
    pub open spec fn subscribed(self) -> SignalsView {
        SignalsView {
            listeners: self.listeners.push(
                ListenerView { id: self.next_id, connected: true, signals: 0 },
            ),
            next_id: self.next_id + 1,
        }
    }

    /// After one signal went out to every subscriber.
    pub open spec fn signalled(self) -> SignalsView {
        SignalsView { listeners: signal_all(self.listeners), ..self }
    }

    /// After subscriber `id` took one signal, if one waited for it.
    pub open spec fn taken(self, id: nat) -> SignalsView {
        let slot = listener_slot(self.listeners, id);
        if slot < self.listeners.len() && self.listeners[slot].signals > 0 {
            SignalsView {
                listeners: self.listeners.update(
                    slot,
                    ListenerView {
                        signals: (self.listeners[slot].signals - 1) as nat,
                        ..self.listeners[slot]
                    },
                ),
                ..self
            }
        } else {
            self
        }
    }

    /// After subscriber `id` stopped listening. The signals that waited for
    /// it are thrown away.
    pub open spec fn disconnected(self, id: nat) -> SignalsView {
        let slot = listener_slot(self.listeners, id);
        if slot < self.listeners.len() {
            SignalsView {
                listeners: self.listeners.update(
                    slot,
                    ListenerView { connected: false, signals: 0, ..self.listeners[slot] },
                ),
                ..self
            }
        } else {
            self
        }
    }
}

/// One subscriber to file changes.
struct Listener {
    id: u64,
    connected: bool,
    signals: usize,
}

impl View for Listener {
    type V = ListenerView;

    closed spec fn view(&self) -> ListenerView {
        ListenerView { id: self.id as nat, connected: self.connected, signals: self.signals as nat }
    }
}

/// The subscribers as plain values.
spec fn listener_views(listeners: Seq<Listener>) -> Seq<ListenerView> {
    listeners.map_values(|listener: Listener| listener@)
}

/// `listener_slot` finds the first subscriber with the number, and nothing else does.
proof fn lemma_listener_slot(listeners: Seq<ListenerView>, id: nat, slot: int)
    requires
        0 <= slot <= listeners.len(),
        forall|j: int| 0 <= j < slot ==> listeners[j].id != id,
        slot < listeners.len() ==> listeners[slot].id == id,
    ensures
        listener_slot(listeners, id) == slot,
    decreases listeners.len(),
{
    if listeners.len() > 0 && listeners[0].id != id {
        let tail = listeners.drop_first();
        assert forall|j: int| 0 <= j < slot - 1 implies tail[j].id != id by {
            assert(tail[j] == listeners[j + 1]);
        }
        lemma_listener_slot(tail, id, slot - 1);
    }
}

/// The receiving side of one subscription to file changes.
pub struct FileChangeReceiver {
    id: u64,
}

impl FileChangeReceiver {
    /// The subscriber's number.
    pub closed spec fn id(&self) -> nat {
        self.id as nat
    }
}

/// The subscribers to file changes.
pub struct ChangeSignals {
    listeners: Vec<Listener>,
    next_id: u64,
}

impl View for ChangeSignals {
    type V = SignalsView;

    closed spec fn view(&self) -> SignalsView {
        SignalsView { listeners: listener_views(self.listeners@), next_id: self.next_id as nat }
    }
}

impl ChangeSignals {
    /// A list without subscribers.
    pub fn new() -> (signals: Self)
        ensures
            signals@ == SignalsView::empty(),
    {
        let signals = ChangeSignals { listeners: Vec::new(), next_id: 0 };
        proof {
            assert(listener_views(signals.listeners@) =~= Seq::<ListenerView>::empty());
        }
        signals
    }

    /// The position of the first subscriber numbered `id`.
    fn find(&self, id: u64) -> (slot: usize)
        ensures
            slot == listener_slot(self@.listeners, id as nat),
            slot <= self.listeners.len(),
    {
        let mut i: usize = 0;
        while i < self.listeners.len()
            invariant
                i <= self.listeners.len(),
                forall|j: int| 0 <= j < i ==> self@.listeners[j].id != id as nat,
            decreases self.listeners.len() - i,
        {
            if self.listeners[i].id == id {
                proof {
                    lemma_listener_slot(self@.listeners, id as nat, i as int);
                }
                return i;
            }
            i = i + 1;
        }
        proof {
            lemma_listener_slot(self@.listeners, id as nat, i as int);
        }
        i
    }

    /// How many signals wait for `receiver`.
    pub fn waiting_for(&self, receiver: &FileChangeReceiver) -> (waiting: usize)
        ensures
            waiting == self@.waiting(receiver.id()),
    {
        let slot = self.find(receiver.id);
        if slot < self.listeners.len() {
            self.listeners[slot].signals
        } else {
            0
        }
    }

    /// Whether the list has a number left for one more subscriber.
    pub fn can_subscribe(&self) -> (free: bool)
        ensures
            free == (self@.next_id < u64::MAX),
    {
        self.next_id < u64::MAX
    }

    /// How many subscribers the list keeps.
    pub fn subscriber_count(&self) -> (count: usize)
        ensures
            count == self@.listeners.len(),
    {
        self.listeners.len()
    }

    /// Adds a subscriber. It comes last and has no signal waiting.
    pub fn subscribe(&mut self) -> (receiver: FileChangeReceiver)
        requires
            old(self)@.next_id < u64::MAX,
        ensures
            final(self)@ == old(self)@.subscribed(),
            receiver.id() == old(self)@.next_id,
    {
        let id = self.next_id;
        let ghost before = self@.listeners;
        self.listeners.push(Listener { id, connected: true, signals: 0 });
        self.next_id = id + 1;
        proof {
            assert(self@.listeners =~= before.push(
                ListenerView { id: id as nat, connected: true, signals: 0 },
            ));
        }
        FileChangeReceiver { id }
    }

    /// Sends one signal to every live subscriber and removes the others.
    pub fn signal(&mut self)
        ensures
            final(self)@ == old(self)@.signalled(),
    {
        let ghost before = self@.listeners;
        let mut all: Vec<Listener> = Vec::new();
        std::mem::swap(&mut self.listeners, &mut all);
        let mut kept: Vec<Listener> = Vec::new();
        proof {
            assert(before.subrange(0, 0) =~= Seq::<ListenerView>::empty());
            assert(listener_views(kept@) =~= Seq::<ListenerView>::empty());
        }
        for listener in it: all
            invariant
                listener_views(it.seq()) == before,
                listener_views(kept@) == signal_all(before.subrange(0, it.index() as int)),
        {
            let ghost upto = before.subrange(0, it.index() + 1);
            let ghost kept_before = listener_views(kept@);
            proof {
                assert(upto.drop_last() =~= before.subrange(0, it.index() as int));
                assert(upto.last() == listener@);
            }
            let mut listener = listener;
            if listener.connected {
                let ghost signalled = listener@.signalled();
                if listener.signals < usize::MAX {
                    listener.signals = listener.signals + 1;
                }
                kept.push(listener);
                proof {
                    assert(listener_views(kept@) =~= kept_before.push(signalled));
                }
            }
        }
        proof {
            assert(before.subrange(0, before.len() as int) =~= before);
        }
        self.listeners = kept;
    }

    /// Takes one signal off the queue of `receiver`. Says whether there was one.
    pub fn take(&mut self, receiver: &FileChangeReceiver) -> (signalled: bool)
        ensures
            signalled == (old(self)@.waiting(receiver.id()) > 0),
            final(self)@ == old(self)@.taken(receiver.id()),
    {
        let slot = self.find(receiver.id);
        if slot >= self.listeners.len() {
            return false;
        }
        let ghost before = self@;
        let mut listener = self.listeners.remove(slot);
        proof {
            assert(listener@ == before.listeners[slot as int]);
        }
        let signalled = listener.signals > 0;
        if signalled {
            listener.signals = listener.signals - 1;
        }
        let ghost after = listener@;
        self.listeners.insert(slot, listener);
        proof {
            assert(self@.listeners =~= before.listeners.update(slot as int, after));
            if !signalled {
                assert(self@.listeners =~= before.listeners);
            }
        }
        signalled
    }

    /// Ends the subscription of `receiver`. The next signal that goes out
    /// removes it from the list.
    pub fn disconnect(&mut self, receiver: FileChangeReceiver)
        ensures
            final(self)@ == old(self)@.disconnected(receiver.id()),
    {
        let slot = self.find(receiver.id);
        if slot >= self.listeners.len() {
            return ;
        }
        let ghost before = self@;
        let mut listener = self.listeners.remove(slot);
        proof {
            assert(listener@ == before.listeners[slot as int]);
        }
        listener.connected = false;
        listener.signals = 0;
        let ghost after = listener@;
        self.listeners.insert(slot, listener);
        proof {
            assert(self@.listeners =~= before.listeners.update(slot as int, after));
        }
    }
}

/// `listener_slot` lies within the list or at its end; no subscriber before
/// it has the number, and the subscriber at it, if there is one, has.
pub proof fn law_listener_slot_is_first(listeners: Seq<ListenerView>, id: nat)
    ensures
        0 <= listener_slot(listeners, id) <= listeners.len(),
        forall|j: int| 0 <= j < listener_slot(listeners, id) ==> (#[trigger] listeners[j]).id != id,
        listener_slot(listeners, id) < listeners.len() ==> listeners[listener_slot(
            listeners,
            id,
        )].id == id,
    decreases listeners.len(),
{
    if listeners.len() > 0 && listeners[0].id != id {
        let tail = listeners.drop_first();
        law_listener_slot_is_first(tail, id);
        assert forall|j: int| 0 <= j < listener_slot(listeners, id) implies (
        #[trigger] listeners[j]).id != id by {
            if j > 0 {
                assert(listeners[j] == tail[j - 1]);
            }
        }
        if listener_slot(tail, id) < tail.len() {
            assert(listeners[listener_slot(listeners, id)] == tail[listener_slot(tail, id)]);
        }
    }
}

/// A signal that goes out reaches the live subscribers and no others.
pub proof fn law_signal_reaches_the_living(listeners: Seq<ListenerView>)
    ensures
        signal_all(listeners).len() <= listeners.len(),
        forall|i: int|
            0 <= i < signal_all(listeners).len() ==> (#[trigger] signal_all(
                listeners,
            )[i]).connected,
    decreases listeners.len(),
{
    if listeners.len() > 0 {
        law_signal_reaches_the_living(listeners.drop_last());
    }
}

/// Where every subscriber listens, each gets exactly one signal.
pub proof fn law_signal_reaches_every_listener(listeners: Seq<ListenerView>)
    requires
        forall|i: int| 0 <= i < listeners.len() ==> (#[trigger] listeners[i]).connected,
    ensures
        signal_all(listeners).len() == listeners.len(),
        forall|i: int|
            0 <= i < listeners.len() ==> #[trigger] signal_all(listeners)[i]
                == listeners[i].signalled(),
    decreases listeners.len(),
{
    if listeners.len() > 0 {
        let earlier = listeners.drop_last();
        assert forall|i: int| 0 <= i < earlier.len() implies (#[trigger] earlier[i]).connected by {
            assert(earlier[i] == listeners[i]);
        }
        law_signal_reaches_every_listener(earlier);
        assert(listeners.last() == listeners[listeners.len() - 1]);
    }
}

/// Whether the subscribers to file changes stand in the order of their
/// numbers, all below `bound`.
pub open spec fn listeners_numbered_below(listeners: Seq<ListenerView>, bound: nat) -> bool {
    &&& forall|i: int, j: int|
        0 <= i < j < listeners.len() ==> (#[trigger] listeners[i]).id < (#[trigger] listeners[j]).id
    &&& forall|i: int| 0 <= i < listeners.len() ==> (#[trigger] listeners[i]).id < bound
}

/// A signal keeps the subscribers in the order of their numbers, and
/// every live subscriber is still there, with the signal received.
proof fn lemma_signal_keeps_order(listeners: Seq<ListenerView>, bound: nat)
    requires
        listeners_numbered_below(listeners, bound),
    ensures
        listeners_numbered_below(signal_all(listeners), bound),
        forall|k: int|
            0 <= k < listeners.len() && (#[trigger] listeners[k]).connected ==> exists|at: int|
                0 <= at < signal_all(listeners).len() && #[trigger] signal_all(listeners)[at]
                    == listeners[k].signalled(),
    decreases listeners.len(),
{
    if listeners.len() > 0 {
        let earlier = listeners.drop_last();
        let last = listeners.last();
        assert(last == listeners[listeners.len() - 1]);
        assert forall|i: int| 0 <= i < earlier.len() implies (#[trigger] earlier[i]).id
            < last.id by {
            assert(earlier[i] == listeners[i]);
        }
        assert(listeners_numbered_below(earlier, last.id)) by {
            assert forall|i: int, j: int| 0 <= i < j < earlier.len() implies (
            #[trigger] earlier[i]).id < (#[trigger] earlier[j]).id by {
                assert(earlier[i] == listeners[i]);
                assert(earlier[j] == listeners[j]);
            }
        }
        lemma_signal_keeps_order(earlier, last.id);
        let sent = signal_all(listeners);
        let before = signal_all(earlier);
        assert forall|k: int|
            0 <= k < listeners.len() && (#[trigger] listeners[k]).connected implies exists|at: int|
            0 <= at < sent.len() && #[trigger] sent[at] == listeners[k].signalled() by {
            if k < earlier.len() {
                assert(earlier[k] == listeners[k]);
                let at = choose|at: int|
                    0 <= at < before.len() && #[trigger] before[at] == earlier[k].signalled();
                assert(sent[at] == before[at]);
            } else {
                assert(sent[sent.len() - 1] == last.signalled());
            }
        }
    }
}

/// Every step keeps the list of subscribers to file changes well formed.
pub proof fn law_listeners_stay_well_formed(signals: SignalsView, id: nat)
    requires
        signals.well_formed(),
    ensures
        SignalsView::empty().well_formed(),
        signals.subscribed().well_formed(),
        signals.signalled().well_formed(),
        signals.taken(id).well_formed(),
        signals.disconnected(id).well_formed(),
{
    assert(listeners_numbered_below(signals.listeners, signals.next_id));
    lemma_signal_keeps_order(signals.listeners, signals.next_id);
    law_listener_slot_is_first(signals.listeners, id);
    let taken = signals.taken(id).listeners;
    assert(taken.len() == signals.listeners.len());
    assert forall|i: int| 0 <= i < taken.len() implies (#[trigger] taken[i]).id
        == signals.listeners[i].id by {}
    let left = signals.disconnected(id).listeners;
    assert(left.len() == signals.listeners.len());
    assert forall|i: int| 0 <= i < left.len() implies (#[trigger] left[i]).id
        == signals.listeners[i].id by {}
}

/// A signal that goes out is one signal more for each subscriber that
/// listens, as long as its queue takes it.
pub proof fn law_signal_is_queued_for_each_listener(signals: SignalsView, id: nat)
    requires
        signals.well_formed(),
        signals.listens(id),
        signals.waiting(id) < usize::MAX,
    ensures
        signals.signalled().listens(id),
        signals.signalled().waiting(id) == signals.waiting(id) + 1,
{
    let listeners = signals.listeners;
    assert(listeners_numbered_below(listeners, signals.next_id));
    let slot = listener_slot(listeners, id);
    law_listener_slot_is_first(listeners, id);
    lemma_signal_keeps_order(listeners, signals.next_id);
    let sent = signal_all(listeners);
    let at = choose|at: int|
        0 <= at < sent.len() && #[trigger] sent[at] == listeners[slot].signalled();
    assert(sent[at].id == id);
    assert forall|j: int| 0 <= j < at implies sent[j].id != id by {
        assert(sent[j].id < sent[at].id);
    }
    lemma_listener_slot(sent, id, at);
}

/// The test whether a subscriber still listens.
pub open spec fn is_listening() -> spec_fn(ListenerView) -> bool {
    |listener: ListenerView| listener.connected
}

/// The step from a subscriber to the subscriber with one signal more.
pub open spec fn signalling() -> spec_fn(ListenerView) -> ListenerView {
    |listener: ListenerView| listener.signalled()
}

/// Sending a signal filters the subscribers for those that listen and adds
/// one signal to the queue of each.
pub proof fn law_signal_filters_and_queues(listeners: Seq<ListenerView>)
    ensures
        signal_all(listeners) == listeners.filter(is_listening()).map_values(signalling()),
    decreases listeners.len(),
{
    reveal(Seq::filter);
    if listeners.len() > 0 {
        let earlier = listeners.drop_last();
        law_signal_filters_and_queues(earlier);
        let kept = earlier.filter(is_listening());
        if listeners.last().connected {
            assert(listeners.filter(is_listening()) == kept.push(listeners.last()));
            assert(kept.push(listeners.last()).map_values(signalling()) =~= kept.map_values(
                signalling(),
            ).push(listeners.last().signalled()));
        } else {
            assert(listeners.filter(is_listening()) == kept);
        }
    } else {
        assert(listeners.filter(is_listening()).map_values(signalling()) =~= Seq::<
            ListenerView,
        >::empty());
    }
}

} // verus!
