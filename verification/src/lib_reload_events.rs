//! Lifecycle events and the handshake that holds a reload back.
//!
//! The notifier keeps one queue per subscriber. Before a reload it hands every
//! live subscriber a [`BlockReload`] token; the reload may proceed when every
//! token of that cycle, and every duplicate made of one, has been released.
//! After the reload it tells every subscriber that the new version is loaded.
//!
//! Nothing here blocks. Where a host wants to wait, it asks again when the
//! notifier has changed.

use vstd::prelude::*;

verus! {

/// A hold on the reload of one cycle. While a token of the current cycle is
/// outstanding, the reload does not begin. The token is given up by
/// [`BlockReload::release`]; one that is dropped without it holds the reload
/// back for good.
#[derive(Debug)]
pub struct BlockReload {
    cycle: u64,
}

/// Signals when the library has changed.
#[derive(Debug)]
pub enum ChangedEvent {
    LibAboutToReload(BlockReload),
    LibReloaded,
}

/// What an event says, as a plain value.
pub enum Notice {
    /// The reload of cycle `cycle` is about to begin; the event carries a token.
    AboutToReload { cycle: nat },
    /// A reload has finished.
    Reloaded,
}

impl BlockReload {
    /// The cycle whose reload the token holds back.
    pub closed spec fn cycle(&self) -> nat {
        self.cycle as nat
    }
}

impl View for ChangedEvent {
    type V = Notice;

    open spec fn view(&self) -> Notice {
        match self {
            ChangedEvent::LibAboutToReload(block) => Notice::AboutToReload { cycle: block.cycle() },
            ChangedEvent::LibReloaded => Notice::Reloaded,
        }
    }
}

/// One subscriber's queue, as the notifier keeps it.
pub struct MailboxView {
    /// The subscriber's number.
    pub id: nat,
    /// Whether the subscriber still listens.
    pub connected: bool,
    /// The events sent and not yet taken, oldest first.
    pub queue: Seq<Notice>,
}

impl MailboxView {
    /// The mailbox after one more event has arrived.
    pub open spec fn received(self, notice: Notice) -> MailboxView {
        MailboxView { queue: self.queue.push(notice), ..self }
    }
}

/// The subscribers after `notice` went out: those that no longer listen are
/// gone, and each of the others has `notice` at the end of its queue. The
/// order of the subscribers stays.
pub open spec fn deliver(boxes: Seq<MailboxView>, notice: Notice) -> Seq<MailboxView>
    decreases boxes.len(),
{
    if boxes.len() == 0 {
        Seq::empty()
    } else {
        let before = deliver(boxes.drop_last(), notice);
        if boxes.last().connected {
            before.push(boxes.last().received(notice))
        } else {
            before
        }
    }
}

/// The position of the first subscriber numbered `id`, or the number of
/// subscribers where there is none.
pub open spec fn slot_of(boxes: Seq<MailboxView>, id: nat) -> int
    decreases boxes.len(),
{
    if boxes.len() == 0 {
        0
    } else if boxes[0].id == id {
        0
    } else {
        1 + slot_of(boxes.drop_first(), id)
    }
}

/// Whether `notice` is of the wanted kind.
pub open spec fn wanted(notice: Notice, reloaded: bool) -> bool {
    (notice is Reloaded) == reloaded
}

/// The position of the first event of the wanted kind in `queue`, or the
/// length of `queue` where there is none.
pub open spec fn first_wanted(queue: Seq<Notice>, reloaded: bool) -> int
    decreases queue.len(),
{
    if queue.len() == 0 {
        0
    } else if wanted(queue[0], reloaded) {
        0
    } else {
        1 + first_wanted(queue.drop_first(), reloaded)
    }
}

/// How many tokens of cycle `cycle` the events of `queue` carry.
pub open spec fn held(queue: Seq<Notice>, cycle: nat) -> nat
    decreases queue.len(),
{
    if queue.len() == 0 {
        0
    } else {
        held(queue.drop_last(), cycle) + if queue.last() == (Notice::AboutToReload { cycle }) {
            1nat
        } else {
            0nat
        }
    }
}

/// `pending` holds after `given_up` of them were given up.
pub open spec fn less_holds(pending: nat, given_up: nat) -> nat {
    if pending >= given_up {
        (pending - given_up) as nat
    } else {
        0
    }
}

/// The notifier as a plain value.
pub struct HubView {
    /// The subscribers, in the order in which they subscribed.
    pub boxes: Seq<MailboxView>,
    /// The number that the next subscriber gets.
    pub next_id: nat,
    /// The number of the latest cycle that was announced.
    pub cycle: nat,
    /// How many holds on the reload of that cycle are outstanding.
    pub pending: nat,
}

impl HubView {
    /// A notifier without subscribers, before its first cycle.
    pub open spec fn empty() -> HubView {
        HubView { boxes: Seq::empty(), next_id: 0, cycle: 0, pending: 0 }
    }

    /// What holds of a notifier at every moment: the subscribers stand in the
    /// order of their numbers, and every number is below the one that the
    /// next subscriber gets. So no two subscribers share a number.
    pub open spec fn well_formed(self) -> bool {
        &&& forall|i: int, j: int|
            0 <= i < j < self.boxes.len() ==> (#[trigger] self.boxes[i]).id
                < (#[trigger] self.boxes[j]).id
        &&& forall|i: int|
            0 <= i < self.boxes.len() ==> (#[trigger] self.boxes[i]).id < self.next_id
    }

    /// Whether a subscriber numbered `id` is there and listens.
    pub open spec fn listens(self, id: nat) -> bool {
        let slot = slot_of(self.boxes, id);
        slot < self.boxes.len() && self.boxes[slot].connected
    }

    /// Whether the reload of the current cycle may begin.
    pub open spec fn clear(self) -> bool {
        self.pending == 0
    }

    /// The queue of subscriber `id`; empty for a subscriber that is not there.
    pub open spec fn queue_of(self, id: nat) -> Seq<Notice> {
        let slot = slot_of(self.boxes, id);
        if slot < self.boxes.len() {
            self.boxes[slot].queue
        } else {
            Seq::empty()
        }
    }

    /// After one more subscriber has joined.
    pub open spec fn subscribed(self) -> HubView {
        HubView {
            boxes: self.boxes.push(
                MailboxView { id: self.next_id, connected: true, queue: Seq::empty() },
            ),
            next_id: self.next_id + 1,
            ..self
        }
    }

    /// After `notice` went out to every subscriber.
    pub open spec fn notified(self, notice: Notice) -> HubView {
        HubView { boxes: deliver(self.boxes, notice), ..self }
    }

    /// After the next cycle was announced: every live subscriber has a token
    /// of the new cycle in its queue, and these tokens are the holds.
    pub open spec fn announced(self) -> HubView {
        let cycle = self.cycle + 1;
        let boxes = deliver(self.boxes, Notice::AboutToReload { cycle });
        HubView { boxes, cycle, pending: boxes.len(), ..self }
    }

    /// After a token of cycle `cycle` was given up. A token of an earlier
    /// cycle holds nothing back any more.
    pub open spec fn released(self, cycle: nat) -> HubView {
        if cycle == self.cycle {
            HubView { pending: less_holds(self.pending, 1), ..self }
        } else {
            self
        }
    }

    /// After a token of cycle `cycle` was duplicated.
    pub open spec fn duplicated(self, cycle: nat) -> HubView {
        if cycle == self.cycle {
            HubView { pending: self.pending + 1, ..self }
        } else {
            self
        }
    }

    /// How many events subscriber `id` takes off its queue while it waits for
    /// an event of the wanted kind: all up to and including the first such
    /// event, or all there are.
    pub open spec fn taken(self, id: nat, reloaded: bool) -> int {
        let queue = self.queue_of(id);
        let at = first_wanted(queue, reloaded);
        if at < queue.len() {
            at + 1
        } else {
            at
        }
    }

    /// The event that subscriber `id` waited for, if its queue holds one.
    pub open spec fn awaited(self, id: nat, reloaded: bool) -> Option<Notice> {
        let queue = self.queue_of(id);
        let at = first_wanted(queue, reloaded);
        if at < queue.len() {
            Some(queue[at])
        } else {
            None
        }
    }

    /// After subscriber `id` waited for an event of the wanted kind. The
    /// events before it are thrown away, and the tokens among them given up.
    pub open spec fn after_wait(self, id: nat, reloaded: bool) -> HubView {
        let slot = slot_of(self.boxes, id);
        if slot < self.boxes.len() {
            let queue = self.boxes[slot].queue;
            let skipped = queue.subrange(0, first_wanted(queue, reloaded));
            let rest = queue.subrange(self.taken(id, reloaded), queue.len() as int);
            HubView {
                boxes: self.boxes.update(slot, MailboxView { queue: rest, ..self.boxes[slot] }),
                pending: less_holds(self.pending, held(skipped, self.cycle)),
                ..self
            }
        } else {
            self
        }
    }

    /// After subscriber `id` took the oldest event off its queue, if it
    /// holds one. A token that comes out with the event is still held.
    pub open spec fn after_recv(self, id: nat) -> HubView {
        let slot = slot_of(self.boxes, id);
        if slot < self.boxes.len() && self.boxes[slot].queue.len() > 0 {
            HubView {
                boxes: self.boxes.update(
                    slot,
                    MailboxView {
                        queue: self.boxes[slot].queue.drop_first(),
                        ..self.boxes[slot]
                    },
                ),
                ..self
            }
        } else {
            self
        }
    }

    /// After subscriber `id` stopped listening. What its queue held is thrown
    /// away, and the tokens in it given up.
    pub open spec fn disconnected(self, id: nat) -> HubView {
        let slot = slot_of(self.boxes, id);
        if slot < self.boxes.len() {
            HubView {
                boxes: self.boxes.update(
                    slot,
                    MailboxView { connected: false, queue: Seq::empty(), ..self.boxes[slot] },
                ),
                pending: less_holds(self.pending, held(self.boxes[slot].queue, self.cycle)),
                ..self
            }
        } else {
            self
        }
    }
}

/// One subscriber's queue. It stands for the subscriber's channel: events
/// go in at the end and come out at the front, and a subscriber that is gone
/// is marked and leaves the list when the next event goes out.
struct Mailbox {
    id: u64,
    connected: bool,
    queue: Vec<ChangedEvent>,
}

/// What a queue of events says.
spec fn notices(queue: Seq<ChangedEvent>) -> Seq<Notice> {
    queue.map_values(|event: ChangedEvent| event@)
}

impl View for Mailbox {
    type V = MailboxView;

    closed spec fn view(&self) -> MailboxView {
        MailboxView { id: self.id as nat, connected: self.connected, queue: notices(self.queue@) }
    }
}

/// The subscribers as plain values.
spec fn box_views(boxes: Seq<Mailbox>) -> Seq<MailboxView> {
    boxes.map_values(|mailbox: Mailbox| mailbox@)
}

/// `slot_of` finds the first subscriber with the number, and nothing else does.
proof fn lemma_slot_of(boxes: Seq<MailboxView>, id: nat, slot: int)
    requires
        0 <= slot <= boxes.len(),
        forall|j: int| 0 <= j < slot ==> boxes[j].id != id,
        slot < boxes.len() ==> boxes[slot].id == id,
    ensures
        slot_of(boxes, id) == slot,
    decreases boxes.len(),
{
    if boxes.len() > 0 && boxes[0].id != id {
        let tail = boxes.drop_first();
        assert forall|j: int| 0 <= j < slot - 1 implies tail[j].id != id by {
            assert(tail[j] == boxes[j + 1]);
        }
        lemma_slot_of(tail, id, slot - 1);
    }
}

/// `first_wanted` finds the first event of the kind, and nothing else does.
proof fn lemma_first_wanted(queue: Seq<Notice>, reloaded: bool, at: int)
    requires
        0 <= at <= queue.len(),
        forall|j: int| 0 <= j < at ==> !wanted(queue[j], reloaded),
        at < queue.len() ==> wanted(queue[at], reloaded),
    ensures
        first_wanted(queue, reloaded) == at,
    decreases queue.len(),
{
    if queue.len() > 0 && !wanted(queue[0], reloaded) {
        let tail = queue.drop_first();
        assert forall|j: int| 0 <= j < at - 1 implies !wanted(tail[j], reloaded) by {
            assert(tail[j] == queue[j + 1]);
        }
        lemma_first_wanted(tail, reloaded, at - 1);
    }
}

/// The position of the first event of the wanted kind.
fn find_wanted(queue: &Vec<ChangedEvent>, reloaded: bool) -> (at: usize)
    ensures
        at == first_wanted(notices(queue@), reloaded),
        at <= queue.len(),
        at < queue.len() ==> wanted(queue@[at as int]@, reloaded),
{
    let mut i: usize = 0;
    while i < queue.len()
        invariant
            i <= queue.len(),
            forall|j: int| 0 <= j < i ==> !wanted(notices(queue@)[j], reloaded),
        decreases queue.len() - i,
    {
        let hit = match queue[i] {
            ChangedEvent::LibReloaded => reloaded,
            ChangedEvent::LibAboutToReload(_) => !reloaded,
        };
        if hit {
            proof {
                lemma_first_wanted(notices(queue@), reloaded, i as int);
            }
            return i;
        }
        i = i + 1;
    }
    proof {
        lemma_first_wanted(notices(queue@), reloaded, i as int);
    }
    i
}

/// How many tokens of cycle `cycle` a queue carries.
fn count_held(queue: &Vec<ChangedEvent>, cycle: u64) -> (count: usize)
    ensures
        count == held(notices(queue@), cycle as nat),
{
    let mut count: usize = 0;
    let mut i: usize = 0;
    proof {
        assert(notices(queue@).subrange(0, 0) =~= Seq::<Notice>::empty());
    }
    while i < queue.len()
        invariant
            i <= queue.len(),
            count <= i,
            count == held(notices(queue@).subrange(0, i as int), cycle as nat),
        decreases queue.len() - i,
    {
        proof {
            let upto = notices(queue@).subrange(0, i + 1);
            assert(upto.drop_last() =~= notices(queue@).subrange(0, i as int));
            assert(upto.last() == queue@[i as int]@);
        }
        match &queue[i] {
            ChangedEvent::LibAboutToReload(block) => {
                if block.cycle == cycle {
                    count = count + 1;
                }
            },
            ChangedEvent::LibReloaded => {},
        }
        i = i + 1;
    }
    proof {
        assert(notices(queue@).subrange(0, i as int) =~= notices(queue@));
    }
    count
}

/// The notifier of one library: its subscribers with their queues, the number
/// of the cycle that was announced last, and the holds on its reload.
pub struct LibReloadNotifier {
    subscribers: Vec<Mailbox>,
    next_id: u64,
    cycle: u64,
    pending: usize,
}

impl View for LibReloadNotifier {
    type V = HubView;

    closed spec fn view(&self) -> HubView {
        HubView {
            boxes: box_views(self.subscribers@),
            next_id: self.next_id as nat,
            cycle: self.cycle as nat,
            pending: self.pending as nat,
        }
    }
}

/// The receiving side of one subscription.
pub struct LibReloadObserver {
    id: u64,
}

impl LibReloadObserver {
    /// The subscriber's number.
    pub closed spec fn id(&self) -> nat {
        self.id as nat
    }
}

impl LibReloadNotifier {
    /// A notifier without subscribers.
    pub fn new() -> (hub: Self)
        ensures
            hub@ == HubView::empty(),
    {
        let hub = LibReloadNotifier { subscribers: Vec::new(), next_id: 0, cycle: 0, pending: 0 };
        proof {
            assert(box_views(hub.subscribers@) =~= Seq::<MailboxView>::empty());
        }
        hub
    }

    /// The position of the first subscriber numbered `id`.
    fn find(&self, id: u64) -> (slot: usize)
        ensures
            slot == slot_of(self@.boxes, id as nat),
            slot <= self.subscribers.len(),
    {
        let mut i: usize = 0;
        while i < self.subscribers.len()
            invariant
                i <= self.subscribers.len(),
                forall|j: int| 0 <= j < i ==> self@.boxes[j].id != id as nat,
            decreases self.subscribers.len() - i,
        {
            if self.subscribers[i].id == id {
                proof {
                    lemma_slot_of(self@.boxes, id as nat, i as int);
                }
                return i;
            }
            i = i + 1;
        }
        proof {
            lemma_slot_of(self@.boxes, id as nat, i as int);
        }
        i
    }

    /// Sends one event to all live subscribers and removes the others.
    /// Returns how many got it.
    fn broadcast(&mut self, reloaded: bool) -> (sent: usize)
        ensures
            final(self)@ == old(self)@.notified(
                if reloaded {
                    Notice::Reloaded
                } else {
                    Notice::AboutToReload { cycle: old(self)@.cycle }
                },
            ),
            sent == final(self)@.boxes.len(),
    {
        let ghost notice = if reloaded {
            Notice::Reloaded
        } else {
            Notice::AboutToReload { cycle: self@.cycle }
        };
        let ghost before = self@.boxes;
        let cycle = self.cycle;
        let mut all: Vec<Mailbox> = Vec::new();
        std::mem::swap(&mut self.subscribers, &mut all);
        let mut kept: Vec<Mailbox> = Vec::new();
        proof {
            assert(before.subrange(0, 0) =~= Seq::<MailboxView>::empty());
            assert(box_views(kept@) =~= Seq::<MailboxView>::empty());
        }
        for mailbox in it: all
            invariant
                box_views(it.seq()) == before,
                box_views(kept@) == deliver(before.subrange(0, it.index() as int), notice),
                notice == if reloaded {
                    Notice::Reloaded
                } else {
                    Notice::AboutToReload { cycle: cycle as nat }
                },
        {
            let ghost upto = before.subrange(0, it.index() + 1);
            let ghost kept_before = box_views(kept@);
            proof {
                assert(upto.drop_last() =~= before.subrange(0, it.index() as int));
                assert(upto.last() == mailbox@);
            }
            let mut mailbox = mailbox;
            if mailbox.connected {
                let ghost received = mailbox@.received(notice);
                let event = if reloaded {
                    ChangedEvent::LibReloaded
                } else {
                    ChangedEvent::LibAboutToReload(BlockReload { cycle })
                };
                mailbox.queue.push(event);
                proof {
                    assert(mailbox@.queue =~= received.queue);
                    assert(mailbox@ == received);
                }
                kept.push(mailbox);
                proof {
                    assert(box_views(kept@) =~= kept_before.push(received));
                }
            }
        }
        proof {
            assert(before.subrange(0, before.len() as int) =~= before);
        }
        self.subscribers = kept;
        self.subscribers.len()
    }
}

impl LibReloadNotifier {
    /// Subscribes to the lifecycle events of the library. The new subscriber
    /// comes last and starts with an empty queue.
    pub fn subscribe(&mut self) -> (observer: LibReloadObserver)
        requires
            old(self)@.next_id < u64::MAX,
        ensures
            final(self)@ == old(self)@.subscribed(),
            observer.id() == old(self)@.next_id,
    {
        let id = self.next_id;
        let ghost before = self@.boxes;
        let mailbox = Mailbox { id, connected: true, queue: Vec::new() };
        proof {
            assert(mailbox@.queue =~= Seq::<Notice>::empty());
        }
        self.subscribers.push(mailbox);
        self.next_id = id + 1;
        proof {
            assert(self@.boxes =~= before.push(
                MailboxView { id: id as nat, connected: true, queue: Seq::empty() },
            ));
        }
        LibReloadObserver { id }
    }

    /// Announces the next cycle: every live subscriber gets a token of the new
    /// cycle, subscribers that are gone are removed, and the tokens handed
    /// out are the holds on the reload. Says whether the reload may begin at
    /// once; where it may not, the host waits until [`Self::blocks_clear`].
    pub fn send_about_to_reload_event_and_wait_for_blocks(&mut self) -> (clear: bool)
        requires
            old(self)@.cycle < u64::MAX,
        ensures
            final(self)@ == old(self)@.announced(),
            clear == final(self)@.clear(),
    {
        self.cycle = self.cycle + 1;
        let sent = self.broadcast(false);
        self.pending = sent;
        sent == 0
    }

    /// Tells every live subscriber that a reload has finished, and removes
    /// the subscribers that are gone.
    pub fn send_reloaded_event(&mut self)
        ensures
            final(self)@ == old(self)@.notified(Notice::Reloaded),
    {
        self.broadcast(true);
    }

    /// One attempt to send an event to all subscribers: the end of a reload
    /// for `reloaded`, else the announcement of one.
    ///
    /// The host tries to get at the notifier without blocking, and `access` is
    /// what came of it. Where the notifier is in use (`None`) the attempt is
    /// skipped: nobody is told, and nothing holds the reload back. Says
    /// whether the reload may begin at once.
    pub fn notify(access: Option<&mut LibReloadNotifier>, reloaded: bool) -> (clear: bool)
        requires
            access matches Some(hub) ==> !reloaded ==> hub@.cycle < u64::MAX,
        ensures
            match access {
                Some(hub) => {
                    &&& final(hub)@ == if reloaded {
                        hub@.notified(Notice::Reloaded)
                    } else {
                        hub@.announced()
                    }
                    &&& clear == final(hub)@.clear()
                },
                None => clear,
            },
    {
        match access {
            Some(hub) => {
                if reloaded {
                    hub.send_reloaded_event();
                    hub.blocks_clear()
                } else {
                    hub.send_about_to_reload_event_and_wait_for_blocks()
                }
            },
            None => true,
        }
    }

    /// How many holds on the reload of the current cycle are outstanding.
    pub fn blocks_pending(&self) -> (pending: usize)
        ensures
            pending == self@.pending,
    {
        self.pending
    }

    /// Whether the reload of the current cycle may begin.
    pub fn blocks_clear(&self) -> (clear: bool)
        ensures
            clear == self@.clear(),
    {
        self.pending == 0
    }

    /// Whether the notifier has a number left for one more subscriber.
    pub fn can_subscribe(&self) -> (free: bool)
        ensures
            free == (self@.next_id < u64::MAX),
    {
        self.next_id < u64::MAX
    }

    /// The number of the latest cycle that was announced.
    pub fn cycle_number(&self) -> (cycle: u64)
        ensures
            cycle == self@.cycle,
    {
        self.cycle
    }

    /// How many subscribers the notifier keeps.
    pub fn subscriber_count(&self) -> (count: usize)
        ensures
            count == self@.boxes.len(),
    {
        self.subscribers.len()
    }

    /// Gives up `given_up` holds.
    fn give_up(&mut self, given_up: usize)
        ensures
            final(self)@ == (HubView {
                pending: less_holds(old(self)@.pending, given_up as nat),
                ..old(self)@
            }),
    {
        self.pending = if self.pending >= given_up {
            self.pending - given_up
        } else {
            0
        };
    }

    /// Takes events off the queue of subscriber `id` up to and including the
    /// first of the wanted kind, and hands that one out.
    fn take(&mut self, id: u64, reloaded: bool) -> (event: Option<ChangedEvent>)
        ensures
            final(self)@ == old(self)@.after_wait(id as nat, reloaded),
            match event {
                Some(e) => old(self)@.awaited(id as nat, reloaded) == Some(e@) && wanted(
                    e@,
                    reloaded,
                ),
                None => old(self)@.awaited(id as nat, reloaded) is None,
            },
    {
        let slot = self.find(id);
        if slot >= self.subscribers.len() {
            return None;
        }
        let ghost before = self@;
        let ghost queue = before.boxes[slot as int].queue;
        let mut mailbox = self.subscribers.remove(slot);
        proof {
            assert(mailbox@ == before.boxes[slot as int]);
        }
        let at = find_wanted(&mailbox.queue, reloaded);
        let found = at < mailbox.queue.len();
        let taken = if found {
            at + 1
        } else {
            at
        };
        let rest = mailbox.queue.split_off(taken);
        let event = if found {
            mailbox.queue.pop()
        } else {
            None
        };
        proof {
            assert(notices(rest@) =~= queue.subrange(taken as int, queue.len() as int));
            assert(notices(mailbox.queue@) =~= queue.subrange(0, at as int));
        }
        let given_up = count_held(&mailbox.queue, self.cycle);
        mailbox.queue = rest;
        self.subscribers.insert(slot, mailbox);
        proof {
            assert(self@.boxes =~= before.boxes.update(
                slot as int,
                MailboxView { queue: notices(rest@), ..before.boxes[slot as int] },
            ));
        }
        self.give_up(given_up);
        event
    }
}

impl std::default::Default for LibReloadNotifier {
    fn default() -> (hub: Self)
        ensures
            hub@ == HubView::empty(),
    {
        LibReloadNotifier::new()
    }
}

impl LibReloadObserver {
    /// Whether the queue holds an event of the wanted kind: the end of a
    /// reload for `reloaded`, else the announcement of one.
    pub fn ready(&self, hub: &LibReloadNotifier, reloaded: bool) -> (ready: bool)
        ensures
            ready == hub@.awaited(self.id(), reloaded) is Some,
    {
        let slot = hub.find(self.id);
        if slot >= hub.subscribers.len() {
            return false;
        }
        let queue = &hub.subscribers[slot].queue;
        find_wanted(queue, reloaded) < queue.len()
    }

    /// Takes the oldest event off the queue, whatever it says. `None` where
    /// the queue is empty.
    pub fn try_recv(&self, hub: &mut LibReloadNotifier) -> (event: Option<ChangedEvent>)
        ensures
            final(hub)@ == old(hub)@.after_recv(self.id()),
            match event {
                Some(e) => old(hub)@.queue_of(self.id()).len() > 0 && e@ == old(hub)@.queue_of(
                    self.id(),
                )[0],
                None => old(hub)@.queue_of(self.id()).len() == 0,
            },
    {
        let slot = hub.find(self.id);
        if slot >= hub.subscribers.len() {
            return None;
        }
        if hub.subscribers[slot].queue.len() == 0 {
            return None;
        }
        let ghost before = hub@;
        let mut mailbox = hub.subscribers.remove(slot);
        proof {
            assert(mailbox@ == before.boxes[slot as int]);
        }
        let event = mailbox.queue.remove(0);
        proof {
            assert(mailbox@.queue =~= before.boxes[slot as int].queue.drop_first());
        }
        let ghost after = mailbox@;
        hub.subscribers.insert(slot, mailbox);
        proof {
            assert(hub@.boxes =~= before.boxes.update(slot as int, after));
        }
        Some(event)
    }

    /// Takes the next announcement of a reload off the queue, with the events
    /// before it, and returns its token. While the token is held the reload
    /// does not proceed: the time to prepare for it, with the old version
    /// still loaded.
    pub fn wait_for_about_to_reload(&self, hub: &mut LibReloadNotifier) -> (block: BlockReload)
        requires
            old(hub)@.awaited(self.id(), false) is Some,
        ensures
            final(hub)@ == old(hub)@.after_wait(self.id(), false),
            old(hub)@.awaited(self.id(), false) == Some(
                Notice::AboutToReload { cycle: block.cycle() },
            ),
    {
        match hub.take(self.id, false) {
            Some(ChangedEvent::LibAboutToReload(block)) => block,
            _ => unreached(),
        }
    }

    /// Like [`Self::wait_for_about_to_reload`], for a host that stopped
    /// waiting: where the queue holds no announcement, the events in it are
    /// taken off and `None` is returned.
    pub fn wait_for_about_to_reload_timeout(&self, hub: &mut LibReloadNotifier) -> (block: Option<
        BlockReload,
    >)
        ensures
            final(hub)@ == old(hub)@.after_wait(self.id(), false),
            match block {
                Some(b) => old(hub)@.awaited(self.id(), false) == Some(
                    Notice::AboutToReload { cycle: b.cycle() },
                ),
                None => old(hub)@.awaited(self.id(), false) is None,
            },
    {
        match hub.take(self.id, false) {
            Some(ChangedEvent::LibAboutToReload(block)) => Some(block),
            Some(ChangedEvent::LibReloaded) => unreached(),
            None => None,
        }
    }

    /// Takes the next end of a reload off the queue, with the events before
    /// it. The tokens among those are given up.
    pub fn wait_for_reload(&self, hub: &mut LibReloadNotifier)
        requires
            old(hub)@.awaited(self.id(), true) is Some,
        ensures
            final(hub)@ == old(hub)@.after_wait(self.id(), true),
    {
        let _ = hub.take(self.id, true);
    }

    /// Like [`Self::wait_for_reload`], for a host that stopped waiting: says
    /// whether the queue held the end of a reload.
    pub fn wait_for_reload_timeout(&self, hub: &mut LibReloadNotifier) -> (reloaded: bool)
        ensures
            final(hub)@ == old(hub)@.after_wait(self.id(), true),
            reloaded == old(hub)@.awaited(self.id(), true) is Some,
    {
        hub.take(self.id, true).is_some()
    }

    /// Ends the subscription. The queue is emptied, the tokens in it are
    /// given up, and the next event that goes out removes the subscriber.
    pub fn disconnect(self, hub: &mut LibReloadNotifier)
        ensures
            final(hub)@ == old(hub)@.disconnected(self.id()),
    {
        let slot = hub.find(self.id);
        if slot >= hub.subscribers.len() {
            return ;
        }
        let ghost before = hub@;
        let mut mailbox = hub.subscribers.remove(slot);
        proof {
            assert(mailbox@ == before.boxes[slot as int]);
        }
        let given_up = count_held(&mailbox.queue, hub.cycle);
        mailbox.queue = Vec::new();
        mailbox.connected = false;
        proof {
            assert(mailbox@.queue =~= Seq::<Notice>::empty());
        }
        hub.subscribers.insert(slot, mailbox);
        proof {
            assert(hub@.boxes =~= before.boxes.update(
                slot as int,
                MailboxView { connected: false, queue: Seq::empty(), ..before.boxes[slot as int] },
            ));
        }
        hub.give_up(given_up);
    }
}

impl BlockReload {
    /// The number of the cycle whose reload the token holds back.
    pub fn cycle_number(&self) -> (cycle: u64)
        ensures
            cycle == self.cycle(),
    {
        self.cycle
    }

    /// Gives the token up. Where it was the last hold of the current cycle,
    /// the reload may begin.
    pub fn release(self, hub: &mut LibReloadNotifier)
        ensures
            final(hub)@ == old(hub)@.released(self.cycle()),
    {
        if self.cycle == hub.cycle {
            hub.give_up(1);
        }
    }

    /// A second token for the same cycle: one more hold on its reload.
    pub fn duplicate(&self, hub: &mut LibReloadNotifier) -> (block: BlockReload)
        requires
            old(hub)@.pending < usize::MAX,
        ensures
            final(hub)@ == old(hub)@.duplicated(self.cycle()),
            block.cycle() == self.cycle(),
    {
        if self.cycle == hub.cycle {
            hub.pending = hub.pending + 1;
        }
        BlockReload { cycle: self.cycle }
    }
}

/// `slot_of` lies within the list or at its end; no subscriber before it has
/// the number, and the subscriber at it, if there is one, has.
pub proof fn law_slot_of_is_first(boxes: Seq<MailboxView>, id: nat)
    ensures
        0 <= slot_of(boxes, id) <= boxes.len(),
        forall|j: int| 0 <= j < slot_of(boxes, id) ==> (#[trigger] boxes[j]).id != id,
        slot_of(boxes, id) < boxes.len() ==> boxes[slot_of(boxes, id)].id == id,
    decreases boxes.len(),
{
    if boxes.len() > 0 && boxes[0].id != id {
        let tail = boxes.drop_first();
        law_slot_of_is_first(tail, id);
        assert forall|j: int| 0 <= j < slot_of(boxes, id) implies (#[trigger] boxes[j]).id
            != id by {
            if j > 0 {
                assert(boxes[j] == tail[j - 1]);
            }
        }
        if slot_of(tail, id) < tail.len() {
            assert(boxes[slot_of(boxes, id)] == tail[slot_of(tail, id)]);
        }
    }
}

/// `first_wanted` names the first event of the wanted kind: it lies within
/// the queue or at its end, no event before it is of the kind, and the
/// event at it, if there is one, is.
pub proof fn law_first_wanted_is_first(queue: Seq<Notice>, reloaded: bool)
    ensures
        0 <= first_wanted(queue, reloaded) <= queue.len(),
        forall|j: int|
            0 <= j < first_wanted(queue, reloaded) ==> !wanted(#[trigger] queue[j], reloaded),
        first_wanted(queue, reloaded) < queue.len() ==> wanted(
            queue[first_wanted(queue, reloaded)],
            reloaded,
        ),
    decreases queue.len(),
{
    if queue.len() > 0 && !wanted(queue[0], reloaded) {
        let tail = queue.drop_first();
        law_first_wanted_is_first(tail, reloaded);
        assert forall|j: int| 0 <= j < first_wanted(queue, reloaded) implies !wanted(
            #[trigger] queue[j],
            reloaded,
        ) by {
            if j > 0 {
                assert(queue[j] == tail[j - 1]);
            }
        }
        if first_wanted(tail, reloaded) < tail.len() {
            assert(queue[first_wanted(queue, reloaded)] == tail[first_wanted(tail, reloaded)]);
        }
    }
}

/// The notifier after `n` tokens of cycle `cycle` were given up.
pub open spec fn released_times(hub: HubView, cycle: nat, n: nat) -> HubView
    decreases n,
{
    if n == 0 {
        hub
    } else {
        released_times(hub, cycle, (n - 1) as nat).released(cycle)
    }
}

/// An event that goes out reaches the live subscribers and no others: what
/// comes out is no longer than what went in, every subscriber in it listens,
/// and the event is the newest in its queue.
pub proof fn law_event_reaches_the_living(boxes: Seq<MailboxView>, notice: Notice)
    ensures
        deliver(boxes, notice).len() <= boxes.len(),
        forall|i: int|
            0 <= i < deliver(boxes, notice).len() ==> {
                let mailbox = #[trigger] deliver(boxes, notice)[i];
                mailbox.connected && mailbox.queue.len() > 0 && mailbox.queue.last() == notice
            },
    decreases boxes.len(),
{
    if boxes.len() > 0 {
        law_event_reaches_the_living(boxes.drop_last(), notice);
    }
}

/// Where every subscriber listens, each gets the event and none is removed.
pub proof fn law_event_reaches_every_subscriber(boxes: Seq<MailboxView>, notice: Notice)
    requires
        forall|i: int| 0 <= i < boxes.len() ==> (#[trigger] boxes[i]).connected,
    ensures
        deliver(boxes, notice).len() == boxes.len(),
        forall|i: int|
            0 <= i < boxes.len() ==> #[trigger] deliver(boxes, notice)[i] == boxes[i].received(
                notice,
            ),
    decreases boxes.len(),
{
    if boxes.len() > 0 {
        let earlier = boxes.drop_last();
        assert forall|i: int| 0 <= i < earlier.len() implies (#[trigger] earlier[i]).connected by {
            assert(earlier[i] == boxes[i]);
        }
        law_event_reaches_every_subscriber(earlier, notice);
        assert(boxes.last() == boxes[boxes.len() - 1]);
    }
}

/// An announcement opens a new cycle with one hold for each subscriber that
/// got a token.
pub proof fn law_announcement_holds_per_subscriber(hub: HubView)
    ensures
        hub.announced().cycle == hub.cycle + 1,
        hub.announced().pending == hub.announced().boxes.len(),
        hub.announced().pending <= hub.boxes.len(),
        hub.announced().clear() <==> hub.announced().boxes.len() == 0,
{
    law_event_reaches_the_living(hub.boxes, Notice::AboutToReload { cycle: hub.cycle + 1 });
}

/// Each token of the current cycle that is given up takes one hold away, and
/// nothing else changes: after `n` of `pending` holds were given up,
/// `pending - n` are left. So the reload is held back until the last token
/// is given up, and is free then.
pub proof fn law_reload_waits_for_every_token(hub: HubView, n: nat)
    requires
        n <= hub.pending,
    ensures
        released_times(hub, hub.cycle, n) == (HubView {
            pending: (hub.pending - n) as nat,
            ..hub
        }),
        released_times(hub, hub.cycle, n).clear() <==> n == hub.pending,
    decreases n,
{
    if n > 0 {
        law_reload_waits_for_every_token(hub, (n - 1) as nat);
    }
}

/// A duplicate of a token of the current cycle is one more hold, which
/// giving up either of the two takes away again. A token of another cycle
/// holds nothing back.
pub proof fn law_duplicate_is_one_more_hold(hub: HubView, cycle: nat)
    ensures
        cycle == hub.cycle ==> hub.duplicated(cycle).pending == hub.pending + 1,
        hub.duplicated(cycle).released(cycle) == hub,
        cycle != hub.cycle ==> hub.released(cycle) == hub && hub.duplicated(cycle) == hub,
{
}

/// Events that carry no token of the cycle hold nothing of it.
proof fn lemma_no_token_no_hold(queue: Seq<Notice>, cycle: nat)
    requires
        forall|j: int| 0 <= j < queue.len() ==> #[trigger] queue[j] is Reloaded,
    ensures
        held(queue, cycle) == 0,
    decreases queue.len(),
{
    if queue.len() > 0 {
        let earlier = queue.drop_last();
        assert forall|j: int| 0 <= j < earlier.len() implies #[trigger] earlier[j] is Reloaded by {
            assert(earlier[j] == queue[j]);
        }
        lemma_no_token_no_hold(earlier, cycle);
        assert(queue.last() == queue[queue.len() - 1]);
    }
}

/// A subscriber that waits for the announcement of a reload gives up no
/// hold by waiting: the events that it skips carry no token, and the token
/// that it gets is still held. What it finds is an announcement.
pub proof fn law_waiting_for_announcement_keeps_holds(hub: HubView, id: nat)
    ensures
        hub.after_wait(id, false).pending == hub.pending,
        hub.after_wait(id, false).cycle == hub.cycle,
        hub.awaited(id, false) matches Some(notice) ==> notice is AboutToReload,
{
    let queue = hub.queue_of(id);
    law_first_wanted_is_first(queue, false);
    let skipped = queue.subrange(0, first_wanted(queue, false));
    assert forall|j: int| 0 <= j < skipped.len() implies #[trigger] skipped[j] is Reloaded by {
        assert(skipped[j] == queue[j]);
    }
    lemma_no_token_no_hold(skipped, hub.cycle);
}

/// Whether the subscribers stand in the order of their numbers, all below `bound`.
pub open spec fn numbered_below(boxes: Seq<MailboxView>, bound: nat) -> bool {
    &&& forall|i: int, j: int|
        0 <= i < j < boxes.len() ==> (#[trigger] boxes[i]).id < (#[trigger] boxes[j]).id
    &&& forall|i: int| 0 <= i < boxes.len() ==> (#[trigger] boxes[i]).id < bound
}

/// Sending an event keeps the subscribers in the order of their numbers,
/// and every live subscriber is still there, with the event received.
proof fn lemma_deliver_keeps_order(boxes: Seq<MailboxView>, notice: Notice, bound: nat)
    requires
        numbered_below(boxes, bound),
    ensures
        numbered_below(deliver(boxes, notice), bound),
        forall|k: int|
            0 <= k < boxes.len() && (#[trigger] boxes[k]).connected ==> exists|at: int|
                0 <= at < deliver(boxes, notice).len() && #[trigger] deliver(boxes, notice)[at]
                    == boxes[k].received(notice),
    decreases boxes.len(),
{
    if boxes.len() > 0 {
        let earlier = boxes.drop_last();
        let last = boxes.last();
        assert(last == boxes[boxes.len() - 1]);
        assert forall|i: int| 0 <= i < earlier.len() implies (#[trigger] earlier[i]).id
            < last.id by {
            assert(earlier[i] == boxes[i]);
        }
        assert(numbered_below(earlier, last.id)) by {
            assert forall|i: int, j: int| 0 <= i < j < earlier.len() implies (
            #[trigger] earlier[i]).id < (#[trigger] earlier[j]).id by {
                assert(earlier[i] == boxes[i]);
                assert(earlier[j] == boxes[j]);
            }
        }
        lemma_deliver_keeps_order(earlier, notice, last.id);
        let sent = deliver(boxes, notice);
        let before = deliver(earlier, notice);
        assert forall|k: int|
            0 <= k < boxes.len() && (#[trigger] boxes[k]).connected implies exists|at: int|
            0 <= at < sent.len() && #[trigger] sent[at] == boxes[k].received(notice) by {
            if k < earlier.len() {
                assert(earlier[k] == boxes[k]);
                let at = choose|at: int|
                    0 <= at < before.len() && #[trigger] before[at] == earlier[k].received(notice);
                assert(sent[at] == before[at]);
            } else {
                assert(sent[sent.len() - 1] == last.received(notice));
            }
        }
    }
}

/// Every step keeps a notifier well formed.
pub proof fn law_notifier_stays_well_formed(
    hub: HubView,
    notice: Notice,
    id: nat,
    reloaded: bool,
    cycle: nat,
)
    requires
        hub.well_formed(),
    ensures
        HubView::empty().well_formed(),
        hub.subscribed().well_formed(),
        hub.notified(notice).well_formed(),
        hub.announced().well_formed(),
        hub.released(cycle).well_formed(),
        hub.duplicated(cycle).well_formed(),
        hub.after_wait(id, reloaded).well_formed(),
        hub.after_recv(id).well_formed(),
        hub.disconnected(id).well_formed(),
{
    assert(numbered_below(hub.boxes, hub.next_id));
    lemma_deliver_keeps_order(hub.boxes, notice, hub.next_id);
    lemma_deliver_keeps_order(
        hub.boxes,
        Notice::AboutToReload { cycle: hub.cycle + 1 },
        hub.next_id,
    );
    // A wait and a disconnection change one subscriber and leave its number.
    law_slot_of_is_first(hub.boxes, id);
    let waited = hub.after_wait(id, reloaded).boxes;
    assert(waited.len() == hub.boxes.len());
    assert forall|i: int| 0 <= i < waited.len() implies (#[trigger] waited[i]).id
        == hub.boxes[i].id by {}
    let popped = hub.after_recv(id).boxes;
    assert(popped.len() == hub.boxes.len());
    assert forall|i: int| 0 <= i < popped.len() implies (#[trigger] popped[i]).id
        == hub.boxes[i].id by {}
    let left = hub.disconnected(id).boxes;
    assert(left.len() == hub.boxes.len());
    assert forall|i: int| 0 <= i < left.len() implies (#[trigger] left[i]).id
        == hub.boxes[i].id by {}
}

/// The subscriber numbered `id` is found again after an event went out.
proof fn lemma_queued_once(boxes: Seq<MailboxView>, bound: nat, notice: Notice, id: nat)
    requires
        numbered_below(boxes, bound),
        slot_of(boxes, id) < boxes.len(),
        boxes[slot_of(boxes, id)].connected,
    ensures
        slot_of(deliver(boxes, notice), id) < deliver(boxes, notice).len(),
        deliver(boxes, notice)[slot_of(deliver(boxes, notice), id)] == boxes[slot_of(
            boxes,
            id,
        )].received(notice),
{
    let slot = slot_of(boxes, id);
    law_slot_of_is_first(boxes, id);
    lemma_deliver_keeps_order(boxes, notice, bound);
    let sent = deliver(boxes, notice);
    let at = choose|at: int|
        0 <= at < sent.len() && #[trigger] sent[at] == boxes[slot].received(notice);
    assert(sent[at].id == id);
    assert forall|j: int| 0 <= j < at implies sent[j].id != id by {
        assert(sent[j].id < sent[at].id);
    }
    lemma_slot_of(sent, id, at);
}

/// An event that goes out is queued once for each subscriber that listens,
/// behind what its queue held.
pub proof fn law_event_is_queued_for_each_subscriber(hub: HubView, notice: Notice, id: nat)
    requires
        hub.well_formed(),
        hub.listens(id),
    ensures
        hub.notified(notice).listens(id),
        hub.notified(notice).queue_of(id) == hub.queue_of(id).push(notice),
        hub.announced().queue_of(id) == hub.queue_of(id).push(
            Notice::AboutToReload { cycle: hub.cycle + 1 },
        ),
{
    assert(numbered_below(hub.boxes, hub.next_id));
    lemma_queued_once(hub.boxes, hub.next_id, notice, id);
    lemma_queued_once(
        hub.boxes,
        hub.next_id,
        Notice::AboutToReload { cycle: hub.cycle + 1 },
        id,
    );
}

/// The test whether a subscriber still listens.
pub open spec fn is_listening() -> spec_fn(MailboxView) -> bool {
    |mailbox: MailboxView| mailbox.connected
}

/// The step from a mailbox to the mailbox with `notice` received.
pub open spec fn receiving(notice: Notice) -> spec_fn(MailboxView) -> MailboxView {
    |mailbox: MailboxView| mailbox.received(notice)
}

/// The test whether an event carries a token of cycle `cycle`.
pub open spec fn is_token_of(cycle: nat) -> spec_fn(Notice) -> bool {
    |notice: Notice| notice == (Notice::AboutToReload { cycle })
}

/// Sending an event filters the subscribers for those that listen and adds
/// the event to the queue of each.
pub proof fn law_deliver_filters_and_queues(boxes: Seq<MailboxView>, notice: Notice)
    ensures
        deliver(boxes, notice) == boxes.filter(is_listening()).map_values(receiving(notice)),
    decreases boxes.len(),
{
    reveal(Seq::filter);
    if boxes.len() > 0 {
        let earlier = boxes.drop_last();
        law_deliver_filters_and_queues(earlier, notice);
        let kept = earlier.filter(is_listening());
        if boxes.last().connected {
            assert(boxes.filter(is_listening()) == kept.push(boxes.last()));
            assert(kept.push(boxes.last()).map_values(receiving(notice)) =~= kept.map_values(
                receiving(notice),
            ).push(boxes.last().received(notice)));
        } else {
            assert(boxes.filter(is_listening()) == kept);
        }
    } else {
        assert(boxes.filter(is_listening()).map_values(receiving(notice)) =~= Seq::<
            MailboxView,
        >::empty());
    }
}

/// `held` counts the events that carry a token of the cycle.
pub proof fn law_held_counts_tokens(queue: Seq<Notice>, cycle: nat)
    ensures
        held(queue, cycle) == queue.filter(is_token_of(cycle)).len(),
    decreases queue.len(),
{
    reveal(Seq::filter);
    if queue.len() > 0 {
        law_held_counts_tokens(queue.drop_last(), cycle);
    }
}

} // verus!
