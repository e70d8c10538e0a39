//! The live-update hub: the registry of connected subscribers and the
//! fan-out of notifications to them.

use vstd::prelude::*;
use vstd::std_specs::hash::spec_keys_iter;
use vstd::std_specs::iter::IteratorSpec;
use vstd::string::*;
use std::collections::HashMap;
use tokio::sync::mpsc::error::SendError;
use tokio::sync::mpsc::{UnboundedReceiver, UnboundedSender};
use crate::notify::{format_notification, lines_view, notification_text, Heading};
use crate::text::{append_decimal, decimal};

verus! {

/// The sending half of a tokio unbounded channel. It is carried through as
/// it is: nothing of its state is known here.
#[verifier::external_type_specification]
#[verifier::external_body]
#[verifier::reject_recursive_types(T)]
pub struct ExUnboundedSender<T>(UnboundedSender<T>);

/// The receiving half of a tokio unbounded channel.
#[verifier::external_type_specification]
#[verifier::external_body]
#[verifier::reject_recursive_types(T)]
pub struct ExUnboundedReceiver<T>(UnboundedReceiver<T>);

/// The error of a send on a closed channel; it holds the message that was not sent.
#[verifier::external_type_specification]
#[verifier::external_body]
#[verifier::reject_recursive_types(T)]
pub struct ExSendError<T>(SendError<T>);

/// `tokio::sync::mpsc::unbounded_channel` makes a new channel and returns its
/// two halves. Nothing is claimed of them.
pub assume_specification<T>[ tokio::sync::mpsc::unbounded_channel::<T> ]() -> (halves: (
    UnboundedSender<T>,
    UnboundedReceiver<T>,
));

/// `UnboundedSender::send` queues `message` without waiting, or fails if the
/// receiving half is closed or gone. Which of the two happens depends on the
/// receiver, so nothing is claimed of the result. (It ends the process when
/// half of `usize::MAX` messages wait in one channel, which no memory holds.)
pub assume_specification<T>[ UnboundedSender::<T>::send ](
    sender: &UnboundedSender<T>,
    message: T,
) -> (sent: Result<(), SendError<T>>);

/// What travels to a subscriber.
#[derive(Clone, Debug, PartialEq, Eq)]
pub enum Message {
    /// The identity that the hub gave the subscriber; sent once, first.
    UserId(usize),
    /// The text of one notification.
    Reply(String),
}

/// A message as plain values.
pub enum MessageView {
    UserId(usize),
    Reply(Seq<char>),
}

impl View for Message {
    type V = MessageView;

    open spec fn view(&self) -> MessageView {
        match self {
            Message::UserId(id) => MessageView::UserId(*id),
            Message::Reply(text) => MessageView::Reply(text@),
        }
    }
}

/// A message as the stream of events to a viewer carries it.
#[derive(Clone, Debug, PartialEq, Eq)]
pub struct WireEvent {
    /// The name of the event, if it has one.
    pub name: Option<String>,
    /// The data of the event.
    pub data: String,
}

/// Writes a message as an event: the subscriber's identity as an event named
/// `user` whose data is the number in decimal, the text of a notification as
/// an event without name whose data is the text.
pub fn wire_event(message: Message) -> (event: WireEvent)
    ensures
        message@ matches MessageView::UserId(id) ==> event.name is Some && event.name->0@
            == "user"@ && event.data@ == decimal(id as nat),
        message@ matches MessageView::Reply(text) ==> event.name is None && event.data@ == text,
{
    match message {
        Message::UserId(id) => {
            let mut data = String::new();
            append_decimal(&mut data, id);
            assert(data@ =~= decimal(id as nat));
            WireEvent { name: Some(String::from_str("user")), data }
        },
        Message::Reply(text) => WireEvent { name: None, data: text },
    }
}

/// What a new subscriber gets back from the hub.
pub struct Connection {
    /// The identity of the subscriber.
    pub id: usize,
    /// Where the subscriber's messages arrive.
    pub receiver: UnboundedReceiver<Message>,
    /// Whether the message that tells the subscriber its identity was queued.
    pub greeted: bool,
}

/// The outcome of one broadcast for one subscriber.
#[derive(Clone, Copy, Debug, PartialEq, Eq)]
pub struct Delivery {
    /// The identity of the subscriber.
    pub id: usize,
    /// Whether the notification was queued for it.
    pub delivered: bool,
}

/// The registry of subscribers: for each registered identity, the sending
/// half of the subscriber's channel.
pub struct Hub {
    next_id: usize,
    users: HashMap<usize, UnboundedSender<Message>>,
    handed: Ghost<Seq<(usize, MessageView)>>,
}

/// The identities of the subscribers that `report` names, in its order.
pub open spec fn report_ids(report: Seq<Delivery>) -> Seq<usize> {
    report.map_values(|d: Delivery| d.id)
}

/// The identities for which `report` says that nothing could be queued.
pub open spec fn unreached_ids(report: Seq<Delivery>) -> Set<usize> {
    Set::new(
        |id: usize|
            exists|i: int|
                0 <= i < report.len() && (#[trigger] report[i]).id == id && !report[i].delivered,
    )
}

/// One notification with the text `text` for each subscriber that `report`
/// names, in its order.
pub open spec fn notifications(report: Seq<Delivery>, text: Seq<char>) -> Seq<
    (usize, MessageView),
> {
    report.map_values(|d: Delivery| (d.id, MessageView::Reply(text)))
}

/// Every entry of `handed` names an identity below `bound`.
pub open spec fn handed_below(handed: Seq<(usize, MessageView)>, bound: int) -> bool {
    forall|i: int| 0 <= i < handed.len() ==> (#[trigger] handed[i]).0 < bound
}

/// One more entry of a report adds its identity to the unreached_ids ones if
/// nothing could be queued for it, and else changes nothing.
proof fn lemma_unreached_push(report: Seq<Delivery>, last: Delivery)
    ensures
        unreached_ids(report.push(last)) == if last.delivered {
            unreached_ids(report)
        } else {
            unreached_ids(report).insert(last.id)
        },
{
    let longer = report.push(last);
    let expected = if last.delivered {
        unreached_ids(report)
    } else {
        unreached_ids(report).insert(last.id)
    };
    assert forall|id: usize| unreached_ids(longer).contains(id) <==> expected.contains(id) by {
        if unreached_ids(longer).contains(id) {
            let i = choose|i: int|
                0 <= i < longer.len() && (#[trigger] longer[i]).id == id && !longer[i].delivered;
            if i < report.len() {
                assert(report[i] == longer[i]);
            }
        }
        if expected.contains(id) {
            if unreached_ids(report).contains(id) {
                let i = choose|i: int|
                    0 <= i < report.len() && (#[trigger] report[i]).id == id
                        && !report[i].delivered;
                assert(longer[i] == report[i]);
            } else {
                assert(longer[report.len() as int] == last);
            }
        }
    }
    assert(unreached_ids(longer) =~= expected);
}

impl Hub {
    /// The channel of every registered subscriber, by the subscriber's
    /// identity.
    pub closed spec fn channels(&self) -> Map<usize, UnboundedSender<Message>> {
        self.users@
    }

    /// The identities of the registered subscribers.
    pub open spec fn ids(&self) -> Set<usize> {
        self.channels().dom()
    }

    /// The identity that the next subscriber will get.
    pub closed spec fn next_id(&self) -> usize {
        self.next_id
    }

    /// Every message that the hub has handed to a subscriber's channel since
    /// it was made, with the subscriber's identity, oldest first. Whether the
    /// channel took a message is not recorded here.
    pub closed spec fn handed(&self) -> Seq<(usize, MessageView)> {
        self.handed@
    }

    /// The invariant of the registry: no identity that is registered, and
    /// none that a message was handed to, is as large as the next one to be
    /// given out.
    pub closed spec fn well_formed(&self) -> bool {
        &&& forall|id: usize| self.users@.contains_key(id) ==> id < self.next_id
        &&& handed_below(self.handed@, self.next_id as int)
    }

    /// What the invariant says: the registered identities are finitely many,
    /// and they and the identities that a message was handed to are all
    /// smaller than the next one to be given out.
    pub proof fn lemma_ids_are_spent(&self)
        requires
            self.well_formed(),
        ensures
            self.ids().finite(),
            forall|id: usize| self.ids().contains(id) ==> id < self.next_id(),
            handed_below(self.handed(), self.next_id() as int),
    {
        broadcast use vstd::std_specs::hash::group_hash_axioms;

    }

    /// A hub without subscribers, whose first subscriber will be number `first_id`.
    pub fn new(first_id: usize) -> (hub: Hub)
        ensures
            hub.well_formed(),
            hub.channels() == Map::<usize, UnboundedSender<Message>>::empty(),
            hub.next_id() == first_id,
            hub.handed() == Seq::<(usize, MessageView)>::empty(),
    {
        Hub { next_id: first_id, users: HashMap::new(), handed: Ghost(Seq::empty()) }
    }

    /// The number of registered subscribers.
    pub fn subscriber_count(&self) -> (count: usize)
        ensures
            count == self.ids().len(),
    {
        broadcast use vstd::std_specs::hash::group_hash_axioms;

        self.users.len()
    }

    /// The identity that the next subscriber will get.
    pub fn next_subscriber_id(&self) -> (id: usize)
        ensures
            id == self.next_id(),
    {
        self.next_id
    }

    /// Tells whether the subscriber with the identity `id` is registered.
    pub fn is_registered(&self, id: usize) -> (registered: bool)
        ensures
            registered == self.ids().contains(id),
    {
        broadcast use vstd::std_specs::hash::group_hash_axioms;

        self.users.contains_key(&id)
    }

    /// The identities of the registered subscribers, each once, in no
    /// particular order.
    pub fn subscribers(&self) -> (ids: Vec<usize>)
        ensures
            ids@.no_duplicates(),
            ids@.to_set() == self.ids(),
    {
        broadcast use vstd::std_specs::hash::group_hash_axioms;

        let mut ids: Vec<usize> = Vec::new();
        for id in walk: self.users.keys()
            invariant
                walk.seq() == spec_keys_iter(&self.users).remaining(),
                ids@ == walk.seq().take(walk.index()).unref(),
        {
            ids.push(*id);
            assert(ids@ =~= walk.seq().take(walk.index() + 1).unref());
        }
        assert(ids@ =~= spec_keys_iter(&self.users).remaining().unref());
        ids
    }

    /// Registers a new subscriber.
    ///
    /// The subscriber gets the next identity, which nothing was handed to
    /// before, and a fresh channel to which the hub hands, as its first
    /// message, that identity. Every other subscriber keeps its channel.
    /// `None` is returned, and nothing changes, when the identities are used
    /// up.
    pub fn connect(&mut self) -> (connection: Option<Connection>)
        requires
            old(self).well_formed(),
        ensures
            final(self).well_formed(),
            old(self).next_id() == usize::MAX ==> connection is None && *final(self) == *old(self),
            old(self).next_id() < usize::MAX ==> connection is Some
                && connection->0.id == old(self).next_id()
                && final(self).next_id() == old(self).next_id() + 1
                && !old(self).channels().contains_key(old(self).next_id())
                && final(self).channels().contains_key(old(self).next_id())
                && final(self).channels().remove(old(self).next_id()) == old(self).channels()
                && handed_below(old(self).handed(), old(self).next_id() as int)
                && final(self).handed() == old(self).handed().push(
                (old(self).next_id(), MessageView::UserId(old(self).next_id())),
            ),
    {
        broadcast use vstd::std_specs::hash::group_hash_axioms;

        if self.next_id == usize::MAX {
            return None;
        }
        let id = self.next_id;
        let (sender, receiver) = tokio::sync::mpsc::unbounded_channel::<Message>();
        let greeted = match sender.send(Message::UserId(id)) {
            Ok(()) => true,
            Err(_) => false,
        };
        self.handed = Ghost(self.handed@.push((id, MessageView::UserId(id))));
        self.next_id = id + 1;
        self.users.insert(id, sender);
        assert(self.users@.remove(id) =~= old(self).users@);
        Some(Connection { id, receiver, greeted })
    }

    /// Removes the subscribers for which a send has failed: those that
    /// `report` names with a flag that is not set. Every other subscriber
    /// stays, with its channel.
    pub fn drop_unreached(&mut self, report: &Vec<Delivery>)
        requires
            old(self).well_formed(),
        ensures
            final(self).well_formed(),
            final(self).channels() == old(self).channels().remove_keys(unreached_ids(report@)),
            final(self).next_id() == old(self).next_id(),
            final(self).handed() == old(self).handed(),
    {
        broadcast use vstd::std_specs::hash::group_hash_axioms;

        let mut i: usize = 0;
        assert(report@.take(0) =~= Seq::<Delivery>::empty());
        assert(self.users@ =~= old(self).users@.remove_keys(unreached_ids(report@.take(0))));
        while i < report.len()
            invariant
                i <= report@.len(),
                self.next_id == old(self).next_id,
                self.handed == old(self).handed,
                self.users@ == old(self).users@.remove_keys(unreached_ids(report@.take(i as int))),
            decreases report@.len() - i,
        {
            let entry = report[i];
            if !entry.delivered {
                self.users.remove(&entry.id);
            }
            proof {
                lemma_unreached_push(report@.take(i as int), entry);
                assert(report@.take(i + 1) =~= report@.take(i as int).push(entry));
                assert(self.users@ =~= old(self).users@.remove_keys(
                    unreached_ids(report@.take(i + 1)),
                ));
            }
            i = i + 1;
        }
        assert(report@.take(report@.len() as int) =~= report@);
    }

    /// Sends `text` to every registered subscriber, and removes the
    /// subscribers that could not be reached.
    ///
    /// The hub hands one notification with `text` to the channel of every
    /// subscriber that was registered when the broadcast began. The report
    /// names each of them once, in the order in which they were served, and
    /// says whether its channel took the notification. Those whose channel
    /// did not are gone afterwards; the others keep their channels.
    pub fn broadcast(&mut self, text: &str) -> (report: Vec<Delivery>)
        requires
            old(self).well_formed(),
        ensures
            final(self).well_formed(),
            report_ids(report@).no_duplicates(),
            report_ids(report@).to_set() == old(self).ids(),
            final(self).channels() == old(self).channels().remove_keys(unreached_ids(report@)),
            final(self).next_id() == old(self).next_id(),
            final(self).handed() == old(self).handed() + notifications(report@, text@),
    {
        broadcast use vstd::std_specs::hash::group_hash_axioms;

        let mut report: Vec<Delivery> = Vec::new();
        for id in walk: self.users.keys()
            invariant
                walk.seq() == spec_keys_iter(&self.users).remaining(),
                report_ids(report@) == walk.seq().take(walk.index()).unref(),
        {
            let sent = match self.users.get(id) {
                Some(sender) => match sender.send(Message::Reply(text.to_owned())) {
                    Ok(()) => true,
                    Err(_) => false,
                },
                None => false,
            };
            let ghost before = report@;
            report.push(Delivery { id: *id, delivered: sent });
            proof {
                assert(report_ids(report@) =~= report_ids(before).push(*id));
                assert(walk.seq().take(walk.index() + 1).unref() =~= walk.seq().take(
                    walk.index(),
                ).unref().push(*id));
            }
        }
        proof {
            let served = spec_keys_iter(&self.users).remaining();
            assert(report_ids(report@) =~= served.unref());
            assert forall|i: int| 0 <= i < report@.len() implies (#[trigger] notifications(
                report@,
                text@,
            )[i]).0 < self.next_id by {
                assert(report_ids(report@)[i] == report@[i].id);
                assert(report_ids(report@).to_set().contains(report_ids(report@)[i]));
            }
        }
        self.handed = Ghost(self.handed@ + notifications(report@, text@));
        self.drop_unreached(&report);
        report
    }

    /// Tells every registered subscriber what user number `user` said in
    /// `message` and the lines `lines` that answer it: writes the
    /// notification, broadcasts it, and removes the subscribers that could
    /// not be reached.
    pub fn announce(
        &mut self,
        heading: Heading,
        user: usize,
        message: &str,
        lines: &Vec<String>,
    ) -> (report: Vec<Delivery>)
        requires
            old(self).well_formed(),
        ensures
            final(self).well_formed(),
            report_ids(report@).no_duplicates(),
            report_ids(report@).to_set() == old(self).ids(),
            final(self).channels() == old(self).channels().remove_keys(unreached_ids(report@)),
            final(self).next_id() == old(self).next_id(),
            final(self).handed() == old(self).handed() + notifications(
                report@,
                notification_text(heading, user as nat, message@, lines_view(lines@)),
            ),
    {
        let text = format_notification(heading, user, message, lines);
        self.broadcast(text.as_str())
    }
}

} // verus!
