//! Typed messages between agents and the bounded bus that carries them.
//!
//! The bus is a first-in-first-out queue with a fixed capacity. Sending
//! reports whether the message was queued: a full queue refuses the message
//! and leaves it to the caller whether to retry, so a sender that insists
//! experiences backpressure rather than silent loss.

use vstd::prelude::*;
use crate::node::Node;

verus! {

/// The kinds of message agents exchange.
#[derive(Clone, Copy, Debug, PartialEq, Eq, Structural)]
pub enum MessageType {
    /// A plea for energy.
    HelpRequest,
    /// A grant of energy.
    EnergyTransfer,
    /// A freshly produced record.
    BlockAnnouncement,
    /// A request to validate a record.
    ValidateBlock,
}

/// The mathematical content of one message.
#[verifier::ext_equal]
pub ghost struct MessageView {
    pub from: Seq<char>,
    pub to: Option<Seq<char>>,
    pub msg_type: MessageType,
    pub value: nat,
    pub content: Option<Seq<char>>,
}

/// One message in flight: sender, optional addressee (`None` means anyone),
/// kind, a milli-unit value, and optional text.
#[derive(Debug)]
pub struct Message {
    pub from: String,
    pub to: Option<String>,
    pub msg_type: MessageType,
    pub value: u64,
    pub content: Option<String>,
}

impl View for Message {
    type V = MessageView;

    open spec fn view(&self) -> MessageView {
        MessageView {
            from: self.from@,
            to: match self.to {
                Some(t) => Some(t@),
                None => None,
            },
            msg_type: self.msg_type,
            value: self.value as nat,
            content: match self.content {
                Some(c) => Some(c@),
                None => None,
            },
        }
    }
}

impl Clone for Message {
    /// A copy with the same content.
    fn clone(&self) -> (r: Self)
        ensures
            r@ == self@,
    {
        let to = match &self.to {
            Some(t) => Some(t.clone()),
            None => None,
        };
        let content = match &self.content {
            Some(c) => Some(c.clone()),
            None => None,
        };
        Message {
            from: self.from.clone(),
            to,
            msg_type: self.msg_type,
            value: self.value,
            content,
        }
    }
}

impl Message {
    /// A message with the given fields, owned copies of the borrowed text.
    pub fn new(
        from: &str,
        to: Option<&str>,
        msg_type: MessageType,
        value: u64,
        content: Option<&str>,
    ) -> (m: Message)
        ensures
            m@.from == from@,
            m@.to == match to {
                Some(t) => Some(t@),
                None => None::<Seq<char>>,
            },
            m@.msg_type == msg_type,
            m@.value == value as nat,
            m@.content == match content {
                Some(c) => Some(c@),
                None => None::<Seq<char>>,
            },
    {
        let to = match to {
            Some(t) => Some(t.to_owned()),
            None => None,
        };
        let content = match content {
            Some(c) => Some(c.to_owned()),
            None => None,
        };
        Message { from: from.to_owned(), to, msg_type, value, content }
    }
}

/// A bounded first-in-first-out channel of messages.
#[derive(Debug)]
pub struct NetworkBus {
    pub queue: Vec<Message>,
    pub capacity: usize,
}

impl NetworkBus {
    /// Queued messages never exceed the capacity.
    pub open spec fn wf(self) -> bool {
        self.queue@.len() <= self.capacity
    }

    /// An empty bus holding at most `buffer` messages.
    pub fn new(buffer: usize) -> (b: NetworkBus)
        ensures
            b.queue@ =~= Seq::<Message>::empty(),
            b.capacity == buffer,
            b.wf(),
    {
        NetworkBus { queue: Vec::new(), capacity: buffer }
    }

    /// Queue `msg` if there is room; report whether it was queued.
    pub fn send(&mut self, msg: Message) -> (ok: bool)
        ensures
            ok == (old(self).queue@.len() < old(self).capacity),
            ok ==> final(self).queue@ == old(self).queue@.push(msg),
            !ok ==> final(self).queue@ == old(self).queue@,
            final(self).capacity == old(self).capacity,
            old(self).wf() ==> final(self).wf(),
    {
        if self.queue.len() < self.capacity {
            self.queue.push(msg);
            true
        } else {
            false
        }
    }

    /// Take the oldest queued message, if any.
    pub fn receive(&mut self) -> (m: Option<Message>)
        ensures
            final(self).capacity == old(self).capacity,
            old(self).queue@.len() == 0 ==> m is None && final(self).queue@ == old(self).queue@,
            old(self).queue@.len() > 0 ==> m == Some(old(self).queue@[0]) && final(self).queue@
                == old(self).queue@.drop_first(),
            old(self).wf() ==> final(self).wf(),
    {
        if self.queue.len() == 0 {
            None
        } else {
            Some(self.queue.remove(0))
        }
    }
}

/// React to one delivered message: a help request is answered with an
/// energy transfer when the agent is strong and altruistic enough, an
/// energy transfer is absorbed into the cell, and announcements and
/// validation requests change nothing.
pub fn handle_message(node: &mut Node, msg: Message, bus: &mut NetworkBus)
    ensures
        final(bus).capacity == old(bus).capacity,
        msg.msg_type matches MessageType::HelpRequest ==> ({
            &&& *final(node) == *old(node)
            &&& (old(node).energy.level > 30_000 && old(node).altruism > 500 ==> ({
                ||| (old(bus).queue@.len() >= old(bus).capacity && final(bus).queue@ == old(bus).queue@)
                ||| (old(bus).queue@.len() < old(bus).capacity && final(bus).queue@.len() == old(bus).queue@.len() + 1 && final(bus).queue@.drop_last() == old(bus).queue@ && ({
                    let m = final(bus).queue@.last()@;
                    &&& m.from == old(node).name@
                    &&& m.to == msg@.to
                    &&& m.msg_type == MessageType::EnergyTransfer
                    &&& m.value == 5_000
                }))
            }))
            &&& (!(old(node).energy.level > 30_000 && old(node).altruism > 500) ==> final(bus).queue@ == old(bus).queue@)
        }),
        msg.msg_type matches MessageType::EnergyTransfer ==> ({
            &&& final(bus).queue@ == old(bus).queue@
            &&& *final(node) == (Node {
                energy: crate::energy::Energy {
                    level: final(node).energy.level,
                    node_name: old(node).energy.node_name,
                },
                ..*old(node)
            })
            &&& final(node).energy.level == crate::fixmath::min_int(
                crate::energy::ENERGY_CAP as int,
                old(node).energy.level + msg.value,
            )
        }),
        (msg.msg_type matches MessageType::BlockAnnouncement) || (msg.msg_type
            matches MessageType::ValidateBlock) ==> *final(node) == *old(node) && final(bus).queue@
            == old(bus).queue@,
{
    match msg.msg_type {
        MessageType::HelpRequest => {
            let current_energy = node.energy.level;
            if current_energy > 30_000 && node.altruism > 500 {
                let to = match &msg.to {
                    Some(t) => Some(t.as_str()),
                    None => None,
                };
                let response = Message::new(
                    node.name.as_str(),
                    to,
                    MessageType::EnergyTransfer,
                    5_000,
                    Some("helping a neighbour"),
                );
                let _queued = bus.send(response);
            }
        },
        MessageType::EnergyTransfer => {
            node.energy.restore(msg.value);
        },
        MessageType::BlockAnnouncement => {},
        MessageType::ValidateBlock => {},
    }
}

} // verus!
