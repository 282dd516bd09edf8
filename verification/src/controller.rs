//! The dispatch controller: routes decrypted events to slate processing
//! or swap-message processing, republishing follow-up slates to the peer
//! that sent them, and records every connection notification it is handed.

use vstd::prelude::*;

use crate::address::{AddressModel, GrinboxAddress};
use crate::container::{Container, Listener};
use crate::crypto::{Keychain, TxProof, TxProofModel};
use crate::error::{CloseReason, ErrorKind};
use crate::foreign::Foreign;
use crate::foreign::Owner;
use crate::swaptypes::{Message, MessageModel, SwapApi};
use crate::types::{
    NodeClient, Slate, SlateModel, VersionedSlate, VersionedSlateModel, WalletBackend,
};

verus! {

/// A notification or delivery the subscription surface was handed.
#[verifier::ext_equal]
pub enum HandlerEvent {
    Opened,
    Reestablished,
    Dropped,
    Closed { reason: CloseReason },
    Slate { from: AddressModel, slate: VersionedSlateModel, proof: Option<TxProofModel> },
    SwapMessage { from: AddressModel, message: MessageModel },
}

/// The delivery evidence a slate event carries, in mathematical form.
pub open spec fn spec_proof_view(p: Option<TxProof>) -> Option<TxProofModel> {
    match p {
        Some(t) => Some(t@),
        None => None,
    }
}

/// What a relay subscription feeds: connection notifications and decrypted
/// deliveries. The model sequence records every event in order.
pub trait SubscriptionHandler: Sized {
    /// Every event handed to this handler, in order.
    spec fn events(&self) -> Seq<HandlerEvent>;

    /// The connection opened for the first time.
    fn on_open(&mut self)
        ensures
            final(self).events() == old(self).events().push(HandlerEvent::Opened),
    ;

    /// The connection came back after a drop.
    fn on_reestablished(&mut self)
        ensures
            final(self).events() == old(self).events().push(HandlerEvent::Reestablished),
    ;

    /// The connection was lost; reconnecting continues in the background.
    fn on_dropped(&mut self)
        ensures
            final(self).events() == old(self).events().push(HandlerEvent::Dropped),
    ;

    /// The subscription ended.
    fn on_close(&mut self, reason: CloseReason)
        ensures
            final(self).events() == old(self).events().push(
                HandlerEvent::Closed { reason },
            ),
    ;

    /// A slate arrived from a peer.
    fn on_slate(&mut self, from: &GrinboxAddress, slate: &VersionedSlate, tx_proof: Option<TxProof>)
        ensures
            final(self).events() == old(self).events().push(
                HandlerEvent::Slate { from: from@, slate: slate@, proof: spec_proof_view(tx_proof) },
            ),
    ;

    /// A swap message arrived from a peer.
    fn on_swap_message(&mut self, from: &GrinboxAddress, message: Message)
        ensures
            final(self).events() == old(self).events().push(
                HandlerEvent::SwapMessage { from: from@, message: message@ },
            ),
    ;
}

/// One outbound delivery through a publisher.
#[verifier::ext_equal]
pub enum PostEvent {
    Slate { slate: VersionedSlateModel, to: AddressModel },
    SwapMessage { message: MessageModel, to: AddressModel },
}

/// An outbound channel to the relay. The model sequence records every
/// successful post in order.
pub trait Publisher: Sized {
    /// Every payload posted so far, in order.
    spec fn posts(&self) -> Seq<PostEvent>;

    /// Posts a slate to a peer.
    fn post_slate(&mut self, slate: &VersionedSlate, to: &GrinboxAddress) -> (r: Result<
        (),
        ErrorKind,
    >)
        ensures
            r is Ok ==> final(self).posts() == old(self).posts().push(
                PostEvent::Slate { slate: slate@, to: to@ },
            ),
            r is Err ==> final(self).posts() == old(self).posts(),
    ;

    /// Posts a swap message to a peer.
    fn post_swap_message(&mut self, message: &Message, to: &GrinboxAddress) -> (r: Result<
        (),
        ErrorKind,
    >)
        ensures
            r is Ok ==> final(self).posts() == old(self).posts().push(
                PostEvent::SwapMessage { message: message@, to: to@ },
            ),
            r is Err ==> final(self).posts() == old(self).posts(),
    ;
}

/// A running relay subscription, as seen by its owner.
pub trait Subscriber: Sized {
    /// Ends the subscription.
    fn stop(&mut self);

    /// Whether a socket handle is stored right now.
    fn is_running(&self) -> (r: bool);
}

/// Routes decrypted relay events into the wallet: inbound slates through
/// the foreign and owner surfaces, swap messages through the engine, and
/// follow-up slates back out through the publisher.
pub struct Controller<W, C, K, A, L, P> where
    W: WalletBackend<C, K>,
    C: NodeClient,
    K: Keychain + Clone,
    A: SwapApi<K>,
    L: Listener,
    P: Publisher,
 {
    pub name: Vec<u8>,
    pub owner: Owner,
    pub foreign: Foreign,
    pub container: Container<W, C, K, A, L>,
    pub publisher: P,
    pub events_log: Ghost<Seq<HandlerEvent>>,
}

impl<W, C, K, A, L, P> Controller<W, C, K, A, L, P> where
    W: WalletBackend<C, K>,
    C: NodeClient,
    K: Keychain + Clone,
    A: SwapApi<K>,
    L: Listener,
    P: Publisher,
 {
    /// A controller around a session and a publisher, with nothing
    /// recorded yet.
    pub fn new(name: Vec<u8>, container: Container<W, C, K, A, L>, publisher: P) -> (r:
        Controller<W, C, K, A, L, P>)
        ensures
            r.events_log@ == Seq::<HandlerEvent>::empty(),
            r.container == container,
            r.publisher == publisher,
            r.name == name,
    {
        Controller {
            name,
            owner: Owner::new(),
            foreign: Foreign::new(),
            container,
            publisher,
            events_log: Ghost(Seq::empty()),
        }
    }

    /// Decides what an inbound slate needs. A slate still missing
    /// signatures and spending at least one input is received against the
    /// ledger, and the updated slate replaces it; a zero-input slate is
    /// the invoicing path, an open protocol question, and nothing happens;
    /// a fully signed slate is finalized with its delivery evidence. The
    /// result says whether the slate was finalized.
    fn process_incoming_slate(
        &mut self,
        address: Option<Vec<u8>>,
        slate: &mut Slate,
        tx_proof: Option<&TxProof>,
    ) -> (r: Result<bool, ErrorKind>)
        ensures
            final(self).publisher == old(self).publisher,
            final(self).events_log == old(self).events_log,
            final(self).container.swap_apis == old(self).container.swap_apis,
            final(self).container.listeners == old(self).container.listeners,
            (old(slate)@.num_participants > old(slate)@.participant_ids.len() && old(slate)@.input_count == 0) ==> r == Ok::<bool, ErrorKind>(false) && *final(slate) == *old(slate) && final(self).container.backend.finalized() == old(self).container.backend.finalized() && final(self).container.backend.received() == old(self).container.backend.received(),
            (old(slate)@.num_participants > old(slate)@.participant_ids.len() && old(slate)@.input_count > 0) ==> final(self).container.backend.finalized() == old(self).container.backend.finalized() && (match r {
                Ok(b) => !b && final(self).container.backend.received() == old(self).container.backend.received().push(old(slate)@) && final(slate)@.id == old(slate)@.id && final(slate)@.num_participants
                    == old(slate)@.num_participants && final(slate)@.participant_ids.len() == old(slate)@.participant_ids.len() + 1 && final(slate)@.amount == old(slate)@.amount && final(slate)@.input_count == old(slate)@.input_count,
                Err(_) => *final(slate) == *old(slate) && final(self).container.backend.received() == old(self).container.backend.received(),
            }),
            old(slate)@.num_participants <= old(slate)@.participant_ids.len() ==> *final(slate)
                == *old(slate) && final(self).container.backend.received() == old(self).container.backend.received() && (match r {
                Ok(b) => b && final(self).container.backend.finalized() == old(self).container.backend.finalized().push(old(slate)@),
                Err(_) => final(self).container.backend.finalized() == old(self).container.backend.finalized(),
            }),
    {
        let np = slate.num_participants;
        let signed = slate.participant_data.len() as u64;
        if np > signed {
            if slate.input_count == 0 {
                // The invoicing path is an open protocol question: no
                // action is taken on a zero-input slate.
                return Ok(false);
            }
            let received = match self.foreign.receive_tx(
                &mut self.container,
                slate,
                None,
                address,
                None,
            ) {
                Ok(s) => s,
                Err(e) => {
                    return Err(e);
                },
            };
            *slate = received;
            Ok(false)
        } else {
            match self.owner.finalize_tx(&mut self.container, slate, tx_proof) {
                Ok(_) => Ok(true),
                Err(e) => {
                    return Err(e);
                },
            }
        }
    }

    /// Handles a delivered slate: processes it, and when it is not yet
    /// finalized, republishes the updated slate to the peer it came from,
    /// in the format version it arrived in. Processing errors are absorbed.
    pub fn handle_slate(
        &mut self,
        from: &GrinboxAddress,
        slate: &VersionedSlate,
        tx_proof: Option<TxProof>,
    ) -> (r: ())
        ensures
            final(self).events_log@ == old(self).events_log@.push(
                HandlerEvent::Slate { from: from@, slate: slate@, proof: spec_proof_view(tx_proof) },
            ),
            final(self).container.swap_apis == old(self).container.swap_apis,
            final(self).container.listeners == old(self).container.listeners,
            // A slate that still needs signatures is never finalized.
            slate@.slate.num_participants > slate@.slate.participant_ids.len() ==> final(self).container.backend.finalized() == old(self).container.backend.finalized(),
            slate@.slate.num_participants <= slate@.slate.participant_ids.len() ==> final(self).publisher.posts() == old(self).publisher.posts() && final(self).container.backend.received() == old(self).container.backend.received() && (final(self).container.backend.finalized() == old(self).container.backend.finalized().push(
                slate@.slate,
            ) || final(self).container.backend.finalized() == old(self).container.backend.finalized()),
            // The zero-input invoicing path takes no action at all: no
            // receive, no finalize, no publish.
            (slate@.slate.num_participants > slate@.slate.participant_ids.len()
                && slate@.slate.input_count == 0) ==> final(self).publisher.posts() == old(self).publisher.posts() && final(self).container.backend.received() == old(self).container.backend.received(),
            // A part-signed spending slate is received against the ledger
            // exactly once when the ledger accepts it.
            (slate@.slate.num_participants > slate@.slate.participant_ids.len()
                && slate@.slate.input_count > 0) ==> (final(self).container.backend.received()
                == old(self).container.backend.received().push(slate@.slate) || final(self).container.backend.received() == old(self).container.backend.received()),
            (slate@.slate.num_participants > slate@.slate.participant_ids.len()
                && slate@.slate.input_count > 0) ==> (final(self).publisher.posts() == old(self).publisher.posts() || exists|s2: SlateModel|
                {
                    &&& final(self).publisher.posts() == old(self).publisher.posts().push(
                        PostEvent::Slate {
                            slate: VersionedSlateModel { version: slate@.version, slate: s2 },
                            to: from@,
                        },
                    )
                    &&& s2.id == slate@.slate.id
                    &&& s2.num_participants == slate@.slate.num_participants
                    &&& s2.participant_ids.len() == slate@.slate.participant_ids.len() + 1
                    &&& s2.amount == slate@.slate.amount
                }),
    {
        let version = slate.version();
        let mut s = slate.slate.duplicate();
        let from_text = from.stringify();
        let proof_ref = match &tx_proof {
            Some(p) => Some(p),
            None => None,
        };
        let res = self.process_incoming_slate(Some(from_text), &mut s, proof_ref);
        match res {
            Ok(false) => {
                // The zero-input invoicing path takes no action at all.
                if slate.slate.input_count > 0 {
                    let vs = VersionedSlate::into_version(s, version);
                    let _ = self.publisher.post_slate(&vs, from);
                }
            },
            _ => {},
        }
        proof {
            self.events_log@ = self.events_log@.push(
                HandlerEvent::Slate { from: from@, slate: slate@, proof: spec_proof_view(tx_proof) },
            );
        }
    }

    /// Handles a delivered swap message: forwards it into the engine;
    /// errors are absorbed. The keychain is never left installed.
    pub fn handle_swap_message(&mut self, from: &GrinboxAddress, message: Message) -> (r: ())
        requires
            old(self).container.swap_apis.wf(),
        ensures
            final(self).events_log@ == old(self).events_log@.push(
                HandlerEvent::SwapMessage { from: from@, message: message@ },
            ),
            final(self).container.swap_apis.wf(),
            !old(self).container.swap_apis.spec_keychain_set() ==> !final(self).container.swap_apis.spec_keychain_set(),
            final(self).publisher == old(self).publisher,
    {
        let ghost mm = message@;
        let from_text = from.stringify();
        let _ = self.foreign.receive_swap_message(
            &mut self.container,
            Some(from_text),
            message,
        );
        proof {
            self.events_log@ = self.events_log@.push(
                HandlerEvent::SwapMessage { from: from@, message: mm },
            );
        }
    }

    /// Records that the connection opened.
    pub fn handle_open(&mut self)
        ensures
            final(self).events_log@ == old(self).events_log@.push(HandlerEvent::Opened),
            final(self).publisher == old(self).publisher,
            final(self).container == old(self).container,
    {
        proof {
            self.events_log@ = self.events_log@.push(HandlerEvent::Opened);
        }
    }

    /// Records that the connection came back.
    pub fn handle_reestablished(&mut self)
        ensures
            final(self).events_log@ == old(self).events_log@.push(HandlerEvent::Reestablished),
            final(self).publisher == old(self).publisher,
            final(self).container == old(self).container,
    {
        proof {
            self.events_log@ = self.events_log@.push(HandlerEvent::Reestablished);
        }
    }

    /// Records that the connection was lost.
    pub fn handle_dropped(&mut self)
        ensures
            final(self).events_log@ == old(self).events_log@.push(HandlerEvent::Dropped),
            final(self).publisher == old(self).publisher,
            final(self).container == old(self).container,
    {
        proof {
            self.events_log@ = self.events_log@.push(HandlerEvent::Dropped);
        }
    }

    /// Records that the subscription ended, and how.
    pub fn handle_close(&mut self, reason: CloseReason)
        ensures
            final(self).events_log@ == old(self).events_log@.push(
                HandlerEvent::Closed { reason },
            ),
            final(self).publisher == old(self).publisher,
            final(self).container == old(self).container,
    {
        proof {
            self.events_log@ = self.events_log@.push(HandlerEvent::Closed { reason });
        }
    }

}

} // verus!
