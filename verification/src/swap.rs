//! The swap multiplexer: routes every swap operation to the per-currency
//! implementation registered for the swap's secondary currency, installing
//! the wallet's keychain into the target implementation only for the
//! call's duration and removing it again on every exit path.

use vstd::prelude::*;

use crate::crypto::Keychain;
use crate::error::ErrorKind;
use crate::swaptypes::{Action, Context, Currency, Message, Swap, SwapApi, Update};
use crate::types::KeyId;

verus! {

/// The tagged registry of per-currency swap implementations, and the
/// keychain that is lent to one of them for the duration of a call.
pub struct SwapApis<K: Keychain + Clone, A: SwapApi<K>> {
    apis: Vec<(Currency, A)>,
    keychain: Option<K>,
}

impl<K: Keychain + Clone, A: SwapApi<K>> SwapApis<K, A> {
    /// The currencies with a registered implementation, in registry order.
    pub closed spec fn spec_currencies(&self) -> Seq<Currency> {
        self.apis@.map_values(|p: (Currency, A)| p.0)
    }

    /// Whether an implementation is registered for `c`.
    pub closed spec fn spec_registered(&self, c: Currency) -> bool {
        exists|i: int| 0 <= i < self.apis@.len() && (#[trigger] self.apis@[i]).0 == c
    }

    /// Whether a keychain is set for lending.
    pub closed spec fn spec_keychain_set(&self) -> bool {
        self.keychain is Some
    }

    /// The scoped-borrow discipline: outside a call, no registered
    /// implementation holds key material.
    pub closed spec fn wf(&self) -> bool {
        forall|i: int|
            0 <= i < self.apis@.len() ==> !(#[trigger] self.apis@[i]).1.keychain_installed()
    }

    /// An empty registry with no keychain.
    pub fn new() -> (r: SwapApis<K, A>)
        ensures
            r.wf(),
            !r.spec_keychain_set(),
            r.spec_currencies() == Seq::<Currency>::empty(),
            forall|c: Currency| !r.spec_registered(c),
    {
        let r = SwapApis { apis: Vec::new(), keychain: None };
        proof {
            assert(r.spec_currencies() =~= Seq::<Currency>::empty());
        }
        r
    }

    /// Registers an implementation for a currency, replacing any earlier
    /// one.
    pub fn attach(&mut self, currency: Currency, api: A)
        requires
            old(self).wf(),
            !api.keychain_installed(),
        ensures
            final(self).wf(),
            final(self).spec_registered(currency),
            final(self).spec_keychain_set() == old(self).spec_keychain_set(),
            forall|c: Currency|
                final(self).spec_registered(c) <==> (old(self).spec_registered(c) || c
                    == currency),
    {
        match self.find_api(currency) {
            Some(i) => {
                let ghost apisp = self.apis@;
                let _ = self.apis.remove(i);
                self.apis.insert(i, (currency, api));
                proof {
                    assert(self.apis@[i as int].0 == currency);
                    assert forall|c: Currency|
                        final(self).spec_registered(c) <==> (old(self).spec_registered(c) || c
                            == currency) by {
                        if self.spec_registered(c) {
                            let j = choose|j: int|
                                0 <= j < self.apis@.len() && (#[trigger] self.apis@[j]).0 == c;
                            if j != i {
                                assert(apisp[j].0 == c);
                            }
                        }
                        if old(self).spec_registered(c) && c != currency {
                            let j = choose|j: int|
                                0 <= j < apisp.len() && (#[trigger] apisp[j]).0 == c;
                            assert(j != i);
                            assert(self.apis@[j].0 == c);
                        }
                    }
                }
            },
            None => {
                let ghost apisp = self.apis@;
                self.apis.push((currency, api));
                proof {
                    assert(self.apis@[apisp.len() as int].0 == currency);
                    assert forall|c: Currency|
                        final(self).spec_registered(c) <==> (old(self).spec_registered(c) || c
                            == currency) by {
                        if self.spec_registered(c) && c != currency {
                            let j = choose|j: int|
                                0 <= j < self.apis@.len() && (#[trigger] self.apis@[j]).0 == c;
                            if j < apisp.len() {
                                assert(apisp[j].0 == c);
                            }
                        }
                        if old(self).spec_registered(c) {
                            let j = choose|j: int|
                                0 <= j < apisp.len() && (#[trigger] apisp[j]).0 == c;
                            assert(self.apis@[j].0 == c);
                        }
                    }
                }
            },
        }
    }

    /// Sets or clears the keychain available for lending.
    pub fn set_keychain(&mut self, keychain: Option<K>)
        requires
            old(self).wf(),
        ensures
            final(self).wf(),
            final(self).spec_keychain_set() == (keychain is Some),
            final(self).spec_currencies() == old(self).spec_currencies(),
    {
        self.keychain = keychain;
    }

    /// Finds the registry slot of a currency.
    fn find_api(&self, c: Currency) -> (r: Option<usize>)
        ensures
            match r {
                Some(i) => i < self.apis@.len() && self.apis@[i as int].0 == c,
                None => !self.spec_registered(c),
            },
    {
        let mut i: usize = 0;
        while i < self.apis.len()
            invariant
                i <= self.apis@.len(),
                forall|j: int| 0 <= j < i ==> (#[trigger] self.apis@[j]).0 != c,
            decreases self.apis@.len() - i,
        {
            let eq = match (self.apis[i].0, c) {
                (Currency::Btc, Currency::Btc) => true,
            };
            if eq {
                return Some(i);
            }
            i = i + 1;
        }
        None
    }

    /// Accepts a peer's offer: the currency is not known ahead, so it is
    /// read out of the inbound message first, then dispatched like every
    /// other operation.
    /// Fails with `ProtocolError` when the message carries no offer, with
    /// `MissingKeychain` when no keychain is set, and with `ApiNotFound`
    /// when no implementation is registered for the offer's currency; in
    /// each case nothing is installed or touched.
    pub fn accept_swap_offer(
        &mut self,
        context: &Context,
        address: Option<Vec<u8>>,
        message: Message,
    ) -> (r: Result<(Swap, Action), ErrorKind>)
        requires
            old(self).wf(),
        ensures
            final(self).wf(),
            final(self).spec_currencies() == old(self).spec_currencies(),
            final(self).spec_keychain_set() == old(self).spec_keychain_set(),
            !(message.inner matches Update::Offer(_)) ==> r == Err::<(Swap, Action), ErrorKind>(
                ErrorKind::ProtocolError,
            ) && *final(self) == *old(self),
            (message.inner matches Update::Offer(o) && !old(self).spec_keychain_set()) ==> r
                == Err::<(Swap, Action), ErrorKind>(ErrorKind::MissingKeychain) && *final(self)
                == *old(self),
            (message.inner matches Update::Offer(o) && old(self).spec_keychain_set() && !old(
                self,
            ).spec_registered(o.secondary_currency)) ==> r == Err::<(Swap, Action), ErrorKind>(
                ErrorKind::ApiNotFound,
            ) && *final(self) == *old(self),
    {
        let (id, offer, sec) = match message.unwrap_offer() {
            Ok(p) => p,
            Err(_) => {
                return Err(ErrorKind::ProtocolError);
            },
        };
        let currency = offer.secondary_currency;
        let message = Message::new(id, Update::Offer(offer), sec);
        let kc = match &self.keychain {
            Some(k) => k.clone(),
            None => {
                return Err(ErrorKind::MissingKeychain);
            },
        };
        let idx = match self.find_api(currency) {
            Some(i) => i,
            None => {
                return Err(ErrorKind::ApiNotFound);
            },
        };
        let ghost apisp = self.apis@;
        let (cur, mut api) = self.apis.remove(idx);
        api.set_keychain(Some(kc));
        let res = api.accept_swap_offer(context, address, message);
        api.set_keychain(None);
        self.apis.insert(idx, (cur, api));
        proof {
            assert(self.apis@.map_values(|p: (Currency, A)| p.0) =~= apisp.map_values(
                |p: (Currency, A)| p.0,
            ));
            assert(forall|i: int|
                0 <= i < self.apis@.len() ==> !(#[trigger] self.apis@[i]).1.keychain_installed());
        }
        res
    }

    /// Winds a completed swap down, under the scoped keychain.
    /// Fails with `MissingKeychain` when no keychain is set, and with
    /// `ApiNotFound` when no implementation is registered for the
    /// currency; in both cases nothing is installed or touched.
    pub fn completed(&mut self, swap: &mut Swap, context: &Context) -> (r: Result<Action, ErrorKind>)
        requires
            old(self).wf(),
        ensures
            final(swap).redeem_output == old(swap).redeem_output,
            final(self).wf(),
            final(self).spec_currencies() == old(self).spec_currencies(),
            final(self).spec_keychain_set() == old(self).spec_keychain_set(),
            !old(self).spec_keychain_set() ==> r == Err::<Action, ErrorKind>(
                ErrorKind::MissingKeychain,
            ) && *final(self) == *old(self) && *final(swap) == *old(swap),
            old(self).spec_keychain_set() && !old(self).spec_registered(old(swap).secondary_currency) ==> r == Err::<
                Action,
                ErrorKind,
            >(ErrorKind::ApiNotFound) && *final(self) == *old(self) && *final(swap) == *old(swap),
            final(swap).id@ == old(swap).id@,
            final(swap).role == old(swap).role,
    {
        let kc = match &self.keychain {
            Some(k) => k.clone(),
            None => {
                return Err(ErrorKind::MissingKeychain);
            },
        };
        let idx = match self.find_api(swap.secondary_currency) {
            Some(i) => i,
            None => {
                return Err(ErrorKind::ApiNotFound);
            },
        };
        let ghost apisp = self.apis@;
        let (cur, mut api) = self.apis.remove(idx);
        api.set_keychain(Some(kc));
        let res = api.completed(swap, context);
        api.set_keychain(None);
        self.apis.insert(idx, (cur, api));
        proof {
            assert(self.apis@.map_values(|p: (Currency, A)| p.0) =~= apisp.map_values(
                |p: (Currency, A)| p.0,
            ));
            assert(forall|i: int|
                0 <= i < self.apis@.len() ==> !(#[trigger] self.apis@[i]).1.keychain_installed());
        }
        res
    }

    /// Records a refunded swap, under the scoped keychain.
    /// Fails with `MissingKeychain` when no keychain is set, and with
    /// `ApiNotFound` when no implementation is registered for the
    /// currency; in both cases nothing is installed or touched.
    pub fn refunded(&mut self, swap: &mut Swap) -> (r: Result<(), ErrorKind>)
        requires
            old(self).wf(),
        ensures
            final(self).wf(),
            final(self).spec_currencies() == old(self).spec_currencies(),
            final(self).spec_keychain_set() == old(self).spec_keychain_set(),
            !old(self).spec_keychain_set() ==> r == Err::<(), ErrorKind>(
                ErrorKind::MissingKeychain,
            ) && *final(self) == *old(self) && *final(swap) == *old(swap),
            old(self).spec_keychain_set() && !old(self).spec_registered(old(swap).secondary_currency) ==> r == Err::<
                (),
                ErrorKind,
            >(ErrorKind::ApiNotFound) && *final(self) == *old(self) && *final(swap) == *old(swap),
            final(swap).id@ == old(swap).id@,
            final(swap).role == old(swap).role,
    {
        let kc = match &self.keychain {
            Some(k) => k.clone(),
            None => {
                return Err(ErrorKind::MissingKeychain);
            },
        };
        let idx = match self.find_api(swap.secondary_currency) {
            Some(i) => i,
            None => {
                return Err(ErrorKind::ApiNotFound);
            },
        };
        let ghost apisp = self.apis@;
        let (cur, mut api) = self.apis.remove(idx);
        api.set_keychain(Some(kc));
        let res = api.refunded(swap);
        api.set_keychain(None);
        self.apis.insert(idx, (cur, api));
        proof {
            assert(self.apis@.map_values(|p: (Currency, A)| p.0) =~= apisp.map_values(
                |p: (Currency, A)| p.0,
            ));
            assert(forall|i: int|
                0 <= i < self.apis@.len() ==> !(#[trigger] self.apis@[i]).1.keychain_installed());
        }
        res
    }

    /// Records a cancelled swap, under the scoped keychain.
    /// Fails with `MissingKeychain` when no keychain is set, and with
    /// `ApiNotFound` when no implementation is registered for the
    /// currency; in both cases nothing is installed or touched.
    pub fn cancelled(&mut self, swap: &mut Swap) -> (r: Result<(), ErrorKind>)
        requires
            old(self).wf(),
        ensures
            final(self).wf(),
            final(self).spec_currencies() == old(self).spec_currencies(),
            final(self).spec_keychain_set() == old(self).spec_keychain_set(),
            !old(self).spec_keychain_set() ==> r == Err::<(), ErrorKind>(
                ErrorKind::MissingKeychain,
            ) && *final(self) == *old(self) && *final(swap) == *old(swap),
            old(self).spec_keychain_set() && !old(self).spec_registered(old(swap).secondary_currency) ==> r == Err::<
                (),
                ErrorKind,
            >(ErrorKind::ApiNotFound) && *final(self) == *old(self) && *final(swap) == *old(swap),
            final(swap).id@ == old(swap).id@,
            final(swap).role == old(swap).role,
    {
        let kc = match &self.keychain {
            Some(k) => k.clone(),
            None => {
                return Err(ErrorKind::MissingKeychain);
            },
        };
        let idx = match self.find_api(swap.secondary_currency) {
            Some(i) => i,
            None => {
                return Err(ErrorKind::ApiNotFound);
            },
        };
        let ghost apisp = self.apis@;
        let (cur, mut api) = self.apis.remove(idx);
        api.set_keychain(Some(kc));
        let res = api.cancelled(swap);
        api.set_keychain(None);
        self.apis.insert(idx, (cur, api));
        proof {
            assert(self.apis@.map_values(|p: (Currency, A)| p.0) =~= apisp.map_values(
                |p: (Currency, A)| p.0,
            ));
            assert(forall|i: int|
                0 <= i < self.apis@.len() ==> !(#[trigger] self.apis@[i]).1.keychain_installed());
        }
        res
    }

    /// Asks what the swap needs next, under the scoped keychain.
    /// Fails with `MissingKeychain` when no keychain is set, and with
    /// `ApiNotFound` when no implementation is registered for the
    /// currency; in both cases nothing is installed or touched.
    pub fn required_action(&mut self, swap: &mut Swap, context: &Context) -> (r: Result<Action, ErrorKind>)
        requires
            old(self).wf(),
        ensures
            final(self).wf(),
            final(self).spec_currencies() == old(self).spec_currencies(),
            final(self).spec_keychain_set() == old(self).spec_keychain_set(),
            !old(self).spec_keychain_set() ==> r == Err::<Action, ErrorKind>(
                ErrorKind::MissingKeychain,
            ) && *final(self) == *old(self) && *final(swap) == *old(swap),
            old(self).spec_keychain_set() && !old(self).spec_registered(old(swap).secondary_currency) ==> r == Err::<
                Action,
                ErrorKind,
            >(ErrorKind::ApiNotFound) && *final(self) == *old(self) && *final(swap) == *old(swap),
            final(swap).id@ == old(swap).id@,
            final(swap).role == old(swap).role,
    {
        let kc = match &self.keychain {
            Some(k) => k.clone(),
            None => {
                return Err(ErrorKind::MissingKeychain);
            },
        };
        let idx = match self.find_api(swap.secondary_currency) {
            Some(i) => i,
            None => {
                return Err(ErrorKind::ApiNotFound);
            },
        };
        let ghost apisp = self.apis@;
        let (cur, mut api) = self.apis.remove(idx);
        api.set_keychain(Some(kc));
        let res = api.required_action(swap, context);
        api.set_keychain(None);
        self.apis.insert(idx, (cur, api));
        proof {
            assert(self.apis@.map_values(|p: (Currency, A)| p.0) =~= apisp.map_values(
                |p: (Currency, A)| p.0,
            ));
            assert(forall|i: int|
                0 <= i < self.apis@.len() ==> !(#[trigger] self.apis@[i]).1.keychain_installed());
        }
        res
    }

    /// Builds the outbound message for the swap's state, under the scoped keychain.
    /// Fails with `MissingKeychain` when no keychain is set, and with
    /// `ApiNotFound` when no implementation is registered for the
    /// currency; in both cases nothing is installed or touched.
    pub fn message(&mut self, swap: &Swap) -> (r: Result<Message, ErrorKind>)
        requires
            old(self).wf(),
        ensures
            final(self).wf(),
            final(self).spec_currencies() == old(self).spec_currencies(),
            final(self).spec_keychain_set() == old(self).spec_keychain_set(),
            !old(self).spec_keychain_set() ==> r == Err::<Message, ErrorKind>(
                ErrorKind::MissingKeychain,
            ) && *final(self) == *old(self),
            old(self).spec_keychain_set() && !old(self).spec_registered(swap.secondary_currency) ==> r == Err::<
                Message,
                ErrorKind,
            >(ErrorKind::ApiNotFound) && *final(self) == *old(self),
    {
        let kc = match &self.keychain {
            Some(k) => k.clone(),
            None => {
                return Err(ErrorKind::MissingKeychain);
            },
        };
        let idx = match self.find_api(swap.secondary_currency) {
            Some(i) => i,
            None => {
                return Err(ErrorKind::ApiNotFound);
            },
        };
        let ghost apisp = self.apis@;
        let (cur, mut api) = self.apis.remove(idx);
        api.set_keychain(Some(kc));
        let res = api.message(swap);
        api.set_keychain(None);
        self.apis.insert(idx, (cur, api));
        proof {
            assert(self.apis@.map_values(|p: (Currency, A)| p.0) =~= apisp.map_values(
                |p: (Currency, A)| p.0,
            ));
            assert(forall|i: int|
                0 <= i < self.apis@.len() ==> !(#[trigger] self.apis@[i]).1.keychain_installed());
        }
        res
    }

    /// Advances the swap after its message went out, under the scoped keychain.
    /// Fails with `MissingKeychain` when no keychain is set, and with
    /// `ApiNotFound` when no implementation is registered for the
    /// currency; in both cases nothing is installed or touched.
    pub fn message_sent(&mut self, swap: &mut Swap, context: &Context) -> (r: Result<Action, ErrorKind>)
        requires
            old(self).wf(),
        ensures
            final(self).wf(),
            final(self).spec_currencies() == old(self).spec_currencies(),
            final(self).spec_keychain_set() == old(self).spec_keychain_set(),
            !old(self).spec_keychain_set() ==> r == Err::<Action, ErrorKind>(
                ErrorKind::MissingKeychain,
            ) && *final(self) == *old(self) && *final(swap) == *old(swap),
            old(self).spec_keychain_set() && !old(self).spec_registered(old(swap).secondary_currency) ==> r == Err::<
                Action,
                ErrorKind,
            >(ErrorKind::ApiNotFound) && *final(self) == *old(self) && *final(swap) == *old(swap),
            final(swap).id@ == old(swap).id@,
            final(swap).role == old(swap).role,
    {
        let kc = match &self.keychain {
            Some(k) => k.clone(),
            None => {
                return Err(ErrorKind::MissingKeychain);
            },
        };
        let idx = match self.find_api(swap.secondary_currency) {
            Some(i) => i,
            None => {
                return Err(ErrorKind::ApiNotFound);
            },
        };
        let ghost apisp = self.apis@;
        let (cur, mut api) = self.apis.remove(idx);
        api.set_keychain(Some(kc));
        let res = api.message_sent(swap, context);
        api.set_keychain(None);
        self.apis.insert(idx, (cur, api));
        proof {
            assert(self.apis@.map_values(|p: (Currency, A)| p.0) =~= apisp.map_values(
                |p: (Currency, A)| p.0,
            ));
            assert(forall|i: int|
                0 <= i < self.apis@.len() ==> !(#[trigger] self.apis@[i]).1.keychain_installed());
        }
        res
    }

    /// Feeds the peer's message into the swap, under the scoped keychain.
    /// Fails with `MissingKeychain` when no keychain is set, and with
    /// `ApiNotFound` when no implementation is registered for the
    /// currency; in both cases nothing is installed or touched.
    pub fn receive_message(&mut self, swap: &mut Swap, context: &Context, message: Message) -> (r: Result<Action, ErrorKind>)
        requires
            old(self).wf(),
        ensures
            final(self).wf(),
            final(self).spec_currencies() == old(self).spec_currencies(),
            final(self).spec_keychain_set() == old(self).spec_keychain_set(),
            !old(self).spec_keychain_set() ==> r == Err::<Action, ErrorKind>(
                ErrorKind::MissingKeychain,
            ) && *final(self) == *old(self) && *final(swap) == *old(swap),
            old(self).spec_keychain_set() && !old(self).spec_registered(old(swap).secondary_currency) ==> r == Err::<
                Action,
                ErrorKind,
            >(ErrorKind::ApiNotFound) && *final(self) == *old(self) && *final(swap) == *old(swap),
            final(swap).id@ == old(swap).id@,
            final(swap).role == old(swap).role,
    {
        let kc = match &self.keychain {
            Some(k) => k.clone(),
            None => {
                return Err(ErrorKind::MissingKeychain);
            },
        };
        let idx = match self.find_api(swap.secondary_currency) {
            Some(i) => i,
            None => {
                return Err(ErrorKind::ApiNotFound);
            },
        };
        let ghost apisp = self.apis@;
        let (cur, mut api) = self.apis.remove(idx);
        api.set_keychain(Some(kc));
        let res = api.receive_message(swap, context, message);
        api.set_keychain(None);
        self.apis.insert(idx, (cur, api));
        proof {
            assert(self.apis@.map_values(|p: (Currency, A)| p.0) =~= apisp.map_values(
                |p: (Currency, A)| p.0,
            ));
            assert(forall|i: int|
                0 <= i < self.apis@.len() ==> !(#[trigger] self.apis@[i]).1.keychain_installed());
        }
        res
    }

    /// Broadcasts the primary-chain transaction, under the scoped keychain.
    /// Fails with `MissingKeychain` when no keychain is set, and with
    /// `ApiNotFound` when no implementation is registered for the
    /// currency; in both cases nothing is installed or touched.
    pub fn publish_transaction(&mut self, swap: &mut Swap, context: &Context) -> (r: Result<Action, ErrorKind>)
        requires
            old(self).wf(),
        ensures
            final(self).wf(),
            final(self).spec_currencies() == old(self).spec_currencies(),
            final(self).spec_keychain_set() == old(self).spec_keychain_set(),
            !old(self).spec_keychain_set() ==> r == Err::<Action, ErrorKind>(
                ErrorKind::MissingKeychain,
            ) && *final(self) == *old(self) && *final(swap) == *old(swap),
            old(self).spec_keychain_set() && !old(self).spec_registered(old(swap).secondary_currency) ==> r == Err::<
                Action,
                ErrorKind,
            >(ErrorKind::ApiNotFound) && *final(self) == *old(self) && *final(swap) == *old(swap),
            final(swap).id@ == old(swap).id@,
            final(swap).role == old(swap).role,
    {
        let kc = match &self.keychain {
            Some(k) => k.clone(),
            None => {
                return Err(ErrorKind::MissingKeychain);
            },
        };
        let idx = match self.find_api(swap.secondary_currency) {
            Some(i) => i,
            None => {
                return Err(ErrorKind::ApiNotFound);
            },
        };
        let ghost apisp = self.apis@;
        let (cur, mut api) = self.apis.remove(idx);
        api.set_keychain(Some(kc));
        let res = api.publish_transaction(swap, context);
        api.set_keychain(None);
        self.apis.insert(idx, (cur, api));
        proof {
            assert(self.apis@.map_values(|p: (Currency, A)| p.0) =~= apisp.map_values(
                |p: (Currency, A)| p.0,
            ));
            assert(forall|i: int|
                0 <= i < self.apis@.len() ==> !(#[trigger] self.apis@[i]).1.keychain_installed());
        }
        res
    }

    /// Broadcasts the secondary-chain transaction, under the scoped keychain.
    /// Fails with `MissingKeychain` when no keychain is set, and with
    /// `ApiNotFound` when no implementation is registered for the
    /// currency; in both cases nothing is installed or touched.
    pub fn publish_secondary_transaction(&mut self, swap: &mut Swap, context: &Context) -> (r: Result<Action, ErrorKind>)
        requires
            old(self).wf(),
        ensures
            final(self).wf(),
            final(self).spec_currencies() == old(self).spec_currencies(),
            final(self).spec_keychain_set() == old(self).spec_keychain_set(),
            !old(self).spec_keychain_set() ==> r == Err::<Action, ErrorKind>(
                ErrorKind::MissingKeychain,
            ) && *final(self) == *old(self) && *final(swap) == *old(swap),
            old(self).spec_keychain_set() && !old(self).spec_registered(old(swap).secondary_currency) ==> r == Err::<
                Action,
                ErrorKind,
            >(ErrorKind::ApiNotFound) && *final(self) == *old(self) && *final(swap) == *old(swap),
            final(swap).id@ == old(swap).id@,
            final(swap).role == old(swap).role,
    {
        let kc = match &self.keychain {
            Some(k) => k.clone(),
            None => {
                return Err(ErrorKind::MissingKeychain);
            },
        };
        let idx = match self.find_api(swap.secondary_currency) {
            Some(i) => i,
            None => {
                return Err(ErrorKind::ApiNotFound);
            },
        };
        let ghost apisp = self.apis@;
        let (cur, mut api) = self.apis.remove(idx);
        api.set_keychain(Some(kc));
        let res = api.publish_secondary_transaction(swap, context);
        api.set_keychain(None);
        self.apis.insert(idx, (cur, api));
        proof {
            assert(self.apis@.map_values(|p: (Currency, A)| p.0) =~= apisp.map_values(
                |p: (Currency, A)| p.0,
            ));
            assert(forall|i: int|
                0 <= i < self.apis@.len() ==> !(#[trigger] self.apis@[i]).1.keychain_installed());
        }
        res
    }

    /// How many derived keys a context needs, under the scoped keychain.
    /// Fails with `MissingKeychain` when no keychain is set, and with
    /// `ApiNotFound` when no implementation is registered for the
    /// currency; in both cases nothing is installed or touched.
    pub fn context_key_count(&mut self, secondary_currency: Currency, is_seller: bool) -> (r: Result<u64, ErrorKind>)
        requires
            old(self).wf(),
        ensures
            final(self).wf(),
            final(self).spec_currencies() == old(self).spec_currencies(),
            final(self).spec_keychain_set() == old(self).spec_keychain_set(),
            !old(self).spec_keychain_set() ==> r == Err::<u64, ErrorKind>(
                ErrorKind::MissingKeychain,
            ) && *final(self) == *old(self),
            old(self).spec_keychain_set() && !old(self).spec_registered(secondary_currency) ==> r == Err::<
                u64,
                ErrorKind,
            >(ErrorKind::ApiNotFound) && *final(self) == *old(self),
    {
        let kc = match &self.keychain {
            Some(k) => k.clone(),
            None => {
                return Err(ErrorKind::MissingKeychain);
            },
        };
        let idx = match self.find_api(secondary_currency) {
            Some(i) => i,
            None => {
                return Err(ErrorKind::ApiNotFound);
            },
        };
        let ghost apisp = self.apis@;
        let (cur, mut api) = self.apis.remove(idx);
        api.set_keychain(Some(kc));
        let res = api.context_key_count(secondary_currency, is_seller);
        api.set_keychain(None);
        self.apis.insert(idx, (cur, api));
        proof {
            assert(self.apis@.map_values(|p: (Currency, A)| p.0) =~= apisp.map_values(
                |p: (Currency, A)| p.0,
            ));
            assert(forall|i: int|
                0 <= i < self.apis@.len() ==> !(#[trigger] self.apis@[i]).1.keychain_installed());
        }
        res
    }

    /// Creates the secret context of a new swap, under the scoped keychain.
    /// Fails with `MissingKeychain` when no keychain is set, and with
    /// `ApiNotFound` when no implementation is registered for the
    /// currency; in both cases nothing is installed or touched.
    pub fn create_context(&mut self, secondary_currency: Currency, is_seller: bool, inputs: Option<Vec<(KeyId, u64)>>, keys: Vec<KeyId>) -> (r: Result<Context, ErrorKind>)
        requires
            old(self).wf(),
        ensures
            final(self).wf(),
            final(self).spec_currencies() == old(self).spec_currencies(),
            final(self).spec_keychain_set() == old(self).spec_keychain_set(),
            !old(self).spec_keychain_set() ==> r == Err::<Context, ErrorKind>(
                ErrorKind::MissingKeychain,
            ) && *final(self) == *old(self),
            old(self).spec_keychain_set() && !old(self).spec_registered(secondary_currency) ==> r == Err::<
                Context,
                ErrorKind,
            >(ErrorKind::ApiNotFound) && *final(self) == *old(self),
    {
        let kc = match &self.keychain {
            Some(k) => k.clone(),
            None => {
                return Err(ErrorKind::MissingKeychain);
            },
        };
        let idx = match self.find_api(secondary_currency) {
            Some(i) => i,
            None => {
                return Err(ErrorKind::ApiNotFound);
            },
        };
        let ghost apisp = self.apis@;
        let (cur, mut api) = self.apis.remove(idx);
        api.set_keychain(Some(kc));
        let res = api.create_context(secondary_currency, is_seller, inputs, keys);
        api.set_keychain(None);
        self.apis.insert(idx, (cur, api));
        proof {
            assert(self.apis@.map_values(|p: (Currency, A)| p.0) =~= apisp.map_values(
                |p: (Currency, A)| p.0,
            ));
            assert(forall|i: int|
                0 <= i < self.apis@.len() ==> !(#[trigger] self.apis@[i]).1.keychain_installed());
        }
        res
    }

    /// Proposes a swap to a peer, under the scoped keychain.
    /// Fails with `MissingKeychain` when no keychain is set, and with
    /// `ApiNotFound` when no implementation is registered for the
    /// currency; in both cases nothing is installed or touched.
    pub fn create_swap_offer(&mut self, context: &Context, address: Option<Vec<u8>>, primary_amount: u64, secondary_amount: u64, secondary_currency: Currency, secondary_redeem_address: Vec<u8>) -> (r: Result<(Swap, Action), ErrorKind>)
        requires
            old(self).wf(),
        ensures
            final(self).wf(),
            final(self).spec_currencies() == old(self).spec_currencies(),
            final(self).spec_keychain_set() == old(self).spec_keychain_set(),
            !old(self).spec_keychain_set() ==> r == Err::<(Swap, Action), ErrorKind>(
                ErrorKind::MissingKeychain,
            ) && *final(self) == *old(self),
            old(self).spec_keychain_set() && !old(self).spec_registered(secondary_currency) ==> r == Err::<
                (Swap, Action),
                ErrorKind,
            >(ErrorKind::ApiNotFound) && *final(self) == *old(self),
    {
        let kc = match &self.keychain {
            Some(k) => k.clone(),
            None => {
                return Err(ErrorKind::MissingKeychain);
            },
        };
        let idx = match self.find_api(secondary_currency) {
            Some(i) => i,
            None => {
                return Err(ErrorKind::ApiNotFound);
            },
        };
        let ghost apisp = self.apis@;
        let (cur, mut api) = self.apis.remove(idx);
        api.set_keychain(Some(kc));
        let res = api.create_swap_offer(context, address, primary_amount, secondary_amount, secondary_currency, secondary_redeem_address);
        api.set_keychain(None);
        self.apis.insert(idx, (cur, api));
        proof {
            assert(self.apis@.map_values(|p: (Currency, A)| p.0) =~= apisp.map_values(
                |p: (Currency, A)| p.0,
            ));
            assert(forall|i: int|
                0 <= i < self.apis@.len() ==> !(#[trigger] self.apis@[i]).1.keychain_installed());
        }
        res
    }

}

} // verus!
