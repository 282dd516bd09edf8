//! The two wallet-facing operation surfaces. `Foreign` serves inbound
//! work: version checks, coinbase building, receiving slates, and
//! receiving swap messages. `Owner` serves the wallet holder: finalizing
//! a fully-signed slate. Both open the wallet around each operation and
//! close it on every exit path, and swap work lends the keychain to the
//! multiplexer only for the operation's duration.

use vstd::prelude::*;

use crate::container::{Container, Listener};
use crate::crypto::{Keychain, TxProof};
use crate::error::ErrorKind;
use crate::swapflow::update_swap;
use crate::swaptypes::{Message, Swap, SwapApi, SwapOffer, Update};
use crate::types::{
    BatchOp, BlockFees, CbData, NodeClient, NodeVersionInfo, Slate, SlateVersion, WalletBackend,
    WalletBackendBatch, GRIN_BLOCK_HEADER_VERSION,
};

verus! {

/// Which foreign entry a middleware check guards.
#[derive(Clone, Copy, Debug, PartialEq, Eq, Structural)]
pub enum ForeignCheckMiddlewareFn {
    CheckVersion,
    BuildCoinbase,
    VerifySlateMessages,
    ReceiveTx,
}

/// The foreign surface's protocol version.
pub const FOREIGN_API_VERSION: u16 = 2;

/// What the foreign surface reports about itself.
#[derive(Clone, Debug)]
pub struct VersionInfo {
    pub foreign_api_version: u16,
    pub supported_slate_versions: Vec<SlateVersion>,
}

/// Whether the node's reported versions are ones this wallet can serve:
/// an unanswered query passes, a reported block header format must not be
/// newer than the wallet's.
pub open spec fn spec_middleware_ok(version_info: Option<NodeVersionInfo>) -> bool {
    match version_info {
        None => true,
        Some(vi) => vi.block_header_version <= GRIN_BLOCK_HEADER_VERSION,
    }
}

/// Guards a foreign entry against an incompatible chain node.
pub fn check_middleware(
    name: ForeignCheckMiddlewareFn,
    version_info: Option<NodeVersionInfo>,
    slate: Option<&Slate>,
) -> (r: Result<(), ErrorKind>)
    ensures
        r is Ok <==> spec_middleware_ok(version_info),
        r matches Err(e) ==> e == ErrorKind::ProtocolError,
{
    match version_info {
        None => Ok(()),
        Some(vi) => {
            if vi.block_header_version <= GRIN_BLOCK_HEADER_VERSION {
                Ok(())
            } else {
                Err(ErrorKind::ProtocolError)
            }
        },
    }
}

/// The inbound operation surface.
pub struct Foreign {}

impl Foreign {
    /// A fresh foreign surface.
    pub fn new() -> (r: Foreign) {
        Foreign {  }
    }

    /// Reports the foreign protocol version and the slate versions served,
    /// after the middleware accepts the node.
    pub fn check_version<W, C, K, A, L>(&self, c: &mut Container<W, C, K, A, L>) -> (r: Result<
        VersionInfo,
        ErrorKind,
    >)
        where
            W: WalletBackend<C, K>,
            C: NodeClient,
            K: Keychain + Clone,
            A: SwapApi<K>,
            L: Listener,
        ensures
            final(c).backend.committed() == old(c).backend.committed(),
            final(c).backend.finalized() == old(c).backend.finalized(),
            final(c).swap_apis == old(c).swap_apis,
            final(c).listeners == old(c).listeners,
            r matches Ok(v) ==> v.foreign_api_version == FOREIGN_API_VERSION
                && v.supported_slate_versions@ == seq![SlateVersion::V2],
    {
        match c.backend() {
            Ok(_) => {},
            Err(e) => {
                return Err(e);
            },
        }
        let vi = c.backend.node_version_info();
        match check_middleware(ForeignCheckMiddlewareFn::CheckVersion, vi, None) {
            Ok(_) => {},
            Err(e) => {
                return Err(e);
            },
        }
        let mut versions: Vec<SlateVersion> = Vec::new();
        versions.push(SlateVersion::V2);
        proof {
            assert(versions@ =~= seq![SlateVersion::V2]);
        }
        Ok(VersionInfo { foreign_api_version: FOREIGN_API_VERSION, supported_slate_versions: versions })
    }

    /// Builds a coinbase for a miner: the wallet must be connected and
    /// hold a seed, the middleware must accept the node, and the wallet is
    /// closed again on every exit path.
    pub fn build_coinbase<W, C, K, A, L>(
        &self,
        c: &mut Container<W, C, K, A, L>,
        block_fees: &BlockFees,
    ) -> (r: Result<CbData, ErrorKind>)
        where
            W: WalletBackend<C, K>,
            C: NodeClient,
            K: Keychain + Clone,
            A: SwapApi<K>,
            L: Listener,
        ensures
            final(c).backend.committed() == old(c).backend.committed(),
            final(c).backend.finalized() == old(c).backend.finalized(),
            final(c).swap_apis == old(c).swap_apis,
            final(c).listeners == old(c).listeners,
    {
        match c.backend() {
            Ok(_) => {},
            Err(e) => {
                return Err(e);
            },
        }
        match c.backend.has_seed() {
            Ok(true) => {},
            Ok(false) => {
                return Err(ErrorKind::NoSeed);
            },
            Err(_) => {
                return Err(ErrorKind::StorageError);
            },
        }
        match c.backend.open_with_credentials() {
            Ok(_) => {},
            Err(e) => {
                return Err(e);
            },
        }
        let vi = c.backend.node_version_info();
        let gate = check_middleware(ForeignCheckMiddlewareFn::BuildCoinbase, vi, None);
        let res = match gate {
            Ok(_) => c.backend.build_coinbase(block_fees),
            Err(e) => Err(e),
        };
        let _ = c.backend.close();
        res
    }

    /// Checks an inbound slate against the node gate. Participant
    /// messages and their signatures live with the cryptography
    /// collaborator; the middleware check is the whole gate.
    pub fn verify_slate_messages<W, C, K, A, L>(
        &self,
        c: &mut Container<W, C, K, A, L>,
        slate: &Slate,
    ) -> (r: Result<(), ErrorKind>)
        where
            W: WalletBackend<C, K>,
            C: NodeClient,
            K: Keychain + Clone,
            A: SwapApi<K>,
            L: Listener,
        ensures
            final(c).backend.committed() == old(c).backend.committed(),
            final(c).backend.finalized() == old(c).backend.finalized(),
            final(c).swap_apis == old(c).swap_apis,
            final(c).listeners == old(c).listeners,
    {
        match c.backend() {
            Ok(_) => {},
            Err(e) => {
                return Err(e);
            },
        }
        let vi = c.backend.node_version_info();
        check_middleware(ForeignCheckMiddlewareFn::VerifySlateMessages, vi, Some(slate))
    }

    /// Receives an inbound slate: opens the wallet, lets the middleware
    /// gate the node, adds this wallet's output and signature through the
    /// ledger, and closes the wallet again. On success the returned slate
    /// keeps the inbound id, participant requirement and amount, and
    /// carries one more participant entry.
    pub fn receive_tx<W, C, K, A, L>(
        &self,
        c: &mut Container<W, C, K, A, L>,
        slate: &Slate,
        dest_acct_name: Option<&[u8]>,
        address: Option<Vec<u8>>,
        message: Option<Vec<u8>>,
    ) -> (r: Result<Slate, ErrorKind>)
        where
            W: WalletBackend<C, K>,
            C: NodeClient,
            K: Keychain + Clone,
            A: SwapApi<K>,
            L: Listener,
        ensures
            final(c).backend.committed() == old(c).backend.committed(),
            final(c).backend.finalized() == old(c).backend.finalized(),
            final(c).swap_apis == old(c).swap_apis,
            final(c).listeners == old(c).listeners,
            r matches Ok(out) ==> final(c).backend.received() == old(c).backend.received().push(
                slate@,
            ),
            r is Err ==> final(c).backend.received() == old(c).backend.received(),
            r matches Ok(out) ==> out@.id == slate@.id && out@.num_participants
                == slate@.num_participants && out@.participant_ids.len()
                == slate@.participant_ids.len() + 1 && out@.input_count == slate@.input_count
                && out@.amount == slate@.amount,
    {
        match c.backend() {
            Ok(_) => {},
            Err(e) => {
                return Err(e);
            },
        }
        match c.backend.has_seed() {
            Ok(true) => {},
            Ok(false) => {
                return Err(ErrorKind::NoSeed);
            },
            Err(_) => {
                return Err(ErrorKind::StorageError);
            },
        }
        match c.backend.open_with_credentials() {
            Ok(_) => {},
            Err(e) => {
                return Err(e);
            },
        }
        let vi = c.backend.node_version_info();
        let gate = check_middleware(ForeignCheckMiddlewareFn::ReceiveTx, vi, Some(slate));
        let res = match gate {
            Ok(_) => {
                match &address {
                    Some(a) => c.backend.receive_tx(slate, Some(a.as_slice())),
                    None => c.backend.receive_tx(slate, None),
                }
            },
            Err(e) => Err(e),
        };
        let _ = c.backend.close();
        res
    }

    /// Receives a swap message from a peer: an offer is recorded for later
    /// acceptance, anything else advances the named swap through the
    /// engine. The wallet is opened for the operation, the keychain lent
    /// to the multiplexer only for its duration, and both are released on
    /// every exit path.
    pub fn receive_swap_message<W, C, K, A, L>(
        &self,
        c: &mut Container<W, C, K, A, L>,
        address: Option<Vec<u8>>,
        message: Message,
    ) -> (r: Result<(), ErrorKind>)
        where
            W: WalletBackend<C, K>,
            C: NodeClient,
            K: Keychain + Clone,
            A: SwapApi<K>,
            L: Listener,
        requires
            old(c).swap_apis.wf(),
        ensures
            final(c).swap_apis.wf(),
            final(c).swap_apis.spec_currencies() == old(c).swap_apis.spec_currencies(),
            !old(c).swap_apis.spec_keychain_set() ==> !final(c).swap_apis.spec_keychain_set(),
            // The store only ever grows by whole committed batches.
            crate::swapflow::spec_batches_prefix(
                old(c).backend.committed(),
                final(c).backend.committed(),
            ),
            (r is Ok && (message.inner matches Update::Offer(_))) ==> exists|idx: u32|
                final(c).backend.committed() == old(c).backend.committed().push(
                    seq![
                        BatchOp::StoreSwapMapping { idx, id: message.id@ },
                        BatchOp::StoreSwapOffer { id: message.id@ },
                    ],
                ),
            // A refused or failed offer leaves no partial state.
            (r is Err && (message.inner matches Update::Offer(_))) ==> final(c).backend.committed()
                == old(c).backend.committed(),
            (r is Ok && !(message.inner matches Update::Offer(_))) ==> final(c).backend.committed().len()
                > 0 && final(c).backend.committed().last() == seq![
                BatchOp::StoreSwap { id: message.id@ },
            ],
    {
        proof {
            crate::swapflow::lemma_batches_prefix_refl(old(c).backend.committed());
        }
        match c.backend() {
            Ok(_) => {},
            Err(e) => {
                return Err(e);
            },
        }
        match c.backend.has_seed() {
            Ok(true) => {},
            Ok(false) => {
                return Err(ErrorKind::NoSeed);
            },
            Err(_) => {
                return Err(ErrorKind::StorageError);
            },
        }
        match c.backend.open_with_credentials() {
            Ok(_) => {},
            Err(e) => {
                return Err(e);
            },
        }
        let kc = c.backend.keychain().clone();
        c.swap_apis.set_keychain(Some(kc));
        let res = Self::receive_swap_message_inner(c, address, message);
        let _ = c.backend.close();
        c.swap_apis.set_keychain(None);
        res
    }

    /// The swap-message work itself, run while the wallet is open and the
    /// keychain lent.
    fn receive_swap_message_inner<W, C, K, A, L>(
        c: &mut Container<W, C, K, A, L>,
        address: Option<Vec<u8>>,
        message: Message,
    ) -> (r: Result<(), ErrorKind>)
        where
            W: WalletBackend<C, K>,
            C: NodeClient,
            K: Keychain + Clone,
            A: SwapApi<K>,
            L: Listener,
        requires
            old(c).swap_apis.wf(),
        ensures
            final(c).swap_apis.wf(),
            final(c).swap_apis.spec_currencies() == old(c).swap_apis.spec_currencies(),
            final(c).swap_apis.spec_keychain_set() == old(c).swap_apis.spec_keychain_set(),
            crate::swapflow::spec_batches_prefix(
                old(c).backend.committed(),
                final(c).backend.committed(),
            ),
            (r is Ok && (message.inner matches Update::Offer(_))) ==> exists|idx: u32|
                final(c).backend.committed() == old(c).backend.committed().push(
                    seq![
                        BatchOp::StoreSwapMapping { idx, id: message.id@ },
                        BatchOp::StoreSwapOffer { id: message.id@ },
                    ],
                ),
            (r is Err && (message.inner matches Update::Offer(_))) ==> final(c).backend.committed()
                == old(c).backend.committed(),
            (r is Ok && !(message.inner matches Update::Offer(_))) ==> final(c).backend.committed().len()
                > 0 && final(c).backend.committed().last() == seq![
                BatchOp::StoreSwap { id: message.id@ },
            ],
    {
        proof {
            crate::swapflow::lemma_batches_prefix_refl(old(c).backend.committed());
        }
        let is_offer = match &message.inner {
            Update::Offer(_) => true,
            _ => false,
        };
        if is_offer {
            let already = match c.backend.get_swap(message.id.as_slice()) {
                Ok(s) => s.is_some(),
                Err(_) => {
                    return Err(ErrorKind::StorageError);
                },
            };
            let already_offer = match c.backend.get_swap_offer(message.id.as_slice()) {
                Ok(s) => s.is_some(),
                Err(_) => {
                    return Err(ErrorKind::StorageError);
                },
            };
            if already || already_offer {
                return Err(ErrorKind::SwapExists);
            }
            let (id, offer, secondary) = match message.unwrap_offer() {
                Ok(p) => p,
                Err(e) => {
                    return Err(e);
                },
            };
            match c.backend.begin_batch() {
                Ok(_) => {},
                Err(e) => {
                    return Err(e);
                },
            }
            let idx = match c.backend.next_swap_idx() {
                Ok(i) => i,
                Err(e) => {
                    return Err(e);
                },
            };
            match c.backend.store_swap_mapping(idx, id.as_slice()) {
                Ok(_) => {},
                Err(e) => {
                    return Err(e);
                },
            }
            let record = SwapOffer { id, idx, address, offer, secondary };
            match c.backend.store_swap_offer(&record) {
                Ok(_) => {},
                Err(e) => {
                    return Err(e);
                },
            }
            match c.backend.commit() {
                Ok(_) => {},
                Err(e) => {
                    return Err(e);
                },
            }
            proof {
                assert(c.backend.committed().last() =~= seq![
                    BatchOp::StoreSwapMapping { idx, id: message.id@ },
                    BatchOp::StoreSwapOffer { id: message.id@ },
                ]);
                assert(c.backend.committed() == old(c).backend.committed().push(
                    seq![
                        BatchOp::StoreSwapMapping { idx, id: message.id@ },
                        BatchOp::StoreSwapOffer { id: message.id@ },
                    ],
                ));
                crate::swapflow::lemma_batches_prefix_push(
                    old(c).backend.committed(),
                    old(c).backend.committed(),
                    c.backend.committed().last(),
                );
            }
            Ok(())
        } else {
            let context = match c.backend.get_swap_context(message.id.as_slice()) {
                Ok(ctx) => ctx,
                Err(e) => {
                    return Err(e);
                },
            };
            let mut swap = match c.backend.get_swap(message.id.as_slice()) {
                Ok(Some(s)) => s,
                Ok(None) => {
                    return Err(ErrorKind::NotFound);
                },
                Err(_) => {
                    return Err(ErrorKind::StorageError);
                },
            };
            match update_swap(c, &mut swap, &context) {
                Ok(_) => {},
                Err(e) => {
                    return Err(e);
                },
            }
            let ghost mid1 = c.backend.committed();
            match c.swap_apis.receive_message(&mut swap, &context, message) {
                Ok(_) => {},
                Err(e) => {
                    return Err(e);
                },
            }
            match update_swap(c, &mut swap, &context) {
                Ok(_) => {},
                Err(e) => {
                    proof {
                        crate::swapflow::lemma_batches_prefix_trans(
                            old(c).backend.committed(),
                            mid1,
                            c.backend.committed(),
                        );
                    }
                    return Err(e);
                },
            }
            proof {
                crate::swapflow::lemma_batches_prefix_trans(
                    old(c).backend.committed(),
                    mid1,
                    c.backend.committed(),
                );
            }
            let ghost mid2 = c.backend.committed();
            match c.backend.begin_batch() {
                Ok(_) => {},
                Err(e) => {
                    return Err(e);
                },
            }
            match c.backend.store_swap(&swap) {
                Ok(_) => {},
                Err(e) => {
                    return Err(e);
                },
            }
            match c.backend.commit() {
                Ok(_) => {},
                Err(e) => {
                    return Err(e);
                },
            }
            proof {
                assert(c.backend.committed().last() =~= seq![
                    BatchOp::StoreSwap { id: swap.id@ },
                ]);
                crate::swapflow::lemma_batches_prefix_push(
                    old(c).backend.committed(),
                    mid2,
                    c.backend.committed().last(),
                );
                assert(c.backend.committed() == mid2.push(c.backend.committed().last()));
            }
            Ok(())
        }
    }
}

/// The wallet holder's operation surface.
pub struct Owner {}

impl Owner {
    /// A fresh owner surface.
    pub fn new() -> (r: Owner) {
        Owner {  }
    }

    /// Finalizes a fully-signed slate against the ledger, checking the
    /// delivery evidence when it is given. The wallet is opened for the
    /// operation and closed on every exit path.
    pub fn finalize_tx<W, C, K, A, L>(
        &self,
        c: &mut Container<W, C, K, A, L>,
        slate: &Slate,
        tx_proof: Option<&TxProof>,
    ) -> (r: Result<(), ErrorKind>)
        where
            W: WalletBackend<C, K>,
            C: NodeClient,
            K: Keychain + Clone,
            A: SwapApi<K>,
            L: Listener,
        ensures
            final(c).backend.committed() == old(c).backend.committed(),
            final(c).backend.received() == old(c).backend.received(),
            final(c).swap_apis == old(c).swap_apis,
            final(c).listeners == old(c).listeners,
            r is Ok ==> final(c).backend.finalized() == old(c).backend.finalized().push(slate@),
            r is Err ==> final(c).backend.finalized() == old(c).backend.finalized(),
    {
        match c.backend() {
            Ok(_) => {},
            Err(e) => {
                return Err(e);
            },
        }
        match c.backend.has_seed() {
            Ok(true) => {},
            Ok(false) => {
                return Err(ErrorKind::NoSeed);
            },
            Err(_) => {
                return Err(ErrorKind::StorageError);
            },
        }
        match c.backend.open_with_credentials() {
            Ok(_) => {},
            Err(e) => {
                return Err(e);
            },
        }
        let res = c.backend.finalize_tx(slate, tx_proof);
        let _ = c.backend.close();
        res
    }
}

} // verus!
