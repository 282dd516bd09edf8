//! Wallet-side data model and the ports to the wallet's external
//! collaborators: the chain-query client and the ledger storage backend
//! with its atomic write batches.

use vstd::prelude::*;

use crate::crypto::Keychain;
use crate::error::ErrorKind;

verus! {

/// A slate format version.
#[derive(Clone, Copy, Debug, PartialEq, Eq, Structural)]
pub enum SlateVersion {
    V1,
    V2,
}

/// The current slate format version.
pub const CURRENT_SLATE_VERSION: SlateVersion = SlateVersion::V2;

/// One participant's entry in a slate.
#[derive(Clone, Copy, Debug, PartialEq, Eq, Structural)]
pub struct ParticipantData {
    pub id: u64,
}

/// The mathematical shape of a slate.
#[verifier::ext_equal]
pub struct SlateModel {
    pub id: Seq<u8>,
    pub num_participants: u64,
    pub participant_ids: Seq<u64>,
    pub input_count: u64,
    pub amount: u64,
}

/// A partially-signed multi-party transaction record, exchanged until all
/// required signatures are collected.
#[derive(Clone, Debug)]
pub struct Slate {
    /// The slate's unique id, as plain text.
    pub id: Vec<u8>,
    /// How many participants must sign.
    pub num_participants: u64,
    /// The participants that have signed so far.
    pub participant_data: Vec<ParticipantData>,
    /// How many inputs the transaction spends.
    pub input_count: u64,
    /// The amount transferred, in base units.
    pub amount: u64,
}

impl View for Slate {
    type V = SlateModel;

    open spec fn view(&self) -> SlateModel {
        SlateModel {
            id: self.id@,
            num_participants: self.num_participants,
            participant_ids: self.participant_data@.map_values(|p: ParticipantData| p.id),
            input_count: self.input_count,
            amount: self.amount,
        }
    }
}

impl Slate {
    /// An owned copy of this slate.
    pub fn duplicate(&self) -> (r: Slate)
        ensures
            r@ == self@,
    {
        let mut pd: Vec<ParticipantData> = Vec::new();
        let mut i: usize = 0;
        while i < self.participant_data.len()
            invariant
                i <= self.participant_data@.len(),
                pd@ == self.participant_data@.take(i as int),
            decreases self.participant_data@.len() - i,
        {
            pd.push(self.participant_data[i]);
            proof {
                assert(self.participant_data@.take(i + 1 as int) =~= self.participant_data@.take(
                    i as int,
                ).push(self.participant_data@[i as int]));
            }
            i = i + 1;
        }
        let r = Slate {
            id: crate::encoding::copy_range(self.id.as_slice(), 0, self.id.len()),
            num_participants: self.num_participants,
            participant_data: pd,
            input_count: self.input_count,
            amount: self.amount,
        };
        proof {
            assert(pd@ =~= self.participant_data@);
            assert(r@.id =~= self@.id);
            assert(r@ =~= self@);
        }
        r
    }
}

/// The mathematical shape of a versioned slate.
#[verifier::ext_equal]
pub struct VersionedSlateModel {
    pub version: SlateVersion,
    pub slate: SlateModel,
}

/// A slate together with the format version it travels in.
#[derive(Clone, Debug)]
pub struct VersionedSlate {
    pub version: SlateVersion,
    pub slate: Slate,
}

impl View for VersionedSlate {
    type V = VersionedSlateModel;

    open spec fn view(&self) -> VersionedSlateModel {
        VersionedSlateModel { version: self.version, slate: self.slate@ }
    }
}

impl VersionedSlate {
    /// Wraps a slate in the given format version.
    pub fn into_version(slate: Slate, version: SlateVersion) -> (r: VersionedSlate)
        ensures
            r@.version == version,
            r@.slate == slate@,
    {
        VersionedSlate { version, slate }
    }

    /// The format version this slate travels in.
    pub fn version(&self) -> (r: SlateVersion)
        ensures
            r == self@.version,
    {
        self.version
    }

    /// The slate itself, out of its version wrapper.
    pub fn slate(self) -> (r: Slate)
        ensures
            r@ == self@.slate,
    {
        self.slate
    }
}

/// A key derivation path: a depth and up to four child indices.
#[derive(Clone, Debug)]
pub struct KeyId {
    pub depth: u8,
    pub path: Vec<u32>,
}

/// The mathematical shape of a key derivation path.
#[verifier::ext_equal]
pub struct KeyIdModel {
    pub depth: u8,
    pub path: Seq<u32>,
}

impl View for KeyId {
    type V = KeyIdModel;

    open spec fn view(&self) -> KeyIdModel {
        KeyIdModel { depth: self.depth, path: self.path@ }
    }
}

impl KeyId {
    /// A well-formed path: four slots, of which the first `depth` are
    /// meaningful.
    pub open spec fn wf(&self) -> bool {
        self.path@.len() == 4 && self.depth <= 4
    }

    /// An owned copy of this path.
    pub fn duplicate(&self) -> (r: KeyId)
        ensures
            r@ == self@,
            r.wf() == self.wf(),
    {
        let mut p: Vec<u32> = Vec::new();
        let mut i: usize = 0;
        while i < self.path.len()
            invariant
                i <= self.path@.len(),
                p@ == self.path@.take(i as int),
            decreases self.path@.len() - i,
        {
            p.push(self.path[i]);
            proof {
                assert(self.path@.take(i + 1 as int) =~= self.path@.take(i as int).push(
                    self.path@[i as int],
                ));
            }
            i = i + 1;
        }
        proof {
            assert(p@ =~= self.path@);
        }
        let r = KeyId { depth: self.depth, path: p };
        proof {
            assert(r@ =~= self@);
        }
        r
    }

    /// The last meaningful child index of the path.
    pub fn last_path_index(&self) -> (r: u32)
        requires
            self.wf(),
            self.depth > 0,
        ensures
            r == self@.path[self@.depth - 1],
    {
        let d = self.depth as usize;
        self.path[d - 1]
    }

    /// The parent of this path: one level shallower, with the dropped
    /// slot cleared.
    pub fn parent_path(&self) -> (r: KeyId)
        requires
            self.wf(),
            self.depth > 0,
        ensures
            r.wf(),
            r@.depth == self@.depth - 1,
            r@.path == self@.path.update(self@.depth - 1, 0u32),
    {
        let mut p = self.duplicate().path;
        let d = self.depth as usize;
        p.set(d - 1, 0);
        KeyId { depth: self.depth - 1, path: p }
    }
}

/// Where an output stands in its life cycle.
#[derive(Clone, Copy, Debug, PartialEq, Eq, Structural)]
pub enum OutputStatus {
    Unconfirmed,
    Unspent,
    Locked,
    Spent,
}

/// The mathematical shape of an output record.
#[verifier::ext_equal]
pub struct OutputModel {
    pub root_key_id: KeyIdModel,
    pub key_id: KeyIdModel,
    pub n_child: u32,
    pub commit: Option<Seq<u8>>,
    pub mmr_index: Option<u64>,
    pub value: u64,
    pub status: OutputStatus,
    pub height: u64,
    pub lock_height: u64,
    pub is_coinbase: bool,
    pub tx_log_entry: Option<u32>,
}

/// An output record in the wallet ledger.
#[derive(Clone, Debug)]
pub struct OutputData {
    pub root_key_id: KeyId,
    pub key_id: KeyId,
    pub n_child: u32,
    pub commit: Option<Vec<u8>>,
    pub mmr_index: Option<u64>,
    pub value: u64,
    pub status: OutputStatus,
    pub height: u64,
    pub lock_height: u64,
    pub is_coinbase: bool,
    pub tx_log_entry: Option<u32>,
}

impl View for OutputData {
    type V = OutputModel;

    open spec fn view(&self) -> OutputModel {
        OutputModel {
            root_key_id: self.root_key_id@,
            key_id: self.key_id@,
            n_child: self.n_child,
            commit: match self.commit {
                Some(ref c) => Some(c@),
                None => None,
            },
            mmr_index: self.mmr_index,
            value: self.value,
            status: self.status,
            height: self.height,
            lock_height: self.lock_height,
            is_coinbase: self.is_coinbase,
            tx_log_entry: self.tx_log_entry,
        }
    }
}

impl OutputData {
    /// An owned copy of this output record.
    pub fn duplicate(&self) -> (r: OutputData)
        ensures
            r@ == self@,
    {
        let commit = match &self.commit {
            Some(cm) => Some(crate::encoding::copy_range(cm.as_slice(), 0, cm.len())),
            None => None,
        };
        let r = OutputData {
            root_key_id: self.root_key_id.duplicate(),
            key_id: self.key_id.duplicate(),
            n_child: self.n_child,
            commit,
            mmr_index: self.mmr_index,
            value: self.value,
            status: self.status,
            height: self.height,
            lock_height: self.lock_height,
            is_coinbase: self.is_coinbase,
            tx_log_entry: self.tx_log_entry,
        };
        proof {
            if self.commit is Some {
                assert(r@.commit matches Some(x) && x =~= self.commit->Some_0@);
            }
            assert(r@ =~= self@);
        }
        r
    }
}

/// The block header format version this wallet builds for.
pub const GRIN_BLOCK_HEADER_VERSION: u16 = 2;

/// What a miner hands over to have a coinbase built.
#[derive(Clone, Debug)]
pub struct BlockFees {
    pub fees: u64,
    pub height: u64,
    pub key_id: Option<KeyId>,
}

/// A built coinbase: the output and kernel as opaque bytes, and the key
/// path the output hangs under.
#[derive(Clone, Debug)]
pub struct CbData {
    pub output: Vec<u8>,
    pub kernel: Vec<u8>,
    pub key_id: Option<KeyId>,
}

/// Version facts reported by the chain node.
#[derive(Clone, Debug)]
pub struct NodeVersionInfo {
    pub node_version: Vec<u8>,
    pub block_header_version: u16,
}

/// The chain-query client: an external collaborator that answers height
/// and version questions.
pub trait NodeClient: Sized {
    /// The current chain height.
    fn get_chain_height(&mut self) -> (r: Result<u64, ErrorKind>);

    /// What the node reports about itself, when it answers.
    fn get_version_info(&mut self) -> (r: Option<NodeVersionInfo>);
}

/// One recorded mutation of the ledger inside a batch.
#[verifier::ext_equal]
pub enum BatchOp {
    SaveOutput { out: OutputModel },
    StoreSwap { id: Seq<u8> },
    StoreSwapOffer { id: Seq<u8> },
    StoreSwapMapping { idx: u32, id: Seq<u8> },
    StoreSwapContext { id: Seq<u8> },
    DeleteSwapContext { id: Seq<u8> },
}

/// The atomic write-batch discipline of the ledger storage: mutations
/// accumulate in a pending batch and take effect together on commit, or
/// not at all.
pub trait WalletBackendBatch<K: Keychain>: Sized {
    /// The mutations recorded since the batch began.
    spec fn pending(&self) -> Seq<BatchOp>;

    /// The batches committed so far, in order.
    spec fn committed(&self) -> Seq<Seq<BatchOp>>;

    /// The smallest swap sequence number the store may still hand out:
    /// every number drawn is fresh, so numbers are unique and strictly
    /// increasing.
    spec fn swap_idx_floor(&self) -> nat;

    /// Opens a fresh batch.
    fn begin_batch(&mut self) -> (r: Result<(), ErrorKind>)
        ensures
            final(self).committed() == old(self).committed(),
            final(self).swap_idx_floor() == old(self).swap_idx_floor(),
            r is Ok ==> final(self).pending() == Seq::<BatchOp>::empty(),
            r is Err ==> final(self).pending() == old(self).pending(),
    ;

    /// Records a new output record.
    fn save_output(&mut self, out: &OutputData) -> (r: Result<(), ErrorKind>)
        ensures
            final(self).committed() == old(self).committed(),
            final(self).swap_idx_floor() == old(self).swap_idx_floor(),
            r is Ok ==> final(self).pending() == old(self).pending().push(
                BatchOp::SaveOutput { out: out@ },
            ),
            r is Err ==> final(self).pending() == old(self).pending(),
    ;

    /// Draws the next swap sequence number, which is fresh: at least the
    /// floor, which moves past it.
    fn next_swap_idx(&mut self) -> (r: Result<u32, ErrorKind>)
        ensures
            final(self).committed() == old(self).committed(),
            final(self).pending() == old(self).pending(),
            r matches Ok(i) ==> i as nat >= old(self).swap_idx_floor() && final(self).swap_idx_floor() > i as nat,
            r is Err ==> final(self).swap_idx_floor() == old(self).swap_idx_floor(),
    ;

    /// Records the sequence-number-to-id mapping of a swap.
    fn store_swap_mapping(&mut self, idx: u32, id: &[u8]) -> (r: Result<(), ErrorKind>)
        ensures
            final(self).committed() == old(self).committed(),
            final(self).swap_idx_floor() == old(self).swap_idx_floor(),
            r is Ok ==> final(self).pending() == old(self).pending().push(
                BatchOp::StoreSwapMapping { idx, id: id@ },
            ),
            r is Err ==> final(self).pending() == old(self).pending(),
    ;

    /// Records a transient swap offer.
    fn store_swap_offer(&mut self, offer: &crate::swaptypes::SwapOffer) -> (r: Result<
        (),
        ErrorKind,
    >)
        ensures
            final(self).committed() == old(self).committed(),
            final(self).swap_idx_floor() == old(self).swap_idx_floor(),
            r is Ok ==> final(self).pending() == old(self).pending().push(
                BatchOp::StoreSwapOffer { id: offer.id@ },
            ),
            r is Err ==> final(self).pending() == old(self).pending(),
    ;

    /// Records a swap after a transition.
    fn store_swap(&mut self, swap: &crate::swaptypes::Swap) -> (r: Result<(), ErrorKind>)
        ensures
            final(self).committed() == old(self).committed(),
            final(self).swap_idx_floor() == old(self).swap_idx_floor(),
            r is Ok ==> final(self).pending() == old(self).pending().push(
                BatchOp::StoreSwap { id: swap.id@ },
            ),
            r is Err ==> final(self).pending() == old(self).pending(),
    ;

    /// Records a swap's secret context.
    fn store_swap_context(&mut self, id: &[u8], context: &crate::swaptypes::Context) -> (r: Result<
        (),
        ErrorKind,
    >)
        ensures
            final(self).committed() == old(self).committed(),
            final(self).swap_idx_floor() == old(self).swap_idx_floor(),
            r is Ok ==> final(self).pending() == old(self).pending().push(
                BatchOp::StoreSwapContext { id: id@ },
            ),
            r is Err ==> final(self).pending() == old(self).pending(),
    ;

    /// Removes a swap's secret context.
    fn delete_swap_context(&mut self, id: &[u8]) -> (r: Result<(), ErrorKind>)
        ensures
            final(self).committed() == old(self).committed(),
            final(self).swap_idx_floor() == old(self).swap_idx_floor(),
            r is Ok ==> final(self).pending() == old(self).pending().push(
                BatchOp::DeleteSwapContext { id: id@ },
            ),
            r is Err ==> final(self).pending() == old(self).pending(),
    ;

    /// Applies the pending batch all-or-nothing.
    fn commit(&mut self) -> (r: Result<(), ErrorKind>)
        ensures
            final(self).swap_idx_floor() == old(self).swap_idx_floor(),
            r is Ok ==> final(self).committed() == old(self).committed().push(
                old(self).pending(),
            ) && final(self).pending() == Seq::<BatchOp>::empty(),
            r is Err ==> final(self).committed() == old(self).committed() && final(self).pending()
                == old(self).pending(),
    ;
}

/// The wallet ledger storage: an external collaborator holding the seed,
/// keys, outputs and swap records, written through atomic batches.
pub trait WalletBackend<C: NodeClient, K: Keychain + Clone>: WalletBackendBatch<K> {
    /// The slates finalized against the ledger so far, in order.
    spec fn finalized(&self) -> Seq<SlateModel>;

    /// The slates received against the ledger so far, in order.
    spec fn received(&self) -> Seq<SlateModel>;

    /// The account's output records, in ledger order.
    spec fn ledger_outputs(&self) -> Seq<OutputModel>;

    /// The derivation path the active account hangs under.
    spec fn parent_key(&self) -> KeyIdModel;

    /// Whether the backend holds a seed.
    fn has_seed(&self) -> (r: Result<bool, ErrorKind>);

    /// Whether the backend connection is established.
    fn connected(&self) -> (r: Result<bool, ErrorKind>);

    /// Opens the wallet with its stored credentials.
    fn open_with_credentials(&mut self) -> (r: Result<(), ErrorKind>)
        ensures
            final(self).committed() == old(self).committed(),
            final(self).pending() == old(self).pending(),
            final(self).finalized() == old(self).finalized(),
            final(self).received() == old(self).received(),
            final(self).ledger_outputs() == old(self).ledger_outputs(),
            final(self).parent_key() == old(self).parent_key(),
    ;

    /// Closes the wallet.
    fn close(&mut self) -> (r: Result<(), ErrorKind>)
        ensures
            final(self).committed() == old(self).committed(),
            final(self).pending() == old(self).pending(),
            final(self).finalized() == old(self).finalized(),
            final(self).received() == old(self).received(),
            final(self).ledger_outputs() == old(self).ledger_outputs(),
            final(self).parent_key() == old(self).parent_key(),
    ;

    /// The active keychain.
    fn keychain(&self) -> (r: &K);

    /// The derivation path the active account hangs under.
    fn get_parent_key_id(&self) -> (r: KeyId)
        ensures
            r@ == self.parent_key(),
    ;

    /// The current chain height, asked of the chain-query client.
    fn chain_height(&mut self) -> (r: Result<u64, ErrorKind>)
        ensures
            final(self).committed() == old(self).committed(),
            final(self).pending() == old(self).pending(),
            final(self).finalized() == old(self).finalized(),
            final(self).received() == old(self).received(),
            final(self).ledger_outputs() == old(self).ledger_outputs(),
            final(self).parent_key() == old(self).parent_key(),
    ;

    /// What the chain node reports about itself, when it answers.
    fn node_version_info(&mut self) -> (r: Option<NodeVersionInfo>)
        ensures
            final(self).committed() == old(self).committed(),
            final(self).pending() == old(self).pending(),
            final(self).finalized() == old(self).finalized(),
            final(self).received() == old(self).received(),
            final(self).ledger_outputs() == old(self).ledger_outputs(),
            final(self).parent_key() == old(self).parent_key(),
    ;

    /// The spendable output records of the active account, in ledger
    /// order.
    fn outputs(&self) -> (r: Result<Vec<OutputData>, ErrorKind>)
        ensures
            r matches Ok(outs) ==> outs@.map_values(|o: OutputData| o@) == self.ledger_outputs(),
    ;

    /// The swap recorded under `id`, if any; a found swap carries that id.
    fn get_swap(&self, id: &[u8]) -> (r: Result<Option<crate::swaptypes::Swap>, ErrorKind>)
        ensures
            r matches Ok(s) ==> (s matches Some(sw) ==> sw.id@ == id@),
    ;

    /// Builds a coinbase for the given fees against the active account.
    fn build_coinbase(&mut self, block_fees: &BlockFees) -> (r: Result<CbData, ErrorKind>)
        ensures
            final(self).committed() == old(self).committed(),
            final(self).pending() == old(self).pending(),
            final(self).finalized() == old(self).finalized(),
            final(self).received() == old(self).received(),
    ;

    /// The transient offer recorded under `id`, if any.
    fn get_swap_offer(&self, id: &[u8]) -> (r: Result<
        Option<crate::swaptypes::SwapOffer>,
        ErrorKind,
    >);

    /// The secret context of the swap recorded under `id`.
    fn get_swap_context(&self, id: &[u8]) -> (r: Result<crate::swaptypes::Context, ErrorKind>);

    /// Receives an inbound slate against the ledger: adds this wallet's
    /// output and signature. The returned slate keeps the inbound slate's
    /// id and required participant count, and carries one more
    /// participant entry.
    fn receive_tx(&mut self, slate: &Slate, address: Option<&[u8]>) -> (r: Result<
        Slate,
        ErrorKind,
    >)
        ensures
            final(self).committed() == old(self).committed(),
            final(self).pending() == old(self).pending(),
            final(self).finalized() == old(self).finalized(),
            r matches Ok(out) ==> final(self).received() == old(self).received().push(slate@),
            r is Err ==> final(self).received() == old(self).received(),
            r matches Ok(out) ==> out@.id == slate@.id && out@.num_participants
                == slate@.num_participants && out@.participant_ids.len()
                == slate@.participant_ids.len() + 1 && out@.input_count == slate@.input_count
                && out@.amount == slate@.amount,
    ;

    /// Finalizes a fully-signed slate against the ledger, checking the
    /// delivery evidence when it is given.
    fn finalize_tx(&mut self, slate: &Slate, tx_proof: Option<&crate::crypto::TxProof>) -> (r:
        Result<(), ErrorKind>)
        ensures
            final(self).committed() == old(self).committed(),
            final(self).pending() == old(self).pending(),
            final(self).received() == old(self).received(),
            r is Ok ==> final(self).finalized() == old(self).finalized().push(slate@),
            r is Err ==> final(self).finalized() == old(self).finalized(),
    ;
}

} // verus!
