//! The atomic-swap data model: swaps, their secret contexts, the message
//! vocabulary exchanged between the two parties, and the port to the
//! per-currency swap implementations.

use vstd::prelude::*;

use crate::crypto::Keychain;
use crate::error::ErrorKind;
use crate::types::KeyId;

verus! {

/// A secondary chain a swap can settle on.
#[derive(Clone, Copy, Debug, PartialEq, Eq, Structural)]
pub enum Currency {
    Btc,
}

/// The written tag of a currency in configuration and frames.
pub open spec fn spec_currency_tag(c: Currency) -> Seq<u8> {
    match c {
        Currency::Btc => seq![98u8, 116u8, 99u8],
    }
}

/// The currency a configuration tag names; unsupported tags name none and
/// stay unregistered.
pub fn currency_from_tag(tag: &[u8]) -> (r: Option<Currency>)
    ensures
        r == (if tag@ == spec_currency_tag(Currency::Btc) {
            Some(Currency::Btc)
        } else {
            None::<Currency>
        }),
{
    if tag.len() == 3 && tag[0] == 98 && tag[1] == 116 && tag[2] == 99 {
        proof {
            assert(tag@ =~= spec_currency_tag(Currency::Btc));
        }
        Some(Currency::Btc)
    } else {
        proof {
            if tag@.len() == 3 {
                assert(tag@ != spec_currency_tag(Currency::Btc));
            }
        }
        None
    }
}

/// Which side of the swap this wallet plays.
#[derive(Clone, Copy, Debug, PartialEq, Eq, Structural)]
pub enum Role {
    Buyer,
    Seller,
}

/// Where a swap stands in its protocol.
#[derive(Clone, Copy, Debug, PartialEq, Eq, Structural)]
pub enum Status {
    Created,
    Offered,
    Accepted,
    Locked,
    InitRedeem,
    Redeem,
    RedeemSecondary,
    Completed,
    Refunded,
    Cancelled,
}

/// The next required step the swap engine reports for a swap.
#[derive(Clone, Debug)]
pub enum Action {
    /// Nothing to do.
    NoAction,
    /// Build and send the message numbered here.
    SendMessage(u64),
    /// Wait for the peer's next message.
    ReceiveMessage,
    /// Broadcast the primary-chain transaction.
    PublishTx,
    /// Broadcast the secondary-chain transaction.
    PublishTxSecondary,
    /// Wait for a deposit on the secondary chain.
    DepositSecondary { amount: u64, address: Vec<u8> },
    /// Wait for primary-chain confirmations.
    Confirmations { required: u64, actual: u64 },
    /// Wait for secondary-chain confirmations.
    ConfirmationsSecondary { required: u64, actual: u64 },
    /// Wait for the redeem transaction to confirm.
    ConfirmationRedeem,
    /// Wait for the secondary redeem at this address to confirm.
    ConfirmationRedeemSecondary(Vec<u8>),
    /// Wind the completed swap down.
    Complete,
    /// Cancel the swap.
    Cancel,
    /// Refund the swap.
    Refund,
}

impl Action {
    /// Whether this action asks for no local work: the loop stops and
    /// waits for an external event.
    pub open spec fn spec_is_waiting(&self) -> bool {
        match self {
            Action::NoAction => true,
            Action::ReceiveMessage => true,
            Action::DepositSecondary { .. } => true,
            Action::Confirmations { .. } => true,
            Action::ConfirmationsSecondary { .. } => true,
            Action::ConfirmationRedeem => true,
            Action::ConfirmationRedeemSecondary(_) => true,
            _ => false,
        }
    }

    /// Whether this action asks for no local work.
    pub fn is_waiting(&self) -> (r: bool)
        ensures
            r == self.spec_is_waiting(),
    {
        match self {
            Action::NoAction => true,
            Action::ReceiveMessage => true,
            Action::DepositSecondary { .. } => true,
            Action::Confirmations { .. } => true,
            Action::ConfirmationsSecondary { .. } => true,
            Action::ConfirmationRedeem => true,
            Action::ConfirmationRedeemSecondary(_) => true,
            _ => false,
        }
    }
}

/// An atomic cross-chain exchange in progress.
#[derive(Clone, Debug)]
pub struct Swap {
    /// The swap's unique id, as plain text.
    pub id: Vec<u8>,
    /// The wallet-local sequence number.
    pub idx: u32,
    /// Which side this wallet plays.
    pub role: Role,
    /// Where the swap stands.
    pub status: Status,
    /// The primary-chain amount, in base units.
    pub primary_amount: u64,
    /// The secondary-chain amount, in its base units.
    pub secondary_amount: u64,
    /// The secondary chain.
    pub secondary_currency: Currency,
    /// The peer's address, when one is recorded.
    pub address: Option<Vec<u8>>,
    /// The redeemed coin of a completed buy: value and commitment.
    pub redeem_output: Option<(u64, Vec<u8>)>,
}

impl Swap {
    /// Whether this wallet sells the primary asset.
    pub fn is_seller(&self) -> (r: bool)
        ensures
            r == (self.role == Role::Seller),
    {
        match self.role {
            Role::Seller => true,
            Role::Buyer => false,
        }
    }

    /// Whether the swap has reached a terminal status.
    pub fn is_finalized(&self) -> (r: bool)
        ensures
            r == (self.status == Status::Completed || self.status == Status::Refunded
                || self.status == Status::Cancelled),
    {
        match self.status {
            Status::Completed => true,
            Status::Refunded => true,
            Status::Cancelled => true,
            _ => false,
        }
    }
}

/// The buyer's secret material for one swap: the key path its redeemed
/// output hangs under.
#[derive(Clone, Debug)]
pub struct BuyerContext {
    pub output: KeyId,
}

/// The seller's secret material for one swap: the inputs it locked.
#[derive(Clone, Debug)]
pub struct SellerContext {
    pub inputs: Vec<(KeyId, u64)>,
}

/// The role-specific half of a swap's secret context.
#[derive(Clone, Debug)]
pub enum RoleContext {
    Buyer(BuyerContext),
    Seller(SellerContext),
}

/// Per-swap secret material, never transmitted, loaded for one operation
/// and dropped.
#[derive(Clone, Debug)]
pub struct Context {
    pub role_context: RoleContext,
}

impl Context {
    /// The buyer half of the context; fails on a seller context.
    pub fn unwrap_buyer(&self) -> (r: Result<&BuyerContext, ErrorKind>)
        ensures
            match r {
                Ok(b) => self.role_context matches RoleContext::Buyer(c) && *b == c,
                Err(e) => e == ErrorKind::NotFound && self.role_context matches RoleContext::Seller(
                    _,
                ),
            },
    {
        match &self.role_context {
            RoleContext::Buyer(b) => Ok(b),
            RoleContext::Seller(_) => Err(ErrorKind::NotFound),
        }
    }
}

/// The terms of a proposed swap.
#[derive(Clone, Debug)]
pub struct OfferUpdate {
    pub secondary_currency: Currency,
    pub primary_amount: u64,
    pub secondary_amount: u64,
}

/// The secondary-chain half of a message.
#[derive(Clone, Debug)]
pub enum SecondaryUpdate {
    Empty,
    Btc(Vec<u8>),
}

/// What a swap message carries.
#[derive(Clone, Debug)]
pub enum Update {
    NoUpdate,
    Offer(OfferUpdate),
    AcceptOffer,
    InitRedeem,
    Redeem,
}

/// The mathematical shape of an offer.
#[verifier::ext_equal]
pub struct OfferModel {
    pub secondary_currency: Currency,
    pub primary_amount: u64,
    pub secondary_amount: u64,
}

impl View for OfferUpdate {
    type V = OfferModel;

    open spec fn view(&self) -> OfferModel {
        OfferModel {
            secondary_currency: self.secondary_currency,
            primary_amount: self.primary_amount,
            secondary_amount: self.secondary_amount,
        }
    }
}

/// The mathematical shape of a secondary-chain update.
#[verifier::ext_equal]
pub enum SecondaryUpdateModel {
    Empty,
    Btc(Seq<u8>),
}

impl View for SecondaryUpdate {
    type V = SecondaryUpdateModel;

    open spec fn view(&self) -> SecondaryUpdateModel {
        match self {
            SecondaryUpdate::Empty => SecondaryUpdateModel::Empty,
            SecondaryUpdate::Btc(d) => SecondaryUpdateModel::Btc(d@),
        }
    }
}

/// The mathematical shape of an update.
#[verifier::ext_equal]
pub enum UpdateModel {
    NoUpdate,
    Offer(OfferModel),
    AcceptOffer,
    InitRedeem,
    Redeem,
}

impl View for Update {
    type V = UpdateModel;

    open spec fn view(&self) -> UpdateModel {
        match self {
            Update::NoUpdate => UpdateModel::NoUpdate,
            Update::Offer(o) => UpdateModel::Offer(o@),
            Update::AcceptOffer => UpdateModel::AcceptOffer,
            Update::InitRedeem => UpdateModel::InitRedeem,
            Update::Redeem => UpdateModel::Redeem,
        }
    }
}

/// The mathematical shape of a swap message.
#[verifier::ext_equal]
pub struct MessageModel {
    pub id: Seq<u8>,
    pub inner: UpdateModel,
    pub secondary: SecondaryUpdateModel,
}

/// A message exchanged between the two parties of a swap.
#[derive(Clone, Debug)]
pub struct Message {
    /// The swap the message belongs to, as plain text.
    pub id: Vec<u8>,
    /// The protocol step it carries.
    pub inner: Update,
    /// The secondary-chain half.
    pub secondary: SecondaryUpdate,
}

impl View for Message {
    type V = MessageModel;

    open spec fn view(&self) -> MessageModel {
        MessageModel { id: self.id@, inner: self.inner@, secondary: self.secondary@ }
    }
}

impl Message {
    /// Builds a message from its parts.
    pub fn new(id: Vec<u8>, inner: Update, secondary: SecondaryUpdate) -> (r: Message)
        ensures
            r.id == id,
            r.inner == inner,
            r.secondary == secondary,
    {
        Message { id, inner, secondary }
    }

    /// Takes the message apart as an offer; fails on any other step.
    pub fn unwrap_offer(self) -> (r: Result<(Vec<u8>, OfferUpdate, SecondaryUpdate), ErrorKind>)
        ensures
            match r {
                Ok(p) => self.inner matches Update::Offer(o) && p.0 == self.id && p.1 == o && p.2
                    == self.secondary,
                Err(e) => e == ErrorKind::ProtocolError && !(self.inner matches Update::Offer(_)),
            },
    {
        match self.inner {
            Update::Offer(o) => Ok((self.id, o, self.secondary)),
            _ => Err(ErrorKind::ProtocolError),
        }
    }
}

/// A proposed swap as stored before acceptance.
#[derive(Clone, Debug)]
pub struct SwapOffer {
    pub id: Vec<u8>,
    pub idx: u32,
    pub address: Option<Vec<u8>>,
    pub offer: OfferUpdate,
    pub secondary: SecondaryUpdate,
}

impl SwapOffer {
    /// The message that carries this offer back into the protocol.
    pub fn into_message(self) -> (r: Message)
        ensures
            r.id == self.id,
            r.inner == Update::Offer(self.offer),
            r.secondary == self.secondary,
    {
        Message { id: self.id, inner: Update::Offer(self.offer), secondary: self.secondary }
    }
}

/// The sketch of a swap shown in listings.
#[derive(Clone, Debug)]
pub struct SwapSummary {
    pub id: Vec<u8>,
    pub idx: u32,
    pub role: Role,
    pub finalized: bool,
    pub status: Status,
    pub primary_amount: u64,
    pub secondary_amount: u64,
    pub secondary_currency: Currency,
}

impl SwapSummary {
    /// The sketch of a swap.
    pub fn of_swap(swap: &Swap) -> (r: SwapSummary)
        ensures
            r.id@ == swap.id@,
            r.idx == swap.idx,
            r.role == swap.role,
            r.finalized == (swap.status == Status::Completed || swap.status == Status::Refunded
                || swap.status == Status::Cancelled),
            r.status == swap.status,
            r.primary_amount == swap.primary_amount,
            r.secondary_amount == swap.secondary_amount,
            r.secondary_currency == swap.secondary_currency,
    {
        SwapSummary {
            id: crate::encoding::copy_range(swap.id.as_slice(), 0, swap.id.len()),
            idx: swap.idx,
            role: swap.role,
            finalized: swap.is_finalized(),
            status: swap.status,
            primary_amount: swap.primary_amount,
            secondary_amount: swap.secondary_amount,
            secondary_currency: swap.secondary_currency,
        }
    }
}

/// A swap named either by its id or by its wallet-local sequence number.
#[derive(Clone, Debug)]
pub enum SwapIdentifier {
    Id(Vec<u8>),
    Idx(u32),
}

/// The port to one secondary currency's swap implementation: an external
/// collaborator that computes the protocol steps. It works only while a
/// keychain is installed, and every call leaves the swap's identity
/// untouched.
pub trait SwapApi<K: Keychain + Clone>: Sized {
    /// Whether secret key material is installed right now.
    spec fn keychain_installed(&self) -> bool;

    /// Installs or removes the wallet's key material.
    fn set_keychain(&mut self, keychain: Option<K>)
        ensures
            final(self).keychain_installed() == (keychain is Some),
    ;

    /// How many derived keys a context of this currency needs.
    fn context_key_count(&mut self, secondary_currency: Currency, is_seller: bool) -> (r: Result<
        u64,
        ErrorKind,
    >)
        requires
            old(self).keychain_installed(),
        ensures
            final(self).keychain_installed(),
    ;

    /// Creates the secret context of a new swap.
    fn create_context(
        &mut self,
        secondary_currency: Currency,
        is_seller: bool,
        inputs: Option<Vec<(KeyId, u64)>>,
        keys: Vec<KeyId>,
    ) -> (r: Result<Context, ErrorKind>)
        requires
            old(self).keychain_installed(),
        ensures
            final(self).keychain_installed(),
    ;

    /// Proposes a swap to a peer.
    fn create_swap_offer(
        &mut self,
        context: &Context,
        address: Option<Vec<u8>>,
        primary_amount: u64,
        secondary_amount: u64,
        secondary_currency: Currency,
        secondary_redeem_address: Vec<u8>,
    ) -> (r: Result<(Swap, Action), ErrorKind>)
        requires
            old(self).keychain_installed(),
        ensures
            final(self).keychain_installed(),
    ;

    /// Accepts a peer's offer.
    fn accept_swap_offer(
        &mut self,
        context: &Context,
        address: Option<Vec<u8>>,
        message: Message,
    ) -> (r: Result<(Swap, Action), ErrorKind>)
        requires
            old(self).keychain_installed(),
        ensures
            final(self).keychain_installed(),
    ;

    /// Winds a completed swap down.
    fn completed(&mut self, swap: &mut Swap, context: &Context) -> (r: Result<Action, ErrorKind>)
        requires
            old(self).keychain_installed(),
        ensures
            final(self).keychain_installed(),
            final(swap).id@ == old(swap).id@,
            final(swap).role == old(swap).role,
            final(swap).redeem_output == old(swap).redeem_output,
    ;

    /// Records that a swap was refunded.
    fn refunded(&mut self, swap: &mut Swap) -> (r: Result<(), ErrorKind>)
        requires
            old(self).keychain_installed(),
        ensures
            final(self).keychain_installed(),
            final(swap).id@ == old(swap).id@,
            final(swap).role == old(swap).role,
    ;

    /// Records that a swap was cancelled.
    fn cancelled(&mut self, swap: &mut Swap) -> (r: Result<(), ErrorKind>)
        requires
            old(self).keychain_installed(),
        ensures
            final(self).keychain_installed(),
            final(swap).id@ == old(swap).id@,
            final(swap).role == old(swap).role,
    ;

    /// What the swap needs next.
    fn required_action(&mut self, swap: &mut Swap, context: &Context) -> (r: Result<
        Action,
        ErrorKind,
    >)
        requires
            old(self).keychain_installed(),
        ensures
            final(self).keychain_installed(),
            final(swap).id@ == old(swap).id@,
            final(swap).role == old(swap).role,
            final(swap).address == old(swap).address,
    ;

    /// The outbound message for the swap's current state.
    fn message(&mut self, swap: &Swap) -> (r: Result<Message, ErrorKind>)
        requires
            old(self).keychain_installed(),
        ensures
            final(self).keychain_installed(),
    ;

    /// Advances the swap after its outbound message went out.
    fn message_sent(&mut self, swap: &mut Swap, context: &Context) -> (r: Result<
        Action,
        ErrorKind,
    >)
        requires
            old(self).keychain_installed(),
        ensures
            final(self).keychain_installed(),
            final(swap).id@ == old(swap).id@,
            final(swap).role == old(swap).role,
            final(swap).address == old(swap).address,
    ;

    /// Feeds the peer's message into the swap.
    fn receive_message(&mut self, swap: &mut Swap, context: &Context, message: Message) -> (r:
        Result<Action, ErrorKind>)
        requires
            old(self).keychain_installed(),
        ensures
            final(self).keychain_installed(),
            final(swap).id@ == old(swap).id@,
            final(swap).role == old(swap).role,
            final(swap).address == old(swap).address,
    ;

    /// Broadcasts the primary-chain transaction.
    fn publish_transaction(&mut self, swap: &mut Swap, context: &Context) -> (r: Result<
        Action,
        ErrorKind,
    >)
        requires
            old(self).keychain_installed(),
        ensures
            final(self).keychain_installed(),
            final(swap).id@ == old(swap).id@,
            final(swap).role == old(swap).role,
            final(swap).address == old(swap).address,
    ;

    /// Broadcasts the secondary-chain transaction.
    fn publish_secondary_transaction(&mut self, swap: &mut Swap, context: &Context) -> (r: Result<
        Action,
        ErrorKind,
    >)
        requires
            old(self).keychain_installed(),
        ensures
            final(self).keychain_installed(),
            final(swap).id@ == old(swap).id@,
            final(swap).role == old(swap).role,
            final(swap).address == old(swap).address,
    ;
}

} // verus!
