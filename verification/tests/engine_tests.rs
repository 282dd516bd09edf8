use std::cell::{Cell, RefCell};
use std::rc::Rc;

use wallet713::address::GrinboxAddress;
use wallet713::container::{Container, Listener, ListenerInterface};
use wallet713::controller::{Controller, Publisher};
use wallet713::crypto::{Keychain, PublicKey, SecretKey, Signature, TxProof};
use wallet713::error::ErrorKind;
use wallet713::foreign::Foreign;
use wallet713::swap::SwapApis;
use wallet713::swapflow::{select_coins_from, update_swap};
use wallet713::swaptypes::{
    Action, BuyerContext, Context, Currency, Message, OfferUpdate, Role, RoleContext,
    SecondaryUpdate, SellerContext, Status, Swap, SwapApi, Update,
};
use wallet713::types::{
    BlockFees, CbData, KeyId, NodeClient, NodeVersionInfo, OutputData, OutputStatus,
    ParticipantData, Slate, SlateVersion, VersionedSlate, WalletBackend, WalletBackendBatch,
};

#[derive(Clone)]
struct TestKeychain;

impl Keychain for TestKeychain {
    fn spec_pk(_sk: vstd::seq::Seq<u8>) -> vstd::seq::Seq<u8> {
        panic!()
    }

    fn spec_shared(_sk: vstd::seq::Seq<u8>, _pk: vstd::seq::Seq<u8>) -> vstd::seq::Seq<u8> {
        panic!()
    }

    fn spec_seal(
        _key: vstd::seq::Seq<u8>,
        _nonce: vstd::seq::Seq<u8>,
        _pt: vstd::seq::Seq<u8>,
    ) -> vstd::seq::Seq<u8> {
        panic!()
    }

    fn spec_open(
        _key: vstd::seq::Seq<u8>,
        _nonce: vstd::seq::Seq<u8>,
        _ct: vstd::seq::Seq<u8>,
    ) -> Option<vstd::seq::Seq<u8>> {
        panic!()
    }

    fn spec_sign(_sk: vstd::seq::Seq<u8>, _msg: vstd::seq::Seq<u8>) -> vstd::seq::Seq<u8> {
        panic!()
    }

    fn spec_verify(
        _pk: vstd::seq::Seq<u8>,
        _msg: vstd::seq::Seq<u8>,
        _sig: vstd::seq::Seq<u8>,
    ) -> bool {
        panic!()
    }

    fn dh_symmetry(_a: vstd::seq::Seq<u8>, _b: vstd::seq::Seq<u8>) {
        panic!()
    }

    fn seal_opens(_key: vstd::seq::Seq<u8>, _nonce: vstd::seq::Seq<u8>, _pt: vstd::seq::Seq<u8>) {
        panic!()
    }

    fn open_authenticates(
        _key: vstd::seq::Seq<u8>,
        _other: vstd::seq::Seq<u8>,
        _nonce: vstd::seq::Seq<u8>,
        _pt: vstd::seq::Seq<u8>,
    ) {
        panic!()
    }

    fn verify_signed(_sk: vstd::seq::Seq<u8>, _msg: vstd::seq::Seq<u8>) {
        panic!()
    }

    fn public_key(&self, sk: &SecretKey) -> PublicKey {
        PublicKey { bytes: sk.bytes.clone() }
    }

    fn seal(&self, _sk: &SecretKey, _to: &PublicKey, pt: &[u8]) -> (Vec<u8>, Vec<u8>) {
        (vec![0u8], pt.to_vec())
    }

    fn open(&self, _sk: &SecretKey, _from: &PublicKey, _nonce: &[u8], ct: &[u8]) -> Option<Vec<u8>> {
        Some(ct.to_vec())
    }

    fn sign_challenge(&self, sk: &SecretKey, msg: &[u8]) -> Signature {
        let mut v = sk.bytes.clone();
        v.extend_from_slice(msg);
        Signature { bytes: v }
    }

    fn verify_signature(&self, pk: &PublicKey, msg: &[u8], sig: &[u8]) -> bool {
        let mut v = pk.bytes.clone();
        v.extend_from_slice(msg);
        v == sig
    }
}

struct TestClient;

impl NodeClient for TestClient {
    fn get_chain_height(&mut self) -> Result<u64, ErrorKind> {
        Ok(100)
    }

    fn get_version_info(&mut self) -> Option<NodeVersionInfo> {
        None
    }
}

#[derive(Clone, Debug, PartialEq)]
enum Op {
    SaveOutput { value: u64, commit: Option<Vec<u8>>, n_child: u32, root_depth: u8 },
    StoreSwap(Vec<u8>),
    StoreOffer(Vec<u8>),
    Mapping(u32, Vec<u8>),
    StoreCtx(Vec<u8>),
    DeleteCtx(Vec<u8>),
}

struct TestBackend {
    seed: bool,
    pending: Vec<Op>,
    committed: Rc<RefCell<Vec<Vec<Op>>>>,
    outputs: Vec<OutputData>,
    swaps: Vec<Swap>,
    offers: Vec<Vec<u8>>,
    contexts: Vec<(Vec<u8>, Context)>,
    finalized: Rc<Cell<usize>>,
    received: Rc<Cell<usize>>,
    keychain: TestKeychain,
}

impl TestBackend {
    fn new() -> TestBackend {
        TestBackend {
            seed: true,
            pending: Vec::new(),
            committed: Rc::new(RefCell::new(Vec::new())),
            outputs: Vec::new(),
            swaps: Vec::new(),
            offers: Vec::new(),
            contexts: Vec::new(),
            finalized: Rc::new(Cell::new(0)),
            received: Rc::new(Cell::new(0)),
            keychain: TestKeychain,
        }
    }
}

impl WalletBackendBatch<TestKeychain> for TestBackend {
    fn pending(&self) -> vstd::seq::Seq<wallet713::types::BatchOp> {
        panic!()
    }

    fn committed(&self) -> vstd::seq::Seq<vstd::seq::Seq<wallet713::types::BatchOp>> {
        panic!()
    }

    fn swap_idx_floor(&self) -> vstd::prelude::nat {
        panic!()
    }

    fn begin_batch(&mut self) -> Result<(), ErrorKind> {
        self.pending.clear();
        Ok(())
    }

    fn save_output(&mut self, out: &OutputData) -> Result<(), ErrorKind> {
        self.pending.push(Op::SaveOutput {
            value: out.value,
            commit: out.commit.clone(),
            n_child: out.n_child,
            root_depth: out.root_key_id.depth,
        });
        Ok(())
    }

    fn next_swap_idx(&mut self) -> Result<u32, ErrorKind> {
        Ok(1)
    }

    fn store_swap_mapping(&mut self, idx: u32, id: &[u8]) -> Result<(), ErrorKind> {
        self.pending.push(Op::Mapping(idx, id.to_vec()));
        Ok(())
    }

    fn store_swap_offer(&mut self, offer: &wallet713::swaptypes::SwapOffer) -> Result<(), ErrorKind> {
        self.pending.push(Op::StoreOffer(offer.id.clone()));
        Ok(())
    }

    fn store_swap(&mut self, swap: &Swap) -> Result<(), ErrorKind> {
        self.pending.push(Op::StoreSwap(swap.id.clone()));
        Ok(())
    }

    fn store_swap_context(&mut self, id: &[u8], _context: &Context) -> Result<(), ErrorKind> {
        self.pending.push(Op::StoreCtx(id.to_vec()));
        Ok(())
    }

    fn delete_swap_context(&mut self, id: &[u8]) -> Result<(), ErrorKind> {
        self.pending.push(Op::DeleteCtx(id.to_vec()));
        Ok(())
    }

    fn commit(&mut self) -> Result<(), ErrorKind> {
        let batch = self.pending.clone();
        for op in &batch {
            if let Op::StoreOffer(id) = op {
                self.offers.push(id.clone());
            }
        }
        self.committed.borrow_mut().push(batch);
        self.pending.clear();
        Ok(())
    }
}

impl WalletBackend<TestClient, TestKeychain> for TestBackend {
    fn finalized(&self) -> vstd::seq::Seq<wallet713::types::SlateModel> {
        panic!()
    }

    fn received(&self) -> vstd::seq::Seq<wallet713::types::SlateModel> {
        panic!()
    }

    fn ledger_outputs(&self) -> vstd::seq::Seq<wallet713::types::OutputModel> {
        panic!()
    }

    fn parent_key(&self) -> wallet713::types::KeyIdModel {
        panic!()
    }

    fn has_seed(&self) -> Result<bool, ErrorKind> {
        Ok(self.seed)
    }

    fn connected(&self) -> Result<bool, ErrorKind> {
        Ok(true)
    }

    fn open_with_credentials(&mut self) -> Result<(), ErrorKind> {
        Ok(())
    }

    fn close(&mut self) -> Result<(), ErrorKind> {
        Ok(())
    }

    fn keychain(&self) -> &TestKeychain {
        &self.keychain
    }

    fn get_parent_key_id(&self) -> KeyId {
        KeyId { depth: 2, path: vec![1, 0, 0, 0] }
    }

    fn chain_height(&mut self) -> Result<u64, ErrorKind> {
        Ok(100)
    }

    fn node_version_info(&mut self) -> Option<NodeVersionInfo> {
        None
    }

    fn outputs(&self) -> Result<Vec<OutputData>, ErrorKind> {
        Ok(self.outputs.clone())
    }

    fn get_swap(&self, id: &[u8]) -> Result<Option<Swap>, ErrorKind> {
        for s in &self.swaps {
            if s.id == id {
                return Ok(Some(s.clone()));
            }
        }
        Ok(None)
    }

    fn get_swap_offer(
        &self,
        id: &[u8],
    ) -> Result<Option<wallet713::swaptypes::SwapOffer>, ErrorKind> {
        for oid in &self.offers {
            if oid == id {
                return Ok(Some(wallet713::swaptypes::SwapOffer {
                    id: oid.clone(),
                    idx: 1,
                    address: None,
                    offer: OfferUpdate {
                        secondary_currency: Currency::Btc,
                        primary_amount: 1,
                        secondary_amount: 1,
                    },
                    secondary: SecondaryUpdate::Empty,
                }));
            }
        }
        Ok(None)
    }

    fn get_swap_context(&self, id: &[u8]) -> Result<Context, ErrorKind> {
        for (cid, ctx) in &self.contexts {
            if cid == id {
                return Ok(ctx.clone());
            }
        }
        Err(ErrorKind::NotFound)
    }

    fn build_coinbase(&mut self, _block_fees: &BlockFees) -> Result<CbData, ErrorKind> {
        Ok(CbData { output: vec![1], kernel: vec![2], key_id: None })
    }

    fn receive_tx(&mut self, slate: &Slate, _address: Option<&[u8]>) -> Result<Slate, ErrorKind> {
        self.received.set(self.received.get() + 1);
        let mut out = slate.clone();
        out.participant_data.push(ParticipantData { id: out.participant_data.len() as u64 });
        Ok(out)
    }

    fn finalize_tx(&mut self, _slate: &Slate, _tx_proof: Option<&TxProof>) -> Result<(), ErrorKind> {
        self.finalized.set(self.finalized.get() + 1);
        Ok(())
    }
}

struct TestListener {
    posts: Rc<RefCell<Vec<(Vec<u8>, Vec<u8>)>>>,
}

impl Listener for TestListener {
    fn slate_posts(
        &self,
    ) -> vstd::seq::Seq<(wallet713::types::VersionedSlateModel, vstd::seq::Seq<u8>)> {
        panic!()
    }

    fn swap_posts(
        &self,
    ) -> vstd::seq::Seq<(wallet713::swaptypes::MessageModel, vstd::seq::Seq<u8>)> {
        panic!()
    }

    fn publish_slate(&mut self, _slate: &VersionedSlate, _to: &[u8]) -> Result<(), ErrorKind> {
        Ok(())
    }

    fn publish_swap_message(&mut self, message: &Message, to: &[u8]) -> Result<(), ErrorKind> {
        self.posts.borrow_mut().push((message.id.clone(), to.to_vec()));
        Ok(())
    }
}

struct TestSwapApi {
    script: Rc<RefCell<Vec<Action>>>,
    installs: Rc<Cell<usize>>,
    installed: bool,
}

impl TestSwapApi {
    fn next_action(&mut self) -> Result<Action, ErrorKind> {
        assert!(self.installed, "the keychain must be lent for the call");
        let mut s = self.script.borrow_mut();
        if s.is_empty() {
            Err(ErrorKind::SwapApiError)
        } else {
            Ok(s.remove(0))
        }
    }
}

impl SwapApi<TestKeychain> for TestSwapApi {
    fn keychain_installed(&self) -> bool {
        panic!()
    }

    fn set_keychain(&mut self, keychain: Option<TestKeychain>) {
        if keychain.is_some() {
            self.installs.set(self.installs.get() + 1);
            self.installed = true;
        } else {
            self.installed = false;
        }
    }

    fn context_key_count(&mut self, _c: Currency, _is_seller: bool) -> Result<u64, ErrorKind> {
        Ok(2)
    }

    fn create_context(
        &mut self,
        _c: Currency,
        is_seller: bool,
        _inputs: Option<Vec<(KeyId, u64)>>,
        _keys: Vec<KeyId>,
    ) -> Result<Context, ErrorKind> {
        if is_seller {
            Ok(Context { role_context: RoleContext::Seller(SellerContext { inputs: vec![] }) })
        } else {
            Ok(Context {
                role_context: RoleContext::Buyer(BuyerContext {
                    output: KeyId { depth: 3, path: vec![10, 20, 30, 0] },
                }),
            })
        }
    }

    fn create_swap_offer(
        &mut self,
        _context: &Context,
        _address: Option<Vec<u8>>,
        _primary_amount: u64,
        _secondary_amount: u64,
        _secondary_currency: Currency,
        _secondary_redeem_address: Vec<u8>,
    ) -> Result<(Swap, Action), ErrorKind> {
        Err(ErrorKind::SwapApiError)
    }

    fn accept_swap_offer(
        &mut self,
        _context: &Context,
        _address: Option<Vec<u8>>,
        _message: Message,
    ) -> Result<(Swap, Action), ErrorKind> {
        Err(ErrorKind::SwapApiError)
    }

    fn completed(&mut self, _swap: &mut Swap, _context: &Context) -> Result<Action, ErrorKind> {
        self.next_action()
    }

    fn refunded(&mut self, _swap: &mut Swap) -> Result<(), ErrorKind> {
        Ok(())
    }

    fn cancelled(&mut self, _swap: &mut Swap) -> Result<(), ErrorKind> {
        Ok(())
    }

    fn required_action(&mut self, _swap: &mut Swap, _context: &Context) -> Result<Action, ErrorKind> {
        self.next_action()
    }

    fn message(&mut self, swap: &Swap) -> Result<Message, ErrorKind> {
        assert!(self.installed);
        Ok(Message::new(swap.id.clone(), Update::InitRedeem, SecondaryUpdate::Empty))
    }

    fn message_sent(&mut self, _swap: &mut Swap, _context: &Context) -> Result<Action, ErrorKind> {
        self.next_action()
    }

    fn receive_message(
        &mut self,
        _swap: &mut Swap,
        _context: &Context,
        _message: Message,
    ) -> Result<Action, ErrorKind> {
        self.next_action()
    }

    fn publish_transaction(&mut self, _swap: &mut Swap, _context: &Context) -> Result<Action, ErrorKind> {
        self.next_action()
    }

    fn publish_secondary_transaction(
        &mut self,
        _swap: &mut Swap,
        _context: &Context,
    ) -> Result<Action, ErrorKind> {
        self.next_action()
    }
}

struct TestPublisher {
    posts: Rc<RefCell<Vec<(SlateVersion, usize, Vec<u8>)>>>,
}

impl Publisher for TestPublisher {
    fn posts(&self) -> vstd::seq::Seq<wallet713::controller::PostEvent> {
        panic!()
    }

    fn post_slate(&mut self, slate: &VersionedSlate, to: &GrinboxAddress) -> Result<(), ErrorKind> {
        self.posts.borrow_mut().push((
            slate.version,
            slate.slate.participant_data.len(),
            to.public_key.clone(),
        ));
        Ok(())
    }

    fn post_swap_message(&mut self, _message: &Message, _to: &GrinboxAddress) -> Result<(), ErrorKind> {
        Ok(())
    }
}

type TestContainer = Container<TestBackend, TestClient, TestKeychain, TestSwapApi, TestListener>;

fn peer_text() -> Vec<u8> {
    b"grinbox://peerKey@relay.example:443".to_vec()
}

fn buyer_swap() -> Swap {
    Swap {
        id: b"s1".to_vec(),
        idx: 1,
        role: Role::Buyer,
        status: Status::Redeem,
        primary_amount: 100,
        secondary_amount: 42,
        secondary_currency: Currency::Btc,
        address: Some(peer_text()),
        redeem_output: Some((55, vec![1, 2, 3])),
    }
}

fn buyer_context() -> Context {
    Context {
        role_context: RoleContext::Buyer(BuyerContext {
            output: KeyId { depth: 3, path: vec![10, 20, 30, 0] },
        }),
    }
}

fn seller_context() -> Context {
    Context { role_context: RoleContext::Seller(SellerContext { inputs: vec![] }) }
}

fn build_container(script: Vec<Action>) -> (TestContainer, Rc<RefCell<Vec<Vec<Op>>>>, Rc<Cell<usize>>, Rc<RefCell<Vec<(Vec<u8>, Vec<u8>)>>>) {
    let backend = TestBackend::new();
    let committed = backend.committed.clone();
    let mut c: TestContainer = Container::new(backend);
    let installs = Rc::new(Cell::new(0));
    let api = TestSwapApi {
        script: Rc::new(RefCell::new(script)),
        installs: installs.clone(),
        installed: false,
    };
    c.swap_apis.attach(Currency::Btc, api);
    c.swap_apis.set_keychain(Some(TestKeychain));
    let posts = Rc::new(RefCell::new(Vec::new()));
    c.set_listener(ListenerInterface::Grinbox, TestListener { posts: posts.clone() });
    (c, committed, installs, posts)
}

#[test]
fn complete_books_one_output_for_a_buyer() {
    let (mut c, committed, _installs, posts) =
        build_container(vec![Action::Complete, Action::NoAction]);
    let mut swap = buyer_swap();
    let ctx = buyer_context();
    let r = update_swap(&mut c, &mut swap, &ctx).unwrap();
    assert!(matches!(r, Action::NoAction));
    let batches = committed.borrow();
    assert_eq!(batches.len(), 1);
    assert_eq!(batches[0].len(), 2);
    match &batches[0][0] {
        Op::SaveOutput { value, commit, n_child, root_depth } => {
            assert_eq!(*value, 55);
            assert_eq!(commit.as_ref().unwrap(), &b"010203".to_vec());
            assert_eq!(*n_child, 30);
            assert_eq!(*root_depth, 2);
        },
        other => panic!("expected the redeemed output first, got {:?}", other),
    }
    assert_eq!(batches[0][1], Op::DeleteCtx(b"s1".to_vec()));
    assert!(posts.borrow().is_empty());
}

#[test]
fn complete_books_no_output_for_a_seller() {
    let (mut c, committed, _installs, _posts) =
        build_container(vec![Action::Complete, Action::NoAction]);
    let mut swap = buyer_swap();
    swap.role = Role::Seller;
    let ctx = seller_context();
    let r = update_swap(&mut c, &mut swap, &ctx).unwrap();
    assert!(matches!(r, Action::NoAction));
    let batches = committed.borrow();
    assert_eq!(batches.len(), 1);
    assert_eq!(batches[0], vec![Op::DeleteCtx(b"s1".to_vec())]);
}

#[test]
fn waiting_actions_come_back_untouched() {
    let waits = vec![
        Action::NoAction,
        Action::ReceiveMessage,
        Action::ConfirmationRedeem,
        Action::Confirmations { required: 10, actual: 3 },
    ];
    for start in waits {
        let (mut c, committed, _installs, posts) = build_container(vec![start.clone()]);
        let mut swap = buyer_swap();
        let ctx = buyer_context();
        let r = update_swap(&mut c, &mut swap, &ctx).unwrap();
        match (&r, &start) {
            (Action::NoAction, Action::NoAction) => {},
            (Action::ReceiveMessage, Action::ReceiveMessage) => {},
            (Action::ConfirmationRedeem, Action::ConfirmationRedeem) => {},
            (
                Action::Confirmations { required: a, actual: b },
                Action::Confirmations { required: c2, actual: d },
            ) => {
                assert_eq!(a, c2);
                assert_eq!(b, d);
            },
            _ => panic!("the waiting action changed"),
        }
        assert!(committed.borrow().is_empty());
        assert!(posts.borrow().is_empty());
    }
}

#[test]
fn send_message_publishes_then_advances() {
    let (mut c, committed, _installs, posts) =
        build_container(vec![Action::SendMessage(1), Action::ReceiveMessage]);
    let mut swap = buyer_swap();
    let ctx = buyer_context();
    let r = update_swap(&mut c, &mut swap, &ctx).unwrap();
    assert!(matches!(r, Action::ReceiveMessage));
    let log = posts.borrow();
    assert_eq!(log.len(), 1);
    assert_eq!(log[0].0, b"s1".to_vec());
    assert_eq!(log[0].1, peer_text());
    assert!(committed.borrow().is_empty());
}

#[test]
fn unparsable_peer_address_aborts_before_the_engine() {
    let (mut c, committed, _installs, posts) = build_container(vec![Action::SendMessage(1)]);
    let mut swap = buyer_swap();
    swap.address = Some(b"not an address".to_vec());
    let ctx = buyer_context();
    let r = update_swap(&mut c, &mut swap, &ctx);
    assert_eq!(r.err(), Some(ErrorKind::AddressParseError));
    assert!(committed.borrow().is_empty());
    assert!(posts.borrow().is_empty());
}

#[test]
fn send_message_without_peer_address_exits_quietly() {
    let (mut c, _committed, _installs, posts) = build_container(vec![Action::SendMessage(1)]);
    let mut swap = buyer_swap();
    swap.address = None;
    let ctx = buyer_context();
    let r = update_swap(&mut c, &mut swap, &ctx).unwrap();
    assert!(matches!(r, Action::SendMessage(1)));
    assert!(posts.borrow().is_empty());
}

#[test]
fn unregistered_currency_fails_without_any_install() {
    let mut apis: SwapApis<TestKeychain, TestSwapApi> = SwapApis::new();
    apis.set_keychain(Some(TestKeychain));
    let swap = buyer_swap();
    let r = apis.message(&swap);
    assert_eq!(r.err(), Some(ErrorKind::ApiNotFound));
    let mut swap2 = buyer_swap();
    let ctx = buyer_context();
    let r2 = apis.required_action(&mut swap2, &ctx);
    assert_eq!(r2.err(), Some(ErrorKind::ApiNotFound));
}

#[test]
fn missing_keychain_fails_without_any_install() {
    let installs = Rc::new(Cell::new(0));
    let mut apis: SwapApis<TestKeychain, TestSwapApi> = SwapApis::new();
    apis.attach(
        Currency::Btc,
        TestSwapApi {
            script: Rc::new(RefCell::new(vec![Action::NoAction])),
            installs: installs.clone(),
            installed: false,
        },
    );
    let mut swap = buyer_swap();
    let ctx = buyer_context();
    let r = apis.required_action(&mut swap, &ctx);
    assert_eq!(r.err(), Some(ErrorKind::MissingKeychain));
    assert_eq!(installs.get(), 0);
}

fn coin(value: u64, status: OutputStatus) -> OutputData {
    OutputData {
        root_key_id: KeyId { depth: 2, path: vec![1, 0, 0, 0] },
        key_id: KeyId { depth: 3, path: vec![1, 0, 9, 0] },
        n_child: 9,
        commit: None,
        mmr_index: None,
        value,
        status,
        height: 5,
        lock_height: 0,
        is_coinbase: false,
        tx_log_entry: None,
    }
}

#[test]
fn coin_selection_takes_the_shortest_covering_prefix() {
    let parent = KeyId { depth: 2, path: vec![1, 0, 0, 0] };
    let outputs = vec![
        coin(10, OutputStatus::Unspent),
        coin(20, OutputStatus::Spent),
        coin(30, OutputStatus::Unspent),
        coin(40, OutputStatus::Unspent),
    ];
    let coins = select_coins_from(&outputs, &parent, 35).unwrap();
    assert_eq!(coins.len(), 2);
    assert_eq!(coins[0].value, 10);
    assert_eq!(coins[1].value, 30);
}

#[test]
fn coin_selection_reports_the_shortfall() {
    let parent = KeyId { depth: 2, path: vec![1, 0, 0, 0] };
    let outputs = vec![coin(10, OutputStatus::Unspent), coin(5, OutputStatus::Locked)];
    let r = select_coins_from(&outputs, &parent, 35);
    assert_eq!(
        r.err(),
        Some(ErrorKind::NotEnoughFunds { available: 10, needed: 35 })
    );
}

fn inbound_slate(num_participants: u64, signed: usize, inputs: u64) -> VersionedSlate {
    let mut pd = Vec::new();
    let mut i = 0usize;
    while i < signed {
        pd.push(ParticipantData { id: i as u64 });
        i += 1;
    }
    VersionedSlate {
        version: SlateVersion::V1,
        slate: Slate {
            id: b"tx9".to_vec(),
            num_participants,
            participant_data: pd,
            input_count: inputs,
            amount: 12,
        },
    }
}

fn peer() -> GrinboxAddress {
    GrinboxAddress::new(b"peerKey".to_vec(), b"relay.example".to_vec(), Some(443)).unwrap()
}

#[test]
fn half_signed_slate_is_received_and_republished_once() {
    let (c, committed, _installs, _posts) = build_container(vec![]);
    let posts = Rc::new(RefCell::new(Vec::new()));
    let finalized = c.backend.finalized.clone();
    let mut controller = Controller::new(
        b"listener".to_vec(),
        c,
        TestPublisher { posts: posts.clone() },
    );
    controller.handle_slate(&peer(), &inbound_slate(2, 1, 1), None);
    let log = posts.borrow();
    assert_eq!(log.len(), 1);
    // The response keeps the inbound version and carries one more entry.
    assert_eq!(log[0].0, SlateVersion::V1);
    assert_eq!(log[0].1, 2);
    assert_eq!(log[0].2, b"peerKey".to_vec());
    assert_eq!(finalized.get(), 0);
    assert!(committed.borrow().is_empty());
}

#[test]
fn fully_signed_slate_is_finalized_and_not_republished() {
    let (c, _committed, _installs, _posts) = build_container(vec![]);
    let posts = Rc::new(RefCell::new(Vec::new()));
    let finalized = c.backend.finalized.clone();
    let mut controller = Controller::new(
        b"listener".to_vec(),
        c,
        TestPublisher { posts: posts.clone() },
    );
    controller.handle_slate(&peer(), &inbound_slate(2, 2, 1), None);
    assert!(posts.borrow().is_empty());
    assert_eq!(finalized.get(), 1);
}

#[test]
fn zero_input_slate_takes_no_action() {
    let (c, _committed, _installs, _posts) = build_container(vec![]);
    let posts = Rc::new(RefCell::new(Vec::new()));
    let finalized = c.backend.finalized.clone();
    let received = c.backend.received.clone();
    let mut controller = Controller::new(
        b"listener".to_vec(),
        c,
        TestPublisher { posts: posts.clone() },
    );
    controller.handle_slate(&peer(), &inbound_slate(2, 1, 0), None);
    assert!(posts.borrow().is_empty());
    assert_eq!(finalized.get(), 0);
    assert_eq!(received.get(), 0);
}

fn offer_message(id: &[u8]) -> Message {
    Message::new(
        id.to_vec(),
        Update::Offer(OfferUpdate {
            secondary_currency: Currency::Btc,
            primary_amount: 100,
            secondary_amount: 42,
        }),
        SecondaryUpdate::Empty,
    )
}

#[test]
fn inbound_offer_is_recorded_once() {
    let (mut c, committed, _installs, _posts) = build_container(vec![]);
    let foreign = Foreign::new();
    let r = foreign.receive_swap_message(&mut c, Some(peer_text()), offer_message(b"sw7"));
    assert!(r.is_ok());
    {
        let batches = committed.borrow();
        assert_eq!(batches.len(), 1);
        assert_eq!(
            batches[0],
            vec![Op::Mapping(1, b"sw7".to_vec()), Op::StoreOffer(b"sw7".to_vec())]
        );
    }
    // The same offer again is refused before any write.
    let again = foreign.receive_swap_message(&mut c, Some(peer_text()), offer_message(b"sw7"));
    assert_eq!(again.err(), Some(ErrorKind::SwapExists));
    assert_eq!(committed.borrow().len(), 1);
}

#[test]
fn swap_message_for_an_unknown_swap_is_refused() {
    let (mut c, committed, _installs, _posts) = build_container(vec![]);
    let foreign = Foreign::new();
    let m = Message::new(b"nope".to_vec(), Update::InitRedeem, SecondaryUpdate::Empty);
    let r = foreign.receive_swap_message(&mut c, None, m);
    assert_eq!(r.err(), Some(ErrorKind::NotFound));
    assert!(committed.borrow().is_empty());
}

#[test]
fn wallet_without_seed_refuses_swap_messages() {
    let (mut c, _committed, _installs, _posts) = build_container(vec![]);
    c.backend.seed = false;
    let foreign = Foreign::new();
    let r = foreign.receive_swap_message(&mut c, None, offer_message(b"sw8"));
    assert_eq!(r.err(), Some(ErrorKind::NoSeed));
}

#[test]
fn swap_message_advances_a_known_swap() {
    let (mut c, committed, _installs, posts) = build_container(vec![
        // The first engine pass waits, the inbound message asks us to
        // publish, and the second pass waits again.
        Action::ReceiveMessage,
        Action::NoAction,
        Action::NoAction,
    ]);
    c.backend.swaps.push(buyer_swap());
    c.backend.contexts.push((b"s1".to_vec(), buyer_context()));
    let foreign = Foreign::new();
    let m = Message::new(b"s1".to_vec(), Update::InitRedeem, SecondaryUpdate::Empty);
    let r = foreign.receive_swap_message(&mut c, Some(peer_text()), m);
    assert!(r.is_ok());
    let batches = committed.borrow();
    assert_eq!(batches.len(), 1);
    assert_eq!(batches[0], vec![Op::StoreSwap(b"s1".to_vec())]);
    assert!(posts.borrow().is_empty());
}
