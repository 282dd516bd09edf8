//! The swap engine's pump: coin selection for a new swap, and the action
//! loop that repeatedly asks the per-currency implementation what a swap
//! needs next and performs exactly one local side effect, until the swap
//! waits for an external event.

use vstd::prelude::*;

use crate::address::{parse_address, Address, AddressType};
use crate::container::{Container, ListenerInterface, Listener};
use crate::crypto::Keychain;
use crate::encoding::{hex_of, to_hex};
use crate::error::ErrorKind;
use crate::swaptypes::{Action, Context, MessageModel, Role, RoleContext, Swap, SwapApi};
use crate::types::{
    BatchOp, KeyId, KeyIdModel, NodeClient, OutputData, OutputModel, OutputStatus, WalletBackend,
    WalletBackendBatch,
};

verus! {

/// Whether an output can fund a new swap: unspent, under the active
/// account's parent key.
pub open spec fn spec_eligible(o: OutputModel, parent: KeyIdModel) -> bool {
    o.status == OutputStatus::Unspent && o.root_key_id == parent
}

/// The total value of a run of outputs.
pub open spec fn spec_sum(s: Seq<OutputModel>) -> int
    decreases s.len(),
{
    if s.len() == 0 {
        0
    } else {
        spec_sum(s.drop_last()) + s.last().value
    }
}

/// The eligible outputs of a ledger listing, in order.
pub open spec fn spec_eligible_of(s: Seq<OutputModel>, parent: KeyIdModel) -> Seq<OutputModel> {
    s.filter(|o: OutputModel| spec_eligible(o, parent))
}

/// Whether two key paths are the same.
pub fn key_id_eq(a: &KeyId, b: &KeyId) -> (r: bool)
    ensures
        r == (a@ == b@),
{
    if a.depth != b.depth {
        proof {
            assert(a@ != b@);
        }
        return false;
    }
    if a.path.len() != b.path.len() {
        return false;
    }
    let mut i: usize = 0;
    while i < a.path.len()
        invariant
            i <= a.path@.len(),
            a.path@.len() == b.path@.len(),
            forall|j: int| 0 <= j < i ==> a.path@[j] == b.path@[j],
        decreases a.path@.len() - i,
    {
        if a.path[i] != b.path[i] {
            return false;
        }
        i = i + 1;
    }
    proof {
        assert(a.path@ =~= b.path@);
        assert(a@ =~= b@);
    }
    true
}

/// Picks the shortest prefix of the eligible outputs whose total covers
/// `needed`, walking them in ledger order. Fails with `NotEnoughFunds`,
/// naming the whole eligible total, when even all of them fall short.
#[verifier::loop_isolation(false)]
pub fn select_coins_from(outputs: &Vec<OutputData>, parent: &KeyId, needed: u64) -> (r: Result<
    Vec<OutputData>,
    ErrorKind,
>)
    ensures
        ({
            let elig = spec_eligible_of(outputs@.map_values(|o: OutputData| o@), parent@);
            match r {
                Ok(coins) => {
                    let k = coins@.len() as int;
                    &&& k <= elig.len()
                    &&& coins@.map_values(|o: OutputData| o@) == elig.take(k)
                    &&& spec_sum(elig.take(k)) >= needed
                    &&& (k > 0 ==> spec_sum(elig.take(k - 1)) < needed)
                    &&& (k == 0 ==> needed == 0)
                },
                Err(e) => e == (ErrorKind::NotEnoughFunds {
                    available: spec_sum(elig) as u64,
                    needed,
                }) && spec_sum(elig) < needed,
            }
        }),
{
    let ghost views = outputs@.map_values(|o: OutputData| o@);
    let ghost elig = spec_eligible_of(views, parent@);
    if needed == 0 {
        let coins: Vec<OutputData> = Vec::new();
        proof {
            assert(elig.take(0) =~= Seq::<OutputModel>::empty());
            assert(coins@.map_values(|o: OutputData| o@) =~= elig.take(0));
        }
        return Ok(coins);
    }
    let mut coins: Vec<OutputData> = Vec::new();
    let mut total: u128 = 0;
    let mut i: usize = 0;
    proof {
        assert(views.take(0) =~= Seq::<OutputModel>::empty());
        assert(views.take(0).filter(|o: OutputModel| spec_eligible(o, parent@))
            =~= Seq::<OutputModel>::empty());
    }
    while i < outputs.len()
        invariant
            i <= outputs@.len(),
            coins@.map_values(|o: OutputData| o@) == views.take(i as int).filter(
                |o: OutputModel| spec_eligible(o, parent@),
            ),
            total == spec_sum(
                views.take(i as int).filter(|o: OutputModel| spec_eligible(o, parent@)),
            ),
            total < needed,
        decreases outputs@.len() - i,
    {
        let o = &outputs[i];
        let is_unspent = match o.status {
            OutputStatus::Unspent => true,
            _ => false,
        };
        let ghost pre = views.take(i as int).filter(|o: OutputModel| spec_eligible(o, parent@));
        proof {
            assert(views.take(i + 1 as int) =~= views.take(i as int).push(views[i as int]));
            lemma_filter_push(
                views.take(i as int),
                views[i as int],
                |o: OutputModel| spec_eligible(o, parent@),
            );
        }
        if is_unspent && key_id_eq(&o.root_key_id, parent) {
            let ghost coinsp = coins@;
            coins.push(o.duplicate());
            total = total + o.value as u128;
            proof {
                let post = views.take(i + 1 as int).filter(
                    |o: OutputModel| spec_eligible(o, parent@),
                );
                assert(post =~= pre.push(views[i as int]));
                assert(post.drop_last() =~= pre);
                assert(coins@.map_values(|o: OutputData| o@) =~= coinsp.map_values(
                    |o: OutputData| o@,
                ).push(outputs@[i as int]@));
            }
            if total >= needed as u128 {
                proof {
                    let k = coins@.len() as int;
                    lemma_filter_prefix_of(views, i + 1, |o: OutputModel| spec_eligible(o, parent@));
                    lemma_filter_prefix_of(views, i as int, |o: OutputModel| spec_eligible(o, parent@));
                    assert(elig.take(k) =~= views.take(i + 1 as int).filter(
                        |o: OutputModel| spec_eligible(o, parent@),
                    ));
                    assert(elig.take(k - 1) =~= pre);
                }
                return Ok(coins);
            }
        } else {
            proof {
                assert(views.take(i + 1 as int).filter(|o: OutputModel| spec_eligible(o, parent@))
                    =~= pre);
            }
        }
        i = i + 1;
    }
    proof {
        assert(views.take(views.len() as int) =~= views);
        assert(spec_sum(elig) < needed);
    }
    Err(ErrorKind::NotEnoughFunds { available: total as u64, needed })
}

/// A total of outputs is never negative.
proof fn lemma_sum_nonneg(s: Seq<OutputModel>)
    ensures
        spec_sum(s) >= 0,
    decreases s.len(),
{
    if s.len() > 0 {
        lemma_sum_nonneg(s.drop_last());
    }
}

/// Filtering after appending one element appends it when it matches.
proof fn lemma_filter_push(s: Seq<OutputModel>, x: OutputModel, pred: spec_fn(OutputModel) -> bool)
    ensures
        s.push(x).filter(pred) == (if pred(x) {
            s.filter(pred).push(x)
        } else {
            s.filter(pred)
        }),
{
    reveal(Seq::filter);
    assert(s.push(x).drop_last() =~= s);
    assert(s.push(x).last() == x);
}

/// A filtered prefix is a prefix of the filtered whole.
proof fn lemma_filter_prefix_of(
    s: Seq<OutputModel>,
    n: int,
    pred: spec_fn(OutputModel) -> bool,
)
    requires
        0 <= n <= s.len(),
    ensures
        s.take(n).filter(pred).len() <= s.filter(pred).len(),
        s.filter(pred).take(s.take(n).filter(pred).len() as int) == s.take(n).filter(pred),
    decreases s.len() - n,
{
    if n == s.len() {
        assert(s.take(n) =~= s);
        assert(s.filter(pred).take(s.filter(pred).len() as int) =~= s.filter(pred));
    } else {
        lemma_filter_prefix_of(s, n + 1, pred);
        assert(s.take(n + 1) =~= s.take(n).push(s[n]));
        lemma_filter_push(s.take(n), s[n], pred);
        let m = s.take(n).filter(pred).len() as int;
        if pred(s[n]) {
            assert(s.take(n + 1).filter(pred) == s.take(n).filter(pred).push(s[n]));
            assert(s.take(n + 1).filter(pred).len() == m + 1);
            assert(s.filter(pred).take(m + 1) == s.take(n).filter(pred).push(s[n]));
            assert forall|t: int| 0 <= t < m implies s.filter(pred).take(m)[t] == s.take(
                n,
            ).filter(pred)[t] by {
                assert(s.filter(pred).take(m + 1)[t] == s.take(n).filter(pred).push(s[n])[t]);
            }
            assert(s.filter(pred).take(m) =~= s.take(n).filter(pred));
        } else {
            assert(s.take(n + 1).filter(pred) == s.take(n).filter(pred));
        }
    }
}

/// Selects coins to fund `needed` base units: reads the active account's
/// parent key, requires the chain to answer, and picks the shortest
/// covering prefix of the account's eligible outputs. Fails with the exact
/// eligible total when even all of them fall short, and with a storage
/// failure when the chain or the ledger does not answer.
pub fn select_coins<W, C, K>(wallet: &mut W, needed: u64) -> (r: Result<Vec<OutputData>, ErrorKind>)
    where
        W: WalletBackend<C, K>,
        C: NodeClient,
        K: Keychain + Clone,
    ensures
        final(wallet).committed() == old(wallet).committed(),
        final(wallet).pending() == old(wallet).pending(),
        final(wallet).finalized() == old(wallet).finalized(),
        final(wallet).received() == old(wallet).received(),
        final(wallet).ledger_outputs() == old(wallet).ledger_outputs(),
        final(wallet).parent_key() == old(wallet).parent_key(),
        ({
            let elig = spec_eligible_of(old(wallet).ledger_outputs(), old(wallet).parent_key());
            match r {
                Ok(coins) => {
                    let k = coins@.len() as int;
                    &&& k <= elig.len()
                    &&& coins@.map_values(|o: OutputData| o@) == elig.take(k)
                    &&& spec_sum(elig.take(k)) >= needed
                    &&& (k > 0 ==> spec_sum(elig.take(k - 1)) < needed)
                    &&& (k == 0 ==> needed == 0)
                },
                Err(e) => e == ErrorKind::StorageError || (e == (ErrorKind::NotEnoughFunds {
                    available: spec_sum(elig) as u64,
                    needed,
                }) && spec_sum(elig) < needed),
            }
        }),
{
    let parent = wallet.get_parent_key_id();
    match wallet.chain_height() {
        Ok(_) => {},
        Err(_) => {
            return Err(ErrorKind::StorageError);
        },
    }
    let outputs = match wallet.outputs() {
        Ok(o) => o,
        Err(_) => {
            return Err(ErrorKind::StorageError);
        },
    };
    let coins = match select_coins_from(&outputs, &parent, needed) {
        Ok(c) => c,
        Err(e) => {
            proof {
                lemma_sum_nonneg(
                    spec_eligible_of(outputs@.map_values(|o: OutputData| o@), parent@),
                );
            }
            return Err(e);
        },
    };
    Ok(coins)
}

/// The output record a completed buy books for its redeemed coin: hung
/// under the buyer context's key path, unconfirmed, carrying the redeem
/// commitment in hexadecimal.
pub open spec fn spec_redeem_record(key: KeyIdModel, value: u64, commit: Seq<u8>) -> OutputModel {
    OutputModel {
        root_key_id: KeyIdModel {
            depth: (key.depth - 1) as u8,
            path: key.path.update(key.depth - 1, 0u32),
        },
        key_id: key,
        n_child: key.path[key.depth - 1],
        commit: Some(hex_of(commit)),
        mmr_index: None,
        value: value,
        status: OutputStatus::Unconfirmed,
        height: 0,
        lock_height: 0,
        is_coinbase: false,
        tx_log_entry: None,
    }
}

/// Winds a completed swap down: tells the engine, and persists the outcome
/// in one atomic batch. A buyer books exactly one new output record for
/// the redeemed coin; a seller books none; both delete the swap's secret
/// context. Returns the engine's next action, or nothing when the engine,
/// the context or the redeem output was not usable; a storage failure
/// propagates with nothing committed.
pub fn complete_swap<W, C, K, A, L>(
    c: &mut Container<W, C, K, A, L>,
    swap: &mut Swap,
    context: &Context,
) -> (r: Result<Option<Action>, ErrorKind>)
    where
        W: WalletBackend<C, K>,
        C: NodeClient,
        K: Keychain + Clone,
        A: SwapApi<K>,
        L: Listener,
    requires
        old(c).swap_apis.wf(),
    ensures
        final(c).swap_apis.wf(),
        final(c).swap_apis.spec_currencies() == old(c).swap_apis.spec_currencies(),
        final(c).swap_apis.spec_keychain_set() == old(c).swap_apis.spec_keychain_set(),
        final(c).listeners == old(c).listeners,
        final(swap).id@ == old(swap).id@,
        final(swap).role == old(swap).role,
        r matches Ok(Some(_)) ==> (if old(swap).role == Role::Buyer {
            &&& context.role_context matches RoleContext::Buyer(b) && old(swap).redeem_output matches Some(ro) && final(c).backend.committed() == old(c).backend.committed().push(
                seq![
                    BatchOp::SaveOutput { out: spec_redeem_record(b.output@, ro.0, ro.1@) },
                    BatchOp::DeleteSwapContext { id: old(swap).id@ },
                ],
            )
        } else {
            final(c).backend.committed() == old(c).backend.committed().push(
                seq![BatchOp::DeleteSwapContext { id: old(swap).id@ }],
            )
        }),
        !(r matches Ok(Some(_))) ==> final(c).backend.committed() == old(c).backend.committed(),
{
    let next = match c.swap_apis.completed(swap, context) {
        Ok(a) => a,
        Err(_) => {
            return Ok(None);
        },
    };
    match c.backend.connected() {
        Ok(true) => {},
        Ok(false) => {
            return Err(ErrorKind::NoBackend);
        },
        Err(_) => {
            return Err(ErrorKind::StorageError);
        },
    }
    match c.backend.begin_batch() {
        Ok(_) => {},
        Err(e) => {
            return Err(e);
        },
    }
    if !swap.is_seller() {
        let bcontext = match context.unwrap_buyer() {
            Ok(b) => b,
            Err(_) => {
                return Ok(None);
            },
        };
        if !(bcontext.output.path.len() == 4 && bcontext.output.depth >= 1
            && bcontext.output.depth <= 4) {
            return Ok(None);
        }
        let key_id = bcontext.output.duplicate();
        let n_child = key_id.last_path_index();
        let (value, commit_hex) = match &swap.redeem_output {
            Some(ro) => (ro.0, to_hex(ro.1.as_slice())),
            None => {
                return Ok(None);
            },
        };
        let root_key_id = key_id.parent_path();
        let out = OutputData {
            root_key_id,
            key_id,
            n_child,
            commit: Some(commit_hex),
            mmr_index: None,
            value,
            status: OutputStatus::Unconfirmed,
            height: 0,
            lock_height: 0,
            is_coinbase: false,
            tx_log_entry: None,
        };
        match c.backend.save_output(&out) {
            Ok(_) => {},
            Err(e) => {
                return Err(e);
            },
        }
        proof {
            assert(swap.redeem_output == old(swap).redeem_output);
            assert(out.key_id@ =~= context.role_context->Buyer_0.output@);
            assert(out@ =~= spec_redeem_record(
                context.role_context->Buyer_0.output@,
                old(swap).redeem_output->Some_0.0,
                old(swap).redeem_output->Some_0.1@,
            ));
            assert(c.backend.pending() =~= seq![
                BatchOp::SaveOutput {
                    out: spec_redeem_record(
                        context.role_context->Buyer_0.output@,
                        old(swap).redeem_output->Some_0.0,
                        old(swap).redeem_output->Some_0.1@,
                    ),
                },
            ]);
        }
    }
    let id = crate::encoding::copy_range(swap.id.as_slice(), 0, swap.id.len());
    match c.backend.delete_swap_context(id.as_slice()) {
        Ok(_) => {},
        Err(e) => {
            return Err(e);
        },
    }
    match c.backend.commit() {
        Ok(_) => {},
        Err(e) => {
            return Err(e);
        },
    }
    proof {
        assert(id@ =~= old(swap).id@);
        if old(swap).role == Role::Buyer {
            let target = seq![
                BatchOp::SaveOutput {
                    out: spec_redeem_record(
                        context.role_context->Buyer_0.output@,
                        old(swap).redeem_output->Some_0.0,
                        old(swap).redeem_output->Some_0.1@,
                    ),
                },
                BatchOp::DeleteSwapContext { id: old(swap).id@ },
            ];
            assert(c.backend.committed().last() =~= target);
            assert(c.backend.committed() == old(c).backend.committed().push(target));
        } else {
            let target = seq![BatchOp::DeleteSwapContext { id: old(swap).id@ }];
            assert(c.backend.committed().last() =~= target);
            assert(c.backend.committed() == old(c).backend.committed().push(target));
        }
    }
    Ok(Some(next))
}

/// The only batch shapes the action loop ever commits: winding a completed
/// swap down deletes its secret context, and a buyer's batch books exactly
/// one output record first. The record's exact contents stand in
/// `complete_swap`'s own contract.
pub open spec fn spec_completion_shape(batch: Seq<BatchOp>, id: Seq<u8>) -> bool {
    batch == seq![BatchOp::DeleteSwapContext { id }] || exists|out: OutputModel|
        batch == seq![BatchOp::SaveOutput { out }, BatchOp::DeleteSwapContext { id }]
}

/// Whether `a` is what `b` began as: the loop only appends batches.
pub open spec fn spec_batches_prefix(a: Seq<Seq<BatchOp>>, b: Seq<Seq<BatchOp>>) -> bool {
    a.len() <= b.len() && b.take(a.len() as int) == a
}

/// A run is its own beginning.
pub proof fn lemma_batches_prefix_refl(a: Seq<Seq<BatchOp>>)
    ensures
        spec_batches_prefix(a, a),
{
    assert(a.take(a.len() as int) =~= a);
}

/// Prefixes chain.
pub proof fn lemma_batches_prefix_trans(
    a: Seq<Seq<BatchOp>>,
    b: Seq<Seq<BatchOp>>,
    c: Seq<Seq<BatchOp>>,
)
    requires
        spec_batches_prefix(a, b),
        spec_batches_prefix(b, c),
    ensures
        spec_batches_prefix(a, c),
{
    assert(c.take(a.len() as int) =~= b.take(a.len() as int));
}

/// A prefix stays one when the longer run grows.
pub proof fn lemma_batches_prefix_push(a: Seq<Seq<BatchOp>>, b: Seq<Seq<BatchOp>>, x: Seq<BatchOp>)
    requires
        spec_batches_prefix(a, b),
    ensures
        spec_batches_prefix(a, b.push(x)),
{
    assert(b.push(x).take(a.len() as int) =~= b.take(a.len() as int));
}

/// Whether `a` is what `b` began as: the loop only appends posts.
pub open spec fn spec_posts_prefix(
    a: Seq<(MessageModel, Seq<u8>)>,
    b: Seq<(MessageModel, Seq<u8>)>,
) -> bool {
    a.len() <= b.len() && b.take(a.len() as int) == a
}

/// What the action loop leaves alone on every path: no slate is ever
/// posted, and swap messages go out only over the relay listener.
pub open spec fn spec_listener_frame<W, C, K, A, L>(
    a: &Container<W, C, K, A, L>,
    b: &Container<W, C, K, A, L>,
) -> bool where
    W: WalletBackend<C, K>,
    C: NodeClient,
    K: Keychain + Clone,
    A: SwapApi<K>,
    L: Listener,
 {
    &&& b.spec_slate_posts(ListenerInterface::Grinbox) == a.spec_slate_posts(
        ListenerInterface::Grinbox,
    )
    &&& b.spec_slate_posts(ListenerInterface::Keybase) == a.spec_slate_posts(
        ListenerInterface::Keybase,
    )
    &&& b.spec_slate_posts(ListenerInterface::ForeignHttp) == a.spec_slate_posts(
        ListenerInterface::ForeignHttp,
    )
    &&& b.spec_slate_posts(ListenerInterface::OwnerHttp) == a.spec_slate_posts(
        ListenerInterface::OwnerHttp,
    )
    &&& b.spec_swap_posts(ListenerInterface::Keybase) == a.spec_swap_posts(
        ListenerInterface::Keybase,
    )
    &&& b.spec_swap_posts(ListenerInterface::ForeignHttp) == a.spec_swap_posts(
        ListenerInterface::ForeignHttp,
    )
    &&& b.spec_swap_posts(ListenerInterface::OwnerHttp) == a.spec_swap_posts(
        ListenerInterface::OwnerHttp,
    )
}

/// A step that leaves the listener registry alone keeps the frame.
proof fn lemma_frame_same<W, C, K, A, L>(
    a: Container<W, C, K, A, L>,
    b: Container<W, C, K, A, L>,
    c3: Container<W, C, K, A, L>,
) where
    W: WalletBackend<C, K>,
    C: NodeClient,
    K: Keychain + Clone,
    A: SwapApi<K>,
    L: Listener,

    requires
        spec_listener_frame(&a, &b),
        c3.listeners == b.listeners,
    ensures
        spec_listener_frame(&a, &c3),
        c3.spec_swap_posts(ListenerInterface::Grinbox) == b.spec_swap_posts(
            ListenerInterface::Grinbox,
        ),
{
}

/// A relay publish keeps the frame: it can only touch the relay
/// listener's swap posts.
proof fn lemma_frame_step<W, C, K, A, L>(
    a: Container<W, C, K, A, L>,
    b: Container<W, C, K, A, L>,
    c3: Container<W, C, K, A, L>,
) where
    W: WalletBackend<C, K>,
    C: NodeClient,
    K: Keychain + Clone,
    A: SwapApi<K>,
    L: Listener,

    requires
        spec_listener_frame(&a, &b),
        c3.spec_slate_posts(ListenerInterface::Grinbox) == b.spec_slate_posts(
            ListenerInterface::Grinbox,
        ),
        c3.spec_slate_posts(ListenerInterface::Keybase) == b.spec_slate_posts(
            ListenerInterface::Keybase,
        ),
        c3.spec_slate_posts(ListenerInterface::ForeignHttp) == b.spec_slate_posts(
            ListenerInterface::ForeignHttp,
        ),
        c3.spec_slate_posts(ListenerInterface::OwnerHttp) == b.spec_slate_posts(
            ListenerInterface::OwnerHttp,
        ),
        c3.spec_swap_posts(ListenerInterface::Keybase) == b.spec_swap_posts(
            ListenerInterface::Keybase,
        ),
        c3.spec_swap_posts(ListenerInterface::ForeignHttp) == b.spec_swap_posts(
            ListenerInterface::ForeignHttp,
        ),
        c3.spec_swap_posts(ListenerInterface::OwnerHttp) == b.spec_swap_posts(
            ListenerInterface::OwnerHttp,
        ),
    ensures
        spec_listener_frame(&a, &c3),
{
}

/// Whether a send can go nowhere: no peer address is recorded, or the
/// recorded one is on a channel other than the relay.
pub open spec fn spec_send_stops(address: Option<Address>) -> bool {
    match address {
        None => true,
        Some(a) => !(a matches Address::Grinbox(_)),
    }
}

/// How many local steps the action loop may take before it reports a hard
/// failure; the protocol needs only a handful per external event.
pub const SWAP_LOOP_BOUND: u64 = 64;

/// Drives a swap from a starting action: performs one local side effect
/// per step and loops, stopping at any waiting action (which comes back
/// unchanged, with nothing touched), at any engine or publish failure
/// (returning the action still pending), or after `SWAP_LOOP_BOUND` steps
/// with a hard failure.
#[verifier::loop_isolation(false)]
pub fn run_swap_loop<W, C, K, A, L>(
    c: &mut Container<W, C, K, A, L>,
    swap: &mut Swap,
    context: &Context,
    start: Action,
    address: &Option<Address>,
) -> (r: Result<Action, ErrorKind>)
    where
        W: WalletBackend<C, K>,
        C: NodeClient,
        K: Keychain + Clone,
        A: SwapApi<K>,
        L: Listener,
    requires
        old(c).swap_apis.wf(),
    ensures
        final(c).swap_apis.wf(),
        final(c).swap_apis.spec_currencies() == old(c).swap_apis.spec_currencies(),
        final(c).swap_apis.spec_keychain_set() == old(c).swap_apis.spec_keychain_set(),
        final(swap).id@ == old(swap).id@,
        final(swap).role == old(swap).role,
        start.spec_is_waiting() ==> r == Ok::<Action, ErrorKind>(start) && *final(c) == *old(c)
            && *final(swap) == *old(swap),
        // The only ledger writes are whole completion batches for this swap.
        spec_batches_prefix(old(c).backend.committed(), final(c).backend.committed()),
        forall|j: int|
            old(c).backend.committed().len() <= j < final(c).backend.committed().len()
                ==> spec_completion_shape(
                #[trigger] final(c).backend.committed()[j],
                old(swap).id@,
            ),
        // The loop posts no slates, and swap messages only over the relay.
        spec_listener_frame(old(c), final(c)),
        spec_posts_prefix(
            old(c).spec_swap_posts(ListenerInterface::Grinbox),
            final(c).spec_swap_posts(ListenerInterface::Grinbox),
        ),
        // A send with no recorded peer address, or over a channel other
        // than the relay, exits without error and without writing or
        // posting anything.
        (start matches Action::SendMessage(_) && spec_send_stops(*address)) ==> r == Ok::<
            Action,
            ErrorKind,
        >(start) && final(c).backend.committed() == old(c).backend.committed() && final(c).spec_swap_posts(ListenerInterface::Grinbox) == old(c).spec_swap_posts(
            ListenerInterface::Grinbox,
        ),
{
    let mut action = start;
    let mut steps: u64 = 0;
    proof {
        assert(old(c).backend.committed().take(old(c).backend.committed().len() as int)
            =~= old(c).backend.committed());
        assert(old(c).spec_swap_posts(ListenerInterface::Grinbox).take(
            old(c).spec_swap_posts(ListenerInterface::Grinbox).len() as int,
        ) =~= old(c).spec_swap_posts(ListenerInterface::Grinbox));
    }
    loop
        invariant
            c.swap_apis.wf(),
            c.swap_apis.spec_currencies() == old(c).swap_apis.spec_currencies(),
            c.swap_apis.spec_keychain_set() == old(c).swap_apis.spec_keychain_set(),
            swap.id@ == old(swap).id@,
            swap.role == old(swap).role,
            steps <= SWAP_LOOP_BOUND,
            steps == 0 ==> *c == *old(c) && *swap == *old(swap) && action == start,
            steps > 0 ==> !start.spec_is_waiting(),
            steps > 0 ==> !(start matches Action::SendMessage(_) && spec_send_stops(*address)),
            spec_batches_prefix(old(c).backend.committed(), c.backend.committed()),
            forall|j: int|
                old(c).backend.committed().len() <= j < c.backend.committed().len()
                    ==> spec_completion_shape(
                    #[trigger] c.backend.committed()[j],
                    old(swap).id@,
                ),
            spec_listener_frame(old(c), c),
            spec_posts_prefix(
                old(c).spec_swap_posts(ListenerInterface::Grinbox),
                c.spec_swap_posts(ListenerInterface::Grinbox),
            ),
        decreases SWAP_LOOP_BOUND - steps,
    {
        let ghost chead = *c;
        if action.is_waiting() {
            return Ok(action);
        }
        if steps >= SWAP_LOOP_BOUND {
            return Err(ErrorKind::LoopBudgetExhausted);
        }
        match action {
            Action::SendMessage(n) => {
                let message = match c.swap_apis.message(swap) {
                    Ok(m) => m,
                    Err(_) => {
                        proof {
                            lemma_frame_same(*old(c), chead, *c);
                        }
                        return Ok(Action::SendMessage(n));
                    },
                };
                match address {
                    Some(a) => {
                        match a.address_type() {
                            AddressType::Grinbox => {
                                let to = a.stringify();
                                let ghost cpre = *c;
                                let published = c.publish_swap_message(
                                    ListenerInterface::Grinbox,
                                    &message,
                                    to.as_slice(),
                                );
                                proof {
                                    lemma_frame_same(*old(c), chead, cpre);
                                    lemma_frame_step(*old(c), cpre, *c);
                                    let posts_before = cpre.spec_swap_posts(
                                        ListenerInterface::Grinbox,
                                    );
                                    let n0 = old(c).spec_swap_posts(
                                        ListenerInterface::Grinbox,
                                    ).len() as int;
                                    assert(c.spec_swap_posts(ListenerInterface::Grinbox).take(n0)
                                        =~= posts_before.take(n0));
                                }
                                match published {
                                    Ok(_) => {},
                                    Err(_) => {
                                        return Ok(Action::SendMessage(n));
                                    },
                                }
                                let ghost cpub = *c;
                                match c.swap_apis.message_sent(swap, context) {
                                    Ok(a2) => {
                                        proof {
                                            lemma_frame_same(*old(c), cpub, *c);
                                        }
                                        action = a2;
                                    },
                                    Err(_) => {
                                        proof {
                                            lemma_frame_same(*old(c), cpub, *c);
                                        }
                                        return Ok(Action::SendMessage(n));
                                    },
                                }
                            },
                            _ => {
                                // The channel is unsupported: stop here.
                                proof {
                                    lemma_frame_same(*old(c), chead, *c);
                                }
                                return Ok(Action::SendMessage(n));
                            },
                        }
                    },
                    None => {
                        // No peer address is recorded: exit without error.
                        proof {
                            lemma_frame_same(*old(c), chead, *c);
                        }
                        return Ok(Action::SendMessage(n));
                    },
                }
            },
            Action::PublishTx => {
                let published = c.swap_apis.publish_transaction(swap, context);
                proof {
                    lemma_frame_same(*old(c), chead, *c);
                }
                match published {
                    Ok(a2) => {
                        action = a2;
                    },
                    Err(_) => {
                        return Ok(Action::PublishTx);
                    },
                }
            },
            Action::PublishTxSecondary => {
                let published = c.swap_apis.publish_secondary_transaction(swap, context);
                proof {
                    lemma_frame_same(*old(c), chead, *c);
                }
                match published {
                    Ok(a2) => {
                        action = a2;
                    },
                    Err(_) => {
                        return Ok(Action::PublishTxSecondary);
                    },
                }
            },
            Action::Complete => {
                let ghost committed_before = c.backend.committed();
                let ghost swap_before = *swap;
                let done = complete_swap(c, swap, context);
                proof {
                    lemma_frame_same(*old(c), chead, *c);
                    let n0 = old(c).backend.committed().len() as int;
                    if c.backend.committed() != committed_before {
                        assert(c.backend.committed() == committed_before.push(
                            c.backend.committed().last(),
                        ));
                        assert(c.backend.committed().take(n0) =~= committed_before.take(n0));
                        assert(spec_completion_shape(
                            c.backend.committed().last(),
                            old(swap).id@,
                        )) by {
                            if swap_before.role == Role::Buyer {
                                assert(c.backend.committed().last() == seq![
                                    BatchOp::SaveOutput {
                                        out: spec_redeem_record(
                                            context.role_context->Buyer_0.output@,
                                            swap_before.redeem_output->Some_0.0,
                                            swap_before.redeem_output->Some_0.1@,
                                        ),
                                    },
                                    BatchOp::DeleteSwapContext { id: old(swap).id@ },
                                ]);
                            }
                        }
                    }
                }
                match done {
                    Ok(Some(a2)) => {
                        action = a2;
                    },
                    Ok(None) => {
                        return Ok(Action::Complete);
                    },
                    Err(e) => {
                        return Err(e);
                    },
                }
            },
            Action::Cancel => {
                // Cancellation semantics are an open protocol question:
                // the step is reported back untouched for the caller to
                // decide.
                return Ok(Action::Cancel);
            },
            Action::Refund => {
                // As with cancellation, reported back untouched.
                return Ok(Action::Refund);
            },
            other => {
                return Ok(other);
            },
        }
        steps = steps + 1;
    }
}

/// Asks the engine what the swap needs and drives the action loop from
/// there, after resolving the swap's recorded peer address.
pub fn update_swap<W, C, K, A, L>(
    c: &mut Container<W, C, K, A, L>,
    swap: &mut Swap,
    context: &Context,
) -> (r: Result<Action, ErrorKind>)
    where
        W: WalletBackend<C, K>,
        C: NodeClient,
        K: Keychain + Clone,
        A: SwapApi<K>,
        L: Listener,
    requires
        old(c).swap_apis.wf(),
    ensures
        final(c).swap_apis.wf(),
        final(c).swap_apis.spec_currencies() == old(c).swap_apis.spec_currencies(),
        final(c).swap_apis.spec_keychain_set() == old(c).swap_apis.spec_keychain_set(),
        final(swap).id@ == old(swap).id@,
        final(swap).role == old(swap).role,
        // A recorded peer address that parses as nothing aborts before the
        // engine is consulted.
        (old(swap).address matches Some(a) && !crate::address::spec_keybase_prefixed(a@)
            && crate::address::spec_parse(a@) is None) ==> r == Err::<Action, ErrorKind>(
            ErrorKind::AddressParseError,
        ) && *final(c) == *old(c) && *final(swap) == *old(swap),
        // The only ledger writes are whole completion batches for this swap.
        spec_batches_prefix(old(c).backend.committed(), final(c).backend.committed()),
        forall|j: int|
            old(c).backend.committed().len() <= j < final(c).backend.committed().len()
                ==> spec_completion_shape(
                #[trigger] final(c).backend.committed()[j],
                old(swap).id@,
            ),
        // The engine posts no slates, and swap messages only over the relay.
        spec_listener_frame(old(c), final(c)),
        spec_posts_prefix(
            old(c).spec_swap_posts(ListenerInterface::Grinbox),
            final(c).spec_swap_posts(ListenerInterface::Grinbox),
        ),
{
    proof {
        assert(old(c).backend.committed().take(old(c).backend.committed().len() as int)
            =~= old(c).backend.committed());
        assert(old(c).spec_swap_posts(ListenerInterface::Grinbox).take(
            old(c).spec_swap_posts(ListenerInterface::Grinbox).len() as int,
        ) =~= old(c).spec_swap_posts(ListenerInterface::Grinbox));
    }
    let address: Option<Address> = match &swap.address {
        Some(a) => {
            match parse_address(a.as_slice()) {
                Ok(ad) => Some(ad),
                Err(e) => {
                    return Err(e);
                },
            }
        },
        None => None,
    };
    let start = match c.swap_apis.required_action(swap, context) {
        Ok(a) => a,
        Err(e) => {
            return Err(e);
        },
    };
    run_swap_loop(c, swap, context, start, &address)
}

} // verus!
