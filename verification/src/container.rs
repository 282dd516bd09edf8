//! The wallet session object: the storage backend, the swap multiplexer
//! and the registered listeners, passed by reference to each operation.

use vstd::prelude::*;

use core::marker::PhantomData;

use crate::crypto::Keychain;
use crate::error::ErrorKind;
use crate::swap::SwapApis;
use crate::swaptypes::{Message, MessageModel, SwapApi};
use crate::types::{NodeClient, VersionedSlate, VersionedSlateModel, WalletBackend};

verus! {

/// The channels a listener can serve.
#[derive(Clone, Copy, Debug, PartialEq, Eq, Structural)]
pub enum ListenerInterface {
    Grinbox,
    Keybase,
    ForeignHttp,
    OwnerHttp,
}

/// A running listener: an external collaborator that can publish slates
/// and swap messages over its channel.
pub trait Listener: Sized {
    /// The slates published so far, with their destinations.
    spec fn slate_posts(&self) -> Seq<(VersionedSlateModel, Seq<u8>)>;

    /// The swap messages published so far, with their destinations.
    spec fn swap_posts(&self) -> Seq<(MessageModel, Seq<u8>)>;

    /// Publishes a slate to the written address `to`.
    fn publish_slate(&mut self, slate: &VersionedSlate, to: &[u8]) -> (r: Result<(), ErrorKind>)
        ensures
            final(self).swap_posts() == old(self).swap_posts(),
            r is Ok ==> final(self).slate_posts() == old(self).slate_posts().push(
                (slate@, to@),
            ),
            r is Err ==> final(self).slate_posts() == old(self).slate_posts(),
    ;

    /// Publishes a swap message to the written address `to`.
    fn publish_swap_message(&mut self, message: &Message, to: &[u8]) -> (r: Result<
        (),
        ErrorKind,
    >)
        ensures
            final(self).slate_posts() == old(self).slate_posts(),
            r is Ok ==> final(self).swap_posts() == old(self).swap_posts().push(
                (message@, to@),
            ),
            r is Err ==> final(self).swap_posts() == old(self).swap_posts(),
    ;
}

/// The first registry slot serving an interface.
pub open spec fn spec_find_listener<L>(s: Seq<(ListenerInterface, L)>, i: ListenerInterface) -> Option<
    int,
>
    decreases s.len(),
{
    if s.len() == 0 {
        None
    } else if s[0].0 == i {
        Some(0)
    } else {
        match spec_find_listener(s.drop_first(), i) {
            None => None,
            Some(j) => Some(j + 1),
        }
    }
}

/// A witness for the first slot determines `spec_find_listener`.
proof fn lemma_find_listener_is<L>(s: Seq<(ListenerInterface, L)>, i: ListenerInterface, j: int)
    requires
        0 <= j < s.len(),
        s[j].0 == i,
        forall|k: int| 0 <= k < j ==> (#[trigger] s[k]).0 != i,
    ensures
        spec_find_listener(s, i) == Some(j),
    decreases s.len(),
{
    if j > 0 {
        lemma_find_listener_is(s.drop_first(), i, j - 1);
        assert(forall|k: int| 1 <= k < s.len() ==> s[k] == s.drop_first()[k - 1]);
    }
}

/// No matching slot determines `spec_find_listener`.
proof fn lemma_find_listener_none<L>(s: Seq<(ListenerInterface, L)>, i: ListenerInterface)
    requires
        forall|k: int| 0 <= k < s.len() ==> (#[trigger] s[k]).0 != i,
    ensures
        spec_find_listener(s, i) is None,
    decreases s.len(),
{
    if s.len() > 0 {
        lemma_find_listener_none(s.drop_first(), i);
    }
}

/// The account label `default` every fresh session starts under.
pub open spec fn spec_default_account() -> Seq<u8> {
    seq![100u8, 101u8, 102u8, 97u8, 117u8, 108u8, 116u8]
}

/// The wallet session: the ledger backend, the active account, the swap
/// multiplexer and the listener registry.
pub struct Container<W, C, K, A, L> where
    W: WalletBackend<C, K>,
    C: NodeClient,
    K: Keychain + Clone,
    A: SwapApi<K>,
    L: Listener,
 {
    pub backend: W,
    pub account: Vec<u8>,
    pub swap_apis: SwapApis<K, A>,
    pub listeners: Vec<(ListenerInterface, L)>,
    pub phantom_c: PhantomData<C>,
}

impl<W, C, K, A, L> Container<W, C, K, A, L> where
    W: WalletBackend<C, K>,
    C: NodeClient,
    K: Keychain + Clone,
    A: SwapApi<K>,
    L: Listener,
 {
    /// Whether a listener serves the interface.
    pub open spec fn spec_has_listener(&self, i: ListenerInterface) -> bool {
        spec_find_listener(self.listeners@, i) is Some
    }

    /// The swap messages the interface's listener has published.
    pub open spec fn spec_swap_posts(&self, i: ListenerInterface) -> Seq<
        (MessageModel, Seq<u8>),
    > {
        match spec_find_listener(self.listeners@, i) {
            Some(j) => self.listeners@[j].1.swap_posts(),
            None => Seq::empty(),
        }
    }

    /// The slates the interface's listener has published.
    pub open spec fn spec_slate_posts(&self, i: ListenerInterface) -> Seq<
        (VersionedSlateModel, Seq<u8>),
    > {
        match spec_find_listener(self.listeners@, i) {
            Some(j) => self.listeners@[j].1.slate_posts(),
            None => Seq::empty(),
        }
    }

    /// A fresh session around a backend: the default account, an empty
    /// multiplexer and no listeners.
    pub fn new(backend: W) -> (r: Container<W, C, K, A, L>)
        ensures
            r.swap_apis.wf(),
            !r.swap_apis.spec_keychain_set(),
            forall|c: crate::swaptypes::Currency| !r.swap_apis.spec_registered(c),
            forall|i: ListenerInterface| !r.spec_has_listener(i),
            r.backend == backend,
            r.account@ == spec_default_account(),
    {
        let mut account: Vec<u8> = Vec::new();
        // The account label `default`.
        account.push(100);
        account.push(101);
        account.push(102);
        account.push(97);
        account.push(117);
        account.push(108);
        account.push(116);
        let r = Container {
            backend,
            account,
            swap_apis: SwapApis::new(),
            listeners: Vec::new(),
            phantom_c: PhantomData,
        };
        proof {
            assert(r.account@ =~= spec_default_account());
            assert forall|i: ListenerInterface| !r.spec_has_listener(i) by {
                lemma_find_listener_none(r.listeners@, i);
            }
        }
        r
    }

    /// The backend itself, connected or not.
    pub fn raw_backend(&mut self) -> (r: &mut W) {
        &mut self.backend
    }

    /// Checks that the backend connection is established.
    pub fn backend(&self) -> (r: Result<(), ErrorKind>)
        ensures
            r matches Err(e) ==> e == ErrorKind::NoBackend || e == ErrorKind::StorageError,
    {
        match self.backend.connected() {
            Ok(true) => Ok(()),
            Ok(false) => Err(ErrorKind::NoBackend),
            Err(_) => Err(ErrorKind::StorageError),
        }
    }

    /// Registers a listener for an interface that has none yet.
    pub fn set_listener(&mut self, interface: ListenerInterface, listener: L)
        requires
            !old(self).spec_has_listener(interface),
        ensures
            final(self).spec_has_listener(interface),
            final(self).spec_swap_posts(interface) == listener.swap_posts(),
            final(self).spec_slate_posts(interface) == listener.slate_posts(),
            final(self).backend == old(self).backend,
            final(self).swap_apis == old(self).swap_apis,
            final(self).account == old(self).account,
            forall|i: ListenerInterface|
                i != interface ==> final(self).spec_has_listener(i) == old(
                    self,
                ).spec_has_listener(i) && final(self).spec_swap_posts(i) == old(
                    self,
                ).spec_swap_posts(i) && final(self).spec_slate_posts(i) == old(
                    self,
                ).spec_slate_posts(i),
    {
        let ghost lp = self.listeners@;
        self.listeners.push((interface, listener));
        proof {
            lemma_find_listener_preserved_by_push(lp, interface, listener);
            assert(self.listeners@ == lp.push((interface, listener)));
            assert forall|i: ListenerInterface| i != interface implies self.spec_has_listener(i)
                == old(self).spec_has_listener(i) && self.spec_swap_posts(i) == old(
                self,
            ).spec_swap_posts(i) && self.spec_slate_posts(i) == old(self).spec_slate_posts(
                i,
            ) by {
                lemma_find_char_listener(lp, i);
                match spec_find_listener(lp, i) {
                    Some(j) => {
                        assert(self.listeners@[j] == lp[j]);
                    },
                    None => {},
                }
            }
        }
    }

    /// Asks whether a listener serves the interface.
    pub fn listener(&self, interface: ListenerInterface) -> (r: Result<(), ErrorKind>)
        ensures
            match r {
                Ok(_) => self.spec_has_listener(interface),
                Err(e) => e == ErrorKind::NoListener && !self.spec_has_listener(interface),
            },
    {
        match self.find_listener(interface) {
            Some(_) => Ok(()),
            None => Err(ErrorKind::NoListener),
        }
    }

    /// Finds the registry slot serving an interface.
    fn find_listener(&self, interface: ListenerInterface) -> (r: Option<usize>)
        ensures
            match r {
                Some(i) => spec_find_listener(self.listeners@, interface) == Some(i as int),
                None => spec_find_listener(self.listeners@, interface) is None,
            },
    {
        let mut i: usize = 0;
        while i < self.listeners.len()
            invariant
                i <= self.listeners@.len(),
                forall|k: int| 0 <= k < i ==> (#[trigger] self.listeners@[k]).0 != interface,
            decreases self.listeners@.len() - i,
        {
            if listener_interface_eq(self.listeners[i].0, interface) {
                proof {
                    lemma_find_listener_is(self.listeners@, interface, i as int);
                }
                return Some(i);
            }
            i = i + 1;
        }
        proof {
            lemma_find_listener_none(self.listeners@, interface);
        }
        None
    }

    /// Publishes a slate through the interface's listener. Fails
    /// with `NoListener`, touching nothing, when none serves it.
    pub fn publish_slate(
        &mut self,
        interface: ListenerInterface,
        slate: &VersionedSlate,
        to: &[u8],
    ) -> (r: Result<(), ErrorKind>)
        ensures
            final(self).backend == old(self).backend,
            final(self).swap_apis == old(self).swap_apis,
            final(self).account == old(self).account,
            forall|i: ListenerInterface|
                final(self).spec_has_listener(i) == old(self).spec_has_listener(i),
            forall|i: ListenerInterface| #[trigger]
                final(self).spec_swap_posts(i) == old(self).spec_swap_posts(i),
            forall|i: ListenerInterface|
                i != interface ==> #[trigger] final(self).spec_slate_posts(i) == old(
                    self,
                ).spec_slate_posts(i),
            !old(self).spec_has_listener(interface) ==> r == Err::<(), ErrorKind>(
                ErrorKind::NoListener,
            ) && final(self).spec_slate_posts(interface) == old(self).spec_slate_posts(interface),
            old(self).spec_has_listener(interface) ==> (match r {
                Ok(_) => final(self).spec_slate_posts(interface) == old(self).spec_slate_posts(
                    interface,
                ).push((slate@, to@)),
                Err(e) => e == ErrorKind::SendFailure && final(self).spec_slate_posts(interface)
                    == old(self).spec_slate_posts(interface),
            }),
    {
        let idx = match self.find_listener(interface) {
            Some(i) => i,
            None => {
                return Err(ErrorKind::NoListener);
            },
        };
        proof {
            lemma_find_char_listener(self.listeners@, interface);
        }
        let ghost lp = self.listeners@;
        let (tag, mut listener) = self.listeners.remove(idx);
        let res = listener.publish_slate(slate, to);
        self.listeners.insert(idx, (tag, listener));
        proof {
            assert(forall|k: int|
                0 <= k < lp.len() && k != idx ==> self.listeners@[k] == lp[k]);
            assert(self.listeners@[idx as int].0 == lp[idx as int].0);
            lemma_find_listener_preserved_by_replace(lp, self.listeners@, idx as int);
            assert(spec_find_listener(self.listeners@, interface) == Some(idx as int));
            assert forall|i2: ListenerInterface| i2 != interface implies self.spec_has_listener(
                i2,
            ) == old(self).spec_has_listener(i2) && self.spec_swap_posts(i2) == old(
                self,
            ).spec_swap_posts(i2) && self.spec_slate_posts(i2) == old(self).spec_slate_posts(
                i2,
            ) by {
                lemma_find_char_listener(lp, i2);
                match spec_find_listener(lp, i2) {
                    Some(j) => {
                        assert(lp[j].0 == i2);
                        assert(j != idx);
                        assert(self.listeners@[j] == lp[j]);
                    },
                    None => {},
                }
            }
        }
        match res {
            Ok(_) => Ok(()),
            Err(_) => Err(ErrorKind::SendFailure),
        }
    }

    /// Publishes a swap message through the interface's listener. Fails
    /// with `NoListener`, touching nothing, when none serves it.
    pub fn publish_swap_message(
        &mut self,
        interface: ListenerInterface,
        message: &Message,
        to: &[u8],
    ) -> (r: Result<(), ErrorKind>)
        ensures
            final(self).backend == old(self).backend,
            final(self).swap_apis == old(self).swap_apis,
            final(self).account == old(self).account,
            forall|i: ListenerInterface|
                final(self).spec_has_listener(i) == old(self).spec_has_listener(i),
            forall|i: ListenerInterface|
                i != interface ==> final(self).spec_swap_posts(i) == old(self).spec_swap_posts(
                    i,
                ) && final(self).spec_slate_posts(i) == old(self).spec_slate_posts(i),
            final(self).spec_slate_posts(interface) == old(self).spec_slate_posts(interface),
            !old(self).spec_has_listener(interface) ==> r == Err::<(), ErrorKind>(
                ErrorKind::NoListener,
            ) && final(self).spec_swap_posts(interface) == old(self).spec_swap_posts(interface),
            old(self).spec_has_listener(interface) ==> (match r {
                Ok(_) => final(self).spec_swap_posts(interface) == old(self).spec_swap_posts(
                    interface,
                ).push((message@, to@)),
                Err(e) => e == ErrorKind::SendFailure && final(self).spec_swap_posts(interface)
                    == old(self).spec_swap_posts(interface),
            }),
    {
        let idx = match self.find_listener(interface) {
            Some(i) => i,
            None => {
                return Err(ErrorKind::NoListener);
            },
        };
        proof {
            lemma_find_char_listener(self.listeners@, interface);
        }
        let ghost lp = self.listeners@;
        let (tag, mut listener) = self.listeners.remove(idx);
        let res = listener.publish_swap_message(message, to);
        self.listeners.insert(idx, (tag, listener));
        proof {
            assert(forall|k: int|
                0 <= k < lp.len() && k != idx ==> self.listeners@[k] == lp[k]);
            assert(self.listeners@[idx as int].0 == lp[idx as int].0);
            lemma_find_listener_preserved_by_replace(lp, self.listeners@, idx as int);
            assert(spec_find_listener(self.listeners@, interface) == Some(idx as int));
            assert forall|i2: ListenerInterface| i2 != interface implies self.spec_has_listener(
                i2,
            ) == old(self).spec_has_listener(i2) && self.spec_swap_posts(i2) == old(
                self,
            ).spec_swap_posts(i2) && self.spec_slate_posts(i2) == old(self).spec_slate_posts(
                i2,
            ) by {
                lemma_find_char_listener(lp, i2);
                match spec_find_listener(lp, i2) {
                    Some(j) => {
                        assert(lp[j].0 == i2);
                        assert(j != idx);
                        assert(self.listeners@[j] == lp[j]);
                    },
                    None => {},
                }
            }
        }
        match res {
            Ok(_) => Ok(()),
            Err(_) => Err(ErrorKind::SendFailure),
        }
    }
}

/// Whether two interfaces are the same.
fn listener_interface_eq(a: ListenerInterface, b: ListenerInterface) -> (r: bool)
    ensures
        r == (a == b),
{
    match (a, b) {
        (ListenerInterface::Grinbox, ListenerInterface::Grinbox) => true,
        (ListenerInterface::Keybase, ListenerInterface::Keybase) => true,
        (ListenerInterface::ForeignHttp, ListenerInterface::ForeignHttp) => true,
        (ListenerInterface::OwnerHttp, ListenerInterface::OwnerHttp) => true,
        _ => false,
    }
}

/// Appending a listener leaves earlier interfaces' slots alone and serves
/// its own interface if nothing did.
proof fn lemma_find_listener_preserved_by_push<L>(
    s: Seq<(ListenerInterface, L)>,
    interface: ListenerInterface,
    l: L,
)
    requires
        spec_find_listener(s, interface) is None,
    ensures
        spec_find_listener(s.push((interface, l)), interface) == Some(s.len() as int),
        forall|i: ListenerInterface|
            i != interface ==> #[trigger] spec_find_listener(s.push((interface, l)), i)
                == spec_find_listener(s, i),
        forall|i: ListenerInterface, j: int|
            i != interface && spec_find_listener(s, i) == Some(j) && 0 <= j < s.len() ==> s.push(
                (interface, l),
            )[j] == s[j],
    decreases s.len(),
{
    let t = s.push((interface, l));
    lemma_find_char_listener(s, interface);
    lemma_find_listener_is(t, interface, s.len() as int);
    assert forall|i: ListenerInterface| i != interface implies #[trigger] spec_find_listener(
        t,
        i,
    ) == spec_find_listener(s, i) by {
        lemma_find_char_listener(s, i);
        match spec_find_listener(s, i) {
            Some(j) => {
                lemma_find_listener_is(t, i, j);
            },
            None => {
                lemma_find_listener_none(t, i);
            },
        }
    }
}

/// What `spec_find_listener` returns: the first matching slot, or nothing.
proof fn lemma_find_char_listener<L>(s: Seq<(ListenerInterface, L)>, i: ListenerInterface)
    ensures
        match spec_find_listener(s, i) {
            Some(j) => 0 <= j < s.len() && s[j].0 == i && forall|k: int|
                0 <= k < j ==> (#[trigger] s[k]).0 != i,
            None => forall|k: int| 0 <= k < s.len() ==> (#[trigger] s[k]).0 != i,
        },
    decreases s.len(),
{
    if s.len() > 0 && s[0].0 != i {
        lemma_find_char_listener(s.drop_first(), i);
        assert(forall|k: int| 1 <= k < s.len() ==> s[k] == s.drop_first()[k - 1]);
    }
}

/// Replacing one slot with another of the same interface leaves every
/// lookup where it was.
proof fn lemma_find_listener_preserved_by_replace<L>(
    s: Seq<(ListenerInterface, L)>,
    t: Seq<(ListenerInterface, L)>,
    idx: int,
)
    requires
        s.len() == t.len(),
        0 <= idx < s.len(),
        t[idx].0 == s[idx].0,
        forall|k: int| 0 <= k < s.len() && k != idx ==> s[k] == t[k],
    ensures
        forall|i: ListenerInterface| #[trigger] spec_find_listener(t, i) == spec_find_listener(
            s,
            i,
        ),
        forall|i: ListenerInterface, j: int|
            spec_find_listener(s, i) == Some(j) && j != idx && 0 <= j < s.len() ==> t[j] == s[j],
{
    assert forall|i: ListenerInterface| #[trigger] spec_find_listener(t, i) == spec_find_listener(
        s,
        i,
    ) by {
        lemma_find_char_listener(s, i);
        match spec_find_listener(s, i) {
            Some(j) => {
                assert(t[j].0 == i);
                assert(forall|k: int| 0 <= k < j ==> (#[trigger] t[k]).0 != i);
                lemma_find_listener_is(t, i, j);
            },
            None => {
                assert(forall|k: int| 0 <= k < t.len() ==> (#[trigger] t[k]).0 != i);
                lemma_find_listener_none(t, i);
            },
        }
    }
}

} // verus!
