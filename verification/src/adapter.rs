//! The relay plugin for the command surface: sends slates over the relay
//! listener. This channel has no request-response mode, so only the
//! asynchronous send is offered.

use vstd::prelude::*;

use crate::container::{Container, Listener, ListenerInterface};
use crate::crypto::Keychain;
use crate::error::ErrorKind;
use crate::swaptypes::SwapApi;
use crate::types::{NodeClient, VersionedSlate, WalletBackend};

verus! {

/// Sends slates through the registered relay listener.
pub struct GrinboxAdapter {}

impl GrinboxAdapter {
    /// A fresh adapter.
    pub fn new() -> (r: GrinboxAdapter) {
        GrinboxAdapter {  }
    }

    /// This channel cannot wait for the response slate.
    pub fn supports_sync(&self) -> (r: bool)
        ensures
            !r,
    {
        false
    }

    /// Synchronous sending is not offered on this channel.
    pub fn send_tx_sync(&self, dest: &[u8], slate: &VersionedSlate) -> (r: Result<
        VersionedSlate,
        ErrorKind,
    >)
        ensures
            r == Err::<VersionedSlate, ErrorKind>(ErrorKind::UnsupportedChannel),
    {
        Err(ErrorKind::UnsupportedChannel)
    }

    /// Publishes a slate to the written address `dest` through the relay
    /// listener, without waiting; fails with `NoListener` when none is
    /// registered.
    pub fn send_tx_async<W, C, K, A, L>(
        &self,
        c: &mut Container<W, C, K, A, L>,
        dest: &[u8],
        slate: &VersionedSlate,
    ) -> (r: Result<(), ErrorKind>)
        where
            W: WalletBackend<C, K>,
            C: NodeClient,
            K: Keychain + Clone,
            A: SwapApi<K>,
            L: Listener,
        ensures
            final(c).backend == old(c).backend,
            final(c).swap_apis == old(c).swap_apis,
            !old(c).spec_has_listener(ListenerInterface::Grinbox) ==> r == Err::<(), ErrorKind>(
                ErrorKind::NoListener,
            ),
            old(c).spec_has_listener(ListenerInterface::Grinbox) ==> (match r {
                Ok(_) => final(c).spec_slate_posts(ListenerInterface::Grinbox) == old(
                    c,
                ).spec_slate_posts(ListenerInterface::Grinbox).push((slate@, dest@)),
                Err(e) => e == ErrorKind::SendFailure && final(c).spec_slate_posts(
                    ListenerInterface::Grinbox,
                ) == old(c).spec_slate_posts(ListenerInterface::Grinbox),
            }),
    {
        c.publish_slate(ListenerInterface::Grinbox, slate, dest)
    }
}

} // verus!
