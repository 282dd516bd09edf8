//! The address book: named peer addresses, kept in an external key-value
//! store. The store itself is a collaborator reached through the
//! [`ContactStore`] port; the key layout and the record format are the
//! library's own and verified here.

use vstd::prelude::*;

use crate::address::{parse_address, Address};
use crate::encoding::append_bytes;
use crate::error::ErrorKind;
use crate::protocol::{all_plain, expect_lit, lit_p_end, lit_p_end_v, lit_q_end, lit_q_end_v, scan_string, spec_expect, spec_scan};

verus! {

/// The key prefix under which contacts are filed.
pub const CONTACT_PREFIX: u8 = 88;

/// The on-disk key-value store: an external collaborator holding byte
/// records under byte keys.
pub trait ContactStore: Sized {
    /// The records held right now.
    spec fn entries(&self) -> Map<Seq<u8>, Seq<u8>>;

    /// The record under `key`, if any.
    fn get(&self, key: &[u8]) -> (r: Result<Option<Vec<u8>>, ErrorKind>)
        ensures
            match r {
                Ok(v) => match v {
                    Some(value) => self.entries().contains_key(key@) && value@
                        == self.entries()[key@],
                    None => !self.entries().contains_key(key@),
                },
                Err(e) => e == ErrorKind::StorageError,
            },
    ;

    /// Every record, in the store's order.
    fn list(&self) -> (r: Result<Vec<(Vec<u8>, Vec<u8>)>, ErrorKind>)
        ensures
            r matches Ok(items) ==> forall|i: int|
                0 <= i < items@.len() ==> self.entries().contains_key(
                    (#[trigger] items@[i]).0@,
                ) && items@[i].1@ == self.entries()[items@[i].0@],
    ;

    /// Applies a batch of mutations all-or-nothing, in order.
    fn apply(&mut self, ops: &Vec<ContactStoreOp>) -> (r: Result<(), ErrorKind>)
        ensures
            r is Ok ==> final(self).entries() == spec_apply_store(
                old(self).entries(),
                ops@.map_values(|op: ContactStoreOp| op@),
            ),
            r is Err ==> final(self).entries() == old(self).entries(),
    ;
}

/// One store mutation, as handed to the store's atomic batch.
#[derive(Clone, Debug)]
pub enum ContactStoreOp {
    Put(Vec<u8>, Vec<u8>),
    Del(Vec<u8>),
}

/// The mathematical shape of one store mutation.
#[verifier::ext_equal]
pub enum StoreOpModel {
    Put { key: Seq<u8>, value: Seq<u8> },
    Del { key: Seq<u8> },
}

impl View for ContactStoreOp {
    type V = StoreOpModel;

    open spec fn view(&self) -> StoreOpModel {
        match self {
            ContactStoreOp::Put(k, v) => StoreOpModel::Put { key: k@, value: v@ },
            ContactStoreOp::Del(k) => StoreOpModel::Del { key: k@ },
        }
    }
}

/// The records left after applying mutations in order.
pub open spec fn spec_apply_store(
    entries: Map<Seq<u8>, Seq<u8>>,
    ops: Seq<StoreOpModel>,
) -> Map<Seq<u8>, Seq<u8>>
    decreases ops.len(),
{
    if ops.len() == 0 {
        entries
    } else {
        let prev = spec_apply_store(entries, ops.drop_last());
        match ops.last() {
            StoreOpModel::Put { key, value } => prev.insert(key, value),
            StoreOpModel::Del { key } => prev.remove(key),
        }
    }
}

/// The store key a contact name files under: the contact prefix, then the
/// name.
pub open spec fn spec_contact_key(name: Seq<u8>) -> Seq<u8> {
    seq![CONTACT_PREFIX] + name
}

/// Builds the store key for a contact name.
pub fn to_key(name: &[u8]) -> (r: Vec<u8>)
    ensures
        r@ == spec_contact_key(name@),
{
    let mut v: Vec<u8> = Vec::new();
    v.push(CONTACT_PREFIX);
    append_bytes(&mut v, name);
    proof {
        assert(v@ =~= spec_contact_key(name@));
    }
    v
}

/// The full written form of an address of either channel.
pub open spec fn spec_address_text(a: Address) -> Seq<u8> {
    match a {
        Address::Grinbox(g) => g@.spec_full(),
        Address::Keybase(u) => crate::address::spec_keybase_scheme() + u@,
    }
}

/// Whether a typed address is what a written address text names.
pub open spec fn spec_address_matches(a: Address, text: Seq<u8>) -> bool {
    match a {
        Address::Grinbox(g) => crate::address::spec_parse(text) == Some(g@),
        Address::Keybase(u) => crate::address::spec_keybase_prefixed(text) && u@ == text.skip(
            crate::address::spec_keybase_scheme().len() as int,
        ),
    }
}

/// A named peer address.
#[derive(Clone, Debug)]
pub struct Contact {
    pub name: Vec<u8>,
    pub address: Address,
}

impl Contact {
    /// A contact with a nonempty plain name and a plain written address,
    /// so the stored record always reads back.
    pub fn new(name: Vec<u8>, address: Address) -> (r: Result<Contact, ErrorKind>)
        ensures
            match r {
                Ok(c) => c.name@ == name@ && c.address == address && name@.len() > 0 && all_plain(
                    name@,
                ) && all_plain(spec_address_text(address)),
                Err(e) => e == ErrorKind::AddressParseError && (name@.len() == 0 || !all_plain(
                    name@,
                ) || !all_plain(spec_address_text(address))),
            },
    {
        if name.len() == 0 {
            return Err(ErrorKind::AddressParseError);
        }
        let mut i: usize = 0;
        while i < name.len()
            invariant
                i <= name@.len(),
                forall|j: int| 0 <= j < i ==> crate::protocol::is_plain_byte(#[trigger] name@[j]),
            decreases name@.len() - i,
        {
            let c = name[i];
            if c < 32 || c == 34 || c == 92 {
                return Err(ErrorKind::AddressParseError);
            }
            i = i + 1;
        }
        let text = address.stringify();
        let mut k: usize = 0;
        while k < text.len()
            invariant
                k <= text@.len(),
                text@ == spec_address_text(address),
                forall|j: int| 0 <= j < k ==> crate::protocol::is_plain_byte(#[trigger] text@[j]),
            decreases text@.len() - k,
        {
            let c = text[k];
            if c < 32 || c == 34 || c == 92 {
                return Err(ErrorKind::AddressParseError);
            }
            k = k + 1;
        }
        Ok(Contact { name, address })
    }

    /// The record text a contact is stored as: its name and the full
    /// written form of its address.
    pub open spec fn spec_encode(name: Seq<u8>, address_text: Seq<u8>) -> Seq<u8> {
        lit_c_name_pre() + name + lit_c_addr() + address_text + lit_q_end()
    }

    /// Writes the contact record.
    pub fn encode(&self) -> (r: Vec<u8>)
        ensures
            r@ == Self::spec_encode(self.name@, spec_address_text(self.address)),
    {
        let mut v = lit_c_name_pre_v();
        append_bytes(&mut v, self.name.as_slice());
        let l1 = lit_c_addr_v();
        append_bytes(&mut v, l1.as_slice());
        let text = self.address.stringify();
        append_bytes(&mut v, text.as_slice());
        let l2 = lit_q_end_v();
        append_bytes(&mut v, l2.as_slice());
        proof {
            assert(v@ =~= Self::spec_encode(self.name@, spec_address_text(self.address)));
        }
        v
    }
}

/// Reads a contact record: the name and address fields, with the address
/// parsed back into its typed form.
pub open spec fn spec_parse_contact(s: Seq<u8>) -> Option<(Seq<u8>, Seq<u8>)> {
    match spec_expect(s, 0, lit_c_name_pre()) {
        None => None,
        Some(i1) => match spec_scan(s, i1) {
            None => None,
            Some((name, i2)) => match spec_expect(s, i2, lit_p_addr()) {
                None => None,
                Some(i3) => match spec_scan(s, i3) {
                    None => None,
                    Some((addr, i4)) => match spec_expect(s, i4, lit_p_end()) {
                        Some(i5) => if i5 == s.len() && name.len() > 0 {
                            Some((name, addr))
                        } else {
                            None
                        },
                        None => None,
                    },
                },
            },
        },
    }
}

/// Reads a contact record.
pub fn parse_contact(s: &[u8]) -> (r: Option<Contact>)
    ensures
        match r {
            Some(c) => spec_parse_contact(s@) matches Some(p) && p.0 == c.name@
                && spec_address_matches(c.address, p.1),
            None => spec_parse_contact(s@) is None || (spec_parse_contact(s@) matches Some(p)
                && !crate::address::spec_keybase_prefixed(p.1) && crate::address::spec_parse(p.1) is None),
        },
{
    let pre = lit_c_name_pre_v();
    let i1 = match expect_lit(s, 0, pre.as_slice()) {
        Some(i) => i,
        None => {
            return None;
        },
    };
    let (name, i2) = match scan_string(s, i1) {
        Some(v) => v,
        None => {
            return None;
        },
    };
    let l_addr = lit_p_addr_v();
    let i3 = match expect_lit(s, i2, l_addr.as_slice()) {
        Some(i) => i,
        None => {
            return None;
        },
    };
    let (addr, i4) = match scan_string(s, i3) {
        Some(v) => v,
        None => {
            return None;
        },
    };
    let l_end = lit_p_end_v();
    let i5 = match expect_lit(s, i4, l_end.as_slice()) {
        Some(i) => i,
        None => {
            return None;
        },
    };
    if i5 != s.len() || name.len() == 0 {
        return None;
    }
    proof {
        assert(spec_parse_contact(s@) == Some((name@, addr@)));
    }
    let address = match parse_address(addr.as_slice()) {
        Ok(a) => a,
        Err(_) => {
            return None;
        },
    };
    Some(Contact { name, address })
}

/// The address book over its store: contacts filed under prefixed keys,
/// written in the record format above.
pub struct Backend<S: ContactStore> {
    pub store: S,
}

impl<S: ContactStore> Backend<S> {
    /// An address book over a store.
    pub fn new(store: S) -> (r: Backend<S>)
        ensures
            r.store == store,
    {
        Backend { store }
    }

    /// The contact filed under `name`: exactly the one whose well-formed
    /// record the store holds there, and nothing when the store holds no
    /// record or an unreadable one.
    pub fn get_contact(&self, name: &[u8]) -> (r: Result<Option<Contact>, ErrorKind>)
        ensures
            match r {
                Ok(copt) => {
                    let key = spec_contact_key(name@);
                    match copt {
                        Some(contact) => {
                            &&& self.store.entries().contains_key(key)
                            &&& spec_parse_contact(self.store.entries()[key]) matches Some(p)
                                && p.0 == contact.name@ && spec_address_matches(
                                contact.address,
                                p.1,
                            )
                        },
                        None => {
                            ||| !self.store.entries().contains_key(key)
                            ||| spec_parse_contact(self.store.entries()[key]) is None
                            ||| (spec_parse_contact(self.store.entries()[key]) matches Some(p)
                                && !crate::address::spec_keybase_prefixed(p.1)
                                && crate::address::spec_parse(p.1) is None)
                        },
                    }
                },
                Err(e) => e == ErrorKind::StorageError,
            },
    {
        let key = to_key(name);
        let value = match self.store.get(key.as_slice()) {
            Ok(Some(v)) => v,
            Ok(None) => {
                return Ok(None);
            },
            Err(e) => {
                return Err(e);
            },
        };
        Ok(parse_contact(value.as_slice()))
    }

    /// Every well-formed contact in the book, in store order.
    pub fn contacts(&self) -> (r: Result<Vec<Contact>, ErrorKind>)
    {
        let items = match self.store.list() {
            Ok(v) => v,
            Err(e) => {
                return Err(e);
            },
        };
        let mut out: Vec<Contact> = Vec::new();
        let mut i: usize = 0;
        while i < items.len()
            invariant
                i <= items@.len(),
            decreases items@.len() - i,
        {
            let (key, value) = (&items[i].0, &items[i].1);
            if key.len() > 0 && key[0] == CONTACT_PREFIX {
                match parse_contact(value.as_slice()) {
                    Some(c) => {
                        out.push(c);
                    },
                    None => {},
                }
            }
            i = i + 1;
        }
        Ok(out)
    }

    /// Opens a batch of address-book changes.
    pub fn batch(&self) -> (r: Batch)
        ensures
            r.ops@ == Seq::<ContactOp>::empty(),
    {
        Batch { ops: Vec::new() }
    }
}

/// One queued address-book change.
#[derive(Clone, Debug)]
pub enum ContactOp {
    Save(Contact),
    Delete(Vec<u8>),
}

/// The store mutation one address-book change compiles to.
pub open spec fn spec_store_op(op: ContactOp) -> StoreOpModel {
    match op {
        ContactOp::Save(c) => StoreOpModel::Put {
            key: spec_contact_key(c.name@),
            value: Contact::spec_encode(c.name@, spec_address_text(c.address)),
        },
        ContactOp::Delete(n) => StoreOpModel::Del { key: spec_contact_key(n@) },
    }
}

/// A batch of address-book changes, applied together on commit.
pub struct Batch {
    pub ops: Vec<ContactOp>,
}

impl Batch {
    /// Queues saving a contact under its name.
    pub fn save_contact(&mut self, contact: Contact)
        ensures
            final(self).ops@ == old(self).ops@.push(ContactOp::Save(contact)),
    {
        self.ops.push(ContactOp::Save(contact));
    }

    /// Queues removing the contact under `name`.
    pub fn delete_contact(&mut self, name: Vec<u8>)
        ensures
            final(self).ops@ == old(self).ops@.push(ContactOp::Delete(name)),
    {
        self.ops.push(ContactOp::Delete(name));
    }

    /// Applies the queued changes to the book in one atomic store batch,
    /// in order: all of them, or none on a store failure.
    pub fn commit<S: ContactStore>(self, backend: &mut Backend<S>) -> (r: Result<(), ErrorKind>)
        ensures
            r is Ok ==> final(backend).store.entries() == spec_apply_store(
                old(backend).store.entries(),
                self.ops@.map_values(|op: ContactOp| spec_store_op(op)),
            ),
            r is Err ==> final(backend).store.entries() == old(backend).store.entries(),
    {
        let mut compiled: Vec<ContactStoreOp> = Vec::new();
        let mut i: usize = 0;
        proof {
            assert(compiled@.map_values(|op: ContactStoreOp| op@) =~= self.ops@.take(
                0,
            ).map_values(|op: ContactOp| spec_store_op(op)));
        }
        while i < self.ops.len()
            invariant
                i <= self.ops@.len(),
                compiled@.map_values(|op: ContactStoreOp| op@) == self.ops@.take(
                    i as int,
                ).map_values(|op: ContactOp| spec_store_op(op)),
            decreases self.ops@.len() - i,
        {
            let ghost compiledp = compiled@;
            match &self.ops[i] {
                ContactOp::Save(contact) => {
                    let key = to_key(contact.name.as_slice());
                    let value = contact.encode();
                    compiled.push(ContactStoreOp::Put(key, value));
                    proof {
                        assert(compiled@.last()@ =~= spec_store_op(self.ops@[i as int]));
                    }
                },
                ContactOp::Delete(name) => {
                    compiled.push(ContactStoreOp::Del(to_key(name.as_slice())));
                    proof {
                        assert(compiled@.last()@ =~= spec_store_op(self.ops@[i as int]));
                    }
                },
            }
            proof {
                assert(self.ops@.take(i + 1 as int) =~= self.ops@.take(i as int).push(
                    self.ops@[i as int],
                ));
                assert(compiled@.map_values(|op: ContactStoreOp| op@) =~= compiledp.map_values(
                    |op: ContactStoreOp| op@,
                ).push(compiled@.last()@));
                assert(self.ops@.take(i + 1 as int).map_values(|op: ContactOp| spec_store_op(op))
                    =~= self.ops@.take(i as int).map_values(|op: ContactOp| spec_store_op(op)).push(
                    spec_store_op(self.ops@[i as int]),
                ));
                assert(compiled@.map_values(|op: ContactStoreOp| op@) =~= self.ops@.take(
                    i + 1 as int,
                ).map_values(|op: ContactOp| spec_store_op(op)));
            }
            i = i + 1;
        }
        proof {
            assert(self.ops@.take(self.ops@.len() as int) =~= self.ops@);
            assert(compiled@.map_values(|op: ContactStoreOp| op@) =~= self.ops@.map_values(
                |op: ContactOp| spec_store_op(op),
            ));
        }
        backend.store.apply(&compiled)
    }
}

/// A stored contact record comes back as it went in: for a plain name and
/// a plain address text, parsing the written record returns both fields
/// unchanged.
pub proof fn lemma_contact_record_round_trip(name: Seq<u8>, addr_text: Seq<u8>)
    requires
        name.len() > 0,
        all_plain(name),
        all_plain(addr_text),
    ensures
        spec_parse_contact(Contact::spec_encode(name, addr_text)) == Some((name, addr_text)),
{
    let s = Contact::spec_encode(name, addr_text);
    let i1 = lit_c_name_pre().len() as int;
    assert(s.subrange(0, i1) =~= lit_c_name_pre());
    assert(s[i1 + name.len()] == 34);
    assert(forall|k: int| i1 <= k < i1 + name.len() ==> s[k] == name[k - i1]);
    crate::protocol::lemma_scan_is(s, i1, i1 + name.len());
    assert(s.subrange(i1, i1 + name.len()) =~= name);
    let i2 = i1 + name.len() + 1;
    assert(s.subrange(i2, i2 + lit_p_addr().len()) =~= lit_p_addr());
    let i3 = i2 + lit_p_addr().len() as int;
    assert(s[i3 + addr_text.len()] == 34);
    assert(forall|k: int| i3 <= k < i3 + addr_text.len() ==> s[k] == addr_text[k - i3]);
    crate::protocol::lemma_scan_is(s, i3, i3 + addr_text.len());
    assert(s.subrange(i3, i3 + addr_text.len()) =~= addr_text);
    let i4 = i3 + addr_text.len() + 1;
    assert(s.subrange(i4, i4 + 1) =~= lit_p_end());
    assert(i4 + 1 == s.len());
}

/// The record text `{"name":"`.
pub open spec fn lit_c_name_pre() -> Seq<u8> {
    seq![123u8, 34u8, 110u8, 97u8, 109u8, 101u8, 34u8, 58u8, 34u8]
}

/// The record text `{"name":"` as bytes.
pub fn lit_c_name_pre_v() -> (r: Vec<u8>)
    ensures
        r@ == lit_c_name_pre(),
{
    let mut v: Vec<u8> = Vec::new();
    v.push(123);
    v.push(34);
    v.push(110);
    v.push(97);
    v.push(109);
    v.push(101);
    v.push(34);
    v.push(58);
    v.push(34);
    proof {
        assert(v@ =~= lit_c_name_pre());
    }
    v
}

/// The record text `","address":"`.
pub open spec fn lit_c_addr() -> Seq<u8> {
    seq![34u8, 44u8, 34u8, 97u8, 100u8, 100u8, 114u8, 101u8, 115u8, 115u8, 34u8, 58u8, 34u8]
}

/// The record text `","address":"` as bytes.
pub fn lit_c_addr_v() -> (r: Vec<u8>)
    ensures
        r@ == lit_c_addr(),
{
    let mut v: Vec<u8> = Vec::new();
    v.push(34);
    v.push(44);
    v.push(34);
    v.push(97);
    v.push(100);
    v.push(100);
    v.push(114);
    v.push(101);
    v.push(115);
    v.push(115);
    v.push(34);
    v.push(58);
    v.push(34);
    proof {
        assert(v@ =~= lit_c_addr());
    }
    v
}

/// The record text `,"address":"`.
pub open spec fn lit_p_addr() -> Seq<u8> {
    seq![44u8, 34u8, 97u8, 100u8, 100u8, 114u8, 101u8, 115u8, 115u8, 34u8, 58u8, 34u8]
}

/// The record text `,"address":"` as bytes.
pub fn lit_p_addr_v() -> (r: Vec<u8>)
    ensures
        r@ == lit_p_addr(),
{
    let mut v: Vec<u8> = Vec::new();
    v.push(44);
    v.push(34);
    v.push(97);
    v.push(100);
    v.push(100);
    v.push(114);
    v.push(101);
    v.push(115);
    v.push(115);
    v.push(34);
    v.push(58);
    v.push(34);
    proof {
        assert(v@ =~= lit_p_addr());
    }
    v
}


} // verus!
