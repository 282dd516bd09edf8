use wallet713::adapter::GrinboxAdapter;
use wallet713::address::{parse_address, Address};
use wallet713::contacts::{to_key, Backend, Contact, ContactStore, ContactStoreOp, CONTACT_PREFIX};
use wallet713::error::ErrorKind;
use wallet713::swaptypes::{currency_from_tag, Currency};

struct MemStore {
    records: Vec<(Vec<u8>, Vec<u8>)>,
}

impl ContactStore for MemStore {
    fn entries(&self) -> vstd::map::Map<vstd::seq::Seq<u8>, vstd::seq::Seq<u8>> {
        panic!()
    }

    fn get(&self, key: &[u8]) -> Result<Option<Vec<u8>>, ErrorKind> {
        for (k, v) in &self.records {
            if k == key {
                return Ok(Some(v.clone()));
            }
        }
        Ok(None)
    }

    fn list(&self) -> Result<Vec<(Vec<u8>, Vec<u8>)>, ErrorKind> {
        Ok(self.records.clone())
    }

    fn apply(&mut self, ops: &Vec<ContactStoreOp>) -> Result<(), ErrorKind> {
        for op in ops {
            match op {
                ContactStoreOp::Put(key, value) => {
                    self.records.retain(|(k, _)| k != key);
                    self.records.push((key.clone(), value.clone()));
                },
                ContactStoreOp::Del(key) => {
                    self.records.retain(|(k, _)| k != key);
                },
            }
        }
        Ok(())
    }
}

#[test]
fn contact_keys_carry_the_prefix() {
    assert_eq!(to_key(b"alice"), vec![CONTACT_PREFIX, 97, 108, 105, 99, 101]);
}

#[test]
fn contact_record_round_trips_through_the_store() {
    let address = parse_address(b"grinbox://alicePk@relay.example:443").unwrap();
    let contact = Contact::new(b"alice".to_vec(), address).unwrap();
    let mut book = Backend::new(MemStore { records: Vec::new() });
    let mut batch = book.batch();
    batch.save_contact(contact);
    batch.commit(&mut book).unwrap();

    let back = book.get_contact(b"alice").unwrap().unwrap();
    assert_eq!(back.name, b"alice".to_vec());
    match back.address {
        Address::Grinbox(g) => {
            assert_eq!(g.public_key, b"alicePk".to_vec());
            assert_eq!(g.domain, b"relay.example".to_vec());
            assert_eq!(g.port, Some(443));
        },
        _ => panic!("expected a relay address"),
    }

    assert!(book.get_contact(b"bob").unwrap().is_none());
    let all = book.contacts().unwrap();
    assert_eq!(all.len(), 1);
    assert_eq!(all[0].name, b"alice".to_vec());

    let mut batch2 = book.batch();
    batch2.delete_contact(b"alice".to_vec());
    batch2.commit(&mut book).unwrap();
    assert!(book.get_contact(b"alice").unwrap().is_none());
}

#[test]
fn contact_names_must_be_plain() {
    let address = parse_address(b"keybase://carol").unwrap();
    assert!(Contact::new(b"".to_vec(), address.clone()).is_err());
    assert!(Contact::new(b"bad\"name".to_vec(), address.clone()).is_err());
    assert!(Contact::new(b"carol".to_vec(), address).is_ok());
}

#[test]
fn contact_addresses_must_write_plainly() {
    // A keybase name may hold arbitrary bytes; one that cannot stand in a
    // record is refused when the contact is made.
    let odd = parse_address(b"keybase://with\"quote").unwrap();
    assert!(Contact::new(b"dave".to_vec(), odd).is_err());
}

#[test]
fn mid_batch_changes_land_together() {
    let a1 = parse_address(b"grinbox://pkOne@relay.example:443").unwrap();
    let a2 = parse_address(b"grinbox://pkTwo@relay.example:443").unwrap();
    let mut book = Backend::new(MemStore { records: Vec::new() });
    let mut batch = book.batch();
    batch.save_contact(Contact::new(b"one".to_vec(), a1).unwrap());
    batch.save_contact(Contact::new(b"two".to_vec(), a2).unwrap());
    batch.delete_contact(b"one".to_vec());
    batch.commit(&mut book).unwrap();
    assert!(book.get_contact(b"one").unwrap().is_none());
    assert!(book.get_contact(b"two").unwrap().is_some());
}

#[test]
fn adapter_offers_only_asynchronous_sending() {
    let adapter = GrinboxAdapter::new();
    assert!(!adapter.supports_sync());
    let slate = wallet713::types::VersionedSlate {
        version: wallet713::types::SlateVersion::V2,
        slate: wallet713::types::Slate {
            id: b"t".to_vec(),
            num_participants: 2,
            participant_data: vec![],
            input_count: 1,
            amount: 1,
        },
    };
    assert_eq!(
        adapter.send_tx_sync(b"x@y:1", &slate).err(),
        Some(ErrorKind::UnsupportedChannel)
    );
}

#[test]
fn currency_tags_resolve_only_known_chains() {
    assert_eq!(currency_from_tag(b"btc"), Some(Currency::Btc));
    assert_eq!(currency_from_tag(b"doge"), None);
    assert_eq!(currency_from_tag(b""), None);
}
