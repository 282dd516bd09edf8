use wallet713::address::{parse_address, Address, AddressType, GrinboxAddress};
use wallet713::error::ErrorKind;

#[test]
fn address_round_trip_with_port() {
    let a = GrinboxAddress::new(b"xMgrinPk1".to_vec(), b"relay.example.com".to_vec(), Some(13420))
        .unwrap();
    let text = a.stringify();
    assert_eq!(text, b"grinbox://xMgrinPk1@relay.example.com:13420".to_vec());
    let b = GrinboxAddress::from_str(&text).unwrap();
    assert_eq!(b.public_key, a.public_key);
    assert_eq!(b.domain, a.domain);
    assert_eq!(b.port, a.port);
}

#[test]
fn address_round_trip_without_port() {
    let a = GrinboxAddress::new(b"pk7".to_vec(), b"h.example".to_vec(), None).unwrap();
    let text = a.stringify();
    assert_eq!(text, b"grinbox://pk7@h.example".to_vec());
    let b = GrinboxAddress::from_str(&text).unwrap();
    assert_eq!(b.public_key, b"pk7".to_vec());
    assert_eq!(b.domain, b"h.example".to_vec());
    assert_eq!(b.port, None);
}

#[test]
fn address_round_trip_stripped_form() {
    let a = GrinboxAddress::new(b"Key9".to_vec(), b"node-1.relay.io".to_vec(), Some(443)).unwrap();
    let stripped = a.stripped();
    assert_eq!(stripped, b"Key9@node-1.relay.io:443".to_vec());
    let b = GrinboxAddress::from_str(&stripped).unwrap();
    assert_eq!(b.public_key, a.public_key);
    assert_eq!(b.domain, a.domain);
    assert_eq!(b.port, a.port);
}

#[test]
fn address_rejects_malformed_text() {
    assert!(GrinboxAddress::from_str(b"").is_err());
    assert!(GrinboxAddress::from_str(b"nodomain").is_err());
    assert!(GrinboxAddress::from_str(b"@missingkey.example").is_err());
    assert!(GrinboxAddress::from_str(b"pk@").is_err());
    assert!(GrinboxAddress::from_str(b"pk@host:notaport").is_err());
    assert!(GrinboxAddress::from_str(b"pk@host:99999").is_err());
    assert!(GrinboxAddress::from_str(b"pk@host:0443").is_err());
    assert!(GrinboxAddress::from_str(b"pk!bad@host").is_err());
}

#[test]
fn address_new_rejects_bad_alphabets() {
    let r = GrinboxAddress::new(b"has space".to_vec(), b"ok.example".to_vec(), None);
    assert!(matches!(r, Err(ErrorKind::AddressParseError)));
    let r2 = GrinboxAddress::new(b"".to_vec(), b"ok.example".to_vec(), None);
    assert!(r2.is_err());
    let r3 = GrinboxAddress::new(b"pk".to_vec(), b"bad_host".to_vec(), None);
    assert!(r3.is_err());
}

#[test]
fn parse_address_dispatches_on_scheme() {
    let g = parse_address(b"grinbox://pk@relay.example:443").unwrap();
    assert_eq!(g.address_type(), AddressType::Grinbox);
    let k = parse_address(b"keybase://somebody").unwrap();
    assert_eq!(k.address_type(), AddressType::Keybase);
    match k {
        Address::Keybase(u) => assert_eq!(u, b"somebody".to_vec()),
        _ => panic!("expected a keybase address"),
    }
    assert!(parse_address(b"keybase://").is_err());
}

#[test]
fn address_stringify_keybase() {
    let k = parse_address(b"keybase://carol").unwrap();
    assert_eq!(k.stringify(), b"keybase://carol".to_vec());
    assert_eq!(k.stripped(), b"carol".to_vec());
}
