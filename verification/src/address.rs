//! Peer addresses: a public key naming a wallet at a relay host.
//!
//! An address is written `grinbox://<public key>@<domain>:<port>`, where the
//! scheme may be omitted and the port defaults to the protocol port. Two
//! addresses are the same peer when their normalized (stripped) forms agree,
//! with an absent port reading as the default. All address text is handled
//! as UTF-8 bytes.

use vstd::prelude::*;

use crate::encoding::{
    all_domain, all_domain_in, all_key, all_key_in, copy_range, dec_of, dec_val, find_byte_from,
    has_prefix, is_canon_dec, is_domain_byte, is_key_byte, lemma_dec_of_canon, lemma_find_is,
    lemma_find_none, parse_port, spec_find, u64_to_dec,
};
use crate::error::ErrorKind;
use crate::DEFAULT_GRINBOX_PORT;

verus! {

/// The channel an address belongs to.
#[derive(Clone, Copy, Debug, PartialEq, Eq, Structural)]
pub enum AddressType {
    Grinbox,
    Keybase,
}

/// The mathematical shape of a relay address.
#[verifier::ext_equal]
pub struct AddressModel {
    pub public_key: Seq<u8>,
    pub domain: Seq<u8>,
    pub port: Option<u16>,
}

impl AddressModel {
    /// A well-formed address: nonempty key and domain over their alphabets.
    pub open spec fn wf(self) -> bool {
        &&& self.public_key.len() > 0
        &&& all_key(self.public_key)
        &&& self.domain.len() > 0
        &&& all_domain(self.domain)
    }

    /// The normalized (stripped) form: `key@domain` with the port appended
    /// when one is recorded.
    pub open spec fn spec_stripped(self) -> Seq<u8> {
        self.public_key + seq![64u8] + self.domain + match self.port {
            None => Seq::<u8>::empty(),
            Some(p) => seq![58u8] + dec_of(p as nat),
        }
    }

    /// The full written form, with the scheme.
    pub open spec fn spec_full(self) -> Seq<u8> {
        spec_scheme() + self.spec_stripped()
    }

    /// The port that applies: the recorded one, or the protocol default.
    pub open spec fn effective_port(self) -> u16 {
        match self.port {
            None => DEFAULT_GRINBOX_PORT,
            Some(p) => p,
        }
    }
}

/// The scheme prefix `grinbox://`.
pub open spec fn spec_scheme() -> Seq<u8> {
    seq![103u8, 114u8, 105u8, 110u8, 98u8, 111u8, 120u8, 58u8, 47u8, 47u8]
}

/// The scheme prefix `grinbox://` as bytes.
pub fn scheme_bytes() -> (r: Vec<u8>)
    ensures
        r@ == spec_scheme(),
{
    let mut v: Vec<u8> = Vec::new();
    v.push(103);
    v.push(114);
    v.push(105);
    v.push(110);
    v.push(98);
    v.push(111);
    v.push(120);
    v.push(58);
    v.push(47);
    v.push(47);
    proof {
        assert(v@ =~= spec_scheme());
    }
    v
}

/// Parses the body of an address, after any scheme has been removed:
/// `key@domain` with an optional `:port`.
pub open spec fn spec_parse_stripped(s: Seq<u8>) -> Option<AddressModel> {
    match spec_find(s, 64) {
        None => None,
        Some(i) => {
            let pk = s.take(i);
            let rest = s.skip(i + 1);
            if pk.len() == 0 || !all_key(pk) {
                None
            } else {
                match spec_find(rest, 58) {
                    None => if rest.len() > 0 && all_domain(rest) {
                        Some(AddressModel { public_key: pk, domain: rest, port: None })
                    } else {
                        None
                    },
                    Some(j) => {
                        let dom = rest.take(j);
                        let ps = rest.skip(j + 1);
                        if dom.len() > 0 && all_domain(dom) && is_canon_dec(ps) && dec_val(ps)
                            <= 65535 {
                            Some(
                                AddressModel {
                                    public_key: pk,
                                    domain: dom,
                                    port: Some(dec_val(ps) as u16),
                                },
                            )
                        } else {
                            None
                        }
                    },
                }
            }
        },
    }
}

/// Parses an address, with or without its scheme.
pub open spec fn spec_parse(s: Seq<u8>) -> Option<AddressModel> {
    if s.len() >= spec_scheme().len() && s.take(spec_scheme().len() as int) == spec_scheme() {
        spec_parse_stripped(s.skip(spec_scheme().len() as int))
    } else {
        spec_parse_stripped(s)
    }
}

/// A peer identity on the relay: public key, host and optional port.
#[derive(Clone, Debug)]
pub struct GrinboxAddress {
    pub public_key: Vec<u8>,
    pub domain: Vec<u8>,
    pub port: Option<u16>,
}

impl View for GrinboxAddress {
    type V = AddressModel;

    open spec fn view(&self) -> AddressModel {
        AddressModel { public_key: self.public_key@, domain: self.domain@, port: self.port }
    }
}

impl GrinboxAddress {
    /// Builds an address from its parts, rejecting malformed ones.
    pub fn new(public_key: Vec<u8>, domain: Vec<u8>, port: Option<u16>) -> (r: Result<
        GrinboxAddress,
        ErrorKind,
    >)
        ensures
            match r {
                Ok(a) => a@ == (AddressModel { public_key: public_key@, domain: domain@, port })
                    && a@.wf(),
                Err(e) => e == ErrorKind::AddressParseError && !(AddressModel {
                    public_key: public_key@,
                    domain: domain@,
                    port,
                }).wf(),
            },
    {
        let key_ok = public_key.len() > 0 && all_key_in(public_key.as_slice(), 0, public_key.len());
        let dom_ok = domain.len() > 0 && all_domain_in(domain.as_slice(), 0, domain.len());
        if key_ok && dom_ok {
            proof {
                assert(public_key@.subrange(0, public_key@.len() as int) =~= public_key@);
                assert(domain@.subrange(0, domain@.len() as int) =~= domain@);
            }
            Ok(GrinboxAddress { public_key, domain, port })
        } else {
            proof {
                assert(public_key@.subrange(0, public_key@.len() as int) =~= public_key@);
                assert(domain@.subrange(0, domain@.len() as int) =~= domain@);
            }
            Err(ErrorKind::AddressParseError)
        }
    }

    /// Parses the written form of an address, with or without its scheme.
    /// Succeeds exactly on the strings the grammar admits.
    pub fn from_str(s: &[u8]) -> (r: Result<GrinboxAddress, ErrorKind>)
        ensures
            match r {
                Ok(a) => spec_parse(s@) == Some(a@),
                Err(e) => e == ErrorKind::AddressParseError && spec_parse(s@) is None,
            },
    {
        let scheme = scheme_bytes();
        let body_from: usize = if has_prefix(s, scheme.as_slice()) {
            10
        } else {
            0
        };
        let ghost body = s@.skip(body_from as int);
        proof {
            if body_from == 0 {
                assert(body =~= s@);
            }
        }
        match Self::parse_body(s, body_from) {
            Some(a) => {
                assert(spec_parse(s@) == spec_parse_stripped(body));
                Ok(a)
            },
            None => {
                assert(spec_parse(s@) == spec_parse_stripped(body));
                Err(ErrorKind::AddressParseError)
            },
        }
    }

    /// Parses `key@domain[:port]` from `s` at `from`.
    #[verifier::loop_isolation(false)]
    fn parse_body(s: &[u8], from: usize) -> (r: Option<GrinboxAddress>)
        requires
            from <= s@.len(),
        ensures
            match r {
                Some(a) => spec_parse_stripped(s@.skip(from as int)) == Some(a@),
                None => spec_parse_stripped(s@.skip(from as int)) is None,
            },
    {
        let n: usize = s.len();
        let ghost body = s@.skip(from as int);
        let at: usize = match find_byte_from(s, from, 64) {
            Some(i) => i,
            None => {
                return None;
            },
        };
        assert(from <= at < s@.len());
        let ghost pk = body.take(at - from);
        let ghost rest = body.skip(at - from + 1);
        proof {
            assert(pk =~= s@.subrange(from as int, at as int));
            assert(rest =~= s@.skip(at + 1 as int));
        }
        if at == from || !all_key_in(s, from, at) {
            return None;
        }
        let colon = find_byte_from(s, at + 1, 58);
        match colon {
            None => {
                if at + 1 == s.len() || !all_domain_in(s, at + 1, s.len()) {
                    proof {
                        assert(rest =~= s@.subrange(at + 1 as int, s@.len() as int));
                    }
                    return None;
                }
                let a = GrinboxAddress {
                    public_key: copy_range(s, from, at),
                    domain: copy_range(s, at + 1, s.len()),
                    port: None,
                };
                proof {
                    assert(rest =~= s@.subrange(at + 1 as int, s@.len() as int));
                    assert(spec_parse_stripped(body) == Some(a@));
                }
                Some(a)
            },
            Some(c) => {
                assert(at + 1 <= c < s@.len());
                let ghost dom = rest.take(c - (at + 1));
                let ghost ps = rest.skip(c - (at + 1) + 1);
                proof {
                    assert(dom =~= s@.subrange(at + 1 as int, c as int));
                    assert(ps =~= s@.subrange(c + 1 as int, s@.len() as int));
                }
                if c == at + 1 || !all_domain_in(s, at + 1, c) {
                    return None;
                }
                let port = match parse_port(s, c + 1, s.len()) {
                    Some(p) => p,
                    None => {
                        return None;
                    },
                };
                let a = GrinboxAddress {
                    public_key: copy_range(s, from, at),
                    domain: copy_range(s, at + 1, c),
                    port: Some(port),
                };
                proof {
                    assert(spec_parse_stripped(body) == Some(a@));
                }
                Some(a)
            },
        }
    }

    /// An owned copy of this address.
    pub fn duplicate(&self) -> (r: GrinboxAddress)
        ensures
            r@ == self@,
    {
        let r = GrinboxAddress {
            public_key: copy_range(self.public_key.as_slice(), 0, self.public_key.len()),
            domain: copy_range(self.domain.as_slice(), 0, self.domain.len()),
            port: self.port,
        };
        proof {
            assert(r@.public_key =~= self@.public_key);
            assert(r@.domain =~= self@.domain);
        }
        r
    }

    /// The normalized written form, without the scheme.
    pub fn stripped(&self) -> (r: Vec<u8>)
        ensures
            r@ == self@.spec_stripped(),
    {
        let mut v: Vec<u8> = Vec::new();
        crate::encoding::append_bytes(&mut v, self.public_key.as_slice());
        v.push(64);
        crate::encoding::append_bytes(&mut v, self.domain.as_slice());
        match self.port {
            None => {
                proof {
                    assert(v@ =~= self@.spec_stripped());
                }
            },
            Some(p) => {
                v.push(58);
                let d = u64_to_dec(p as u64);
                crate::encoding::append_bytes(&mut v, d.as_slice());
                proof {
                    assert(v@ =~= self@.spec_stripped());
                }
            },
        }
        v
    }

    /// The full written form, with the scheme.
    pub fn stringify(&self) -> (r: Vec<u8>)
        ensures
            r@ == self@.spec_full(),
    {
        let mut v = scheme_bytes();
        let body = self.stripped();
        crate::encoding::append_bytes(&mut v, body.as_slice());
        v
    }
}

/// Parsing inverts writing: every well-formed address comes back from
/// either of its written forms.
pub proof fn lemma_address_round_trip(m: AddressModel)
    requires
        m.wf(),
    ensures
        spec_parse(m.spec_full()) == Some(m),
        spec_parse(m.spec_stripped()) == Some(m),
{
    lemma_stripped_parses(m);
    let f = m.spec_full();
    assert(f.take(spec_scheme().len() as int) =~= spec_scheme());
    assert(f.skip(spec_scheme().len() as int) =~= m.spec_stripped());
    let s = m.spec_stripped();
    // A stripped form never begins with the scheme: its key may not hold `:`.
    if s.len() >= spec_scheme().len() && s.take(spec_scheme().len() as int) == spec_scheme() {
        if m.public_key.len() >= 8 {
            assert(s[7] == m.public_key[7]);
            assert(is_key_byte(m.public_key[7]));
            assert(spec_scheme()[7] == 58);
            assert(false);
        } else {
            // The `@` after the key falls inside the scheme, which has none.
            let k = m.public_key.len() as int;
            assert(s[k] == 64);
            assert(s[k] == spec_scheme()[k]);
            assert(false);
        }
    }
}

/// A well-formed address's stripped form parses back to it.
proof fn lemma_stripped_parses(m: AddressModel)
    requires
        m.wf(),
    ensures
        spec_parse_stripped(m.spec_stripped()) == Some(m),
{
    let s = m.spec_stripped();
    let k = m.public_key.len() as int;
    assert(s[k] == 64);
    assert(forall|j: int| 0 <= j < k ==> s[j] == m.public_key[j]);
    lemma_find_is(s, 64, k);
    assert(s.take(k) =~= m.public_key);
    let rest = s.skip(k + 1);
    match m.port {
        None => {
            assert(rest =~= m.domain);
            lemma_find_none(rest, 58);
        },
        Some(p) => {
            lemma_dec_of_canon(p as nat);
            let d = m.domain.len() as int;
            assert(rest =~= m.domain + seq![58u8] + dec_of(p as nat));
            assert(rest[d] == 58);
            assert(forall|j: int| 0 <= j < d ==> rest[j] == m.domain[j]);
            lemma_find_is(rest, 58, d);
            assert(rest.take(d) =~= m.domain);
            assert(rest.skip(d + 1) =~= dec_of(p as nat));
            assert(spec_parse_stripped(s) == Some(m));
        },
    }
}

/// An address of either channel.
#[derive(Clone, Debug)]
pub enum Address {
    Grinbox(GrinboxAddress),
    Keybase(Vec<u8>),
}

/// The scheme prefix `keybase://`.
pub open spec fn spec_keybase_scheme() -> Seq<u8> {
    seq![107u8, 101u8, 121u8, 98u8, 97u8, 115u8, 101u8, 58u8, 47u8, 47u8]
}

/// The scheme prefix `keybase://` as bytes.
fn keybase_scheme_bytes() -> (r: Vec<u8>)
    ensures
        r@ == spec_keybase_scheme(),
{
    let mut v: Vec<u8> = Vec::new();
    v.push(107);
    v.push(101);
    v.push(121);
    v.push(98);
    v.push(97);
    v.push(115);
    v.push(101);
    v.push(58);
    v.push(47);
    v.push(47);
    proof {
        assert(v@ =~= spec_keybase_scheme());
    }
    v
}

impl Address {
    /// The channel this address belongs to.
    pub fn address_type(&self) -> (r: AddressType)
        ensures
            r == (match self {
                Address::Grinbox(_) => AddressType::Grinbox,
                Address::Keybase(_) => AddressType::Keybase,
            }),
    {
        match self {
            Address::Grinbox(_) => AddressType::Grinbox,
            Address::Keybase(_) => AddressType::Keybase,
        }
    }

    /// The full written form of the address.
    pub fn stringify(&self) -> (r: Vec<u8>)
        ensures
            match self {
                Address::Grinbox(a) => r@ == a@.spec_full(),
                Address::Keybase(u) => r@ == spec_keybase_scheme() + u@,
            },
    {
        match self {
            Address::Grinbox(a) => a.stringify(),
            Address::Keybase(u) => {
                let mut v = keybase_scheme_bytes();
                crate::encoding::append_bytes(&mut v, u.as_slice());
                v
            },
        }
    }

    /// The normalized written form of the address.
    pub fn stripped(&self) -> (r: Vec<u8>)
        ensures
            match self {
                Address::Grinbox(a) => r@ == a@.spec_stripped(),
                Address::Keybase(u) => r@ == u@,
            },
    {
        match self {
            Address::Grinbox(a) => a.stripped(),
            Address::Keybase(u) => {
                let mut v: Vec<u8> = Vec::new();
                crate::encoding::append_bytes(&mut v, u.as_slice());
                v
            },
        }
    }
}

/// Whether a string names a keybase peer: the keybase scheme followed by
/// at least one byte.
pub open spec fn spec_keybase_prefixed(s: Seq<u8>) -> bool {
    s.len() > spec_keybase_scheme().len() && s.take(spec_keybase_scheme().len() as int)
        == spec_keybase_scheme()
}

/// Parses an address of either channel. Fails exactly on the strings that
/// are neither a keybase name nor a relay address.
pub fn parse_address(s: &[u8]) -> (r: Result<Address, ErrorKind>)
    ensures
        match r {
            Ok(a) => match a {
                Address::Grinbox(g) => spec_parse(s@) == Some(g@),
                Address::Keybase(u) => spec_keybase_prefixed(s@) && u@ == s@.skip(
                    spec_keybase_scheme().len() as int,
                ),
            },
            Err(e) => e == ErrorKind::AddressParseError,
        },
        r is Err <==> (!spec_keybase_prefixed(s@) && spec_parse(s@) is None),
{
    let kb = keybase_scheme_bytes();
    if has_prefix(s, kb.as_slice()) && s.len() > kb.len() {
        let u = copy_range(s, 10, s.len());
        proof {
            assert(u@ =~= s@.skip(10));
        }
        Ok(Address::Keybase(u))
    } else {
        match GrinboxAddress::from_str(s) {
            Ok(a) => Ok(Address::Grinbox(a)),
            Err(e) => Err(e),
        }
    }
}

} // verus!
