//! The wire protocol: structured text frames exchanged with the relay.
//!
//! Client to server: `Subscribe` and `PostSlate` requests. Server to
//! client: `Challenge`, `Slate` and `Error` responses. A frame is a JSON
//! object in a fixed canonical form: fields in a fixed order, string
//! values made of plain bytes (no quote, backslash or control bytes), and
//! the encrypted payload nested as an object of hex fields, so no value
//! ever needs escaping. The encoder emits exactly this form and the parser
//! accepts exactly this form; anything else is dropped as a protocol
//! error by the caller.

use vstd::prelude::*;

use crate::encoding::append_bytes;
use crate::encoding::copy_range;

verus! {

/// A byte that may stand unescaped in a string value: printable, not a
/// quote, not a backslash.
pub open spec fn is_plain_byte(c: u8) -> bool {
    c >= 32 && c != 34 && c != 92
}

/// Whether every byte of `s` may stand in a string value.
pub open spec fn all_plain(s: Seq<u8>) -> bool {
    forall|i: int| 0 <= i < s.len() ==> is_plain_byte(#[trigger] s[i])
}

/// Reads a string value from position `i` up to its closing quote.
/// Returns the value and the position after the quote.
pub open spec fn spec_scan(s: Seq<u8>, i: int) -> Option<(Seq<u8>, int)>
    decreases s.len() - i when 0 <= i <= s.len()
{
    if i >= s.len() {
        None
    } else if s[i] == 34 {
        Some((Seq::empty(), i + 1))
    } else if is_plain_byte(s[i]) {
        match spec_scan(s, i + 1) {
            None => None,
            Some((v, j)) => Some((seq![s[i]] + v, j)),
        }
    } else {
        None
    }
}

/// A plain run ending in a quote is what `spec_scan` reads.
pub proof fn lemma_scan_is(s: Seq<u8>, i: int, j: int)
    requires
        0 <= i <= j < s.len(),
        s[j] == 34,
        forall|k: int| i <= k < j ==> is_plain_byte(#[trigger] s[k]),
    ensures
        spec_scan(s, i) == Some((s.subrange(i, j), j + 1)),
    decreases j - i,
{
    if i == j {
        assert(s.subrange(i, j) =~= Seq::<u8>::empty());
    } else {
        lemma_scan_is(s, i + 1, j);
        assert(seq![s[i]] + s.subrange(i + 1, j) =~= s.subrange(i, j));
    }
}

/// A non-plain byte before any quote stops the scan.
pub proof fn lemma_scan_bad(s: Seq<u8>, i: int, j: int)
    requires
        0 <= i <= j < s.len(),
        s[j] != 34,
        !is_plain_byte(s[j]),
        forall|k: int| i <= k < j ==> is_plain_byte(#[trigger] s[k]),
    ensures
        spec_scan(s, i) is None,
    decreases j - i,
{
    if i < j {
        lemma_scan_bad(s, i + 1, j);
    }
}

/// Without a closing quote the scan fails.
pub proof fn lemma_scan_noquote(s: Seq<u8>, i: int)
    requires
        0 <= i <= s.len(),
        forall|k: int| i <= k < s.len() ==> is_plain_byte(#[trigger] s[k]),
    ensures
        spec_scan(s, i) is None,
    decreases s.len() - i,
{
    if i < s.len() {
        lemma_scan_noquote(s, i + 1);
    }
}

/// Reads a string value from `from` up to its closing quote.
#[verifier::loop_isolation(false)]
pub fn scan_string(s: &[u8], from: usize) -> (r: Option<(Vec<u8>, usize)>)
    requires
        from <= s@.len(),
    ensures
        match r {
            Some(v) => spec_scan(s@, from as int) == Some((v.0@, v.1 as int)) && v.1
                <= s@.len(),
            None => spec_scan(s@, from as int) is None,
        },
{
    let n: usize = s.len();
    let mut j: usize = from;
    while j < n
        invariant
            from <= j <= n,
            forall|k: int| from <= k < j ==> is_plain_byte(#[trigger] s@[k]),
        decreases n - j,
    {
        let c = s[j];
        if c == 34 {
            let v = copy_range(s, from, j);
            proof {
                lemma_scan_is(s@, from as int, j as int);
            }
            return Some((v, j + 1));
        }
        if c < 32 || c == 92 {
            proof {
                lemma_scan_bad(s@, from as int, j as int);
            }
            return None;
        }
        j = j + 1;
    }
    proof {
        lemma_scan_noquote(s@, from as int);
    }
    None
}

/// Requires the literal `lit` at position `i`; the position after it on
/// success.
pub open spec fn spec_expect(s: Seq<u8>, i: int, lit: Seq<u8>) -> Option<int> {
    if 0 <= i && i + lit.len() <= s.len() && s.subrange(i, i + lit.len() as int) == lit {
        Some(i + lit.len() as int)
    } else {
        None
    }
}

/// Matches the literal `lit` at position `from`.
#[verifier::loop_isolation(false)]
pub fn expect_lit(s: &[u8], from: usize, lit: &[u8]) -> (r: Option<usize>)
    requires
        from <= s@.len(),
    ensures
        match r {
            Some(j) => spec_expect(s@, from as int, lit@) == Some(j as int) && j <= s@.len(),
            None => spec_expect(s@, from as int, lit@) is None,
        },
{
    let n: usize = s.len();
    if lit.len() > n - from {
        return None;
    }
    let mut k: usize = 0;
    while k < lit.len()
        invariant
            k <= lit@.len(),
            from + lit@.len() <= n,
            forall|t: int| 0 <= t < k ==> s@[from + t] == lit@[t],
        decreases lit@.len() - k,
    {
        if s[from + k] != lit[k] {
            proof {
                let ki = k as int;
                assert(s@.subrange(from as int, from + lit@.len() as int)[ki] != lit@[ki]);
            }
            return None;
        }
        k = k + 1;
    }
    proof {
        assert(s@.subrange(from as int, from + lit@.len() as int) =~= lit@);
    }
    Some(from + lit.len())
}

/// The frame text `{"type":"Subscribe","address":"`.
pub open spec fn lit_sub_pre() -> Seq<u8> {
    seq![123u8, 34u8, 116u8, 121u8, 112u8, 101u8, 34u8, 58u8, 34u8, 83u8, 117u8, 98u8, 115u8, 99u8, 114u8, 105u8, 98u8, 101u8, 34u8, 44u8, 34u8, 97u8, 100u8, 100u8, 114u8, 101u8, 115u8, 115u8, 34u8, 58u8, 34u8]
}

/// The frame text `{"type":"Subscribe","address":"` as bytes.
pub fn lit_sub_pre_v() -> (r: Vec<u8>)
    ensures
        r@ == lit_sub_pre(),
{
    let mut v: Vec<u8> = Vec::new();
    v.push(123);
    v.push(34);
    v.push(116);
    v.push(121);
    v.push(112);
    v.push(101);
    v.push(34);
    v.push(58);
    v.push(34);
    v.push(83);
    v.push(117);
    v.push(98);
    v.push(115);
    v.push(99);
    v.push(114);
    v.push(105);
    v.push(98);
    v.push(101);
    v.push(34);
    v.push(44);
    v.push(34);
    v.push(97);
    v.push(100);
    v.push(100);
    v.push(114);
    v.push(101);
    v.push(115);
    v.push(115);
    v.push(34);
    v.push(58);
    v.push(34);
    proof {
        assert(v@ =~= lit_sub_pre());
    }
    v
}

/// The frame text `{"type":"PostSlate","from":"`.
pub open spec fn lit_post_pre() -> Seq<u8> {
    seq![123u8, 34u8, 116u8, 121u8, 112u8, 101u8, 34u8, 58u8, 34u8, 80u8, 111u8, 115u8, 116u8, 83u8, 108u8, 97u8, 116u8, 101u8, 34u8, 44u8, 34u8, 102u8, 114u8, 111u8, 109u8, 34u8, 58u8, 34u8]
}

/// The frame text `{"type":"PostSlate","from":"` as bytes.
pub fn lit_post_pre_v() -> (r: Vec<u8>)
    ensures
        r@ == lit_post_pre(),
{
    let mut v: Vec<u8> = Vec::new();
    v.push(123);
    v.push(34);
    v.push(116);
    v.push(121);
    v.push(112);
    v.push(101);
    v.push(34);
    v.push(58);
    v.push(34);
    v.push(80);
    v.push(111);
    v.push(115);
    v.push(116);
    v.push(83);
    v.push(108);
    v.push(97);
    v.push(116);
    v.push(101);
    v.push(34);
    v.push(44);
    v.push(34);
    v.push(102);
    v.push(114);
    v.push(111);
    v.push(109);
    v.push(34);
    v.push(58);
    v.push(34);
    proof {
        assert(v@ =~= lit_post_pre());
    }
    v
}

/// The frame text `","to":"`.
pub open spec fn lit_q_to() -> Seq<u8> {
    seq![34u8, 44u8, 34u8, 116u8, 111u8, 34u8, 58u8, 34u8]
}

/// The frame text `","to":"` as bytes.
pub fn lit_q_to_v() -> (r: Vec<u8>)
    ensures
        r@ == lit_q_to(),
{
    let mut v: Vec<u8> = Vec::new();
    v.push(34);
    v.push(44);
    v.push(34);
    v.push(116);
    v.push(111);
    v.push(34);
    v.push(58);
    v.push(34);
    proof {
        assert(v@ =~= lit_q_to());
    }
    v
}

/// The frame text `","str":`.
pub open spec fn lit_q_str() -> Seq<u8> {
    seq![34u8, 44u8, 34u8, 115u8, 116u8, 114u8, 34u8, 58u8]
}

/// The frame text `","str":` as bytes.
pub fn lit_q_str_v() -> (r: Vec<u8>)
    ensures
        r@ == lit_q_str(),
{
    let mut v: Vec<u8> = Vec::new();
    v.push(34);
    v.push(44);
    v.push(34);
    v.push(115);
    v.push(116);
    v.push(114);
    v.push(34);
    v.push(58);
    proof {
        assert(v@ =~= lit_q_str());
    }
    v
}

/// The frame text `,"str":`.
pub open spec fn lit_p_str() -> Seq<u8> {
    seq![44u8, 34u8, 115u8, 116u8, 114u8, 34u8, 58u8]
}

/// The frame text `,"str":` as bytes.
pub fn lit_p_str_v() -> (r: Vec<u8>)
    ensures
        r@ == lit_p_str(),
{
    let mut v: Vec<u8> = Vec::new();
    v.push(44);
    v.push(34);
    v.push(115);
    v.push(116);
    v.push(114);
    v.push(34);
    v.push(58);
    proof {
        assert(v@ =~= lit_p_str());
    }
    v
}

/// The frame text `,"signature":"`.
pub open spec fn lit_c_sig() -> Seq<u8> {
    seq![44u8, 34u8, 115u8, 105u8, 103u8, 110u8, 97u8, 116u8, 117u8, 114u8, 101u8, 34u8, 58u8, 34u8]
}

/// The frame text `,"signature":"` as bytes.
pub fn lit_c_sig_v() -> (r: Vec<u8>)
    ensures
        r@ == lit_c_sig(),
{
    let mut v: Vec<u8> = Vec::new();
    v.push(44);
    v.push(34);
    v.push(115);
    v.push(105);
    v.push(103);
    v.push(110);
    v.push(97);
    v.push(116);
    v.push(117);
    v.push(114);
    v.push(101);
    v.push(34);
    v.push(58);
    v.push(34);
    proof {
        assert(v@ =~= lit_c_sig());
    }
    v
}

/// The frame text `","signature":"`.
pub open spec fn lit_q_sig() -> Seq<u8> {
    seq![34u8, 44u8, 34u8, 115u8, 105u8, 103u8, 110u8, 97u8, 116u8, 117u8, 114u8, 101u8, 34u8, 58u8, 34u8]
}

/// The frame text `","signature":"` as bytes.
pub fn lit_q_sig_v() -> (r: Vec<u8>)
    ensures
        r@ == lit_q_sig(),
{
    let mut v: Vec<u8> = Vec::new();
    v.push(34);
    v.push(44);
    v.push(34);
    v.push(115);
    v.push(105);
    v.push(103);
    v.push(110);
    v.push(97);
    v.push(116);
    v.push(117);
    v.push(114);
    v.push(101);
    v.push(34);
    v.push(58);
    v.push(34);
    proof {
        assert(v@ =~= lit_q_sig());
    }
    v
}

/// The frame text `"}`.
pub open spec fn lit_q_end() -> Seq<u8> {
    seq![34u8, 125u8]
}

/// The frame text `"}` as bytes.
pub fn lit_q_end_v() -> (r: Vec<u8>)
    ensures
        r@ == lit_q_end(),
{
    let mut v: Vec<u8> = Vec::new();
    v.push(34);
    v.push(125);
    proof {
        assert(v@ =~= lit_q_end());
    }
    v
}

/// The frame text `}`.
pub open spec fn lit_p_end() -> Seq<u8> {
    seq![125u8]
}

/// The frame text `}` as bytes.
pub fn lit_p_end_v() -> (r: Vec<u8>)
    ensures
        r@ == lit_p_end(),
{
    let mut v: Vec<u8> = Vec::new();
    v.push(125);
    proof {
        assert(v@ =~= lit_p_end());
    }
    v
}

/// The frame text `{"type":"Challenge","str":"`.
pub open spec fn lit_chal_pre() -> Seq<u8> {
    seq![123u8, 34u8, 116u8, 121u8, 112u8, 101u8, 34u8, 58u8, 34u8, 67u8, 104u8, 97u8, 108u8, 108u8, 101u8, 110u8, 103u8, 101u8, 34u8, 44u8, 34u8, 115u8, 116u8, 114u8, 34u8, 58u8, 34u8]
}

/// The frame text `{"type":"Challenge","str":"` as bytes.
pub fn lit_chal_pre_v() -> (r: Vec<u8>)
    ensures
        r@ == lit_chal_pre(),
{
    let mut v: Vec<u8> = Vec::new();
    v.push(123);
    v.push(34);
    v.push(116);
    v.push(121);
    v.push(112);
    v.push(101);
    v.push(34);
    v.push(58);
    v.push(34);
    v.push(67);
    v.push(104);
    v.push(97);
    v.push(108);
    v.push(108);
    v.push(101);
    v.push(110);
    v.push(103);
    v.push(101);
    v.push(34);
    v.push(44);
    v.push(34);
    v.push(115);
    v.push(116);
    v.push(114);
    v.push(34);
    v.push(58);
    v.push(34);
    proof {
        assert(v@ =~= lit_chal_pre());
    }
    v
}

/// The frame text `{"type":"Slate","from":"`.
pub open spec fn lit_slate_pre() -> Seq<u8> {
    seq![123u8, 34u8, 116u8, 121u8, 112u8, 101u8, 34u8, 58u8, 34u8, 83u8, 108u8, 97u8, 116u8, 101u8, 34u8, 44u8, 34u8, 102u8, 114u8, 111u8, 109u8, 34u8, 58u8, 34u8]
}

/// The frame text `{"type":"Slate","from":"` as bytes.
pub fn lit_slate_pre_v() -> (r: Vec<u8>)
    ensures
        r@ == lit_slate_pre(),
{
    let mut v: Vec<u8> = Vec::new();
    v.push(123);
    v.push(34);
    v.push(116);
    v.push(121);
    v.push(112);
    v.push(101);
    v.push(34);
    v.push(58);
    v.push(34);
    v.push(83);
    v.push(108);
    v.push(97);
    v.push(116);
    v.push(101);
    v.push(34);
    v.push(44);
    v.push(34);
    v.push(102);
    v.push(114);
    v.push(111);
    v.push(109);
    v.push(34);
    v.push(58);
    v.push(34);
    proof {
        assert(v@ =~= lit_slate_pre());
    }
    v
}

/// The frame text `,"challenge":"`.
pub open spec fn lit_q_chal() -> Seq<u8> {
    seq![44u8, 34u8, 99u8, 104u8, 97u8, 108u8, 108u8, 101u8, 110u8, 103u8, 101u8, 34u8, 58u8, 34u8]
}

/// The frame text `,"challenge":"` as bytes.
pub fn lit_q_chal_v() -> (r: Vec<u8>)
    ensures
        r@ == lit_q_chal(),
{
    let mut v: Vec<u8> = Vec::new();
    v.push(44);
    v.push(34);
    v.push(99);
    v.push(104);
    v.push(97);
    v.push(108);
    v.push(108);
    v.push(101);
    v.push(110);
    v.push(103);
    v.push(101);
    v.push(34);
    v.push(58);
    v.push(34);
    proof {
        assert(v@ =~= lit_q_chal());
    }
    v
}

/// The frame text `{"type":"Error","kind":"`.
pub open spec fn lit_err_pre() -> Seq<u8> {
    seq![123u8, 34u8, 116u8, 121u8, 112u8, 101u8, 34u8, 58u8, 34u8, 69u8, 114u8, 114u8, 111u8, 114u8, 34u8, 44u8, 34u8, 107u8, 105u8, 110u8, 100u8, 34u8, 58u8, 34u8]
}

/// The frame text `{"type":"Error","kind":"` as bytes.
pub fn lit_err_pre_v() -> (r: Vec<u8>)
    ensures
        r@ == lit_err_pre(),
{
    let mut v: Vec<u8> = Vec::new();
    v.push(123);
    v.push(34);
    v.push(116);
    v.push(121);
    v.push(112);
    v.push(101);
    v.push(34);
    v.push(58);
    v.push(34);
    v.push(69);
    v.push(114);
    v.push(114);
    v.push(111);
    v.push(114);
    v.push(34);
    v.push(44);
    v.push(34);
    v.push(107);
    v.push(105);
    v.push(110);
    v.push(100);
    v.push(34);
    v.push(58);
    v.push(34);
    proof {
        assert(v@ =~= lit_err_pre());
    }
    v
}

/// The frame text `","description":"`.
pub open spec fn lit_q_desc() -> Seq<u8> {
    seq![34u8, 44u8, 34u8, 100u8, 101u8, 115u8, 99u8, 114u8, 105u8, 112u8, 116u8, 105u8, 111u8, 110u8, 34u8, 58u8, 34u8]
}

/// The frame text `","description":"` as bytes.
pub fn lit_q_desc_v() -> (r: Vec<u8>)
    ensures
        r@ == lit_q_desc(),
{
    let mut v: Vec<u8> = Vec::new();
    v.push(34);
    v.push(44);
    v.push(34);
    v.push(100);
    v.push(101);
    v.push(115);
    v.push(99);
    v.push(114);
    v.push(105);
    v.push(112);
    v.push(116);
    v.push(105);
    v.push(111);
    v.push(110);
    v.push(34);
    v.push(58);
    v.push(34);
    proof {
        assert(v@ =~= lit_q_desc());
    }
    v
}

/// The frame text `,"description":"`.
pub open spec fn lit_p_desc() -> Seq<u8> {
    seq![44u8, 34u8, 100u8, 101u8, 115u8, 99u8, 114u8, 105u8, 112u8, 116u8, 105u8, 111u8, 110u8, 34u8, 58u8, 34u8]
}

/// The frame text `,"description":"` as bytes.
pub fn lit_p_desc_v() -> (r: Vec<u8>)
    ensures
        r@ == lit_p_desc(),
{
    let mut v: Vec<u8> = Vec::new();
    v.push(44);
    v.push(34);
    v.push(100);
    v.push(101);
    v.push(115);
    v.push(99);
    v.push(114);
    v.push(105);
    v.push(112);
    v.push(116);
    v.push(105);
    v.push(111);
    v.push(110);
    v.push(34);
    v.push(58);
    v.push(34);
    proof {
        assert(v@ =~= lit_p_desc());
    }
    v
}

/// The frame text `{"destination":"`.
pub open spec fn lit_env_pre() -> Seq<u8> {
    seq![123u8, 34u8, 100u8, 101u8, 115u8, 116u8, 105u8, 110u8, 97u8, 116u8, 105u8, 111u8, 110u8, 34u8, 58u8, 34u8]
}

/// The frame text `{"destination":"` as bytes.
pub fn lit_env_pre_v() -> (r: Vec<u8>)
    ensures
        r@ == lit_env_pre(),
{
    let mut v: Vec<u8> = Vec::new();
    v.push(123);
    v.push(34);
    v.push(100);
    v.push(101);
    v.push(115);
    v.push(116);
    v.push(105);
    v.push(110);
    v.push(97);
    v.push(116);
    v.push(105);
    v.push(111);
    v.push(110);
    v.push(34);
    v.push(58);
    v.push(34);
    proof {
        assert(v@ =~= lit_env_pre());
    }
    v
}

/// The frame text `","nonce":"`.
pub open spec fn lit_q_nonce() -> Seq<u8> {
    seq![34u8, 44u8, 34u8, 110u8, 111u8, 110u8, 99u8, 101u8, 34u8, 58u8, 34u8]
}

/// The frame text `","nonce":"` as bytes.
pub fn lit_q_nonce_v() -> (r: Vec<u8>)
    ensures
        r@ == lit_q_nonce(),
{
    let mut v: Vec<u8> = Vec::new();
    v.push(34);
    v.push(44);
    v.push(34);
    v.push(110);
    v.push(111);
    v.push(110);
    v.push(99);
    v.push(101);
    v.push(34);
    v.push(58);
    v.push(34);
    proof {
        assert(v@ =~= lit_q_nonce());
    }
    v
}

/// The frame text `,"nonce":"`.
pub open spec fn lit_p_nonce() -> Seq<u8> {
    seq![44u8, 34u8, 110u8, 111u8, 110u8, 99u8, 101u8, 34u8, 58u8, 34u8]
}

/// The frame text `,"nonce":"` as bytes.
pub fn lit_p_nonce_v() -> (r: Vec<u8>)
    ensures
        r@ == lit_p_nonce(),
{
    let mut v: Vec<u8> = Vec::new();
    v.push(44);
    v.push(34);
    v.push(110);
    v.push(111);
    v.push(110);
    v.push(99);
    v.push(101);
    v.push(34);
    v.push(58);
    v.push(34);
    proof {
        assert(v@ =~= lit_p_nonce());
    }
    v
}

/// The frame text `","ciphertext":"`.
pub open spec fn lit_q_ct() -> Seq<u8> {
    seq![34u8, 44u8, 34u8, 99u8, 105u8, 112u8, 104u8, 101u8, 114u8, 116u8, 101u8, 120u8, 116u8, 34u8, 58u8, 34u8]
}

/// The frame text `","ciphertext":"` as bytes.
pub fn lit_q_ct_v() -> (r: Vec<u8>)
    ensures
        r@ == lit_q_ct(),
{
    let mut v: Vec<u8> = Vec::new();
    v.push(34);
    v.push(44);
    v.push(34);
    v.push(99);
    v.push(105);
    v.push(112);
    v.push(104);
    v.push(101);
    v.push(114);
    v.push(116);
    v.push(101);
    v.push(120);
    v.push(116);
    v.push(34);
    v.push(58);
    v.push(34);
    proof {
        assert(v@ =~= lit_q_ct());
    }
    v
}

/// The frame text `,"ciphertext":"`.
pub open spec fn lit_p_ct() -> Seq<u8> {
    seq![44u8, 34u8, 99u8, 105u8, 112u8, 104u8, 101u8, 114u8, 116u8, 101u8, 120u8, 116u8, 34u8, 58u8, 34u8]
}

/// The frame text `,"ciphertext":"` as bytes.
pub fn lit_p_ct_v() -> (r: Vec<u8>)
    ensures
        r@ == lit_p_ct(),
{
    let mut v: Vec<u8> = Vec::new();
    v.push(44);
    v.push(34);
    v.push(99);
    v.push(105);
    v.push(112);
    v.push(104);
    v.push(101);
    v.push(114);
    v.push(116);
    v.push(101);
    v.push(120);
    v.push(116);
    v.push(34);
    v.push(58);
    v.push(34);
    proof {
        assert(v@ =~= lit_p_ct());
    }
    v
}

/// The mathematical shape of an encrypted payload on the wire.
#[verifier::ext_equal]
pub struct EnvelopeModel {
    pub destination: Seq<u8>,
    pub nonce_hex: Seq<u8>,
    pub ciphertext_hex: Seq<u8>,
}

impl EnvelopeModel {
    /// All fields fit in string values unescaped.
    pub open spec fn wf(self) -> bool {
        all_plain(self.destination) && all_plain(self.nonce_hex) && all_plain(
            self.ciphertext_hex,
        )
    }

    /// The canonical wire form of the payload object.
    pub open spec fn spec_encode(self) -> Seq<u8> {
        lit_env_pre() + self.destination + lit_q_nonce() + self.nonce_hex + lit_q_ct()
            + self.ciphertext_hex + lit_q_end()
    }
}

/// An encrypted payload as carried in a frame: the normalized address it
/// was written for, and the cipher's nonce and ciphertext in hexadecimal.
#[derive(Clone, Debug)]
pub struct EncryptedMessage {
    pub destination: Vec<u8>,
    pub nonce_hex: Vec<u8>,
    pub ciphertext_hex: Vec<u8>,
}

impl View for EncryptedMessage {
    type V = EnvelopeModel;

    open spec fn view(&self) -> EnvelopeModel {
        EnvelopeModel {
            destination: self.destination@,
            nonce_hex: self.nonce_hex@,
            ciphertext_hex: self.ciphertext_hex@,
        }
    }
}

impl EncryptedMessage {
    /// Writes the payload object in its canonical wire form.
    pub fn encode(&self) -> (r: Vec<u8>)
        ensures
            r@ == self@.spec_encode(),
    {
        let mut v = lit_env_pre_v();
        append_bytes(&mut v, self.destination.as_slice());
        let l1 = lit_q_nonce_v();
        append_bytes(&mut v, l1.as_slice());
        append_bytes(&mut v, self.nonce_hex.as_slice());
        let l2 = lit_q_ct_v();
        append_bytes(&mut v, l2.as_slice());
        append_bytes(&mut v, self.ciphertext_hex.as_slice());
        let l3 = lit_q_end_v();
        append_bytes(&mut v, l3.as_slice());
        proof {
            assert(v@ =~= self@.spec_encode());
        }
        v
    }
}

/// The mathematical shape of a request frame.
#[verifier::ext_equal]
pub enum RequestModel {
    Subscribe { address: Seq<u8>, signature: Seq<u8> },
    PostSlate { from: Seq<u8>, to: Seq<u8>, content: EnvelopeModel, signature: Seq<u8> },
}

impl RequestModel {
    /// All fields fit in string values unescaped.
    pub open spec fn wf(self) -> bool {
        match self {
            RequestModel::Subscribe { address, signature } => all_plain(address) && all_plain(
                signature,
            ),
            RequestModel::PostSlate { from, to, content, signature } => all_plain(from)
                && all_plain(to) && content.wf() && all_plain(signature),
        }
    }

    /// The canonical wire form of the frame.
    pub open spec fn spec_encode(self) -> Seq<u8> {
        match self {
            RequestModel::Subscribe { address, signature } => lit_sub_pre() + address
                + lit_q_sig() + signature + lit_q_end(),
            RequestModel::PostSlate { from, to, content, signature } => lit_post_pre() + from
                + lit_q_to() + to + lit_q_str() + content.spec_encode() + lit_c_sig() + signature
                + lit_q_end(),
        }
    }
}

/// A frame the wallet sends to the relay.
#[derive(Clone, Debug)]
pub enum ProtocolRequest {
    /// Authenticates the wallet's address under the relay's challenge.
    Subscribe { address: Vec<u8>, signature: Vec<u8> },
    /// Delivers an encrypted payload to another address.
    PostSlate { from: Vec<u8>, to: Vec<u8>, content: EncryptedMessage, signature: Vec<u8> },
}

impl View for ProtocolRequest {
    type V = RequestModel;

    open spec fn view(&self) -> RequestModel {
        match self {
            ProtocolRequest::Subscribe { address, signature } => RequestModel::Subscribe {
                address: address@,
                signature: signature@,
            },
            ProtocolRequest::PostSlate { from, to, content, signature } => {
                RequestModel::PostSlate {
                    from: from@,
                    to: to@,
                    content: content@,
                    signature: signature@,
                }
            },
        }
    }
}

impl ProtocolRequest {
    /// Writes the frame in its canonical wire form.
    pub fn encode(&self) -> (r: Vec<u8>)
        ensures
            r@ == self@.spec_encode(),
    {
        match self {
            ProtocolRequest::Subscribe { address, signature } => {
                let mut v = lit_sub_pre_v();
                append_bytes(&mut v, address.as_slice());
                let l1 = lit_q_sig_v();
                append_bytes(&mut v, l1.as_slice());
                append_bytes(&mut v, signature.as_slice());
                let l2 = lit_q_end_v();
                append_bytes(&mut v, l2.as_slice());
                proof {
                    assert(v@ =~= self@.spec_encode());
                }
                v
            },
            ProtocolRequest::PostSlate { from, to, content, signature } => {
                let mut v = lit_post_pre_v();
                append_bytes(&mut v, from.as_slice());
                let l1 = lit_q_to_v();
                append_bytes(&mut v, l1.as_slice());
                append_bytes(&mut v, to.as_slice());
                let l2 = lit_q_str_v();
                append_bytes(&mut v, l2.as_slice());
                let env = content.encode();
                append_bytes(&mut v, env.as_slice());
                let l3 = lit_c_sig_v();
                append_bytes(&mut v, l3.as_slice());
                append_bytes(&mut v, signature.as_slice());
                let l4 = lit_q_end_v();
                append_bytes(&mut v, l4.as_slice());
                proof {
                    assert(v@ =~= self@.spec_encode());
                }
                v
            },
        }
    }
}

/// The mathematical shape of a response frame.
#[verifier::ext_equal]
pub enum ResponseModel {
    Challenge { challenge: Seq<u8> },
    Slate { from: Seq<u8>, content: EnvelopeModel, challenge: Seq<u8>, signature: Seq<u8> },
    Error { kind: Seq<u8>, description: Seq<u8> },
}

impl ResponseModel {
    /// All fields fit in string values unescaped.
    pub open spec fn wf(self) -> bool {
        match self {
            ResponseModel::Challenge { challenge } => all_plain(challenge),
            ResponseModel::Slate { from, content, challenge, signature } => all_plain(from)
                && content.wf() && all_plain(challenge) && all_plain(signature),
            ResponseModel::Error { kind, description } => all_plain(kind) && all_plain(
                description,
            ),
        }
    }

    /// The canonical wire form of the frame.
    pub open spec fn spec_encode(self) -> Seq<u8> {
        match self {
            ResponseModel::Challenge { challenge } => lit_chal_pre() + challenge + lit_q_end(),
            ResponseModel::Slate { from, content, challenge, signature } => lit_slate_pre()
                + from + lit_q_str() + content.spec_encode() + lit_q_chal() + challenge
                + lit_q_sig() + signature + lit_q_end(),
            ResponseModel::Error { kind, description } => lit_err_pre() + kind + lit_q_desc()
                + description + lit_q_end(),
        }
    }
}

/// A frame the relay sends to the wallet.
#[derive(Clone, Debug)]
pub enum ProtocolResponse {
    /// A nonce the wallet must sign to subscribe.
    Challenge { challenge: Vec<u8> },
    /// An encrypted payload delivered to the wallet.
    Slate { from: Vec<u8>, content: EncryptedMessage, challenge: Vec<u8>, signature: Vec<u8> },
    /// A failure the relay reports.
    Error { kind: Vec<u8>, description: Vec<u8> },
}

impl View for ProtocolResponse {
    type V = ResponseModel;

    open spec fn view(&self) -> ResponseModel {
        match self {
            ProtocolResponse::Challenge { challenge } => ResponseModel::Challenge {
                challenge: challenge@,
            },
            ProtocolResponse::Slate { from, content, challenge, signature } => {
                ResponseModel::Slate {
                    from: from@,
                    content: content@,
                    challenge: challenge@,
                    signature: signature@,
                }
            },
            ProtocolResponse::Error { kind, description } => ResponseModel::Error {
                kind: kind@,
                description: description@,
            },
        }
    }
}

impl ProtocolResponse {
    /// Writes the frame in its canonical wire form.
    pub fn encode(&self) -> (r: Vec<u8>)
        ensures
            r@ == self@.spec_encode(),
    {
        match self {
            ProtocolResponse::Challenge { challenge } => {
                let mut v = lit_chal_pre_v();
                append_bytes(&mut v, challenge.as_slice());
                let l1 = lit_q_end_v();
                append_bytes(&mut v, l1.as_slice());
                proof {
                    assert(v@ =~= self@.spec_encode());
                }
                v
            },
            ProtocolResponse::Slate { from, content, challenge, signature } => {
                let mut v = lit_slate_pre_v();
                append_bytes(&mut v, from.as_slice());
                let l1 = lit_q_str_v();
                append_bytes(&mut v, l1.as_slice());
                let env = content.encode();
                append_bytes(&mut v, env.as_slice());
                let l2 = lit_q_chal_v();
                append_bytes(&mut v, l2.as_slice());
                append_bytes(&mut v, challenge.as_slice());
                let l3 = lit_q_sig_v();
                append_bytes(&mut v, l3.as_slice());
                append_bytes(&mut v, signature.as_slice());
                let l4 = lit_q_end_v();
                append_bytes(&mut v, l4.as_slice());
                proof {
                    assert(v@ =~= self@.spec_encode());
                }
                v
            },
            ProtocolResponse::Error { kind, description } => {
                let mut v = lit_err_pre_v();
                append_bytes(&mut v, kind.as_slice());
                let l1 = lit_q_desc_v();
                append_bytes(&mut v, l1.as_slice());
                append_bytes(&mut v, description.as_slice());
                let l2 = lit_q_end_v();
                append_bytes(&mut v, l2.as_slice());
                proof {
                    assert(v@ =~= self@.spec_encode());
                }
                v
            },
        }
    }
}

/// Reads an encrypted payload object at position `i`.
pub open spec fn spec_parse_envelope(s: Seq<u8>, i: int) -> Option<(EnvelopeModel, int)> {
    match spec_expect(s, i, lit_env_pre()) {
        None => None,
        Some(i1) => match spec_scan(s, i1) {
            None => None,
            Some((dest, i2)) => match spec_expect(s, i2, lit_p_nonce()) {
                None => None,
                Some(i3) => match spec_scan(s, i3) {
                    None => None,
                    Some((nonce, i4)) => match spec_expect(s, i4, lit_p_ct()) {
                        None => None,
                        Some(i5) => match spec_scan(s, i5) {
                            None => None,
                            Some((ct, i6)) => match spec_expect(s, i6, lit_p_end()) {
                                None => None,
                                Some(i7) => Some(
                                    (
                                        EnvelopeModel {
                                            destination: dest,
                                            nonce_hex: nonce,
                                            ciphertext_hex: ct,
                                        },
                                        i7,
                                    ),
                                ),
                            },
                        },
                    },
                },
            },
        },
    }
}

/// Reads a response frame, accepting exactly the canonical form.
pub open spec fn spec_parse_response(s: Seq<u8>) -> Option<ResponseModel> {
    match spec_expect(s, 0, lit_chal_pre()) {
        Some(i1) => match spec_scan(s, i1) {
            None => None,
            Some((chal, i2)) => match spec_expect(s, i2, lit_p_end()) {
                Some(i3) => if i3 == s.len() {
                    Some(ResponseModel::Challenge { challenge: chal })
                } else {
                    None
                },
                None => None,
            },
        },
        None => match spec_expect(s, 0, lit_slate_pre()) {
            Some(i1) => match spec_scan(s, i1) {
                None => None,
                Some((from, i2)) => match spec_expect(s, i2, lit_p_str()) {
                    None => None,
                    Some(i3) => match spec_parse_envelope(s, i3) {
                        None => None,
                        Some((env, i4)) => match spec_expect(s, i4, lit_q_chal()) {
                            None => None,
                            Some(i5) => match spec_scan(s, i5) {
                                None => None,
                                Some((chal, i6)) => match spec_expect(s, i6, lit_c_sig()) {
                                    None => None,
                                    Some(i7) => match spec_scan(s, i7) {
                                        None => None,
                                        Some((sig, i8)) => match spec_expect(
                                            s,
                                            i8,
                                            lit_p_end(),
                                        ) {
                                            Some(i9) => if i9 == s.len() {
                                                Some(
                                                    ResponseModel::Slate {
                                                        from: from,
                                                        content: env,
                                                        challenge: chal,
                                                        signature: sig,
                                                    },
                                                )
                                            } else {
                                                None
                                            },
                                            None => None,
                                        },
                                    },
                                },
                            },
                        },
                    },
                },
            },
            None => match spec_expect(s, 0, lit_err_pre()) {
                Some(i1) => match spec_scan(s, i1) {
                    None => None,
                    Some((kind, i2)) => match spec_expect(s, i2, lit_p_desc()) {
                        None => None,
                        Some(i3) => match spec_scan(s, i3) {
                            None => None,
                            Some((desc, i4)) => match spec_expect(s, i4, lit_p_end()) {
                                Some(i5) => if i5 == s.len() {
                                    Some(
                                        ResponseModel::Error {
                                            kind: kind,
                                            description: desc,
                                        },
                                    )
                                } else {
                                    None
                                },
                                None => None,
                            },
                        },
                    },
                },
                None => None,
            },
        },
    }
}

/// Reads an encrypted payload object at position `from`.
fn parse_envelope(s: &[u8], from: usize) -> (r: Option<(EncryptedMessage, usize)>)
    requires
        from <= s@.len(),
    ensures
        match r {
            Some(v) => spec_parse_envelope(s@, from as int) == Some((v.0@, v.1 as int)) && v.1
                <= s@.len(),
            None => spec_parse_envelope(s@, from as int) is None,
        },
{
    let l_pre = lit_env_pre_v();
    let i1 = match expect_lit(s, from, l_pre.as_slice()) {
        Some(i) => i,
        None => {
            return None;
        },
    };
    let (dest, i2) = match scan_string(s, i1) {
        Some(v) => v,
        None => {
            return None;
        },
    };
    let l_nonce = lit_p_nonce_v();
    let i3 = match expect_lit(s, i2, l_nonce.as_slice()) {
        Some(i) => i,
        None => {
            return None;
        },
    };
    let (nonce, i4) = match scan_string(s, i3) {
        Some(v) => v,
        None => {
            return None;
        },
    };
    let l_ct = lit_p_ct_v();
    let i5 = match expect_lit(s, i4, l_ct.as_slice()) {
        Some(i) => i,
        None => {
            return None;
        },
    };
    let (ct, i6) = match scan_string(s, i5) {
        Some(v) => v,
        None => {
            return None;
        },
    };
    let l_end = lit_p_end_v();
    let i7 = match expect_lit(s, i6, l_end.as_slice()) {
        Some(i) => i,
        None => {
            return None;
        },
    };
    Some((EncryptedMessage { destination: dest, nonce_hex: nonce, ciphertext_hex: ct }, i7))
}

/// Reads a response frame, accepting exactly the canonical form.
pub fn parse_response(s: &[u8]) -> (r: Option<ProtocolResponse>)
    ensures
        match r {
            Some(resp) => spec_parse_response(s@) == Some(resp@),
            None => spec_parse_response(s@) is None,
        },
{
    let l_chal_pre = lit_chal_pre_v();
    let l_slate_pre = lit_slate_pre_v();
    let l_err_pre = lit_err_pre_v();
    let l_end = lit_p_end_v();
    let n: usize = s.len();
    match expect_lit(s, 0, l_chal_pre.as_slice()) {
        Some(i1) => {
            let (chal, i2) = match scan_string(s, i1) {
                Some(v) => v,
                None => {
                    return None;
                },
            };
            let i3 = match expect_lit(s, i2, l_end.as_slice()) {
                Some(i) => i,
                None => {
                    return None;
                },
            };
            if i3 == n {
                Some(ProtocolResponse::Challenge { challenge: chal })
            } else {
                None
            }
        },
        None => {
            match expect_lit(s, 0, l_slate_pre.as_slice()) {
                Some(i1) => {
                    let (from, i2) = match scan_string(s, i1) {
                        Some(v) => v,
                        None => {
                            return None;
                        },
                    };
                    let l_str = lit_p_str_v();
                    let i3 = match expect_lit(s, i2, l_str.as_slice()) {
                        Some(i) => i,
                        None => {
                            return None;
                        },
                    };
                    let (env, i4) = match parse_envelope(s, i3) {
                        Some(v) => v,
                        None => {
                            return None;
                        },
                    };
                    let l_qchal = lit_q_chal_v();
                    let i5 = match expect_lit(s, i4, l_qchal.as_slice()) {
                        Some(i) => i,
                        None => {
                            return None;
                        },
                    };
                    let (chal, i6) = match scan_string(s, i5) {
                        Some(v) => v,
                        None => {
                            return None;
                        },
                    };
                    let l_csig = lit_c_sig_v();
                    let i7 = match expect_lit(s, i6, l_csig.as_slice()) {
                        Some(i) => i,
                        None => {
                            return None;
                        },
                    };
                    let (sig, i8) = match scan_string(s, i7) {
                        Some(v) => v,
                        None => {
                            return None;
                        },
                    };
                    let i9 = match expect_lit(s, i8, l_end.as_slice()) {
                        Some(i) => i,
                        None => {
                            return None;
                        },
                    };
                    if i9 == n {
                        Some(
                            ProtocolResponse::Slate {
                                from,
                                content: env,
                                challenge: chal,
                                signature: sig,
                            },
                        )
                    } else {
                        None
                    }
                },
                None => {
                    match expect_lit(s, 0, l_err_pre.as_slice()) {
                        Some(i1) => {
                            let (kind, i2) = match scan_string(s, i1) {
                                Some(v) => v,
                                None => {
                                    return None;
                                },
                            };
                            let l_desc = lit_p_desc_v();
                            let i3 = match expect_lit(s, i2, l_desc.as_slice()) {
                                Some(i) => i,
                                None => {
                                    return None;
                                },
                            };
                            let (desc, i4) = match scan_string(s, i3) {
                                Some(v) => v,
                                None => {
                                    return None;
                                },
                            };
                            let i5 = match expect_lit(s, i4, l_end.as_slice()) {
                                Some(i) => i,
                                None => {
                                    return None;
                                },
                            };
                            if i5 == n {
                                Some(ProtocolResponse::Error { kind, description: desc })
                            } else {
                                None
                            }
                        },
                        None => None,
                    }
                },
            }
        },
    }
}

} // verus!
