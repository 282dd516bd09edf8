//! The encrypted payload vocabulary: what travels inside an envelope is
//! either a versioned slate or a swap message, written as a canonical
//! frame in the same style as the outer protocol.

use vstd::prelude::*;

use crate::encoding::{
    append_bytes, dec_of, dec_val, is_canon_dec, is_dec_digit, lemma_canon_dec_ge_pow,
    lemma_dec_val_upper, lemma_pow10_mono, lemma_pow10_values, pow10, spec_find, u64_to_dec,
};
use crate::encoding::find_byte_from;
use crate::protocol::{
    all_plain, expect_lit, lit_p_end, lit_p_end_v, lit_q_end, lit_q_end_v, scan_string,
    spec_expect, spec_scan,
};
use crate::swaptypes::{
    Currency, Message, MessageModel, OfferModel, OfferUpdate, SecondaryUpdate,
    SecondaryUpdateModel, Update, UpdateModel,
};
use crate::types::{
    ParticipantData, Slate, SlateModel, SlateVersion, VersionedSlate, VersionedSlateModel,
};

verus! {

/// The first twenty-one powers of ten, spelled out.
pub proof fn lemma_pow10_values_wide()
    ensures
        pow10(20) == 0x56BC75E2D63100000,
        pow10(20) > u64::MAX,
{
    lemma_pow10_values();
    assert(pow10(7) == 10000000);
    assert(pow10(8) == 100000000);
    assert(pow10(9) == 1000000000);
    assert(pow10(10) == 10000000000);
    assert(pow10(11) == 100000000000);
    assert(pow10(12) == 1000000000000);
    assert(pow10(13) == 10000000000000);
    assert(pow10(14) == 100000000000000);
    assert(pow10(15) == 1000000000000000);
    assert(pow10(16) == 10000000000000000);
    assert(pow10(17) == 100000000000000000);
    assert(pow10(18) == 1000000000000000000);
    assert(pow10(19) == 10000000000000000000);
    assert(pow10(20) == 100000000000000000000);
}

/// The number a decimal field holds, when it is canonical and fits.
pub open spec fn spec_parse_u64(s: Seq<u8>) -> Option<u64> {
    if is_canon_dec(s) && dec_val(s) <= u64::MAX {
        Some(dec_val(s) as u64)
    } else {
        None
    }
}

/// Parses the index range `[from, to)` of `s` as a canonical decimal
/// number that fits a machine word.
#[verifier::loop_isolation(false)]
pub fn parse_u64_range(s: &[u8], from: usize, to: usize) -> (r: Option<u64>)
    requires
        from <= to <= s@.len(),
    ensures
        r == spec_parse_u64(s@.subrange(from as int, to as int)),
{
    let ghost sub = s@.subrange(from as int, to as int);
    if to == from || to - from > 20 {
        if to - from > 20 {
            proof {
                if is_canon_dec(sub) {
                    lemma_canon_dec_ge_pow(sub);
                    lemma_pow10_mono(20, (sub.len() - 1) as nat);
                    lemma_pow10_values_wide();
                }
            }
        }
        return None;
    }
    if s[from] == 48 && to - from > 1 {
        return None;
    }
    let mut v: u128 = 0;
    let mut i: usize = from;
    while i < to
        invariant
            from <= i <= to <= s@.len(),
            to - from <= 20,
            v as nat == dec_val(s@.subrange(from as int, i as int)),
            forall|j: int| from <= j < i ==> is_dec_digit(#[trigger] s@[j]),
            v < 0x56BC75E2D63100000,
        decreases to - i,
    {
        let c = s[i];
        if c < 48 || c > 57 {
            proof {
                assert(sub[(i - from) as int] == s@[from + (i - from)]);
                assert(!is_dec_digit(sub[(i - from) as int]));
                assert(!is_canon_dec(sub));
            }
            return None;
        }
        proof {
            let t = s@.subrange(from as int, i + 1 as int);
            assert(t.drop_last() =~= s@.subrange(from as int, i as int));
            assert(dec_val(t) == dec_val(t.drop_last()) * 10 + (c - 48));
        }
        v = v * 10 + (c - 48) as u128;
        i = i + 1;
        proof {
            if v >= 0x56BC75E2D63100000 {
                assert(false) by {
                    assert(dec_val(s@.subrange(from as int, i as int)) < pow10(
                        (i - from) as nat,
                    )) by {
                        lemma_dec_val_upper(s@.subrange(from as int, i as int));
                    }
                    lemma_pow10_mono((i - from) as nat, 20);
                    lemma_pow10_values_wide();
                }
            }
        }
    }
    proof {
        assert(sub =~= s@.subrange(from as int, to as int));
        assert(forall|j: int| 0 <= j < sub.len() ==> is_dec_digit(#[trigger] sub[j]));
        assert(is_canon_dec(sub));
    }
    if v > u64::MAX as u128 {
        return None;
    }
    Some(v as u64)
}

/// The comma-separated decimal list naming a slate's participants.
pub open spec fn spec_encode_ids(ids: Seq<u64>) -> Seq<u8>
    decreases ids.len(),
{
    if ids.len() == 0 {
        Seq::empty()
    } else if ids.len() == 1 {
        dec_of(ids[0] as nat)
    } else {
        dec_of(ids[0] as nat) + seq![44u8] + spec_encode_ids(ids.drop_first())
    }
}

/// Appending one id appends a comma and its digits.
pub proof fn lemma_encode_ids_push(ids: Seq<u64>, x: u64)
    ensures
        spec_encode_ids(ids.push(x)) == if ids.len() == 0 {
            dec_of(x as nat)
        } else {
            spec_encode_ids(ids) + seq![44u8] + dec_of(x as nat)
        },
    decreases ids.len(),
{
    if ids.len() == 0 {
        assert(ids.push(x).len() == 1);
        assert(ids.push(x)[0] == x);
        assert(spec_encode_ids(ids.push(x)) == dec_of(x as nat));
    } else {
        lemma_encode_ids_push(ids.drop_first(), x);
        assert(ids.push(x).drop_first() =~= ids.drop_first().push(x));
        assert(ids.push(x)[0] == ids[0]);
        if ids.len() == 1 {
            assert(spec_encode_ids(ids.push(x)) =~= spec_encode_ids(ids) + seq![44u8] + dec_of(
                x as nat,
            ));
        } else {
            assert(spec_encode_ids(ids.push(x)) =~= spec_encode_ids(ids) + seq![44u8] + dec_of(
                x as nat,
            ));
        }
    }
}

/// Writes the participant list of a slate.
pub fn encode_ids(ids: &Vec<u64>) -> (r: Vec<u8>)
    ensures
        r@ == spec_encode_ids(ids@),
{
    let mut r: Vec<u8> = Vec::new();
    let mut i: usize = 0;
    while i < ids.len()
        invariant
            i <= ids@.len(),
            r@ == spec_encode_ids(ids@.take(i as int)),
        decreases ids@.len() - i,
    {
        if i > 0 {
            r.push(44);
        }
        let d = u64_to_dec(ids[i]);
        append_bytes(&mut r, d.as_slice());
        proof {
            lemma_encode_ids_push(ids@.take(i as int), ids@[i as int]);
            assert(ids@.take(i + 1 as int) =~= ids@.take(i as int).push(ids@[i as int]));
            if i == 0 {
                assert(r@ =~= spec_encode_ids(ids@.take(i + 1 as int)));
            } else {
                assert(r@ =~= spec_encode_ids(ids@.take(i + 1 as int)));
            }
        }
        i = i + 1;
    }
    proof {
        assert(ids@.take(ids@.len() as int) =~= ids@);
    }
    r
}

/// The ids a nonempty participant list holds.
pub open spec fn spec_parse_ids_ne(s: Seq<u8>) -> Option<Seq<u64>>
    decreases s.len(),
{
    match spec_find(s, 44) {
        None => match spec_parse_u64(s) {
            Some(v) => Some(seq![v]),
            None => None,
        },
        Some(j) => if 0 <= j < s.len() {
            match spec_parse_u64(s.take(j)) {
                None => None,
                Some(v) => match spec_parse_ids_ne(s.skip(j + 1)) {
                    None => None,
                    Some(t) => Some(seq![v] + t),
                },
            }
        } else {
            None
        },
    }
}

/// The ids a participant list holds; an empty field is an empty list.
pub open spec fn spec_parse_ids(s: Seq<u8>) -> Option<Seq<u64>> {
    if s.len() == 0 {
        Some(Seq::empty())
    } else {
        spec_parse_ids_ne(s)
    }
}

/// Reads a participant list.
#[verifier::loop_isolation(false)]
pub fn parse_ids(s: &[u8]) -> (r: Option<Vec<u64>>)
    ensures
        match r {
            Some(v) => spec_parse_ids(s@) == Some(v@),
            None => spec_parse_ids(s@) is None,
        },
{
    let n: usize = s.len();
    if n == 0 {
        let v: Vec<u64> = Vec::new();
        proof {
            assert(v@ =~= Seq::<u64>::empty());
        }
        return Some(v);
    }
    let mut acc: Vec<u64> = Vec::new();
    let mut pos: usize = 0;
    proof {
        assert(s@.skip(0) =~= s@);
        assert forall|t: Seq<u64>| spec_parse_ids_ne(s@.skip(pos as int)) == Some(t) implies
            spec_parse_ids_ne(s@) == Some(acc@ + t) by {
            assert(acc@ + t =~= t);
        }
    }
    loop
        invariant
            pos < n,
            n == s@.len(),
            forall|t: Seq<u64>|
                spec_parse_ids_ne(s@.skip(pos as int)) == Some(t) ==> spec_parse_ids_ne(s@)
                    == Some(acc@ + t),
            spec_parse_ids_ne(s@.skip(pos as int)) is None ==> spec_parse_ids_ne(s@) is None,
        decreases n - pos,
    {
        let ghost posp = pos as int;
        let ghost rest = s@.skip(pos as int);
        match find_byte_from(s, pos, 44) {
            None => {
                match parse_u64_range(s, pos, n) {
                    Some(v) => {
                        let ghost accp = acc@;
                        acc.push(v);
                        proof {
                            assert(rest =~= s@.subrange(pos as int, n as int));
                            assert(spec_parse_ids_ne(rest) == Some(seq![v]));
                            assert(acc@ =~= accp + seq![v]);
                        }
                        return Some(acc);
                    },
                    None => {
                        proof {
                            assert(rest =~= s@.subrange(pos as int, n as int));
                            assert(spec_parse_ids_ne(rest) is None);
                        }
                        return None;
                    },
                }
            },
            Some(j) => {
                proof {
                    assert(rest.take(j - pos) =~= s@.subrange(pos as int, j as int));
                }
                match parse_u64_range(s, pos, j) {
                    Some(v) => {
                        if j + 1 == n {
                            // A trailing comma: the tail is empty and no
                            // numeral can be read from it.
                            proof {
                                let tail = rest.skip(j - pos + 1);
                                assert(tail =~= Seq::<u8>::empty());
                                crate::encoding::lemma_find_none(tail, 44);
                                assert(spec_parse_ids_ne(tail) is None);
                                assert(spec_parse_ids_ne(rest) is None);
                            }
                            return None;
                        }
                        let ghost accp = acc@;
                        acc.push(v);
                        pos = j + 1;
                        proof {
                            assert(s@.skip(pos as int) =~= rest.skip(j + 1 - posp));
                            assert(acc@ =~= accp.push(v));
                            assert forall|t: Seq<u64>|
                                spec_parse_ids_ne(s@.skip(pos as int)) == Some(t) implies
                                spec_parse_ids_ne(s@) == Some(acc@ + t) by {
                                assert(spec_parse_ids_ne(rest) == Some(seq![v] + t));
                                assert(accp + (seq![v] + t) =~= acc@ + t);
                            }
                            if spec_parse_ids_ne(s@.skip(pos as int)) is None {
                                assert(spec_parse_ids_ne(rest) is None);
                            }
                        }
                    },
                    None => {
                        proof {
                            assert(spec_parse_ids_ne(rest) is None);
                        }
                        return None;
                    },
                }
            },
        }
    }
}
/// The payload text `{"payload":"slate","version":"`.
pub open spec fn lit_pl_tx_pre() -> Seq<u8> {
    seq![123u8, 34u8, 112u8, 97u8, 121u8, 108u8, 111u8, 97u8, 100u8, 34u8, 58u8, 34u8, 115u8, 108u8, 97u8, 116u8, 101u8, 34u8, 44u8, 34u8, 118u8, 101u8, 114u8, 115u8, 105u8, 111u8, 110u8, 34u8, 58u8, 34u8]
}

/// The payload text `{"payload":"slate","version":"` as bytes.
pub fn lit_pl_tx_pre_v() -> (r: Vec<u8>)
    ensures
        r@ == lit_pl_tx_pre(),
{
    let mut v: Vec<u8> = Vec::new();
    v.push(123);
    v.push(34);
    v.push(112);
    v.push(97);
    v.push(121);
    v.push(108);
    v.push(111);
    v.push(97);
    v.push(100);
    v.push(34);
    v.push(58);
    v.push(34);
    v.push(115);
    v.push(108);
    v.push(97);
    v.push(116);
    v.push(101);
    v.push(34);
    v.push(44);
    v.push(34);
    v.push(118);
    v.push(101);
    v.push(114);
    v.push(115);
    v.push(105);
    v.push(111);
    v.push(110);
    v.push(34);
    v.push(58);
    v.push(34);
    proof {
        assert(v@ =~= lit_pl_tx_pre());
    }
    v
}

/// The payload text `{"payload":"swap","id":"`.
pub open spec fn lit_pl_swap_pre() -> Seq<u8> {
    seq![123u8, 34u8, 112u8, 97u8, 121u8, 108u8, 111u8, 97u8, 100u8, 34u8, 58u8, 34u8, 115u8, 119u8, 97u8, 112u8, 34u8, 44u8, 34u8, 105u8, 100u8, 34u8, 58u8, 34u8]
}

/// The payload text `{"payload":"swap","id":"` as bytes.
pub fn lit_pl_swap_pre_v() -> (r: Vec<u8>)
    ensures
        r@ == lit_pl_swap_pre(),
{
    let mut v: Vec<u8> = Vec::new();
    v.push(123);
    v.push(34);
    v.push(112);
    v.push(97);
    v.push(121);
    v.push(108);
    v.push(111);
    v.push(97);
    v.push(100);
    v.push(34);
    v.push(58);
    v.push(34);
    v.push(115);
    v.push(119);
    v.push(97);
    v.push(112);
    v.push(34);
    v.push(44);
    v.push(34);
    v.push(105);
    v.push(100);
    v.push(34);
    v.push(58);
    v.push(34);
    proof {
        assert(v@ =~= lit_pl_swap_pre());
    }
    v
}

/// The payload text `","id":"`.
pub open spec fn lit_f_id() -> Seq<u8> {
    seq![34u8, 44u8, 34u8, 105u8, 100u8, 34u8, 58u8, 34u8]
}

/// The payload text `","id":"` as bytes.
pub fn lit_f_id_v() -> (r: Vec<u8>)
    ensures
        r@ == lit_f_id(),
{
    let mut v: Vec<u8> = Vec::new();
    v.push(34);
    v.push(44);
    v.push(34);
    v.push(105);
    v.push(100);
    v.push(34);
    v.push(58);
    v.push(34);
    proof {
        assert(v@ =~= lit_f_id());
    }
    v
}

/// The payload text `,"id":"`.
pub open spec fn lit_g_id() -> Seq<u8> {
    seq![44u8, 34u8, 105u8, 100u8, 34u8, 58u8, 34u8]
}

/// The payload text `,"id":"` as bytes.
pub fn lit_g_id_v() -> (r: Vec<u8>)
    ensures
        r@ == lit_g_id(),
{
    let mut v: Vec<u8> = Vec::new();
    v.push(44);
    v.push(34);
    v.push(105);
    v.push(100);
    v.push(34);
    v.push(58);
    v.push(34);
    proof {
        assert(v@ =~= lit_g_id());
    }
    v
}

/// The payload text `","num_participants":"`.
pub open spec fn lit_f_np() -> Seq<u8> {
    seq![34u8, 44u8, 34u8, 110u8, 117u8, 109u8, 95u8, 112u8, 97u8, 114u8, 116u8, 105u8, 99u8, 105u8, 112u8, 97u8, 110u8, 116u8, 115u8, 34u8, 58u8, 34u8]
}

/// The payload text `","num_participants":"` as bytes.
pub fn lit_f_np_v() -> (r: Vec<u8>)
    ensures
        r@ == lit_f_np(),
{
    let mut v: Vec<u8> = Vec::new();
    v.push(34);
    v.push(44);
    v.push(34);
    v.push(110);
    v.push(117);
    v.push(109);
    v.push(95);
    v.push(112);
    v.push(97);
    v.push(114);
    v.push(116);
    v.push(105);
    v.push(99);
    v.push(105);
    v.push(112);
    v.push(97);
    v.push(110);
    v.push(116);
    v.push(115);
    v.push(34);
    v.push(58);
    v.push(34);
    proof {
        assert(v@ =~= lit_f_np());
    }
    v
}

/// The payload text `,"num_participants":"`.
pub open spec fn lit_g_np() -> Seq<u8> {
    seq![44u8, 34u8, 110u8, 117u8, 109u8, 95u8, 112u8, 97u8, 114u8, 116u8, 105u8, 99u8, 105u8, 112u8, 97u8, 110u8, 116u8, 115u8, 34u8, 58u8, 34u8]
}

/// The payload text `,"num_participants":"` as bytes.
pub fn lit_g_np_v() -> (r: Vec<u8>)
    ensures
        r@ == lit_g_np(),
{
    let mut v: Vec<u8> = Vec::new();
    v.push(44);
    v.push(34);
    v.push(110);
    v.push(117);
    v.push(109);
    v.push(95);
    v.push(112);
    v.push(97);
    v.push(114);
    v.push(116);
    v.push(105);
    v.push(99);
    v.push(105);
    v.push(112);
    v.push(97);
    v.push(110);
    v.push(116);
    v.push(115);
    v.push(34);
    v.push(58);
    v.push(34);
    proof {
        assert(v@ =~= lit_g_np());
    }
    v
}

/// The payload text `","participants":"`.
pub open spec fn lit_f_parts() -> Seq<u8> {
    seq![34u8, 44u8, 34u8, 112u8, 97u8, 114u8, 116u8, 105u8, 99u8, 105u8, 112u8, 97u8, 110u8, 116u8, 115u8, 34u8, 58u8, 34u8]
}

/// The payload text `","participants":"` as bytes.
pub fn lit_f_parts_v() -> (r: Vec<u8>)
    ensures
        r@ == lit_f_parts(),
{
    let mut v: Vec<u8> = Vec::new();
    v.push(34);
    v.push(44);
    v.push(34);
    v.push(112);
    v.push(97);
    v.push(114);
    v.push(116);
    v.push(105);
    v.push(99);
    v.push(105);
    v.push(112);
    v.push(97);
    v.push(110);
    v.push(116);
    v.push(115);
    v.push(34);
    v.push(58);
    v.push(34);
    proof {
        assert(v@ =~= lit_f_parts());
    }
    v
}

/// The payload text `,"participants":"`.
pub open spec fn lit_g_parts() -> Seq<u8> {
    seq![44u8, 34u8, 112u8, 97u8, 114u8, 116u8, 105u8, 99u8, 105u8, 112u8, 97u8, 110u8, 116u8, 115u8, 34u8, 58u8, 34u8]
}

/// The payload text `,"participants":"` as bytes.
pub fn lit_g_parts_v() -> (r: Vec<u8>)
    ensures
        r@ == lit_g_parts(),
{
    let mut v: Vec<u8> = Vec::new();
    v.push(44);
    v.push(34);
    v.push(112);
    v.push(97);
    v.push(114);
    v.push(116);
    v.push(105);
    v.push(99);
    v.push(105);
    v.push(112);
    v.push(97);
    v.push(110);
    v.push(116);
    v.push(115);
    v.push(34);
    v.push(58);
    v.push(34);
    proof {
        assert(v@ =~= lit_g_parts());
    }
    v
}

/// The payload text `","inputs":"`.
pub open spec fn lit_f_inputs() -> Seq<u8> {
    seq![34u8, 44u8, 34u8, 105u8, 110u8, 112u8, 117u8, 116u8, 115u8, 34u8, 58u8, 34u8]
}

/// The payload text `","inputs":"` as bytes.
pub fn lit_f_inputs_v() -> (r: Vec<u8>)
    ensures
        r@ == lit_f_inputs(),
{
    let mut v: Vec<u8> = Vec::new();
    v.push(34);
    v.push(44);
    v.push(34);
    v.push(105);
    v.push(110);
    v.push(112);
    v.push(117);
    v.push(116);
    v.push(115);
    v.push(34);
    v.push(58);
    v.push(34);
    proof {
        assert(v@ =~= lit_f_inputs());
    }
    v
}

/// The payload text `,"inputs":"`.
pub open spec fn lit_g_inputs() -> Seq<u8> {
    seq![44u8, 34u8, 105u8, 110u8, 112u8, 117u8, 116u8, 115u8, 34u8, 58u8, 34u8]
}

/// The payload text `,"inputs":"` as bytes.
pub fn lit_g_inputs_v() -> (r: Vec<u8>)
    ensures
        r@ == lit_g_inputs(),
{
    let mut v: Vec<u8> = Vec::new();
    v.push(44);
    v.push(34);
    v.push(105);
    v.push(110);
    v.push(112);
    v.push(117);
    v.push(116);
    v.push(115);
    v.push(34);
    v.push(58);
    v.push(34);
    proof {
        assert(v@ =~= lit_g_inputs());
    }
    v
}

/// The payload text `","amount":"`.
pub open spec fn lit_f_amount() -> Seq<u8> {
    seq![34u8, 44u8, 34u8, 97u8, 109u8, 111u8, 117u8, 110u8, 116u8, 34u8, 58u8, 34u8]
}

/// The payload text `","amount":"` as bytes.
pub fn lit_f_amount_v() -> (r: Vec<u8>)
    ensures
        r@ == lit_f_amount(),
{
    let mut v: Vec<u8> = Vec::new();
    v.push(34);
    v.push(44);
    v.push(34);
    v.push(97);
    v.push(109);
    v.push(111);
    v.push(117);
    v.push(110);
    v.push(116);
    v.push(34);
    v.push(58);
    v.push(34);
    proof {
        assert(v@ =~= lit_f_amount());
    }
    v
}

/// The payload text `,"amount":"`.
pub open spec fn lit_g_amount() -> Seq<u8> {
    seq![44u8, 34u8, 97u8, 109u8, 111u8, 117u8, 110u8, 116u8, 34u8, 58u8, 34u8]
}

/// The payload text `,"amount":"` as bytes.
pub fn lit_g_amount_v() -> (r: Vec<u8>)
    ensures
        r@ == lit_g_amount(),
{
    let mut v: Vec<u8> = Vec::new();
    v.push(44);
    v.push(34);
    v.push(97);
    v.push(109);
    v.push(111);
    v.push(117);
    v.push(110);
    v.push(116);
    v.push(34);
    v.push(58);
    v.push(34);
    proof {
        assert(v@ =~= lit_g_amount());
    }
    v
}

/// The payload text `","update":"`.
pub open spec fn lit_f_update() -> Seq<u8> {
    seq![34u8, 44u8, 34u8, 117u8, 112u8, 100u8, 97u8, 116u8, 101u8, 34u8, 58u8, 34u8]
}

/// The payload text `","update":"` as bytes.
pub fn lit_f_update_v() -> (r: Vec<u8>)
    ensures
        r@ == lit_f_update(),
{
    let mut v: Vec<u8> = Vec::new();
    v.push(34);
    v.push(44);
    v.push(34);
    v.push(117);
    v.push(112);
    v.push(100);
    v.push(97);
    v.push(116);
    v.push(101);
    v.push(34);
    v.push(58);
    v.push(34);
    proof {
        assert(v@ =~= lit_f_update());
    }
    v
}

/// The payload text `,"update":"`.
pub open spec fn lit_g_update() -> Seq<u8> {
    seq![44u8, 34u8, 117u8, 112u8, 100u8, 97u8, 116u8, 101u8, 34u8, 58u8, 34u8]
}

/// The payload text `,"update":"` as bytes.
pub fn lit_g_update_v() -> (r: Vec<u8>)
    ensures
        r@ == lit_g_update(),
{
    let mut v: Vec<u8> = Vec::new();
    v.push(44);
    v.push(34);
    v.push(117);
    v.push(112);
    v.push(100);
    v.push(97);
    v.push(116);
    v.push(101);
    v.push(34);
    v.push(58);
    v.push(34);
    proof {
        assert(v@ =~= lit_g_update());
    }
    v
}

/// The payload text `","currency":"`.
pub open spec fn lit_f_currency() -> Seq<u8> {
    seq![34u8, 44u8, 34u8, 99u8, 117u8, 114u8, 114u8, 101u8, 110u8, 99u8, 121u8, 34u8, 58u8, 34u8]
}

/// The payload text `","currency":"` as bytes.
pub fn lit_f_currency_v() -> (r: Vec<u8>)
    ensures
        r@ == lit_f_currency(),
{
    let mut v: Vec<u8> = Vec::new();
    v.push(34);
    v.push(44);
    v.push(34);
    v.push(99);
    v.push(117);
    v.push(114);
    v.push(114);
    v.push(101);
    v.push(110);
    v.push(99);
    v.push(121);
    v.push(34);
    v.push(58);
    v.push(34);
    proof {
        assert(v@ =~= lit_f_currency());
    }
    v
}

/// The payload text `,"currency":"`.
pub open spec fn lit_g_currency() -> Seq<u8> {
    seq![44u8, 34u8, 99u8, 117u8, 114u8, 114u8, 101u8, 110u8, 99u8, 121u8, 34u8, 58u8, 34u8]
}

/// The payload text `,"currency":"` as bytes.
pub fn lit_g_currency_v() -> (r: Vec<u8>)
    ensures
        r@ == lit_g_currency(),
{
    let mut v: Vec<u8> = Vec::new();
    v.push(44);
    v.push(34);
    v.push(99);
    v.push(117);
    v.push(114);
    v.push(114);
    v.push(101);
    v.push(110);
    v.push(99);
    v.push(121);
    v.push(34);
    v.push(58);
    v.push(34);
    proof {
        assert(v@ =~= lit_g_currency());
    }
    v
}

/// The payload text `","primary_amount":"`.
pub open spec fn lit_f_pa() -> Seq<u8> {
    seq![34u8, 44u8, 34u8, 112u8, 114u8, 105u8, 109u8, 97u8, 114u8, 121u8, 95u8, 97u8, 109u8, 111u8, 117u8, 110u8, 116u8, 34u8, 58u8, 34u8]
}

/// The payload text `","primary_amount":"` as bytes.
pub fn lit_f_pa_v() -> (r: Vec<u8>)
    ensures
        r@ == lit_f_pa(),
{
    let mut v: Vec<u8> = Vec::new();
    v.push(34);
    v.push(44);
    v.push(34);
    v.push(112);
    v.push(114);
    v.push(105);
    v.push(109);
    v.push(97);
    v.push(114);
    v.push(121);
    v.push(95);
    v.push(97);
    v.push(109);
    v.push(111);
    v.push(117);
    v.push(110);
    v.push(116);
    v.push(34);
    v.push(58);
    v.push(34);
    proof {
        assert(v@ =~= lit_f_pa());
    }
    v
}

/// The payload text `,"primary_amount":"`.
pub open spec fn lit_g_pa() -> Seq<u8> {
    seq![44u8, 34u8, 112u8, 114u8, 105u8, 109u8, 97u8, 114u8, 121u8, 95u8, 97u8, 109u8, 111u8, 117u8, 110u8, 116u8, 34u8, 58u8, 34u8]
}

/// The payload text `,"primary_amount":"` as bytes.
pub fn lit_g_pa_v() -> (r: Vec<u8>)
    ensures
        r@ == lit_g_pa(),
{
    let mut v: Vec<u8> = Vec::new();
    v.push(44);
    v.push(34);
    v.push(112);
    v.push(114);
    v.push(105);
    v.push(109);
    v.push(97);
    v.push(114);
    v.push(121);
    v.push(95);
    v.push(97);
    v.push(109);
    v.push(111);
    v.push(117);
    v.push(110);
    v.push(116);
    v.push(34);
    v.push(58);
    v.push(34);
    proof {
        assert(v@ =~= lit_g_pa());
    }
    v
}

/// The payload text `","secondary_amount":"`.
pub open spec fn lit_f_sa() -> Seq<u8> {
    seq![34u8, 44u8, 34u8, 115u8, 101u8, 99u8, 111u8, 110u8, 100u8, 97u8, 114u8, 121u8, 95u8, 97u8, 109u8, 111u8, 117u8, 110u8, 116u8, 34u8, 58u8, 34u8]
}

/// The payload text `","secondary_amount":"` as bytes.
pub fn lit_f_sa_v() -> (r: Vec<u8>)
    ensures
        r@ == lit_f_sa(),
{
    let mut v: Vec<u8> = Vec::new();
    v.push(34);
    v.push(44);
    v.push(34);
    v.push(115);
    v.push(101);
    v.push(99);
    v.push(111);
    v.push(110);
    v.push(100);
    v.push(97);
    v.push(114);
    v.push(121);
    v.push(95);
    v.push(97);
    v.push(109);
    v.push(111);
    v.push(117);
    v.push(110);
    v.push(116);
    v.push(34);
    v.push(58);
    v.push(34);
    proof {
        assert(v@ =~= lit_f_sa());
    }
    v
}

/// The payload text `,"secondary_amount":"`.
pub open spec fn lit_g_sa() -> Seq<u8> {
    seq![44u8, 34u8, 115u8, 101u8, 99u8, 111u8, 110u8, 100u8, 97u8, 114u8, 121u8, 95u8, 97u8, 109u8, 111u8, 117u8, 110u8, 116u8, 34u8, 58u8, 34u8]
}

/// The payload text `,"secondary_amount":"` as bytes.
pub fn lit_g_sa_v() -> (r: Vec<u8>)
    ensures
        r@ == lit_g_sa(),
{
    let mut v: Vec<u8> = Vec::new();
    v.push(44);
    v.push(34);
    v.push(115);
    v.push(101);
    v.push(99);
    v.push(111);
    v.push(110);
    v.push(100);
    v.push(97);
    v.push(114);
    v.push(121);
    v.push(95);
    v.push(97);
    v.push(109);
    v.push(111);
    v.push(117);
    v.push(110);
    v.push(116);
    v.push(34);
    v.push(58);
    v.push(34);
    proof {
        assert(v@ =~= lit_g_sa());
    }
    v
}

/// The payload text `","secondary":"`.
pub open spec fn lit_f_sec() -> Seq<u8> {
    seq![34u8, 44u8, 34u8, 115u8, 101u8, 99u8, 111u8, 110u8, 100u8, 97u8, 114u8, 121u8, 34u8, 58u8, 34u8]
}

/// The payload text `","secondary":"` as bytes.
pub fn lit_f_sec_v() -> (r: Vec<u8>)
    ensures
        r@ == lit_f_sec(),
{
    let mut v: Vec<u8> = Vec::new();
    v.push(34);
    v.push(44);
    v.push(34);
    v.push(115);
    v.push(101);
    v.push(99);
    v.push(111);
    v.push(110);
    v.push(100);
    v.push(97);
    v.push(114);
    v.push(121);
    v.push(34);
    v.push(58);
    v.push(34);
    proof {
        assert(v@ =~= lit_f_sec());
    }
    v
}

/// The payload text `,"secondary":"`.
pub open spec fn lit_g_sec() -> Seq<u8> {
    seq![44u8, 34u8, 115u8, 101u8, 99u8, 111u8, 110u8, 100u8, 97u8, 114u8, 121u8, 34u8, 58u8, 34u8]
}

/// The payload text `,"secondary":"` as bytes.
pub fn lit_g_sec_v() -> (r: Vec<u8>)
    ensures
        r@ == lit_g_sec(),
{
    let mut v: Vec<u8> = Vec::new();
    v.push(44);
    v.push(34);
    v.push(115);
    v.push(101);
    v.push(99);
    v.push(111);
    v.push(110);
    v.push(100);
    v.push(97);
    v.push(114);
    v.push(121);
    v.push(34);
    v.push(58);
    v.push(34);
    proof {
        assert(v@ =~= lit_g_sec());
    }
    v
}

/// The payload text `offer`.
pub open spec fn lit_w_offer() -> Seq<u8> {
    seq![111u8, 102u8, 102u8, 101u8, 114u8]
}

/// The payload text `offer` as bytes.
pub fn lit_w_offer_v() -> (r: Vec<u8>)
    ensures
        r@ == lit_w_offer(),
{
    let mut v: Vec<u8> = Vec::new();
    v.push(111);
    v.push(102);
    v.push(102);
    v.push(101);
    v.push(114);
    proof {
        assert(v@ =~= lit_w_offer());
    }
    v
}

/// The payload text `accept_offer`.
pub open spec fn lit_w_accept() -> Seq<u8> {
    seq![97u8, 99u8, 99u8, 101u8, 112u8, 116u8, 95u8, 111u8, 102u8, 102u8, 101u8, 114u8]
}

/// The payload text `accept_offer` as bytes.
pub fn lit_w_accept_v() -> (r: Vec<u8>)
    ensures
        r@ == lit_w_accept(),
{
    let mut v: Vec<u8> = Vec::new();
    v.push(97);
    v.push(99);
    v.push(99);
    v.push(101);
    v.push(112);
    v.push(116);
    v.push(95);
    v.push(111);
    v.push(102);
    v.push(102);
    v.push(101);
    v.push(114);
    proof {
        assert(v@ =~= lit_w_accept());
    }
    v
}

/// The payload text `init_redeem`.
pub open spec fn lit_w_init_redeem() -> Seq<u8> {
    seq![105u8, 110u8, 105u8, 116u8, 95u8, 114u8, 101u8, 100u8, 101u8, 101u8, 109u8]
}

/// The payload text `init_redeem` as bytes.
pub fn lit_w_init_redeem_v() -> (r: Vec<u8>)
    ensures
        r@ == lit_w_init_redeem(),
{
    let mut v: Vec<u8> = Vec::new();
    v.push(105);
    v.push(110);
    v.push(105);
    v.push(116);
    v.push(95);
    v.push(114);
    v.push(101);
    v.push(100);
    v.push(101);
    v.push(101);
    v.push(109);
    proof {
        assert(v@ =~= lit_w_init_redeem());
    }
    v
}

/// The payload text `redeem`.
pub open spec fn lit_w_redeem() -> Seq<u8> {
    seq![114u8, 101u8, 100u8, 101u8, 101u8, 109u8]
}

/// The payload text `redeem` as bytes.
pub fn lit_w_redeem_v() -> (r: Vec<u8>)
    ensures
        r@ == lit_w_redeem(),
{
    let mut v: Vec<u8> = Vec::new();
    v.push(114);
    v.push(101);
    v.push(100);
    v.push(101);
    v.push(101);
    v.push(109);
    proof {
        assert(v@ =~= lit_w_redeem());
    }
    v
}

/// The payload text `none`.
pub open spec fn lit_w_noupdate() -> Seq<u8> {
    seq![110u8, 111u8, 110u8, 101u8]
}

/// The payload text `none` as bytes.
pub fn lit_w_noupdate_v() -> (r: Vec<u8>)
    ensures
        r@ == lit_w_noupdate(),
{
    let mut v: Vec<u8> = Vec::new();
    v.push(110);
    v.push(111);
    v.push(110);
    v.push(101);
    proof {
        assert(v@ =~= lit_w_noupdate());
    }
    v
}

/// The payload text `btc`.
pub open spec fn lit_w_btc() -> Seq<u8> {
    seq![98u8, 116u8, 99u8]
}

/// The payload text `btc` as bytes.
pub fn lit_w_btc_v() -> (r: Vec<u8>)
    ensures
        r@ == lit_w_btc(),
{
    let mut v: Vec<u8> = Vec::new();
    v.push(98);
    v.push(116);
    v.push(99);
    proof {
        assert(v@ =~= lit_w_btc());
    }
    v
}

/// The payload text `btc:`.
pub open spec fn lit_w_btc_pre() -> Seq<u8> {
    seq![98u8, 116u8, 99u8, 58u8]
}

/// The payload text `btc:` as bytes.
pub fn lit_w_btc_pre_v() -> (r: Vec<u8>)
    ensures
        r@ == lit_w_btc_pre(),
{
    let mut v: Vec<u8> = Vec::new();
    v.push(98);
    v.push(116);
    v.push(99);
    v.push(58);
    proof {
        assert(v@ =~= lit_w_btc_pre());
    }
    v
}

/// The payload text `1`.
pub open spec fn lit_w_v1() -> Seq<u8> {
    seq![49u8]
}

/// The payload text `1` as bytes.
pub fn lit_w_v1_v() -> (r: Vec<u8>)
    ensures
        r@ == lit_w_v1(),
{
    let mut v: Vec<u8> = Vec::new();
    v.push(49);
    proof {
        assert(v@ =~= lit_w_v1());
    }
    v
}

/// The payload text `2`.
pub open spec fn lit_w_v2() -> Seq<u8> {
    seq![50u8]
}

/// The payload text `2` as bytes.
pub fn lit_w_v2_v() -> (r: Vec<u8>)
    ensures
        r@ == lit_w_v2(),
{
    let mut v: Vec<u8> = Vec::new();
    v.push(50);
    proof {
        assert(v@ =~= lit_w_v2());
    }
    v
}

/// The written form of a slate version.
pub open spec fn spec_version_str(v: SlateVersion) -> Seq<u8> {
    match v {
        SlateVersion::V1 => lit_w_v1(),
        SlateVersion::V2 => lit_w_v2(),
    }
}

/// The version a version field names.
pub open spec fn spec_parse_version(s: Seq<u8>) -> Option<SlateVersion> {
    if s == lit_w_v1() {
        Some(SlateVersion::V1)
    } else if s == lit_w_v2() {
        Some(SlateVersion::V2)
    } else {
        None
    }
}

/// Reads a version field.
fn parse_version(s: &[u8]) -> (r: Option<SlateVersion>)
    ensures
        r == spec_parse_version(s@),
{
    let v1 = lit_w_v1_v();
    let v2 = lit_w_v2_v();
    if crate::encoding::bytes_eq(s, v1.as_slice()) {
        Some(SlateVersion::V1)
    } else if crate::encoding::bytes_eq(s, v2.as_slice()) {
        Some(SlateVersion::V2)
    } else {
        None
    }
}

/// The written form of a currency.
pub open spec fn spec_currency_str(c: Currency) -> Seq<u8> {
    match c {
        Currency::Btc => lit_w_btc(),
    }
}

/// The currency a currency field names.
pub open spec fn spec_parse_currency(s: Seq<u8>) -> Option<Currency> {
    if s == lit_w_btc() {
        Some(Currency::Btc)
    } else {
        None
    }
}

/// Reads a currency field.
fn parse_currency(s: &[u8]) -> (r: Option<Currency>)
    ensures
        r == spec_parse_currency(s@),
{
    let b = lit_w_btc_v();
    if crate::encoding::bytes_eq(s, b.as_slice()) {
        Some(Currency::Btc)
    } else {
        None
    }
}

/// The written form of a secondary-chain update.
pub open spec fn spec_secondary_str(su: SecondaryUpdateModel) -> Seq<u8> {
    match su {
        SecondaryUpdateModel::Empty => Seq::empty(),
        SecondaryUpdateModel::Btc(d) => lit_w_btc_pre() + d,
    }
}

/// The secondary-chain update a secondary field holds.
pub open spec fn spec_parse_secondary(s: Seq<u8>) -> Option<SecondaryUpdateModel> {
    if s.len() == 0 {
        Some(SecondaryUpdateModel::Empty)
    } else if s.len() >= lit_w_btc_pre().len() && s.take(lit_w_btc_pre().len() as int)
        == lit_w_btc_pre() {
        Some(SecondaryUpdateModel::Btc(s.skip(lit_w_btc_pre().len() as int)))
    } else {
        None
    }
}

/// Reads a secondary field.
fn parse_secondary(s: &[u8]) -> (r: Option<SecondaryUpdate>)
    ensures
        match r {
            Some(su) => spec_parse_secondary(s@) == Some(su@),
            None => spec_parse_secondary(s@) is None,
        },
{
    if s.len() == 0 {
        return Some(SecondaryUpdate::Empty);
    }
    let pre = lit_w_btc_pre_v();
    if crate::encoding::has_prefix(s, pre.as_slice()) {
        let d = crate::encoding::copy_range(s, 4, s.len());
        proof {
            assert(d@ =~= s@.skip(4));
        }
        Some(SecondaryUpdate::Btc(d))
    } else {
        None
    }
}

/// The written form of an update step.
pub open spec fn spec_update_word(u: UpdateModel) -> Seq<u8> {
    match u {
        UpdateModel::NoUpdate => lit_w_noupdate(),
        UpdateModel::Offer(_) => lit_w_offer(),
        UpdateModel::AcceptOffer => lit_w_accept(),
        UpdateModel::InitRedeem => lit_w_init_redeem(),
        UpdateModel::Redeem => lit_w_redeem(),
    }
}

/// The offer terms written for a message: an offer's own, or canonical
/// fillers for steps that carry none.
pub open spec fn spec_offer_fields(u: UpdateModel) -> OfferModel {
    match u {
        UpdateModel::Offer(o) => o,
        _ => OfferModel { secondary_currency: Currency::Btc, primary_amount: 0, secondary_amount: 0 },
    }
}

/// The mathematical shape of an encrypted payload.
#[verifier::ext_equal]
pub enum PayloadModel {
    Tx(VersionedSlateModel),
    Swap(MessageModel),
}

impl PayloadModel {
    /// The canonical wire form of the payload.
    pub open spec fn spec_encode(self) -> Seq<u8> {
        match self {
            PayloadModel::Tx(vs) => lit_pl_tx_pre() + spec_version_str(vs.version) + lit_f_id()
                + vs.slate.id + lit_f_np() + dec_of(vs.slate.num_participants as nat)
                + lit_f_parts() + spec_encode_ids(vs.slate.participant_ids) + lit_f_inputs()
                + dec_of(vs.slate.input_count as nat) + lit_f_amount() + dec_of(
                vs.slate.amount as nat,
            ) + lit_q_end(),
            PayloadModel::Swap(m) => lit_pl_swap_pre() + m.id + lit_f_update() + spec_update_word(
                m.inner,
            ) + lit_f_currency() + spec_currency_str(spec_offer_fields(m.inner).secondary_currency)
                + lit_f_pa() + dec_of(spec_offer_fields(m.inner).primary_amount as nat) + lit_f_sa()
                + dec_of(spec_offer_fields(m.inner).secondary_amount as nat) + lit_f_sec()
                + spec_secondary_str(m.secondary) + lit_q_end(),
        }
    }
}

/// What an envelope carries: a slate in negotiation, or a swap protocol
/// message.
#[derive(Clone, Debug)]
pub enum EncryptedPayload {
    Tx(VersionedSlate),
    Swap(Message),
}

impl View for EncryptedPayload {
    type V = PayloadModel;

    open spec fn view(&self) -> PayloadModel {
        match self {
            EncryptedPayload::Tx(vs) => PayloadModel::Tx(vs@),
            EncryptedPayload::Swap(m) => PayloadModel::Swap(m@),
        }
    }
}

impl EncryptedPayload {
    /// Writes the payload in its canonical wire form.
    pub fn encode(&self) -> (r: Vec<u8>)
        ensures
            r@ == self@.spec_encode(),
    {
        match self {
            EncryptedPayload::Tx(vs) => {
                let mut v = lit_pl_tx_pre_v();
                let ver = match vs.version {
                    SlateVersion::V1 => lit_w_v1_v(),
                    SlateVersion::V2 => lit_w_v2_v(),
                };
                append_bytes(&mut v, ver.as_slice());
                let l1 = lit_f_id_v();
                append_bytes(&mut v, l1.as_slice());
                append_bytes(&mut v, vs.slate.id.as_slice());
                let l2 = lit_f_np_v();
                append_bytes(&mut v, l2.as_slice());
                let np = u64_to_dec(vs.slate.num_participants);
                append_bytes(&mut v, np.as_slice());
                let l3 = lit_f_parts_v();
                append_bytes(&mut v, l3.as_slice());
                let mut ids: Vec<u64> = Vec::new();
                let mut i: usize = 0;
                while i < vs.slate.participant_data.len()
                    invariant
                        i <= vs.slate.participant_data@.len(),
                        ids@ == vs.slate.participant_data@.take(i as int).map_values(
                            |p: ParticipantData| p.id,
                        ),
                    decreases vs.slate.participant_data@.len() - i,
                {
                    ids.push(vs.slate.participant_data[i].id);
                    proof {
                        assert(vs.slate.participant_data@.take(i + 1 as int).map_values(
                            |p: ParticipantData| p.id,
                        ) =~= vs.slate.participant_data@.take(i as int).map_values(
                            |p: ParticipantData| p.id,
                        ).push(vs.slate.participant_data@[i as int].id));
                    }
                    i = i + 1;
                }
                proof {
                    assert(vs.slate.participant_data@.take(
                        vs.slate.participant_data@.len() as int,
                    ) =~= vs.slate.participant_data@);
                }
                let idtext = encode_ids(&ids);
                append_bytes(&mut v, idtext.as_slice());
                let l4 = lit_f_inputs_v();
                append_bytes(&mut v, l4.as_slice());
                let ic = u64_to_dec(vs.slate.input_count);
                append_bytes(&mut v, ic.as_slice());
                let l5 = lit_f_amount_v();
                append_bytes(&mut v, l5.as_slice());
                let am = u64_to_dec(vs.slate.amount);
                append_bytes(&mut v, am.as_slice());
                let l6 = lit_q_end_v();
                append_bytes(&mut v, l6.as_slice());
                proof {
                    assert(v@ =~= self@.spec_encode());
                }
                v
            },
            EncryptedPayload::Swap(m) => {
                let mut v = lit_pl_swap_pre_v();
                append_bytes(&mut v, m.id.as_slice());
                let l1 = lit_f_update_v();
                append_bytes(&mut v, l1.as_slice());
                let word = match &m.inner {
                    Update::NoUpdate => lit_w_noupdate_v(),
                    Update::Offer(_) => lit_w_offer_v(),
                    Update::AcceptOffer => lit_w_accept_v(),
                    Update::InitRedeem => lit_w_init_redeem_v(),
                    Update::Redeem => lit_w_redeem_v(),
                };
                append_bytes(&mut v, word.as_slice());
                let l2 = lit_f_currency_v();
                append_bytes(&mut v, l2.as_slice());
                let cur = lit_w_btc_v();
                append_bytes(&mut v, cur.as_slice());
                let l3 = lit_f_pa_v();
                append_bytes(&mut v, l3.as_slice());
                let (pa, sa) = match &m.inner {
                    Update::Offer(o) => (o.primary_amount, o.secondary_amount),
                    _ => (0u64, 0u64),
                };
                let pad = u64_to_dec(pa);
                append_bytes(&mut v, pad.as_slice());
                let l4 = lit_f_sa_v();
                append_bytes(&mut v, l4.as_slice());
                let sad = u64_to_dec(sa);
                append_bytes(&mut v, sad.as_slice());
                let l5 = lit_f_sec_v();
                append_bytes(&mut v, l5.as_slice());
                match &m.secondary {
                    SecondaryUpdate::Empty => {},
                    SecondaryUpdate::Btc(d) => {
                        let pre = lit_w_btc_pre_v();
                        append_bytes(&mut v, pre.as_slice());
                        append_bytes(&mut v, d.as_slice());
                    },
                }
                let l6 = lit_q_end_v();
                append_bytes(&mut v, l6.as_slice());
                proof {
                    assert(v@ =~= self@.spec_encode());
                }
                v
            },
        }
    }
}

/// Reads a payload, accepting exactly the canonical form.
pub open spec fn spec_parse_payload(s: Seq<u8>) -> Option<PayloadModel> {
    match spec_expect(s, 0, lit_pl_tx_pre()) {
        Some(i1) => match spec_scan(s, i1) {
            None => None,
            Some((ver, i2)) => match spec_parse_version(ver) {
                None => None,
                Some(version) => match spec_expect(s, i2, lit_g_id()) {
                    None => None,
                    Some(i3) => match spec_scan(s, i3) {
                        None => None,
                        Some((id, i4)) => match spec_expect(s, i4, lit_g_np()) {
                            None => None,
                            Some(i5) => match spec_scan(s, i5) {
                                None => None,
                                Some((npt, i6)) => match spec_parse_u64(npt) {
                                    None => None,
                                    Some(np) => match spec_expect(s, i6, lit_g_parts()) {
                                        None => None,
                                        Some(i7) => match spec_scan(s, i7) {
                                            None => None,
                                            Some((pt, i8)) => match spec_parse_ids(pt) {
                                                None => None,
                                                Some(ids) => match spec_expect(
                                                    s,
                                                    i8,
                                                    lit_g_inputs(),
                                                ) {
                                                    None => None,
                                                    Some(i9) => match spec_scan(s, i9) {
                                                        None => None,
                                                        Some((ict, i10)) => match spec_parse_u64(
                                                            ict,
                                                        ) {
                                                            None => None,
                                                            Some(ic) => match spec_expect(
                                                                s,
                                                                i10,
                                                                lit_g_amount(),
                                                            ) {
                                                                None => None,
                                                                Some(i11) => match spec_scan(
                                                                    s,
                                                                    i11,
                                                                ) {
                                                                    None => None,
                                                                    Some((amt, i12)) => match
                                                                        spec_parse_u64(amt) {
                                                                        None => None,
                                                                        Some(am) => match
                                                                            spec_expect(
                                                                            s,
                                                                            i12,
                                                                            lit_p_end(),
                                                                        ) {
                                                                            None => None,
                                                                            Some(i13) => if i13
                                                                                == s.len() {
                                                                                Some(
                                                                                    PayloadModel::Tx(
                                                                                        VersionedSlateModel {
                                                                                            version,
                                                                                            slate:
                                                                                                SlateModel {
                                                                                                id,
                                                                                                num_participants:
                                                                                                    np,
                                                                                                participant_ids:
                                                                                                    ids,
                                                                                                input_count:
                                                                                                    ic,
                                                                                                amount:
                                                                                                    am,
                                                                                            },
                                                                                        },
                                                                                    ),
                                                                                )
                                                                            } else {
                                                                                None
                                                                            },
                                                                        },
                                                                    },
                                                                },
                                                            },
                                                        },
                                                    },
                                                },
                                            },
                                        },
                                    },
                                },
                            },
                        },
                    },
                },
            },
        },
        None => spec_parse_swap_payload(s),
    }
}

/// Reads a swap-message payload, accepting exactly the canonical form.
pub open spec fn spec_parse_swap_payload(s: Seq<u8>) -> Option<PayloadModel> {
    match spec_expect(s, 0, lit_pl_swap_pre()) {
        None => None,
        Some(i1) => match spec_scan(s, i1) {
            None => None,
            Some((id, i2)) => match spec_expect(s, i2, lit_g_update()) {
                None => None,
                Some(i3) => match spec_scan(s, i3) {
                    None => None,
                    Some((word, i4)) => match spec_expect(s, i4, lit_g_currency()) {
                        None => None,
                        Some(i5) => match spec_scan(s, i5) {
                            None => None,
                            Some((curt, i6)) => match spec_parse_currency(curt) {
                                None => None,
                                Some(cur) => match spec_expect(s, i6, lit_g_pa()) {
                                    None => None,
                                    Some(i7) => match spec_scan(s, i7) {
                                        None => None,
                                        Some((pat, i8)) => match spec_parse_u64(pat) {
                                            None => None,
                                            Some(pa) => match spec_expect(s, i8, lit_g_sa()) {
                                                None => None,
                                                Some(i9) => match spec_scan(s, i9) {
                                                    None => None,
                                                    Some((sat, i10)) => match spec_parse_u64(
                                                        sat,
                                                    ) {
                                                        None => None,
                                                        Some(sa) => match spec_expect(
                                                            s,
                                                            i10,
                                                            lit_g_sec(),
                                                        ) {
                                                            None => None,
                                                            Some(i11) => match spec_scan(s, i11) {
                                                                None => None,
                                                                Some((sect, i12)) => match
                                                                    spec_parse_secondary(sect) {
                                                                    None => None,
                                                                    Some(sec) => match spec_expect(
                                                                        s,
                                                                        i12,
                                                                        lit_p_end(),
                                                                    ) {
                                                                        None => None,
                                                                        Some(i13) => if i13
                                                                            == s.len() {
                                                                            match spec_word_update(
                                                                                word,
                                                                                cur,
                                                                                pa,
                                                                                sa,
                                                                            ) {
                                                                                None => None,
                                                                                Some(inner) => Some(
                                                                                    PayloadModel::Swap(
                                                                                        MessageModel {
                                                                                            id,
                                                                                            inner,
                                                                                            secondary:
                                                                                                sec,
                                                                                        },
                                                                                    ),
                                                                                ),
                                                                            }
                                                                        } else {
                                                                            None
                                                                        },
                                                                    },
                                                                },
                                                            },
                                                        },
                                                    },
                                                },
                                            },
                                        },
                                    },
                                },
                            },
                        },
                    },
                },
            },
        },
    }
}

/// The update step an update word and the offer fields name.
pub open spec fn spec_word_update(word: Seq<u8>, cur: Currency, pa: u64, sa: u64) -> Option<
    UpdateModel,
> {
    if word == lit_w_offer() {
        Some(
            UpdateModel::Offer(
                OfferModel { secondary_currency: cur, primary_amount: pa, secondary_amount: sa },
            ),
        )
    } else if word == lit_w_noupdate() {
        Some(UpdateModel::NoUpdate)
    } else if word == lit_w_accept() {
        Some(UpdateModel::AcceptOffer)
    } else if word == lit_w_init_redeem() {
        Some(UpdateModel::InitRedeem)
    } else if word == lit_w_redeem() {
        Some(UpdateModel::Redeem)
    } else {
        None
    }
}

/// Reads a payload, accepting exactly the canonical form.
pub fn parse_payload(s: &[u8]) -> (r: Option<EncryptedPayload>)
    ensures
        match r {
            Some(p) => spec_parse_payload(s@) == Some(p@),
            None => spec_parse_payload(s@) is None,
        },
{
    let n: usize = s.len();
    let l_end = lit_p_end_v();
    let tx_pre = lit_pl_tx_pre_v();
    match expect_lit(s, 0, tx_pre.as_slice()) {
        Some(i1) => {
            let (ver, i2) = match scan_string(s, i1) {
                Some(v) => v,
                None => {
                    return None;
                },
            };
            let version = match parse_version(ver.as_slice()) {
                Some(v) => v,
                None => {
                    return None;
                },
            };
            let l_id = lit_g_id_v();
            let i3 = match expect_lit(s, i2, l_id.as_slice()) {
                Some(i) => i,
                None => {
                    return None;
                },
            };
            let (id, i4) = match scan_string(s, i3) {
                Some(v) => v,
                None => {
                    return None;
                },
            };
            let l_np = lit_g_np_v();
            let i5 = match expect_lit(s, i4, l_np.as_slice()) {
                Some(i) => i,
                None => {
                    return None;
                },
            };
            let (npt, i6) = match scan_string(s, i5) {
                Some(v) => v,
                None => {
                    return None;
                },
            };
            let np = match parse_u64_range(npt.as_slice(), 0, npt.len()) {
                Some(v) => v,
                None => {
                    proof {
                        assert(npt@.subrange(0, npt@.len() as int) =~= npt@);
                    }
                    return None;
                },
            };
            proof {
                assert(npt@.subrange(0, npt@.len() as int) =~= npt@);
            }
            let l_parts = lit_g_parts_v();
            let i7 = match expect_lit(s, i6, l_parts.as_slice()) {
                Some(i) => i,
                None => {
                    return None;
                },
            };
            let (pt, i8) = match scan_string(s, i7) {
                Some(v) => v,
                None => {
                    return None;
                },
            };
            let ids = match parse_ids(pt.as_slice()) {
                Some(v) => v,
                None => {
                    return None;
                },
            };
            let l_inputs = lit_g_inputs_v();
            let i9 = match expect_lit(s, i8, l_inputs.as_slice()) {
                Some(i) => i,
                None => {
                    return None;
                },
            };
            let (ict, i10) = match scan_string(s, i9) {
                Some(v) => v,
                None => {
                    return None;
                },
            };
            let ic = match parse_u64_range(ict.as_slice(), 0, ict.len()) {
                Some(v) => v,
                None => {
                    proof {
                        assert(ict@.subrange(0, ict@.len() as int) =~= ict@);
                    }
                    return None;
                },
            };
            proof {
                assert(ict@.subrange(0, ict@.len() as int) =~= ict@);
            }
            let l_amount = lit_g_amount_v();
            let i11 = match expect_lit(s, i10, l_amount.as_slice()) {
                Some(i) => i,
                None => {
                    return None;
                },
            };
            let (amt, i12) = match scan_string(s, i11) {
                Some(v) => v,
                None => {
                    return None;
                },
            };
            let am = match parse_u64_range(amt.as_slice(), 0, amt.len()) {
                Some(v) => v,
                None => {
                    proof {
                        assert(amt@.subrange(0, amt@.len() as int) =~= amt@);
                    }
                    return None;
                },
            };
            proof {
                assert(amt@.subrange(0, amt@.len() as int) =~= amt@);
            }
            let i13 = match expect_lit(s, i12, l_end.as_slice()) {
                Some(i) => i,
                None => {
                    return None;
                },
            };
            if i13 != n {
                return None;
            }
            let mut pd: Vec<ParticipantData> = Vec::new();
            let mut k: usize = 0;
            while k < ids.len()
                invariant
                    k <= ids@.len(),
                    pd@.map_values(|p: ParticipantData| p.id) == ids@.take(k as int),
                decreases ids@.len() - k,
            {
                let ghost pdp = pd@;
                pd.push(ParticipantData { id: ids[k] });
                proof {
                    assert(pd@ =~= pdp.push(ParticipantData { id: ids@[k as int] }));
                    assert(pd@.map_values(|p: ParticipantData| p.id) =~= pdp.map_values(
                        |p: ParticipantData| p.id,
                    ).push(ids@[k as int]));
                    assert(ids@.take(k + 1 as int) =~= ids@.take(k as int).push(ids@[k as int]));
                }
                k = k + 1;
            }
            proof {
                assert(ids@.take(ids@.len() as int) =~= ids@);
            }
            let slate = Slate {
                id,
                num_participants: np,
                participant_data: pd,
                input_count: ic,
                amount: am,
            };
            let vs = VersionedSlate { version, slate };
            Some(EncryptedPayload::Tx(vs))
        },
        None => {
            let swap_pre = lit_pl_swap_pre_v();
            let i1 = match expect_lit(s, 0, swap_pre.as_slice()) {
                Some(i) => i,
                None => {
                    return None;
                },
            };
            let (id, i2) = match scan_string(s, i1) {
                Some(v) => v,
                None => {
                    return None;
                },
            };
            let l_update = lit_g_update_v();
            let i3 = match expect_lit(s, i2, l_update.as_slice()) {
                Some(i) => i,
                None => {
                    return None;
                },
            };
            let (word, i4) = match scan_string(s, i3) {
                Some(v) => v,
                None => {
                    return None;
                },
            };
            let l_currency = lit_g_currency_v();
            let i5 = match expect_lit(s, i4, l_currency.as_slice()) {
                Some(i) => i,
                None => {
                    return None;
                },
            };
            let (curt, i6) = match scan_string(s, i5) {
                Some(v) => v,
                None => {
                    return None;
                },
            };
            let cur = match parse_currency(curt.as_slice()) {
                Some(v) => v,
                None => {
                    return None;
                },
            };
            let l_pa = lit_g_pa_v();
            let i7 = match expect_lit(s, i6, l_pa.as_slice()) {
                Some(i) => i,
                None => {
                    return None;
                },
            };
            let (pat, i8) = match scan_string(s, i7) {
                Some(v) => v,
                None => {
                    return None;
                },
            };
            let pa = match parse_u64_range(pat.as_slice(), 0, pat.len()) {
                Some(v) => v,
                None => {
                    proof {
                        assert(pat@.subrange(0, pat@.len() as int) =~= pat@);
                    }
                    return None;
                },
            };
            proof {
                assert(pat@.subrange(0, pat@.len() as int) =~= pat@);
            }
            let l_sa = lit_g_sa_v();
            let i9 = match expect_lit(s, i8, l_sa.as_slice()) {
                Some(i) => i,
                None => {
                    return None;
                },
            };
            let (sat, i10) = match scan_string(s, i9) {
                Some(v) => v,
                None => {
                    return None;
                },
            };
            let sa = match parse_u64_range(sat.as_slice(), 0, sat.len()) {
                Some(v) => v,
                None => {
                    proof {
                        assert(sat@.subrange(0, sat@.len() as int) =~= sat@);
                    }
                    return None;
                },
            };
            proof {
                assert(sat@.subrange(0, sat@.len() as int) =~= sat@);
            }
            let l_sec = lit_g_sec_v();
            let i11 = match expect_lit(s, i10, l_sec.as_slice()) {
                Some(i) => i,
                None => {
                    return None;
                },
            };
            let (sect, i12) = match scan_string(s, i11) {
                Some(v) => v,
                None => {
                    return None;
                },
            };
            let sec = match parse_secondary(sect.as_slice()) {
                Some(v) => v,
                None => {
                    return None;
                },
            };
            let i13 = match expect_lit(s, i12, l_end.as_slice()) {
                Some(i) => i,
                None => {
                    return None;
                },
            };
            if i13 != n {
                return None;
            }
            let w_offer = lit_w_offer_v();
            let w_none = lit_w_noupdate_v();
            let w_accept = lit_w_accept_v();
            let w_init = lit_w_init_redeem_v();
            let w_redeem = lit_w_redeem_v();
            let inner: Update;
            if crate::encoding::bytes_eq(word.as_slice(), w_offer.as_slice()) {
                inner = Update::Offer(
                    OfferUpdate {
                        secondary_currency: cur,
                        primary_amount: pa,
                        secondary_amount: sa,
                    },
                );
            } else if crate::encoding::bytes_eq(word.as_slice(), w_none.as_slice()) {
                inner = Update::NoUpdate;
            } else if crate::encoding::bytes_eq(word.as_slice(), w_accept.as_slice()) {
                inner = Update::AcceptOffer;
            } else if crate::encoding::bytes_eq(word.as_slice(), w_init.as_slice()) {
                inner = Update::InitRedeem;
            } else if crate::encoding::bytes_eq(word.as_slice(), w_redeem.as_slice()) {
                inner = Update::Redeem;
            } else {
                return None;
            }
            Some(EncryptedPayload::Swap(Message { id, inner, secondary: sec }))
        },
    }
}

} // verus!
