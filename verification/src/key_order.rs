//! The byte order of whitelist storage keys, read as an order on the
//! whitelisted contracts themselves.
use vstd::prelude::*;
use vstd::utf8::encode_utf8;

use crate::storage_key::{be_u16, be_u32, bytes_lt, lemma_bytes_lt_irreflexive, lemma_bytes_lt_total, white_list_key};
use crate::white_list::{lists_in_key_order, storage_key_of, white_list_key_fits, WhiteListedView};

verus! {

/// The order of whitelisted contracts: by address length, then address
/// bytes, then chain id length in bytes, then chain id bytes, then chain type.
pub open spec fn listed_before(a: WhiteListedView, b: WhiteListedView) -> bool {
    let ca = encode_utf8(a.chain_id);
    let cb = encode_utf8(b.chain_id);
    if a.contract_address.len() != b.contract_address.len() {
        a.contract_address.len() < b.contract_address.len()
    } else if a.contract_address != b.contract_address {
        bytes_lt(a.contract_address, b.contract_address)
    } else if ca.len() != cb.len() {
        ca.len() < cb.len()
    } else if ca != cb {
        bytes_lt(ca, cb)
    } else {
        a.chain_type < b.chain_type
    }
}

proof fn lemma_common_prefix(p: Seq<u8>, x: Seq<u8>, y: Seq<u8>)
    ensures
        bytes_lt(p + x, p + y) == bytes_lt(x, y),
    decreases p.len(),
{
    if p.len() > 0 {
        let q = p.drop_first();
        assert((p + x).drop_first() =~= q + x);
        assert((p + y).drop_first() =~= q + y);
        assert((p + x)[0] == p[0]);
        assert((p + y)[0] == p[0]);
        lemma_common_prefix(q, x, y);
    } else {
        assert(p + x =~= x);
        assert(p + y =~= y);
    }
}

proof fn lemma_differing_heads(a: Seq<u8>, b: Seq<u8>, x: Seq<u8>, y: Seq<u8>)
    requires
        a.len() == b.len(),
        a != b,
    ensures
        bytes_lt(a + x, b + y) == bytes_lt(a, b),
    decreases a.len(),
{
    if a.len() == 0 {
        assert(a =~= b);
    } else {
        assert((a + x)[0] == a[0]);
        assert((b + y)[0] == b[0]);
        if a[0] == b[0] {
            assert((a + x).drop_first() =~= a.drop_first() + x);
            assert((b + y).drop_first() =~= b.drop_first() + y);
            if a.drop_first() == b.drop_first() {
                assert(a =~= seq![a[0]] + a.drop_first());
                assert(b =~= seq![b[0]] + b.drop_first());
            }
            lemma_differing_heads(a.drop_first(), b.drop_first(), x, y);
        }
    }
}

proof fn lemma_be_u16(n: nat, m: nat)
    requires
        n <= 0xFFFF,
        m <= 0xFFFF,
    ensures
        (be_u16(n) == be_u16(m)) == (n == m),
        bytes_lt(be_u16(n), be_u16(m)) == (n < m),
{
    let a = be_u16(n);
    let b = be_u16(m);
    reveal_with_fuel(bytes_lt, 3);
    assert(a.drop_first() =~= seq![(n % 256) as u8]);
    assert(b.drop_first() =~= seq![(m % 256) as u8]);
    assert(a.drop_first().drop_first() =~= Seq::<u8>::empty());
    assert(b.drop_first().drop_first() =~= Seq::<u8>::empty());
    assert(n == (n / 256) * 256 + n % 256);
    assert(m == (m / 256) * 256 + m % 256);
    if a == b {
        assert(a[0] == b[0] && a[1] == b[1]);
    }
}

proof fn lemma_be_u32(n: u32, m: u32)
    ensures
        (be_u32(n) == be_u32(m)) == (n == m),
        bytes_lt(be_u32(n), be_u32(m)) == (n < m),
{
    let a = be_u32(n);
    let b = be_u32(m);
    reveal_with_fuel(bytes_lt, 5);
    assert(a.drop_first() =~= seq![a[1], a[2], a[3]]);
    assert(b.drop_first() =~= seq![b[1], b[2], b[3]]);
    assert(a.drop_first().drop_first() =~= seq![a[2], a[3]]);
    assert(b.drop_first().drop_first() =~= seq![b[2], b[3]]);
    assert(a.drop_first().drop_first().drop_first() =~= seq![a[3]]);
    assert(b.drop_first().drop_first().drop_first() =~= seq![b[3]]);
    assert(a.drop_first().drop_first().drop_first().drop_first() =~= Seq::<u8>::empty());
    assert(b.drop_first().drop_first().drop_first().drop_first() =~= Seq::<u8>::empty());
    let (n0, n1, n2, n3) = (n / 0x100_0000, (n / 0x1_0000) % 256, (n / 256) % 256, n % 256);
    let (m0, m1, m2, m3) = (m / 0x100_0000, (m / 0x1_0000) % 256, (m / 256) % 256, m % 256);
    assert(n == (n / 0x100_0000) * 0x100_0000 + ((n / 0x1_0000) % 256) * 0x1_0000 + ((n / 256) % 256) * 256 + n % 256)
        by (bit_vector);
    assert(m == (m / 0x100_0000) * 0x100_0000 + ((m / 0x1_0000) % 256) * 0x1_0000 + ((m / 256) % 256) * 256 + m % 256)
        by (bit_vector);
    assert(n0 < 256 && m0 < 256);
    assert(a[0] == n0 && a[1] == n1 && a[2] == n2 && a[3] == n3);
    assert(b[0] == m0 && b[1] == m1 && b[2] == m2 && b[3] == m3);
    if a == b {
        assert(a[0] == b[0] && a[1] == b[1] && a[2] == b[2] && a[3] == b[3]);
    }
}

/// For whitelisted contracts whose key parts fit, the byte order of their
/// storage keys is the order `listed_before`.
pub proof fn law_storage_key_order(a: WhiteListedView, b: WhiteListedView)
    requires
        white_list_key_fits(a.contract_address, a.chain_id),
        white_list_key_fits(b.contract_address, b.chain_id),
    ensures
        bytes_lt(storage_key_of(a), storage_key_of(b)) == listed_before(a, b),
{
    let (xa, xb) = (a.contract_address, b.contract_address);
    let (ca, cb) = (encode_utf8(a.chain_id), encode_utf8(b.chain_id));
    let (ta, tb) = (be_u32(a.chain_type), be_u32(b.chain_type));
    let ka = storage_key_of(a);
    let kb = storage_key_of(b);
    let ra = xa + be_u16(ca.len()) + ca + ta;
    let rb = xb + be_u16(cb.len()) + cb + tb;
    assert(ka =~= be_u16(xa.len()) + ra);
    assert(kb =~= be_u16(xb.len()) + rb);
    lemma_be_u16(xa.len(), xb.len());
    if xa.len() != xb.len() {
        lemma_differing_heads(be_u16(xa.len()), be_u16(xb.len()), ra, rb);
        return;
    }
    lemma_common_prefix(be_u16(xa.len()), ra, rb);
    let sa = be_u16(ca.len()) + (ca + ta);
    let sb = be_u16(cb.len()) + (cb + tb);
    assert(ra =~= xa + sa);
    assert(rb =~= xb + sb);
    if xa != xb {
        lemma_differing_heads(xa, xb, sa, sb);
        return;
    }
    lemma_common_prefix(xa, sa, sb);
    lemma_be_u16(ca.len(), cb.len());
    if ca.len() != cb.len() {
        lemma_differing_heads(be_u16(ca.len()), be_u16(cb.len()), ca + ta, cb + tb);
        return;
    }
    lemma_common_prefix(be_u16(ca.len()), ca + ta, cb + tb);
    if ca != cb {
        lemma_differing_heads(ca, cb, ta, tb);
        return;
    }
    lemma_common_prefix(ca, ta, tb);
    lemma_be_u32(a.chain_type, b.chain_type);
}

/// Two whitelisted contracts whose key parts fit have the same storage key
/// only if they are the same contract: same address, chain id and chain type.
pub proof fn law_storage_key_injective(a: WhiteListedView, b: WhiteListedView)
    requires
        white_list_key_fits(a.contract_address, a.chain_id),
        white_list_key_fits(b.contract_address, b.chain_id),
        storage_key_of(a) == storage_key_of(b),
    ensures
        a == b,
{
    law_storage_key_order(a, b);
    law_storage_key_order(b, a);
    lemma_bytes_lt_irreflexive(storage_key_of(a));
    lemma_bytes_lt_total(a.contract_address, b.contract_address);
    let ca = encode_utf8(a.chain_id);
    let cb = encode_utf8(b.chain_id);
    lemma_bytes_lt_total(ca, cb);
    assert(a.contract_address == b.contract_address);
    assert(ca == cb);
    vstd::utf8::encode_utf8_decode_utf8(a.chain_id);
    vstd::utf8::encode_utf8_decode_utf8(b.chain_id);
    assert(a.chain_id == b.chain_id);
    assert(a.chain_type == b.chain_type);
}

/// The whitelist listing comes in the order `listed_before`.
pub proof fn law_listing_in_contract_order(m: Map<Seq<u8>, WhiteListedView>, s: Seq<WhiteListedView>)
    requires
        lists_in_key_order(m, s),
        forall|i: int| 0 <= i < s.len() ==> white_list_key_fits(#[trigger] s[i].contract_address, s[i].chain_id),
    ensures
        forall|i: int, j: int| 0 <= i < j < s.len() ==> listed_before(#[trigger] s[i], #[trigger] s[j]),
{
    assert forall|i: int, j: int| 0 <= i < j < s.len() implies listed_before(#[trigger] s[i], #[trigger] s[j]) by {
        assert(bytes_lt(storage_key_of(s[i]), storage_key_of(s[j])));
        law_storage_key_order(s[i], s[j]);
    }
}

} // verus!
