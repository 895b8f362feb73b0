//! The storage keys under which whitelist entries are kept, and the byte
//! order in which the store walks them.
use vstd::prelude::*;
use vstd::utf8::encode_utf8;
use cw_storage_plus::PrimaryKey;

verus! {

/// Two bytes holding a length below 2^16, most significant first.
pub open spec fn be_u16(n: nat) -> Seq<u8> {
    seq![(n / 256) as u8, (n % 256) as u8]
}

/// The four bytes of a `u32`, most significant first.
pub open spec fn be_u32(n: u32) -> Seq<u8> {
    seq![
        (n / 0x100_0000) as u8,
        ((n / 0x1_0000) % 256) as u8,
        ((n / 256) % 256) as u8,
        (n % 256) as u8,
    ]
}

/// The key of a whitelist entry: the address and the chain id, each after
/// its length in two bytes, then the chain type in four bytes.
pub open spec fn white_list_key(contract_address: Seq<u8>, chain_id: Seq<u8>, chain_type: u32) -> Seq<u8> {
    be_u16(contract_address.len()) + contract_address + be_u16(chain_id.len()) + chain_id + be_u32(chain_type)
}

/// Whether a key part is short enough for its length to fit in two bytes.
pub open spec fn key_part_fits(part: Seq<u8>) -> bool {
    part.len() <= 0xFFFF
}

/// `PrimaryKey::joined_key` of cw-storage-plus on the key `(Vec<u8>, &str, u32)`:
/// each part but the last goes after its length in two big-endian bytes, the
/// `u32` goes as its four big-endian bytes. The crate panics on a part longer
/// than 0xFFFF bytes, which `requires` leaves out.
#[verifier::external_body]
pub(crate) fn joined_white_list_key(contract_address: &Vec<u8>, chain_id: &String, chain_type: u32) -> (res: Vec<u8>)
    requires
        key_part_fits(contract_address@),
        key_part_fits(encode_utf8(chain_id@)),
    ensures
        res@ == white_list_key(contract_address@, encode_utf8(chain_id@), chain_type),
{
    (contract_address.clone(), chain_id.as_str(), chain_type).joined_key()
}

/// Byte-wise lexicographic order, in which a proper prefix comes first.
pub open spec fn bytes_lt(a: Seq<u8>, b: Seq<u8>) -> bool
    decreases a.len(),
{
    if a.len() == 0 {
        b.len() > 0
    } else if b.len() == 0 {
        false
    } else if a[0] != b[0] {
        a[0] < b[0]
    } else {
        bytes_lt(a.drop_first(), b.drop_first())
    }
}

/// No sequence comes before itself.
pub proof fn lemma_bytes_lt_irreflexive(a: Seq<u8>)
    ensures
        !bytes_lt(a, a),
    decreases a.len(),
{
    if a.len() > 0 {
        lemma_bytes_lt_irreflexive(a.drop_first());
    }
}

/// The order is transitive.
pub proof fn lemma_bytes_lt_transitive(a: Seq<u8>, b: Seq<u8>, c: Seq<u8>)
    requires
        bytes_lt(a, b),
        bytes_lt(b, c),
    ensures
        bytes_lt(a, c),
    decreases a.len(),
{
    if a.len() > 0 && b.len() > 0 && c.len() > 0 && a[0] == b[0] && b[0] == c[0] {
        lemma_bytes_lt_transitive(a.drop_first(), b.drop_first(), c.drop_first());
    }
}

/// Of two sequences, either they are equal or one comes first.
pub proof fn lemma_bytes_lt_total(a: Seq<u8>, b: Seq<u8>)
    ensures
        a == b || bytes_lt(a, b) || bytes_lt(b, a),
    decreases a.len(),
{
    if a.len() == 0 {
        if b.len() == 0 {
            assert(a =~= b);
        }
    } else if b.len() > 0 && a[0] == b[0] {
        lemma_bytes_lt_total(a.drop_first(), b.drop_first());
        if a.drop_first() == b.drop_first() {
            assert(a =~= seq![a[0]] + a.drop_first());
            assert(b =~= seq![b[0]] + b.drop_first());
        }
    }
}

proof fn lemma_bytes_lt_skip(a: Seq<u8>, b: Seq<u8>, i: int)
    requires
        0 <= i <= a.len(),
        i <= b.len(),
        a.take(i) == b.take(i),
    ensures
        bytes_lt(a, b) == bytes_lt(a.skip(i), b.skip(i)),
    decreases i,
{
    if i > 0 {
        assert(a[0] == a.take(i)[0]);
        assert(b[0] == b.take(i)[0]);
        assert(a.drop_first().take(i - 1) =~= a.take(i).drop_first());
        assert(b.drop_first().take(i - 1) =~= b.take(i).drop_first());
        lemma_bytes_lt_skip(a.drop_first(), b.drop_first(), i - 1);
        assert(a.drop_first().skip(i - 1) =~= a.skip(i));
        assert(b.drop_first().skip(i - 1) =~= b.skip(i));
    } else {
        assert(a.skip(0) =~= a);
        assert(b.skip(0) =~= b);
    }
}

/// Whether `a` comes strictly before `b` in byte order.
pub fn bytes_less(a: &Vec<u8>, b: &Vec<u8>) -> (res: bool)
    ensures
        res == bytes_lt(a@, b@),
{
    let mut i: usize = 0;
    while i < a.len() && i < b.len()
        invariant
            i <= a@.len(),
            i <= b@.len(),
            a@.take(i as int) == b@.take(i as int),
        decreases a@.len() - i,
    {
        if a[i] != b[i] {
            proof {
                lemma_bytes_lt_skip(a@, b@, i as int);
                assert(a@.skip(i as int)[0] == a@[i as int]);
                assert(b@.skip(i as int)[0] == b@[i as int]);
            }
            return a[i] < b[i];
        }
        assert(a@.take(i + 1) =~= a@.take(i as int).push(a@[i as int]));
        assert(b@.take(i + 1) =~= b@.take(i as int).push(b@[i as int]));
        i = i + 1;
    }
    proof {
        lemma_bytes_lt_skip(a@, b@, i as int);
    }
    i < b.len()
}

} // verus!
