use vstd::prelude::*;

verus! {

/// One step of the CRC-32 bit recurrence: shift right once and fold in
/// the reflected generator polynomial when the low bit is set.
pub open spec fn crc_round(c: u32) -> u32 {
    if c & 1 == 1 {
        0xedb88320u32 ^ (c >> 1)
    } else {
        c >> 1
    }
}

/// `k` applications of [`crc_round`].
pub open spec fn crc_rounds(c: u32, k: nat) -> u32
    decreases k,
{
    if k == 0 {
        c
    } else {
        crc_round(crc_rounds(c, (k - 1) as nat))
    }
}

/// Entry `n` of the CRC-32 lookup table: eight bit rounds applied to `n`.
pub open spec fn spec_table_entry(n: u8) -> u32 {
    crc_rounds(n as u32, 8)
}

/// Folding one message byte into a running CRC register.
pub open spec fn crc_update_byte(c: u32, b: u8) -> u32 {
    spec_table_entry(((c ^ (b as u32)) & 0xff) as u8) ^ (c >> 8)
}

/// Folding a whole message into a running CRC register, last byte last.
pub open spec fn crc_update(c: u32, data: Seq<u8>) -> u32
    decreases data.len(),
{
    if data.len() == 0 {
        c
    } else {
        crc_update_byte(crc_update(c, data.drop_last()), data.last())
    }
}

/// The standard CRC-32 (ISO-HDLC, polynomial 0xEDB88320 reflected) of a
/// byte sequence: register initialised to all ones, every byte folded
/// in, and the final register complemented.
pub open spec fn spec_crc32(data: Seq<u8>) -> u32 {
    crc_update(0xffffffffu32, data) ^ 0xffffffffu32
}

/// Folding a message processes any leading part first: the register after
/// `a + b` is the register after `a`, updated with `b`.
pub proof fn lemma_crc_update_concat(c: u32, a: Seq<u8>, b: Seq<u8>)
    ensures
        crc_update(c, a + b) == crc_update(crc_update(c, a), b),
    decreases b.len(),
{
    if b.len() == 0 {
        assert(a + b =~= a);
    } else {
        lemma_crc_update_concat(c, a, b.drop_last());
        assert((a + b).drop_last() =~= a + b.drop_last());
        assert((a + b).last() == b.last());
    }
}

/// The 256-entry CRC-32 lookup table, entry by entry.
pub fn make_crc_table() -> (t: Vec<u32>)
    ensures
        t@.len() == 256,
        forall|i: int| 0 <= i < 256 ==> #[trigger] t@[i] == spec_table_entry(i as u8),
{
    let mut t: Vec<u32> = Vec::new();
    let mut n: usize = 0;
    while n < 256
        invariant
            n <= 256,
            t@.len() == n,
            forall|i: int| 0 <= i < n ==> #[trigger] t@[i] == spec_table_entry(i as u8),
        decreases 256 - n,
    {
        let mut c: u32 = n as u32;
        let mut k: usize = 0;
        while k < 8
            invariant
                k <= 8,
                n < 256,
                c == crc_rounds(n as u32, k as nat),
            decreases 8 - k,
        {
            if (c & 1) == 1 {
                c = 0xedb88320u32 ^ (c >> 1);
            } else {
                c = c >> 1;
            }
            k = k + 1;
        }
        t.push(c);
        n = n + 1;
    }
    t
}

/// Folds every byte of `data` into the register `crc`, using a
/// precomputed lookup table.
pub fn update_crc(crc: u32, data: &[u8], crc_table: &Vec<u32>) -> (r: u32)
    requires
        crc_table@.len() == 256,
        forall|i: int| 0 <= i < 256 ==> #[trigger] crc_table@[i] == spec_table_entry(i as u8),
    ensures
        r == crc_update(crc, data@),
{
    let mut c: u32 = crc;
    let mut i: usize = 0;
    let len = data.len();
    while i < len
        invariant
            i <= len,
            len == data@.len(),
            crc_table@.len() == 256,
            forall|j: int| 0 <= j < 256 ==> #[trigger] crc_table@[j] == spec_table_entry(j as u8),
            c == crc_update(crc, data@.take(i as int)),
        decreases len - i,
    {
        let b = data[i];
        let idx = ((c ^ (b as u32)) & 0xff) as usize;
        proof {
            assert(idx < 256) by (bit_vector)
                requires
                    idx == ((c ^ (b as u32)) & 0xff) as usize,
            ;
            assert(idx as u8 == ((c ^ (b as u32)) & 0xff) as u8) by (bit_vector)
                requires
                    idx == ((c ^ (b as u32)) & 0xff) as usize,
            ;
            assert(data@.take(i + 1).drop_last() =~= data@.take(i as int));
            assert(data@.take(i + 1).last() == data@[i as int]);
        }
        c = crc_table[idx] ^ (c >> 8);
        i = i + 1;
    }
    proof {
        assert(data@.take(len as int) =~= data@);
    }
    c
}

/// The CRC-32 of the four type bytes followed by the payload bytes: the
/// value that binds a chunk's type and payload together.
pub open spec fn spec_checksum(type_bytes: Seq<u8>, payload: Seq<u8>) -> u32 {
    spec_crc32(type_bytes + payload)
}

/// Computes [`spec_checksum`]: the standard CRC-32 over the type bytes
/// followed by the payload bytes.
pub fn checksum(type_bytes: &[u8; 4], payload: &[u8]) -> (r: u32)
    ensures
        r == spec_checksum(type_bytes@, payload@),
{
    let table = make_crc_table();
    let after_type = update_crc(0xffffffffu32, type_bytes.as_slice(), &table);
    let after_payload = update_crc(after_type, payload, &table);
    proof {
        lemma_crc_update_concat(0xffffffffu32, type_bytes@, payload@);
    }
    after_payload ^ 0xffffffffu32
}

/// Eight bit rounds written out, so that bit-level reasoning can work on
/// a fixed-depth expression instead of the recursion.
proof fn lemma_rounds8_unfold(x: u32)
    ensures
        crc_rounds(x, 8) == crc_round(
            crc_round(
                crc_round(crc_round(crc_round(crc_round(crc_round(crc_round(x)))))),
            ),
        ),
{
    assert(crc_rounds(x, 0) == x);
    assert(crc_rounds(x, 1) == crc_round(crc_rounds(x, 0)));
    assert(crc_rounds(x, 2) == crc_round(crc_rounds(x, 1)));
    assert(crc_rounds(x, 3) == crc_round(crc_rounds(x, 2)));
    assert(crc_rounds(x, 4) == crc_round(crc_rounds(x, 3)));
    assert(crc_rounds(x, 5) == crc_round(crc_rounds(x, 4)));
    assert(crc_rounds(x, 6) == crc_round(crc_rounds(x, 5)));
    assert(crc_rounds(x, 7) == crc_round(crc_rounds(x, 6)));
    assert(crc_rounds(x, 8) == crc_round(crc_rounds(x, 7)));
}

/// Distinct table indices give table entries with distinct top bytes:
/// the generator polynomial's top bit is set, so the eight rounds carry
/// the index injectively into the high byte.
proof fn lemma_table_entry_top_byte(i: u8, j: u8)
    requires
        i != j,
    ensures
        spec_table_entry(i) >> 24 != spec_table_entry(j) >> 24,
{
    lemma_rounds8_unfold(i as u32);
    lemma_rounds8_unfold(j as u32);
    assert(crc_round(
        crc_round(
            crc_round(
                crc_round(crc_round(crc_round(crc_round(crc_round(i as u32))))),
            ),
        ),
    ) >> 24 != crc_round(
        crc_round(
            crc_round(
                crc_round(crc_round(crc_round(crc_round(crc_round(j as u32))))),
            ),
        ),
    ) >> 24) by (bit_vector)
        requires
            i != j,
    ;
}

/// Folding the same byte into two different registers gives two
/// different results: the byte update is invertible in the register.
proof fn lemma_update_byte_injective_register(c1: u32, c2: u32, b: u8)
    requires
        crc_update_byte(c1, b) == crc_update_byte(c2, b),
    ensures
        c1 == c2,
{
    let i1 = ((c1 ^ (b as u32)) & 0xff) as u8;
    let i2 = ((c2 ^ (b as u32)) & 0xff) as u8;
    if i1 == i2 {
        let t = spec_table_entry(i1);
        assert(c1 == c2) by (bit_vector)
            requires
                ((c1 ^ (b as u32)) & 0xff) as u8 == ((c2 ^ (b as u32)) & 0xff) as u8,
                t ^ (c1 >> 8) == t ^ (c2 >> 8),
        ;
    } else {
        lemma_table_entry_top_byte(i1, i2);
        let t1 = spec_table_entry(i1);
        let t2 = spec_table_entry(i2);
        assert(false) by (bit_vector)
            requires
                t1 >> 24 != t2 >> 24,
                t1 ^ (c1 >> 8) == t2 ^ (c2 >> 8),
        ;
    }
}

/// Folding two different bytes into the same register gives two
/// different results: the byte update is invertible in the byte.
proof fn lemma_update_byte_injective_byte(c: u32, b1: u8, b2: u8)
    requires
        crc_update_byte(c, b1) == crc_update_byte(c, b2),
    ensures
        b1 == b2,
{
    let i1 = ((c ^ (b1 as u32)) & 0xff) as u8;
    let i2 = ((c ^ (b2 as u32)) & 0xff) as u8;
    if i1 == i2 {
        assert(b1 == b2) by (bit_vector)
            requires
                ((c ^ (b1 as u32)) & 0xff) as u8 == ((c ^ (b2 as u32)) & 0xff) as u8,
        ;
    } else {
        lemma_table_entry_top_byte(i1, i2);
        let t1 = spec_table_entry(i1);
        let t2 = spec_table_entry(i2);
        assert(false) by (bit_vector)
            requires
                t1 >> 24 != t2 >> 24,
                t1 ^ (c >> 8) == t2 ^ (c >> 8),
        ;
    }
}

/// Two messages of the same length that differ in exactly one byte
/// leave the register in two different states.
proof fn lemma_crc_update_one_byte_diff(c: u32, m1: Seq<u8>, m2: Seq<u8>, k: int)
    requires
        m1.len() == m2.len(),
        0 <= k < m1.len(),
        m1[k] != m2[k],
        forall|i: int| 0 <= i < m1.len() && i != k ==> m1[i] == m2[i],
    ensures
        crc_update(c, m1) != crc_update(c, m2),
    decreases m1.len(),
{
    if crc_update(c, m1) == crc_update(c, m2) {
        if k == m1.len() - 1 {
            assert(m1.drop_last() =~= m2.drop_last());
            lemma_update_byte_injective_byte(
                crc_update(c, m1.drop_last()),
                m1.last(),
                m2.last(),
            );
        } else {
            lemma_update_byte_injective_register(
                crc_update(c, m1.drop_last()),
                crc_update(c, m2.drop_last()),
                m1.last(),
            );
            lemma_crc_update_one_byte_diff(c, m1.drop_last(), m2.drop_last(), k);
        }
    }
}

/// Sensitivity law: two messages of the same length that differ in
/// exactly one byte never share a CRC-32. Changing any single bit, or
/// any single byte, of a message therefore always changes its checksum.
pub proof fn lemma_crc32_single_byte_sensitivity(m1: Seq<u8>, m2: Seq<u8>, k: int)
    requires
        m1.len() == m2.len(),
        0 <= k < m1.len(),
        m1[k] != m2[k],
        forall|i: int| 0 <= i < m1.len() && i != k ==> m1[i] == m2[i],
    ensures
        spec_crc32(m1) != spec_crc32(m2),
{
    lemma_crc_update_one_byte_diff(0xffffffffu32, m1, m2, k);
    let a = crc_update(0xffffffffu32, m1);
    let b = crc_update(0xffffffffu32, m2);
    assert(a ^ 0xffffffffu32 != b ^ 0xffffffffu32) by (bit_vector)
        requires
            a != b,
    ;
}

/// Sensitivity law for a chunk's checksum: change exactly one byte of
/// the type bytes or of the payload, keeping both lengths, and the
/// checksum changes.
pub proof fn lemma_checksum_sensitivity(t1: Seq<u8>, p1: Seq<u8>, t2: Seq<u8>, p2: Seq<u8>, k: int)
    requires
        t1.len() == t2.len(),
        p1.len() == p2.len(),
        0 <= k < t1.len() + p1.len(),
        (t1 + p1)[k] != (t2 + p2)[k],
        forall|i: int| 0 <= i < t1.len() + p1.len() && i != k ==> (t1 + p1)[i] == (t2 + p2)[i],
    ensures
        spec_checksum(t1, p1) != spec_checksum(t2, p2),
{
    lemma_crc32_single_byte_sensitivity(t1 + p1, t2 + p2, k);
}

/// The checksum is a pure function of its two inputs: equal type bytes
/// and equal payloads always give equal checksums.
pub proof fn lemma_checksum_deterministic(t1: Seq<u8>, p1: Seq<u8>, t2: Seq<u8>, p2: Seq<u8>)
    requires
        t1 == t2,
        p1 == p2,
    ensures
        spec_checksum(t1, p1) == spec_checksum(t2, p2),
{
}

} // verus!
