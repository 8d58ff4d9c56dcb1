use vstd::prelude::*;

verus! {

/// CRC-16/CCITT-FALSE: polynomial 0x1021, initial value 0xFFFF, no final xor.
/// The accumulator is folded left-to-right over every byte of the combined
/// flash region, gap bytes included (as zeroes).
pub const CRC16_INIT: u16 = 0xFFFF;

pub const CRC16_POLY: u16 = 0x1021;

/// One shift round of the bitwise CRC: shift left, xor the polynomial in
/// when the top bit falls out.
pub open spec fn crc16_shift1(c: u16) -> u16 {
    if c & 0x8000 != 0 {
        (c << 1) ^ CRC16_POLY
    } else {
        c << 1
    }
}

/// `rounds` shift rounds applied in order.
pub open spec fn crc16_shifts(c: u16, rounds: nat) -> u16
    decreases rounds,
{
    if rounds == 0 {
        c
    } else {
        crc16_shift1(crc16_shifts(c, (rounds - 1) as nat))
    }
}

/// Folding one byte into the accumulator: xor it into the top half, then
/// run eight shift rounds.
pub open spec fn crc16_byte(c: u16, b: u8) -> u16 {
    crc16_shifts(c ^ ((b as u16) << 8), 8)
}

/// The accumulator after folding every byte of `s`, left to right.
pub open spec fn crc16_fold(c: u16, s: Seq<u8>) -> u16
    decreases s.len(),
{
    if s.len() == 0 {
        c
    } else {
        crc16_fold(crc16_byte(c, s[0]), s.drop_first())
    }
}

/// `n` zero bytes, standing for a gap in the image that the target device's
/// pre-zeroed write buffer supplies implicitly.
pub open spec fn zero_bytes(n: nat) -> Seq<u8> {
    Seq::new(n, |i: int| 0u8)
}

/// Folding a concatenation folds the parts in order.
pub proof fn lemma_crc16_fold_append(c: u16, a: Seq<u8>, b: Seq<u8>)
    ensures
        crc16_fold(c, a + b) == crc16_fold(crc16_fold(c, a), b),
    decreases a.len(),
{
    if a.len() == 0 {
        assert(a + b =~= b);
    } else {
        assert((a + b).drop_first() =~= a.drop_first() + b);
        assert((a + b)[0] == a[0]);
        lemma_crc16_fold_append(crc16_byte(c, a[0]), a.drop_first(), b);
    }
}

/// Folding a single byte.
pub proof fn lemma_crc16_fold_one(c: u16, b: u8)
    ensures
        crc16_fold(c, seq![b]) == crc16_byte(c, b),
{
    let s = seq![b];
    assert(s[0] == b);
    assert(s.drop_first().len() == 0);
    assert(crc16_fold(crc16_byte(c, b), s.drop_first()) == crc16_byte(c, b));
}

/// Fold one byte into the accumulator.
pub fn crc16_step(crc: u16, byte: u8) -> (r: u16)
    ensures
        r == crc16_byte(crc, byte),
{
    let mut c: u16 = crc ^ ((byte as u16) << 8);
    let mut k: usize = 0;
    while k < 8
        invariant
            k <= 8,
            c == crc16_shifts(crc ^ ((byte as u16) << 8), k as nat),
        decreases 8 - k,
    {
        if c & 0x8000 != 0 {
            c = (c << 1) ^ CRC16_POLY;
        } else {
            c = c << 1;
        }
        k = k + 1;
    }
    c
}

/// Fold every byte of `data`, left to right.
pub fn crc16_update(crc: u16, data: &Vec<u8>) -> (r: u16)
    ensures
        r == crc16_fold(crc, data@),
{
    let mut c: u16 = crc;
    let mut i: usize = 0;
    while i < data.len()
        invariant
            i <= data@.len(),
            c == crc16_fold(crc, data@.take(i as int)),
        decreases data@.len() - i,
    {
        proof {
            let pre = data@.take(i as int);
            let one = seq![data@[i as int]];
            assert(data@.take(i as int + 1) =~= pre + one);
            lemma_crc16_fold_append(crc, pre, one);
            lemma_crc16_fold_one(c, data@[i as int]);
        }
        c = crc16_step(c, data[i]);
        i = i + 1;
    }
    proof {
        assert(data@.take(data@.len() as int) =~= data@);
    }
    c
}

/// Fold `n` zero bytes, covering a gap without emitting any command.
pub fn crc16_zero_fill(crc: u16, n: usize) -> (r: u16)
    ensures
        r == crc16_fold(crc, zero_bytes(n as nat)),
{
    let mut c: u16 = crc;
    let mut i: usize = 0;
    while i < n
        invariant
            i <= n,
            c == crc16_fold(crc, zero_bytes(i as nat)),
        decreases n - i,
    {
        proof {
            assert(zero_bytes((i + 1) as nat) =~= zero_bytes(i as nat) + seq![0u8]);
            lemma_crc16_fold_append(crc, zero_bytes(i as nat), seq![0u8]);
            lemma_crc16_fold_one(c, 0u8);
        }
        c = crc16_step(c, 0);
        i = i + 1;
    }
    c
}

} // verus!
