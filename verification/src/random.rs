//! A small deterministic random number generator whose state is re-hashed
//! with 64-bit FNV-1a on every draw, and the identifiers drawn from it.
use vstd::prelude::*;
use std::hash::Hasher;
use ::uuid::Uuid;

verus! {

/// The FNV-1a 64-bit offset basis.
pub const FNV_OFFSET_BASIS: u64 = 0xcbf29ce484222325;

/// The FNV-1a 64-bit prime.
pub const FNV_PRIME: u64 = 0x100000001b3;

/// One FNV-1a step: mix in a byte, then multiply by the prime modulo 2^64.
pub open spec fn fnv_step(h: u64, b: u8) -> u64 {
    (((h ^ (b as u64)) as int * FNV_PRIME as int) % 0x1_0000_0000_0000_0000) as u64
}

/// The 64-bit FNV-1a hash of a sequence of bytes.
pub open spec fn fnv1a(bytes: Seq<u8>) -> u64
    decreases bytes.len(),
{
    if bytes.len() == 0 {
        FNV_OFFSET_BASIS
    } else {
        fnv_step(fnv1a(bytes.drop_last()), bytes.last())
    }
}

/// Byte `i` (counting from the least significant) of `x`.
pub open spec fn byte_of(x: u64, i: int) -> u8 {
    ((x >> ((8 * i) as u64)) & 0xff) as u8
}

/// The eight bytes of `x`, least significant first.
pub open spec fn le_bytes(x: u64) -> Seq<u8> {
    Seq::new(8, |i: int| byte_of(x, i))
}

/// The four bytes of `x`, least significant first.
pub open spec fn le_bytes_u32(x: u32) -> Seq<u8> {
    le_bytes(x as u64).take(4)
}

/// The 64-bit FNV-1a hash of `bytes`, as computed by `fnv::FnvHasher`.
#[verifier::external_body]
fn fnv_hash(bytes: &[u8]) -> (h: u64)
    ensures
        h == fnv1a(bytes@),
{
    let mut hasher = fnv::FnvHasher::default();
    hasher.write(bytes);
    hasher.finish()
}

/// The bytes of `x`, least significant first.
fn le_bytes_of(x: u64) -> (v: Vec<u8>)
    ensures
        v@ == le_bytes(x),
{
    let mut v: Vec<u8> = Vec::new();
    let mut i: u64 = 0;
    while i < 8
        invariant
            i <= 8,
            v@ == le_bytes(x).take(i as int),
        decreases 8 - i,
    {
        v.push(((x >> (8 * i)) & 0xff) as u8);
        i = i + 1;
        assert(v@ =~= le_bytes(x).take(i as int));
    }
    assert(v@ =~= le_bytes(x));
    v
}

/// The state of the generator after one draw from state `s`.
pub open spec fn next_state(s: u64) -> u64 {
    fnv1a(le_bytes(s))
}

/// The state of the generator after `n` draws from state `s`.
pub open spec fn state_after(s: u64, n: nat) -> u64
    decreases n,
{
    if n == 0 {
        s
    } else {
        next_state(state_after(s, (n - 1) as nat))
    }
}

/// Drawing `a` times and then `b` times is drawing `a + b` times: a generator's
/// draws only depend on its state, so splitting a run of draws changes nothing.
pub proof fn law_draws_compose(s: u64, a: nat, b: nat)
    ensures
        state_after(state_after(s, a), b) == state_after(s, a + b),
    decreases b,
{
    if b > 0 {
        law_draws_compose(s, a, (b - 1) as nat);
        assert((a + b - 1) as nat == a + (b - 1) as nat);
    }
}

/// The bytes that `fill_bytes` writes from state `s`: the little-endian bytes
/// of the successive draws, one after the other.
pub open spec fn stream_byte(s: u64, j: int) -> u8 {
    byte_of(state_after(s, (j / 8) as nat), j % 8)
}

/// A generator that hashes its state with FNV-1a on every draw. Seeds that
/// differ only a little give unrelated sequences, but the draws from one
/// seed are not of high statistical quality.
pub struct FnvRng {
    seed: u64,
}

impl View for FnvRng {
    type V = u64;

    closed spec fn view(&self) -> u64 {
        self.seed
    }
}

/// The state of a generator seeded with the 32-bit value `v`.
pub open spec fn seeded_state(v: u32) -> u64 {
    fnv1a(le_bytes_u32(v))
}

/// A generator whose state is the FNV-1a hash of the bytes of `value`,
/// least significant first.
pub fn seed(value: u32) -> (rng: FnvRng)
    ensures
        rng@ == seeded_state(value),
{
    let bytes = le_bytes_of(value as u64);
    let mut four: Vec<u8> = Vec::new();
    let mut i: usize = 0;
    while i < 4
        invariant
            i <= 4,
            bytes@ == le_bytes(value as u64),
            four@ == bytes@.take(i as int),
        decreases 4 - i,
    {
        four.push(bytes[i]);
        i = i + 1;
        assert(four@ =~= bytes@.take(i as int));
    }
    FnvRng { seed: fnv_hash(four.as_slice()) }
}

/// Sixteen bytes from the operating system's random source
/// (`OsRng::try_fill_bytes`), or `None` when the source fails.
#[verifier::external_body]
fn os_random_bytes() -> Option<[u8; 16]> {
    let mut bytes = [0u8; 16];
    match rand::RngCore::try_fill_bytes(&mut rand::rngs::OsRng, &mut bytes) {
        Ok(()) => Some(bytes),
        Err(_) => None,
    }
}

/// The 32-bit value of the first four bytes of `b`, least significant first.
pub open spec fn first_word(b: Seq<u8>) -> u32 {
    (b[0] as int + 0x100 * b[1] as int + 0x1_0000 * b[2] as int + 0x100_0000 * b[3] as int) as u32
}

/// The seed that a random source's answer gives: its first four bytes, least
/// significant first, or 0 when the source gave nothing.
pub open spec fn seed_of_answer(answer: Option<Seq<u8>>) -> u32 {
    match answer {
        Some(b) => first_word(b),
        None => 0,
    }
}

/// A generator seeded from a random source's answer: with its first four
/// bytes, least significant first, or with 0 when the source gave nothing.
pub fn seed_from_random_bytes(answer: Option<[u8; 16]>) -> (rng: FnvRng)
    ensures
        rng@ == seeded_state(
            seed_of_answer(
                match answer {
                    Some(b) => Some(b@),
                    None => None,
                },
            ),
        ),
{
    let value: u32 = match answer {
        Some(b) => {
            let (b0, b1, b2, b3) = (b[0] as u32, b[1] as u32, b[2] as u32, b[3] as u32);
            let v: u32 = b0 + 0x100 * b1 + 0x1_0000 * b2 + 0x100_0000 * b3;
            v
        },
        None => 0,
    };
    seed(value)
}

/// A generator seeded from a fresh random value (the first four bytes that
/// the operating system's random source gives, least significant first);
/// when it has no randomness to give, the seed is 0.
pub fn thread_rng() -> (rng: FnvRng)
    ensures
        exists|answer: Option<Seq<u8>>|
            (answer matches Some(b) ==> b.len() == 16) && rng@ == seeded_state(
                seed_of_answer(answer),
            ),
{
    let answer = os_random_bytes();
    let rng = seed_from_random_bytes(answer);
    assert(rng@ == seeded_state(
        seed_of_answer(
            match answer {
                Some(b) => Some(b@),
                None => None,
            },
        ),
    ));
    rng
}

impl FnvRng {
    /// A generator whose state is `state`.
    pub fn from_state(state: u64) -> (rng: FnvRng)
        ensures
            rng@ == state,
    {
        FnvRng { seed: state }
    }

    /// Returns the current state and moves to the next one.
    pub fn next_u64(&mut self) -> (r: u64)
        ensures
            r == old(self)@,
            final(self)@ == next_state(old(self)@),
    {
        let current = self.seed;
        let bytes = le_bytes_of(self.seed);
        self.seed = fnv_hash(bytes.as_slice());
        current
    }

    /// The low 32 bits of `next_u64`.
    pub fn next_u32(&mut self) -> (r: u32)
        ensures
            r == old(self)@ as u32,
            final(self)@ == next_state(old(self)@),
    {
        self.next_u64() as u32
    }

    /// Fills `bytes` with the little-endian bytes of successive draws.
    pub fn fill_bytes(&mut self, bytes: &mut [u8])
        ensures
            final(bytes)@.len() == old(bytes)@.len(),
            forall|j: int|
                0 <= j < final(bytes)@.len() ==> #[trigger] final(bytes)@[j] == stream_byte(
                    old(self)@,
                    j,
                ),
            final(self)@ == state_after(
                old(self)@,
                ((old(bytes)@.len() + 7) / 8) as nat,
            ),
    {
        let ghost s0 = self@;
        let len = bytes.len();
        let mut offset: usize = 0;
        let ghost mut draws: nat = 0;
        while offset < len
            invariant
                len == bytes@.len(),
                bytes@.len() == old(bytes)@.len(),
                offset <= len,
                offset == 8 * draws || offset == len,
                offset < len ==> offset == 8 * draws,
                draws == (offset + 7) / 8,
                self@ == state_after(s0, draws),
                forall|j: int| 0 <= j < offset ==> #[trigger] bytes@[j] == stream_byte(s0, j),
            decreases len - offset,
        {
            let ghost st = self@;
            let value = self.next_u64();
            let chunk = le_bytes_of(value);
            let end = if len - offset >= 8 {
                offset + 8
            } else {
                len
            };
            let mut k: usize = offset;
            while k < end
                invariant
                    len == bytes@.len(),
                    bytes@.len() == old(bytes)@.len(),
                    offset <= k <= end <= len,
                    end <= offset + 8,
                    offset == 8 * draws,
                    st == state_after(s0, draws),
                    chunk@ == le_bytes(st),
                    forall|j: int| 0 <= j < k ==> #[trigger] bytes@[j] == stream_byte(s0, j),
                decreases end - k,
            {
                assert((k as int) / 8 == draws as int && (k as int) % 8 == k - offset) by {
                    vstd::arithmetic::div_mod::lemma_fundamental_div_mod_converse(
                        k as int,
                        8,
                        draws as int,
                        k - offset,
                    );
                }
                bytes[k] = chunk[k - offset];
                k = k + 1;
            }
            proof {
                draws = draws + 1;
            }
            offset = end;
        }
    }
}

/// Sixteen raw bytes with the version nibble of byte 6 set to 4 (random) and
/// the top two bits of byte 8 set to the RFC 4122 variant `10`.
pub open spec fn with_uuid_bits(raw: Seq<u8>) -> Seq<u8> {
    Seq::new(
        16,
        |i: int|
            if i == 6 {
                (raw[6] & 0x0f) | 0x40
            } else if i == 8 {
                (raw[8] & 0x3f) | 0x80
            } else {
                raw[i]
            },
    )
}

/// The low bytes of sixteen successive draws from state `s`.
pub open spec fn drawn_bytes(s: u64) -> Seq<u8> {
    Seq::new(16, |i: int| (state_after(s, i as nat) & 0xff) as u8)
}

/// The bytes of a random identifier made from sixteen raw random bytes.
pub fn uuid_bytes(raw: [u8; 16]) -> (bytes: [u8; 16])
    ensures
        bytes@ == with_uuid_bits(raw@),
{
    let mut bytes = raw;
    bytes[6] = (bytes[6] & 0x0f) | 0x40;
    bytes[8] = (bytes[8] & 0x3f) | 0x80;
    assert(bytes@ =~= with_uuid_bits(raw@));
    bytes
}

/// The low byte of each of sixteen successive draws.
fn draw_bytes(rng: &mut FnvRng) -> (bytes: [u8; 16])
    ensures
        bytes@ == drawn_bytes(old(rng)@),
        final(rng)@ == state_after(old(rng)@, 16),
{
    let ghost s0 = rng@;
    let mut bytes = [0u8; 16];
    let mut i: usize = 0;
    while i < 16
        invariant
            i <= 16,
            rng@ == state_after(s0, i as nat),
            bytes@.len() == 16,
            forall|j: int|
                0 <= j < i ==> #[trigger] bytes@[j] == (state_after(s0, j as nat) & 0xff) as u8,
        decreases 16 - i,
    {
        let ghost st = rng@;
        let b = rng.next_u32() as u8;
        assert(b == (st & 0xff) as u8) by (bit_vector)
            requires
                b == ((st as u32) as u8),
        ;
        bytes[i] = b;
        i = i + 1;
    }
    assert(bytes@ =~= drawn_bytes(s0));
    bytes
}

/// The bytes of a random identifier drawn from a generator: the low byte of
/// each of sixteen successive draws, with the version and variant bits set.
pub fn random_uuid_bytes(rng: &mut FnvRng) -> (bytes: [u8; 16])
    ensures
        bytes@ == with_uuid_bits(drawn_bytes(old(rng)@)),
        final(rng)@ == state_after(old(rng)@, 16),
{
    let raw = draw_bytes(rng);
    uuid_bytes(raw)
}

#[verifier::external_type_specification]
#[verifier::external_body]
pub struct ExUuid(Uuid);

/// The identifier whose (big-endian) bytes are `bytes`.
pub uninterp spec fn uuid_of_bytes(bytes: Seq<u8>) -> Uuid;

/// `Uuid::from_bytes`: the identifier with these (big-endian) bytes.
pub assume_specification[ Uuid::from_bytes ](bytes: [u8; 16]) -> (u: Uuid)
    ensures
        u == uuid_of_bytes(bytes@),
;

/// The bytes of a random identifier made from a random source's answer:
/// its sixteen bytes when it gave some, else sixteen drawn from `rng`, with
/// the version and variant bits set.
pub fn uuid_from_source(answer: Option<[u8; 16]>, rng: &mut FnvRng) -> (bytes: [u8; 16])
    ensures
        match answer {
            Some(b) => bytes@ == with_uuid_bits(b@) && final(rng)@ == old(rng)@,
            None => bytes@ == with_uuid_bits(drawn_bytes(old(rng)@)) && final(rng)@ == state_after(
                old(rng)@,
                16,
            ),
        },
{
    match answer {
        Some(b) => uuid_bytes(b),
        None => random_uuid_bytes(rng),
    }
}

/// A random (version 4, RFC 4122 variant) identifier: sixteen bytes from the
/// operating system's random source, or, when it has none to give, drawn
/// from a generator seeded as `thread_rng` seeds it, with the version and
/// variant bits set.
pub fn uuid() -> (u: Uuid)
    ensures
        exists|raw: Seq<u8>| raw.len() == 16 && u == uuid_of_bytes(with_uuid_bits(raw)),
{
    let answer = os_random_bytes();
    // The generator is drawn from only when the source gave nothing.
    let mut rng = match answer {
        Some(_) => FnvRng::from_state(0),
        None => thread_rng(),
    };
    let ghost s0 = rng@;
    let bytes = uuid_from_source(answer, &mut rng);
    let u = Uuid::from_bytes(bytes);
    proof {
        match answer {
            Some(b) => {
                assert(b@.len() == 16 && u == uuid_of_bytes(with_uuid_bits(b@)));
            },
            None => {
                assert(drawn_bytes(s0).len() == 16 && u == uuid_of_bytes(with_uuid_bits(drawn_bytes(s0))));
            },
        }
    }
    u
}

proof fn lemma_byte_split(w: int, low: int, high: int)
    requires
        0 <= low < 256,
        w == low + 256 * high,
    ensures
        w % 256 == low,
        w / 256 == high,
{
    vstd::arithmetic::div_mod::lemma_fundamental_div_mod_converse(w, 256, high, low);
}

/// The seed taken from a random source's answer depends on every one of its
/// first four bytes: two answers give the same seed exactly when those
/// bytes agree.
pub proof fn law_seed_keeps_the_first_four_bytes(b: Seq<u8>, c: Seq<u8>)
    requires
        b.len() >= 4,
        c.len() >= 4,
    ensures
        (first_word(b) == first_word(c)) <==> b.take(4) == c.take(4),
{
    let wb = b[0] as int + 0x100 * b[1] as int + 0x1_0000 * b[2] as int + 0x100_0000 * b[3] as int;
    let wc = c[0] as int + 0x100 * c[1] as int + 0x1_0000 * c[2] as int + 0x100_0000 * c[3] as int;
    assert(first_word(b) as int == wb);
    assert(first_word(c) as int == wc);
    if wb == wc {
        lemma_byte_split(wb, b[0] as int, b[1] as int + 0x100 * b[2] as int + 0x1_0000 * b[3] as int);
        lemma_byte_split(wc, c[0] as int, c[1] as int + 0x100 * c[2] as int + 0x1_0000 * c[3] as int);
        let qb = b[1] as int + 0x100 * b[2] as int + 0x1_0000 * b[3] as int;
        let qc = c[1] as int + 0x100 * c[2] as int + 0x1_0000 * c[3] as int;
        lemma_byte_split(qb, b[1] as int, b[2] as int + 0x100 * b[3] as int);
        lemma_byte_split(qc, c[1] as int, c[2] as int + 0x100 * c[3] as int);
        let rb = b[2] as int + 0x100 * b[3] as int;
        let rc = c[2] as int + 0x100 * c[3] as int;
        lemma_byte_split(rb, b[2] as int, b[3] as int);
        lemma_byte_split(rc, c[2] as int, c[3] as int);
        assert(b.take(4) =~= c.take(4));
    }
    if b.take(4) == c.take(4) {
        assert(b[0] == b.take(4)[0] && b[1] == b.take(4)[1] && b[2] == b.take(4)[2] && b[3] == b.take(4)[3]);
        assert(c[0] == c.take(4)[0] && c[1] == c.take(4)[1] && c[2] == c.take(4)[2] && c[3] == c.take(4)[3]);
    }
}

/// An identifier made from sixteen random bytes keeps every random bit but
/// the six that mark it: byte 6 says version 4 in its high half and keeps
/// its low half, byte 8 has the variant bits `10` on top and keeps its low
/// six bits, and every other byte is the random byte itself.
pub proof fn law_uuid_keeps_the_random_bits(raw: Seq<u8>)
    requires
        raw.len() == 16,
    ensures
        with_uuid_bits(raw).len() == 16,
        forall|i: int| 0 <= i < 16 && i != 6 && i != 8 ==> #[trigger] with_uuid_bits(raw)[i] == raw[i],
        with_uuid_bits(raw)[6] >> 4u8 == 4,
        with_uuid_bits(raw)[6] & 0x0f == raw[6] & 0x0f,
        with_uuid_bits(raw)[8] >> 6u8 == 2,
        with_uuid_bits(raw)[8] & 0x3f == raw[8] & 0x3f,
{
    let x = raw[6];
    let y = raw[8];
    assert(((x & 0x0f) | 0x40) >> 4u8 == 4 && ((x & 0x0f) | 0x40) & 0x0f == x & 0x0f) by (bit_vector);
    assert(((y & 0x3f) | 0x80) >> 6u8 == 2 && ((y & 0x3f) | 0x80) & 0x3f == y & 0x3f) by (bit_vector);
}

} // verus!
