use citybound::random::{
    random_uuid_bytes, seed, seed_from_random_bytes, thread_rng, uuid, uuid_bytes, uuid_from_source,
    FnvRng,
};

#[test]
fn seeding_hashes_the_seed_bytes() {
    let mut rng = seed(0);
    assert_eq!(rng.next_u64(), 5558979605539197941);
    assert_eq!(rng.next_u64(), 12460833362535269259);
    assert_eq!(rng.next_u64(), 2201772084702014888);
}

#[test]
fn draws_hand_out_the_state_then_rehash_it() {
    let mut rng = FnvRng::from_state(42);
    assert_eq!(rng.next_u64(), 42);
    assert_eq!(rng.next_u64(), 18391255480883862255);
    let mut rng = FnvRng::from_state(0x1_0000_0007);
    assert_eq!(rng.next_u32(), 7);
}

#[test]
fn fill_bytes_writes_little_endian_draws() {
    let mut rng = FnvRng::from_state(42);
    let mut bytes = [0u8; 10];
    rng.fill_bytes(&mut bytes);
    let second = 18391255480883862255u64.to_le_bytes();
    assert_eq!(&bytes[..8], &[42, 0, 0, 0, 0, 0, 0, 0]);
    assert_eq!(&bytes[8..], &second[..2]);
    assert_eq!(rng.next_u64(), 770245255683045527);
}

#[test]
fn fill_bytes_of_nothing_draws_nothing() {
    let mut rng = FnvRng::from_state(42);
    let mut bytes: [u8; 0] = [];
    rng.fill_bytes(&mut bytes);
    assert_eq!(rng.next_u64(), 42);
}

#[test]
fn thread_rng_and_uuid_run() {
    let mut rng = thread_rng();
    let _ = rng.next_u64();
    let id = uuid();
    let bytes = id.as_bytes();
    assert_eq!(bytes[6] >> 4, 4);
    assert_eq!(bytes[8] & 0xc0, 0x80);
}

#[test]
fn filling_in_two_parts_continues_the_draws() {
    let mut whole = FnvRng::from_state(9);
    let mut all = [0u8; 24];
    whole.fill_bytes(&mut all);
    let mut parts = FnvRng::from_state(9);
    let mut first = [0u8; 8];
    let mut rest = [0u8; 16];
    parts.fill_bytes(&mut first);
    parts.fill_bytes(&mut rest);
    assert_eq!(&all[..8], &first);
    assert_eq!(&all[8..], &rest);
    assert_eq!(whole.next_u64(), parts.next_u64());
}

#[test]
fn uuid_bytes_set_version_and_variant() {
    let raw = [0xffu8; 16];
    let bytes = uuid_bytes(raw);
    assert_eq!(bytes[6], 0x4f);
    assert_eq!(bytes[8], 0xbf);
    assert_eq!(bytes[0], 0xff);
    let zero = uuid_bytes([0u8; 16]);
    assert_eq!(zero[6], 0x40);
    assert_eq!(zero[8], 0x80);
}

#[test]
fn uuid_bytes_drawn_from_a_generator() {
    let mut rng = FnvRng::from_state(42);
    let bytes = random_uuid_bytes(&mut rng);
    assert_eq!(bytes[0], 42);
    assert_eq!(bytes[1], (18391255480883862255u64 & 0xff) as u8);
    assert_eq!(bytes[6] >> 4, 4);
    assert_eq!(bytes[8] & 0xc0, 0x80);
}

#[test]
fn seed_from_random_bytes_takes_the_first_four_bytes() {
    let mut answer = [0u8; 16];
    answer[0] = 0x01;
    answer[1] = 0x02;
    answer[2] = 0x03;
    answer[3] = 0x04;
    answer[4] = 0xff;
    let mut from_answer = seed_from_random_bytes(Some(answer));
    let mut expected = seed(0x0403_0201);
    for _ in 0..3 {
        assert_eq!(from_answer.next_u64(), expected.next_u64());
    }
    let mut fallback = seed_from_random_bytes(None);
    assert_eq!(fallback.next_u64(), seed(0).next_u64());
}

#[test]
fn uuid_from_source_prefers_the_source() {
    let mut rng = FnvRng::from_state(42);
    let bytes = uuid_from_source(Some([0xffu8; 16]), &mut rng);
    assert_eq!(bytes, uuid_bytes([0xffu8; 16]));
    assert_eq!(rng.next_u64(), 42);

    let mut rng = FnvRng::from_state(42);
    let bytes = uuid_from_source(None, &mut rng);
    let mut same = FnvRng::from_state(42);
    assert_eq!(bytes, random_uuid_bytes(&mut same));
    assert_eq!(rng.next_u64(), same.next_u64());
}
