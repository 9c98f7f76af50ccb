use air_traces::rng::SimpleRng;

#[test]
fn first_words_from_seed_42() {
    let mut rng = SimpleRng::new(42);
    assert_eq!(rng.next_u32(), 0xa);
    assert_eq!(rng.next_u32(), 0xc5c8c0e3);
    assert_eq!(rng.next_u32(), 0x65cce0e2);
    assert_eq!(rng.next_u32(), 0x45c2e3ec);
}

#[test]
fn first_words_from_other_seeds() {
    let mut rng = SimpleRng::new(0);
    assert_eq!(rng.next_u32(), 0);
    assert_eq!(rng.next_u32(), 0xc63);
    assert_eq!(rng.next_u32(), 0xf1cc6efd);
    let mut rng = SimpleRng::new(u64::MAX);
    assert_eq!(rng.next_u32(), 0xffffffff);
    assert_eq!(rng.next_u32(), 0xef19bef3);
    let mut rng = SimpleRng::new(0x0123456789abcdef);
    assert_eq!(rng.next_u32(), 0x33333332);
}

#[test]
fn words_follow_the_congruence() {
    let mut rng = SimpleRng::new(7);
    let mut state: u64 = 7;
    for _ in 0..1000 {
        state = state.wrapping_mul(1103515245).wrapping_add(12345);
        assert_eq!(rng.next_u32(), (state >> 32) as u32);
    }
}

#[test]
fn next_u64_joins_two_words() {
    let mut rng = SimpleRng::new(42);
    assert_eq!(rng.next_u64(), 0x0000000a_c5c8c0e3);
    assert_eq!(rng.next_u64(), 0x65cce0e2_45c2e3ec);
    let mut words = SimpleRng::new(1);
    let mut joined = SimpleRng::new(1);
    let high = words.next_u32() as u64;
    let low = words.next_u32() as u64;
    assert_eq!(joined.next_u64(), (high << 32) | low);
    assert_eq!(joined.next_u32(), words.next_u32());
}

#[test]
fn fill_bytes_writes_words_in_little_endian_order() {
    let mut rng = SimpleRng::new(42);
    let mut dest = [0u8; 12];
    rng.fill_bytes(&mut dest);
    assert_eq!(dest, [10, 0, 0, 0, 227, 192, 200, 197, 226, 224, 204, 101]);
    assert_eq!(rng.next_u32(), 0x45c2e3ec);
}

#[test]
fn fill_bytes_cuts_the_last_word() {
    let full = [50u8, 51, 51, 51, 4, 25, 230, 237, 95, 254, 240, 200];
    for len in 0..=12usize {
        let mut rng = SimpleRng::new(0x0123456789abcdef);
        let mut dest = vec![0xaau8; len];
        rng.fill_bytes(&mut dest);
        assert_eq!(dest, full[..len].to_vec());
        // One word is drawn for each started group of four bytes.
        let mut expected = SimpleRng::new(0x0123456789abcdef);
        for _ in 0..(len + 3) / 4 {
            expected.next_u32();
        }
        assert_eq!(rng.next_u32(), expected.next_u32());
    }
}

#[test]
fn fill_bytes_of_nothing_draws_nothing() {
    let mut rng = SimpleRng::new(42);
    let mut dest: [u8; 0] = [];
    rng.fill_bytes(&mut dest);
    assert_eq!(rng.next_u32(), 0xa);
}

#[test]
fn same_seed_gives_same_stream() {
    let mut a = SimpleRng::new(99);
    let mut b = SimpleRng::new(99);
    for _ in 0..100 {
        assert_eq!(a.next_u64(), b.next_u64());
    }
}
