use uno_engine::error::GameError;
use uno_engine::prng::Randler;

#[test]
fn first_words_of_seed_one() {
    let mut rng = Randler::new(1);
    assert_eq!(rng.rand(), 0x8008001001);
    assert_eq!(rng.rand(), 0x60000025000005);
    assert_eq!(rng.rand(), 0x80c80990ad017817);
    assert_eq!(rng.rand(), 0x4c10e02c201a84a);
    assert_eq!(rng.rand(), 0x526182e1f8141926);
}

#[test]
fn first_words_of_a_large_seed() {
    let mut rng = Randler::new(0x2545F4914F6CDD1D);
    assert_eq!(rng.rand(), 0xae2a89ac64cd3edc);
    assert_eq!(rng.rand(), 0x19c87797d7070e87);
    assert_eq!(rng.rand(), 0xd94a5ac25f6a0d54);
}

#[test]
fn zero_seed_stands_for_one() {
    let mut zero = Randler::new(0);
    let mut one = Randler::new(1);
    for _ in 0..100 {
        let word = zero.rand();
        assert_ne!(word, 0);
        assert_eq!(word, one.rand());
    }
}

#[test]
fn equal_seeds_give_equal_streams() {
    for seed in [1u64, 2, 42, 0xdead_beef, u64::MAX] {
        let mut a = Randler::new(seed);
        let mut b = Randler::new(seed);
        for _ in 0..64 {
            assert_eq!(a.rand(), b.rand());
        }
        for _ in 0..64 {
            assert_eq!(a.rand_range(3, 17), b.rand_range(3, 17));
        }
    }
}

#[test]
fn different_seeds_give_different_streams() {
    let mut a = Randler::new(1);
    let mut b = Randler::new(2);
    assert_ne!(a.rand(), b.rand());
}

#[test]
fn copies_go_on_alike() {
    let mut a = Randler::new(99);
    a.rand();
    let mut b = a;
    assert_eq!(a.rand(), b.rand());
}

#[test]
fn samples_of_seed_42_from_one_to_six() {
    let mut rng = Randler::new(42);
    let expected = [1u64, 2, 1, 1, 3, 5, 2, 6, 2, 6];
    for want in expected {
        assert_eq!(rng.rand_range(1, 6), Some(want));
    }
}

#[test]
fn samples_of_seed_42_from_zero_to_three() {
    let mut rng = Randler::new(42);
    let expected = [2u64, 3, 2, 2, 0, 2, 3, 3, 1, 3];
    for want in expected {
        assert_eq!(rng.rand_range(0, 3), Some(want));
    }
}

#[test]
fn samples_stay_in_their_range() {
    let ranges = [
        (0u64, 0u64),
        (0, 1),
        (5, 5),
        (1, 6),
        (0, 107),
        (10, 1_000_000),
        (u64::MAX - 1, u64::MAX),
        (1, u64::MAX),
        (0, u64::MAX - 1),
        (0, u64::MAX),
        (0, 1 << 63),
        (u64::MAX, u64::MAX),
    ];
    let mut rng = Randler::new(7);
    for (min, max) in ranges {
        for _ in 0..200 {
            let sample = rng.rand_range(min, max).unwrap();
            assert!(min <= sample && sample <= max);
        }
    }
}

#[test]
fn a_range_of_one_value_gives_that_value() {
    let mut rng = Randler::new(3);
    assert_eq!(rng.rand_range(9, 9), Some(9));
    assert_eq!(rng.rand_range(u64::MAX, u64::MAX), Some(u64::MAX));
}

#[test]
fn the_whole_range_gives_the_next_word() {
    let mut sampled = Randler::new(11);
    let mut plain = Randler::new(11);
    for _ in 0..20 {
        assert_eq!(sampled.rand_range(0, u64::MAX), Some(plain.rand()));
    }
}

#[test]
fn an_empty_range_gives_nothing_and_draws_nothing() {
    let mut rng = Randler::new(5);
    let mut untouched = Randler::new(5);
    assert_eq!(rng.rand_range(2, 1), None);
    assert_eq!(rng.rand_range(u64::MAX, 0), None);
    assert_eq!(rng.rand(), untouched.rand());
}

#[test]
fn a_word_at_the_rejection_limit_is_drawn_again() {
    // The word after this state is u64::MAX, which is the limit for a range
    // of three values; the word after that is 0x7ff8000fff.
    let mut rng = Randler::new(0xffd0010017ff000c);
    assert_eq!(rng.rand_range(0, 2), Some(0x7ff8000fff % 3));
    let mut again = Randler::new(0xffd0010017ff000c);
    assert_eq!(again.rand_range(10, 12), Some(10 + 0x7ff8000fff % 3));
    let mut plain = Randler::new(0xffd0010017ff000c);
    assert_eq!(plain.rand(), u64::MAX);
    assert_eq!(plain.rand(), 0x7ff8000fff);
    assert_eq!(rng.rand(), plain.rand());
}

#[test]
fn a_range_that_divides_the_words_evenly_rejects_nothing() {
    // The word after this state is u64::MAX - 1; four values divide 2^64
    // evenly, so the word is taken as it is.
    let mut rng = Randler::new(0x2fad02d02afe5019);
    assert_eq!(rng.rand_range(0, 3), Some((u64::MAX - 1) % 4));
    let mut plain = Randler::new(0x2fad02d02afe5019);
    assert_eq!(plain.rand(), u64::MAX - 1);
    assert_eq!(rng.rand(), plain.rand());
}

#[test]
fn the_longest_run_of_rejections_has_sixty_four_words() {
    // From this state the next sixty-four words all lie above 2^63, which
    // no other state achieves; the sixty-fifth lies below.
    let seed = 0x36184dc1a1b51d39;
    let mut plain = Randler::new(seed);
    for _ in 0..64 {
        assert!(plain.rand() > 1 << 63);
    }
    assert_eq!(plain.rand(), 0x18d99fd76a3e99e9);
    let mut rng = Randler::new(seed);
    assert_eq!(rng.rand_range(0, 1 << 63), Some(0x18d99fd76a3e99e9));
    assert_eq!(rng.rand(), plain.rand());
}

#[test]
fn samples_spread_evenly() {
    let mut rng = Randler::new(2024);
    let mut seen = [0u32; 6];
    for _ in 0..60_000 {
        let sample = rng.rand_range(1, 6).unwrap();
        seen[(sample - 1) as usize] += 1;
    }
    for count in seen {
        assert!(count > 9_400 && count < 10_600);
    }
}

#[test]
fn no_entropy_no_generator() {
    assert!(matches!(Randler::urandom_seed_init(None), Err(GameError::EntropyUnavailable)));
    assert_eq!(Randler::get_base_random_udev(None), Err(GameError::EntropyUnavailable));
}

#[test]
fn entropy_seeds_the_generator() {
    assert_eq!(Randler::get_base_random_udev(Some(77)), Ok(77));
    assert_eq!(Randler::get_base_random_udev(Some(0)), Ok(1));
    let mut seeded = Randler::urandom_seed_init(Some(77)).unwrap();
    let mut direct = Randler::new(77);
    assert_eq!(seeded.rand(), direct.rand());
    let mut zero = Randler::urandom_seed_init(Some(0)).unwrap();
    let mut one = Randler::new(1);
    assert_eq!(zero.rand(), one.rand());
}
