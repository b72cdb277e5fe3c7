use pw::charset::build;
use pw::error::ConfigError;
use pw::sampler::{bit_width, leading_bits, CharacterDistributor, Outcome, DRAW_BITS, DRAW_LIMIT};
use rand::rngs::StdRng;
use rand::RngCore;
use rand::SeedableRng;

#[test]
fn width_is_the_least_that_covers() {
    assert_eq!(bit_width(0), 0);
    assert_eq!(bit_width(1), 0);
    assert_eq!(bit_width(2), 1);
    assert_eq!(bit_width(3), 2);
    assert_eq!(bit_width(4), 2);
    assert_eq!(bit_width(5), 3);
    assert_eq!(bit_width(10), 4);
    assert_eq!(bit_width(64), 6);
    assert_eq!(bit_width(65), 7);
    assert_eq!(bit_width(93), 7);
    assert_eq!(bit_width(128), 7);
    assert_eq!(bit_width(129), 8);
    assert_eq!(bit_width(usize::MAX), usize::BITS);
    for n in 1usize..5000 {
        let k = bit_width(n);
        assert!(n as u128 <= 1u128 << k);
        assert!(k == 0 || (1u128 << (k - 1)) < n as u128);
    }
}

#[test]
fn leading_bits_of_a_draw() {
    assert_eq!(DRAW_BITS, 64);
    assert_eq!(leading_bits(u64::MAX, 0), 0);
    assert_eq!(leading_bits(u64::MAX, 1), 1);
    assert_eq!(leading_bits(u64::MAX, 7), 127);
    assert_eq!(leading_bits(0x6000_0000_0000_0000, 3), 3);
    assert_eq!(leading_bits(0x8000_0000_0000_0000, 1), 1);
    assert_eq!(leading_bits(0x7fff_ffff_ffff_ffff, 1), 0);
    assert_eq!(leading_bits(0x1234_5678_9abc_def0, 64), 0x1234_5678_9abc_def0);
    assert_eq!(leading_bits(0x1234_5678_9abc_def0, 200), 0x1234_5678_9abc_def0);
    assert_eq!(leading_bits(0x1234_5678_9abc_def0, 16), 0x1234);
}

#[test]
fn empty_set_is_turned_down() {
    assert!(matches!(CharacterDistributor::new(Vec::new()), Err(ConfigError::EmptyCharset)));
}

#[test]
fn distributor_keeps_its_characters() {
    let distributor = CharacterDistributor::new(b"xyz".to_vec()).unwrap();
    assert_eq!(distributor.characters(), &b"xyz".to_vec());
    assert_eq!(distributor.width(), 2);
}

#[test]
fn pick_reads_the_top_bits() {
    let distributor = CharacterDistributor::new(b"01234".to_vec()).unwrap();
    assert_eq!(distributor.width(), 3);
    assert_eq!(distributor.pick(0x0000_0000_0000_0000), Some(b'0'));
    assert_eq!(distributor.pick(0x1fff_ffff_ffff_ffff), Some(b'0'));
    assert_eq!(distributor.pick(0x2000_0000_0000_0000), Some(b'1'));
    assert_eq!(distributor.pick(0x6000_0000_0000_0000), Some(b'3'));
    assert_eq!(distributor.pick(0x9fff_ffff_ffff_ffff), Some(b'4'));
    assert_eq!(distributor.pick(0xa000_0000_0000_0000), None);
    assert_eq!(distributor.pick(u64::MAX), None);
}

#[test]
fn pick_from_one_character_takes_every_draw() {
    let distributor = CharacterDistributor::new(b"x".to_vec()).unwrap();
    assert_eq!(distributor.width(), 0);
    assert_eq!(distributor.pick(0), Some(b'x'));
    assert_eq!(distributor.pick(u64::MAX), Some(b'x'));
}

#[test]
fn pick_reaches_past_the_sixty_fourth_character() {
    let charset = build(false, false, false, false).unwrap();
    let distributor = CharacterDistributor::new(charset.clone()).unwrap();
    assert_eq!(distributor.width(), 7);
    for position in 0u64..128 {
        let expected = charset.get(position as usize).copied();
        assert_eq!(distributor.pick(position << 57), expected);
        assert_eq!(distributor.pick((position << 57) | 0x01ff_ffff_ffff_ffff), expected);
    }
}

#[test]
fn every_position_has_the_same_share_of_draws() {
    let distributor = CharacterDistributor::new(b"abcde".to_vec()).unwrap();
    let share = 1u64 << 61;
    for (position, character) in b"abcde".iter().enumerate() {
        let first = position as u64 * share;
        assert_eq!(distributor.pick(first), Some(*character));
        assert_eq!(distributor.pick(first + share - 1), Some(*character));
        if position > 0 {
            assert_ne!(distributor.pick(first - 1), Some(*character));
        }
    }
}

#[test]
fn settle_keeps_a_draw_exactly_when_it_names_a_position() {
    let distributor = CharacterDistributor::new(b"0123456789".to_vec()).unwrap();
    assert_eq!(distributor.width(), 4);
    for discarded in [0, 1, 64, DRAW_LIMIT - 1, DRAW_LIMIT, DRAW_LIMIT + 1, u32::MAX] {
        for position in 0u64..16 {
            let draw = (position << 60) | 0x0123_4567_89ab_cdef;
            let outcome = distributor.settle(draw, discarded);
            if position < 10 {
                assert_eq!(outcome, Outcome::Found(b'0' + position as u8));
            } else {
                assert!(!matches!(outcome, Outcome::Found(_)));
            }
        }
    }
}

#[test]
fn settle_asks_for_another_draw_below_the_limit() {
    let distributor = CharacterDistributor::new(b"01234".to_vec()).unwrap();
    assert_eq!(DRAW_LIMIT, 128);
    for discarded in [0, 1, 64, DRAW_LIMIT - 2] {
        assert_eq!(distributor.settle(0x6000_0000_0000_0000, discarded), Outcome::Found(b'3'));
        assert_eq!(distributor.settle(0xa000_0000_0000_0000, discarded), Outcome::Again);
        assert_eq!(distributor.settle(u64::MAX, discarded), Outcome::Again);
    }
}

#[test]
fn settle_gives_up_at_the_limit_and_names_no_character() {
    let distributor = CharacterDistributor::new(b"0123456789".to_vec()).unwrap();
    for discarded in [DRAW_LIMIT - 1, DRAW_LIMIT, DRAW_LIMIT + 1, u32::MAX] {
        assert_eq!(distributor.settle(u64::MAX, discarded), Outcome::Spent);
        assert_eq!(distributor.settle(0xa000_0000_0000_0000, discarded), Outcome::Spent);
        assert_eq!(distributor.settle(0x5000_0000_0000_0000, discarded), Outcome::Found(b'5'));
    }
}

#[test]
fn a_set_of_a_power_of_two_rejects_no_draw() {
    let distributor = CharacterDistributor::new(b"abcdefgh".to_vec()).unwrap();
    assert_eq!(distributor.width(), 3);
    for position in 0u64..8 {
        let draw = (position << 61) | 0x1fff_ffff_ffff_ffff;
        assert_eq!(distributor.pick(draw), Some(b'a' + position as u8));
        assert_eq!(distributor.settle(draw, DRAW_LIMIT), Outcome::Found(b'a' + position as u8));
    }
    let mut rng = StdRng::seed_from_u64(21);
    let untouched = rng.clone();
    let characters = distributor.sample_many(500, &mut rng).unwrap();
    let mut shadow = untouched;
    for character in characters {
        assert_eq!(Some(character), distributor.pick(shadow.next_u64()));
    }
    assert_eq!(rng, shadow);
}

#[test]
fn sample_stays_in_the_set() {
    let charset = build(false, true, true, true).unwrap();
    let distributor = CharacterDistributor::new(charset).unwrap();
    let mut rng = StdRng::seed_from_u64(7);
    for _ in 0..1000 {
        assert!(distributor.sample(&mut rng).unwrap().is_ascii_digit());
    }
}

#[test]
fn sample_many_gives_as_many_as_asked() {
    let charset = build(false, false, false, false).unwrap();
    let distributor = CharacterDistributor::new(charset.clone()).unwrap();
    let mut rng = StdRng::seed_from_u64(1);
    for count in [0usize, 1, 2, 16, 93, 1000] {
        let characters = distributor.sample_many(count, &mut rng).unwrap();
        assert_eq!(characters.len(), count);
        assert!(characters.iter().all(|c| charset.contains(c)));
    }
}

#[test]
fn count_zero_gives_nothing() {
    let distributor = CharacterDistributor::new(b"ab".to_vec()).unwrap();
    let mut rng = StdRng::seed_from_u64(3);
    let untouched = rng.clone();
    assert_eq!(distributor.sample_many(0, &mut rng), Ok(Vec::<u8>::new()));
    assert_eq!(rng, untouched);
}

#[test]
fn sampling_consumes_the_source() {
    let distributor = CharacterDistributor::new(b"ab".to_vec()).unwrap();
    let mut rng = StdRng::seed_from_u64(11);
    let untouched = rng.clone();
    assert!(distributor.sample(&mut rng).is_some());
    assert_ne!(rng, untouched);
}

#[test]
fn same_seed_same_characters() {
    let charset = build(false, false, false, false).unwrap();
    let distributor = CharacterDistributor::new(charset).unwrap();
    let mut first = StdRng::seed_from_u64(42);
    let mut second = StdRng::seed_from_u64(42);
    let one = distributor.sample_many(64, &mut first);
    assert!(one.is_ok());
    assert_eq!(one, distributor.sample_many(64, &mut second));
}

#[test]
fn sample_follows_the_draws() {
    let charset = build(false, false, false, false).unwrap();
    let distributor = CharacterDistributor::new(charset).unwrap();
    let mut rng = StdRng::seed_from_u64(5);
    let mut shadow = rng.clone();
    for _ in 0..200 {
        let character = distributor.sample(&mut rng).unwrap();
        let expected = loop {
            if let Some(c) = distributor.pick(shadow.next_u64()) {
                break c;
            }
        };
        assert_eq!(character, expected);
    }
    assert_eq!(rng, shadow);
}

#[test]
fn frequencies_are_even() {
    let charset = build(false, false, false, false).unwrap();
    let n = charset.len();
    let distributor = CharacterDistributor::new(charset.clone()).unwrap();
    let mut rng = StdRng::seed_from_u64(2024);
    let draws = 100_000usize;
    let characters = distributor.sample_many(draws, &mut rng).unwrap();
    let mut counts = [0usize; 256];
    for c in characters {
        counts[c as usize] += 1;
    }
    let expected = 1.0 / n as f64;
    for c in charset {
        let observed = counts[c as usize] as f64 / draws as f64;
        assert!((observed - expected).abs() < 0.2 * expected);
    }
}

#[test]
fn frequencies_are_even_for_a_small_odd_set() {
    let distributor = CharacterDistributor::new(b"abc".to_vec()).unwrap();
    let mut rng = StdRng::seed_from_u64(99);
    let draws = 90_000usize;
    let mut counts = [0usize; 3];
    for c in distributor.sample_many(draws, &mut rng).unwrap() {
        counts[(c - b'a') as usize] += 1;
    }
    for count in counts {
        let observed = count as f64 / draws as f64;
        assert!((observed - 1.0 / 3.0).abs() < 0.01);
    }
}
