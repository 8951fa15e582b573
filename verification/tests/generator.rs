use cube_wasm::scramble::{candidate_move, next_counter};
use cube_wasm::{MoveUtils, OptimizedCube, ScrambleRng, ScrambleUtils};

#[test]
fn the_counter_advances_by_the_congruential_step() {
    assert_eq!(next_counter(0), 12345);
    assert_eq!(next_counter(1), 1103527590);
    assert_eq!(next_counter(12345), 13622895711870);
    assert_eq!(next_counter(u64::MAX), 18446744072606048716);
    assert_eq!(next_counter(0x8000_0000_0000_0000), 9223372036854788153);
}

#[test]
fn the_candidate_is_the_shifted_counter_modulo_eighteen() {
    assert_eq!(candidate_move(0), 0);
    assert_eq!(candidate_move(65535), 0);
    assert_eq!(candidate_move(65536), 1);
    assert_eq!(candidate_move(17 * 65536), 17);
    assert_eq!(candidate_move(18 * 65536), 0);
    assert_eq!(candidate_move(13622895711870), 14);
    assert_eq!(candidate_move(u64::MAX), 9);
}

#[test]
fn a_seeded_generator_gives_the_known_scramble() {
    let mut rng = ScrambleRng::with_seed(12345);
    assert_eq!(
        rng.generate(20),
        vec![14, 16, 9, 6, 11, 9, 1, 16, 6, 1, 9, 14, 17, 12, 3, 16, 17, 1, 6, 4]
    );

    let mut rng = ScrambleRng::with_seed(1);
    assert_eq!(
        rng.generate(20),
        vec![8, 10, 5, 7, 5, 6, 13, 10, 7, 0, 4, 17, 13, 15, 16, 8, 12, 9, 1, 3]
    );

    let mut rng = ScrambleRng::with_seed(42);
    assert_eq!(
        OptimizedCube::moves_to_string(&rng.generate(20)),
        "D' B L R B L2 R' B' R U2 R2 F B' U2 B L B' D R2 U2"
    );

    let mut rng = ScrambleRng::with_seed(u64::MAX);
    assert_eq!(
        rng.generate(20),
        vec![1, 9, 16, 15, 16, 7, 4, 3, 13, 6, 9, 16, 1, 14, 9, 1, 8, 12, 10, 9]
    );
}

#[test]
fn a_seed_of_zero_stands_for_the_default_seed() {
    let mut zero = ScrambleRng::with_seed(0);
    let mut default = ScrambleRng::with_seed(12345);
    assert_eq!(zero.generate(25), default.generate(25));
}

#[test]
fn a_generator_is_seeded_once_and_keeps_its_counter() {
    let mut rng = ScrambleRng::new();
    assert!(!rng.is_seeded());
    rng.seed_once(42);
    assert!(rng.is_seeded());
    rng.seed_once(7);
    let mut same = ScrambleRng::with_seed(42);
    assert_eq!(rng.generate(20), same.generate(20));

    let mut lazy = ScrambleRng::new();
    let first = lazy.generate_with(42, 10);
    assert!(lazy.is_seeded());
    let second = lazy.generate_with(99, 10);
    let mut whole = ScrambleRng::with_seed(42);
    assert_eq!(first, whole.generate(10));
    assert_eq!(second, whole.generate(10));
    assert_ne!(first, second);
}

#[test]
fn generation_from_the_clock_seeds_the_generator() {
    let mut rng = ScrambleRng::new();
    let moves = rng.generate(20);
    assert!(rng.is_seeded());
    assert!(moves.len() <= 20);
    assert!(OptimizedCube::validate_scramble(&moves));
}

#[test]
fn generated_scrambles_are_valid_for_many_seeds() {
    for seed in 0u64..500 {
        let mut rng = ScrambleRng::with_seed(seed.wrapping_mul(0x9E37_79B9_7F4A_7C15));
        for length in [0usize, 1, 2, 3, 15, 20, 25, 50] {
            let moves = rng.generate(length);
            assert!(moves.len() <= length);
            assert_eq!(moves.len(), length);
            assert!(moves.iter().all(|&code| code <= 17));
            assert!(OptimizedCube::validate_scramble(&moves));
        }
    }
}

#[test]
fn generation_gives_up_after_a_thousand_candidates() {
    let mut rng = ScrambleRng::with_seed(12345);
    let moves = rng.generate(2000);
    assert_eq!(moves.len(), 801);
    assert!(OptimizedCube::validate_scramble(&moves));

    let mut stepped = 12345u64;
    for _ in 0..1000 {
        stepped = next_counter(stepped);
    }
    let mut after = ScrambleRng::with_seed(stepped);
    assert_eq!(rng.generate(5), after.generate(5));
}

#[test]
fn a_scramble_of_no_moves_draws_nothing() {
    let mut rng = ScrambleRng::with_seed(12345);
    assert_eq!(rng.generate(0), Vec::<u8>::new());
    assert_eq!(
        rng.generate(3),
        vec![14, 16, 9]
    );
    assert_eq!(OptimizedCube::generate_random_scramble(0), Vec::<u8>::new());
}

#[test]
fn the_validator_reads_the_rule_from_left_to_right() {
    assert!(OptimizedCube::validate_scramble(&[]));
    assert!(OptimizedCube::validate_scramble(&[17]));
    assert!(OptimizedCube::validate_scramble(&[0, 4, 2, 1, 5, 3]));
    assert!(!OptimizedCube::validate_scramble(&[0, 6]));
    assert!(!OptimizedCube::validate_scramble(&[0, 1, 0]));
    assert!(!OptimizedCube::validate_scramble(&[0, 1, 12]));
    assert!(OptimizedCube::validate_scramble(&[0, 1, 4, 0, 1]));
    assert!(OptimizedCube::validate_scramble(&[0, 4, 0, 4]));
    assert!(!OptimizedCube::validate_scramble(&[4, 5, 10]));
    assert!(!OptimizedCube::validate_scramble(&[2, 3, 8]));
    assert!(!OptimizedCube::validate_scramble(&[18]));
    assert!(!OptimizedCube::validate_scramble(&[0, 4, 255]));
    assert!(!OptimizedCube::validate_scramble(&[255, 0]));
}

#[test]
fn a_candidate_is_judged_against_the_last_two_moves() {
    assert!(OptimizedCube::is_valid_move(0, None, None));
    assert!(!OptimizedCube::is_valid_move(18, None, None));
    assert!(!OptimizedCube::is_valid_move(0, Some(12), None));
    assert!(OptimizedCube::is_valid_move(0, Some(1), None));
    assert!(!OptimizedCube::is_valid_move(0, Some(1), Some(6)));
    assert!(OptimizedCube::is_valid_move(2, Some(1), Some(6)));
    assert!(OptimizedCube::is_valid_move(0, Some(4), Some(1)));
    assert!(OptimizedCube::is_valid_move(0, None, Some(0)));
    assert_eq!(OptimizedCube::get_face_axis(0), 0);
    assert_eq!(OptimizedCube::get_face_axis(1), 0);
    assert_eq!(OptimizedCube::get_face_axis(2), 1);
    assert_eq!(OptimizedCube::get_face_axis(3), 1);
    assert_eq!(OptimizedCube::get_face_axis(4), 2);
    assert_eq!(OptimizedCube::get_face_axis(5), 2);
    assert_eq!(OptimizedCube::get_face_axis(6), 255);
    assert_eq!(OptimizedCube::get_face_axis(200), 255);
}

#[test]
fn scramble_text_is_validated_after_parsing() {
    assert!(MoveUtils::validate_scramble_string("U R F D L B"));
    assert!(MoveUtils::validate_scramble_string(""));
    assert!(!MoveUtils::validate_scramble_string("U U'"));
    assert!(!MoveUtils::validate_scramble_string("U D U"));
    assert!(!MoveUtils::validate_scramble_string("U R x"));
    assert!(ScrambleUtils::validate_scramble("  U   R\tF "));
    assert!(!ScrambleUtils::validate_scramble("R L R2"));
    assert!(!ScrambleUtils::validate_scramble("R u"));
}

#[test]
fn scrambles_as_text_have_the_asked_number_of_tokens() {
    let checks: Vec<(String, usize)> = vec![
        (MoveUtils::generate_competition_scramble_string(), 20),
        (MoveUtils::generate_practice_scramble_string(), 15),
        (MoveUtils::generate_long_scramble_string(), 25),
        (MoveUtils::generate_random_scramble_string(7), 7),
        (ScrambleUtils::generate_competition_scramble(), 20),
        (ScrambleUtils::generate_practice_scramble(), 15),
        (ScrambleUtils::generate_long_scramble(), 25),
        (ScrambleUtils::generate_scramble(9), 9),
    ];
    for (text, length) in checks {
        let codes = OptimizedCube::parse_scramble(&text).unwrap();
        assert_eq!(codes.len(), length);
        assert!(OptimizedCube::validate_scramble(&codes));
        assert_eq!(OptimizedCube::moves_to_string(&codes), text);
    }
}
