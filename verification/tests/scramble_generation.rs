use cube_wasm::{MoveCode, OptimizedCube};

#[test]
fn test_random_scramble_generation() {
    let scramble1 = OptimizedCube::generate_random_scramble(25);
    let scramble2 = OptimizedCube::generate_random_scramble(25);

    assert_eq!(scramble1.len(), 25);
    assert_eq!(scramble2.len(), 25);

    // Should be different (very high probability)
    assert_ne!(scramble1, scramble2);

    // All moves should be valid
    for &move_code in &scramble1 {
        assert!(MoveCode::from_u8(move_code).is_ok());
    }
}

#[test]
fn test_stress_random_scrambles() {
    for _ in 0..100 {
        let scramble = OptimizedCube::generate_random_scramble(50);
        let mut cube = OptimizedCube::solved();
        cube.apply_moves(&scramble);

        // The cube keeps its 54 stickers whatever the scramble
        assert_eq!(cube.stickers().len(), 54);
    }
}

#[test]
fn test_improved_scramble_generation() {
    let scramble = OptimizedCube::generate_random_scramble(20);
    assert_eq!(scramble.len(), 20);

    // Verify all moves are valid
    for &move_code in &scramble {
        assert!(move_code <= 17, "Invalid move code: {}", move_code);
    }

    // Verify scramble follows WCA rules
    assert!(
        OptimizedCube::validate_scramble(&scramble),
        "Generated scramble violates WCA rules"
    );
}

#[test]
fn test_scramble_validation() {
    // Valid scramble
    let valid_scramble = vec![0, 4, 2, 1, 5, 3]; // U R F D L B
    assert!(OptimizedCube::validate_scramble(&valid_scramble));

    // Invalid: consecutive moves on same face
    let invalid_same_face = vec![0, 6]; // U U'
    assert!(!OptimizedCube::validate_scramble(&invalid_same_face));

    // Invalid: three moves on same axis
    let invalid_axis = vec![0, 1, 0]; // U D U (all UD axis)
    assert!(!OptimizedCube::validate_scramble(&invalid_axis));

    // Invalid move code
    let invalid_code = vec![18]; // Invalid move code
    assert!(!OptimizedCube::validate_scramble(&invalid_code));
}

#[test]
fn test_competition_scramble_length() {
    let scramble = OptimizedCube::generate_competition_scramble();
    assert_eq!(scramble.len(), 20);
    assert!(OptimizedCube::validate_scramble(&scramble));
}

#[test]
fn test_practice_scramble_length() {
    let scramble = OptimizedCube::generate_practice_scramble();
    assert_eq!(scramble.len(), 15);
    assert!(OptimizedCube::validate_scramble(&scramble));
}

#[test]
fn test_long_scramble_length() {
    let scramble = OptimizedCube::generate_long_scramble();
    assert_eq!(scramble.len(), 25);
    assert!(OptimizedCube::validate_scramble(&scramble));
}

#[test]
fn test_wca_axis_rules() {
    // Test that three consecutive moves on same axis are prevented
    let _cube = OptimizedCube::new();

    // Generate many scrambles and check none violate axis rules
    for _ in 0..100 {
        let scramble = OptimizedCube::generate_random_scramble(20);

        for i in 2..scramble.len() {
            let face1 = scramble[i - 2] % 6;
            let face2 = scramble[i - 1] % 6;
            let face3 = scramble[i] % 6;

            let axis1 = match face1 {
                0 | 1 => 0, // U/D
                2 | 3 => 1, // F/B
                4 | 5 => 2, // R/L
                _ => 255,
            };
            let axis2 = match face2 {
                0 | 1 => 0, // U/D
                2 | 3 => 1, // F/B
                4 | 5 => 2, // R/L
                _ => 255,
            };
            let axis3 = match face3 {
                0 | 1 => 0, // U/D
                2 | 3 => 1, // F/B
                4 | 5 => 2, // R/L
                _ => 255,
            };

            // Should never have three consecutive moves on same axis
            assert!(!(axis1 == axis2 && axis2 == axis3),
                "Found three consecutive moves on same axis: faces {}, {}, {} (axes {}, {}, {})",
                face1, face2, face3, axis1, axis2, axis3);
        }
    }
}

#[test]
fn test_no_consecutive_same_face() {
    // Generate many scrambles and verify no consecutive moves on same face
    for _ in 0..100 {
        let scramble = OptimizedCube::generate_random_scramble(20);

        for i in 1..scramble.len() {
            let face1 = scramble[i - 1] % 6;
            let face2 = scramble[i] % 6;

            assert_ne!(
                face1, face2,
                "Found consecutive moves on same face: {} and {}",
                face1, face2
            );
        }
    }
}
