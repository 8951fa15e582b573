use cube_wasm::OptimizedCube;

#[test]
fn test_face_rotation_direction() {
    println!("\n=== FACE ROTATION DIRECTION TESTS ===");
    println!("Testing if faces rotate clockwise when viewed from outside");

    test_r_face_rotation_direction();
    test_b_face_rotation_direction();
    test_d_face_b_reversal();
    test_r_face_b_reversal();
}

fn test_r_face_rotation_direction() {
    let mut cube = OptimizedCube::solved();
    println!("\n--- R FACE ROTATION DIRECTION TEST ---");

    // Create a distinct pattern on R face to see rotation
    cube.stickers_mut()[36] = 10; // top-left
    cube.stickers_mut()[37] = 11; // top-center
    cube.stickers_mut()[38] = 12; // top-right
    cube.stickers_mut()[39] = 13; // middle-left
    cube.stickers_mut()[40] = 4; // center stays red
    cube.stickers_mut()[41] = 14; // middle-right
    cube.stickers_mut()[42] = 15; // bottom-left
    cube.stickers_mut()[43] = 16; // bottom-center
    cube.stickers_mut()[44] = 17; // bottom-right

    println!("R face before R move:");
    println!(
        "[{} {} {}]",
        cube.stickers()[36], cube.stickers()[37], cube.stickers()[38]
    );
    println!(
        "[{} {} {}]",
        cube.stickers()[39], cube.stickers()[40], cube.stickers()[41]
    );
    println!(
        "[{} {} {}]",
        cube.stickers()[42], cube.stickers()[43], cube.stickers()[44]
    );

    cube.apply_r_move();

    println!("R face after R move:");
    println!(
        "[{} {} {}]",
        cube.stickers()[36], cube.stickers()[37], cube.stickers()[38]
    );
    println!(
        "[{} {} {}]",
        cube.stickers()[39], cube.stickers()[40], cube.stickers()[41]
    );
    println!(
        "[{} {} {}]",
        cube.stickers()[42], cube.stickers()[43], cube.stickers()[44]
    );

    // For clockwise rotation: 10 should move to position 38 (top-left → top-right)
    println!("Expected clockwise rotation: 10 at position 38, 12 at position 44, etc.");
    println!(
        "Position 38 has: {} (should be 10 for clockwise)",
        cube.stickers()[38]
    );
    println!(
        "Position 44 has: {} (should be 12 for clockwise)",
        cube.stickers()[44]
    );
    println!(
        "Position 42 has: {} (should be 17 for clockwise)",
        cube.stickers()[42]
    );
    println!(
        "Position 36 has: {} (should be 15 for clockwise)",
        cube.stickers()[36]
    );

    // Test if it's actually clockwise
    let is_clockwise = cube.stickers()[38] == 10
        && cube.stickers()[44] == 12
        && cube.stickers()[42] == 17
        && cube.stickers()[36] == 15;
    println!("R face rotates clockwise: {}", is_clockwise);
}

fn test_b_face_rotation_direction() {
    let mut cube = OptimizedCube::solved();
    println!("\n--- B FACE ROTATION DIRECTION TEST ---");

    // Create pattern on B face
    cube.stickers_mut()[27] = 20; // top-left
    cube.stickers_mut()[28] = 21; // top-center
    cube.stickers_mut()[29] = 22; // top-right
    cube.stickers_mut()[30] = 23; // middle-left
    cube.stickers_mut()[31] = 3; // center stays blue
    cube.stickers_mut()[32] = 24; // middle-right
    cube.stickers_mut()[33] = 25; // bottom-left
    cube.stickers_mut()[34] = 26; // bottom-center
    cube.stickers_mut()[35] = 27; // bottom-right

    println!("B face before B move:");
    println!(
        "[{} {} {}]",
        cube.stickers()[27], cube.stickers()[28], cube.stickers()[29]
    );
    println!(
        "[{} {} {}]",
        cube.stickers()[30], cube.stickers()[31], cube.stickers()[32]
    );
    println!(
        "[{} {} {}]",
        cube.stickers()[33], cube.stickers()[34], cube.stickers()[35]
    );

    cube.apply_b_move();

    println!("B face after B move:");
    println!(
        "[{} {} {}]",
        cube.stickers()[27], cube.stickers()[28], cube.stickers()[29]
    );
    println!(
        "[{} {} {}]",
        cube.stickers()[30], cube.stickers()[31], cube.stickers()[32]
    );
    println!(
        "[{} {} {}]",
        cube.stickers()[33], cube.stickers()[34], cube.stickers()[35]
    );

    // For clockwise rotation when viewed from outside (behind the cube)
    println!("Expected clockwise rotation: 20 at position 29, 22 at position 35, etc.");
    println!(
        "Position 29 has: {} (should be 20 for clockwise)",
        cube.stickers()[29]
    );
    println!(
        "Position 35 has: {} (should be 22 for clockwise)",
        cube.stickers()[35]
    );

    let is_clockwise = cube.stickers()[29] == 20
        && cube.stickers()[35] == 22
        && cube.stickers()[33] == 27
        && cube.stickers()[27] == 25;
    println!("B face rotates clockwise: {}", is_clockwise);
}

fn test_d_face_b_reversal() {
    let mut cube = OptimizedCube::solved();
    println!("\n--- D MOVE B FACE REVERSAL TEST ---");

    // Create distinct patterns on bottom edges
    cube.stickers_mut()[24] = 100;
    cube.stickers_mut()[25] = 101;
    cube.stickers_mut()[26] = 102; // F bottom
    cube.stickers_mut()[51] = 110;
    cube.stickers_mut()[52] = 111;
    cube.stickers_mut()[53] = 112; // L bottom
    cube.stickers_mut()[33] = 50;
    cube.stickers_mut()[34] = 51;
    cube.stickers_mut()[35] = 52; // B bottom
    cube.stickers_mut()[42] = 150;
    cube.stickers_mut()[43] = 151;
    cube.stickers_mut()[44] = 152; // R bottom

    println!("Before D move:");
    println!(
        "F bottom: [{}, {}, {}]",
        cube.stickers()[24], cube.stickers()[25], cube.stickers()[26]
    );
    println!(
        "L bottom: [{}, {}, {}]",
        cube.stickers()[51], cube.stickers()[52], cube.stickers()[53]
    );
    println!(
        "B bottom: [{}, {}, {}]",
        cube.stickers()[33], cube.stickers()[34], cube.stickers()[35]
    );
    println!(
        "R bottom: [{}, {}, {}]",
        cube.stickers()[42], cube.stickers()[43], cube.stickers()[44]
    );

    cube.apply_d_move();

    println!("After D move:");
    println!(
        "F bottom: [{}, {}, {}]",
        cube.stickers()[24], cube.stickers()[25], cube.stickers()[26]
    );
    println!(
        "L bottom: [{}, {}, {}]",
        cube.stickers()[51], cube.stickers()[52], cube.stickers()[53]
    );
    println!(
        "B bottom: [{}, {}, {}]",
        cube.stickers()[33], cube.stickers()[34], cube.stickers()[35]
    );
    println!(
        "R bottom: [{}, {}, {}]",
        cube.stickers()[42], cube.stickers()[43], cube.stickers()[44]
    );

    // Expected cycle: F←L←B←R←F
    println!("Expected cycle F←L←B←R←F:");
    println!(
        "F should get L: [110,111,112] → actual: [{},{},{}]",
        cube.stickers()[24], cube.stickers()[25], cube.stickers()[26]
    );

    // B face reversal check - when going from L to B, should the order reverse?
    println!(
        "L should get B: [50,51,52] or [52,51,50] → actual: [{},{},{}]",
        cube.stickers()[51], cube.stickers()[52], cube.stickers()[53]
    );

    let f_correct =
        [cube.stickers()[24], cube.stickers()[25], cube.stickers()[26]] == [110, 111, 112];
    let l_normal = [cube.stickers()[51], cube.stickers()[52], cube.stickers()[53]] == [50, 51, 52];
    let l_reversed = [cube.stickers()[51], cube.stickers()[52], cube.stickers()[53]] == [52, 51, 50];

    println!("F gets L correctly: {}", f_correct);
    println!("L gets B (normal order): {}", l_normal);
    println!("L gets B (reversed order): {}", l_reversed);
}

fn test_r_face_b_reversal() {
    let mut cube = OptimizedCube::solved();
    println!("\n--- R MOVE B FACE REVERSAL TEST ---");

    // Create patterns on right edges
    cube.stickers_mut()[2] = 10;
    cube.stickers_mut()[5] = 11;
    cube.stickers_mut()[8] = 12; // U right
    cube.stickers_mut()[20] = 20;
    cube.stickers_mut()[23] = 21;
    cube.stickers_mut()[26] = 22; // F right
    cube.stickers_mut()[11] = 30;
    cube.stickers_mut()[14] = 31;
    cube.stickers_mut()[17] = 32; // D right
    cube.stickers_mut()[27] = 40;
    cube.stickers_mut()[30] = 41;
    cube.stickers_mut()[33] = 42; // B left (from R perspective)

    println!("Before R move:");
    println!(
        "U right: [{}, {}, {}]",
        cube.stickers()[2], cube.stickers()[5], cube.stickers()[8]
    );
    println!(
        "F right: [{}, {}, {}]",
        cube.stickers()[20], cube.stickers()[23], cube.stickers()[26]
    );
    println!(
        "D right: [{}, {}, {}]",
        cube.stickers()[11], cube.stickers()[14], cube.stickers()[17]
    );
    println!(
        "B left:  [{}, {}, {}]",
        cube.stickers()[27], cube.stickers()[30], cube.stickers()[33]
    );

    cube.apply_r_move();

    println!("After R move:");
    println!(
        "U right: [{}, {}, {}]",
        cube.stickers()[2], cube.stickers()[5], cube.stickers()[8]
    );
    println!(
        "F right: [{}, {}, {}]",
        cube.stickers()[20], cube.stickers()[23], cube.stickers()[26]
    );
    println!(
        "D right: [{}, {}, {}]",
        cube.stickers()[11], cube.stickers()[14], cube.stickers()[17]
    );
    println!(
        "B left:  [{}, {}, {}]",
        cube.stickers()[27], cube.stickers()[30], cube.stickers()[33]
    );

    // Expected cycle: U←F←D←B←U
    println!("Expected cycle U←F←D←B←U:");

    // When going from D to B, should it reverse?
    println!(
        "D should get B: [40,41,42] or [42,41,40] → actual: [{},{},{}]",
        cube.stickers()[11], cube.stickers()[14], cube.stickers()[17]
    );

    // When going from B to U, should it reverse?
    println!(
        "B should get U: [10,11,12] or [12,11,10] → actual: [{},{},{}]",
        cube.stickers()[27], cube.stickers()[30], cube.stickers()[33]
    );

    let d_normal = [cube.stickers()[11], cube.stickers()[14], cube.stickers()[17]] == [40, 41, 42];
    let d_reversed = [cube.stickers()[11], cube.stickers()[14], cube.stickers()[17]] == [42, 41, 40];
    let b_normal = [cube.stickers()[27], cube.stickers()[30], cube.stickers()[33]] == [10, 11, 12];
    let b_reversed = [cube.stickers()[27], cube.stickers()[30], cube.stickers()[33]] == [12, 11, 10];

    println!("D gets B (normal): {}", d_normal);
    println!("D gets B: {}", d_reversed);
    println!("B gets U (normal): {}", b_normal);
    println!("B gets U: {}", b_reversed);
}

#[test]
fn test_all_face_rotations_comprehensive() {
    println!("\n=== COMPREHENSIVE ALL FACE ROTATION TESTS ===");
    println!("Testing all faces in all directions (CW, CCW, 180°)");

    test_all_faces_clockwise();
    test_all_faces_counterclockwise();
    test_all_faces_double();
    test_all_edge_cycles();
}

fn create_test_pattern_for_face(cube: &mut OptimizedCube, face_start: usize, base_value: u8) {
    // Create a unique pattern for each face position
    for i in 0..9 {
        if i == 4 {
            // Keep center as original color
            continue;
        }
        cube.stickers_mut()[face_start + i] = base_value + i as u8;
    }
}

fn print_face_pattern(cube: &OptimizedCube, face_start: usize, face_name: &str) {
    println!("{} face:", face_name);
    println!(
        "[{} {} {}]",
        cube.stickers()[face_start],
        cube.stickers()[face_start + 1],
        cube.stickers()[face_start + 2]
    );
    println!(
        "[{} {} {}]",
        cube.stickers()[face_start + 3],
        cube.stickers()[face_start + 4],
        cube.stickers()[face_start + 5]
    );
    println!(
        "[{} {} {}]",
        cube.stickers()[face_start + 6],
        cube.stickers()[face_start + 7],
        cube.stickers()[face_start + 8]
    );
}

fn check_clockwise_rotation(before: &[u8; 9], after: &[u8; 9], face_name: &str) -> bool {
    // For clockwise rotation: 0→2→8→6→0 and 1→5→7→3→1
    let corners_correct = after[2] == before[0]
        && after[8] == before[2]
        && after[6] == before[8]
        && after[0] == before[6];
    let edges_correct = after[5] == before[1]
        && after[7] == before[5]
        && after[3] == before[7]
        && after[1] == before[3];
    let center_same = after[4] == before[4];

    println!("{} clockwise check:", face_name);
    println!("  Corners (0→2→8→6→0): {}", corners_correct);
    println!("  Edges (1→5→7→3→1): {}", edges_correct);
    println!("  Center unchanged: {}", center_same);

    corners_correct && edges_correct && center_same
}

fn test_all_faces_clockwise() {
    println!("\n--- ALL FACES CLOCKWISE ROTATION TEST ---");

    let faces = [
        (0, "U", "apply_u_move"),
        (9, "D", "apply_d_move"),
        (18, "F", "apply_f_move"),
        (27, "B", "apply_b_move"),
        (36, "R", "apply_r_move"),
        (45, "L", "apply_l_move"),
    ];

    for (face_start, face_name, _) in faces.iter() {
        let mut cube = OptimizedCube::solved();
        create_test_pattern_for_face(&mut cube, *face_start, 10);

        // Store pattern before move
        let mut before = [0u8; 9];
        for i in 0..9 {
            before[i] = cube.stickers()[face_start + i];
        }

        println!("\nTesting {} face clockwise rotation:", face_name);
        print_face_pattern(&cube, *face_start, &format!("{} before", face_name));

        // Apply the move
        match face_name {
            &"U" => cube.apply_u_move(),
            &"D" => cube.apply_d_move(),
            &"F" => cube.apply_f_move(),
            &"B" => cube.apply_b_move(),
            &"R" => cube.apply_r_move(),
            &"L" => cube.apply_l_move(),
            _ => {}
        }

        let mut after = [0u8; 9];
        for i in 0..9 {
            after[i] = cube.stickers()[face_start + i];
        }

        print_face_pattern(&cube, *face_start, &format!("{} after", face_name));
        let is_clockwise = check_clockwise_rotation(&before, &after, face_name);
        println!(
            "  {} CLOCKWISE ROTATION: {}",
            face_name,
            if is_clockwise { "✅ PASS" } else { "❌ FAIL" }
        );
    }
}

fn test_all_faces_counterclockwise() {
    println!("\n--- ALL FACES COUNTERCLOCKWISE ROTATION TEST ---");

    let faces = [
        (0, "U", "U'"),
        (9, "D", "D'"),
        (18, "F", "F'"),
        (27, "B", "B'"),
        (36, "R", "R'"),
        (45, "L", "L'"),
    ];

    for (face_start, face_name, move_name) in faces.iter() {
        let mut cube = OptimizedCube::solved();
        create_test_pattern_for_face(&mut cube, *face_start, 20);

        let mut before = [0u8; 9];
        for i in 0..9 {
            before[i] = cube.stickers()[face_start + i];
        }

        println!(
            "\nTesting {} face counterclockwise rotation ({}):",
            face_name, move_name
        );
        print_face_pattern(&cube, *face_start, &format!("{} before", face_name));

        // Apply prime move (3 regular moves = 1 counterclockwise)
        match face_name {
            &"U" => {
                cube.apply_u_move();
                cube.apply_u_move();
                cube.apply_u_move();
            }
            &"D" => {
                cube.apply_d_move();
                cube.apply_d_move();
                cube.apply_d_move();
            }
            &"F" => {
                cube.apply_f_move();
                cube.apply_f_move();
                cube.apply_f_move();
            }
            &"B" => {
                cube.apply_b_move();
                cube.apply_b_move();
                cube.apply_b_move();
            }
            &"R" => {
                cube.apply_r_move();
                cube.apply_r_move();
                cube.apply_r_move();
            }
            &"L" => {
                cube.apply_l_move();
                cube.apply_l_move();
                cube.apply_l_move();
            }
            _ => {}
        }

        let mut after = [0u8; 9];
        for i in 0..9 {
            after[i] = cube.stickers()[face_start + i];
        }

        print_face_pattern(&cube, *face_start, &format!("{} after", face_name));

        // For counterclockwise: 0→6→8→2→0 and 1→3→7→5→1
        let corners_correct = after[6] == before[0]
            && after[8] == before[6]
            && after[2] == before[8]
            && after[0] == before[2];
        let edges_correct = after[3] == before[1]
            && after[7] == before[3]
            && after[5] == before[7]
            && after[1] == before[5];
        let center_same = after[4] == before[4];

        println!("  Counterclockwise check:");
        println!("    Corners (0→6→8→2→0): {}", corners_correct);
        println!("    Edges (1→3→7→5→1): {}", edges_correct);
        println!("    Center unchanged: {}", center_same);

        let is_counterclockwise = corners_correct && edges_correct && center_same;
        println!(
            "  {} COUNTERCLOCKWISE ROTATION: {}",
            face_name,
            if is_counterclockwise {
                "✅ PASS"
            } else {
                "❌ FAIL"
            }
        );
    }
}

fn test_all_faces_double() {
    println!("\n--- ALL FACES DOUBLE ROTATION TEST ---");

    let faces = [
        (0, "U", "U2"),
        (9, "D", "D2"),
        (18, "F", "F2"),
        (27, "B", "B2"),
        (36, "R", "R2"),
        (45, "L", "L2"),
    ];

    for (face_start, face_name, move_name) in faces.iter() {
        let mut cube = OptimizedCube::solved();
        create_test_pattern_for_face(&mut cube, *face_start, 30);

        let mut before = [0u8; 9];
        for i in 0..9 {
            before[i] = cube.stickers()[face_start + i];
        }

        println!(
            "\nTesting {} face double rotation ({}):",
            face_name, move_name
        );
        print_face_pattern(&cube, *face_start, &format!("{} before", face_name));

        // Apply double move (2 regular moves)
        match face_name {
            &"U" => {
                cube.apply_u_move();
                cube.apply_u_move();
            }
            &"D" => {
                cube.apply_d_move();
                cube.apply_d_move();
            }
            &"F" => {
                cube.apply_f_move();
                cube.apply_f_move();
            }
            &"B" => {
                cube.apply_b_move();
                cube.apply_b_move();
            }
            &"R" => {
                cube.apply_r_move();
                cube.apply_r_move();
            }
            &"L" => {
                cube.apply_l_move();
                cube.apply_l_move();
            }
            _ => {}
        }

        let mut after = [0u8; 9];
        for i in 0..9 {
            after[i] = cube.stickers()[face_start + i];
        }

        print_face_pattern(&cube, *face_start, &format!("{} after", face_name));

        // For 180° rotation: 0↔8, 1↔7, 2↔6, 3↔5, center unchanged
        let rotation_correct = after[8] == before[0]
            && after[0] == before[8]
            && after[7] == before[1]
            && after[1] == before[7]
            && after[6] == before[2]
            && after[2] == before[6]
            && after[5] == before[3]
            && after[3] == before[5]
            && after[4] == before[4];

        println!("  180° rotation check: {}", rotation_correct);
        println!(
            "  {} DOUBLE ROTATION: {}",
            face_name,
            if rotation_correct {
                "✅ PASS"
            } else {
                "❌ FAIL"
            }
        );
    }
}

fn test_all_edge_cycles() {
    println!("\n--- ALL EDGE CYCLE TESTS ---");

    // Test each move's edge cycling with distinct patterns
    test_u_edge_cycle();
    test_d_edge_cycle();
    test_f_edge_cycle();
    test_b_edge_cycle();
    test_r_edge_cycle();
    test_l_edge_cycle();
}

fn test_u_edge_cycle() {
    let mut cube = OptimizedCube::solved();
    println!("\nU move edge cycle test:");

    // Set distinct patterns on top edges
    cube.stickers_mut()[18] = 100;
    cube.stickers_mut()[19] = 101;
    cube.stickers_mut()[20] = 102; // F top
    cube.stickers_mut()[36] = 110;
    cube.stickers_mut()[37] = 111;
    cube.stickers_mut()[38] = 112; // R top
    cube.stickers_mut()[27] = 120;
    cube.stickers_mut()[28] = 121;
    cube.stickers_mut()[29] = 122; // B top
    cube.stickers_mut()[45] = 130;
    cube.stickers_mut()[46] = 131;
    cube.stickers_mut()[47] = 132; // L top

    cube.apply_u_move();

    let f_correct =
        [cube.stickers()[18], cube.stickers()[19], cube.stickers()[20]] == [110, 111, 112];
    let r_correct =
        [cube.stickers()[36], cube.stickers()[37], cube.stickers()[38]] == [120, 121, 122];
    let b_correct =
        [cube.stickers()[27], cube.stickers()[28], cube.stickers()[29]] == [130, 131, 132];
    let l_correct =
        [cube.stickers()[45], cube.stickers()[46], cube.stickers()[47]] == [100, 101, 102];

    println!("  F←R: {}", f_correct);
    println!("  R←B: {}", r_correct);
    println!("  B←L: {}", b_correct);
    println!("  L←F: {}", l_correct);
    println!(
        "  U EDGE CYCLE: {}",
        if f_correct && r_correct && b_correct && l_correct {
            "✅ PASS"
        } else {
            "❌ FAIL"
        }
    );
}

fn test_d_edge_cycle() {
    let mut cube = OptimizedCube::solved();
    println!("\nD move edge cycle test:");

    // Set patterns on bottom edges
    cube.stickers_mut()[24] = 100;
    cube.stickers_mut()[25] = 101;
    cube.stickers_mut()[26] = 102; // F bottom
    cube.stickers_mut()[51] = 110;
    cube.stickers_mut()[52] = 111;
    cube.stickers_mut()[53] = 112; // L bottom
    cube.stickers_mut()[33] = 120;
    cube.stickers_mut()[34] = 121;
    cube.stickers_mut()[35] = 122; // B bottom
    cube.stickers_mut()[42] = 130;
    cube.stickers_mut()[43] = 131;
    cube.stickers_mut()[44] = 132; // R bottom

    cube.apply_d_move();

    let f_gets_l = [cube.stickers()[24], cube.stickers()[25], cube.stickers()[26]] == [110, 111, 112];
    let l_gets_b = [cube.stickers()[51], cube.stickers()[52], cube.stickers()[53]] == [120, 121, 122];
    let b_gets_r = [cube.stickers()[33], cube.stickers()[34], cube.stickers()[35]] == [130, 131, 132];
    let r_gets_f = [cube.stickers()[42], cube.stickers()[43], cube.stickers()[44]] == [100, 101, 102];

    println!("  F←L: {}", f_gets_l);
    println!("  L←B: {}", l_gets_b);
    println!("  B←R: {}", b_gets_r);
    println!("  R←F: {}", r_gets_f);
    println!(
        "  D EDGE CYCLE: {}",
        if f_gets_l && l_gets_b && b_gets_r && r_gets_f {
            "✅ PASS"
        } else {
            "❌ FAIL"
        }
    );
}

fn test_f_edge_cycle() {
    let mut cube = OptimizedCube::solved();
    println!("\nF move edge cycle test:");

    cube.stickers_mut()[6] = 100;
    cube.stickers_mut()[7] = 101;
    cube.stickers_mut()[8] = 102; // U bottom
    cube.stickers_mut()[36] = 110;
    cube.stickers_mut()[39] = 111;
    cube.stickers_mut()[42] = 112; // R left
    cube.stickers_mut()[9] = 120;
    cube.stickers_mut()[10] = 121;
    cube.stickers_mut()[11] = 122; // D top
    cube.stickers_mut()[47] = 130;
    cube.stickers_mut()[50] = 131;
    cube.stickers_mut()[53] = 132; // L right

    cube.apply_f_move();

    let u_gets_l = [cube.stickers()[6], cube.stickers()[7], cube.stickers()[8]] == [130, 131, 132];
    let r_gets_u = [cube.stickers()[36], cube.stickers()[39], cube.stickers()[42]] == [100, 101, 102];
    let d_gets_r = [cube.stickers()[9], cube.stickers()[10], cube.stickers()[11]] == [110, 111, 112];
    let l_gets_d = [cube.stickers()[47], cube.stickers()[50], cube.stickers()[53]] == [120, 121, 122];

    println!("  U←L: {}", u_gets_l);
    println!("  R←U: {}", r_gets_u);
    println!("  D←R: {}", d_gets_r);
    println!("  L←D: {}", l_gets_d);
    println!(
        "  F EDGE CYCLE: {}",
        if u_gets_l && r_gets_u && d_gets_r && l_gets_d {
            "✅ PASS"
        } else {
            "❌ FAIL"
        }
    );
}

fn test_b_edge_cycle() {
    let mut cube = OptimizedCube::solved();
    println!("\nB move edge cycle test:");

    cube.stickers_mut()[0] = 100;
    cube.stickers_mut()[1] = 101;
    cube.stickers_mut()[2] = 102; // U top
    cube.stickers_mut()[45] = 110;
    cube.stickers_mut()[48] = 111;
    cube.stickers_mut()[51] = 112; // L left
    cube.stickers_mut()[15] = 120;
    cube.stickers_mut()[16] = 121;
    cube.stickers_mut()[17] = 122; // D bottom
    cube.stickers_mut()[38] = 130;
    cube.stickers_mut()[41] = 131;
    cube.stickers_mut()[44] = 132; // R right

    cube.apply_b_move();

    let u_gets_r = [cube.stickers()[0], cube.stickers()[1], cube.stickers()[2]] == [130, 131, 132];
    let l_gets_u = [cube.stickers()[45], cube.stickers()[48], cube.stickers()[51]] == [100, 101, 102];
    let d_gets_l = [cube.stickers()[15], cube.stickers()[16], cube.stickers()[17]] == [110, 111, 112];
    let r_gets_d = [cube.stickers()[38], cube.stickers()[41], cube.stickers()[44]] == [120, 121, 122];

    println!("  U←R: {}", u_gets_r);
    println!("  L←U: {}", l_gets_u);
    println!("  D←L: {}", d_gets_l);
    println!("  R←D: {}", r_gets_d);
    println!(
        "  B EDGE CYCLE: {}",
        if u_gets_r && l_gets_u && d_gets_l && r_gets_d {
            "✅ PASS"
        } else {
            "❌ FAIL"
        }
    );
}

fn test_r_edge_cycle() {
    let mut cube = OptimizedCube::solved();
    println!("\nR move edge cycle test:");

    cube.stickers_mut()[2] = 100;
    cube.stickers_mut()[5] = 101;
    cube.stickers_mut()[8] = 102; // U right
    cube.stickers_mut()[20] = 110;
    cube.stickers_mut()[23] = 111;
    cube.stickers_mut()[26] = 112; // F right
    cube.stickers_mut()[11] = 120;
    cube.stickers_mut()[14] = 121;
    cube.stickers_mut()[17] = 122; // D right
    cube.stickers_mut()[27] = 130;
    cube.stickers_mut()[30] = 131;
    cube.stickers_mut()[33] = 132; // B left

    cube.apply_r_move();

    let u_gets_f = [cube.stickers()[2], cube.stickers()[5], cube.stickers()[8]] == [110, 111, 112];
    let f_gets_d = [cube.stickers()[20], cube.stickers()[23], cube.stickers()[26]] == [120, 121, 122];
    let d_gets_b = [cube.stickers()[11], cube.stickers()[14], cube.stickers()[17]] == [130, 131, 132];
    let b_gets_u = [cube.stickers()[27], cube.stickers()[30], cube.stickers()[33]] == [100, 101, 102];

    // Check for reversal
    let d_gets_b_rev =
        [cube.stickers()[11], cube.stickers()[14], cube.stickers()[17]] == [132, 131, 130];
    let b_gets_u_rev =
        [cube.stickers()[27], cube.stickers()[30], cube.stickers()[33]] == [102, 101, 100];

    println!("  U←F: {}", u_gets_f);
    println!("  F←D: {}", f_gets_d);
    println!("  D←B (normal): {}", d_gets_b);
    println!("  D←B: {}", d_gets_b_rev);
    println!("  B←U (normal): {}", b_gets_u);
    println!("  B←U: {}", b_gets_u_rev);

    let cycle_correct =
        u_gets_f && f_gets_d && (d_gets_b || d_gets_b_rev) && (b_gets_u || b_gets_u_rev);
    println!(
        "  R EDGE CYCLE: {}",
        if cycle_correct {
            "✅ PASS"
        } else {
            "❌ FAIL"
        }
    );
}

fn test_l_edge_cycle() {
    let mut cube = OptimizedCube::solved();
    println!("\nL move edge cycle test:");

    cube.stickers_mut()[0] = 100;
    cube.stickers_mut()[3] = 101;
    cube.stickers_mut()[6] = 102; // U left
    cube.stickers_mut()[29] = 110;
    cube.stickers_mut()[32] = 111;
    cube.stickers_mut()[35] = 112; // B right
    cube.stickers_mut()[9] = 120;
    cube.stickers_mut()[12] = 121;
    cube.stickers_mut()[15] = 122; // D left
    cube.stickers_mut()[18] = 130;
    cube.stickers_mut()[21] = 131;
    cube.stickers_mut()[24] = 132; // F left

    cube.apply_l_move();

    let u_gets_b = [cube.stickers()[0], cube.stickers()[3], cube.stickers()[6]] == [110, 111, 112];
    let b_gets_d = [cube.stickers()[29], cube.stickers()[32], cube.stickers()[35]] == [120, 121, 122];
    let d_gets_f = [cube.stickers()[9], cube.stickers()[12], cube.stickers()[15]] == [130, 131, 132];
    let f_gets_u = [cube.stickers()[18], cube.stickers()[21], cube.stickers()[24]] == [100, 101, 102];

    // Check for reversal
    let u_gets_b_rev =
        [cube.stickers()[0], cube.stickers()[3], cube.stickers()[6]] == [112, 111, 110];
    let b_gets_d_rev =
        [cube.stickers()[29], cube.stickers()[32], cube.stickers()[35]] == [122, 121, 120];

    println!("  U←B (normal): {}", u_gets_b);
    println!("  U←B: {}", u_gets_b_rev);
    println!("  B←D: {}", b_gets_d);
    println!("  B←D: {}", b_gets_d_rev);
    println!("  D←F: {}", d_gets_f);
    println!("  F←U: {}", f_gets_u);

    let cycle_correct =
        (u_gets_b || u_gets_b_rev) && (b_gets_d || b_gets_d_rev) && d_gets_f && f_gets_u;
    println!(
        "  L EDGE CYCLE: {}",
        if cycle_correct {
            "✅ PASS"
        } else {
            "❌ FAIL"
        }
    );
}
