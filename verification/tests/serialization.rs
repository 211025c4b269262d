use tinycbg::{CyberGrindPattern, Prefab, Tile};

#[test]
fn write() {
    let mut pattern = CyberGrindPattern::new();
    let wall_tile = Tile::with_height(20);
    let enemy_tile = Tile::new(0, Prefab::Melee);

    pattern.copy_tile_to_row(wall_tile, 0);
    pattern.copy_tile_to_row(wall_tile, 15);

    pattern.copy_tile_to_column(wall_tile, 0);
    pattern.copy_tile_to_column(wall_tile, 15);

    pattern.set_at(7, 7, enemy_tile);
    pattern.set_at(8, 8, enemy_tile);

    let mut bytes: Vec<u8> = Vec::new();
    pattern.write(&mut bytes);

    let wall = "(20)".repeat(16) + "\n";
    let inner = String::from("(20)") + &"0".repeat(14) + "(20)\n";
    let heights = wall.clone() + &inner.repeat(14) + &wall;
    let blank = "0".repeat(16) + "\n";
    let prefabs = blank.repeat(7)
        + "0000000n00000000\n"
        + "00000000n0000000\n"
        + &blank.repeat(7);
    let text = heights + "\n" + &prefabs;
    assert_eq!(String::from_utf8(bytes).unwrap(), text);
}

#[test]
fn blank_pattern_is_written_as_zeros() {
    let pattern = CyberGrindPattern::new();
    let mut bytes: Vec<u8> = Vec::new();
    pattern.write(&mut bytes);
    let section = "0000000000000000\n".repeat(16);
    let text = section.clone() + "\n" + &section;
    assert_eq!(bytes.len(), 2 * 16 * 17 + 1);
    assert_eq!(String::from_utf8(bytes).unwrap(), text);
}

#[test]
fn digits_stand_bare_up_to_nine() {
    let mut pattern = CyberGrindPattern::new();
    let heights: [i8; 8] = [9, 10, -1, 0, 50, -50, 1, -9];
    for (i, height) in heights.iter().enumerate() {
        pattern.set(i, Tile::with_height(*height));
    }
    let mut bytes: Vec<u8> = Vec::new();
    pattern.write(&mut bytes);
    let text = String::from_utf8(bytes).unwrap();
    let first_line = text.lines().next().unwrap();
    assert_eq!(first_line, "9(10)(-1)0(50)(-50)1(-9)00000000");
}

#[test]
fn every_height_is_written_in_its_own_form() {
    for height in -50..=50i8 {
        let mut pattern = CyberGrindPattern::new();
        pattern.set(0, Tile::with_height(height));
        let mut bytes: Vec<u8> = Vec::new();
        pattern.write(&mut bytes);
        let expected = if (0..=9).contains(&height) {
            format!("{}", height)
        } else {
            format!("({})", height)
        };
        let text = String::from_utf8(bytes).unwrap();
        assert_eq!(text.lines().next().unwrap(), expected + &"0".repeat(15));
    }
}

#[test]
fn write_appends_to_what_the_sink_holds() {
    let pattern = CyberGrindPattern::new();
    let mut alone: Vec<u8> = Vec::new();
    pattern.write(&mut alone);
    let mut sink: Vec<u8> = vec![1, 2, 3];
    pattern.write(&mut sink);
    assert_eq!(&sink[..3], &[1, 2, 3]);
    assert_eq!(&sink[3..], &alone[..]);
}

#[test]
fn the_longest_text_has_1569_bytes() {
    let mut pattern = CyberGrindPattern::new();
    for i in 0..256usize {
        pattern.set(i, Tile::new(-50, Prefab::Melee));
    }
    let mut bytes: Vec<u8> = Vec::new();
    pattern.write(&mut bytes);
    assert_eq!(bytes.len(), 1569);
    assert_eq!(bytes.len(), tinycbg::grammar::MAX_FILE_SIZE);
}

#[test]
fn what_is_written_is_read_back() {
    let prefabs = [
        Prefab::Empty,
        Prefab::Melee,
        Prefab::Projectile,
        Prefab::HideousMass,
        Prefab::JumpPad,
        Prefab::Stairs,
    ];
    let mut pattern = CyberGrindPattern::new();
    for i in 0..256usize {
        let height = ((i * 37) % 101) as i8 - 50;
        pattern.set(i, Tile::new(height, prefabs[(i * 5) % 6]));
    }
    let mut bytes: Vec<u8> = Vec::new();
    pattern.write(&mut bytes);
    let read = CyberGrindPattern::parse(&bytes).unwrap();
    for i in 0..256usize {
        assert_eq!(read.get(i), pattern.get(i));
    }
    let text = String::from_utf8(bytes).unwrap();
    let read = CyberGrindPattern::parse_str(&text).unwrap();
    for i in 0..256usize {
        assert_eq!(read.get(i), pattern.get(i));
    }
}
