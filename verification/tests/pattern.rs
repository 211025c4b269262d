use tinycbg::{CyberGrindPattern, Prefab, Tile};

#[test]
fn new_pattern_is_blank() {
    let pattern = CyberGrindPattern::new();
    let other = CyberGrindPattern::default();
    for i in 0..256usize {
        assert_eq!(pattern.get(i), Tile::default());
        assert_eq!(other.get(i), Tile::default());
    }
    assert_eq!(pattern.as_slice().len(), 256);
}

#[test]
fn coordinates_count_row_by_row() {
    let mut pattern = CyberGrindPattern::new();
    let tile = Tile::new(7, Prefab::Stairs);
    pattern.set_at(3, 2, tile);
    assert_eq!(pattern.get(2 * 16 + 3), tile);
    assert_eq!(pattern.get_at(3, 2), tile);
    assert_eq!(pattern.get_at(2, 3), Tile::default());

    pattern.set(255, tile);
    assert_eq!(pattern.get_at(15, 15), tile);

    pattern.get_mut(17).set_height(-4);
    assert_eq!(pattern.get_at(1, 1), Tile::with_height(-4));
    pattern.get_mut_at(0, 15).set_prefab(Prefab::Melee);
    assert_eq!(pattern.get(240), Tile::with_prefab(Prefab::Melee));
}

#[test]
fn copy_tile_to_row_changes_that_row_only() {
    let wall_tile = Tile::with_height(20);
    for row in 0..16usize {
        let mut pattern = CyberGrindPattern::new();
        pattern.set_at(5, (row + 1) % 16, Tile::with_height(-1));
        let before = pattern.clone();
        pattern.copy_tile_to_row(wall_tile, row);
        for i in 0..256usize {
            if i / 16 == row {
                assert_eq!(pattern.get(i), wall_tile);
            } else {
                assert_eq!(pattern.get(i), before.get(i));
            }
        }
    }
}

#[test]
fn copy_tile_to_column_changes_that_column_only() {
    let wall_tile = Tile::new(-20, Prefab::JumpPad);
    for column in 0..16usize {
        let mut pattern = CyberGrindPattern::new();
        pattern.set_at((column + 1) % 16, 5, Tile::with_height(-1));
        let before = pattern.clone();
        pattern.copy_tile_to_column(wall_tile, column);
        for i in 0..256usize {
            if i % 16 == column {
                assert_eq!(pattern.get(i), wall_tile);
            } else {
                assert_eq!(pattern.get(i), before.get(i));
            }
        }
    }
}

#[test]
fn more_than_256_values_are_cut_off() {
    let mut values: Vec<Tile> = Vec::new();
    for i in 0..300usize {
        values.push(Tile::with_height((i % 101) as i8 - 50));
    }
    let pattern = CyberGrindPattern::from_flat(&values);
    let other = CyberGrindPattern::from(values.clone());
    for i in 0..256usize {
        assert_eq!(pattern.get(i), values[i]);
        assert_eq!(other.get(i), values[i]);
    }
}

#[test]
fn fewer_than_256_values_leave_the_rest_blank() {
    let values = vec![Tile::new(3, Prefab::Melee); 10];
    let pattern = CyberGrindPattern::from_flat(&values);
    for i in 0..256usize {
        if i < 10 {
            assert_eq!(pattern.get(i), Tile::new(3, Prefab::Melee));
        } else {
            assert_eq!(pattern.get(i), Tile::default());
        }
    }
    let blank = CyberGrindPattern::from(Vec::new());
    for i in 0..256usize {
        assert_eq!(blank.get(i), Tile::default());
    }
}

#[test]
fn a_pattern_can_be_made_of_256_tiles() {
    let mut tiles = [Tile::default(); 256];
    tiles[0] = Tile::with_height(50);
    tiles[255] = Tile::with_prefab(Prefab::Stairs);
    let pattern = CyberGrindPattern::from(tiles);
    for i in 0..256usize {
        assert_eq!(pattern.get(i), tiles[i]);
    }
    assert_eq!(pattern.as_slice(), &tiles[..]);
}
