use tinycbg::{CyberGrindPattern, Prefab, Tile};

#[test]
fn iter_read() {
    let test_tile = Tile::new(10, Prefab::Stairs);
    let mut pat = CyberGrindPattern::new();

    for i in 0..16 {
        pat.set_at(i, i, test_tile);
    }

    let mut rows = pat.iter();
    let mut i: usize = 0;
    while let Some(row) = rows.next() {
        assert!(row[i] == test_tile);
        i += 1;
    }
    assert_eq!(i, 16);
}

#[test]
fn iter_write() {
    let test_tile = Tile::new(10, Prefab::Stairs);
    let mut pat = CyberGrindPattern::new();

    let mut rows = pat.iter_mut();
    let mut i: usize = 0;
    while let Some(row) = rows.next() {
        row.set(&mut pat, i, test_tile);
        i += 1;
    }
    assert_eq!(i, 16);

    for i in 0..16 {
        assert_eq!(pat.get_at(i, i), test_tile);
        pat.set_at(i, i, test_tile);
    }
    for i in 0..256usize {
        if i / 16 == i % 16 {
            assert_eq!(pat.get(i), test_tile);
        } else {
            assert_eq!(pat.get(i), Tile::default());
        }
    }
}

#[test]
fn rows_hold_their_16_tiles_in_order() {
    let mut pat = CyberGrindPattern::new();
    for i in 0..256usize {
        pat.set(i, Tile::with_height((i % 101) as i8 - 50));
    }
    let mut rows = pat.iter();
    let mut y: usize = 0;
    while let Some(row) = rows.next() {
        assert_eq!(row.len(), 16);
        let mut tiles = row.iter();
        let mut x: usize = 0;
        while let Some(tile) = tiles.next() {
            assert_eq!(tile, pat.get_at(x, y));
            assert_eq!(row.get(x), tile);
            x += 1;
        }
        assert_eq!(x, 16);
        assert!(tiles.next().is_none());
        y += 1;
    }
    assert_eq!(y, 16);
    assert!(rows.next().is_none());
    assert_eq!(pat.row(3).get(4), pat.get(3 * 16 + 4));
}

#[test]
fn rows_hand_out_tiles_to_be_changed() {
    let mut pat = CyberGrindPattern::new();
    let mut rows = pat.iter_mut();
    let mut y: i8 = 0;
    while let Some(row) = rows.next() {
        let mut tiles = row.iter();
        let mut x: i8 = 0;
        while let Some(tile) = tiles.next(&mut pat) {
            tile.set_height(y - x);
            x += 1;
        }
        assert_eq!(x, 16);
        assert_eq!(row.get(&pat, 2).height(), y - 2);
        row.get_mut(&mut pat, 2).set_prefab(Prefab::Melee);
        y += 1;
    }
    for i in 0..256usize {
        let tile = pat.get(i);
        assert_eq!(tile.height(), (i / 16) as i8 - (i % 16) as i8);
        if i % 16 == 2 {
            assert_eq!(tile.prefab(), Prefab::Melee);
        } else {
            assert_eq!(tile.prefab(), Prefab::Empty);
        }
    }
}
