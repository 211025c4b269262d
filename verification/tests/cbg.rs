use tinycbg::{CyberGrindPattern, Prefab};

#[test]
fn parse() {
    let mut pattern = CyberGrindPattern::new();

    for i in 0..=100 {
        let height = i as i8 - 50;
        pattern.get_mut(i).set_height(height);
    }

    pattern.get_mut(251).set_prefab(Prefab::Melee);
    pattern.get_mut(252).set_prefab(Prefab::Projectile);
    pattern.get_mut(253).set_prefab(Prefab::HideousMass);
    pattern.get_mut(254).set_prefab(Prefab::JumpPad);
    pattern.get_mut(255).set_prefab(Prefab::Stairs);

    let mut range: Vec<u8> = Vec::new();
    pattern.write(&mut range);

    for i in 0..256 {
        pattern.get_mut(i).set_height(-50);
        pattern.get_mut(i).set_prefab(Prefab::Melee);
    }

    let mut max_len: Vec<u8> = Vec::new();
    pattern.write(&mut max_len);

    let pattern = CyberGrindPattern::parse(&range).unwrap();
    for i in 0..=100 {
        println!("{:?}", pattern.get(i));
        assert_eq!(pattern.get(i).height(), i as i8 - 50);
        assert_eq!(pattern.get(i).prefab(), Prefab::Empty);
    }

    assert_eq!(pattern.get(251).prefab(), Prefab::Melee);
    assert_eq!(pattern.get(252).prefab(), Prefab::Projectile);
    assert_eq!(pattern.get(253).prefab(), Prefab::HideousMass);
    assert_eq!(pattern.get(254).prefab(), Prefab::JumpPad);
    assert_eq!(pattern.get(255).prefab(), Prefab::Stairs);

    let pattern = CyberGrindPattern::parse(&max_len).unwrap();
    for i in 0..256 {
        assert_eq!(pattern.get(i).height(), -50);
        assert_eq!(pattern.get(i).prefab(), Prefab::Melee);
    }
}
