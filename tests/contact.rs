use last_stander::contact::{laser_on_asteroid, ship_on_asteroid, AsteroidSize, Damage, ExplosionKind};

#[test]
fn asteroid_points() {
    assert_eq!(AsteroidSize::Small.points(), 40);
    assert_eq!(AsteroidSize::Medium.points(), 20);
    assert_eq!(AsteroidSize::Big.points(), 10);
}

#[test]
fn laser_scores_only_when_counting() {
    assert_eq!(laser_on_asteroid(Some(5), AsteroidSize::Medium), Some(25));
    assert_eq!(laser_on_asteroid(None, AsteroidSize::Small), None);
    assert_eq!(laser_on_asteroid(Some(u32::MAX - 1), AsteroidSize::Big), Some(u32::MAX));
}

#[test]
fn ship_damage() {
    assert_eq!(ship_on_asteroid(3, &Damage { value: 1 }), (2, ExplosionKind::ShipContact));
    assert_eq!(ship_on_asteroid(1, &Damage { value: 1 }), (0, ExplosionKind::ShipDead));
    assert_eq!(ship_on_asteroid(1, &Damage { value: 5 }), (0, ExplosionKind::ShipDead));
}
