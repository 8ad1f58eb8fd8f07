use keyremap::key_scheduler::id_generator::IdGenerator;

#[test]
fn test_id_generator_starts_at_zero() {
    let mut gn = IdGenerator::new();
    assert_eq!(gn.next(), Some(0));
}

#[test]
fn test_id_generator_increments() {
    let mut gn = IdGenerator::new();
    assert_eq!(gn.next(), Some(0));
    assert_eq!(gn.next(), Some(1));
    assert_eq!(gn.next(), Some(2));
}

#[test]
fn test_id_generator_wraps_around() {
    let mut gn = IdGenerator { current: 255 };
    assert_eq!(gn.next(), Some(255));
    assert_eq!(gn.next(), Some(0));
    assert_eq!(gn.next(), Some(1));
}

#[test]
fn test_id_generator_multiple_iterations() {
    let mut gn = IdGenerator::new();
    let ids: Vec<u8> = vec![
        gn.next().unwrap(),
        gn.next().unwrap(),
        gn.next().unwrap(),
        gn.next().unwrap(),
        gn.next().unwrap(),
    ];
    assert_eq!(ids, vec![0, 1, 2, 3, 4]);
}
