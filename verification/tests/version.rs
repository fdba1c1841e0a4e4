use kittzo::domain::version::Version;

#[test]
fn increments_correctly() {
    assert_eq!(Version::first().next(), Version::from_u32(2));
    assert_eq!(Version::first().next().next(), Version::from_u32(3));
}

#[test]
fn version_round_trips_through_u32() {
    assert_eq!(Version::from_u32(41).as_u32(), 41);
    assert_eq!(Version::first().as_u32(), 1);
    assert_eq!(Version::from_u32(7).next().as_u32(), 8);
}
