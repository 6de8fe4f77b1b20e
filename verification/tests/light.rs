use distant_horizons::error::Fault;
use distant_horizons::light::LightLevel;

#[test]
fn light_levels_are_found_by_their_numbers() {
    for value in 0..=15u8 {
        let level = LightLevel::try_from(value).unwrap();
        assert_eq!(level.as_u8(), value);
    }
    assert_eq!(LightLevel::try_from(0), Ok(LightLevel::Level0));
    assert_eq!(LightLevel::try_from(15), Ok(LightLevel::SUN));
}

#[test]
fn there_is_no_light_beyond_the_sun() {
    assert_eq!(LightLevel::try_from(16), Err(Fault::UnknownValue(16)));
    assert_eq!(LightLevel::try_from(255), Err(Fault::UnknownValue(255)));
}
