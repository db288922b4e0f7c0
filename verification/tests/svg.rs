use greeting_core::svg::BgType;

#[test]
fn a_background_is_read_from_its_name() {
    assert_eq!(BgType::from_str("lunar_new_year"), BgType::LunarNewYear);
    assert_eq!(BgType::from_str("Lunar_New_Year"), BgType::Plain);
    assert_eq!(BgType::from_str("lunar_new_year "), BgType::Plain);
    assert_eq!(BgType::from_str("none"), BgType::Plain);
    assert_eq!(BgType::from_str(""), BgType::Plain);
    assert_eq!(BgType::default(), BgType::Plain);
}
