use terminal_vibes::audio::tap::{four_cc, AudioComponentDescription};

#[test]
fn four_cc_is_big_endian() {
    assert_eq!(four_cc(*b"auou"), u32::from_be_bytes(*b"auou"));
    assert_eq!(four_cc(*b"tps#"), u32::from_be_bytes(*b"tps#"));
    assert_eq!(four_cc(*b"ahal"), 1634230636);
}

#[test]
fn hal_output_description() {
    let d = AudioComponentDescription::hal_output();
    assert_eq!(d.component_type, 1635086197);
    assert_eq!(d.component_sub_type, u32::from_be_bytes(*b"ahal"));
    assert_eq!(d.component_manufacturer, u32::from_be_bytes(*b"appl"));
    assert_eq!((d.component_flags, d.component_flags_mask), (0, 0));
}
