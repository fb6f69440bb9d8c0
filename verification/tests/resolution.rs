use planets::runtime::gl::{number_from_str, resolution_from_str, ScreenResolution};

#[test]
fn parse_resolution() {
    let resolution_str = "800x600";
    let mut resolution = ScreenResolution::default();
    resolution.resolution_from_str(resolution_str);

    assert_eq!(resolution.resolution(), [800, 600]);
}

#[test]
fn default_resolution_is_full_hd_fullscreen() {
    let resolution = ScreenResolution::default();
    assert_eq!(resolution.resolution(), [1920, 1080]);
    assert!(resolution.fullscreen());
}

#[test]
fn parsing_keeps_the_fullscreen_flag() {
    let mut resolution = ScreenResolution::default();
    resolution.set_fullscreen(false);
    resolution.resolution_from_str("1280x720");
    assert_eq!(resolution.resolution(), [1280, 720]);
    assert!(!resolution.fullscreen());
    resolution.set_fullscreen(true);
    assert!(resolution.fullscreen());
    assert_eq!(resolution.resolution(), [1280, 720]);
}

#[test]
fn try_from_gives_a_windowed_resolution() {
    let resolution = ScreenResolution::try_from("640x480").expect("a valid resolution");
    assert_eq!(resolution.resolution(), [640, 480]);
    assert!(!resolution.fullscreen());
}

#[test]
fn try_from_rejects_what_is_no_resolution() {
    assert!(ScreenResolution::try_from("").is_err());
    assert!(ScreenResolution::try_from("800").is_err());
    assert!(ScreenResolution::try_from("x").is_err());
    assert!(ScreenResolution::try_from("800x").is_err());
    assert!(ScreenResolution::try_from("x600").is_err());
    assert!(ScreenResolution::try_from("800x600x32").is_err());
    assert!(ScreenResolution::try_from("800X600").is_err());
    assert!(ScreenResolution::try_from("800 x 600").is_err());
    assert!(ScreenResolution::try_from("-800x600").is_err());
    assert!(ScreenResolution::try_from("8e2x600").is_err());
}

#[test]
fn numbers_follow_the_rules_of_unsigned_integers() {
    assert_eq!(number_from_str("0"), Some(0));
    assert_eq!(number_from_str("007"), Some(7));
    assert_eq!(number_from_str("+42"), Some(42));
    assert_eq!(number_from_str("4294967295"), Some(u32::MAX));
    assert_eq!(number_from_str("4294967296"), None);
    assert_eq!(number_from_str("99999999999999999999999999"), None);
    assert_eq!(number_from_str(""), None);
    assert_eq!(number_from_str("+"), None);
    assert_eq!(number_from_str("++1"), None);
    assert_eq!(number_from_str("-1"), None);
    assert_eq!(number_from_str("1_000"), None);
    assert_eq!(number_from_str("١٢٣"), None);
}

#[test]
fn numbers_agree_with_the_standard_library() {
    let texts = ["0", "1", "+1", "-1", "", "+", "12a", "4294967295", "4294967296", "0000000000001"];
    for text in texts {
        assert_eq!(number_from_str(text), text.parse::<u32>().ok(), "for {:?}", text);
    }
}

#[test]
fn resolutions_split_at_the_only_x() {
    assert_eq!(resolution_from_str("1920x1080"), Some((1920, 1080)));
    assert_eq!(resolution_from_str("+1x+2"), Some((1, 2)));
    assert_eq!(resolution_from_str("0x0"), Some((0, 0)));
    assert_eq!(resolution_from_str("4294967295x4294967295"), Some((u32::MAX, u32::MAX)));
    assert_eq!(resolution_from_str("4294967296x1"), None);
    assert_eq!(resolution_from_str("1x4294967296"), None);
    assert_eq!(resolution_from_str("1xx2"), None);
    assert_eq!(resolution_from_str("1920×1080"), None);
}
