use roccat_vulkan_rgb::keys::{
    evdev_to_alias, find_alias, list_keys, normalize_key_name, resolve_key_spec, validate_key,
    KeyError, EVDEV_RENAMES, KEY_ALIASES, LED_COUNT,
};
use roccat_vulkan_rgb::text;

fn by_name(name: &str) -> Result<usize, KeyError> {
    resolve_key_spec(Some(name.to_string()), None)
}

#[test]
fn key_names_resolve() {
    assert_eq!(by_name("ESC").unwrap(), 2);
    assert_eq!(by_name("A").unwrap(), 10);
    assert_eq!(by_name("F5").unwrap(), 40);
    assert_eq!(by_name("CAPS_LOCK").unwrap(), 5);
    assert_eq!(by_name("RIGHT").unwrap(), 95);
}

#[test]
fn spelling_of_key_names_is_free() {
    assert_eq!(by_name("caps-lock").unwrap(), 5);
    assert_eq!(by_name(" Caps_Lock\t").unwrap(), 5);
    assert_eq!(by_name("\u{3000}page-UP\u{85}").unwrap(), 93);
    assert_eq!(by_name("nonus-backslash").unwrap(), 6);
    assert!(by_name("CAPS LOCK").is_err());
}

#[test]
fn raw_index_is_accepted_as_a_key() {
    assert_eq!(by_name("10").unwrap(), 10);
    assert_eq!(by_name("126").unwrap(), 126);
    assert_eq!(by_name(" 018 ").unwrap(), 18);
    for i in 10..LED_COUNT {
        assert_eq!(by_name(&i.to_string()).unwrap(), i);
    }
}

#[test]
fn single_digits_are_key_names() {
    assert_eq!(by_name("1").unwrap(), 8);
    assert_eq!(by_name("0").unwrap(), 60);
    assert_eq!(by_name("9").unwrap(), 54);
}

#[test]
fn unknown_names_are_refused() {
    for name in ["", "127", "128", "99999999999999999999999999", "-1", "1x", "x1", "F13", "ALL"] {
        match by_name(name) {
            Err(KeyError::UnknownName(n)) => assert_eq!(n, name),
            other => panic!("{name}: {other:?}"),
        }
    }
}

#[test]
fn indices_resolve_in_range() {
    assert_eq!(resolve_key_spec(None, Some(0)).unwrap(), 0);
    assert_eq!(resolve_key_spec(None, Some(126)).unwrap(), 126);
    assert!(matches!(resolve_key_spec(None, Some(127)), Err(KeyError::OutOfRange(127))));
    assert!(validate_key(126).is_ok());
    assert!(matches!(validate_key(usize::MAX), Err(KeyError::OutOfRange(usize::MAX))));
}

#[test]
fn a_name_goes_before_an_index() {
    assert_eq!(resolve_key_spec(Some("esc".to_string()), Some(500)).unwrap(), 2);
    assert!(resolve_key_spec(Some("nope".to_string()), Some(5)).is_err());
    assert!(matches!(resolve_key_spec(None, None), Err(KeyError::Unspecified)));
}

#[test]
fn key_errors_have_messages() {
    assert_eq!(
        by_name(" nope").unwrap_err().message(),
        "unknown key name ' nope'; run 'list-keys' to see all valid names"
    );
    assert_eq!(
        validate_key(200).unwrap_err().message(),
        "key index out of range: 200 (expected 0..126)"
    );
    assert_eq!(
        resolve_key_spec(None, None).unwrap_err().message(),
        "specify either --key <name> or --index <number>"
    );
}

#[test]
fn every_listed_name_is_its_own_key() {
    assert_eq!(KEY_ALIASES.len(), 86);
    for (i, (name, led)) in KEY_ALIASES.iter().enumerate() {
        assert_eq!(find_alias(name), Some(*led));
        assert_eq!(by_name(name).unwrap(), *led);
        assert_eq!(by_name(&name.to_lowercase()).unwrap(), *led);
        for (other, other_led) in KEY_ALIASES.iter().skip(i + 1) {
            assert_ne!(name, other);
            assert_ne!(led, other_led);
        }
    }
    assert_eq!(find_alias("esc"), None);
}

#[test]
fn list_has_a_line_for_each_key() {
    let lines = list_keys();
    assert_eq!(lines.len(), KEY_ALIASES.len());
    for (line, (name, led)) in lines.iter().zip(KEY_ALIASES.iter()) {
        assert_eq!(*line, format!("{:<18} {}", name, led));
    }
    assert_eq!(lines[0], "LEFT_SHIFT         0");
}

#[test]
fn normalizing_agrees_with_the_standard_library() {
    for n in 0..0x3100u32 {
        if let Some(c) = char::from_u32(n) {
            let s = format!("{c} a{c}-Z{c}{c}");
            let expected = s.trim().to_ascii_uppercase().replace('-', "_");
            assert_eq!(normalize_key_name(&s), expected, "{n:x}");
            assert_eq!(normalize_key_name(&expected), expected);
        }
    }
}

#[test]
fn white_space_agrees_with_the_standard_library() {
    for n in 0..0x110000u32 {
        if let Some(c) = char::from_u32(n) {
            let mut buffer = [0u8; 4];
            let s: &str = c.encode_utf8(&mut buffer);
            assert_eq!(text::trim_end(s), s.trim_end(), "{n:x}");
        }
    }
}

#[test]
fn evdev_names_map_to_keys() {
    assert_eq!(evdev_to_alias("KEY_LEFTSHIFT"), "LEFT_SHIFT");
    assert_eq!(evdev_to_alias("KEY_102ND"), "NONUS_BACKSLASH");
    assert_eq!(evdev_to_alias("KEY_SYSRQ"), "PRINT");
    assert_eq!(evdev_to_alias("KEY_COMPOSE"), "MENU");
    assert_eq!(evdev_to_alias("KEY_A"), "A");
    assert_eq!(evdev_to_alias("KEY_F12"), "F12");
    assert_eq!(evdev_to_alias("KEY_DOT"), "DOT");
    assert_eq!(evdev_to_alias("LEFTMETA"), "LEFT_WIN");
    assert_eq!(evdev_to_alias("KEY_VOLUMEUP"), "KEY_VOLUMEUP");
    assert_eq!(evdev_to_alias("BTN_LEFT"), "BTN_LEFT");
    assert_eq!(evdev_to_alias("KEY_"), "KEY_");
    assert_eq!(evdev_to_alias("KEY_KEY_A"), "KEY_KEY_A");
    assert_eq!(evdev_to_alias("VOLUMEUP"), "VOLUMEUP");
    assert_eq!(evdev_to_alias("unknown key: 767"), "unknown key: 767");
    assert_eq!(evdev_to_alias(""), "");
}

#[test]
fn evdev_names_reach_every_key() {
    for (from, to) in EVDEV_RENAMES.iter() {
        assert_eq!(evdev_to_alias(&format!("KEY_{from}")), *to);
        assert!(find_alias(to).is_some());
    }
    for (name, _) in KEY_ALIASES.iter() {
        assert_eq!(evdev_to_alias(&format!("KEY_{name}")), *name);
    }
}

#[test]
fn text_helpers_agree_with_the_standard_library() {
    let samples = ["", "a", "A", "ab", "b", "→", "\u{10000}", "\u{ffff}", "a→", "é", "z", "KEY_A"];
    for a in samples {
        for b in samples {
            assert_eq!(text::comes_before(a, b), a < b, "{a} {b}");
            assert_eq!(text::same_text(a, b), a == b);
            assert_eq!(text::strip_prefix(a, b), a.strip_prefix(b));
        }
        assert_eq!(text::trim(a), a.trim());
    }
    for n in [0usize, 7, 10, 99, 100, 255, 1000, 123456789, usize::MAX] {
        assert_eq!(text::decimal_text(n), n.to_string());
    }
    let mut out = String::new();
    text::push_hex4(&mut out, 0x1e7d);
    text::push_hex4(&mut out, 0x000f);
    assert_eq!(out, "1e7d000f");
    let mut padded = String::new();
    text::push_padded_left(&mut padded, "7", 3);
    text::push_padded_right(&mut padded, "→", 3);
    text::push_padded_right(&mut padded, "long", 3);
    assert_eq!(padded, "  7→  long");
}
