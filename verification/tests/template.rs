use roccat_vulkan_rgb::color::Color;
use roccat_vulkan_rgb::keymap::KeyMap;
use roccat_vulkan_rgb::state::Rgb;
use roccat_vulkan_rgb::template::{
    check_is_template_or_new, check_sections, load_template, template_text, SetAll, TemplateDoc,
    TemplateError,
};
use std::collections::BTreeMap;

fn rows(map: &KeyMap<Color>) -> Vec<(String, Color)> {
    (0..map.len()).map(|i| (map.name(i).to_string(), map.value(i))).collect()
}

fn colors(list: &[(&str, Color)]) -> KeyMap<Color> {
    let mut map = KeyMap::new();
    for (name, color) in list {
        map.insert(name.to_string(), *color);
    }
    map
}

fn bytes(value: &toml::Value) -> Vec<u8> {
    value.as_array().unwrap().iter().map(|v| v.as_integer().unwrap() as u8).collect()
}

/// The sections of a text, read with the TOML reader.
fn read(text: &str) -> TemplateDoc {
    let table: toml::Table = toml::from_str(text).unwrap();
    TemplateDoc {
        set_all: table.get("set-all").map(|s| SetAll { all: s.get("ALL").map(bytes) }),
        key: table.get("key").map(|s| {
            s.as_table().unwrap().iter().map(|(name, v)| (name.clone(), bytes(v))).collect()
        }),
    }
}

#[test]
fn key_map_agrees_with_a_btree_map() {
    let mut map: KeyMap<u32> = KeyMap::new();
    let mut tree: BTreeMap<String, u32> = BTreeMap::new();
    let names = ["B", "A", "CAPS_LOCK", "", "é", "z", "→", "A1", "\u{10000}", "\u{ffff}", "A_"];
    for round in 0..200u32 {
        let name = names[(round * 7 % 11) as usize];
        if round % 3 == 2 {
            assert_eq!(map.remove(name), tree.remove(name).is_some());
        } else {
            map.insert(name.to_string(), round);
            tree.insert(name.to_string(), round);
        }
        assert_eq!(map.len(), tree.len());
        for n in names {
            assert_eq!(map.contains(n), tree.contains_key(n));
        }
        for (i, (n, v)) in tree.iter().enumerate() {
            assert_eq!(map.name(i), n);
            assert_eq!(map.value(i), *v);
        }
    }
}

#[test]
fn colors_convert() {
    let c = Color::from_rgb(1, 2, 3);
    assert_eq!(c, Color { r: 1, g: 2, b: 3, a: 255 });
    assert_eq!(c.to_rgb(), Rgb { r: 1, g: 2, b: 3 });
}

#[test]
fn text_of_a_template() {
    let map = colors(&[
        ("W", Color::from_rgb(255, 0, 7)),
        ("CAPS_LOCK", Color::from_rgb(10, 99, 100)),
        ("A_NAME_OF_TWENTY_FOUR__", Color { r: 1, g: 2, b: 3, a: 9 }),
    ]);
    let expected = "# Roccat Vulkan Pro TKL — RGB template\n\
        # Generated by roccat-vulkan-rgb editor\n\
        # Colors are [R, G, B] values in range 0–255.\n\
        # Applied in order: [set-all] → [key] → [index]\n\
        \n\
        [set-all]\n\
        ALL               = [  0,  64, 128]\n\
        \n\
        [key]\n\
        A_NAME_OF_TWENTY_FOUR__ = [  1,   2,   3]\n\
        CAPS_LOCK          = [ 10,  99, 100]\n\
        W                  = [255,   0,   7]\n";
    assert_eq!(template_text(Some(Color::from_rgb(0, 64, 128)), &map), expected);
}

#[test]
fn empty_sections_are_left_out() {
    let none = template_text(None, &KeyMap::new());
    assert!(none.ends_with("[index]\n\n"));
    let background = template_text(Some(Color::from_rgb(1, 2, 3)), &KeyMap::new());
    assert!(background.ends_with("\n[set-all]\nALL               = [  1,   2,   3]\n\n"));
    let key = template_text(None, &colors(&[("A", Color::from_rgb(1, 2, 3))]));
    assert!(key.ends_with("[index]\n\n[key]\nA                  = [  1,   2,   3]\n"));
}

#[test]
fn lines_agree_with_the_standard_formatting() {
    for n in 0..=255u8 {
        let c = Color::from_rgb(n, 255 - n, n / 2);
        let text = template_text(None, &colors(&[("LEFT_SHIFT", c)]));
        let line = format!("{:<18} = [{:>3}, {:>3}, {:>3}]\n", "LEFT_SHIFT", c.r, c.g, c.b);
        assert!(text.ends_with(&line));
    }
}

#[test]
fn written_templates_load_back() {
    let map = colors(&[
        ("ESC", Color::from_rgb(255, 254, 253)),
        ("1", Color::from_rgb(0, 9, 10)),
        ("PAGE_UP", Color::from_rgb(99, 100, 101)),
    ]);
    for background in [None, Some(Color::from_rgb(0, 0, 0)), Some(Color::from_rgb(200, 20, 2))] {
        let text = template_text(background, &map);
        assert_eq!(check_is_template_or_new(Some(&text)), Ok(()));
        let (loaded, loaded_background) = load_template(Some(read(&text)));
        assert_eq!(rows(&loaded), rows(&map));
        assert_eq!(loaded_background, background);
    }
}

#[test]
fn opacity_is_not_kept() {
    let map = colors(&[("A", Color { r: 1, g: 2, b: 3, a: 4 })]);
    let text = template_text(None, &map);
    let (loaded, _) = load_template(Some(read(&text)));
    assert_eq!(rows(&loaded), [("A".to_string(), Color::from_rgb(1, 2, 3))]);
}

#[test]
fn loading_takes_the_first_three_values() {
    let doc = TemplateDoc {
        set_all: Some(SetAll { all: Some(vec![1, 2, 3, 4]) }),
        key: Some(vec![
            ("B".to_string(), vec![7, 8, 9]),
            ("A".to_string(), vec![1, 2]),
            ("".to_string(), vec![4, 5, 6, 7, 8]),
        ]),
    };
    let (loaded, background) = load_template(Some(doc));
    assert_eq!(background, Some(Color::from_rgb(1, 2, 3)));
    assert_eq!(
        rows(&loaded),
        [("".to_string(), Color::from_rgb(4, 5, 6)), ("B".to_string(), Color::from_rgb(7, 8, 9))]
    );
}

#[test]
fn loading_without_sections_gives_nothing() {
    for doc in [
        None,
        Some(TemplateDoc { set_all: None, key: None }),
        Some(TemplateDoc { set_all: Some(SetAll { all: None }), key: Some(vec![]) }),
        Some(TemplateDoc { set_all: Some(SetAll { all: Some(vec![1, 2]) }), key: None }),
    ] {
        let (loaded, background) = load_template(doc);
        assert_eq!(loaded.len(), 0);
        assert_eq!(background, None);
    }
}

#[test]
fn only_templates_are_overwritten() {
    assert_eq!(check_is_template_or_new(None), Ok(()));
    assert_eq!(check_is_template_or_new(Some("[set-all]\n")), Ok(()));
    assert_eq!(check_is_template_or_new(Some("[key]\nA = [1, 2, 3]\n")), Ok(()));
    assert_eq!(check_is_template_or_new(Some("index = 3\nother = 4\n")), Ok(()));
    assert_eq!(check_is_template_or_new(Some("")), Err(TemplateError::NoSection));
    assert_eq!(check_is_template_or_new(Some("[a.key]\n")), Err(TemplateError::NoSection));
    assert_eq!(check_is_template_or_new(Some("{\"leds\": []}")), Err(TemplateError::NotToml));
    assert_eq!(check_is_template_or_new(Some("{")), Err(TemplateError::NotToml));
    assert_eq!(check_is_template_or_new(Some("{ key = 1 }")), Err(TemplateError::NotToml));
    assert_eq!(check_is_template_or_new(Some("key")), Err(TemplateError::NotToml));
    assert_eq!(
        TemplateError::NoSection.message(),
        "file exists but contains no [set-all], [key], or [index] section — refusing to overwrite"
    );
    assert_eq!(
        TemplateError::NotToml.message(),
        "file exists but is not a valid TOML template — refusing to overwrite"
    );
}

#[test]
fn sections_decide_alone() {
    let names = |list: &[&str]| Some(list.iter().map(|s| s.to_string()).collect::<Vec<String>>());
    assert_eq!(check_sections(names(&["x", "index"])), Ok(()));
    assert_eq!(check_sections(names(&["set-all"])), Ok(()));
    assert_eq!(check_sections(names(&["key"])), Ok(()));
    assert_eq!(check_sections(names(&["keys", "set_all"])), Err(TemplateError::NoSection));
    assert_eq!(check_sections(None), Err(TemplateError::NotToml));
}

#[test]
fn other_sections_do_not_matter() {
    let marker = "\"$__toml_private_datetime\" = \"no date\"";
    for text in [
        format!("[key]\nA = [1, 2, 3]\n\n[notes]\n{marker}\n"),
        format!("index = 1979-05-27\nx = inf\n\n[[notes]]\n{marker}\n"),
    ] {
        assert_eq!(check_is_template_or_new(Some(&text)), Ok(()));
    }
    let text = format!("[notes]\n{marker}\n");
    assert_eq!(check_is_template_or_new(Some(&text)), Err(TemplateError::NoSection));
}

#[test]
fn stored_states_are_no_templates() {
    let led: BTreeMap<&str, u8> = [("r", 1), ("g", 2), ("b", 3)].into_iter().collect();
    for count in [0, 1, 127] {
        let state: BTreeMap<&str, Vec<BTreeMap<&str, u8>>> =
            [("leds", vec![led.clone(); count])].into_iter().collect();
        for text in [
            serde_json::to_string_pretty(&state).unwrap(),
            serde_json::to_string(&state).unwrap(),
        ] {
            assert_eq!(check_is_template_or_new(Some(&text)), Err(TemplateError::NotToml));
        }
    }
}

#[test]
fn written_templates_may_be_overwritten() {
    let c = Color::from_rgb(0, 100, 255);
    assert_eq!(
        check_is_template_or_new(Some(&template_text(None, &KeyMap::new()))),
        Err(TemplateError::NoSection)
    );
    for background in [None, Some(c)] {
        for names in [
            vec!["A"],
            vec!["1", "10", "-", "_", "true", "inf", "nan", "key", "set-all", "KEY_VOLUMEUP"],
            vec!["A_NAME_THAT_IS_LONGER_THAN_ITS_COLUMN", "0x10", "1979-05-27"],
        ] {
            let list: Vec<(&str, Color)> = names.into_iter().map(|name| (name, c)).collect();
            let text = template_text(background, &colors(&list));
            assert_eq!(check_is_template_or_new(Some(&text)), Ok(()));
        }
    }
    let spaced = template_text(None, &colors(&[("unknown key: 767", c)]));
    assert_eq!(check_is_template_or_new(Some(&spaced)), Err(TemplateError::NotToml));
}
