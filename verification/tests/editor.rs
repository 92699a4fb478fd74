use roccat_vulkan_rgb::color::Color;
use roccat_vulkan_rgb::editor::{is_error_message, Editor};
use roccat_vulkan_rgb::keymap::KeyMap;
use roccat_vulkan_rgb::keys::LED_COUNT;
use roccat_vulkan_rgb::state::Rgb;
use roccat_vulkan_rgb::template::{template_text, TemplateError};

const RED: Color = Color { r: 255, g: 0, b: 0, a: 255 };
const BLUE: Color = Color { r: 0, g: 0, b: 255, a: 255 };

fn open() -> Editor {
    Editor::new(vec![Rgb { r: 1, g: 1, b: 1 }; LED_COUNT], KeyMap::new(), None, "t.toml".to_string())
}

fn reports(list: &[&str]) -> Vec<String> {
    list.iter().map(|s| s.to_string()).collect()
}

fn selected(editor: &Editor) -> Vec<String> {
    (0..editor.selected_keys.len()).map(|i| editor.selected_keys.name(i).to_string()).collect()
}

fn assigned(editor: &Editor) -> Vec<(String, Color)> {
    (0..editor.key_colors.len())
        .map(|i| (editor.key_colors.name(i).to_string(), editor.key_colors.value(i)))
        .collect()
}

#[test]
fn a_new_editor_is_quiet() {
    let mut editor = open();
    assert!(!editor.learn_mode && !editor.preview_dirty && !editor.preview_init_done);
    assert_eq!(editor.chosen_color, Color::from_rgb(255, 255, 255));
    assert_eq!(editor.count_label(), "Assigned: 0   |   Selecting: 0");
    assert!(!editor.can_save());
    let (stopped, preview) = editor.begin_frame(&Vec::new());
    assert!(!stopped && preview.is_none());
}

#[test]
fn learning_toggles_keys() {
    let mut editor = open();
    editor.start_learn();
    let (stopped, preview) =
        editor.begin_frame(&reports(&["KEY_W", "KEY_LEFTSHIFT", "KEY_A", "KEY_W"]));
    assert!(!stopped && preview.is_none());
    assert_eq!(selected(&editor), ["A", "LEFT_SHIFT"]);
    assert!(!editor.receive("KEY_W"));
    assert!(!editor.receive("KEY_A"));
    assert_eq!(selected(&editor), ["LEFT_SHIFT", "W"]);
    editor.deselect("W");
    editor.deselect("Q");
    assert_eq!(selected(&editor), ["LEFT_SHIFT"]);
    assert_eq!(editor.count_label(), "Assigned: 0   |   Selecting: 1");
}

#[test]
fn learning_ends_with_a_preview() {
    let mut editor = open();
    editor.choose_color(RED);
    editor.start_learn();
    editor.begin_frame(&reports(&["KEY_ESC", "KEY_VOLUMEUP"]));
    let preview = editor.stop_learn();
    assert!(preview.initialize);
    assert!(!editor.learn_mode && !editor.preview_dirty);
    assert_eq!(preview.leds.len(), LED_COUNT);
    for (led, color) in preview.leds.iter().enumerate() {
        let expected = if led == 2 { Rgb { r: 255, g: 0, b: 0 } } else { Rgb { r: 1, g: 1, b: 1 } };
        assert_eq!(*color, expected);
    }
    assert_eq!(assigned(&editor), [("ESC".to_string(), RED), ("KEY_VOLUMEUP".to_string(), RED)]);
}

#[test]
fn rounds_of_learning_add_up() {
    let mut editor = open();
    editor.choose_color(RED);
    editor.start_learn();
    editor.begin_frame(&reports(&["KEY_A", "KEY_B"]));
    assert!(editor.stop_learn().initialize);
    editor.start_learn();
    assert!(selected(&editor).is_empty());
    editor.begin_frame(&reports(&["KEY_B", "KEY_C"]));
    let preview = editor.stop_learn();
    assert!(!preview.initialize);
    editor.choose_color(BLUE);
    assert_eq!(
        assigned(&editor),
        [("A".to_string(), RED), ("B".to_string(), BLUE), ("C".to_string(), BLUE)]
    );
    let (_, preview) = editor.begin_frame(&Vec::new());
    let leds = preview.unwrap().leds;
    assert_eq!(leds[10], Rgb { r: 255, g: 0, b: 0 });
    assert_eq!(leds[34], Rgb { r: 0, g: 0, b: 255 });
    assert!(editor.begin_frame(&Vec::new()).1.is_none());
}

#[test]
fn errors_end_learning() {
    let mut editor = open();
    editor.start_learn();
    let (stopped, preview) =
        editor.begin_frame(&reports(&["KEY_A", "__ERR__:grab failed (busy)", "KEY_B"]));
    assert!(stopped);
    assert!(preview.unwrap().initialize);
    assert!(!editor.learn_mode);
    assert_eq!(editor.status_msg.as_deref(), Some("Error: grab failed (busy)"));
    assert_eq!(selected(&editor), ["A"]);
    assert_eq!(assigned(&editor).len(), 1);
    editor.start_learn();
    assert_eq!(editor.status_msg, None);
}

#[test]
fn no_preview_while_learning() {
    let mut editor = open();
    editor.enable_background(true);
    editor.start_learn();
    assert!(editor.begin_frame(&Vec::new()).1.is_none());
    assert!(editor.refresh().is_none());
    assert!(editor.preview_dirty);
}

#[test]
fn background_lies_under_the_keys() {
    let mut colors = KeyMap::new();
    colors.insert("A".to_string(), RED);
    colors.insert("a".to_string(), BLUE);
    let mut editor = Editor::new(
        vec![Rgb::default(); 12],
        colors,
        Some(Color::from_rgb(9, 9, 9)),
        String::new(),
    );
    let leds = editor.preview_leds();
    assert_eq!(leds.len(), 12);
    assert_eq!(leds[10], Rgb { r: 255, g: 0, b: 0 });
    assert_eq!(leds[11], Rgb { r: 9, g: 9, b: 9 });
    editor.pick_background(Color::from_rgb(9, 9, 9));
    assert!(!editor.preview_dirty);
    editor.pick_background(BLUE);
    assert!(editor.preview_dirty);
    assert_eq!(editor.preview_leds()[0], Rgb { r: 0, g: 0, b: 255 });
    editor.enable_background(false);
    assert_eq!(editor.set_all_color, None);
    editor.pick_background(RED);
    assert_eq!(editor.set_all_color, None);
    assert_eq!(editor.preview_leds()[0], Rgb::default());
    editor.enable_background(true);
    assert_eq!(editor.set_all_color, Some(Color::from_rgb(0, 0, 0)));
}

#[test]
fn keys_beyond_the_map_are_passed_over() {
    let mut colors = KeyMap::new();
    colors.insert("RIGHT".to_string(), RED);
    let editor = Editor::new(vec![Rgb::default(); 95], colors, None, String::new());
    assert_eq!(editor.preview_leds(), vec![Rgb::default(); 95]);
}

#[test]
fn choosing_the_same_color_changes_nothing() {
    let mut editor = open();
    editor.receive("KEY_A");
    let white = editor.chosen_color;
    editor.choose_color(white);
    assert!(!editor.preview_dirty && assigned(&editor).is_empty());
    editor.choose_color(RED);
    assert!(editor.preview_dirty);
    assert_eq!(assigned(&editor), [("A".to_string(), RED)]);
    let mut idle = open();
    idle.choose_color(RED);
    assert!(!idle.preview_dirty);
}

#[test]
fn keys_can_be_taken_out() {
    let mut editor = open();
    editor.receive("KEY_A");
    editor.receive("KEY_B");
    editor.commit_selection();
    assert!(editor.preview_dirty);
    editor.unassign("A");
    assert_eq!(assigned(&editor), [("B".to_string(), Color::from_rgb(255, 255, 255))]);
    assert_eq!(selected(&editor), ["B"]);
    editor.saved(None);
    editor.clear_all();
    assert!(assigned(&editor).is_empty() && selected(&editor).is_empty());
    assert_eq!(editor.save_msg, None);
}

#[test]
fn saving_needs_content_and_a_path() {
    let mut editor = open();
    editor.enable_background(true);
    assert!(editor.can_save());
    editor.save_path = String::new();
    assert!(!editor.can_save());
    editor.save_path = "x".to_string();
    editor.enable_background(false);
    assert!(!editor.can_save());
    editor.receive("KEY_A");
    assert!(!editor.can_save());
    editor.commit_selection();
    assert!(editor.can_save());
}

#[test]
fn saving_leaves_a_message() {
    let mut editor = open();
    editor.saved(None);
    assert_eq!(editor.save_msg.as_deref(), Some("Saved → t.toml"));
    assert!(!is_error_message("Saved → t.toml"));
    editor.saved(Some("disk full".to_string()));
    assert_eq!(editor.save_msg.as_deref(), Some("Error: disk full"));
    assert!(is_error_message("Error: disk full"));
    assert!(!is_error_message("Err"));
}

#[test]
fn only_the_first_preview_initializes() {
    let mut editor = open();
    let mut flags = Vec::new();
    editor.unassign("A");
    editor.deselect("A");
    editor.enable_background(true);
    editor.pick_background(RED);
    editor.clear_all();
    flags.extend(editor.begin_frame(&Vec::new()).1.map(|p| p.initialize));
    flags.extend(editor.begin_frame(&Vec::new()).1.map(|p| p.initialize));
    editor.saved(None);
    editor.enable_background(false);
    flags.extend(editor.refresh().map(|p| p.initialize));
    editor.start_learn();
    flags.extend(editor.begin_frame(&reports(&["KEY_A"])).1.map(|p| p.initialize));
    flags.push(editor.stop_learn().initialize);
    editor.clear_all();
    flags.push(editor.send_preview().initialize);
    assert_eq!(flags, [true, false, false, false]);
    assert_eq!(editor.base_leds, vec![Rgb { r: 1, g: 1, b: 1 }; LED_COUNT]);
}

#[test]
fn refused_files_give_no_text() {
    let mut editor = open();
    editor.enable_background(true);
    let text = editor.save_text(None).unwrap();
    assert_eq!(text, template_text(editor.set_all_color, &editor.key_colors));
    assert_eq!(editor.save_text(Some(&text)).unwrap(), text);
    assert_eq!(editor.save_text(Some("[index]\n")).unwrap(), text);
    assert_eq!(editor.save_text(Some("[other]\n")).unwrap_err(), TemplateError::NoSection);
    assert_eq!(editor.save_text(Some("{}")).unwrap_err(), TemplateError::NotToml);
}

#[test]
fn saved_templates_are_overwritten_again() {
    let mut editor = open();
    let mut last = editor.save_text(None).unwrap();
    assert_eq!(editor.save_text(Some(&last)).unwrap_err(), TemplateError::NoSection);
    editor.start_learn();
    editor.begin_frame(&reports(&["KEY_A", "KEY_VOLUMEUP", "BTN_LEFT", "KEY_LEFTSHIFT"]));
    editor.stop_learn();
    last = editor.save_text(None).unwrap();
    for background in [true, false] {
        editor.enable_background(background);
        last = editor.save_text(Some(&last)).unwrap();
    }
}
