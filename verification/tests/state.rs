use roccat_vulkan_rgb::command::{execute, Action, Command};
use roccat_vulkan_rgb::keys::{KeyError, KEY_ALIASES, LED_COUNT};
use roccat_vulkan_rgb::state::{base_leds, load_state, Rgb, State};

fn rgb(r: u8, g: u8, b: u8) -> Rgb {
    Rgb { r, g, b }
}

/// Actions as lines, with marks for those that print nothing.
fn run(command: Command, state: &mut State) -> Vec<String> {
    lines(execute(command, state, "/home/me/state.json").unwrap())
}

fn lines(actions: Vec<Action>) -> Vec<String> {
    actions
        .into_iter()
        .map(|a| match a {
            Action::Print(line) => line,
            Action::WriteFrame { initialize } => format!("<write {initialize}>"),
            Action::Save => "<save>".to_string(),
        })
        .collect()
}

fn get(key: &str) -> Command {
    Command::Get { key: Some(key.to_string()), index: None }
}

fn set(key: &str, dry_run: bool, no_init: bool) -> Command {
    Command::SetKey { key: Some(key.to_string()), index: None, r: 255, g: 40, b: 0, dry_run, no_init }
}

#[test]
fn a_new_state_is_black() {
    let state = State::new();
    assert_eq!(state.leds, vec![rgb(0, 0, 0); LED_COUNT]);
    assert_eq!(Rgb::default(), rgb(0, 0, 0));
}

#[test]
fn loading_cuts_or_fills_the_map() {
    assert_eq!(load_state(None).leds, vec![rgb(0, 0, 0); LED_COUNT]);
    let short = load_state(Some(vec![rgb(1, 2, 3); 2])).leds;
    assert_eq!(short.len(), LED_COUNT);
    assert_eq!(short[1], rgb(1, 2, 3));
    assert_eq!(short[2], rgb(0, 0, 0));
    let long = load_state(Some(vec![rgb(9, 8, 7); 200])).leds;
    assert_eq!(long, vec![rgb(9, 8, 7); LED_COUNT]);
    let empty = load_state(Some(Vec::new())).leds;
    assert_eq!(empty, vec![rgb(0, 0, 0); LED_COUNT]);
}

#[test]
fn a_stored_state_loads_unchanged() {
    let leds: Vec<Rgb> = (0..LED_COUNT).map(|i| rgb(i as u8, 2, 200 - i as u8)).collect();
    assert_eq!(load_state(Some(leds.clone())).leds, leds);
    assert_eq!(base_leds(Some(load_state(Some(leds.clone())))), leds);
    assert_eq!(base_leds(None), vec![rgb(0, 0, 0); LED_COUNT]);
}

#[test]
fn state_sets_and_gets_single_leds() {
    let mut state = State::new();
    assert_eq!(state.set(126, rgb(1, 2, 3)), rgb(0, 0, 0));
    assert_eq!(state.set(126, rgb(4, 5, 6)), rgb(1, 2, 3));
    assert_eq!(state.get(126), rgb(4, 5, 6));
    assert_eq!(state.get(125), rgb(0, 0, 0));
}

#[test]
fn get_shows_what_was_set() {
    let mut state = State::new();
    assert_eq!(
        run(set("caps-lock", false, false), &mut state),
        [
            "key=5 old=(0, 0, 0) new=(255, 40, 0)",
            "<write true>",
            "device-write=ok",
            "<save>"
        ]
    );
    assert_eq!(
        run(get("CAPS_LOCK"), &mut state),
        ["key=5 rgb=(255, 40, 0)", "source=tracked-state (/home/me/state.json)"]
    );
    assert_eq!(run(get("ESC"), &mut state)[0], "key=2 rgb=(0, 0, 0)");
}

#[test]
fn raw_index_in_the_key_argument_works() {
    let mut state = State::new();
    assert_eq!(
        run(set("10", true, false), &mut state),
        [
            "key=10 old=(0, 0, 0) new=(255, 40, 0)",
            "dry-run: not writing to device",
            "<save>"
        ]
    );
    assert_eq!(run(get("10"), &mut state)[0], "key=10 rgb=(255, 40, 0)");
    assert_eq!(run(get("A"), &mut state)[0], "key=10 rgb=(255, 40, 0)");
}

#[test]
fn init_sequence_can_be_left_out() {
    let mut state = State::new();
    assert_eq!(run(set("A", false, true), &mut state)[1], "<write false>");
    let all = Command::SetAll { r: 0, g: 0, b: 255, dry_run: false, no_init: true };
    assert_eq!(
        run(all, &mut state),
        ["set-all rgb=(0, 0, 255)", "<write false>", "device-write=ok", "<save>"]
    );
    let reset = Command::Reset { dry_run: false, no_init: true };
    assert_eq!(run(reset, &mut state)[0], "<write false>");
}

#[test]
fn set_all_is_setting_every_led() {
    let mut at_once = State::new();
    at_once.set(3, rgb(7, 7, 7));
    run(Command::SetAll { r: 200, g: 255, b: 0, dry_run: true, no_init: false }, &mut at_once);
    let mut one_by_one = State::new();
    for led in 0..LED_COUNT {
        let command = Command::SetKey {
            key: None,
            index: Some(led),
            r: 200,
            g: 255,
            b: 0,
            dry_run: true,
            no_init: false,
        };
        run(command, &mut one_by_one);
    }
    assert_eq!(at_once.leds, one_by_one.leds);
    assert_eq!(run(get("F5"), &mut at_once)[0], "key=40 rgb=(200, 255, 0)");
}

#[test]
fn reset_makes_all_black() {
    let mut state = State::new();
    state.set_all(rgb(1, 1, 1));
    assert_eq!(
        run(Command::Reset { dry_run: false, no_init: false }, &mut state),
        ["<write true>", "device-write=ok", "<save>", "reset to all black"]
    );
    assert_eq!(state.leds, vec![rgb(0, 0, 0); LED_COUNT]);
    assert_eq!(
        run(Command::Reset { dry_run: true, no_init: false }, &mut state),
        ["dry-run: not writing to device", "<save>", "reset to all black"]
    );
}

#[test]
fn listing_prints_the_table() {
    let mut state = State::new();
    let printed = run(Command::ListKeys, &mut state);
    assert_eq!(printed.len(), KEY_ALIASES.len());
    assert_eq!(printed[85], "RIGHT              95");
}

#[test]
fn a_refused_key_changes_nothing() {
    let mut state = State::new();
    state.set_all(rgb(3, 4, 5));
    assert!(matches!(
        execute(set("nope", false, false), &mut state, "x"),
        Err(KeyError::UnknownName(_))
    ));
    let command = Command::SetKey {
        key: None,
        index: Some(127),
        r: 0,
        g: 0,
        b: 0,
        dry_run: false,
        no_init: false,
    };
    assert!(matches!(execute(command, &mut state, "x"), Err(KeyError::OutOfRange(127))));
    let command = Command::Get { key: None, index: None };
    assert!(matches!(execute(command, &mut state, "x"), Err(KeyError::Unspecified)));
    assert_eq!(state.leds, vec![rgb(3, 4, 5); LED_COUNT]);
}
