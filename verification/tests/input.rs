use roccat_vulkan_rgb::input::{
    after_delivery, after_report, choose_listener, helper_step, listen_step, pick_keyboard,
    poll_step, pressed_keys, report_fault, Fault, Fetched, HelperNext, HelperPhase, HelperRead,
    InputDevice, InputEvent, ListenAction, ListenEvent, ListenPhase, Listener, PollNext,
    ROCCAT_VID,
};

fn keyboard(key_count: usize, vendor: u16) -> InputDevice {
    InputDevice { has_keys: true, has_relative: false, has_leds: true, key_count, vendor }
}

fn press(code: u16) -> InputEvent {
    InputEvent::Key { code, value: 1 }
}

#[test]
fn the_helper_listens_where_no_device_opens() {
    assert_eq!(choose_listener(0), Listener::Helper);
    assert_eq!(choose_listener(1), Listener::Direct);
    assert_eq!(choose_listener(usize::MAX), Listener::Direct);
}

#[test]
fn only_keyboards_are_picked() {
    let good = keyboard(100, 1);
    let mouse = InputDevice { has_relative: true, ..good };
    let media = InputDevice { has_leds: false, ..good };
    let sensor = InputDevice { has_keys: false, ..good };
    let empty = keyboard(0, ROCCAT_VID);
    assert_eq!(pick_keyboard(&[]), None);
    assert_eq!(pick_keyboard(&[mouse, media, sensor]), None);
    assert_eq!(pick_keyboard(&[mouse, media, good, sensor]), Some(2));
    assert_eq!(pick_keyboard(&[empty]), Some(0));
    assert_eq!(pick_keyboard(&[keyboard(0, 1), keyboard(1, 1)]), Some(1));
    assert_eq!(pick_keyboard(&[mouse, good, empty]), Some(2));
}

#[test]
fn preferred_vendor_beats_key_count() {
    let big = keyboard(250, 1);
    let small = keyboard(3, ROCCAT_VID);
    assert_eq!(pick_keyboard(&[big, small]), Some(1));
    assert_eq!(pick_keyboard(&[small, big]), Some(0));
    assert_eq!(pick_keyboard(&[small, big, keyboard(4, ROCCAT_VID)]), Some(2));
}

#[test]
fn more_keys_win_and_the_first_of_equals() {
    assert_eq!(pick_keyboard(&[keyboard(5, 1), keyboard(9, 2), keyboard(7, 3)]), Some(1));
    assert_eq!(pick_keyboard(&[keyboard(5, 1), keyboard(9, 2), keyboard(9, 3)]), Some(1));
}

#[test]
fn pressed_keys_have_evdev_names() {
    let events = [
        press(42),
        InputEvent::Key { code: 42, value: 0 },
        InputEvent::Other,
        press(30),
        InputEvent::Key { code: 30, value: 2 },
        press(86),
        press(767),
    ];
    assert_eq!(
        pressed_keys(&events),
        ["KEY_LEFTSHIFT", "KEY_A", "KEY_102ND", "unknown key: 767"]
    );
    assert!(pressed_keys(&[]).is_empty());
}

#[test]
fn polling_reports_and_goes_on() {
    assert_eq!(
        poll_step(Listener::Direct, Fetched::Events(vec![press(1), press(2)])),
        (vec!["KEY_ESC".to_string(), "KEY_1".to_string()], PollNext::Again)
    );
    assert_eq!(poll_step(Listener::Helper, Fetched::WouldBlock), (vec![], PollNext::Pause));
    assert_eq!(
        poll_step(Listener::Direct, Fetched::Failed("gone".to_string())),
        (vec!["__ERR__:fetch_events: gone".to_string()], PollNext::Release)
    );
    assert_eq!(
        poll_step(Listener::Helper, Fetched::Failed("gone".to_string())),
        (vec!["ERR:gone".to_string()], PollNext::Release)
    );
}

#[test]
fn faults_are_reported_by_each_listener() {
    let e = || "x".to_string();
    let direct = |f: Fault| report_fault(Listener::Direct, &f);
    let helper = |f: Fault| report_fault(Listener::Helper, &f);
    assert_eq!(direct(Fault::NoKeyboard), "__ERR__:No keyboard device found under /dev/input/");
    assert_eq!(helper(Fault::NoKeyboard), "ERR:No keyboard device found under /dev/input/");
    assert_eq!(direct(Fault::Nonblocking(e())), "__ERR__:set_nonblocking: x");
    assert_eq!(helper(Fault::Nonblocking(e())), "ERR:set_nonblocking: x");
    assert_eq!(direct(Fault::Grab(e())), "__ERR__:grab failed (x)");
    assert_eq!(helper(Fault::Grab(e())), "ERR:grab failed: x");
    assert_eq!(direct(Fault::Executable(e())), "__ERR__:current_exe: x");
    assert_eq!(direct(Fault::Launch(e())), "__ERR__:pkexec launch failed: x");
}

fn line(phase: HelperPhase, s: &str) -> (Option<String>, HelperNext) {
    helper_step(phase, &HelperRead::Line(s.to_string()))
}

#[test]
fn greeting_of_the_helper() {
    let phase = HelperPhase::Greeting;
    assert_eq!(line(phase, "OK\n"), (None, HelperNext::Read(HelperPhase::Streaming)));
    assert_eq!(line(phase, "OK \r\n"), (None, HelperNext::Read(HelperPhase::Streaming)));
    assert_eq!(
        line(phase, "ERR:grab failed: busy\n"),
        (Some("__ERR__:grab failed: busy".to_string()), HelperNext::Stop)
    );
    assert_eq!(
        line(phase, " OK\n"),
        (Some("__ERR__:Unexpected helper response:  OK".to_string()), HelperNext::Stop)
    );
    assert_eq!(
        helper_step(phase, &HelperRead::End),
        (
            Some(
                "__ERR__:Helper exited without response (authentication cancelled?)".to_string()
            ),
            HelperNext::Stop
        )
    );
    assert_eq!(
        helper_step(phase, &HelperRead::Failed("pipe".to_string())),
        (Some("__ERR__:Reading helper stdout: pipe".to_string()), HelperNext::Stop)
    );
}

#[test]
fn stream_of_the_helper() {
    let phase = HelperPhase::Streaming;
    assert_eq!(line(phase, "KEY_A\n"), (Some("KEY_A".to_string()), HelperNext::Read(phase)));
    assert_eq!(line(phase, "OK\n"), (Some("OK".to_string()), HelperNext::Read(phase)));
    assert_eq!(line(phase, "ERR:gone\n"), (Some("__ERR__:gone".to_string()), HelperNext::Reap));
    assert_eq!(line(phase, "ERR:\n"), (Some("__ERR__:".to_string()), HelperNext::Reap));
    assert_eq!(helper_step(phase, &HelperRead::End), (None, HelperNext::Reap));
    let failed = HelperRead::Failed("pipe".to_string());
    assert_eq!(helper_step(phase, &failed), (None, HelperNext::Reap));
}

#[test]
fn helper_faults_reach_the_editor() {
    for fault in [Fault::NoKeyboard, Fault::Grab("a".to_string()), Fault::Fetch("b".to_string())] {
        let written = format!("{}\n", report_fault(Listener::Helper, &fault));
        let message = written.trim_end().strip_prefix("ERR:").unwrap().to_string();
        for phase in [HelperPhase::Greeting, HelperPhase::Streaming] {
            assert_eq!(line(phase, &written).0, Some(format!("__ERR__:{message}")));
        }
    }
}

#[test]
fn without_an_editor_reading_ends() {
    let read = HelperNext::Read(HelperPhase::Streaming);
    assert_eq!(after_report(read, true), read);
    assert_eq!(after_report(read, false), HelperNext::Reap);
    assert_eq!(after_report(HelperNext::Stop, false), HelperNext::Stop);
    assert_eq!(after_report(HelperNext::Reap, true), HelperNext::Reap);
}

#[test]
fn names_of_all_codes_have_a_known_form() {
    for code in 0..=u16::MAX {
        let names = pressed_keys(&[press(code)]);
        let name = names[0].as_str();
        let named = name.starts_with("KEY_") || name.starts_with("BTN_");
        assert!(
            (named && !name.contains(char::is_whitespace)) || name == format!("unknown key: {code}")
        );
    }
}

/// Runs a listener on a row of events; returns what it reports and does.
fn run(listener: Listener, events: Vec<ListenEvent>) -> (Vec<String>, Vec<ListenAction>) {
    let mut phase = ListenPhase::Picking;
    let mut reported = Vec::new();
    let mut done = Vec::new();
    for event in events {
        let (reports, action, next) = listen_step(listener, phase, event);
        reported.extend(reports);
        done.push(action);
        phase = next;
    }
    (reported, done)
}

fn failed(e: &str) -> ListenEvent {
    ListenEvent::Failed(e.to_string())
}

#[test]
fn helper_listens_until_it_is_stopped() {
    let (reported, done) = run(
        Listener::Helper,
        vec![
            ListenEvent::Found(true),
            ListenEvent::Done,
            ListenEvent::Done,
            ListenEvent::Fetched(Fetched::WouldBlock),
            ListenEvent::Done,
            ListenEvent::Fetched(Fetched::Events(vec![press(30)])),
            ListenEvent::Stopped,
            ListenEvent::Done,
        ],
    );
    assert_eq!(reported, ["OK", "KEY_A"]);
    assert_eq!(
        done,
        [
            ListenAction::Grab,
            ListenAction::Unblock,
            ListenAction::Poll,
            ListenAction::Pause,
            ListenAction::Poll,
            ListenAction::Poll,
            ListenAction::Ungrab,
            ListenAction::End
        ]
    );
}

#[test]
fn direct_listener_grabs_last_and_ends_on_errors() {
    let (reported, done) = run(
        Listener::Direct,
        vec![
            ListenEvent::Found(true),
            ListenEvent::Done,
            ListenEvent::Done,
            ListenEvent::Fetched(Fetched::Failed("gone".to_string())),
            failed("late"),
        ],
    );
    assert_eq!(reported, ["__ERR__:fetch_events: gone"]);
    assert_eq!(
        done,
        [
            ListenAction::Unblock,
            ListenAction::Grab,
            ListenAction::Poll,
            ListenAction::Ungrab,
            ListenAction::End
        ]
    );
}

#[test]
fn listeners_fail_to_start() {
    let missing = || vec![ListenEvent::Found(false)];
    assert_eq!(
        run(Listener::Helper, missing()),
        (vec!["ERR:No keyboard device found under /dev/input/".to_string()], vec![ListenAction::End])
    );
    assert_eq!(
        run(Listener::Direct, missing()).0,
        ["__ERR__:No keyboard device found under /dev/input/"]
    );
    let (reported, done) = run(Listener::Helper, vec![ListenEvent::Found(true), failed("busy")]);
    assert_eq!(reported, ["ERR:grab failed: busy"]);
    assert_eq!(done[1], ListenAction::End);
    let (reported, done) = run(
        Listener::Helper,
        vec![ListenEvent::Found(true), ListenEvent::Done, failed("no"), ListenEvent::Done],
    );
    assert_eq!(reported, ["ERR:set_nonblocking: no"]);
    assert_eq!(done[2..], [ListenAction::Ungrab, ListenAction::End]);
    let (reported, done) = run(Listener::Direct, vec![ListenEvent::Found(true), failed("no")]);
    assert_eq!(reported, ["__ERR__:set_nonblocking: no"]);
    assert_eq!(done[1], ListenAction::End);
    let (reported, done) =
        run(Listener::Direct, vec![ListenEvent::Found(true), ListenEvent::Done, failed("busy")]);
    assert_eq!(reported, ["__ERR__:grab failed (busy)"]);
    assert_eq!(done[2], ListenAction::End);
}

#[test]
fn without_an_editor_listening_ends() {
    assert_eq!(after_delivery(ListenAction::Poll, true), ListenAction::Poll);
    assert_eq!(after_delivery(ListenAction::Poll, false), ListenAction::End);
    assert_eq!(after_delivery(ListenAction::Ungrab, false), ListenAction::Ungrab);
    assert_eq!(after_delivery(ListenAction::End, false), ListenAction::End);
}
