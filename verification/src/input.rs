//! Listening to the keyboard: which device to take, what to report of it, and how reports travel
//! from a helper process.
use crate::text;
use vstd::prelude::*;
use vstd::string::*;

verus! {

/// The USB vendor whose keyboards are preferred.
pub const ROCCAT_VID: u16 = 0x1e7d;

/// The pause when no event is waiting, in milliseconds.
pub const PAUSE_MS: u64 = 10;

/// What an input device offers.
#[derive(Debug, Clone, Copy, PartialEq, Eq, Structural)]
pub struct InputDevice {
    /// It has key events.
    pub has_keys: bool,
    /// It has relative axes, as mice and trackpads do.
    pub has_relative: bool,
    /// It has indicator LEDs, as full keyboards do and media-key interfaces do not.
    pub has_leds: bool,
    /// The number of its keys.
    pub key_count: usize,
    /// Its USB vendor.
    pub vendor: u16,
}

/// Whether a device can be taken for a keyboard. How many keys it has does not matter here.
pub open spec fn is_keyboard(d: InputDevice) -> bool {
    d.has_keys && d.has_leds && !d.has_relative
}

/// Whether `a` is preferred to `b`: the vendor counts first, then the number of keys.
pub open spec fn is_preferred(a: InputDevice, b: InputDevice) -> bool {
    let a_roccat = a.vendor == ROCCAT_VID;
    let b_roccat = b.vendor == ROCCAT_VID;
    (a_roccat && !b_roccat) || (a_roccat == b_roccat && a.key_count > b.key_count)
}

/// Whether the device at `pick` is the one to take: a keyboard to which no other is preferred, and
/// the first of those.
pub open spec fn is_pick(devices: Seq<InputDevice>, pick: int) -> bool {
    &&& 0 <= pick < devices.len()
    &&& is_keyboard(devices[pick])
    &&& forall|j: int|
        0 <= j < devices.len() && is_keyboard(#[trigger] devices[j]) ==> !is_preferred(
            devices[j],
            devices[pick],
        )
    &&& forall|j: int|
        0 <= j < pick && is_keyboard(#[trigger] devices[j]) ==> is_preferred(
            devices[pick],
            devices[j],
        )
}

/// The position of the keyboard to take.
pub fn pick_keyboard(devices: &[InputDevice]) -> (r: Option<usize>)
    ensures
        match r {
            Some(pick) => is_pick(devices@, pick as int),
            None => forall|j: int| 0 <= j < devices@.len() ==> !is_keyboard(#[trigger] devices@[j]),
        },
{
    let mut best: Option<usize> = None;
    let mut i: usize = 0;
    while i < devices.len()
        invariant
            i <= devices@.len(),
            match best {
                Some(pick) => is_pick(devices@.take(i as int), pick as int),
                None => forall|j: int| 0 <= j < i ==> !is_keyboard(#[trigger] devices@[j]),
            },
        decreases devices@.len() - i,
    {
        let d: InputDevice = devices[i];
        let ghost seen = devices@.take(i as int);
        let ghost next = devices@.take(i + 1);
        proof {
            assert(next[i as int] == d);
            assert forall|j: int| 0 <= j < i implies #[trigger] next[j] == seen[j] by {}
        }
        if d.has_keys && d.has_leds && !d.has_relative {
            let better: bool = match best {
                None => true,
                Some(pick) => {
                    let b: InputDevice = devices[pick];
                    let d_roccat: bool = d.vendor == ROCCAT_VID;
                    let b_roccat: bool = b.vendor == ROCCAT_VID;
                    (d_roccat && !b_roccat) || (d_roccat == b_roccat && d.key_count > b.key_count)
                },
            };
            if better {
                best = Some(i);
            }
        }
        i += 1;
    }
    assert(devices@.take(i as int) =~= devices@);
    best
}

/// There is only one device to take.
pub proof fn law_pick_is_unique(devices: Seq<InputDevice>, a: int, b: int)
    requires
        is_pick(devices, a),
        is_pick(devices, b),
    ensures
        a == b,
{
}

/// A keyboard of the preferred vendor is taken if there is one, and of those one with the most
/// keys.
pub proof fn law_preferred_vendor_is_taken(devices: Seq<InputDevice>, pick: int, other: int)
    requires
        is_pick(devices, pick),
        0 <= other < devices.len(),
        is_keyboard(devices[other]),
        devices[other].vendor == ROCCAT_VID,
    ensures
        devices[pick].vendor == ROCCAT_VID,
        devices[pick].key_count >= devices[other].key_count,
{
}

/// The name that evdev gives a key code.
pub uninterp spec fn evdev_key_name(code: u16) -> Seq<char>;

/// The forms of the names that evdev gives a key code: `KEY_` or `BTN_` at the front of a name
/// without white space, or `unknown key: ` and the code.
pub open spec fn is_evdev_name(code: u16, name: Seq<char>) -> bool {
    ||| {
        &&& text::begins_with(name, "KEY_"@) || text::begins_with(name, "BTN_"@)
        &&& forall|i: int| 0 <= i < name.len() ==> !text::is_white_space(#[trigger] name[i])
    }
    ||| name == "unknown key: "@ + text::decimal(code as nat)
}

/// The `Debug` text of `evdev::KeyCode`: the name of the constant with this code, such as
/// `KEY_LEFTSHIFT`, or `unknown key: ` and the code. Claimed is that the text depends on nothing
/// but the code, and has one of these forms; which code has which name is not said.
#[verifier::external_body]
fn key_name(code: u16) -> (r: String)
    ensures
        r@ == evdev_key_name(code),
        is_evdev_name(code, r@),
{
    format!("{:?}", evdev::KeyCode(code))
}

/// An event of an input device.
#[derive(Debug, Clone, Copy, PartialEq, Eq, Structural)]
pub enum InputEvent {
    /// A key event: its code, and its value, which is 1 when the key goes down.
    Key { code: u16, value: i32 },
    /// Any other event.
    Other,
}

/// The key that goes down in an event, if one does.
pub open spec fn key_down(event: InputEvent) -> Option<u16> {
    match event {
        InputEvent::Key { code, value } => if value == 1 {
            Some(code)
        } else {
            None
        },
        InputEvent::Other => None,
    }
}

/// The names of the keys that go down in a row of events.
pub open spec fn pressed(events: Seq<InputEvent>) -> Seq<Seq<char>>
    decreases events.len(),
{
    if events.len() == 0 {
        seq![]
    } else {
        match key_down(events.last()) {
            Some(code) => pressed(events.drop_last()).push(evdev_key_name(code)),
            None => pressed(events.drop_last()),
        }
    }
}

/// Whether a report is taken for the name of a key, by the reader of the helper as by the editor.
pub open spec fn is_name_report(report: Seq<char>) -> bool {
    &&& !text::begins_with(report, "ERR:"@)
    &&& !text::begins_with(report, "__ERR__:"@)
    &&& text::trimmed_end(report) == report
}

proof fn lemma_evdev_names_are_name_reports(code: u16, name: Seq<char>)
    requires
        is_evdev_name(code, name),
    ensures
        is_name_report(name),
{
    reveal_strlit("KEY_");
    reveal_strlit("BTN_");
    reveal_strlit("ERR:");
    reveal_strlit("__ERR__:");
    reveal_strlit("unknown key: ");
    if text::begins_with(name, "KEY_"@) {
        assert(name.take(4)[0] == name[0]);
    } else if text::begins_with(name, "BTN_"@) {
        assert(name.take(4)[0] == name[0]);
    } else {
        assert(name[0] == 'u');
        assert(name.last() == text::decimal(code as nat).last());
        assert(text::is_digit(text::decimal(code as nat).last()));
    }
    if text::begins_with(name, "ERR:"@) {
        assert(name.take(4)[0] == name[0]);
    }
    if text::begins_with(name, "__ERR__:"@) {
        assert(name.take(8)[0] == name[0]);
    }
    assert(!text::is_white_space(name.last()));
}

/// The names of the keys that go down in a row of events. No such name is taken for an error.
pub fn pressed_keys(events: &[InputEvent]) -> (r: Vec<String>)
    ensures
        text::texts(r@) == pressed(events@),
        forall|i: int| 0 <= i < r@.len() ==> is_name_report((#[trigger] r@[i])@),
{
    let mut out: Vec<String> = Vec::new();
    let mut i: usize = 0;
    assert(text::texts(out@) =~= pressed(events@.take(0)));
    while i < events.len()
        invariant
            i <= events@.len(),
            text::texts(out@) == pressed(events@.take(i as int)),
            forall|j: int| 0 <= j < out@.len() ==> is_name_report((#[trigger] out@[j])@),
        decreases events@.len() - i,
    {
        let e: InputEvent = events[i];
        assert(events@.take(i + 1).drop_last() =~= events@.take(i as int));
        let ghost before = out@;
        if let InputEvent::Key { code, value } = e {
            if value == 1 {
                let name: String = key_name(code);
                proof {
                    lemma_evdev_names_are_name_reports(code, name@);
                }
                out.push(name);
                assert(text::texts(out@) =~= text::texts(before).push(name@));
            }
        }
        i += 1;
    }
    assert(events@.take(i as int) =~= events@);
    out
}

/// Who listens to the keyboard: this process, or the helper with more rights.
#[derive(Debug, Clone, Copy, PartialEq, Eq, Structural)]
pub enum Listener {
    Direct,
    Helper,
}

/// Who is to listen, by the number of input devices that this process can open: the helper where
/// there is none.
pub fn choose_listener(count: usize) -> (r: Listener)
    ensures
        r == (if count == 0 {
            Listener::Helper
        } else {
            Listener::Direct
        }),
{
    if count == 0 {
        Listener::Helper
    } else {
        Listener::Direct
    }
}

/// What can go wrong with listening. The texts are those of the failed calls.
#[derive(Debug)]
pub enum Fault {
    NoKeyboard,
    Nonblocking(String),
    Grab(String),
    Fetch(String),
    Executable(String),
    Launch(String),
}

/// What marks a report of an error to the editor.
pub open spec fn error_report(message: Seq<char>) -> Seq<char> {
    "__ERR__:"@ + message
}

/// What marks a line of the helper as an error.
pub open spec fn error_line(message: Seq<char>) -> Seq<char> {
    "ERR:"@ + message
}

/// What is said of a fault.
pub open spec fn fault_text(listener: Listener, fault: Fault) -> Seq<char> {
    match fault {
        Fault::NoKeyboard => "No keyboard device found under /dev/input/"@,
        Fault::Nonblocking(e) => "set_nonblocking: "@ + e@,
        Fault::Grab(e) => match listener {
            Listener::Direct => "grab failed ("@ + e@ + ")"@,
            Listener::Helper => "grab failed: "@ + e@,
        },
        Fault::Fetch(e) => match listener {
            Listener::Direct => "fetch_events: "@ + e@,
            Listener::Helper => e@,
        },
        Fault::Executable(e) => "current_exe: "@ + e@,
        Fault::Launch(e) => "pkexec launch failed: "@ + e@,
    }
}

/// How a listener reports a fault: the direct one to the editor, the helper by a line.
pub open spec fn fault_report(listener: Listener, fault: Fault) -> Seq<char> {
    match listener {
        Listener::Direct => error_report(fault_text(listener, fault)),
        Listener::Helper => error_line(fault_text(listener, fault)),
    }
}

/// How a listener reports a fault.
pub fn report_fault(listener: Listener, fault: &Fault) -> (r: String)
    ensures
        r@ == fault_report(listener, *fault),
{
    let message: String = match fault {
        Fault::NoKeyboard => "No keyboard device found under /dev/input/".to_owned(),
        Fault::Nonblocking(e) => text::joined("set_nonblocking: ", e.as_str()),
        Fault::Grab(e) => match listener {
            Listener::Direct => text::joined(
                text::joined("grab failed (", e.as_str()).as_str(),
                ")",
            ),
            Listener::Helper => text::joined("grab failed: ", e.as_str()),
        },
        Fault::Fetch(e) => match listener {
            Listener::Direct => text::joined("fetch_events: ", e.as_str()),
            Listener::Helper => e.clone(),
        },
        Fault::Executable(e) => text::joined("current_exe: ", e.as_str()),
        Fault::Launch(e) => text::joined("pkexec launch failed: ", e.as_str()),
    };
    match listener {
        Listener::Direct => text::joined("__ERR__:", message.as_str()),
        Listener::Helper => text::joined("ERR:", message.as_str()),
    }
}

/// The outcome of asking the device for events.
#[derive(Debug)]
pub enum Fetched {
    Events(Vec<InputEvent>),
    WouldBlock,
    Failed(String),
}

/// What a listener does after it has reported.
#[derive(Debug, Clone, Copy, PartialEq, Eq, Structural)]
pub enum PollNext {
    /// Ask again.
    Again,
    /// Ask again after a pause.
    Pause,
    /// Stop listening and release the device.
    Release,
}

/// What a listener reports of the events, and what it does next.
pub open spec fn poll_outcome(listener: Listener, fetched: Fetched) -> (Seq<Seq<char>>, PollNext) {
    match fetched {
        Fetched::Events(events) => (pressed(events@), PollNext::Again),
        Fetched::WouldBlock => (seq![], PollNext::Pause),
        Fetched::Failed(e) => (
            seq![fault_report(listener, Fault::Fetch(e))],
            PollNext::Release,
        ),
    }
}

/// Decides what a listener reports, in order, and what it does next.
pub fn poll_step(listener: Listener, fetched: Fetched) -> (r: (Vec<String>, PollNext))
    ensures
        (text::texts(r.0@), r.1) == poll_outcome(listener, fetched),
        fetched is Events ==> forall|i: int|
            0 <= i < r.0@.len() ==> is_name_report((#[trigger] r.0@[i])@),
{
    match fetched {
        Fetched::Events(events) => (pressed_keys(events.as_slice()), PollNext::Again),
        Fetched::WouldBlock => {
            let none: Vec<String> = Vec::new();
            assert(text::texts(none@) =~= seq![]);
            (none, PollNext::Pause)
        },
        Fetched::Failed(e) => {
            let fault: Fault = Fault::Fetch(e);
            let mut reports: Vec<String> = Vec::new();
            reports.push(report_fault(listener, &fault));
            assert(text::texts(reports@) =~= seq![fault_report(listener, fault)]);
            (reports, PollNext::Release)
        },
    }
}

/// Where a listener stands: the last thing it did, of which the outcome is to come.
#[derive(Debug)]
pub enum ListenPhase {
    /// It looked for a keyboard.
    Picking,
    /// It grabbed the device for itself.
    Grabbing,
    /// It asked not to be kept waiting for events.
    Unblocking,
    /// It asked for events, or was told to stop.
    Polling,
    /// It paused.
    Pausing,
    /// It released the device; a fault is still to be reported, if there was one.
    Releasing(Option<Fault>),
}

/// What has come of the last thing that a listener did.
#[derive(Debug)]
pub enum ListenEvent {
    /// Whether there is a keyboard.
    Found(bool),
    /// It is done.
    Done,
    /// It failed.
    Failed(String),
    /// It was not done, because listening is to end.
    Stopped,
    /// The outcome of asking for events.
    Fetched(Fetched),
}

/// What a listener does next.
#[derive(Debug, Clone, Copy, PartialEq, Eq, Structural)]
pub enum ListenAction {
    Grab,
    Unblock,
    /// Ask for events, unless listening is to end.
    Poll,
    /// Pause for `PAUSE_MS` milliseconds.
    Pause,
    Ungrab,
    End,
}

/// What a listener reports, what it does next, and where it then stands. The helper grabs the
/// device first and says `OK` when it is ready; the direct listener grabs it last.
pub open spec fn listen_outcome(listener: Listener, phase: ListenPhase, event: ListenEvent) -> (
    Seq<Seq<char>>,
    ListenAction,
    ListenPhase,
) {
    match (phase, event) {
        (ListenPhase::Picking, ListenEvent::Found(true)) => match listener {
            Listener::Direct => (seq![], ListenAction::Unblock, ListenPhase::Unblocking),
            Listener::Helper => (seq![], ListenAction::Grab, ListenPhase::Grabbing),
        },
        (ListenPhase::Picking, _) => (
            seq![fault_report(listener, Fault::NoKeyboard)],
            ListenAction::End,
            ListenPhase::Picking,
        ),
        (ListenPhase::Grabbing, ListenEvent::Failed(e)) => (
            seq![fault_report(listener, Fault::Grab(e))],
            ListenAction::End,
            ListenPhase::Picking,
        ),
        (ListenPhase::Grabbing, _) => match listener {
            Listener::Direct => (seq![], ListenAction::Poll, ListenPhase::Polling),
            Listener::Helper => (seq![], ListenAction::Unblock, ListenPhase::Unblocking),
        },
        (ListenPhase::Unblocking, ListenEvent::Failed(e)) => match listener {
            Listener::Direct => (
                seq![fault_report(listener, Fault::Nonblocking(e))],
                ListenAction::End,
                ListenPhase::Picking,
            ),
            Listener::Helper => (
                seq![],
                ListenAction::Ungrab,
                ListenPhase::Releasing(Some(Fault::Nonblocking(e))),
            ),
        },
        (ListenPhase::Unblocking, _) => match listener {
            Listener::Direct => (seq![], ListenAction::Grab, ListenPhase::Grabbing),
            Listener::Helper => (seq!["OK"@], ListenAction::Poll, ListenPhase::Polling),
        },
        (ListenPhase::Polling, ListenEvent::Fetched(fetched)) => {
            let (reports, next) = poll_outcome(listener, fetched);
            match next {
                PollNext::Again => (reports, ListenAction::Poll, ListenPhase::Polling),
                PollNext::Pause => (reports, ListenAction::Pause, ListenPhase::Pausing),
                PollNext::Release => (
                    reports,
                    ListenAction::Ungrab,
                    ListenPhase::Releasing(None),
                ),
            }
        },
        (ListenPhase::Polling, _) => (seq![], ListenAction::Ungrab, ListenPhase::Releasing(None)),
        (ListenPhase::Pausing, _) => (seq![], ListenAction::Poll, ListenPhase::Polling),
        (ListenPhase::Releasing(Some(fault)), _) => (
            seq![fault_report(listener, fault)],
            ListenAction::End,
            ListenPhase::Picking,
        ),
        (ListenPhase::Releasing(None), _) => (seq![], ListenAction::End, ListenPhase::Picking),
    }
}

fn one(report: String) -> (r: Vec<String>)
    ensures
        text::texts(r@) == seq![report@],
{
    let mut reports: Vec<String> = Vec::new();
    reports.push(report);
    assert(text::texts(reports@) =~= seq![report@]);
    reports
}

/// Decides what a listener reports, in order, what it does next, and where it then stands.
pub fn listen_step(listener: Listener, phase: ListenPhase, event: ListenEvent) -> (r: (
    Vec<String>,
    ListenAction,
    ListenPhase,
))
    ensures
        (text::texts(r.0@), r.1, r.2) == listen_outcome(listener, phase, event),
{
    let none: Vec<String> = Vec::new();
    assert(text::texts(none@) =~= seq![]);
    match phase {
        ListenPhase::Picking => match event {
            ListenEvent::Found(true) => match listener {
                Listener::Direct => (none, ListenAction::Unblock, ListenPhase::Unblocking),
                Listener::Helper => (none, ListenAction::Grab, ListenPhase::Grabbing),
            },
            _ => (
                one(report_fault(listener, &Fault::NoKeyboard)),
                ListenAction::End,
                ListenPhase::Picking,
            ),
        },
        ListenPhase::Grabbing => match event {
            ListenEvent::Failed(e) => (
                one(report_fault(listener, &Fault::Grab(e))),
                ListenAction::End,
                ListenPhase::Picking,
            ),
            _ => match listener {
                Listener::Direct => (none, ListenAction::Poll, ListenPhase::Polling),
                Listener::Helper => (none, ListenAction::Unblock, ListenPhase::Unblocking),
            },
        },
        ListenPhase::Unblocking => match event {
            ListenEvent::Failed(e) => match listener {
                Listener::Direct => (
                    one(report_fault(listener, &Fault::Nonblocking(e))),
                    ListenAction::End,
                    ListenPhase::Picking,
                ),
                Listener::Helper => (
                    none,
                    ListenAction::Ungrab,
                    ListenPhase::Releasing(Some(Fault::Nonblocking(e))),
                ),
            },
            _ => match listener {
                Listener::Direct => (none, ListenAction::Grab, ListenPhase::Grabbing),
                Listener::Helper => (one("OK".to_owned()), ListenAction::Poll, ListenPhase::Polling),
            },
        },
        ListenPhase::Polling => match event {
            ListenEvent::Fetched(fetched) => {
                let (reports, next) = poll_step(listener, fetched);
                match next {
                    PollNext::Again => (reports, ListenAction::Poll, ListenPhase::Polling),
                    PollNext::Pause => (reports, ListenAction::Pause, ListenPhase::Pausing),
                    PollNext::Release => (
                        reports,
                        ListenAction::Ungrab,
                        ListenPhase::Releasing(None),
                    ),
                }
            },
            _ => (none, ListenAction::Ungrab, ListenPhase::Releasing(None)),
        },
        ListenPhase::Pausing => (none, ListenAction::Poll, ListenPhase::Polling),
        ListenPhase::Releasing(fault) => match fault {
            Some(f) => (one(report_fault(listener, &f)), ListenAction::End, ListenPhase::Picking),
            None => (none, ListenAction::End, ListenPhase::Picking),
        },
    }
}

/// What a listener does next once it knows whether its report was taken. Without an editor that
/// takes key names, the direct listener ends, and the device is released with it.
pub fn after_delivery(action: ListenAction, delivered: bool) -> (r: ListenAction)
    ensures
        r == (if action is Poll && !delivered {
            ListenAction::End
        } else {
            action
        }),
{
    match action {
        ListenAction::Poll => if delivered {
            action
        } else {
            ListenAction::End
        },
        _ => action,
    }
}

/// Whether a listener that stands here has grabbed the device.
pub open spec fn has_grabbed(listener: Listener, phase: ListenPhase) -> bool {
    match phase {
        ListenPhase::Unblocking => listener == Listener::Helper,
        ListenPhase::Polling => true,
        ListenPhase::Pausing => true,
        _ => false,
    }
}

/// A listener that has grabbed the device goes on holding it or releases it; it does not end
/// while it holds it.
pub proof fn law_grabbed_device_is_released(
    listener: Listener,
    phase: ListenPhase,
    event: ListenEvent,
)
    requires
        has_grabbed(listener, phase),
    ensures
        ({
            let (reports, action, next) = listen_outcome(listener, phase, event);
            &&& action != ListenAction::End
            &&& has_grabbed(listener, next) || (action == ListenAction::Ungrab && next is Releasing)
        }),
{
}

/// A listener asks for events only while it has grabbed the device, and grabs it only once.
pub proof fn law_only_a_grabbed_device_is_polled(
    listener: Listener,
    phase: ListenPhase,
    event: ListenEvent,
)
    ensures
        ({
            let (reports, action, next) = listen_outcome(listener, phase, event);
            &&& action == ListenAction::Poll ==> next is Polling && has_grabbed(listener, next)
            &&& action == ListenAction::Grab ==> next is Grabbing && !has_grabbed(listener, phase)
        }),
{
}

/// Until it asks for events, the helper writes nothing but one line: the greeting when it is
/// ready, or an error with which it ends.
pub proof fn law_helper_greets_or_fails(phase: ListenPhase, event: ListenEvent)
    requires
        !(phase is Polling),
        !(phase is Pausing),
    ensures
        ({
            let (reports, action, next) = listen_outcome(Listener::Helper, phase, event);
            ||| reports == Seq::<Seq<char>>::empty()
            ||| reports == seq!["OK"@] && next is Polling
            ||| reports.len() == 1 && text::begins_with(reports[0], "ERR:"@) && action
                == ListenAction::End
        }),
{
    let (reports, action, next) = listen_outcome(Listener::Helper, phase, event);
    if reports.len() == 1 && action == ListenAction::End {
        assert forall|fault: Fault| text::begins_with(
            #[trigger] fault_report(Listener::Helper, fault),
            "ERR:"@,
        ) by {
            let s = fault_report(Listener::Helper, fault);
            assert(s.take("ERR:"@.len() as int) =~= "ERR:"@);
        }
    }
}

/// Where the reader of a helper's lines stands.
#[derive(Debug, Clone, Copy, PartialEq, Eq, Structural)]
pub enum HelperPhase {
    /// The first line is to come: `OK`, or an error.
    Greeting,
    /// The helper sends the names of pressed keys, one on a line.
    Streaming,
}

/// The outcome of reading a line from the helper.
#[derive(Debug)]
pub enum HelperRead {
    Line(String),
    End,
    Failed(String),
}

/// What the reader does after it has reported.
#[derive(Debug, Clone, Copy, PartialEq, Eq, Structural)]
pub enum HelperNext {
    /// Read the next line, in this phase.
    Read(HelperPhase),
    /// Stop reading.
    Stop,
    /// Stop reading and wait for the helper to end.
    Reap,
}

/// What the reader reports to the editor, if anything, and what it does next.
pub open spec fn helper_outcome(phase: HelperPhase, read: HelperRead) -> (
    Option<Seq<char>>,
    HelperNext,
) {
    match (phase, read) {
        (HelperPhase::Greeting, HelperRead::End) => (
            Some(
                error_report(
                    "Helper exited without response (authentication cancelled?)"@,
                ),
            ),
            HelperNext::Stop,
        ),
        (HelperPhase::Greeting, HelperRead::Failed(e)) => (
            Some(error_report("Reading helper stdout: "@ + e@)),
            HelperNext::Stop,
        ),
        (HelperPhase::Greeting, HelperRead::Line(line)) => {
            let s = text::trimmed_end(line@);
            if text::begins_with(s, "ERR:"@) {
                (Some(error_report(s.skip("ERR:"@.len() as int))), HelperNext::Stop)
            } else if s != "OK"@ {
                (Some(error_report("Unexpected helper response: "@ + s)), HelperNext::Stop)
            } else {
                (None, HelperNext::Read(HelperPhase::Streaming))
            }
        },
        (HelperPhase::Streaming, HelperRead::Line(line)) => {
            let s = text::trimmed_end(line@);
            if text::begins_with(s, "ERR:"@) {
                (Some(error_report(s.skip("ERR:"@.len() as int))), HelperNext::Reap)
            } else {
                (Some(s), HelperNext::Read(HelperPhase::Streaming))
            }
        },
        (HelperPhase::Streaming, _) => (None, HelperNext::Reap),
    }
}

/// The text of an optional report.
pub open spec fn report_text(report: Option<String>) -> Option<Seq<char>> {
    match report {
        Some(s) => Some(s@),
        None => None,
    }
}

/// Decides what the reader of a helper's lines reports, and what it does next.
pub fn helper_step(phase: HelperPhase, read: &HelperRead) -> (r: (Option<String>, HelperNext))
    ensures
        (report_text(r.0), r.1) == helper_outcome(phase, *read),
{
    match read {
        HelperRead::Line(line) => {
            let s: &str = text::trim_end(line.as_str());
            match text::strip_prefix(s, "ERR:") {
                Some(message) => {
                    let next: HelperNext = match phase {
                        HelperPhase::Greeting => HelperNext::Stop,
                        HelperPhase::Streaming => HelperNext::Reap,
                    };
                    (Some(text::joined("__ERR__:", message)), next)
                },
                None => match phase {
                    HelperPhase::Greeting => {
                        if text::same_text(s, "OK") {
                            (None, HelperNext::Read(HelperPhase::Streaming))
                        } else {
                            let message: String = text::joined("Unexpected helper response: ", s);
                            (Some(text::joined("__ERR__:", message.as_str())), HelperNext::Stop)
                        }
                    },
                    HelperPhase::Streaming => (
                        Some(s.to_owned()),
                        HelperNext::Read(HelperPhase::Streaming),
                    ),
                },
            }
        },
        HelperRead::End => match phase {
            HelperPhase::Greeting => (
                Some(
                    text::joined(
                        "__ERR__:",
                        "Helper exited without response (authentication cancelled?)",
                    ),
                ),
                HelperNext::Stop,
            ),
            HelperPhase::Streaming => (None, HelperNext::Reap),
        },
        HelperRead::Failed(e) => match phase {
            HelperPhase::Greeting => {
                let message: String = text::joined("Reading helper stdout: ", e.as_str());
                (Some(text::joined("__ERR__:", message.as_str())), HelperNext::Stop)
            },
            HelperPhase::Streaming => (None, HelperNext::Reap),
        },
    }
}

/// What the reader does next once it knows whether the editor took its report: without an editor
/// there is nothing more to read for.
pub fn after_report(next: HelperNext, delivered: bool) -> (r: HelperNext)
    ensures
        r == (if next is Read && !delivered {
            HelperNext::Reap
        } else {
            next
        }),
{
    match next {
        HelperNext::Read(_) => if delivered {
            next
        } else {
            HelperNext::Reap
        },
        _ => next,
    }
}

/// The helper's line for a fault reaches the editor as a report of that fault, less the white
/// space at its end.
pub proof fn law_helper_faults_arrive(phase: HelperPhase, fault: Fault, line: String)
    requires
        line@ == fault_report(Listener::Helper, fault) + "\n"@,
    ensures
        helper_outcome(phase, HelperRead::Line(line)).0 == Some(
            error_report(text::trimmed_end(fault_text(Listener::Helper, fault))),
        ),
{
    let message = fault_text(Listener::Helper, fault);
    lemma_line_end(error_line(message));
    lemma_trimmed_error_line(message);
    let s = error_line(text::trimmed_end(message));
    assert(s.take("ERR:"@.len() as int) =~= "ERR:"@);
    assert(s.skip("ERR:"@.len() as int) =~= text::trimmed_end(message));
}

proof fn lemma_trimmed_error_line(message: Seq<char>)
    ensures
        text::trimmed_end(error_line(message)) == error_line(text::trimmed_end(message)),
    decreases message.len(),
{
    let s = error_line(message);
    reveal_strlit("ERR:");
    if message.len() == 0 {
        assert(s =~= "ERR:"@);
    } else {
        assert(s.last() == message.last());
        if text::is_white_space(message.last()) {
            assert(s.drop_last() =~= error_line(message.drop_last()));
            lemma_trimmed_error_line(message.drop_last());
        }
    }
}

proof fn lemma_line_end(s: Seq<char>)
    ensures
        text::trimmed_end(s + "\n"@) == text::trimmed_end(s),
{
    reveal_strlit("\n");
    let line = s + "\n"@;
    assert(line.last() == '\n');
    assert(line.drop_last() =~= s);
}

/// A line of the helper that is no error reaches the editor, less the white space at its end, and
/// the stream goes on.
pub proof fn law_helper_names_arrive(name: Seq<char>, line: String)
    requires
        line@ == name + "\n"@,
        !text::begins_with(text::trimmed_end(name), "ERR:"@),
    ensures
        helper_outcome(HelperPhase::Streaming, HelperRead::Line(line)) == (
            Some(text::trimmed_end(name)),
            HelperNext::Read(HelperPhase::Streaming),
        ),
{
    lemma_line_end(name);
}

/// The device to take has key events and LEDs and no relative axes. Among all such devices one of
/// the preferred vendor goes before the others, then one with more keys, then the first.
pub proof fn law_pick_is_the_best_keyboard(devices: Seq<InputDevice>, pick: int, other: int)
    requires
        is_pick(devices, pick),
        0 <= other < devices.len(),
        devices[other].has_keys && devices[other].has_leds && !devices[other].has_relative,
    ensures
        0 <= pick < devices.len(),
        devices[pick].has_keys && devices[pick].has_leds && !devices[pick].has_relative,
        devices[other].vendor == 0x1e7d ==> devices[pick].vendor == 0x1e7d,
        (devices[other].vendor == 0x1e7d) == (devices[pick].vendor == 0x1e7d) ==> {
            ||| devices[pick].key_count > devices[other].key_count
            ||| devices[pick].key_count == devices[other].key_count && pick <= other
        },
{
    assert(is_keyboard(devices[other]));
}

/// A device is a keyboard for its key events, its LEDs and its lack of relative axes alone, whoever
/// made it and however many keys it has.
pub proof fn law_keyboards_are_told_by_their_events(d: InputDevice)
    ensures
        is_keyboard(d) == (d.has_keys && d.has_leds && !d.has_relative),
{
}

/// A key that goes down is reported by its name. Keys that go up or repeat, and other events, are
/// not reported.
pub proof fn law_only_keys_that_go_down_are_named(code: u16, value: i32)
    ensures
        pressed(seq![InputEvent::Key { code, value: 1 }]) == seq![evdev_key_name(code)],
        value != 1 ==> pressed(seq![InputEvent::Key { code, value }]) == Seq::<Seq<char>>::empty(),
        pressed(seq![InputEvent::Other]) == Seq::<Seq<char>>::empty(),
        pressed(Seq::empty()) == Seq::<Seq<char>>::empty(),
{
    reveal_with_fuel(pressed, 2);
    assert(seq![InputEvent::Key { code, value: 1 }].drop_last() =~= seq![]);
    assert(seq![InputEvent::Key { code, value }].drop_last() =~= seq![]);
    assert(seq![InputEvent::Other].drop_last() =~= seq![]);
    assert(pressed(seq![InputEvent::Key { code, value: 1 }]) =~= seq![evdev_key_name(code)]);
}

/// Events are named in their order, each by itself: what two rows of events name together is what
/// the first names and then what the second names.
pub proof fn law_events_are_named_in_order(a: Seq<InputEvent>, b: Seq<InputEvent>)
    ensures
        pressed(a + b) == pressed(a) + pressed(b),
    decreases b.len(),
{
    if b.len() == 0 {
        assert(a + b =~= a);
        assert(pressed(a) + pressed(b) =~= pressed(a));
    } else {
        assert((a + b).drop_last() =~= a + b.drop_last());
        assert((a + b).last() == b.last());
        law_events_are_named_in_order(a, b.drop_last());
        assert(pressed(a + b) =~= pressed(a) + pressed(b));
    }
}

/// Whoever listens, the names of all keys that go down are reported, in order and nothing else, and
/// listening goes on.
pub proof fn law_pressed_keys_are_reported(listener: Listener, events: Vec<InputEvent>)
    ensures
        poll_outcome(listener, Fetched::Events(events)) == (pressed(events@), PollNext::Again),
        listen_outcome(
            listener,
            ListenPhase::Polling,
            ListenEvent::Fetched(Fetched::Events(events)),
        ) == (pressed(events@), ListenAction::Poll, ListenPhase::Polling),
{
}

/// Where no event is waiting, a listener pauses and then asks again, and reports nothing.
pub proof fn law_listener_waits_for_events(listener: Listener, event: ListenEvent)
    ensures
        poll_outcome(listener, Fetched::WouldBlock) == (
            Seq::<Seq<char>>::empty(),
            PollNext::Pause,
        ),
        listen_outcome(listener, ListenPhase::Polling, ListenEvent::Fetched(Fetched::WouldBlock))
            == (Seq::<Seq<char>>::empty(), ListenAction::Pause, ListenPhase::Pausing),
        listen_outcome(listener, ListenPhase::Pausing, event) == (
            Seq::<Seq<char>>::empty(),
            ListenAction::Poll,
            ListenPhase::Polling,
        ),
        PAUSE_MS == 10,
{
}

/// An error while listening is reported, and the device is released.
pub proof fn law_listener_reports_lost_devices(listener: Listener, e: String)
    ensures
        poll_outcome(listener, Fetched::Failed(e)) == (
            seq![fault_report(listener, Fault::Fetch(e))],
            PollNext::Release,
        ),
        listen_outcome(
            listener,
            ListenPhase::Polling,
            ListenEvent::Fetched(Fetched::Failed(e)),
        ) == (
            seq![fault_report(listener, Fault::Fetch(e))],
            ListenAction::Ungrab,
            ListenPhase::Releasing(None),
        ),
{
}

/// A listener that is to stop releases the device without a report. Once the device is released it
/// ends, and reports the fault that it has put off, if there is one.
pub proof fn law_listener_releases_and_ends(
    listener: Listener,
    stop: ListenEvent,
    fault: Fault,
    event: ListenEvent,
)
    requires
        !(stop is Fetched),
    ensures
        listen_outcome(listener, ListenPhase::Polling, stop) == (
            Seq::<Seq<char>>::empty(),
            ListenAction::Ungrab,
            ListenPhase::Releasing(None),
        ),
        listen_outcome(listener, ListenPhase::Releasing(None), event) == (
            Seq::<Seq<char>>::empty(),
            ListenAction::End,
            ListenPhase::Picking,
        ),
        listen_outcome(listener, ListenPhase::Releasing(Some(fault)), event) == (
            seq![fault_report(listener, fault)],
            ListenAction::End,
            ListenPhase::Picking,
        ),
{
}

/// The direct listener asks not to be kept waiting, grabs the keyboard and then listens. It ends
/// with a report where there is no keyboard or one of these fails.
pub proof fn law_direct_listener_starts(event: ListenEvent, e: String)
    ensures
        ({
            let l = Listener::Direct;
            let none = Seq::<Seq<char>>::empty();
            &&& listen_outcome(l, ListenPhase::Picking, ListenEvent::Found(true)) == (
                none,
                ListenAction::Unblock,
                ListenPhase::Unblocking,
            )
            &&& !(event is Failed) ==> listen_outcome(l, ListenPhase::Unblocking, event) == (
                none,
                ListenAction::Grab,
                ListenPhase::Grabbing,
            )
            &&& !(event is Failed) ==> listen_outcome(l, ListenPhase::Grabbing, event) == (
                none,
                ListenAction::Poll,
                ListenPhase::Polling,
            )
            &&& event != ListenEvent::Found(true) ==> listen_outcome(l, ListenPhase::Picking, event)
                == (
                seq![fault_report(l, Fault::NoKeyboard)],
                ListenAction::End,
                ListenPhase::Picking,
            )
            &&& listen_outcome(l, ListenPhase::Unblocking, ListenEvent::Failed(e)) == (
                seq![fault_report(l, Fault::Nonblocking(e))],
                ListenAction::End,
                ListenPhase::Picking,
            )
            &&& listen_outcome(l, ListenPhase::Grabbing, ListenEvent::Failed(e)) == (
                seq![fault_report(l, Fault::Grab(e))],
                ListenAction::End,
                ListenPhase::Picking,
            )
        }),
{
}

/// The helper grabs the keyboard, asks not to be kept waiting, greets and then listens. It ends
/// with a report where there is no keyboard or one of these fails, but releases the keyboard first
/// where it has grabbed it.
pub proof fn law_helper_starts(event: ListenEvent, e: String)
    ensures
        ({
            let l = Listener::Helper;
            let none = Seq::<Seq<char>>::empty();
            &&& listen_outcome(l, ListenPhase::Picking, ListenEvent::Found(true)) == (
                none,
                ListenAction::Grab,
                ListenPhase::Grabbing,
            )
            &&& !(event is Failed) ==> listen_outcome(l, ListenPhase::Grabbing, event) == (
                none,
                ListenAction::Unblock,
                ListenPhase::Unblocking,
            )
            &&& !(event is Failed) ==> listen_outcome(l, ListenPhase::Unblocking, event) == (
                seq!["OK"@],
                ListenAction::Poll,
                ListenPhase::Polling,
            )
            &&& event != ListenEvent::Found(true) ==> listen_outcome(l, ListenPhase::Picking, event)
                == (
                seq![fault_report(l, Fault::NoKeyboard)],
                ListenAction::End,
                ListenPhase::Picking,
            )
            &&& listen_outcome(l, ListenPhase::Grabbing, ListenEvent::Failed(e)) == (
                seq![fault_report(l, Fault::Grab(e))],
                ListenAction::End,
                ListenPhase::Picking,
            )
            &&& listen_outcome(l, ListenPhase::Unblocking, ListenEvent::Failed(e)) == (
                none,
                ListenAction::Ungrab,
                ListenPhase::Releasing(Some(Fault::Nonblocking(e))),
            )
        }),
{
}

/// Faults are told with the text of the failed call; the direct listener tells the editor, the
/// helper writes a line.
pub proof fn law_faults_tell_what_failed(listener: Listener, fault: Fault, e: String)
    ensures
        fault_report(Listener::Direct, fault) == "__ERR__:"@ + fault_text(Listener::Direct, fault),
        fault_report(Listener::Helper, fault) == "ERR:"@ + fault_text(Listener::Helper, fault),
        fault_text(listener, Fault::NoKeyboard) == "No keyboard device found under /dev/input/"@,
        fault_text(listener, Fault::Nonblocking(e)) == "set_nonblocking: "@ + e@,
        fault_text(listener, Fault::Executable(e)) == "current_exe: "@ + e@,
        fault_text(listener, Fault::Launch(e)) == "pkexec launch failed: "@ + e@,
        fault_text(Listener::Direct, Fault::Grab(e)) == "grab failed ("@ + e@ + ")"@,
        fault_text(Listener::Helper, Fault::Grab(e)) == "grab failed: "@ + e@,
        fault_text(Listener::Direct, Fault::Fetch(e)) == "fetch_events: "@ + e@,
        fault_text(Listener::Helper, Fault::Fetch(e)) == e@,
{
}

/// The first line of a helper decides whether it is heard: after `OK` its lines are read, after
/// anything else reading stops with an error that repeats the line.
pub proof fn law_greeting_decides(line: String, e: String, message: Seq<char>)
    ensures
        ({
            let said = text::trimmed_end(line@);
            let (report, next) = helper_outcome(HelperPhase::Greeting, HelperRead::Line(line));
            &&& said == "OK"@ ==> report is None && next == HelperNext::Read(HelperPhase::Streaming)
            &&& said != "OK"@ ==> next == HelperNext::Stop
            &&& said == "ERR:"@ + message ==> report == Some("__ERR__:"@ + message)
            &&& said != "OK"@ && !text::begins_with(said, "ERR:"@) ==> report == Some(
                "__ERR__:"@ + ("Unexpected helper response: "@ + said),
            )
        }),
        helper_outcome(HelperPhase::Greeting, HelperRead::End) == (
            Some(
                "__ERR__:"@ + "Helper exited without response (authentication cancelled?)"@,
            ),
            HelperNext::Stop,
        ),
        helper_outcome(HelperPhase::Greeting, HelperRead::Failed(e)) == (
            Some("__ERR__:"@ + ("Reading helper stdout: "@ + e@)),
            HelperNext::Stop,
        ),
{
    let said = text::trimmed_end(line@);
    reveal_strlit("OK");
    reveal_strlit("ERR:");
    if said == "ERR:"@ + message {
        text::law_prefix_and_rest("ERR:"@, message, said);
    }
    assert("OK"@.len() < "ERR:"@.len());
}

/// Every further line of a helper is passed on as it is, but an error ends the reading; so does the
/// end of the lines, without a report.
pub proof fn law_lines_are_passed_on(line: String, e: String, message: Seq<char>)
    ensures
        ({
            let said = text::trimmed_end(line@);
            let (report, next) = helper_outcome(HelperPhase::Streaming, HelperRead::Line(line));
            &&& said == "ERR:"@ + message ==> report == Some("__ERR__:"@ + message) && next
                == HelperNext::Reap
            &&& !text::begins_with(said, "ERR:"@) ==> report == Some(said) && next
                == HelperNext::Read(HelperPhase::Streaming)
        }),
        helper_outcome(HelperPhase::Streaming, HelperRead::End) == (
            None::<Seq<char>>,
            HelperNext::Reap,
        ),
        helper_outcome(HelperPhase::Streaming, HelperRead::Failed(e)) == (
            None::<Seq<char>>,
            HelperNext::Reap,
        ),
{
    let said = text::trimmed_end(line@);
    if said == "ERR:"@ + message {
        text::law_prefix_and_rest("ERR:"@, message, said);
    }
}

/// The text of a report is that of its string.
pub proof fn law_report_text_is_the_report(report: String)
    ensures
        report_text(Some(report)) == Some(report@),
        report_text(None) is None,
{
}

} // verus!
