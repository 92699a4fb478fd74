//! The commands of the tool: what each does to the state, and what follows from it outside.
use crate::keys;
use crate::keys::{KeyError, LED_COUNT};
use crate::state;
use crate::state::{Rgb, State};
use crate::text;
use vstd::prelude::*;
use vstd::string::*;

verus! {

/// A command of the user.
#[derive(Debug)]
pub enum Command {
    Get { key: Option<String>, index: Option<usize> },
    SetKey {
        key: Option<String>,
        index: Option<usize>,
        r: u8,
        g: u8,
        b: u8,
        dry_run: bool,
        no_init: bool,
    },
    SetAll { r: u8, g: u8, b: u8, dry_run: bool, no_init: bool },
    ListKeys,
    Reset { dry_run: bool, no_init: bool },
}

/// Something to be done outside, in the order of a list. The first that fails ends the list.
#[derive(Debug)]
pub enum Action {
    /// Print a line.
    Print(String),
    /// Give the keyboard the frame that shows the state, after the init sequence if asked for.
    WriteFrame { initialize: bool },
    /// Store the state.
    Save,
}

/// What an `Action` says, with its line as text.
pub enum Act {
    Print(Seq<char>),
    WriteFrame(bool),
    Save,
}

impl View for Action {
    type V = Act;

    open spec fn view(&self) -> Act {
        match self {
            Action::Print(line) => Act::Print(line@),
            Action::WriteFrame { initialize } => Act::WriteFrame(*initialize),
            Action::Save => Act::Save,
        }
    }
}

/// What a list of actions says.
pub open spec fn acts(actions: Seq<Action>) -> Seq<Act> {
    actions.map_values(|a: Action| a@)
}

/// A colour as `(r, g, b)`.
pub open spec fn rgb_text(c: Rgb) -> Seq<char> {
    "("@ + text::decimal(c.r as nat) + ", "@ + text::decimal(c.g as nat) + ", "@ + text::decimal(
        c.b as nat,
    ) + ")"@
}

pub open spec fn get_text(led: nat, color: Rgb) -> Seq<char> {
    "key="@ + text::decimal(led) + " rgb="@ + rgb_text(color)
}

pub open spec fn source_text(path: Seq<char>) -> Seq<char> {
    "source=tracked-state ("@ + path + ")"@
}

pub open spec fn set_text(led: nat, before: Rgb, after: Rgb) -> Seq<char> {
    "key="@ + text::decimal(led) + " old="@ + rgb_text(before) + " new="@ + rgb_text(after)
}

/// The actions that bring a frame to the keyboard, or say that it is not.
pub open spec fn show_acts(dry_run: bool, no_init: bool) -> Seq<Act> {
    if dry_run {
        seq![Act::Print("dry-run: not writing to device"@)]
    } else {
        seq![Act::WriteFrame(!no_init), Act::Print("device-write=ok"@)]
    }
}

/// What a command makes of the LED map, and the actions that follow; or why it is refused.
pub open spec fn effect(command: Command, leds: Seq<Rgb>, path: Seq<char>) -> Result<
    (Seq<Rgb>, Seq<Act>),
    keys::KeyFault,
> {
    match command {
        Command::Get { key, index } => match keys::resolved(keys::key_text(key), index) {
            Ok(led) => Ok(
                (
                    leds,
                    seq![
                        Act::Print(get_text(led, leds[led as int])),
                        Act::Print(source_text(path)),
                    ],
                ),
            ),
            Err(e) => Err(e),
        },
        Command::SetKey { key, index, r, g, b, dry_run, no_init } => match keys::resolved(
            keys::key_text(key),
            index,
        ) {
            Ok(led) => Ok(
                (
                    leds.update(led as int, Rgb { r, g, b }),
                    seq![Act::Print(set_text(led, leds[led as int], Rgb { r, g, b }))] + show_acts(
                        dry_run,
                        no_init,
                    ) + seq![Act::Save],
                ),
            ),
            Err(e) => Err(e),
        },
        Command::SetAll { r, g, b, dry_run, no_init } => Ok(
            (
                state::uniform(Rgb { r, g, b }, LED_COUNT as nat),
                seq![Act::Print("set-all rgb="@ + rgb_text(Rgb { r, g, b }))] + show_acts(
                    dry_run,
                    no_init,
                ) + seq![Act::Save],
            ),
        ),
        Command::ListKeys => Ok(
            (
                leds,
                Seq::new(
                    keys::KEY_ALIASES@.len(),
                    |row: int| Act::Print(keys::listed_row(row)),
                ),
            ),
        ),
        Command::Reset { dry_run, no_init } => Ok(
            (
                state::uniform(state::black(), LED_COUNT as nat),
                show_acts(dry_run, no_init) + seq![Act::Save, Act::Print("reset to all black"@)],
            ),
        ),
    }
}

fn push_rgb(out: &mut String, c: Rgb)
    ensures
        final(out)@ == old(out)@ + rgb_text(c),
{
    out.append("(");
    text::push_decimal(out, c.r as usize);
    out.append(", ");
    text::push_decimal(out, c.g as usize);
    out.append(", ");
    text::push_decimal(out, c.b as usize);
    out.append(")");
    assert(out@ =~= old(out)@ + rgb_text(c));
}

fn push_show(actions: &mut Vec<Action>, dry_run: bool, no_init: bool)
    ensures
        acts(final(actions)@) == acts(old(actions)@) + show_acts(dry_run, no_init),
{
    if dry_run {
        actions.push(Action::Print("dry-run: not writing to device".to_owned()));
    } else {
        actions.push(Action::WriteFrame { initialize: !no_init });
        actions.push(Action::Print("device-write=ok".to_owned()));
    }
    assert(acts(actions@) =~= acts(old(actions)@) + show_acts(dry_run, no_init));
}

/// Carries out a command on the state and returns what is to be done outside. `state_file` is
/// the path of the stored state, for the user to read.
pub fn execute(command: Command, state: &mut State, state_file: &str) -> (r: Result<
    Vec<Action>,
    KeyError,
>)
    requires
        old(state).wf(),
    ensures
        final(state).wf(),
        match r {
            Ok(actions) => effect(command, old(state).leds@, state_file@) == Ok::<
                (Seq<Rgb>, Seq<Act>),
                keys::KeyFault,
            >((final(state).leds@, acts(actions@))),
            Err(e) => {
                &&& effect(command, old(state).leds@, state_file@) == Err::<
                    (Seq<Rgb>, Seq<Act>),
                    keys::KeyFault,
                >(e@)
                &&& final(state).leds@ == old(state).leds@
            },
        },
{
    let ghost leds = state.leds@;
    let mut actions: Vec<Action> = Vec::new();
    match command {
        Command::Get { key, index } => {
            let led: usize = match keys::resolve_key_spec(key, index) {
                Ok(led) => led,
                Err(e) => return Err(e),
            };
            let mut line: String = "key=".to_owned();
            text::push_decimal(&mut line, led);
            line.append(" rgb=");
            push_rgb(&mut line, state.get(led));
            actions.push(Action::Print(line));
            let mut source: String = "source=tracked-state (".to_owned();
            source.append(state_file);
            source.append(")");
            actions.push(Action::Print(source));
            assert(acts(actions@) =~= effect(command, leds, state_file@)->Ok_0.1);
        },
        Command::SetKey { key, index, r, g, b, dry_run, no_init } => {
            let led: usize = match keys::resolve_key_spec(key, index) {
                Ok(led) => led,
                Err(e) => return Err(e),
            };
            let after: Rgb = Rgb { r, g, b };
            let before: Rgb = state.set(led, after);
            let mut line: String = "key=".to_owned();
            text::push_decimal(&mut line, led);
            line.append(" old=");
            push_rgb(&mut line, before);
            line.append(" new=");
            push_rgb(&mut line, after);
            actions.push(Action::Print(line));
            assert(acts(actions@) =~= seq![Act::Print(line@)]);
            push_show(&mut actions, dry_run, no_init);
            let ghost shown = actions@;
            actions.push(Action::Save);
            assert(acts(actions@) =~= acts(shown).push(Act::Save));
            assert(acts(actions@) =~= effect(command, leds, state_file@)->Ok_0.1);
        },
        Command::SetAll { r, g, b, dry_run, no_init } => {
            let color: Rgb = Rgb { r, g, b };
            state.set_all(color);
            let mut line: String = "set-all rgb=".to_owned();
            push_rgb(&mut line, color);
            actions.push(Action::Print(line));
            assert(acts(actions@) =~= seq![Act::Print(line@)]);
            push_show(&mut actions, dry_run, no_init);
            let ghost shown = actions@;
            actions.push(Action::Save);
            assert(acts(actions@) =~= acts(shown).push(Act::Save));
            assert(acts(actions@) =~= effect(command, leds, state_file@)->Ok_0.1);
        },
        Command::ListKeys => {
            let lines: Vec<String> = keys::list_keys();
            let mut i: usize = 0;
            while i < lines.len()
                invariant
                    i <= lines@.len(),
                    lines@.len() == keys::KEY_ALIASES@.len(),
                    forall|row: int|
                        0 <= row < lines@.len() ==> (#[trigger] lines@[row])@ == keys::listed_row(
                            row,
                        ),
                    actions@.len() == i,
                    forall|row: int|
                        0 <= row < i ==> (#[trigger] actions@[row])@ == Act::Print(
                            keys::listed_row(row),
                        ),
                decreases lines@.len() - i,
            {
                actions.push(Action::Print(lines[i].clone()));
                i += 1;
            }
            assert(acts(actions@) =~= effect(command, leds, state_file@)->Ok_0.1);
        },
        Command::Reset { dry_run, no_init } => {
            state.set_all(Rgb::default());
            push_show(&mut actions, dry_run, no_init);
            actions.push(Action::Save);
            actions.push(Action::Print("reset to all black".to_owned()));
            assert(acts(actions@) =~= effect(command, leds, state_file@)->Ok_0.1);
        },
    }
    Ok(actions)
}

/// After a colour was set, getting the key shows it, whether or not the frame was written.
pub proof fn law_get_shows_what_was_set(
    leds: Seq<Rgb>,
    key: Option<String>,
    index: Option<usize>,
    color: Rgb,
    dry_run: bool,
    no_init: bool,
    path: Seq<char>,
)
    requires
        leds.len() == LED_COUNT,
        keys::resolved(keys::key_text(key), index) is Ok,
    ensures
        ({
            let led = keys::resolved(keys::key_text(key), index)->Ok_0;
            let set = effect(
                Command::SetKey {
                    key,
                    index,
                    r: color.r,
                    g: color.g,
                    b: color.b,
                    dry_run,
                    no_init,
                },
                leds,
                path,
            );
            &&& set is Ok
            &&& effect(Command::Get { key, index }, set->Ok_0.0, path) == Ok::<
                (Seq<Rgb>, Seq<Act>),
                keys::KeyFault,
            >(
                (
                    set->Ok_0.0,
                    seq![Act::Print(get_text(led, color)), Act::Print(source_text(path))],
                ),
            )
        }),
{
    if let Some(name) = key {
        keys::law_resolved_led_exists(name@);
    }
}

/// Setting a key leaves every other LED as it was.
pub proof fn law_set_keeps_the_other_leds(
    leds: Seq<Rgb>,
    key: Option<String>,
    index: Option<usize>,
    color: Rgb,
    dry_run: bool,
    no_init: bool,
    path: Seq<char>,
    other: int,
)
    requires
        leds.len() == LED_COUNT,
        keys::resolved(keys::key_text(key), index) is Ok,
        0 <= other < LED_COUNT,
        other != keys::resolved(keys::key_text(key), index)->Ok_0,
    ensures
        effect(
            Command::SetKey { key, index, r: color.r, g: color.g, b: color.b, dry_run, no_init },
            leds,
            path,
        )->Ok_0.0[other] == leds[other],
{
    if let Some(name) = key {
        keys::law_resolved_led_exists(name@);
    }
}

/// After all keys were set, getting any key shows the common colour.
pub proof fn law_get_shows_what_was_set_for_all(
    leds: Seq<Rgb>,
    key: Option<String>,
    index: Option<usize>,
    color: Rgb,
    dry_run: bool,
    no_init: bool,
    path: Seq<char>,
)
    requires
        keys::resolved(keys::key_text(key), index) is Ok,
    ensures
        ({
            let led = keys::resolved(keys::key_text(key), index)->Ok_0;
            let set = effect(
                Command::SetAll { r: color.r, g: color.g, b: color.b, dry_run, no_init },
                leds,
                path,
            );
            &&& set is Ok
            &&& effect(Command::Get { key, index }, set->Ok_0.0, path)->Ok_0.1 == seq![
                Act::Print(get_text(led, color)),
                Act::Print(source_text(path)),
            ]
        }),
{
    if let Some(name) = key {
        keys::law_resolved_led_exists(name@);
    }
}

/// A reset leaves the state that setting all keys to black leaves.
pub proof fn law_reset_is_all_black(
    leds: Seq<Rgb>,
    dry_run: bool,
    no_init: bool,
    path: Seq<char>,
)
    ensures
        effect(Command::Reset { dry_run, no_init }, leds, path)->Ok_0.0 == effect(
            Command::SetAll { r: 0, g: 0, b: 0, dry_run, no_init },
            leds,
            path,
        )->Ok_0.0,
{
}

/// Whether a command is a dry run.
pub open spec fn is_dry_run(command: Command) -> bool {
    match command {
        Command::SetKey { dry_run, .. } => dry_run,
        Command::SetAll { dry_run, .. } => dry_run,
        Command::Reset { dry_run, .. } => dry_run,
        _ => false,
    }
}

/// Whether a command changes colours.
pub open spec fn is_change(command: Command) -> bool {
    command is SetKey || command is SetAll || command is Reset
}

/// Whether a command asks to leave out the init sequence.
pub open spec fn skips_init(command: Command) -> bool {
    match command {
        Command::SetKey { no_init, .. } => no_init,
        Command::SetAll { no_init, .. } => no_init,
        Command::Reset { no_init, .. } => no_init,
        _ => false,
    }
}

/// A dry run writes nothing to the keyboard, and stores the state all the same.
pub proof fn law_dry_run_writes_no_frame(command: Command, leds: Seq<Rgb>, path: Seq<char>)
    requires
        is_dry_run(command),
        effect(command, leds, path) is Ok,
    ensures
        ({
            let todo = effect(command, leds, path)->Ok_0.1;
            &&& forall|i: int| 0 <= i < todo.len() ==> !(#[trigger] todo[i] is WriteFrame)
            &&& todo.contains(Act::Save)
        }),
{
    let todo = effect(command, leds, path)->Ok_0.1;
    let at: int = if command is Reset {
        1
    } else {
        2
    };
    assert(todo[at] == Act::Save);
}

/// A change that is no dry run writes the frame, with the init sequence unless that is to be left
/// out, and stores the state only after the frame was written.
pub proof fn law_change_is_stored_after_it_is_shown(
    command: Command,
    leds: Seq<Rgb>,
    path: Seq<char>,
)
    requires
        is_change(command),
        !is_dry_run(command),
        effect(command, leds, path) is Ok,
    ensures
        ({
            let todo = effect(command, leds, path)->Ok_0.1;
            let at: int = if command is Reset {
                0
            } else {
                1
            };
            &&& todo.len() > at + 2
            &&& todo[at] == Act::WriteFrame(!skips_init(command))
            &&& todo[at + 2] == Act::Save
            &&& forall|k: int| 0 <= k < todo.len() && k != at + 2 ==> !(#[trigger] todo[k] is Save)
        }),
{
}

/// Getting and listing change no colour, write no frame and store nothing.
pub proof fn law_reading_changes_nothing(command: Command, leds: Seq<Rgb>, path: Seq<char>)
    requires
        !is_change(command),
        effect(command, leds, path) is Ok,
    ensures
        effect(command, leds, path)->Ok_0.0 == leds,
        forall|i: int|
            0 <= i < effect(command, leds, path)->Ok_0.1.len() ==> #[trigger] effect(
                command,
                leds,
                path,
            )->Ok_0.1[i] is Print,
{
}

/// What an action says is what it does.
pub proof fn law_acts_say_the_actions(actions: Seq<Action>, i: int)
    requires
        0 <= i < actions.len(),
    ensures
        acts(actions).len() == actions.len(),
        match actions[i] {
            Action::Print(line) => acts(actions)[i] == Act::Print(line@),
            Action::WriteFrame { initialize } => acts(actions)[i] == Act::WriteFrame(initialize),
            Action::Save => acts(actions)[i] == Act::Save,
        },
{
}

/// A colour is written with its red, green and blue channel, in this order.
pub proof fn law_colors_are_written_in_order(r: u8, g: u8, b: u8)
    ensures
        rgb_text(Rgb { r, g, b }) == "("@ + text::decimal(r as nat) + ", "@ + text::decimal(
            g as nat,
        ) + ", "@ + text::decimal(b as nat) + ")"@,
{
}

/// Getting a key prints its LED with the colour that is tracked for it, and where that is stored.
pub proof fn law_get_prints_the_tracked_color(
    leds: Seq<Rgb>,
    key: Option<String>,
    index: Option<usize>,
    path: Seq<char>,
    led: nat,
)
    requires
        keys::resolved(keys::key_text(key), index) == Ok::<nat, keys::KeyFault>(led),
    ensures
        ({
            let (after, todo) = effect(Command::Get { key, index }, leds, path)->Ok_0;
            &&& effect(Command::Get { key, index }, leds, path) is Ok
            &&& after == leds
            &&& todo.len() == 2
            &&& todo[0] == Act::Print(
                "key="@ + text::decimal(led) + " rgb="@ + rgb_text(leds[led as int]),
            )
            &&& todo[1] == Act::Print("source=tracked-state ("@ + path + ")"@)
        }),
{
}

/// Setting a key prints, as its old colour, the one that getting it would have shown just before,
/// and as its new colour, the one that getting it shows from then on.
pub proof fn law_set_prints_old_and_new_color(
    leds: Seq<Rgb>,
    key: Option<String>,
    index: Option<usize>,
    color: Rgb,
    dry_run: bool,
    no_init: bool,
    path: Seq<char>,
    led: nat,
)
    requires
        leds.len() == LED_COUNT,
        keys::resolved(keys::key_text(key), index) == Ok::<nat, keys::KeyFault>(led),
    ensures
        ({
            let get = Command::Get { key, index };
            let set = Command::SetKey {
                key,
                index,
                r: color.r,
                g: color.g,
                b: color.b,
                dry_run,
                no_init,
            };
            let (after, todo) = effect(set, leds, path)->Ok_0;
            let front = "key="@ + text::decimal(led);
            let old_text = rgb_text(leds[led as int]);
            let new_text = rgb_text(color);
            &&& effect(set, leds, path) is Ok
            &&& todo.len() > 0
            &&& todo[0] == Act::Print(front + " old="@ + old_text + " new="@ + new_text)
            &&& effect(get, leds, path)->Ok_0.1[0] == Act::Print(front + " rgb="@ + old_text)
            &&& effect(get, after, path)->Ok_0.1[0] == Act::Print(front + " rgb="@ + new_text)
            &&& after.len() == leds.len()
            &&& after[led as int] == color
            &&& forall|other: int|
                0 <= other < leds.len() && other != led ==> #[trigger] after[other] == leds[other]
        }),
{
    if let Some(name) = key {
        keys::law_resolved_led_exists(name@);
    }
}

/// Setting all keys prints the colour, and gives it to every LED whatever it had.
pub proof fn law_set_all_colors_every_led(
    leds: Seq<Rgb>,
    color: Rgb,
    dry_run: bool,
    no_init: bool,
    path: Seq<char>,
    led: int,
)
    requires
        0 <= led < LED_COUNT,
    ensures
        ({
            let set = Command::SetAll { r: color.r, g: color.g, b: color.b, dry_run, no_init };
            let (after, todo) = effect(set, leds, path)->Ok_0;
            &&& effect(set, leds, path) is Ok
            &&& after.len() == LED_COUNT
            &&& after[led] == color
            &&& todo.len() > 0
            &&& todo[0] == Act::Print("set-all rgb="@ + rgb_text(color))
        }),
{
}

/// A reset leaves every LED dark, whatever it had, and says so at the end.
pub proof fn law_reset_darkens_every_led(
    leds: Seq<Rgb>,
    dry_run: bool,
    no_init: bool,
    path: Seq<char>,
    led: int,
)
    requires
        0 <= led < LED_COUNT,
    ensures
        ({
            let (after, todo) = effect(Command::Reset { dry_run, no_init }, leds, path)->Ok_0;
            &&& effect(Command::Reset { dry_run, no_init }, leds, path) is Ok
            &&& after.len() == LED_COUNT
            &&& after[led].r == 0 && after[led].g == 0 && after[led].b == 0
            &&& todo.len() > 0
            &&& todo.last() == Act::Print("reset to all black"@)
        }),
{
}

/// A change is written to the keyboard, with the init sequence unless it is to be left out, and
/// stored after that; a dry run says that it does not write, and stores the change all the same.
pub proof fn law_changes_are_shown_and_stored(
    command: Command,
    leds: Seq<Rgb>,
    path: Seq<char>,
    dry: bool,
    bare: bool,
)
    requires
        effect(command, leds, path) is Ok,
        match command {
            Command::SetKey { dry_run, no_init, .. } => dry_run == dry && no_init == bare,
            Command::SetAll { dry_run, no_init, .. } => dry_run == dry && no_init == bare,
            Command::Reset { dry_run, no_init } => dry_run == dry && no_init == bare,
            _ => false,
        },
    ensures
        ({
            let todo = effect(command, leds, path)->Ok_0.1;
            // A reset says last what the others say first.
            let at: int = if command is Reset {
                0
            } else {
                1
            };
            &&& dry ==> {
                &&& todo.len() == 3
                &&& todo[at] == Act::Print("dry-run: not writing to device"@)
                &&& todo[at + 1] == Act::Save
            }
            &&& !dry ==> {
                &&& todo.len() == 4
                &&& todo[at] == Act::WriteFrame(!bare)
                &&& todo[at + 1] == Act::Print("device-write=ok"@)
                &&& todo[at + 2] == Act::Save
            }
        }),
{
}

/// Listing prints a line for each key of the table, in its order: the name in eighteen columns, and
/// the LED.
pub proof fn law_list_has_a_line_for_each_key(leds: Seq<Rgb>, path: Seq<char>, row: int)
    requires
        0 <= row < keys::KEY_ALIASES@.len(),
    ensures
        effect(Command::ListKeys, leds, path) is Ok,
        effect(Command::ListKeys, leds, path)->Ok_0.0 == leds,
        effect(Command::ListKeys, leds, path)->Ok_0.1.len() == keys::KEY_ALIASES@.len(),
        effect(Command::ListKeys, leds, path)->Ok_0.1[row] == Act::Print(
            text::padded_right(keys::KEY_ALIASES@[row].0@, 18) + " "@ + text::decimal(
                keys::KEY_ALIASES@[row].1 as nat,
            ),
        ),
{
}

/// A command is refused exactly if it asks for a key that cannot be resolved, and for that reason.
pub proof fn law_only_unresolved_keys_are_refused(command: Command, leds: Seq<Rgb>, path: Seq<char>)
    ensures
        match command {
            Command::Get { key, index } => match keys::resolved(keys::key_text(key), index) {
                Ok(_) => effect(command, leds, path) is Ok,
                Err(e) => effect(command, leds, path) == Err::<
                    (Seq<Rgb>, Seq<Act>),
                    keys::KeyFault,
                >(e),
            },
            Command::SetKey { key, index, .. } => match keys::resolved(keys::key_text(key), index) {
                Ok(_) => effect(command, leds, path) is Ok,
                Err(e) => effect(command, leds, path) == Err::<
                    (Seq<Rgb>, Seq<Act>),
                    keys::KeyFault,
                >(e),
            },
            _ => effect(command, leds, path) is Ok,
        },
{
}

} // verus!
