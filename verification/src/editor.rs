//! The key editor: what it holds, and how that changes with what the user and the keyboard do.
use crate::color;
use crate::color::Color;
use crate::input;
use crate::keymap;
use crate::keymap::KeyMap;
use crate::keys;
use crate::state::Rgb;
use crate::template;
use crate::template::TemplateError;
use crate::text;
use vstd::prelude::*;
use vstd::string::*;

verus! {

/// How often the window asks for key reports while it learns, in milliseconds.
pub const LEARN_POLL_MS: u64 = 16;

/// The state of the key editor.
#[derive(Debug)]
pub struct Editor {
    /// Whether pressed keys are being collected.
    pub learn_mode: bool,
    /// The keys collected since learning last began.
    pub selected_keys: KeyMap<()>,
    /// The colours assigned to keys so far.
    pub key_colors: KeyMap<Color>,
    /// The background colour of all LEDs, if there is one.
    pub set_all_color: Option<Color>,
    /// The colour that selected keys are given.
    pub chosen_color: Color,
    /// Whether the keyboard does not show the present colours yet.
    pub preview_dirty: bool,
    /// The LED map under the preview.
    pub base_leds: Vec<Rgb>,
    /// Whether a preview was sent, and the init sequence with it.
    pub preview_init_done: bool,
    /// The path of the template.
    pub save_path: String,
    /// What came of the last attempt to save.
    pub save_msg: Option<String>,
    /// The last error of the listener.
    pub status_msg: Option<String>,
}

/// The state of the key editor as texts, sets and maps.
#[verifier::ext_equal]
pub struct EditorView {
    pub learn_mode: bool,
    pub selected: Set<Seq<char>>,
    pub colors: Map<Seq<char>, Color>,
    pub background: Option<Color>,
    pub chosen: Color,
    pub dirty: bool,
    pub base: Seq<Rgb>,
    pub init_done: bool,
    pub path: Seq<char>,
    pub save_msg: Option<Seq<char>>,
    pub status_msg: Option<Seq<char>>,
}

/// The text of an optional message.
pub open spec fn message_text(message: Option<String>) -> Option<Seq<char>> {
    match message {
        Some(s) => Some(s@),
        None => None,
    }
}

impl View for Editor {
    type V = EditorView;

    open spec fn view(&self) -> EditorView {
        EditorView {
            learn_mode: self.learn_mode,
            selected: self.selected_keys@.dom(),
            colors: self.key_colors@,
            background: self.set_all_color,
            chosen: self.chosen_color,
            dirty: self.preview_dirty,
            base: self.base_leds@,
            init_done: self.preview_init_done,
            path: self.save_path@,
            save_msg: message_text(self.save_msg),
            status_msg: message_text(self.status_msg),
        }
    }
}

/// A frame for the keyboard to show.
#[derive(Debug)]
pub struct Preview {
    pub leds: Vec<Rgb>,
    pub initialize: bool,
}

/// Whether an assigned key has this LED.
pub open spec fn is_key_at(colors: Map<Seq<char>, Color>, led: int, name: Seq<char>) -> bool {
    colors.contains_key(name) && keys::named_led(name) == Some(led as nat)
}

/// What an LED shows in the preview: the colour of the key assigned to it, or else the background,
/// or else what it showed before.
pub open spec fn preview_led(
    base: Seq<Rgb>,
    background: Option<Color>,
    colors: Map<Seq<char>, Color>,
    led: int,
) -> Rgb {
    if exists|name: Seq<char>| is_key_at(colors, led, name) {
        color::led_color(colors[choose|name: Seq<char>| is_key_at(colors, led, name)])
    } else {
        match background {
            Some(c) => color::led_color(c),
            None => base[led],
        }
    }
}

/// The LED map of the preview.
pub open spec fn preview(
    base: Seq<Rgb>,
    background: Option<Color>,
    colors: Map<Seq<char>, Color>,
) -> Seq<Rgb> {
    Seq::new(base.len(), |led: int| preview_led(base, background, colors, led))
}

/// `selected` with `key` put in, or taken out if it was in.
pub open spec fn toggled(selected: Set<Seq<char>>, key: Seq<char>) -> Set<Seq<char>> {
    if selected.contains(key) {
        selected.remove(key)
    } else {
        selected.insert(key)
    }
}

/// `colors` with all selected keys given one colour.
pub open spec fn painted(
    colors: Map<Seq<char>, Color>,
    selected: Set<Seq<char>>,
    c: Color,
) -> Map<Seq<char>, Color> {
    Map::new(
        |name: Seq<char>| colors.contains_key(name) || selected.contains(name),
        |name: Seq<char>|
            if selected.contains(name) {
                c
            } else {
                colors[name]
            },
    )
}

/// The selected keys have been given the chosen colour.
pub open spec fn committed(e: EditorView) -> EditorView {
    EditorView { colors: painted(e.colors, e.selected, e.chosen), dirty: true, ..e }
}

/// A preview has been sent.
pub open spec fn previewed(e: EditorView) -> EditorView {
    EditorView { init_done: true, dirty: false, ..e }
}

/// Learning has begun.
pub open spec fn learning(e: EditorView) -> EditorView {
    EditorView { learn_mode: true, selected: Set::empty(), status_msg: None, ..e }
}

/// Learning has ended, with its keys coloured and shown.
pub open spec fn learned(e: EditorView) -> EditorView {
    previewed(committed(EditorView { learn_mode: false, ..e }))
}

/// Whether a report of the listener is an error.
pub open spec fn is_error_report(report: Seq<char>) -> bool {
    text::begins_with(report, "__ERR__:"@)
}

/// A report of the listener has been taken in: an error is shown, a key is toggled.
pub open spec fn received(e: EditorView, report: Seq<char>) -> EditorView {
    if is_error_report(report) {
        EditorView {
            status_msg: Some("Error: "@ + report.skip("__ERR__:"@.len() as int)),
            ..e
        }
    } else {
        EditorView { selected: toggled(e.selected, keys::evdev_alias(report)), ..e }
    }
}

/// Reports of the listener have been taken in, up to the first error.
pub open spec fn drained(e: EditorView, reports: Seq<Seq<char>>) -> EditorView
    decreases reports.len(),
{
    if reports.len() == 0 {
        e
    } else if is_error_report(reports[0]) {
        received(e, reports[0])
    } else {
        drained(received(e, reports[0]), reports.drop_first())
    }
}

/// Whether there is an error among the reports.
pub open spec fn has_error(reports: Seq<Seq<char>>) -> bool {
    exists|i: int| 0 <= i < reports.len() && is_error_report(#[trigger] reports[i])
}

/// A colour has been chosen. If it is a new one, the selected keys have it now.
pub open spec fn chosen(e: EditorView, c: Color) -> EditorView {
    if c != e.chosen && e.selected.len() > 0 {
        EditorView { chosen: c, colors: painted(e.colors, e.selected, c), dirty: true, ..e }
    } else {
        EditorView { chosen: c, ..e }
    }
}

/// What the keyboard is to show of the editor.
pub open spec fn shown(e: EditorView) -> Seq<Rgb> {
    preview(e.base, e.background, e.colors)
}

/// An editor that has just been opened.
pub open spec fn opened(
    base: Seq<Rgb>,
    colors: Map<Seq<char>, Color>,
    background: Option<Color>,
    path: Seq<char>,
) -> EditorView {
    EditorView {
        learn_mode: false,
        selected: Set::empty(),
        colors,
        background,
        chosen: color::opaque(255, 255, 255),
        dirty: false,
        base,
        init_done: false,
        path,
        save_msg: None,
        status_msg: None,
    }
}

/// Whether there are colours that the keyboard does not show and that it should show now.
pub open spec fn is_stale(e: EditorView) -> bool {
    !e.learn_mode && e.dirty
}

/// Colours that should be shown now have been sent.
pub open spec fn refreshed(e: EditorView) -> EditorView {
    if is_stale(e) {
        previewed(e)
    } else {
        e
    }
}

/// A frame of the window has begun with these reports of the listener. An error among them has
/// ended learning.
pub open spec fn framed(e: EditorView, reports: Seq<Seq<char>>) -> EditorView {
    if has_error(reports) {
        learned(drained(e, reports))
    } else {
        refreshed(drained(e, reports))
    }
}

/// Whether a preview is sent when a frame of the window begins with these reports.
pub open spec fn frame_sends(e: EditorView, reports: Seq<Seq<char>>) -> bool {
    has_error(reports) || is_stale(drained(e, reports))
}

/// A key has been taken out of the selection.
pub open spec fn deselected(e: EditorView, key: Seq<char>) -> EditorView {
    EditorView { selected: e.selected.remove(key), ..e }
}

/// A key and its colour have been taken out of the template.
pub open spec fn unassigned(e: EditorView, key: Seq<char>) -> EditorView {
    EditorView {
        colors: e.colors.remove(key),
        selected: e.selected.remove(key),
        dirty: true,
        ..e
    }
}

/// The background has been turned on, black at first, or off.
pub open spec fn background_enabled(e: EditorView, enabled: bool) -> EditorView {
    EditorView {
        background: if enabled {
            Some(color::opaque(0, 0, 0))
        } else {
            None
        },
        dirty: true,
        ..e
    }
}

/// The colour of the background has been picked, if there is a background.
pub open spec fn background_picked(e: EditorView, c: Color) -> EditorView {
    match e.background {
        Some(before) => EditorView { background: Some(c), dirty: e.dirty || c != before, ..e },
        None => e,
    }
}

/// All keys and their colours have been forgotten.
pub open spec fn cleared(e: EditorView) -> EditorView {
    EditorView {
        colors: Map::empty(),
        selected: Set::empty(),
        save_msg: None,
        dirty: true,
        ..e
    }
}

/// What came of an attempt to save has been noted: an error, or none.
pub open spec fn save_noted(e: EditorView, error: Option<Seq<char>>) -> EditorView {
    EditorView {
        save_msg: Some(
            match error {
                Some(message) => "Error: "@ + message,
                None => "Saved → "@ + e.path,
            },
        ),
        ..e
    }
}

/// Whether there is something to save, and a path to save it to.
pub open spec fn is_savable(e: EditorView) -> bool {
    (e.colors.dom().len() > 0 || e.background is Some) && e.path.len() > 0
}

proof fn lemma_preview_insert(
    base: Seq<Rgb>,
    background: Option<Color>,
    colors: Map<Seq<char>, Color>,
    name: Seq<char>,
    c: Color,
)
    ensures
        preview(base, background, colors.insert(name, c)) == (match keys::named_led(name) {
            Some(led) => if led < base.len() {
                preview(base, background, colors).update(led as int, color::led_color(c))
            } else {
                preview(base, background, colors)
            },
            None => preview(base, background, colors),
        }),
{
    let more = colors.insert(name, c);
    let before = preview(base, background, colors);
    let after = preview(base, background, more);
    assert forall|led: int| 0 <= led < base.len() implies #[trigger] after[led] == (if keys::named_led(
        name,
    ) == Some(led as nat) {
        color::led_color(c)
    } else {
        before[led]
    }) by {
        if keys::named_led(name) == Some(led as nat) {
            assert(is_key_at(more, led, name));
            let found = choose|n: Seq<char>| is_key_at(more, led, n);
            assert(is_key_at(more, led, found));
            keys::law_names_have_their_own_led(found, name);
        } else {
            assert forall|n: Seq<char>| is_key_at(more, led, n) == is_key_at(colors, led, n) by {}
            if exists|n: Seq<char>| is_key_at(more, led, n) {
                let found = choose|n: Seq<char>| is_key_at(more, led, n);
                assert(is_key_at(more, led, found));
                assert(is_key_at(colors, led, found));
                let other = choose|n: Seq<char>| is_key_at(colors, led, n);
                assert(is_key_at(colors, led, other));
                keys::law_names_have_their_own_led(found, other);
            } else {
                assert(!exists|n: Seq<char>| is_key_at(colors, led, n)) by {
                    if exists|n: Seq<char>| is_key_at(colors, led, n) {
                        let other = choose|n: Seq<char>| is_key_at(colors, led, n);
                        assert(is_key_at(more, led, other));
                    }
                }
            }
        }
    }
    match keys::named_led(name) {
        Some(led) => {
            if led < base.len() {
                assert(after =~= before.update(led as int, color::led_color(c)));
            } else {
                assert(after =~= before);
            }
        },
        None => {
            assert(after =~= before);
        },
    }
}

impl Editor {
    /// The lists of names are in order.
    pub open spec fn wf(&self) -> bool {
        self.selected_keys.wf() && self.key_colors.wf()
    }

    /// An editor that has just been opened.
    pub fn new(
        base_leds: Vec<Rgb>,
        key_colors: KeyMap<Color>,
        set_all_color: Option<Color>,
        save_path: String,
    ) -> (r: Editor)
        requires
            key_colors.wf(),
        ensures
            r.wf(),
            r@ == opened(base_leds@, key_colors@, set_all_color, save_path@),
    {
        Editor {
            learn_mode: false,
            selected_keys: KeyMap::new(),
            key_colors,
            set_all_color,
            chosen_color: Color::from_rgb(255, 255, 255),
            preview_dirty: false,
            base_leds,
            preview_init_done: false,
            save_path,
            save_msg: None,
            status_msg: None,
        }
    }

    /// The LED map of the preview.
    pub fn preview_leds(&self) -> (r: Vec<Rgb>)
        requires
            self.wf(),
        ensures
            r@ == shown(self@),
    {
        let ghost base = self.base_leds@;
        let ghost background = self.set_all_color;
        let ghost rows = self.key_colors.rows();
        let mut leds: Vec<Rgb> = Vec::new();
        let count: usize = self.base_leds.len();
        let mut i: usize = 0;
        while i < count
            invariant
                i <= count,
                count == self.base_leds@.len(),
                leds@.len() == i,
                forall|led: int|
                    0 <= led < i ==> #[trigger] leds@[led] == (match self.set_all_color {
                        Some(c) => color::led_color(c),
                        None => self.base_leds@[led],
                    }),
            decreases count - i,
        {
            match self.set_all_color {
                Some(c) => leds.push(c.to_rgb()),
                None => leds.push(self.base_leds[i]),
            }
            i += 1;
        }
        assert(leds@ =~= preview(base, background, keymap::map_of(rows.take(0))));
        let n: usize = self.key_colors.len();
        let mut row: usize = 0;
        while row < n
            invariant
                row <= n,
                n == rows.len(),
                rows == self.key_colors.rows(),
                keymap::in_order(rows),
                leds@.len() == base.len(),
                leds@ == preview(base, background, keymap::map_of(rows.take(row as int))),
            decreases n - row,
        {
            let c: Color = self.key_colors.value(row);
            let name: &str = self.key_colors.name(row);
            proof {
                let more = rows.take(row + 1);
                assert(keymap::in_order(more));
                keymap::lemma_last_row(more);
                assert(more.drop_last() =~= rows.take(row as int));
                lemma_preview_insert(
                    base,
                    background,
                    keymap::map_of(rows.take(row as int)),
                    name@,
                    c,
                );
            }
            if let Some(led) = keys::find_alias(name) {
                if led < leds.len() {
                    leds.set(led, c.to_rgb());
                }
            }
            row += 1;
        }
        assert(rows.take(row as int) =~= rows);
        leds
    }

    /// Gives the selected keys a colour.
    fn paint(&mut self, c: Color)
        requires
            old(self).wf(),
        ensures
            final(self).wf(),
            final(self)@ == (EditorView {
                colors: painted(old(self)@.colors, old(self)@.selected, c),
                ..old(self)@
            }),
    {
        let ghost rows = self.selected_keys.rows();
        let n: usize = self.selected_keys.len();
        let mut row: usize = 0;
        assert(self.key_colors@ =~= painted(
            old(self)@.colors,
            keymap::map_of(rows.take(0)).dom(),
            c,
        ));
        while row < n
            invariant
                row <= n,
                n == rows.len(),
                rows == self.selected_keys.rows(),
                keymap::in_order(rows),
                self.wf(),
                self@ == (EditorView { colors: self.key_colors@, ..old(self)@ }),
                self.key_colors@ == painted(
                    old(self)@.colors,
                    keymap::map_of(rows.take(row as int)).dom(),
                    c,
                ),
            decreases n - row,
        {
            let ghost before = self.key_colors@;
            let name: String = self.selected_keys.name(row).to_owned();
            self.key_colors.insert(name, c);
            proof {
                let more = rows.take(row + 1);
                assert(keymap::in_order(more));
                keymap::lemma_last_row(more);
                assert(more.drop_last() =~= rows.take(row as int));
                assert(self.key_colors@ =~= painted(
                    old(self)@.colors,
                    keymap::map_of(more).dom(),
                    c,
                ));
            }
            row += 1;
        }
        assert(rows.take(row as int) =~= rows);
    }

    /// Gives the selected keys the chosen colour.
    pub fn commit_selection(&mut self)
        requires
            old(self).wf(),
        ensures
            final(self).wf(),
            final(self)@ == committed(old(self)@),
    {
        let c: Color = self.chosen_color;
        self.paint(c);
        self.preview_dirty = true;
    }

    /// The frame that shows the present colours, which is then taken for shown. Only the first one
    /// needs the init sequence.
    pub fn send_preview(&mut self) -> (r: Preview)
        requires
            old(self).wf(),
        ensures
            final(self).wf(),
            final(self)@ == previewed(old(self)@),
            r.leds@ == shown(old(self)@),
            r.initialize == !old(self)@.init_done,
    {
        let leds: Vec<Rgb> = self.preview_leds();
        let initialize: bool = !self.preview_init_done;
        self.preview_init_done = true;
        self.preview_dirty = false;
        Preview { leds, initialize }
    }

    /// The frame to send now: one that is not shown yet, unless keys are being learned.
    pub fn refresh(&mut self) -> (r: Option<Preview>)
        requires
            old(self).wf(),
        ensures
            final(self).wf(),
            final(self)@ == refreshed(old(self)@),
            match r {
                Some(p) => {
                    &&& is_stale(old(self)@)
                    &&& p.leds@ == shown(old(self)@)
                    &&& p.initialize == !old(self)@.init_done
                },
                None => !is_stale(old(self)@),
            },
    {
        if !self.learn_mode && self.preview_dirty {
            Some(self.send_preview())
        } else {
            None
        }
    }

    /// Begins to learn keys, with none selected. Colours given before stay.
    pub fn start_learn(&mut self)
        ensures
            final(self)@ == learning(old(self)@),
            old(self).wf() ==> final(self).wf(),
    {
        self.selected_keys = KeyMap::new();
        self.learn_mode = true;
        self.status_msg = None;
        assert(self@ =~= learning(old(self)@));
    }

    /// Ends learning: the selected keys are given the chosen colour, and the frame that shows it
    /// is returned.
    pub fn stop_learn(&mut self) -> (r: Preview)
        requires
            old(self).wf(),
        ensures
            final(self).wf(),
            final(self)@ == learned(old(self)@),
            r.leds@ == shown(committed(old(self)@)),
            r.initialize == !old(self)@.init_done,
    {
        self.learn_mode = false;
        self.commit_selection();
        self.send_preview()
    }

    /// Takes in a report of the listener: the name of a pressed key, or an error. Says whether it
    /// was an error, which ends learning.
    pub fn receive(&mut self, report: &str) -> (r: bool)
        requires
            old(self).wf(),
        ensures
            final(self).wf(),
            final(self)@ == received(old(self)@, report@),
            r == is_error_report(report@),
    {
        match text::strip_prefix(report, "__ERR__:") {
            Some(message) => {
                self.status_msg = Some(text::joined("Error: ", message));
                true
            },
            None => {
                let key: String = keys::evdev_to_alias(report);
                if !self.selected_keys.remove(key.as_str()) {
                    self.selected_keys.insert(key, ());
                }
                assert(self@.selected =~= toggled(old(self)@.selected, keys::evdev_alias(report@)));
                false
            },
        }
    }

    /// Takes in reports of the listener, up to the first error. Says whether there was one.
    fn drain(&mut self, reports: &Vec<String>) -> (r: bool)
        requires
            old(self).wf(),
        ensures
            final(self).wf(),
            final(self)@ == drained(old(self)@, text::texts(reports@)),
            r == has_error(text::texts(reports@)),
    {
        let ghost all = text::texts(reports@);
        let mut i: usize = 0;
        assert(all.skip(0) =~= all);
        while i < reports.len()
            invariant
                i <= reports@.len(),
                all == text::texts(reports@),
                self.wf(),
                drained(self@, all.skip(i as int)) == drained(old(self)@, all),
                forall|j: int| 0 <= j < i ==> !is_error_report(#[trigger] all[j]),
            decreases reports@.len() - i,
        {
            assert(all.skip(i as int)[0] == reports@[i as int]@);
            assert(all.skip(i as int).drop_first() =~= all.skip(i + 1));
            if self.receive(reports[i].as_str()) {
                assert(is_error_report(all[i as int]));
                return true;
            }
            i += 1;
        }
        false
    }

    /// Begins a frame of the window with the reports that have come in since the last one. An
    /// error among them ends learning, which is said first. A frame that the keyboard does not
    /// show yet is returned, unless keys are still being learned.
    pub fn begin_frame(&mut self, reports: &Vec<String>) -> (r: (bool, Option<Preview>))
        requires
            old(self).wf(),
        ensures
            final(self).wf(),
            r.0 == has_error(text::texts(reports@)),
            final(self)@ == framed(old(self)@, text::texts(reports@)),
            match r.1 {
                Some(p) => {
                    &&& frame_sends(old(self)@, text::texts(reports@))
                    &&& p.leds@ == shown(final(self)@)
                    &&& p.initialize == !old(self)@.init_done
                },
                None => !frame_sends(old(self)@, text::texts(reports@)),
            },
    {
        proof {
            law_reports_keep_the_colors(self@, text::texts(reports@));
        }
        if self.drain(reports) {
            (true, Some(self.stop_learn()))
        } else {
            (false, self.refresh())
        }
    }

    /// Takes a key out of the selection.
    pub fn deselect(&mut self, key: &str)
        requires
            old(self).wf(),
        ensures
            final(self).wf(),
            final(self)@ == deselected(old(self)@, key@),
    {
        self.selected_keys.remove(key);
        assert(self@.selected =~= old(self)@.selected.remove(key@));
    }

    /// Takes a key and its colour out of the template.
    pub fn unassign(&mut self, key: &str)
        requires
            old(self).wf(),
        ensures
            final(self).wf(),
            final(self)@ == unassigned(old(self)@, key@),
    {
        self.key_colors.remove(key);
        self.selected_keys.remove(key);
        self.preview_dirty = true;
        assert(self@.selected =~= old(self)@.selected.remove(key@));
    }

    /// Turns the background on, black at first, or off.
    pub fn enable_background(&mut self, enabled: bool)
        requires
            old(self).wf(),
        ensures
            final(self).wf(),
            final(self)@ == background_enabled(old(self)@, enabled),
    {
        self.set_all_color = if enabled {
            Some(Color::from_rgb(0, 0, 0))
        } else {
            None
        };
        self.preview_dirty = true;
    }

    /// Takes the colour of the background from the picker, if there is a background.
    pub fn pick_background(&mut self, c: Color)
        requires
            old(self).wf(),
        ensures
            final(self).wf(),
            final(self)@ == background_picked(old(self)@, c),
    {
        if let Some(before) = self.set_all_color {
            self.set_all_color = Some(c);
            if c != before {
                self.preview_dirty = true;
            }
        }
    }

    /// Takes the colour for the selected keys from the picker.
    pub fn choose_color(&mut self, c: Color)
        requires
            old(self).wf(),
        ensures
            final(self).wf(),
            final(self)@ == chosen(old(self)@, c),
            final(self).chosen_color == c,
    {
        let before: Color = self.chosen_color;
        self.chosen_color = c;
        if c != before && self.selected_keys.len() > 0 {
            self.paint(c);
            self.preview_dirty = true;
        }
    }

    /// Forgets all keys and their colours.
    pub fn clear_all(&mut self)
        ensures
            final(self)@ == cleared(old(self)@),
            final(self).wf(),
    {
        self.key_colors = KeyMap::new();
        self.selected_keys = KeyMap::new();
        self.save_msg = None;
        self.preview_dirty = true;
        assert(self@.selected =~= Set::empty());
    }

    /// Whether there is something to save, and a path to save it to.
    pub fn can_save(&self) -> (r: bool)
        requires
            self.wf(),
        ensures
            r == is_savable(self@),
    {
        (self.key_colors.len() > 0 || self.set_all_color.is_some()) && !self.save_path.as_str().is_empty()
    }

    /// The text to write where the template is to be saved, given the text of the file that is
    /// there, if there is one. A file that is no template is not to be written.
    pub fn save_text(&self, existing: Option<&str>) -> (r: Result<String, TemplateError>)
        requires
            self.wf(),
        ensures
            match r {
                Ok(t) => {
                    &&& t@ == template::doc_text(
                        template::written_doc(self@.background, self.key_colors.rows()),
                    )
                    &&& existing matches Some(found) ==> template::judged(
                        template::toml_keys(found@),
                    ) is Ok
                },
                Err(e) => {
                    &&& existing is Some
                    &&& template::judged(template::toml_keys(existing->0@)) == Err::<
                        (),
                        TemplateError,
                    >(e)
                },
            },
            existing matches Some(found) ==> template::is_known_verdict(
                found@,
                template::judged(template::toml_keys(found@)),
            ),
    {
        match template::check_is_template_or_new(existing) {
            Ok(_) => Ok(template::template_text(self.set_all_color, &self.key_colors)),
            Err(e) => Err(e),
        }
    }

    /// Notes what came of an attempt to save.
    pub fn saved(&mut self, error: Option<String>)
        requires
            old(self).wf(),
        ensures
            final(self).wf(),
            final(self)@ == save_noted(old(self)@, message_text(error)),
    {
        self.save_msg = Some(
            match error {
                Some(e) => text::joined("Error: ", e.as_str()),
                None => text::joined("Saved → ", self.save_path.as_str()),
            },
        );
    }

    /// How many keys are assigned and selected.
    pub fn count_label(&self) -> (r: String)
        requires
            self.wf(),
        ensures
            r@ == "Assigned: "@ + text::decimal(self@.colors.dom().len()) + "   |   Selecting: "@
                + text::decimal(self@.selected.len()),
    {
        let mut out: String = "Assigned: ".to_owned();
        text::push_decimal(&mut out, self.key_colors.len());
        out.append("   |   Selecting: ");
        text::push_decimal(&mut out, self.selected_keys.len());
        out
    }
}

/// Whether a message about saving tells of an error.
pub fn is_error_message(message: &str) -> (r: bool)
    ensures
        r == text::begins_with(message@, "Error"@),
{
    match text::strip_prefix(message, "Error") {
        Some(_) => true,
        None => false,
    }
}

/// A key that is toggled twice is selected as it was.
pub proof fn law_toggling_twice_changes_nothing(selected: Set<Seq<char>>, key: Seq<char>)
    ensures
        toggled(toggled(selected, key), key) == selected,
{
    assert(toggled(toggled(selected, key), key) =~= selected);
}

/// How many of the reports name the key.
pub open spec fn presses(reports: Seq<Seq<char>>, key: Seq<char>) -> nat
    decreases reports.len(),
{
    if reports.len() == 0 {
        0
    } else {
        presses(reports.drop_first(), key) + (if keys::evdev_alias(reports[0]) == key {
            1nat
        } else {
            0
        })
    }
}

/// After reports without an error, a key is selected if it was and has been pressed an even number
/// of times since, or was not and has been pressed an odd number of times.
pub proof fn law_selection_counts_presses(e: EditorView, reports: Seq<Seq<char>>, key: Seq<char>)
    requires
        !has_error(reports),
    ensures
        drained(e, reports).selected.contains(key) == (e.selected.contains(key) == (presses(
            reports,
            key,
        ) % 2 == 0)),
    decreases reports.len(),
{
    if reports.len() > 0 {
        let rest = reports.drop_first();
        assert(!is_error_report(reports[0]));
        assert(!has_error(rest)) by {
            if has_error(rest) {
                let i = choose|i: int| 0 <= i < rest.len() && is_error_report(#[trigger] rest[i]);
                assert(is_error_report(reports[i + 1]));
            }
        }
        law_selection_counts_presses(received(e, reports[0]), rest, key);
    }
}

/// Reports change nothing but the selection and the status line.
pub proof fn law_reports_keep_the_colors(e: EditorView, reports: Seq<Seq<char>>)
    ensures
        drained(e, reports) == (EditorView {
            selected: drained(e, reports).selected,
            status_msg: drained(e, reports).status_msg,
            ..e
        }),
    decreases reports.len(),
{
    if reports.len() > 0 && !is_error_report(reports[0]) {
        law_reports_keep_the_colors(received(e, reports[0]), reports.drop_first());
    }
}

/// A fault that the direct listener reports is shown to the user, and ends learning.
pub proof fn law_faults_are_shown(e: EditorView, fault: input::Fault)
    ensures
        ({
            let report = input::fault_report(input::Listener::Direct, fault);
            &&& is_error_report(report)
            &&& received(e, report).status_msg == Some(
                "Error: "@ + input::fault_text(input::Listener::Direct, fault),
            )
        }),
{
    lemma_error_report_is_seen(input::fault_text(input::Listener::Direct, fault));
}

proof fn lemma_error_report_is_seen(message: Seq<char>)
    ensures
        is_error_report(input::error_report(message)),
        input::error_report(message).skip("__ERR__:"@.len() as int) == message,
{
    let report = input::error_report(message);
    assert(report.take("__ERR__:"@.len() as int) =~= "__ERR__:"@);
    assert(report.skip("__ERR__:"@.len() as int) =~= message);
}

/// Whatever error the reader of the helper reports, the user is shown it.
pub proof fn law_helper_errors_are_shown(e: EditorView, message: Seq<char>)
    ensures
        is_error_report(input::error_report(message)),
        received(e, input::error_report(message)).status_msg == Some("Error: "@ + message),
{
    lemma_error_report_is_seen(message);
}

/// The name of a pressed key, also when the helper writes it on a line, toggles that key.
pub proof fn law_pressed_keys_are_toggled(e: EditorView, report: Seq<char>, line: String)
    requires
        input::is_name_report(report),
        line@ == report + "\n"@,
    ensures
        input::helper_outcome(
            input::HelperPhase::Streaming,
            input::HelperRead::Line(line),
        ) == (Some(report), input::HelperNext::Read(input::HelperPhase::Streaming)),
        !is_error_report(report),
        received(e, report).selected == toggled(e.selected, keys::evdev_alias(report)),
{
    input::law_helper_names_arrive(report, line);
}

/// Learning gives every selected key the chosen colour, and leaves every other key its own.
pub proof fn law_learning_colors_the_selection(e: EditorView, name: Seq<char>)
    ensures
        ({
            let after = learned(e).colors;
            &&& after.contains_key(name) == (e.colors.contains_key(name) || e.selected.contains(
                name,
            ))
            &&& e.selected.contains(name) ==> after[name] == e.chosen
            &&& e.colors.contains_key(name) && !e.selected.contains(name) ==> after[name]
                == e.colors[name]
        }),
{
}

/// Beginning to learn anew keeps all colours, so that rounds of learning add up.
pub proof fn law_rounds_of_learning_add_up(e: EditorView)
    ensures
        learning(e).colors == e.colors,
        learned(learning(e)).colors == e.colors,
{
    assert(learned(learning(e)).colors =~= e.colors);
}

/// In the preview every assigned key that has a name in the table shows its colour.
pub proof fn law_preview_shows_assigned_keys(
    base: Seq<Rgb>,
    background: Option<Color>,
    colors: Map<Seq<char>, Color>,
    name: Seq<char>,
)
    requires
        colors.contains_key(name),
        keys::named_led(name) is Some,
        keys::named_led(name)->0 < base.len(),
    ensures
        preview(base, background, colors)[keys::named_led(name)->0 as int] == color::led_color(
            colors[name],
        ),
{
    let led = keys::named_led(name)->0 as int;
    assert(is_key_at(colors, led, name));
    let found = choose|n: Seq<char>| is_key_at(colors, led, n);
    assert(is_key_at(colors, led, found));
    keys::law_names_have_their_own_led(found, name);
}

/// In the preview every LED without an assigned key shows the background, or what it showed before.
pub proof fn law_preview_keeps_other_leds(
    base: Seq<Rgb>,
    background: Option<Color>,
    colors: Map<Seq<char>, Color>,
    led: int,
)
    requires
        0 <= led < base.len(),
        forall|name: Seq<char>| #[trigger]
            colors.contains_key(name) ==> keys::named_led(name) != Some(led as nat),
    ensures
        preview(base, background, colors)[led] == (match background {
            Some(c) => color::led_color(c),
            None => base[led],
        }),
{
    assert forall|name: Seq<char>| !is_key_at(colors, led, name) by {
        if colors.contains_key(name) {
        }
    }
}

/// Something that happens to the editor.
pub enum Step {
    /// A frame of the window begins with these reports of the listener.
    Frame(Seq<Seq<char>>),
    Receive(Seq<char>),
    Commit,
    Send,
    Refresh,
    StartLearn,
    StopLearn,
    Deselect(Seq<char>),
    Unassign(Seq<char>),
    EnableBackground(bool),
    PickBackground(Color),
    Choose(Color),
    ClearAll,
    /// The path of the template is edited.
    EditPath(Seq<char>),
    /// An attempt to save ends with an error, or with none.
    Saved(Option<Seq<char>>),
}

/// The editor after a step.
pub open spec fn stepped(e: EditorView, step: Step) -> EditorView {
    match step {
        Step::Frame(reports) => framed(e, reports),
        Step::Receive(report) => received(e, report),
        Step::Commit => committed(e),
        Step::Send => previewed(e),
        Step::Refresh => refreshed(e),
        Step::StartLearn => learning(e),
        Step::StopLearn => learned(e),
        Step::Deselect(key) => deselected(e, key),
        Step::Unassign(key) => unassigned(e, key),
        Step::EnableBackground(enabled) => background_enabled(e, enabled),
        Step::PickBackground(c) => background_picked(e, c),
        Step::Choose(c) => chosen(e, c),
        Step::ClearAll => cleared(e),
        Step::EditPath(path) => EditorView { path, ..e },
        Step::Saved(error) => save_noted(e, error),
    }
}

/// Whether a step sends a preview.
pub open spec fn sends(e: EditorView, step: Step) -> bool {
    match step {
        Step::Frame(reports) => frame_sends(e, reports),
        Step::Send => true,
        Step::Refresh => is_stale(e),
        Step::StopLearn => true,
        _ => false,
    }
}

/// The editor after a run of steps.
pub open spec fn after(e: EditorView, steps: Seq<Step>) -> EditorView
    decreases steps.len(),
{
    if steps.len() == 0 {
        e
    } else {
        stepped(after(e, steps.drop_last()), steps.last())
    }
}

/// How many previews a run of steps sends.
pub open spec fn previews(e: EditorView, steps: Seq<Step>) -> nat
    decreases steps.len(),
{
    if steps.len() == 0 {
        0
    } else {
        previews(e, steps.drop_last()) + (if sends(after(e, steps.drop_last()), steps.last()) {
            1nat
        } else {
            0
        })
    }
}

/// Whatever is done with an editor that has sent no preview, the init sequence is marked as done
/// exactly when a preview has been sent. As a preview asks for the init sequence exactly when it
/// is not marked as done, the first preview of a run asks for it and no other does.
pub proof fn law_only_the_first_preview_initializes(e: EditorView, steps: Seq<Step>)
    requires
        !e.init_done,
    ensures
        after(e, steps).init_done == (previews(e, steps) > 0),
    decreases steps.len(),
{
    if steps.len() > 0 {
        law_only_the_first_preview_initializes(e, steps.drop_last());
        if let Step::Frame(reports) = steps.last() {
            law_reports_keep_the_colors(after(e, steps.drop_last()), reports);
        }
    }
}

/// Nothing that is done with the editor changes the LED map under the preview.
pub proof fn law_base_stays(e: EditorView, steps: Seq<Step>)
    ensures
        after(e, steps).base == e.base,
    decreases steps.len(),
{
    if steps.len() > 0 {
        law_base_stays(e, steps.drop_last());
        if let Step::Frame(reports) = steps.last() {
            law_reports_keep_the_colors(after(e, steps.drop_last()), reports);
        }
    }
}

/// After a preview everything that the editor holds is shown: a frame of the window that begins
/// next, without reports, sends none.
pub proof fn law_preview_is_sent_once(e: EditorView)
    ensures
        !frame_sends(previewed(e), seq![]),
        framed(previewed(e), seq![]) == previewed(e),
{
}

/// What can be saved has a section that marks it as a template.
pub proof fn law_saved_templates_have_a_section(
    e: EditorView,
    rows: Seq<(Seq<char>, Color)>,
)
    requires
        is_savable(e),
        keymap::in_order(rows),
        keymap::map_of(rows) == e.colors,
    ensures
        ({
            let doc = template::written_doc(e.background, rows);
            doc.set_all is Some || doc.key is Some
        }),
{
    keymap::lemma_row_count(rows);
}

/// What is said of an editor is what its fields hold.
pub proof fn law_view_shows_the_fields(editor: Editor, name: Seq<char>)
    ensures
        editor@.learn_mode == editor.learn_mode,
        editor@.selected.contains(name) == editor.selected_keys@.contains_key(name),
        editor@.colors == editor.key_colors@,
        editor@.background == editor.set_all_color,
        editor@.chosen == editor.chosen_color,
        editor@.dirty == editor.preview_dirty,
        editor@.base == editor.base_leds@,
        editor@.init_done == editor.preview_init_done,
        editor@.path == editor.save_path@,
        editor@.save_msg is Some == editor.save_msg is Some,
        editor.save_msg is Some ==> editor@.save_msg->0 == editor.save_msg->0@,
        editor@.status_msg is Some == editor.status_msg is Some,
        editor.status_msg is Some ==> editor@.status_msg->0 == editor.status_msg->0@,
{
}

/// The text of a message is that of its string.
pub proof fn law_message_text_is_the_message(message: String)
    ensures
        message_text(Some(message)) == Some(message@),
        message_text(None) is None,
{
}

/// A new editor holds what it was opened with; it neither learns nor has anything selected, said or
/// sent, and its colour is white.
pub proof fn law_new_editor_holds_the_template(
    base: Seq<Rgb>,
    colors: Map<Seq<char>, Color>,
    background: Option<Color>,
    path: Seq<char>,
    key: Seq<char>,
)
    ensures
        ({
            let e = opened(base, colors, background, path);
            &&& e.base == base && e.colors == colors && e.background == background && e.path == path
            &&& !e.learn_mode && !e.dirty && !e.init_done
            &&& !e.selected.contains(key)
            &&& e.save_msg is None && e.status_msg is None
            &&& e.chosen == (Color { r: 255, g: 255, b: 255, a: 255 })
        }),
{
}

/// Toggling a key changes whether it is selected, and no other key.
pub proof fn law_toggling_changes_one_key(
    selected: Set<Seq<char>>,
    key: Seq<char>,
    other: Seq<char>,
)
    ensures
        toggled(selected, key).contains(key) == !selected.contains(key),
        other != key ==> toggled(selected, key).contains(other) == selected.contains(other),
{
}

/// Painting gives every selected key the colour, and leaves every other key as it is.
pub proof fn law_painting_colors_the_selection(
    colors: Map<Seq<char>, Color>,
    selected: Set<Seq<char>>,
    c: Color,
    name: Seq<char>,
)
    ensures
        selected.contains(name) ==> painted(colors, selected, c).contains_key(name) && painted(
            colors,
            selected,
            c,
        )[name] == c,
        !selected.contains(name) ==> painted(colors, selected, c).contains_key(name)
            == colors.contains_key(name),
        !selected.contains(name) && colors.contains_key(name) ==> painted(
            colors,
            selected,
            c,
        )[name] == colors[name],
{
}

/// Committing paints the selection in the chosen colour, which is then to be shown, and changes
/// nothing else.
pub proof fn law_commit_paints_the_selection(e: EditorView)
    ensures
        committed(e).colors == painted(e.colors, e.selected, e.chosen),
        committed(e).dirty,
        committed(e) == (EditorView {
            colors: committed(e).colors,
            dirty: committed(e).dirty,
            ..e
        }),
{
}

/// Sending a preview leaves all that is shown and selected as it is; it only notes that it is shown.
pub proof fn law_sending_keeps_the_content(e: EditorView)
    ensures
        previewed(e).init_done && !previewed(e).dirty,
        shown(previewed(e)) == shown(e),
        previewed(e) == (EditorView {
            init_done: previewed(e).init_done,
            dirty: previewed(e).dirty,
            ..e
        }),
{
}

/// Learning begins with no key selected and no error shown, and keeps everything else. While it
/// lasts, reports are asked for every 16 milliseconds.
pub proof fn law_learning_begins_afresh(e: EditorView, key: Seq<char>)
    ensures
        learning(e).learn_mode,
        !learning(e).selected.contains(key),
        learning(e).status_msg is None,
        LEARN_POLL_MS == 16,
        learning(e) == (EditorView {
            learn_mode: learning(e).learn_mode,
            selected: learning(e).selected,
            status_msg: learning(e).status_msg,
            ..e
        }),
{
}

/// Learning ends with the selection painted and shown; what was selected stays so.
pub proof fn law_learning_ends_with_a_preview(e: EditorView)
    ensures
        !learned(e).learn_mode && learned(e).init_done && !learned(e).dirty,
        learned(e).colors == committed(e).colors,
        shown(learned(e)) == shown(committed(e)),
        learned(e) == (EditorView {
            learn_mode: learned(e).learn_mode,
            init_done: learned(e).init_done,
            dirty: learned(e).dirty,
            colors: learned(e).colors,
            ..e
        }),
{
}

/// A report that begins with the mark of an error is shown as one, with what stands behind the
/// mark, and toggles nothing. Every other report toggles its key, and shows nothing.
pub proof fn law_reports_are_errors_or_keys(e: EditorView, report: Seq<char>, message: Seq<char>)
    ensures
        ({
            let after = received(e, "__ERR__:"@ + message);
            &&& after.status_msg == Some("Error: "@ + message)
            &&& after == (EditorView { status_msg: after.status_msg, ..e })
        }),
        !text::begins_with(report, "__ERR__:"@) ==> {
            let after = received(e, report);
            &&& after.selected == toggled(e.selected, keys::evdev_alias(report))
            &&& after == (EditorView { selected: after.selected, ..e })
        },
        is_error_report(report) == text::begins_with(report, "__ERR__:"@),
{
    lemma_error_report_is_seen(message);
    assert("__ERR__:"@ + message == input::error_report(message));
}

/// Reports are taken in one after the other; those behind an error are passed over.
pub proof fn law_reports_are_taken_in_order(
    e: EditorView,
    before: Seq<Seq<char>>,
    report: Seq<char>,
    rest: Seq<Seq<char>>,
)
    requires
        !has_error(before),
    ensures
        drained(e, Seq::empty()) == e,
        is_error_report(report) ==> drained(e, before + seq![report] + rest) == received(
            drained(e, before),
            report,
        ),
        !is_error_report(report) ==> drained(e, before + seq![report] + rest) == drained(
            received(drained(e, before), report),
            rest,
        ),
    decreases before.len(),
{
    let all = before + seq![report] + rest;
    if before.len() == 0 {
        assert(all[0] == report);
        assert(all.drop_first() =~= rest);
    } else {
        let tail = before.drop_first();
        assert(!is_error_report(before[0]));
        assert(!has_error(tail)) by {
            if has_error(tail) {
                let i = choose|i: int| 0 <= i < tail.len() && is_error_report(#[trigger] tail[i]);
                assert(is_error_report(before[i + 1]));
            }
        }
        assert(all[0] == before[0]);
        assert(all.drop_first() =~= tail + seq![report] + rest);
        law_reports_are_taken_in_order(received(e, before[0]), tail, report, rest);
    }
}

/// There is an error among reports exactly if one of them begins with its mark.
pub proof fn law_errors_are_seen_among_reports(reports: Seq<Seq<char>>)
    ensures
        has_error(reports) <==> exists|i: int|
            0 <= i < reports.len() && text::begins_with(#[trigger] reports[i], "__ERR__:"@),
{
    if has_error(reports) {
        let i = choose|i: int| 0 <= i < reports.len() && is_error_report(#[trigger] reports[i]);
        assert(text::begins_with(reports[i], "__ERR__:"@));
    }
    if exists|i: int| 0 <= i < reports.len() && text::begins_with(
        #[trigger] reports[i],
        "__ERR__:"@,
    ) {
        let i = choose|i: int|
            0 <= i < reports.len() && text::begins_with(#[trigger] reports[i], "__ERR__:"@);
        assert(is_error_report(reports[i]));
    }
}

/// The colour that is picked is the chosen one from then on, whatever is selected. A new colour
/// goes to the selected keys at once, and is then to be shown; otherwise no key changes.
pub proof fn law_picked_color_is_chosen(e: EditorView, c: Color, name: Seq<char>)
    requires
        e.selected.finite(),
    ensures
        ({
            let after = chosen(e, c);
            &&& after.chosen == c
            &&& c != e.chosen && e.selected.contains(name) ==> after.colors.contains_key(name)
                && after.colors[name] == c && after.dirty
            &&& !e.selected.contains(name) ==> after.colors.contains_key(name)
                == e.colors.contains_key(name)
            &&& !e.selected.contains(name) && e.colors.contains_key(name) ==> after.colors[name]
                == e.colors[name]
            &&& c == e.chosen || e.selected == Set::<Seq<char>>::empty() ==> after.colors == e.colors
                && after.dirty == e.dirty
            &&& after == (EditorView {
                chosen: after.chosen,
                colors: after.colors,
                dirty: after.dirty,
                ..e
            })
        }),
{
    if e.selected.contains(name) && e.selected.len() == 0 {
        assert(e.selected =~= Set::empty());
    }
}

/// Keys that are learned after a colour was picked are given that colour.
pub proof fn law_picked_color_goes_to_keys_learned_next(
    e: EditorView,
    c: Color,
    report: Seq<char>,
)
    requires
        !text::begins_with(report, "__ERR__:"@),
    ensures
        ({
            let after = learned(received(learning(chosen(e, c)), report));
            let key = keys::evdev_alias(report);
            after.colors.contains_key(key) && after.colors[key] == c
        }),
{
}

/// Outside learning, colours that are not shown yet are sent when a frame of the window begins; and
/// an error among the reports ends learning first. Otherwise nothing is sent.
pub proof fn law_frames_send_what_is_not_shown(e: EditorView, reports: Seq<Seq<char>>)
    ensures
        ({
            let d = drained(e, reports);
            let after = framed(e, reports);
            &&& has_error(reports) ==> frame_sends(e, reports) && after == learned(d)
            &&& !has_error(reports) && !e.learn_mode && e.dirty ==> frame_sends(e, reports) && after
                == previewed(d)
            &&& !has_error(reports) && (e.learn_mode || !e.dirty) ==> !frame_sends(e, reports)
                && after == d
        }),
        !e.learn_mode && e.dirty ==> is_stale(e) && refreshed(e) == previewed(e),
        e.learn_mode || !e.dirty ==> !is_stale(e) && refreshed(e) == e,
{
    law_reports_keep_the_colors(e, reports);
}

/// The preview has a colour for each LED of the map under it, and is made of that map, the
/// background and the colours of keys.
pub proof fn law_preview_covers_the_base(e: EditorView)
    ensures
        shown(e).len() == e.base.len(),
        shown(e) == preview(e.base, e.background, e.colors),
{
}

/// Taking a key out of the selection leaves its colour, all other keys and everything else.
pub proof fn law_deselecting_takes_out_one_key(e: EditorView, key: Seq<char>, other: Seq<char>)
    ensures
        !deselected(e, key).selected.contains(key),
        other != key ==> deselected(e, key).selected.contains(other) == e.selected.contains(other),
        deselected(e, key) == (EditorView { selected: deselected(e, key).selected, ..e }),
{
}

/// Taking a key out of the template takes it out of the selection too, leaves all other keys, and
/// is then to be shown.
pub proof fn law_unassigning_takes_out_one_key(e: EditorView, key: Seq<char>, other: Seq<char>)
    ensures
        ({
            let after = unassigned(e, key);
            &&& !after.colors.contains_key(key) && !after.selected.contains(key)
            &&& other != key ==> after.selected.contains(other) == e.selected.contains(other)
            &&& other != key ==> after.colors.contains_key(other) == e.colors.contains_key(other)
            &&& other != key && e.colors.contains_key(other) ==> after.colors[other]
                == e.colors[other]
            &&& after.dirty
            &&& after == (EditorView {
                colors: after.colors,
                selected: after.selected,
                dirty: after.dirty,
                ..e
            })
        }),
{
}

/// A background that is turned on is black, one that is turned off is gone, and either is then to
/// be shown.
pub proof fn law_background_is_turned_on_and_off(e: EditorView, enabled: bool)
    ensures
        ({
            let after = background_enabled(e, enabled);
            &&& enabled ==> after.background == Some(Color { r: 0, g: 0, b: 0, a: 255 })
            &&& !enabled ==> after.background is None
            &&& after.dirty
            &&& after == (EditorView { background: after.background, dirty: after.dirty, ..e })
        }),
{
}

/// A picked colour becomes that of the background if there is one, and is then to be shown if it is
/// a new one. Where there is no background nothing changes.
pub proof fn law_picked_background_is_taken(e: EditorView, c: Color)
    ensures
        ({
            let after = background_picked(e, c);
            &&& e.background is Some ==> after.background == Some(c)
            &&& e.background is Some && e.background != Some(c) ==> after.dirty
            &&& e.background is Some && e.background == Some(c) ==> after.dirty == e.dirty
            &&& e.background is None ==> after == e
            &&& after == (EditorView { background: after.background, dirty: after.dirty, ..e })
        }),
{
}

/// Clearing forgets every key and the last word about saving, and is then to be shown. It keeps the
/// background and everything else.
pub proof fn law_clearing_forgets_every_key(e: EditorView, key: Seq<char>)
    ensures
        ({
            let after = cleared(e);
            &&& !after.colors.contains_key(key) && !after.selected.contains(key)
            &&& after.save_msg is None
            &&& after.dirty
            &&& after == (EditorView {
                colors: after.colors,
                selected: after.selected,
                save_msg: after.save_msg,
                dirty: after.dirty,
                ..e
            })
        }),
{
}

/// An attempt to save is answered with its error, or with the path of the template, and changes
/// nothing else.
pub proof fn law_saving_is_answered(e: EditorView, error: Seq<char>)
    ensures
        save_noted(e, Some(error)).save_msg == Some("Error: "@ + error),
        save_noted(e, None).save_msg == Some("Saved → "@ + e.path),
        save_noted(e, Some(error)) == (EditorView {
            save_msg: save_noted(e, Some(error)).save_msg,
            ..e
        }),
        save_noted(e, None) == (EditorView { save_msg: save_noted(e, None).save_msg, ..e }),
{
}

/// A template can be saved exactly if it has a key or a background, and a path.
pub proof fn law_saving_needs_content_and_a_path(e: EditorView)
    requires
        e.colors.dom().finite(),
    ensures
        is_savable(e) <==> e.path.len() > 0 && (e.background is Some || exists|name: Seq<char>|
            e.colors.contains_key(name)),
{
    if e.colors.dom().len() > 0 {
        let name = e.colors.dom().choose();
        assert(e.colors.contains_key(name));
    } else {
        assert(e.colors.dom() =~= Set::empty());
    }
}

} // verus!
