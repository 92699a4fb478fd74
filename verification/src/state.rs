//! The tracked colours of all LEDs.
use crate::keys::LED_COUNT;
use vstd::prelude::*;

verus! {

/// The name of the file that stores the state, in the home directory of the user.
pub const STATE_FILE: &'static str = ".roccat-vulkan-rgb-state.json";

/// The colour of an LED.
#[derive(Debug, Clone, Copy, PartialEq, Eq, Structural)]
pub struct Rgb {
    pub r: u8,
    pub g: u8,
    pub b: u8,
}

/// No light.
pub open spec fn black() -> Rgb {
    Rgb { r: 0, g: 0, b: 0 }
}

impl Default for Rgb {
    fn default() -> (r: Rgb)
        ensures
            r == black(),
    {
        Rgb { r: 0, g: 0, b: 0 }
    }
}

/// A map that shows one colour on every LED.
pub open spec fn uniform(color: Rgb, count: nat) -> Seq<Rgb> {
    Seq::new(count, |i: int| color)
}

/// `leds` cut or filled up with black to `count` LEDs.
pub open spec fn resized(leds: Seq<Rgb>, count: nat) -> Seq<Rgb> {
    Seq::new(
        count,
        |i: int|
            if i < leds.len() {
                leds[i]
            } else {
                black()
            },
    )
}

/// `count` LEDs of one colour.
pub fn uniform_map(color: Rgb, count: usize) -> (r: Vec<Rgb>)
    ensures
        r@ == uniform(color, count as nat),
{
    let mut leds: Vec<Rgb> = Vec::new();
    while leds.len() < count
        invariant
            leds.len() <= count,
            leds@ == uniform(color, leds@.len()),
        decreases count - leds.len(),
    {
        leds.push(color);
        assert(leds@ =~= uniform(color, leds@.len()));
    }
    leds
}

/// The colours that the tool has last given to the LEDs.
#[derive(Debug)]
pub struct State {
    pub leds: Vec<Rgb>,
}

impl State {
    /// The state holds a colour for every LED.
    pub open spec fn wf(&self) -> bool {
        self.leds@.len() == LED_COUNT
    }

    /// All LEDs black.
    pub fn new() -> (r: State)
        ensures
            r.wf(),
            r.leds@ == uniform(black(), LED_COUNT as nat),
    {
        State { leds: uniform_map(Rgb::default(), LED_COUNT) }
    }

    /// The tracked colour of an LED.
    pub fn get(&self, led: usize) -> (r: Rgb)
        requires
            self.wf(),
            led < LED_COUNT,
        ensures
            r == self.leds@[led as int],
    {
        self.leds[led]
    }

    /// Gives one LED a colour and returns the one it had.
    pub fn set(&mut self, led: usize, color: Rgb) -> (r: Rgb)
        requires
            old(self).wf(),
            led < LED_COUNT,
        ensures
            final(self).wf(),
            final(self).leds@ == old(self).leds@.update(led as int, color),
            r == old(self).leds@[led as int],
    {
        let before: Rgb = self.leds[led];
        self.leds.set(led, color);
        before
    }

    /// Gives every LED the same colour.
    pub fn set_all(&mut self, color: Rgb)
        ensures
            final(self).wf(),
            final(self).leds@ == uniform(color, LED_COUNT as nat),
    {
        self.leds = uniform_map(color, LED_COUNT);
    }
}

/// The state that a stored LED map stands for; without one, all LEDs are black.
pub fn load_state(stored: Option<Vec<Rgb>>) -> (r: State)
    ensures
        r.wf(),
        r.leds@ == match stored {
            Some(leds) => resized(leds@, LED_COUNT as nat),
            None => uniform(black(), LED_COUNT as nat),
        },
{
    match stored {
        None => State::new(),
        Some(leds) => {
            let mut out: Vec<Rgb> = Vec::new();
            while out.len() < LED_COUNT
                invariant
                    out.len() <= LED_COUNT,
                    out@ == resized(leds@, out@.len()),
                decreases LED_COUNT - out.len(),
            {
                let i: usize = out.len();
                if i < leds.len() {
                    out.push(leds[i]);
                } else {
                    out.push(Rgb::default());
                }
                assert(out@ =~= resized(leds@, out@.len()));
            }
            State { leds: out }
        },
    }
}

/// The LED map under a live preview: that of the loaded state, or black where it could not be
/// loaded.
pub fn base_leds(loaded: Option<State>) -> (r: Vec<Rgb>)
    ensures
        r@ == match loaded {
            Some(state) => state.leds@,
            None => uniform(black(), LED_COUNT as nat),
        },
{
    match loaded {
        Some(state) => state.leds,
        None => uniform_map(Rgb::default(), LED_COUNT),
    }
}

/// A state that was stored is loaded as it was.
pub proof fn law_stored_state_loads_unchanged(leds: Seq<Rgb>)
    requires
        leds.len() == LED_COUNT,
    ensures
        resized(leds, LED_COUNT as nat) == leds,
{
    assert(resized(leds, LED_COUNT as nat) =~= leds);
}

/// The map after each of the first `n` LEDs was set to `color`, one by one.
pub open spec fn set_one_by_one(leds: Seq<Rgb>, color: Rgb, n: int) -> Seq<Rgb>
    decreases n,
{
    if n <= 0 {
        leds
    } else {
        set_one_by_one(leds, color, n - 1).update(n - 1, color)
    }
}

proof fn lemma_set_one_by_one(leds: Seq<Rgb>, color: Rgb, n: int)
    requires
        0 <= n <= leds.len(),
    ensures
        set_one_by_one(leds, color, n) == uniform(color, n as nat) + leds.skip(n),
    decreases n,
{
    if n > 0 {
        lemma_set_one_by_one(leds, color, n - 1);
    }
    assert(set_one_by_one(leds, color, n) =~= uniform(color, n as nat) + leds.skip(n));
}

/// Setting all LEDs at once is setting every LED by itself.
pub proof fn law_set_all_sets_every_led(leds: Seq<Rgb>, color: Rgb)
    requires
        leds.len() == LED_COUNT,
    ensures
        set_one_by_one(leds, color, LED_COUNT as int) == uniform(color, LED_COUNT as nat),
{
    lemma_set_one_by_one(leds, color, LED_COUNT as int);
    assert(set_one_by_one(leds, color, LED_COUNT as int) =~= uniform(color, LED_COUNT as nat));
}

/// A map of one colour has it on each of its LEDs, and as many LEDs as were asked for.
pub proof fn law_uniform_map_has_one_color(color: Rgb, count: nat, led: int)
    ensures
        uniform(color, count).len() == count,
        0 <= led < count ==> uniform(color, count)[led] == color,
{
}

/// Resizing keeps the colours of the LEDs that remain and leaves new ones dark.
pub proof fn law_resizing_keeps_colors(leds: Seq<Rgb>, count: nat, led: int)
    ensures
        resized(leds, count).len() == count,
        0 <= led < count && led < leds.len() ==> resized(leds, count)[led] == leds[led],
        leds.len() <= led < count ==> {
            let dark = resized(leds, count)[led];
            dark.r == 0 && dark.g == 0 && dark.b == 0
        },
{
}

/// A state without a stored map is dark: it is what an empty stored map is filled up to. The map is
/// stored in a hidden file of the user.
pub proof fn law_no_map_is_dark(count: nat)
    ensures
        uniform(black(), count) == resized(Seq::empty(), count),
        black().r == 0 && black().g == 0 && black().b == 0,
        STATE_FILE@ == ".roccat-vulkan-rgb-state.json"@,
{
    assert(uniform(black(), count) =~= resized(Seq::empty(), count));
}

} // verus!
