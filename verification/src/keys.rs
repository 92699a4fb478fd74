//! The keys of the keyboard, by name and by LED.
use crate::text;
use vstd::prelude::*;
use vstd::string::*;

verus! {

/// The number of LEDs that the keyboard addresses.
pub const LED_COUNT: usize = 127;

/// The names of the keys and the matrix indices of their LEDs, on the ISO layout of the
/// Vulkan Pro TKL.
pub const KEY_ALIASES: [(&'static str, usize); 86] = [
    ("LEFT_SHIFT", 0),
    ("LEFT_CTRL", 1),
    ("ESC", 2),
    ("GRAVE", 3),
    ("TAB", 4),
    ("CAPS_LOCK", 5),
    ("NONUS_BACKSLASH", 6),
    ("LEFT_WIN", 7),
    ("1", 8),
    ("Q", 9),
    ("A", 10),
    ("Z", 11),
    ("LEFT_ALT", 12),
    ("F1", 13),
    ("2", 14),
    ("W", 15),
    ("S", 16),
    ("X", 17),
    ("3", 21),
    ("E", 22),
    ("D", 23),
    ("C", 24),
    ("4", 26),
    ("R", 27),
    ("F", 28),
    ("V", 29),
    ("F2", 20),
    ("F3", 25),
    ("F4", 30),
    ("5", 31),
    ("T", 32),
    ("G", 33),
    ("B", 34),
    ("SPACE", 35),
    ("6", 36),
    ("Y", 37),
    ("H", 38),
    ("N", 39),
    ("F5", 40),
    ("F6", 47),
    ("7", 41),
    ("U", 42),
    ("J", 43),
    ("M", 44),
    ("8", 48),
    ("I", 49),
    ("K", 50),
    ("COMMA", 51),
    ("F7", 53),
    ("F8", 59),
    ("9", 54),
    ("O", 55),
    ("L", 56),
    ("DOT", 57),
    ("RIGHT_ALT", 58),
    ("F9", 65),
    ("0", 60),
    ("P", 61),
    ("SEMICOLON", 62),
    ("SLASH", 63),
    ("FN", 64),
    ("F10", 71),
    ("MINUS", 66),
    ("LEFT_BRACKET", 67),
    ("APOSTROPHE", 68),
    ("RIGHT_SHIFT", 75),
    ("MENU", 70),
    ("F11", 77),
    ("EQUAL", 72),
    ("RIGHT_BRACKET", 73),
    ("ENTER", 74),
    ("RIGHT_CTRL", 76),
    ("F12", 79),
    ("BACKSPACE", 80),
    ("BACKSLASH", 82),
    ("INSERT", 84),
    ("DELETE", 85),
    ("LEFT", 86),
    ("PRINT", 92),
    ("HOME", 88),
    ("END", 89),
    ("DOWN", 91),
    ("PAGE_UP", 93),
    ("PAGE_DOWN", 94),
    ("UP", 90),
    ("RIGHT", 95),
];

/// The name in a row of the table.
pub open spec fn alias_name(row: int) -> Seq<char> {
    KEY_ALIASES@[row].0@
}

/// The LED in a row of the table.
pub open spec fn alias_led(row: int) -> nat {
    KEY_ALIASES@[row].1 as nat
}

/// The LED of the first row at or below `row` that holds `name`.
pub open spec fn led_from_row(name: Seq<char>, row: int) -> Option<nat>
    decreases KEY_ALIASES@.len() - row,
{
    if row >= KEY_ALIASES@.len() {
        None
    } else if alias_name(row) == name {
        Some(alias_led(row))
    } else {
        led_from_row(name, row + 1)
    }
}

/// The LED of the key with exactly this name.
pub open spec fn named_led(name: Seq<char>) -> Option<nat> {
    led_from_row(name, 0)
}

/// How a character of a key name counts: letters in upper case, `-` as `_`.
pub open spec fn normalized_char(c: char) -> char {
    if c == '-' {
        '_'
    } else {
        text::ascii_upper(c)
    }
}

/// A key name as the table writes it: trimmed, in upper case, with `_` for `-`.
pub open spec fn normalized(name: Seq<char>) -> Seq<char> {
    text::trimmed(name).map_values(|c: char| normalized_char(c))
}

/// The LED that a key argument means: that of the key so named, or else the LED whose raw
/// index it writes out.
pub open spec fn key_led(key: Seq<char>) -> Option<nat> {
    match named_led(normalized(key)) {
        Some(led) => Some(led),
        None => match text::number(normalized(key)) {
            Some(n) => if n < LED_COUNT {
                Some(n)
            } else {
                None
            },
            None => None,
        },
    }
}

/// What a `KeyError` says, with the name as text.
pub enum KeyFault {
    UnknownName(Seq<char>),
    OutOfRange(usize),
    Unspecified,
}

/// The LED that the arguments of a command mean. A key name goes before a raw index.
pub open spec fn resolved(key: Option<Seq<char>>, index: Option<usize>) -> Result<nat, KeyFault> {
    match (key, index) {
        (Some(name), _) => match key_led(name) {
            Some(led) => Ok(led),
            None => Err(KeyFault::UnknownName(name)),
        },
        (None, Some(n)) => if n < LED_COUNT {
            Ok(n as nat)
        } else {
            Err(KeyFault::OutOfRange(n))
        },
        (None, None) => Err(KeyFault::Unspecified),
    }
}

/// The text of an optional key argument.
pub open spec fn key_text(key: Option<String>) -> Option<Seq<char>> {
    match key {
        Some(name) => Some(name@),
        None => None,
    }
}

/// Why a key could not be resolved to an LED.
#[derive(Debug)]
pub enum KeyError {
    /// No key has this name, and it is no raw index in range.
    UnknownName(String),
    /// The raw index is not that of an LED.
    OutOfRange(usize),
    /// Neither a name nor an index was given.
    Unspecified,
}

impl View for KeyError {
    type V = KeyFault;

    open spec fn view(&self) -> KeyFault {
        match self {
            KeyError::UnknownName(name) => KeyFault::UnknownName(name@),
            KeyError::OutOfRange(index) => KeyFault::OutOfRange(*index),
            KeyError::Unspecified => KeyFault::Unspecified,
        }
    }
}

impl KeyError {
    /// The message for the user.
    pub open spec fn text(&self) -> Seq<char> {
        match self {
            KeyError::UnknownName(name) => "unknown key name '"@ + name@
                + "'; run 'list-keys' to see all valid names"@,
            KeyError::OutOfRange(index) => "key index out of range: "@ + text::decimal(
                *index as nat,
            ) + " (expected 0.."@ + text::decimal((LED_COUNT - 1) as nat) + ")"@,
            KeyError::Unspecified => "specify either --key <name> or --index <number>"@,
        }
    }

    /// The message for the user.
    pub fn message(&self) -> (r: String)
        ensures
            r@ == self.text(),
    {
        match self {
            KeyError::UnknownName(name) => {
                let mut out: String = "unknown key name '".to_owned();
                out.append(name.as_str());
                out.append("'; run 'list-keys' to see all valid names");
                out
            },
            KeyError::OutOfRange(index) => {
                let mut out: String = "key index out of range: ".to_owned();
                text::push_decimal(&mut out, *index);
                out.append(" (expected 0..");
                text::push_decimal(&mut out, LED_COUNT - 1);
                out.append(")");
                out
            },
            KeyError::Unspecified => "specify either --key <name> or --index <number>".to_owned(),
        }
    }
}

/// The LED of the key with exactly this name.
pub fn find_alias(name: &str) -> (r: Option<usize>)
    ensures
        match r {
            Some(led) => named_led(name@) == Some(led as nat),
            None => named_led(name@) is None,
        },
{
    let mut row: usize = 0;
    while row < KEY_ALIASES.len()
        invariant
            row <= KEY_ALIASES@.len(),
            named_led(name@) == led_from_row(name@, row as int),
        decreases KEY_ALIASES@.len() - row,
    {
        if text::same_text(KEY_ALIASES[row].0, name) {
            return Some(KEY_ALIASES[row].1);
        }
        row += 1;
    }
    None
}

/// A key name as the table writes it: trimmed, in upper case, with `_` for `-`.
pub fn normalize_key_name(name: &str) -> (r: String)
    ensures
        r@ == normalized(name@),
{
    let x: Vec<char> = text::chars(text::trim(name));
    let mut out: String = String::new();
    let mut i: usize = 0;
    while i < x.len()
        invariant
            x@ == text::trimmed(name@),
            i <= x.len(),
            out@ == x@.take(i as int).map_values(|c: char| normalized_char(c)),
        decreases x.len() - i,
    {
        let c: char = x[i];
        let d: char = if c == '-' {
            '_'
        } else if 'a' <= c && c <= 'z' {
            ((c as u8) - 32u8) as char
        } else {
            c
        };
        out.push(d);
        i += 1;
        assert(out@ =~= x@.take(i as int).map_values(|c: char| normalized_char(c)));
    }
    assert(x@.take(i as int) =~= x@);
    out
}

/// The raw LED index that `s` writes in decimal digits, if there is such an LED.
fn parse_index(s: &str) -> (r: Option<usize>)
    ensures
        match r {
            Some(n) => text::number(s@) == Some(n as nat) && n < LED_COUNT,
            None => match text::number(s@) {
                Some(n) => n >= LED_COUNT,
                None => true,
            },
        },
{
    let x: Vec<char> = text::chars(s);
    if x.len() == 0 {
        return None;
    }
    let mut n: usize = 0;
    let mut i: usize = 0;
    while i < x.len()
        invariant
            x@ == s@,
            i <= x.len(),
            n < LED_COUNT,
            i > 0 ==> text::number(s@.take(i as int)) == Some(n as nat),
            i == 0 ==> n == 0,
        decreases x.len() - i,
    {
        let c: char = x[i];
        assert(s@.take(i + 1).drop_last() =~= s@.take(i as int));
        if !('0' <= c && c <= '9') {
            proof {
                lemma_number_cut(s@, i + 1);
            }
            return None;
        }
        let d: usize = (c as u8 - 48u8) as usize;
        let m: usize = 10 * n + d;
        assert(text::number(s@.take(i + 1)) == Some(m as nat));
        if m >= LED_COUNT {
            proof {
                lemma_number_cut(s@, i + 1);
            }
            return None;
        }
        n = m;
        i += 1;
    }
    assert(s@.take(i as int) =~= s@);
    Some(n)
}

/// A longer numeral is no smaller than its beginning, and no numeral at all if that is none.
proof fn lemma_number_cut(s: Seq<char>, k: int)
    requires
        0 < k <= s.len(),
    ensures
        match (text::number(s), text::number(s.take(k))) {
            (Some(n), Some(m)) => n >= m,
            (Some(_), None) => false,
            (None, _) => true,
        },
    decreases s.len(),
{
    if k == s.len() {
        assert(s.take(k) =~= s);
    } else {
        lemma_number_cut(s.drop_last(), k);
        assert(s.drop_last().take(k) =~= s.take(k));
    }
}

/// The evdev names of keys, without their prefix, that differ from the names in the table of keys.
pub const EVDEV_RENAMES: [(&'static str, &'static str); 15] = [
    ("LEFTSHIFT", "LEFT_SHIFT"),
    ("LEFTCTRL", "LEFT_CTRL"),
    ("LEFTALT", "LEFT_ALT"),
    ("LEFTMETA", "LEFT_WIN"),
    ("RIGHTSHIFT", "RIGHT_SHIFT"),
    ("RIGHTCTRL", "RIGHT_CTRL"),
    ("RIGHTALT", "RIGHT_ALT"),
    ("CAPSLOCK", "CAPS_LOCK"),
    ("102ND", "NONUS_BACKSLASH"),
    ("COMPOSE", "MENU"),
    ("SYSRQ", "PRINT"),
    ("LEFTBRACE", "LEFT_BRACKET"),
    ("RIGHTBRACE", "RIGHT_BRACKET"),
    ("PAGEUP", "PAGE_UP"),
    ("PAGEDOWN", "PAGE_DOWN"),
];

/// The name from the first row at or below `row` that renames `bare`; without one, `bare` itself.
pub open spec fn renamed_from_row(bare: Seq<char>, row: int) -> Seq<char>
    decreases EVDEV_RENAMES@.len() - row,
{
    if row >= EVDEV_RENAMES@.len() {
        bare
    } else if EVDEV_RENAMES@[row].0@ == bare {
        EVDEV_RENAMES@[row].1@
    } else {
        renamed_from_row(bare, row + 1)
    }
}

/// An evdev name without the prefix `KEY_`, if it has one.
pub open spec fn evdev_bare(evdev_name: Seq<char>) -> Seq<char> {
    if text::begins_with(evdev_name, "KEY_"@) {
        evdev_name.skip("KEY_"@.len() as int)
    } else {
        evdev_name
    }
}

/// The name of a key in the table of keys, from its evdev name: the name without the prefix
/// `KEY_`, renamed where the two differ. A name that leads to no key of the table is kept as it is.
pub open spec fn evdev_alias(evdev_name: Seq<char>) -> Seq<char> {
    let name = renamed_from_row(evdev_bare(evdev_name), 0);
    if named_led(name) is Some {
        name
    } else {
        evdev_name
    }
}

/// The table's name for a key with this evdev name, given without its prefix.
fn rename(bare: &str) -> (r: String)
    ensures
        r@ == renamed_from_row(bare@, 0),
{
    let mut row: usize = 0;
    while row < EVDEV_RENAMES.len()
        invariant
            row <= EVDEV_RENAMES@.len(),
            renamed_from_row(bare@, 0) == renamed_from_row(bare@, row as int),
        decreases EVDEV_RENAMES@.len() - row,
    {
        if text::same_text(EVDEV_RENAMES[row].0, bare) {
            return EVDEV_RENAMES[row].1.to_owned();
        }
        row += 1;
    }
    bare.to_owned()
}

/// Maps an evdev key name, such as `KEY_LEFTSHIFT`, to the name in the table of keys, such as
/// `LEFT_SHIFT`. A name that leads to no key of the table, such as `KEY_VOLUMEUP`, is kept as it
/// is.
pub fn evdev_to_alias(evdev_name: &str) -> (r: String)
    ensures
        r@ == evdev_alias(evdev_name@),
{
    let bare: &str = match text::strip_prefix(evdev_name, "KEY_") {
        Some(rest) => rest,
        None => evdev_name,
    };
    let name: String = rename(bare);
    match find_alias(name.as_str()) {
        Some(_) => name,
        None => evdev_name.to_owned(),
    }
}

/// Accepts the indices of LEDs.
pub fn validate_key(key: usize) -> (r: Result<(), KeyError>)
    ensures
        match r {
            Ok(_) => key < LED_COUNT,
            Err(e) => key >= LED_COUNT && e@ == KeyFault::OutOfRange(key),
        },
{
    if key >= LED_COUNT {
        return Err(KeyError::OutOfRange(key));
    }
    Ok(())
}

/// The LED that the arguments of a command mean. A key name goes before a raw index.
pub fn resolve_key_spec(key: Option<String>, index: Option<usize>) -> (r: Result<usize, KeyError>)
    ensures
        match r {
            Ok(led) => led < LED_COUNT && resolved(key_text(key), index) == Ok::<nat, KeyFault>(
                led as nat,
            ),
            Err(e) => resolved(key_text(key), index) == Err::<nat, KeyFault>(e@),
        },
        key is None && index is Some ==> match r {
            Ok(led) => Some(led) == index,
            Err(e) => index->0 >= LED_COUNT && e == KeyError::OutOfRange(index->0),
        },
{
    if let Some(name) = key {
        let normal: String = normalize_key_name(name.as_str());
        if let Some(led) = find_alias(normal.as_str()) {
            proof {
                lemma_named_led_in_range(normal@);
            }
            return Ok(led);
        }
        return match parse_index(normal.as_str()) {
            Some(led) => Ok(led),
            None => Err(KeyError::UnknownName(name)),
        };
    }
    if let Some(led) = index {
        match validate_key(led) {
            Ok(_) => Ok(led),
            Err(e) => Err(e),
        }
    } else {
        Err(KeyError::Unspecified)
    }
}

/// The line of a row in the list of keys.
pub open spec fn listed_row(row: int) -> Seq<char> {
    text::padded_right(alias_name(row), 18) + " "@ + text::decimal(alias_led(row))
}

/// The lines of the list of keys, one for each row of the table.
pub fn list_keys() -> (r: Vec<String>)
    ensures
        r@.len() == KEY_ALIASES@.len(),
        forall|row: int| 0 <= row < r@.len() ==> (#[trigger] r@[row])@ == listed_row(row),
{
    let mut out: Vec<String> = Vec::new();
    let mut row: usize = 0;
    while row < KEY_ALIASES.len()
        invariant
            row <= KEY_ALIASES@.len(),
            out@.len() == row,
            forall|k: int| 0 <= k < row ==> (#[trigger] out@[k])@ == listed_row(k),
        decreases KEY_ALIASES@.len() - row,
    {
        let mut line: String = String::new();
        text::push_padded_right(&mut line, KEY_ALIASES[row].0, 18);
        line.append(" ");
        text::push_decimal(&mut line, KEY_ALIASES[row].1);
        assert(line@ =~= listed_row(row as int));
        out.push(line);
        row += 1;
    }
    out
}

/// A character of the names in the table.
pub open spec fn is_name_char(c: char) -> bool {
    ('A' <= c && c <= 'Z') || ('0' <= c && c <= '9') || c == '_'
}

/// A number that tells the names of the table apart.
spec fn name_print(s: Seq<char>) -> int {
    s.len() * 1000000 + s.first() as int * 1000 + s.last() as int
}

/// The facts about the names that come from reading them.
proof fn lemma_alias_names()
    ensures
        forall|i: int, j: int|
            0 <= i < j < KEY_ALIASES@.len() ==> name_print(#[trigger] alias_name(i)) != name_print(
                #[trigger] alias_name(j),
            ),
        forall|i: int|
            0 <= i < KEY_ALIASES@.len() ==> {
                &&& 0 < (#[trigger] alias_name(i)).len() <= 18
                &&& alias_name(i).len() >= 2 ==> !text::is_digit(alias_name(i)[0])
                &&& alias_name(i).len() >= 2 ==> alias_name(i)[0] != 'K'
            },
        forall|i: int, k: int|
            0 <= i < KEY_ALIASES@.len() && 0 <= k < alias_name(i).len() ==> is_name_char(
                #[trigger] alias_name(i)[k],
            ),
        forall|i: int, row: int|
            0 <= i < EVDEV_RENAMES@.len() && 0 <= row < KEY_ALIASES@.len() ==> name_print(
                (#[trigger] EVDEV_RENAMES@[i]).0@,
            ) != name_print(#[trigger] alias_name(row)),
        forall|i: int, j: int|
            0 <= i < j < EVDEV_RENAMES@.len() ==> name_print((#[trigger] EVDEV_RENAMES@[i]).0@)
                != name_print((#[trigger] EVDEV_RENAMES@[j]).0@),
        forall|i: int|
            0 <= i < EVDEV_RENAMES@.len() ==> (#[trigger] EVDEV_RENAMES@[i]).0@.len() > 0
                && EVDEV_RENAMES@[i].0@[0] != 'K',
{
    reveal_strlit("LEFTSHIFT");
    reveal_strlit("LEFTCTRL");
    reveal_strlit("LEFTALT");
    reveal_strlit("LEFTMETA");
    reveal_strlit("RIGHTSHIFT");
    reveal_strlit("RIGHTCTRL");
    reveal_strlit("RIGHTALT");
    reveal_strlit("CAPSLOCK");
    reveal_strlit("102ND");
    reveal_strlit("COMPOSE");
    reveal_strlit("SYSRQ");
    reveal_strlit("LEFTBRACE");
    reveal_strlit("RIGHTBRACE");
    reveal_strlit("PAGEUP");
    reveal_strlit("PAGEDOWN");
    reveal_strlit("LEFT_SHIFT");
    reveal_strlit("LEFT_CTRL");
    reveal_strlit("ESC");
    reveal_strlit("GRAVE");
    reveal_strlit("TAB");
    reveal_strlit("CAPS_LOCK");
    reveal_strlit("NONUS_BACKSLASH");
    reveal_strlit("LEFT_WIN");
    reveal_strlit("1");
    reveal_strlit("Q");
    reveal_strlit("A");
    reveal_strlit("Z");
    reveal_strlit("LEFT_ALT");
    reveal_strlit("F1");
    reveal_strlit("2");
    reveal_strlit("W");
    reveal_strlit("S");
    reveal_strlit("X");
    reveal_strlit("3");
    reveal_strlit("E");
    reveal_strlit("D");
    reveal_strlit("C");
    reveal_strlit("4");
    reveal_strlit("R");
    reveal_strlit("F");
    reveal_strlit("V");
    reveal_strlit("F2");
    reveal_strlit("F3");
    reveal_strlit("F4");
    reveal_strlit("5");
    reveal_strlit("T");
    reveal_strlit("G");
    reveal_strlit("B");
    reveal_strlit("SPACE");
    reveal_strlit("6");
    reveal_strlit("Y");
    reveal_strlit("H");
    reveal_strlit("N");
    reveal_strlit("F5");
    reveal_strlit("F6");
    reveal_strlit("7");
    reveal_strlit("U");
    reveal_strlit("J");
    reveal_strlit("M");
    reveal_strlit("8");
    reveal_strlit("I");
    reveal_strlit("K");
    reveal_strlit("COMMA");
    reveal_strlit("F7");
    reveal_strlit("F8");
    reveal_strlit("9");
    reveal_strlit("O");
    reveal_strlit("L");
    reveal_strlit("DOT");
    reveal_strlit("RIGHT_ALT");
    reveal_strlit("F9");
    reveal_strlit("0");
    reveal_strlit("P");
    reveal_strlit("SEMICOLON");
    reveal_strlit("SLASH");
    reveal_strlit("FN");
    reveal_strlit("F10");
    reveal_strlit("MINUS");
    reveal_strlit("LEFT_BRACKET");
    reveal_strlit("APOSTROPHE");
    reveal_strlit("RIGHT_SHIFT");
    reveal_strlit("MENU");
    reveal_strlit("F11");
    reveal_strlit("EQUAL");
    reveal_strlit("RIGHT_BRACKET");
    reveal_strlit("ENTER");
    reveal_strlit("RIGHT_CTRL");
    reveal_strlit("F12");
    reveal_strlit("BACKSPACE");
    reveal_strlit("BACKSLASH");
    reveal_strlit("INSERT");
    reveal_strlit("DELETE");
    reveal_strlit("LEFT");
    reveal_strlit("PRINT");
    reveal_strlit("HOME");
    reveal_strlit("END");
    reveal_strlit("DOWN");
    reveal_strlit("PAGE_UP");
    reveal_strlit("PAGE_DOWN");
    reveal_strlit("UP");
    reveal_strlit("RIGHT");
}

/// The row in which a name is found.
proof fn lemma_found_row(name: Seq<char>, from: int) -> (row: int)
    requires
        0 <= from,
        led_from_row(name, from) is Some,
    ensures
        from <= row < KEY_ALIASES@.len(),
        alias_name(row) == name,
        led_from_row(name, from) == Some(alias_led(row)),
    decreases KEY_ALIASES@.len() - from,
{
    if alias_name(from) == name {
        from
    } else {
        lemma_found_row(name, from + 1)
    }
}

proof fn lemma_alias_leds()
    ensures
        forall|i: int, j: int|
            0 <= i < j < KEY_ALIASES@.len() ==> #[trigger] alias_led(i) != #[trigger] alias_led(j),
        forall|i: int| 0 <= i < KEY_ALIASES@.len() ==> #[trigger] alias_led(i) < 96,
{
}

/// A key name stands for an LED of the keyboard, and one of the first 96.
pub proof fn lemma_named_led_in_range(name: Seq<char>)
    ensures
        named_led(name) matches Some(led) ==> led < 96 && led < LED_COUNT,
{
    if named_led(name) is Some {
        let row = lemma_found_row(name, 0);
        lemma_alias_leds();
    }
}

/// Two names of keys never stand for the same LED.
pub proof fn law_names_have_their_own_led(a: Seq<char>, b: Seq<char>)
    requires
        named_led(a) is Some,
        named_led(a) == named_led(b),
    ensures
        a == b,
{
    let i = lemma_found_row(a, 0);
    let j = lemma_found_row(b, 0);
    lemma_alias_leds();
}

proof fn lemma_row_is_found(row: int, from: int)
    requires
        0 <= from <= row < KEY_ALIASES@.len(),
    ensures
        led_from_row(alias_name(row), from) == Some(alias_led(row)),
    decreases row - from,
{
    if from < row {
        lemma_alias_names();
        assert(alias_name(from) != alias_name(row)) by {
            assert(name_print(alias_name(from)) != name_print(alias_name(row)));
        }
        lemma_row_is_found(row, from + 1);
    }
}

/// A text without white space at its ends is what trimming leaves of it.
proof fn lemma_trimmed_is_itself(s: Seq<char>)
    requires
        s.len() > 0 ==> !text::is_white_space(s.first()) && !text::is_white_space(s.last()),
    ensures
        text::trimmed(s) == s,
{
}

/// What trimming leaves has no white space at its ends.
proof fn lemma_trimmed_ends(s: Seq<char>)
    ensures
        ({
            let t = text::trimmed(s);
            t.len() > 0 ==> !text::is_white_space(t.first()) && !text::is_white_space(t.last())
        }),
{
    lemma_trimmed_start_first(s);
    lemma_trimmed_end_ends(text::trimmed_start(s));
}

proof fn lemma_trimmed_start_first(s: Seq<char>)
    ensures
        ({
            let t = text::trimmed_start(s);
            t.len() > 0 ==> !text::is_white_space(t.first())
        }),
    decreases s.len(),
{
    if s.len() > 0 && text::is_white_space(s.first()) {
        lemma_trimmed_start_first(s.drop_first());
    }
}

proof fn lemma_trimmed_end_ends(s: Seq<char>)
    ensures
        ({
            let t = text::trimmed_end(s);
            t.len() > 0 ==> t.first() == s.first() && !text::is_white_space(t.last())
        }),
    decreases s.len(),
{
    if s.len() > 0 && text::is_white_space(s.last()) {
        lemma_trimmed_end_ends(s.drop_last());
    }
}

/// Every name in the list of keys resolves to the LED that is listed beside it.
pub proof fn law_listed_names_resolve(row: int)
    requires
        0 <= row < KEY_ALIASES@.len(),
    ensures
        named_led(alias_name(row)) == Some(alias_led(row)),
        key_led(alias_name(row)) == Some(alias_led(row)),
{
    lemma_alias_names();
    lemma_row_is_found(row, 0);
    let name = alias_name(row);
    assert(is_name_char(name[0]) && is_name_char(name[name.len() - 1]));
    lemma_trimmed_is_itself(name);
    assert(normalized(name) =~= name);
}

/// Resolving goes by the normalized name, which is its own normalized name.
pub proof fn law_normalizing_twice_is_once(name: Seq<char>)
    ensures
        normalized(normalized(name)) == normalized(name),
        key_led(normalized(name)) == key_led(name),
{
    let t = text::trimmed(name);
    let n = normalized(name);
    lemma_trimmed_ends(name);
    if t.len() > 0 {
        assert(n.first() == normalized_char(t.first()));
        assert(n.last() == normalized_char(t.last()));
    }
    lemma_trimmed_is_itself(n);
    assert(normalized(n) =~= n);
}

/// Neither the case of ASCII letters nor `-` for `_` in a key argument matters.
pub proof fn law_case_and_dash_do_not_matter(a: Seq<char>, b: Seq<char>)
    requires
        a.len() == b.len(),
        forall|i: int| 0 <= i < a.len() ==> normalized_char(#[trigger] a[i]) == normalized_char(b[i]),
    ensures
        normalized(a) == normalized(b),
        key_led(a) == key_led(b),
{
    lemma_trimmed_start_alike(a, b);
    lemma_trimmed_end_alike(text::trimmed_start(a), text::trimmed_start(b));
    assert(normalized(a) =~= normalized(b));
}

spec fn alike(a: Seq<char>, b: Seq<char>) -> bool {
    &&& a.len() == b.len()
    &&& forall|i: int|
        0 <= i < a.len() ==> normalized_char(#[trigger] a[i]) == normalized_char(b[i])
}

proof fn lemma_trimmed_start_alike(a: Seq<char>, b: Seq<char>)
    requires
        alike(a, b),
    ensures
        alike(text::trimmed_start(a), text::trimmed_start(b)),
    decreases a.len(),
{
    if a.len() > 0 {
        assert(normalized_char(a[0]) == normalized_char(b[0]));
        if text::is_white_space(a[0]) {
            assert forall|i: int| 0 <= i < a.len() - 1 implies normalized_char(
                #[trigger] a.drop_first()[i],
            ) == normalized_char(b.drop_first()[i]) by {
                assert(normalized_char(a[i + 1]) == normalized_char(b[i + 1]));
            }
            lemma_trimmed_start_alike(a.drop_first(), b.drop_first());
        }
    }
}

proof fn lemma_trimmed_end_alike(a: Seq<char>, b: Seq<char>)
    requires
        alike(a, b),
    ensures
        alike(text::trimmed_end(a), text::trimmed_end(b)),
    decreases a.len(),
{
    if a.len() > 0 {
        let k = a.len() - 1;
        assert(normalized_char(a[k]) == normalized_char(b[k]));
        if text::is_white_space(a[k]) {
            assert forall|i: int| 0 <= i < k implies normalized_char(
                #[trigger] a.drop_last()[i],
            ) == normalized_char(b.drop_last()[i]) by {
                assert(normalized_char(a[i]) == normalized_char(b[i]));
            }
            lemma_trimmed_end_alike(a.drop_last(), b.drop_last());
        }
    }
}

/// White space around a key argument does not matter.
pub proof fn law_surrounding_space_does_not_matter(before: Seq<char>, key: Seq<char>, after: Seq<char>)
    requires
        forall|i: int| 0 <= i < before.len() ==> text::is_white_space(#[trigger] before[i]),
        forall|i: int| 0 <= i < after.len() ==> text::is_white_space(#[trigger] after[i]),
    ensures
        normalized(before + key + after) == normalized(key),
        key_led(before + key + after) == key_led(key),
{
    lemma_space_before(before, key + after);
    assert(before + key + after =~= before + (key + after));
    lemma_space_after(key, after);
}

proof fn lemma_space_before(before: Seq<char>, s: Seq<char>)
    requires
        forall|i: int| 0 <= i < before.len() ==> text::is_white_space(#[trigger] before[i]),
    ensures
        text::trimmed_start(before + s) == text::trimmed_start(s),
    decreases before.len(),
{
    if before.len() == 0 {
        assert(before + s =~= s);
    } else {
        assert((before + s).first() == before[0]);
        assert((before + s).drop_first() =~= before.drop_first() + s);
        lemma_space_before(before.drop_first(), s);
    }
}

proof fn lemma_space_after_end(s: Seq<char>, after: Seq<char>)
    requires
        forall|i: int| 0 <= i < after.len() ==> text::is_white_space(#[trigger] after[i]),
    ensures
        text::trimmed_end(s + after) == text::trimmed_end(s),
    decreases after.len(),
{
    if after.len() == 0 {
        assert(s + after =~= s);
    } else {
        assert((s + after).last() == after[after.len() - 1]);
        assert((s + after).drop_last() =~= s + after.drop_last());
        lemma_space_after_end(s, after.drop_last());
    }
}

proof fn lemma_space_after(s: Seq<char>, after: Seq<char>)
    requires
        forall|i: int| 0 <= i < after.len() ==> text::is_white_space(#[trigger] after[i]),
    ensures
        text::trimmed(s + after) == text::trimmed(s),
    decreases s.len(),
{
    if s.len() == 0 {
        assert(s + after =~= after);
        assert(after =~= after + Seq::<char>::empty());
        lemma_space_before(after, Seq::empty());
        assert(s =~= Seq::empty());
    } else if text::is_white_space(s.first()) {
        assert((s + after).first() == s.first());
        assert((s + after).drop_first() =~= s.drop_first() + after);
        lemma_space_after(s.drop_first(), after);
    } else {
        assert((s + after).first() == s.first());
        lemma_space_after_end(s, after);
    }
}

proof fn lemma_decimal_is_digits(n: nat)
    ensures
        decimal_is_digits(n),
    decreases n,
{
    if n >= 10 {
        lemma_decimal_is_digits(n / 10);
        assert forall|i: int| 0 <= i < text::decimal(n).len() implies text::is_digit(
            #[trigger] text::decimal(n)[i],
        ) by {
            if i < text::decimal(n / 10).len() {
                assert(text::decimal(n)[i] == text::decimal(n / 10)[i]);
            }
        }
    }
}

spec fn decimal_is_digits(n: nat) -> bool {
    forall|i: int|
        0 <= i < text::decimal(n).len() ==> text::is_digit(#[trigger] text::decimal(n)[i])
}

/// A raw index of two or more digits resolves to itself; a single digit is the name of a key.
pub proof fn law_raw_index_resolves(index: nat)
    requires
        10 <= index < LED_COUNT,
    ensures
        key_led(text::decimal(index)) == Some(index),
{
    let s = text::decimal(index);
    text::lemma_decimal_reads_back(index);
    lemma_decimal_is_digits(index);
    assert(text::is_digit(s[0]) && text::is_digit(s[s.len() - 1]));
    lemma_trimmed_is_itself(s);
    assert(normalized(s) =~= s);
    if named_led(s) is Some {
        let row = lemma_found_row(s, 0);
        lemma_alias_names();
        assert(!text::is_digit(alias_name(row)[0]));
    }
}

/// A key argument resolves to an LED of the keyboard or to none.
pub proof fn law_resolved_led_exists(key: Seq<char>)
    ensures
        key_led(key) matches Some(led) ==> led < LED_COUNT,
{
    lemma_named_led_in_range(normalized(key));
}

/// Every evdev name that is renamed is given the name of a key in the table.
pub proof fn law_renames_lead_to_keys(row: int)
    requires
        0 <= row < EVDEV_RENAMES@.len(),
    ensures
        named_led(EVDEV_RENAMES@[row].1@) is Some,
{
    law_listed_names_resolve(0);
    law_listed_names_resolve(1);
    law_listed_names_resolve(12);
    law_listed_names_resolve(7);
    law_listed_names_resolve(65);
    law_listed_names_resolve(71);
    law_listed_names_resolve(54);
    law_listed_names_resolve(5);
    law_listed_names_resolve(6);
    law_listed_names_resolve(66);
    law_listed_names_resolve(78);
    law_listed_names_resolve(63);
    law_listed_names_resolve(69);
    law_listed_names_resolve(82);
    law_listed_names_resolve(83);
}

proof fn lemma_not_renamed(bare: Seq<char>, row: int)
    requires
        0 <= row,
        forall|i: int| 0 <= i < EVDEV_RENAMES@.len() ==> (#[trigger] EVDEV_RENAMES@[i]).0@ != bare,
    ensures
        renamed_from_row(bare, row) == bare,
    decreases EVDEV_RENAMES@.len() - row,
{
    if row < EVDEV_RENAMES@.len() {
        lemma_not_renamed(bare, row + 1);
    }
}

/// The evdev name that is a name of the table behind the prefix is that key.
pub proof fn law_prefixed_names_lead_to_keys(row: int)
    requires
        0 <= row < KEY_ALIASES@.len(),
    ensures
        evdev_alias("KEY_"@ + alias_name(row)) == alias_name(row),
{
    let name = alias_name(row);
    let whole = "KEY_"@ + name;
    law_listed_names_resolve(row);
    assert(whole.take("KEY_"@.len() as int) =~= "KEY_"@);
    assert(whole.skip("KEY_"@.len() as int) =~= name);
    lemma_alias_names();
    assert forall|i: int| 0 <= i < EVDEV_RENAMES@.len() implies (#[trigger] EVDEV_RENAMES@[i]).0@
        != name by {
        assert(name_print(EVDEV_RENAMES@[i].0@) != name_print(alias_name(row)));
    }
    lemma_not_renamed(name, 0);
}

proof fn lemma_renamed(row: int, from: int)
    requires
        0 <= from <= row < EVDEV_RENAMES@.len(),
        forall|i: int|
            0 <= i < row ==> (#[trigger] EVDEV_RENAMES@[i]).0@ != EVDEV_RENAMES@[row].0@,
    ensures
        renamed_from_row(EVDEV_RENAMES@[row].0@, from) == EVDEV_RENAMES@[row].1@,
    decreases row - from,
{
    if from < row {
        assert(EVDEV_RENAMES@[from].0@ != EVDEV_RENAMES@[row].0@);
        lemma_renamed(row, from + 1);
    }
}

/// The evdev name that is a renamed name behind the prefix is the key that it is renamed to.
pub proof fn law_renamed_names_lead_to_keys(row: int)
    requires
        0 <= row < EVDEV_RENAMES@.len(),
    ensures
        evdev_alias("KEY_"@ + EVDEV_RENAMES@[row].0@) == EVDEV_RENAMES@[row].1@,
{
    let name = EVDEV_RENAMES@[row].0@;
    let whole = "KEY_"@ + name;
    assert(whole.take("KEY_"@.len() as int) =~= "KEY_"@);
    assert(whole.skip("KEY_"@.len() as int) =~= name);
    lemma_alias_names();
    assert forall|i: int| 0 <= i < row implies (#[trigger] EVDEV_RENAMES@[i]).0@ != name by {
        assert(name_print(EVDEV_RENAMES@[i].0@) != name_print(EVDEV_RENAMES@[row].0@));
    }
    lemma_renamed(row, 0);
    law_renames_lead_to_keys(row);
}

/// An evdev name is mapped to the name of a key in the table or kept as it is.
pub proof fn law_unmapped_names_are_kept(evdev_name: Seq<char>)
    ensures
        named_led(evdev_alias(evdev_name)) is Some || evdev_alias(evdev_name) == evdev_name,
{
}

/// The text of a key argument is that of its string.
pub proof fn law_key_text_is_the_argument(name: String)
    ensures
        key_text(Some(name)) == Some(name@),
        key_text(None) is None,
{
}

/// A raw index means the LED with that index, if there is one, and is refused as out of range if
/// there is none. With two digits or more it means the same as a key argument.
pub proof fn law_index_is_its_own_led(index: usize)
    ensures
        index < LED_COUNT ==> resolved(None, Some(index)) == Ok::<nat, KeyFault>(index as nat),
        index >= LED_COUNT ==> resolved(None, Some(index)) == Err::<nat, KeyFault>(
            KeyFault::OutOfRange(index),
        ),
        10 <= index < LED_COUNT ==> resolved(Some(text::decimal(index as nat)), None) == resolved(
            None,
            Some(index),
        ),
{
    if 10 <= index < LED_COUNT {
        law_raw_index_resolves(index as nat);
    }
}

/// A key argument decides alone, whatever index stands beside it: it gives the LED of its key, or
/// it is refused under its own name. With neither argument there is nothing to resolve.
pub proof fn law_key_argument_decides_alone(key: Seq<char>, index: Option<usize>)
    ensures
        key_led(key) is Some ==> resolved(Some(key), index) == Ok::<nat, KeyFault>(key_led(key)->0),
        key_led(key) is None ==> resolved(Some(key), index) == Err::<nat, KeyFault>(
            KeyFault::UnknownName(key),
        ),
        resolved(None, None) == Err::<nat, KeyFault>(KeyFault::Unspecified),
{
}

/// A name is that of a key exactly if it is listed, with the LED that is listed for it.
pub proof fn law_names_are_those_of_the_table(name: Seq<char>, led: nat)
    ensures
        named_led(name) == Some(led) <==> exists|row: int|
            0 <= row < KEY_ALIASES@.len() && (#[trigger] KEY_ALIASES@[row]).0@ == name
                && KEY_ALIASES@[row].1 == led,
{
    if named_led(name) == Some(led) {
        let row = lemma_found_row(name, 0);
        assert(KEY_ALIASES@[row].0@ == name && KEY_ALIASES@[row].1 == led);
    }
    if exists|row: int|
        0 <= row < KEY_ALIASES@.len() && (#[trigger] KEY_ALIASES@[row]).0@ == name
            && KEY_ALIASES@[row].1 == led {
        let row = choose|row: int|
            0 <= row < KEY_ALIASES@.len() && (#[trigger] KEY_ALIASES@[row]).0@ == name
                && KEY_ALIASES@[row].1 == led;
        law_listed_names_resolve(row);
    }
}

/// A key argument is read as the name of a key, and only if no key has that name, as a raw index.
/// What is neither means no LED.
pub proof fn law_names_go_before_numerals(key: Seq<char>)
    ensures
        named_led(normalized(key)) is Some ==> key_led(key) == named_led(normalized(key)),
        named_led(normalized(key)) is None ==> match text::number(normalized(key)) {
            Some(n) => if n < LED_COUNT {
                key_led(key) == Some(n)
            } else {
                key_led(key) is None
            },
            None => key_led(key) is None,
        },
{
}

/// Normalizing trims a name and then changes it character by character: `-` to `_`, the letters
/// `a` to `z` to upper case, and nothing else.
pub proof fn law_normalizing_changes_each_character(name: Seq<char>, i: int)
    requires
        0 <= i < text::trimmed(name).len(),
    ensures
        normalized(name).len() == text::trimmed(name).len(),
        ({
            let c = text::trimmed(name)[i];
            let d = normalized(name)[i];
            if c == '-' {
                d == '_'
            } else if 'a' <= c && c <= 'z' {
                d as int == c as int - 'a' as int + 'A' as int
            } else {
                d == c
            }
        }),
{
}

/// The messages about keys name what was asked for.
pub proof fn law_key_messages(name: String, index: usize)
    ensures
        KeyError::UnknownName(name).text() == "unknown key name '"@ + name@
            + "'; run 'list-keys' to see all valid names"@,
        KeyError::OutOfRange(index).text() == "key index out of range: "@ + text::decimal(
            index as nat,
        ) + " (expected 0.."@ + text::decimal(126) + ")"@,
        KeyError::Unspecified.text() == "specify either --key <name> or --index <number>"@,
        KeyError::UnknownName(name)@ == KeyFault::UnknownName(name@),
        KeyError::OutOfRange(index)@ == KeyFault::OutOfRange(index),
        KeyError::Unspecified@ == KeyFault::Unspecified,
{
}

/// An evdev name is changed only to the name of the key that it writes behind the prefix, or to
/// the one that the list of renamed names gives it, with the prefix or without.
pub proof fn law_mapped_names_are_listed(evdev_name: Seq<char>)
    ensures
        ({
            let name = evdev_alias(evdev_name);
            ||| name == evdev_name
            ||| evdev_name == "KEY_"@ + name
            ||| exists|row: int|
                0 <= row < EVDEV_RENAMES@.len() && (#[trigger] EVDEV_RENAMES@[row]).1@ == name && (
                evdev_name == EVDEV_RENAMES@[row].0@ || evdev_name == "KEY_"@
                    + EVDEV_RENAMES@[row].0@)
        }),
{
    let bare = evdev_bare(evdev_name);
    if text::begins_with(evdev_name, "KEY_"@) {
        text::law_prefix_and_rest("KEY_"@, bare, evdev_name);
    }
    lemma_renamed_or_kept(bare, 0);
}

proof fn lemma_renamed_or_kept(bare: Seq<char>, from: int)
    requires
        0 <= from,
    ensures
        renamed_from_row(bare, from) == bare || exists|row: int|
            0 <= row < EVDEV_RENAMES@.len() && (#[trigger] EVDEV_RENAMES@[row]).0@ == bare
                && EVDEV_RENAMES@[row].1@ == renamed_from_row(bare, from),
    decreases EVDEV_RENAMES@.len() - from,
{
    if from < EVDEV_RENAMES@.len() && EVDEV_RENAMES@[from].0@ != bare {
        lemma_renamed_or_kept(bare, from + 1);
    }
}

/// The name of a key stands for itself without the prefix too.
pub proof fn law_key_names_stand_for_themselves(row: int)
    requires
        0 <= row < KEY_ALIASES@.len(),
    ensures
        evdev_alias(KEY_ALIASES@[row].0@) == KEY_ALIASES@[row].0@,
{
    let name = alias_name(row);
    law_listed_names_resolve(row);
    lemma_alias_names();
    assert forall|i: int| 0 <= i < EVDEV_RENAMES@.len() implies (#[trigger] EVDEV_RENAMES@[i]).0@
        != name by {
        assert(name_print(EVDEV_RENAMES@[i].0@) != name_print(alias_name(row)));
    }
    lemma_not_renamed(name, 0);
    reveal_strlit("KEY_");
    if text::begins_with(name, "KEY_"@) {
        assert(name.take(4)[0] == name[0]);
    }
}

/// A renamed name leads to its key without the prefix too.
pub proof fn law_renamed_names_need_no_prefix(row: int)
    requires
        0 <= row < EVDEV_RENAMES@.len(),
    ensures
        evdev_alias(EVDEV_RENAMES@[row].0@) == EVDEV_RENAMES@[row].1@,
{
    let name = EVDEV_RENAMES@[row].0@;
    lemma_alias_names();
    reveal_strlit("KEY_");
    if text::begins_with(name, "KEY_"@) {
        assert(name.take(4)[0] == name[0]);
    }
    assert forall|i: int| 0 <= i < row implies (#[trigger] EVDEV_RENAMES@[i]).0@ != name by {
        assert(name_print(EVDEV_RENAMES@[i].0@) != name_print(EVDEV_RENAMES@[row].0@));
    }
    lemma_renamed(row, 0);
    law_renames_lead_to_keys(row);
}

/// The evdev names that are not those of the table lead to the keys that they are engraved with.
pub proof fn law_renamed_keys()
    ensures
        evdev_alias("KEY_"@ + "LEFTSHIFT"@) == "LEFT_SHIFT"@,
        evdev_alias("KEY_"@ + "LEFTCTRL"@) == "LEFT_CTRL"@,
        evdev_alias("KEY_"@ + "LEFTALT"@) == "LEFT_ALT"@,
        evdev_alias("KEY_"@ + "LEFTMETA"@) == "LEFT_WIN"@,
        evdev_alias("KEY_"@ + "RIGHTSHIFT"@) == "RIGHT_SHIFT"@,
        evdev_alias("KEY_"@ + "RIGHTCTRL"@) == "RIGHT_CTRL"@,
        evdev_alias("KEY_"@ + "RIGHTALT"@) == "RIGHT_ALT"@,
        evdev_alias("KEY_"@ + "CAPSLOCK"@) == "CAPS_LOCK"@,
        evdev_alias("KEY_"@ + "102ND"@) == "NONUS_BACKSLASH"@,
        evdev_alias("KEY_"@ + "COMPOSE"@) == "MENU"@,
        evdev_alias("KEY_"@ + "SYSRQ"@) == "PRINT"@,
        evdev_alias("KEY_"@ + "LEFTBRACE"@) == "LEFT_BRACKET"@,
        evdev_alias("KEY_"@ + "RIGHTBRACE"@) == "RIGHT_BRACKET"@,
        evdev_alias("KEY_"@ + "PAGEUP"@) == "PAGE_UP"@,
        evdev_alias("KEY_"@ + "PAGEDOWN"@) == "PAGE_DOWN"@,
{
    law_renamed_names_lead_to_keys(0);
    law_renamed_names_lead_to_keys(1);
    law_renamed_names_lead_to_keys(2);
    law_renamed_names_lead_to_keys(3);
    law_renamed_names_lead_to_keys(4);
    law_renamed_names_lead_to_keys(5);
    law_renamed_names_lead_to_keys(6);
    law_renamed_names_lead_to_keys(7);
    law_renamed_names_lead_to_keys(8);
    law_renamed_names_lead_to_keys(9);
    law_renamed_names_lead_to_keys(10);
    law_renamed_names_lead_to_keys(11);
    law_renamed_names_lead_to_keys(12);
    law_renamed_names_lead_to_keys(13);
    law_renamed_names_lead_to_keys(14);
}

/// The keys of the top row: escape and the function keys.
pub proof fn law_leds_of_the_top_row()
    ensures
        named_led("ESC"@) == Some(2nat),
        named_led("F1"@) == Some(13nat),
        named_led("F2"@) == Some(20nat),
        named_led("F3"@) == Some(25nat),
        named_led("F4"@) == Some(30nat),
        named_led("F5"@) == Some(40nat),
        named_led("F6"@) == Some(47nat),
        named_led("F7"@) == Some(53nat),
        named_led("F8"@) == Some(59nat),
        named_led("F9"@) == Some(65nat),
        named_led("F10"@) == Some(71nat),
        named_led("F11"@) == Some(77nat),
        named_led("F12"@) == Some(79nat),
{
    law_listed_names_resolve(2);
    law_listed_names_resolve(13);
    law_listed_names_resolve(26);
    law_listed_names_resolve(27);
    law_listed_names_resolve(28);
    law_listed_names_resolve(38);
    law_listed_names_resolve(39);
    law_listed_names_resolve(48);
    law_listed_names_resolve(49);
    law_listed_names_resolve(55);
    law_listed_names_resolve(61);
    law_listed_names_resolve(67);
    law_listed_names_resolve(72);
}

/// The keys of the number row.
pub proof fn law_leds_of_the_number_row()
    ensures
        named_led("GRAVE"@) == Some(3nat),
        named_led("1"@) == Some(8nat),
        named_led("2"@) == Some(14nat),
        named_led("3"@) == Some(21nat),
        named_led("4"@) == Some(26nat),
        named_led("5"@) == Some(31nat),
        named_led("6"@) == Some(36nat),
        named_led("7"@) == Some(41nat),
        named_led("8"@) == Some(48nat),
        named_led("9"@) == Some(54nat),
        named_led("0"@) == Some(60nat),
        named_led("MINUS"@) == Some(66nat),
        named_led("EQUAL"@) == Some(72nat),
        named_led("BACKSPACE"@) == Some(80nat),
{
    law_listed_names_resolve(3);
    law_listed_names_resolve(8);
    law_listed_names_resolve(14);
    law_listed_names_resolve(18);
    law_listed_names_resolve(22);
    law_listed_names_resolve(29);
    law_listed_names_resolve(34);
    law_listed_names_resolve(40);
    law_listed_names_resolve(44);
    law_listed_names_resolve(50);
    law_listed_names_resolve(56);
    law_listed_names_resolve(62);
    law_listed_names_resolve(68);
    law_listed_names_resolve(73);
}

/// The keys of the upper row of letters.
pub proof fn law_leds_of_the_upper_letter_row()
    ensures
        named_led("TAB"@) == Some(4nat),
        named_led("Q"@) == Some(9nat),
        named_led("W"@) == Some(15nat),
        named_led("E"@) == Some(22nat),
        named_led("R"@) == Some(27nat),
        named_led("T"@) == Some(32nat),
        named_led("Y"@) == Some(37nat),
        named_led("U"@) == Some(42nat),
        named_led("I"@) == Some(49nat),
        named_led("O"@) == Some(55nat),
        named_led("P"@) == Some(61nat),
        named_led("LEFT_BRACKET"@) == Some(67nat),
        named_led("RIGHT_BRACKET"@) == Some(73nat),
        named_led("BACKSLASH"@) == Some(82nat),
{
    law_listed_names_resolve(4);
    law_listed_names_resolve(9);
    law_listed_names_resolve(15);
    law_listed_names_resolve(19);
    law_listed_names_resolve(23);
    law_listed_names_resolve(30);
    law_listed_names_resolve(35);
    law_listed_names_resolve(41);
    law_listed_names_resolve(45);
    law_listed_names_resolve(51);
    law_listed_names_resolve(57);
    law_listed_names_resolve(63);
    law_listed_names_resolve(69);
    law_listed_names_resolve(74);
}

/// The keys of the home row.
pub proof fn law_leds_of_the_home_row()
    ensures
        named_led("CAPS_LOCK"@) == Some(5nat),
        named_led("A"@) == Some(10nat),
        named_led("S"@) == Some(16nat),
        named_led("D"@) == Some(23nat),
        named_led("F"@) == Some(28nat),
        named_led("G"@) == Some(33nat),
        named_led("H"@) == Some(38nat),
        named_led("J"@) == Some(43nat),
        named_led("K"@) == Some(50nat),
        named_led("L"@) == Some(56nat),
        named_led("SEMICOLON"@) == Some(62nat),
        named_led("APOSTROPHE"@) == Some(68nat),
        named_led("ENTER"@) == Some(74nat),
{
    law_listed_names_resolve(5);
    law_listed_names_resolve(10);
    law_listed_names_resolve(16);
    law_listed_names_resolve(20);
    law_listed_names_resolve(24);
    law_listed_names_resolve(31);
    law_listed_names_resolve(36);
    law_listed_names_resolve(42);
    law_listed_names_resolve(46);
    law_listed_names_resolve(52);
    law_listed_names_resolve(58);
    law_listed_names_resolve(64);
    law_listed_names_resolve(70);
}

/// The keys of the lower row of letters.
pub proof fn law_leds_of_the_lower_letter_row()
    ensures
        named_led("LEFT_SHIFT"@) == Some(0nat),
        named_led("NONUS_BACKSLASH"@) == Some(6nat),
        named_led("Z"@) == Some(11nat),
        named_led("X"@) == Some(17nat),
        named_led("C"@) == Some(24nat),
        named_led("V"@) == Some(29nat),
        named_led("B"@) == Some(34nat),
        named_led("N"@) == Some(39nat),
        named_led("M"@) == Some(44nat),
        named_led("COMMA"@) == Some(51nat),
        named_led("DOT"@) == Some(57nat),
        named_led("SLASH"@) == Some(63nat),
        named_led("RIGHT_SHIFT"@) == Some(75nat),
{
    law_listed_names_resolve(0);
    law_listed_names_resolve(6);
    law_listed_names_resolve(11);
    law_listed_names_resolve(17);
    law_listed_names_resolve(21);
    law_listed_names_resolve(25);
    law_listed_names_resolve(32);
    law_listed_names_resolve(37);
    law_listed_names_resolve(43);
    law_listed_names_resolve(47);
    law_listed_names_resolve(53);
    law_listed_names_resolve(59);
    law_listed_names_resolve(65);
}

/// The keys of the bottom row.
pub proof fn law_leds_of_the_bottom_row()
    ensures
        named_led("LEFT_CTRL"@) == Some(1nat),
        named_led("LEFT_WIN"@) == Some(7nat),
        named_led("LEFT_ALT"@) == Some(12nat),
        named_led("SPACE"@) == Some(35nat),
        named_led("RIGHT_ALT"@) == Some(58nat),
        named_led("FN"@) == Some(64nat),
        named_led("MENU"@) == Some(70nat),
        named_led("RIGHT_CTRL"@) == Some(76nat),
{
    law_listed_names_resolve(1);
    law_listed_names_resolve(7);
    law_listed_names_resolve(12);
    law_listed_names_resolve(33);
    law_listed_names_resolve(54);
    law_listed_names_resolve(60);
    law_listed_names_resolve(66);
    law_listed_names_resolve(71);
}

/// The keys beside the main block: those for editing, for paging and the arrows.
pub proof fn law_leds_of_the_navigation_keys()
    ensures
        named_led("PRINT"@) == Some(92nat),
        named_led("INSERT"@) == Some(84nat),
        named_led("DELETE"@) == Some(85nat),
        named_led("HOME"@) == Some(88nat),
        named_led("END"@) == Some(89nat),
        named_led("PAGE_UP"@) == Some(93nat),
        named_led("PAGE_DOWN"@) == Some(94nat),
        named_led("UP"@) == Some(90nat),
        named_led("DOWN"@) == Some(91nat),
        named_led("LEFT"@) == Some(86nat),
        named_led("RIGHT"@) == Some(95nat),
{
    law_listed_names_resolve(78);
    law_listed_names_resolve(75);
    law_listed_names_resolve(76);
    law_listed_names_resolve(79);
    law_listed_names_resolve(80);
    law_listed_names_resolve(82);
    law_listed_names_resolve(83);
    law_listed_names_resolve(84);
    law_listed_names_resolve(81);
    law_listed_names_resolve(77);
    law_listed_names_resolve(85);
}

} // verus!
