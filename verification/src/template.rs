//! Templates: files that hold a background colour and the colours of keys.
use crate::color;
use crate::color::Color;
use crate::keymap;
use crate::keymap::KeyMap;
use crate::text;
use vstd::prelude::*;
use vstd::string::*;

verus! {

/// The `[set-all]` section of a template.
#[derive(Debug)]
pub struct SetAll {
    pub all: Option<Vec<u8>>,
}

/// The sections of a template that the editor reads.
#[derive(Debug)]
pub struct TemplateDoc {
    pub set_all: Option<SetAll>,
    pub key: Option<Vec<(String, Vec<u8>)>>,
}

/// The content of a `TemplateDoc`.
pub struct DocView {
    pub set_all: Option<Option<Seq<u8>>>,
    pub key: Option<Seq<(Seq<char>, Seq<u8>)>>,
}

/// Names and channel values as text and numbers.
pub open spec fn key_rows(rows: Seq<(String, Vec<u8>)>) -> Seq<(Seq<char>, Seq<u8>)> {
    rows.map_values(|e: (String, Vec<u8>)| (e.0@, e.1@))
}

impl View for TemplateDoc {
    type V = DocView;

    open spec fn view(&self) -> DocView {
        DocView {
            set_all: match self.set_all {
                Some(section) => Some(
                    match section.all {
                        Some(rgb) => Some(rgb@),
                        None => None,
                    },
                ),
                None => None,
            },
            key: match self.key {
                Some(rows) => Some(key_rows(rows@)),
                None => None,
            },
        }
    }
}

/// The colour that a list of channel values stands for: that of the first three.
pub open spec fn listed_color(rgb: Seq<u8>) -> Option<Color> {
    if rgb.len() >= 3 {
        Some(color::opaque(rgb[0], rgb[1], rgb[2]))
    } else {
        None
    }
}

/// The colours of keys in the rows of a `[key]` section. Rows without a colour are passed over.
pub open spec fn listed_colors(rows: Seq<(Seq<char>, Seq<u8>)>) -> Map<Seq<char>, Color>
    decreases rows.len(),
{
    if rows.len() == 0 {
        Map::empty()
    } else {
        match listed_color(rows.last().1) {
            Some(c) => listed_colors(rows.drop_last()).insert(rows.last().0, c),
            None => listed_colors(rows.drop_last()),
        }
    }
}

/// The colours of keys in a template.
pub open spec fn doc_colors(doc: DocView) -> Map<Seq<char>, Color> {
    match doc.key {
        Some(rows) => listed_colors(rows),
        None => Map::empty(),
    }
}

/// The background colour in a template.
pub open spec fn doc_background(doc: DocView) -> Option<Color> {
    match doc.set_all {
        Some(Some(rgb)) => listed_color(rgb),
        _ => None,
    }
}

fn color_from(rgb: &Vec<u8>) -> (r: Option<Color>)
    ensures
        r == listed_color(rgb@),
{
    if rgb.len() >= 3 {
        Some(Color::from_rgb(rgb[0], rgb[1], rgb[2]))
    } else {
        None
    }
}

/// The colours of keys and the background colour in a template. A template that is missing or
/// cannot be read has neither.
pub fn load_template(doc: Option<TemplateDoc>) -> (r: (KeyMap<Color>, Option<Color>))
    ensures
        r.0.wf(),
        match doc {
            Some(d) => r.0@ == doc_colors(d@) && r.1 == doc_background(d@),
            None => r.0@ == Map::<Seq<char>, Color>::empty() && r.1 is None,
        },
{
    let mut colors: KeyMap<Color> = KeyMap::new();
    let doc: TemplateDoc = match doc {
        Some(d) => d,
        None => return (colors, None),
    };
    let background: Option<Color> = match &doc.set_all {
        Some(section) => match &section.all {
            Some(rgb) => color_from(rgb),
            None => None,
        },
        None => None,
    };
    if let Some(rows) = &doc.key {
        let ghost all = key_rows(rows@);
        let mut i: usize = 0;
        assert(colors@ =~= listed_colors(all.take(0)));
        while i < rows.len()
            invariant
                i <= rows@.len(),
                all == key_rows(rows@),
                colors.wf(),
                colors@ == listed_colors(all.take(i as int)),
            decreases rows@.len() - i,
        {
            assert(all.take(i + 1).drop_last() =~= all.take(i as int));
            assert(all.take(i + 1).last() == (rows@[i as int].0@, rows@[i as int].1@));
            if let Some(c) = color_from(&rows[i].1) {
                colors.insert(rows[i].0.clone(), c);
            }
            i += 1;
        }
        assert(all.take(i as int) =~= all);
    }
    (colors, background)
}

/// The three channel values of a colour.
pub open spec fn channels(c: Color) -> Seq<u8> {
    seq![c.r, c.g, c.b]
}

/// The content of the template that is written for a background and for the colours of keys. A
/// section without content is left out.
pub open spec fn written_doc(
    background: Option<Color>,
    rows: Seq<(Seq<char>, Color)>,
) -> DocView {
    DocView {
        set_all: match background {
            Some(c) => Some(Some(channels(c))),
            None => None,
        },
        key: if rows.len() > 0 {
            Some(rows.map_values(|e: (Seq<char>, Color)| (e.0, channels(e.1))))
        } else {
            None
        },
    }
}

/// A number up to 255 in three columns.
pub open spec fn column(n: u8) -> Seq<char> {
    text::padded_left(text::decimal(n as nat), 3)
}

/// Three channel values as a list.
pub open spec fn list_text(rgb: Seq<u8>) -> Seq<char> {
    "["@ + column(rgb[0]) + ", "@ + column(rgb[1]) + ", "@ + column(rgb[2]) + "]"@
}

/// The line of a key.
pub open spec fn key_line(name: Seq<char>, rgb: Seq<u8>) -> Seq<char> {
    text::padded_right(name, 18) + " = "@ + list_text(rgb) + "\n"@
}

/// The lines of keys.
pub open spec fn key_lines(rows: Seq<(Seq<char>, Seq<u8>)>) -> Seq<char>
    decreases rows.len(),
{
    if rows.len() == 0 {
        seq![]
    } else {
        key_lines(rows.drop_last()) + key_line(rows.last().0, rows.last().1)
    }
}

/// The comment at the head of a template.
pub open spec fn head_text() -> Seq<char> {
    "# Roccat Vulkan Pro TKL — RGB template\n"@ + "# Generated by roccat-vulkan-rgb editor\n"@
        + "# Colors are [R, G, B] values in range 0–255.\n"@
        + "# Applied in order: [set-all] → [key] → [index]\n"@ + "\n"@
}

/// The text of a template with this content.
pub open spec fn doc_text(doc: DocView) -> Seq<char> {
    head_text() + (match doc.set_all {
        Some(Some(rgb)) => "[set-all]\n"@ + "ALL               = "@ + list_text(rgb) + "\n\n"@,
        _ => seq![],
    }) + (match doc.key {
        Some(rows) => "[key]\n"@ + key_lines(rows),
        None => seq![],
    })
}

fn push_column(out: &mut String, n: u8)
    ensures
        final(out)@ == old(out)@ + column(n),
{
    let digits: String = text::decimal_text(n as usize);
    text::push_padded_left(out, digits.as_str(), 3);
}

fn push_list(out: &mut String, c: Color)
    ensures
        final(out)@ == old(out)@ + list_text(channels(c)),
{
    out.append("[");
    push_column(out, c.r);
    out.append(", ");
    push_column(out, c.g);
    out.append(", ");
    push_column(out, c.b);
    out.append("]");
    assert(out@ =~= old(out)@ + list_text(channels(c)));
}

/// The text of the template for a background and for the colours of keys.
pub fn template_text(background: Option<Color>, colors: &KeyMap<Color>) -> (r: String)
    requires
        colors.wf(),
    ensures
        r@ == doc_text(written_doc(background, colors.rows())),
{
    let mut out: String = "# Roccat Vulkan Pro TKL — RGB template\n".to_owned();
    out.append("# Generated by roccat-vulkan-rgb editor\n");
    out.append("# Colors are [R, G, B] values in range 0–255.\n");
    out.append("# Applied in order: [set-all] → [key] → [index]\n");
    out.append("\n");
    let ghost doc = written_doc(background, colors.rows());
    assert(out@ == head_text());
    let ghost mut done = out@;
    if let Some(c) = background {
        out.append("[set-all]\n");
        out.append("ALL               = ");
        push_list(&mut out, c);
        out.append("\n\n");
        assert(out@ =~= done + ("[set-all]\n"@ + "ALL               = "@ + list_text(channels(c))
            + "\n\n"@));
    } else {
        assert(out@ =~= done + Seq::<char>::empty());
    }
    proof {
        done = out@;
    }
    let n: usize = colors.len();
    if n > 0 {
        let ghost rows = doc.key->0;
        out.append("[key]\n");
        let ghost start = out@;
        let mut i: usize = 0;
        assert(out@ =~= start + key_lines(rows.take(0)));
        while i < n
            invariant
                i <= n,
                n == colors.rows().len(),
                rows == colors.rows().map_values(
                    |e: (Seq<char>, Color)| (e.0, channels(e.1)),
                ),
                out@ == start + key_lines(rows.take(i as int)),
            decreases n - i,
        {
            let ghost before = out@;
            text::push_padded_right(&mut out, colors.name(i), 18);
            out.append(" = ");
            push_list(&mut out, colors.value(i));
            out.append("\n");
            assert(out@ =~= before + key_line(rows[i as int].0, rows[i as int].1));
            assert(rows.take(i + 1).drop_last() =~= rows.take(i as int));
            i += 1;
            assert(out@ =~= start + key_lines(rows.take(i as int)));
        }
        assert(rows.take(i as int) =~= rows);
        assert(out@ =~= done + ("[key]\n"@ + key_lines(rows)));
    } else {
        assert(out@ =~= done + Seq::<char>::empty());
    }
    out
}

/// Whether a text begins as JSON objects do, and so as stored LED states do.
pub open spec fn begins_as_json(text: Seq<char>) -> bool {
    text.len() > 0 && text[0] == '{'
}

/// Whether a name has no spaces in it.
pub open spec fn has_no_space(name: Seq<char>) -> bool {
    forall|i: int| 0 <= i < name.len() ==> #[trigger] name[i] != ' '
}

/// The content of a template as it is written: lists of three values under names
/// without spaces.
pub open spec fn is_written_doc(doc: DocView) -> bool {
    &&& match doc.set_all {
        Some(Some(rgb)) => rgb.len() == 3,
        Some(None) => false,
        None => true,
    }
    &&& match doc.key {
        Some(rows) => rows.len() > 0 && forall|i: int|
            0 <= i < rows.len() ==> has_no_space((#[trigger] rows[i]).0) && rows[i].1.len() == 3,
        None => true,
    }
}

/// Whether a name can stand for itself as a key in TOML: letters, digits, `_` and `-`.
pub open spec fn is_bare_key(name: Seq<char>) -> bool {
    &&& name.len() > 0
    &&& forall|i: int|
        0 <= i < name.len() ==> {
            let c = #[trigger] name[i];
            ('A' <= c && c <= 'Z') || ('a' <= c && c <= 'z') || ('0' <= c && c <= '9') || c == '_'
                || c == '-'
        }
}

/// The content of a template as it is written, with a bare key for every name and no name twice.
pub open spec fn is_plain_doc(doc: DocView) -> bool {
    &&& is_written_doc(doc)
    &&& match doc.key {
        Some(rows) => {
            &&& forall|i: int| 0 <= i < rows.len() ==> is_bare_key((#[trigger] rows[i]).0)
            &&& forall|i: int, j: int|
                0 <= i < j < rows.len() ==> (#[trigger] rows[i]).0 != (#[trigger] rows[j]).0
        },
        None => true,
    }
}

/// Whether a template has a section.
pub open spec fn has_section(doc: DocView) -> bool {
    doc.set_all is Some || doc.key is Some
}

/// The names of the sections of a template.
pub open spec fn section_names(doc: DocView) -> Set<Seq<char>> {
    let background = if doc.set_all is Some {
        set!["set-all"@]
    } else {
        Set::empty()
    };
    if doc.key is Some {
        background.insert("key"@)
    } else {
        background
    }
}

/// Why a file is not overwritten with a template.
#[derive(Debug, Clone, Copy, PartialEq, Eq, Structural)]
pub enum TemplateError {
    /// It is TOML, but has none of the sections of a template.
    NoSection,
    /// It is not TOML.
    NotToml,
}

impl TemplateError {
    /// The message for the user.
    pub open spec fn text(self) -> Seq<char> {
        match self {
            TemplateError::NoSection =>
                "file exists but contains no [set-all], [key], or [index] section — refusing to overwrite"@,
            TemplateError::NotToml =>
                "file exists but is not a valid TOML template — refusing to overwrite"@,
        }
    }

    /// The message for the user.
    pub fn message(self) -> (r: &'static str)
        ensures
            r@ == self.text(),
    {
        match self {
            TemplateError::NoSection =>
                "file exists but contains no [set-all], [key], or [index] section — refusing to overwrite",
            TemplateError::NotToml =>
                "file exists but is not a valid TOML template — refusing to overwrite",
        }
    }
}

/// The error of the TOML reader.
#[verifier::external_type_specification]
#[verifier::external_body]
pub struct ExTomlError(toml::de::Error);

/// The keys at the top of the TOML document that a text holds, if it holds one.
pub uninterp spec fn toml_keys(text: Seq<char>) -> Option<Set<Seq<char>>>;

/// `toml::from_str` into a map from keys to values that are passed over: reads a text as a TOML
/// document. Claimed is that the keys at its top, or the failure, depend on nothing but the text,
/// and two facts of the TOML grammar: no document begins with `{`, and a text of comments, table
/// headers and lists of numbers under distinct bare keys, as a template is written, is a document
/// with the headers for keys. What other texts hold is not said.
#[verifier::external_body]
fn read_toml_keys(text: &str) -> (r: Result<Vec<String>, toml::de::Error>)
    ensures
        match r {
            Ok(keys) => toml_keys(text@) == Some(text::texts(keys@).to_set()),
            Err(_) => toml_keys(text@) is None,
        },
        begins_as_json(text@) ==> r is Err,
        forall|doc: DocView|
            is_plain_doc(doc) && #[trigger] doc_text(doc) == text@ ==> r is Ok && text::texts(
                r->Ok_0@,
            ).to_set() == section_names(doc),
{
    let document: std::collections::BTreeMap<String, serde::de::IgnoredAny> = toml::from_str(text)?;
    Ok(document.into_keys().collect())
}

/// Whether a document with these keys may be overwritten with a template.
pub open spec fn judged(keys: Option<Set<Seq<char>>>) -> Result<(), TemplateError> {
    match keys {
        Some(set) => if set.contains("set-all"@) || set.contains("key"@) || set.contains(
            "index"@,
        ) {
            Ok(())
        } else {
            Err(TemplateError::NoSection)
        },
        None => Err(TemplateError::NotToml),
    }
}

/// What is known of the verdict on a text without reading it: what begins as JSON does is not
/// TOML, and a template as it is written may be overwritten if it has a section.
pub open spec fn is_known_verdict(text: Seq<char>, verdict: Result<(), TemplateError>) -> bool {
    &&& begins_as_json(text) ==> verdict == Err::<(), TemplateError>(TemplateError::NotToml)
    &&& forall|doc: DocView|
        is_plain_doc(doc) && #[trigger] doc_text(doc) == text ==> verdict == (if has_section(doc) {
            Ok::<(), TemplateError>(())
        } else {
            Err(TemplateError::NoSection)
        })
}

/// The text of optional keys.
pub open spec fn key_set(keys: Option<Vec<String>>) -> Option<Set<Seq<char>>> {
    match keys {
        Some(names) => Some(text::texts(names@).to_set()),
        None => None,
    }
}

fn holds(names: &Vec<String>, name: &str) -> (r: bool)
    ensures
        r == text::texts(names@).to_set().contains(name@),
{
    let mut i: usize = 0;
    while i < names.len()
        invariant
            i <= names@.len(),
            forall|j: int| 0 <= j < i ==> (#[trigger] names@[j])@ != name@,
        decreases names@.len() - i,
    {
        if text::same_text(names[i].as_str(), name) {
            assert(text::texts(names@)[i as int] == name@);
            return true;
        }
        i += 1;
    }
    proof {
        if text::texts(names@).contains(name@) {
            let j = choose|j: int| 0 <= j < names@.len() && text::texts(names@)[j] == name@;
            assert(names@[j]@ == name@);
        }
    }
    false
}

/// Judges by the keys at the top of an existing document, or by its not being TOML, whether it
/// may be overwritten with a template.
pub fn check_sections(keys: Option<Vec<String>>) -> (r: Result<(), TemplateError>)
    ensures
        r == judged(key_set(keys)),
{
    match keys {
        Some(names) => {
            if holds(&names, "set-all") || holds(&names, "key") || holds(&names, "index") {
                Ok(())
            } else {
                Err(TemplateError::NoSection)
            }
        },
        None => Err(TemplateError::NotToml),
    }
}

proof fn lemma_sections_are_judged(doc: DocView)
    ensures
        judged(Some(section_names(doc))) == (if has_section(doc) {
            Ok::<(), TemplateError>(())
        } else {
            Err(TemplateError::NoSection)
        }),
{
    reveal_strlit("set-all");
    reveal_strlit("key");
    reveal_strlit("index");
    let names = section_names(doc);
    assert("set-all"@.len() == 7 && "key"@.len() == 3 && "index"@.len() == 5);
    assert(names.contains("set-all"@) == (doc.set_all is Some));
    assert(names.contains("key"@) == (doc.key is Some));
    assert(!names.contains("index"@));
}

/// Judges by the text of a file, if the file exists, whether it may be overwritten with a
/// template.
pub fn check_is_template_or_new(text: Option<&str>) -> (r: Result<(), TemplateError>)
    ensures
        match text {
            Some(t) => r == judged(toml_keys(t@)) && is_known_verdict(t@, r),
            None => r is Ok,
        },
{
    match text {
        None => Ok(()),
        Some(t) => {
            let read: Result<Vec<String>, toml::de::Error> = read_toml_keys(t);
            proof {
                assert forall|doc: DocView|
                    is_plain_doc(doc) && #[trigger] doc_text(doc) == t@ implies judged(
                    toml_keys(t@),
                ) == (if has_section(doc) {
                    Ok::<(), TemplateError>(())
                } else {
                    Err(TemplateError::NoSection)
                }) by {
                    lemma_sections_are_judged(doc);
                }
            }
            match read {
                Ok(keys) => check_sections(Some(keys)),
                Err(_) => check_sections(None),
            }
        },
    }
}

/// A template that was saved with a background or with keys may be overwritten again, if every
/// name can stand as a bare key. `verdict` is what is said of its text.
pub proof fn law_saved_template_may_be_overwritten(
    background: Option<Color>,
    rows: Seq<(Seq<char>, Color)>,
    text: Seq<char>,
    verdict: Result<(), TemplateError>,
)
    requires
        keymap::in_order(rows),
        forall|i: int| 0 <= i < rows.len() ==> is_bare_key((#[trigger] rows[i]).0),
        text == doc_text(written_doc(background, rows)),
        is_known_verdict(text, verdict),
    ensures
        verdict is Ok == (background is Some || rows.len() > 0),
{
    let doc = written_doc(background, rows);
    if rows.len() > 0 {
        let listed = doc.key->0;
        assert forall|i: int| 0 <= i < listed.len() implies is_bare_key((#[trigger] listed[i]).0)
            && has_no_space(listed[i].0) && listed[i].1.len() == 3 by {
            assert(is_bare_key(rows[i].0));
        }
        assert forall|i: int, j: int| 0 <= i < j < listed.len() implies (#[trigger] listed[i]).0
            != (#[trigger] listed[j]).0 by {
            assert(text::text_less(rows[i].0, rows[j].0));
            text::lemma_text_less_irreflexive(rows[i].0);
        }
    }
    assert(is_plain_doc(doc));
}

/// The colour that a template keeps of a colour: the channels, without the opacity.
pub open spec fn kept(c: Color) -> Color {
    color::opaque(c.r, c.g, c.b)
}

/// Loading what was written gives back the background and the colour of every key, each opaque.
pub proof fn law_written_template_loads_back(
    background: Option<Color>,
    rows: Seq<(Seq<char>, Color)>,
)
    requires
        keymap::in_order(rows),
    ensures
        doc_background(written_doc(background, rows)) == (match background {
            Some(c) => Some(kept(c)),
            None => None,
        }),
        doc_colors(written_doc(background, rows)).dom() == keymap::map_of(rows).dom(),
        forall|name: Seq<char>| #[trigger]
            keymap::map_of(rows).contains_key(name) ==> doc_colors(
                written_doc(background, rows),
            )[name] == kept(keymap::map_of(rows)[name]),
{
    lemma_listed_back(rows);
    if rows.len() == 0 {
        assert(keymap::map_of(rows).dom() =~= Set::empty());
        assert(doc_colors(written_doc(background, rows)).dom() =~= Set::empty());
    }
}

spec fn listing(rows: Seq<(Seq<char>, Color)>) -> Seq<(Seq<char>, Seq<u8>)> {
    rows.map_values(|e: (Seq<char>, Color)| (e.0, channels(e.1)))
}

proof fn lemma_listed_back(rows: Seq<(Seq<char>, Color)>)
    requires
        keymap::in_order(rows),
    ensures
        listed_colors(listing(rows)).dom() == keymap::map_of(rows).dom(),
        forall|name: Seq<char>| #[trigger]
            keymap::map_of(rows).contains_key(name) ==> listed_colors(listing(rows))[name] == kept(
                keymap::map_of(rows)[name],
            ),
    decreases rows.len(),
{
    if rows.len() == 0 {
        assert(listed_colors(listing(rows)).dom() =~= keymap::map_of(rows).dom());
    } else {
        keymap::lemma_last_row(rows);
        lemma_listed_back(rows.drop_last());
        assert(listing(rows).drop_last() =~= listing(rows.drop_last()));
        assert(listed_colors(listing(rows)).dom() =~= keymap::map_of(rows).dom());
    }
}

proof fn lemma_column(n: u8)
    ensures
        column(n).len() == 3,
{
    reveal_with_fuel(text::decimal, 3);
}

proof fn lemma_column_value(n: u8)
    ensures
        column(n)[2] as int == '0' as int + n % 10,
        column(n)[1] as int == (if n >= 10 {
            '0' as int + n / 10 % 10
        } else {
            ' ' as int
        }),
        column(n)[0] as int == (if n >= 100 {
            '0' as int + n / 100
        } else {
            ' ' as int
        }),
{
    reveal_with_fuel(text::decimal, 3);
}

proof fn lemma_digits_of(n: int)
    requires
        0 <= n < 256,
    ensures
        n == 100 * (n / 100) + 10 * (n / 10 % 10) + n % 10,
        n < 100 ==> n / 100 == 0,
        n < 10 ==> n / 10 % 10 == 0,
{
}

proof fn lemma_column_is_unique(a: u8, b: u8)
    requires
        column(a) == column(b),
    ensures
        a == b,
{
    lemma_column_value(a);
    lemma_column_value(b);
    lemma_digits_of(a as int);
    lemma_digits_of(b as int);
    assert(a % 10 == b % 10);
    assert(a / 10 % 10 == b / 10 % 10);
    assert(a / 100 == b / 100);
}

proof fn lemma_list_text(a: Seq<u8>)
    requires
        a.len() == 3,
    ensures
        list_text(a).len() == 15,
        list_text(a).subrange(1, 4) == column(a[0]),
        list_text(a).subrange(6, 9) == column(a[1]),
        list_text(a).subrange(11, 14) == column(a[2]),
{
    reveal_strlit("[");
    reveal_strlit(", ");
    reveal_strlit("]");
    lemma_column(a[0]);
    lemma_column(a[1]);
    lemma_column(a[2]);
    assert(list_text(a).subrange(1, 4) =~= column(a[0]));
    assert(list_text(a).subrange(6, 9) =~= column(a[1]));
    assert(list_text(a).subrange(11, 14) =~= column(a[2]));
}

/// A list is determined by a text that begins with it.
proof fn lemma_list_is_unique(a: Seq<u8>, x: Seq<char>, b: Seq<u8>, y: Seq<char>)
    requires
        a.len() == 3,
        b.len() == 3,
        list_text(a) + x == list_text(b) + y,
    ensures
        a == b,
        x == y,
{
    lemma_list_text(a);
    lemma_list_text(b);
    let s = list_text(a) + x;
    assert(s.take(15) =~= list_text(a));
    assert((list_text(b) + y).take(15) =~= list_text(b));
    assert(s.skip(15) =~= x);
    assert((list_text(b) + y).skip(15) =~= y);
    lemma_column_is_unique(a[0], b[0]);
    lemma_column_is_unique(a[1], b[1]);
    lemma_column_is_unique(a[2], b[2]);
    assert(a =~= b);
}

proof fn lemma_name_ends_at_space(name: Seq<char>, rest: Seq<char>)
    ensures
        ({
            let s = text::padded_right(name, 18) + " = "@ + rest;
            &&& s.len() > name.len()
            &&& s[name.len() as int] == ' '
            &&& forall|i: int| 0 <= i < name.len() ==> #[trigger] s[i] == name[i]
        }),
{
    reveal_strlit(" = ");
}

/// A key line is determined by a text that begins with it.
proof fn lemma_key_line_is_unique(
    n: Seq<char>,
    a: Seq<u8>,
    x: Seq<char>,
    m: Seq<char>,
    b: Seq<u8>,
    y: Seq<char>,
)
    requires
        has_no_space(n),
        has_no_space(m),
        a.len() == 3,
        b.len() == 3,
        key_line(n, a) + x == key_line(m, b) + y,
    ensures
        n == m,
        a == b,
        x == y,
{
    let p = list_text(a) + ("\n"@ + x);
    let q = list_text(b) + ("\n"@ + y);
    let s = text::padded_right(n, 18) + " = "@ + p;
    let t = text::padded_right(m, 18) + " = "@ + q;
    assert(key_line(n, a) + x =~= s);
    assert(key_line(m, b) + y =~= t);
    lemma_name_ends_at_space(n, p);
    lemma_name_ends_at_space(m, q);
    if n.len() < m.len() {
        assert(t[n.len() as int] == m[n.len() as int]);
    } else if m.len() < n.len() {
        assert(s[m.len() as int] == n[m.len() as int]);
    }
    assert(n =~= m) by {
        assert forall|i: int| 0 <= i < n.len() implies n[i] == m[i] by {
            assert(s[i] == n[i]);
            assert(t[i] == m[i]);
        }
    }
    let k = (text::padded_right(n, 18) + " = "@).len() as int;
    assert(s.skip(k) =~= p);
    assert(t.skip(k) =~= q);
    lemma_list_is_unique(a, "\n"@ + x, b, "\n"@ + y);
    reveal_strlit("\n");
    assert(("\n"@ + x).skip(1) =~= x);
    assert(("\n"@ + y).skip(1) =~= y);
}

/// The first line stands at the beginning of the lines of keys.
proof fn lemma_first_key_line(rows: Seq<(Seq<char>, Seq<u8>)>)
    requires
        rows.len() > 0,
    ensures
        key_lines(rows) == key_line(rows[0].0, rows[0].1) + key_lines(rows.drop_first()),
    decreases rows.len(),
{
    if rows.len() == 1 {
        assert(rows.drop_first() =~= seq![]);
        assert(rows.drop_last() =~= seq![]);
        assert(key_lines(rows) =~= key_line(rows[0].0, rows[0].1) + key_lines(rows.drop_first()));
    } else {
        lemma_first_key_line(rows.drop_last());
        assert(rows.drop_last().drop_first() =~= rows.drop_first().drop_last());
        assert(key_lines(rows) =~= key_line(rows[0].0, rows[0].1) + key_lines(rows.drop_first()));
    }
}

proof fn lemma_key_line_is_not_empty(name: Seq<char>, rgb: Seq<u8>)
    ensures
        key_line(name, rgb).len() > 0,
{
    reveal_strlit("\n");
}

proof fn lemma_key_lines_are_unique(
    a: Seq<(Seq<char>, Seq<u8>)>,
    b: Seq<(Seq<char>, Seq<u8>)>,
)
    requires
        forall|i: int|
            0 <= i < a.len() ==> has_no_space((#[trigger] a[i]).0) && a[i].1.len() == 3,
        forall|i: int|
            0 <= i < b.len() ==> has_no_space((#[trigger] b[i]).0) && b[i].1.len() == 3,
        key_lines(a) == key_lines(b),
    ensures
        a == b,
    decreases a.len(),
{
    if a.len() > 0 {
        lemma_first_key_line(a);
        lemma_key_line_is_not_empty(a[0].0, a[0].1);
    }
    if b.len() > 0 {
        lemma_first_key_line(b);
        lemma_key_line_is_not_empty(b[0].0, b[0].1);
    }
    if a.len() == 0 || b.len() == 0 {
        assert(a =~= b);
    } else {
        let x = a.drop_first();
        let y = b.drop_first();
        lemma_key_line_is_unique(a[0].0, a[0].1, key_lines(x), b[0].0, b[0].1, key_lines(y));
        assert forall|i: int| 0 <= i < x.len() implies has_no_space((#[trigger] x[i]).0)
            && x[i].1.len() == 3 by {
            assert(x[i] == a[i + 1]);
        }
        assert forall|i: int| 0 <= i < y.len() implies has_no_space((#[trigger] y[i]).0)
            && y[i].1.len() == 3 by {
            assert(y[i] == b[i + 1]);
        }
        lemma_key_lines_are_unique(x, y);
        assert(a =~= seq![a[0]] + x);
        assert(b =~= seq![b[0]] + y);
    }
}

spec fn background_part(doc: DocView) -> Seq<char> {
    match doc.set_all {
        Some(Some(rgb)) => "[set-all]\n"@ + "ALL               = "@ + list_text(rgb) + "\n\n"@,
        _ => seq![],
    }
}

spec fn keys_part(doc: DocView) -> Seq<char> {
    match doc.key {
        Some(rows) => "[key]\n"@ + key_lines(rows),
        None => seq![],
    }
}

/// What stands behind the head tells which sections there are.
proof fn lemma_sections_show(doc: DocView)
    requires
        is_written_doc(doc),
    ensures
        ({
            let s = background_part(doc) + keys_part(doc);
            &&& doc.set_all is Some ==> s.len() > 1 && s[1] == 's'
            &&& doc.set_all is None && doc.key is Some ==> s.len() > 1 && s[1] == 'k'
            &&& doc.set_all is None && doc.key is None ==> s.len() == 0
        }),
        doc.key is Some <==> keys_part(doc).len() > 0,
{
    reveal_strlit("[set-all]\n");
    reveal_strlit("[key]\n");
    let s = background_part(doc) + keys_part(doc);
    if doc.set_all is Some {
        assert(s[1] == background_part(doc)[1]);
    } else if doc.key is Some {
        assert(s =~= keys_part(doc));
    }
}

/// The background is determined by a text that begins with its section.
proof fn lemma_background_is_unique(x: Seq<u8>, u: Seq<char>, y: Seq<u8>, v: Seq<char>)
    requires
        x.len() == 3,
        y.len() == 3,
        "[set-all]\n"@ + "ALL               = "@ + list_text(x) + "\n\n"@ + u == "[set-all]\n"@
            + "ALL               = "@ + list_text(y) + "\n\n"@ + v,
    ensures
        x == y,
        u == v,
{
    let front = "[set-all]\n"@ + "ALL               = "@;
    let k = front.len() as int;
    let s = front + list_text(x) + "\n\n"@ + u;
    let t = front + list_text(y) + "\n\n"@ + v;
    assert(s.skip(k) =~= list_text(x) + ("\n\n"@ + u));
    assert(t.skip(k) =~= list_text(y) + ("\n\n"@ + v));
    lemma_list_is_unique(x, "\n\n"@ + u, y, "\n\n"@ + v);
    let m = "\n\n"@.len() as int;
    assert(("\n\n"@ + u).skip(m) =~= u);
    assert(("\n\n"@ + v).skip(m) =~= v);
}

proof fn lemma_behind(head: Seq<char>, x: Seq<char>, y: Seq<char>)
    ensures
        (head + x + y).skip(head.len() as int) == x + y,
{
    assert((head + x + y).skip(head.len() as int) =~= x + y);
}

proof fn lemma_keys_are_unique(a: DocView, b: DocView)
    requires
        is_written_doc(a),
        is_written_doc(b),
        keys_part(a) == keys_part(b),
    ensures
        a.key == b.key,
{
    lemma_sections_show(a);
    lemma_sections_show(b);
    if a.key is Some {
        let m = "[key]\n"@.len() as int;
        assert(keys_part(a).skip(m) =~= key_lines(a.key->0));
        assert(keys_part(b).skip(m) =~= key_lines(b.key->0));
        lemma_key_lines_are_unique(a.key->0, b.key->0);
    }
}

/// The text of a template leaves nothing out: with names without spaces, different contents have
/// different texts.
pub proof fn law_text_determines_content(a: DocView, b: DocView)
    requires
        is_written_doc(a),
        is_written_doc(b),
        doc_text(a) == doc_text(b),
    ensures
        a == b,
{
    lemma_behind(head_text(), background_part(a), keys_part(a));
    lemma_behind(head_text(), background_part(b), keys_part(b));
    lemma_contents_are_unique(a, b);
}

proof fn lemma_contents_are_unique(a: DocView, b: DocView)
    requires
        is_written_doc(a),
        is_written_doc(b),
        background_part(a) + keys_part(a) == background_part(b) + keys_part(b),
    ensures
        a == b,
{
    lemma_sections_show(a);
    lemma_sections_show(b);
    if a.set_all is Some {
        lemma_background_is_unique(
            a.set_all->0->0,
            keys_part(a),
            b.set_all->0->0,
            keys_part(b),
        );
    } else {
        assert(background_part(a) + keys_part(a) =~= keys_part(a));
        assert(background_part(b) + keys_part(b) =~= keys_part(b));
    }
    lemma_keys_are_unique(a, b);
}

/// The content of a document is that of its sections.
pub proof fn law_doc_holds_its_sections(doc: TemplateDoc, i: int)
    ensures
        doc@.set_all is Some == doc.set_all is Some,
        doc.set_all is Some ==> doc@.set_all->0 is Some == doc.set_all->0.all is Some,
        doc.set_all is Some && doc.set_all->0.all is Some ==> doc@.set_all->0->0
            == doc.set_all->0.all->0@,
        doc@.key is Some == doc.key is Some,
        doc.key is Some ==> doc@.key->0.len() == doc.key->0@.len(),
        doc.key is Some && 0 <= i < doc.key->0@.len() ==> doc@.key->0[i] == (
            doc.key->0@[i].0@,
            doc.key->0@[i].1@,
        ),
{
}

/// A further row gives its key the colour of its first three values, whatever rows before it said
/// of that key. A row with fewer values is passed over.
pub proof fn law_rows_give_keys_their_colors(
    rows: Seq<(Seq<char>, Seq<u8>)>,
    name: Seq<char>,
    rgb: Seq<u8>,
    other: Seq<char>,
)
    ensures
        ({
            let before = listed_colors(rows);
            let after = listed_colors(rows.push((name, rgb)));
            &&& rgb.len() < 3 ==> after == before
            &&& rgb.len() >= 3 ==> after.contains_key(name) && after[name] == (Color {
                r: rgb[0],
                g: rgb[1],
                b: rgb[2],
                a: 255,
            })
            &&& other != name ==> after.contains_key(other) == before.contains_key(other)
            &&& other != name && before.contains_key(other) ==> after[other] == before[other]
        }),
        listed_colors(Seq::empty()) == Map::<Seq<char>, Color>::empty(),
{
    assert(rows.push((name, rgb)).drop_last() =~= rows);
}

/// The keys of a template are those of its key section, and its background is the colour of the
/// first three values that the other section lists.
pub proof fn law_sections_are_read(doc: DocView, rgb: Seq<u8>)
    ensures
        doc.key is Some ==> doc_colors(doc) == listed_colors(doc.key->0),
        doc.key is None ==> doc_colors(doc) == Map::<Seq<char>, Color>::empty(),
        doc.set_all == Some(Some(rgb)) && rgb.len() >= 3 ==> doc_background(doc) == Some(
            Color { r: rgb[0], g: rgb[1], b: rgb[2], a: 255 },
        ),
        doc.set_all == Some(Some(rgb)) && rgb.len() < 3 ==> doc_background(doc) is None,
        doc.set_all == Some(None::<Seq<u8>>) || doc.set_all is None ==> doc_background(doc) is None,
{
}

/// A colour is written as the list of its red, green and blue channel, each in three columns.
pub proof fn law_colors_are_listed_in_order(c: Color)
    ensures
        channels(c).len() == 3,
        list_text(channels(c)) == "["@ + text::padded_left(text::decimal(c.r as nat), 3) + ", "@
            + text::padded_left(text::decimal(c.g as nat), 3) + ", "@ + text::padded_left(
            text::decimal(c.b as nat),
            3,
        ) + "]"@,
{
}

/// A template without colours is its comment. A background adds its section behind that.
pub proof fn law_background_is_written_first(c: Color)
    ensures
        doc_text(written_doc(None, Seq::empty())) == head_text(),
        doc_text(written_doc(Some(c), Seq::empty())) == head_text() + ("[set-all]\n"@
            + "ALL               = "@ + list_text(channels(c)) + "\n\n"@),
        head_text() == "# Roccat Vulkan Pro TKL — RGB template\n"@
            + "# Generated by roccat-vulkan-rgb editor\n"@
            + "# Colors are [R, G, B] values in range 0–255.\n"@
            + "# Applied in order: [set-all] → [key] → [index]\n"@ + "\n"@,
{
    let none = Seq::<(Seq<char>, Color)>::empty();
    assert(doc_text(written_doc(None, none)) =~= head_text());
    assert(doc_text(written_doc(Some(c), none)) =~= head_text() + ("[set-all]\n"@
        + "ALL               = "@ + list_text(channels(c)) + "\n\n"@));
}

/// A further key adds its line at the end of the text, behind the head of the section if it is the
/// first: its name in eighteen columns, and its colour.
pub proof fn law_keys_are_written_line_by_line(
    background: Option<Color>,
    rows: Seq<(Seq<char>, Color)>,
    name: Seq<char>,
    c: Color,
)
    ensures
        doc_text(written_doc(background, rows.push((name, c)))) == doc_text(
            written_doc(background, rows),
        ) + (if rows.len() == 0 {
            "[key]\n"@
        } else {
            Seq::<char>::empty()
        }) + (text::padded_right(name, 18) + " = "@ + list_text(channels(c)) + "\n"@),
{
    let more = rows.push((name, c));
    let line = text::padded_right(name, 18) + " = "@ + list_text(channels(c)) + "\n"@;
    assert(listing(more).drop_last() =~= listing(rows));
    assert(listing(more).last() == (name, channels(c)));
    assert(key_lines(listing(more)) == key_lines(listing(rows)) + line);
    let head = head_text() + background_part(written_doc(background, rows));
    assert(written_doc(background, more).key->0 == listing(more));
    assert(doc_text(written_doc(background, more)) =~= head + ("[key]\n"@ + key_lines(
        listing(more),
    )));
    if rows.len() == 0 {
        assert(listing(rows) =~= seq![]);
        assert(doc_text(written_doc(background, rows)) =~= head);
        assert(key_lines(listing(rows)) =~= seq![]);
        assert(doc_text(written_doc(background, more)) =~= head + "[key]\n"@ + line);
    } else {
        assert(doc_text(written_doc(background, rows)) =~= head + ("[key]\n"@ + key_lines(
            listing(rows),
        )));
        assert(doc_text(written_doc(background, more)) =~= doc_text(
            written_doc(background, rows),
        ) + Seq::<char>::empty() + line);
    }
}

/// A document may be overwritten exactly if one of the three sections is among its keys; without
/// one it is no template, and what has no keys to read is no TOML.
pub proof fn law_sections_allow_overwriting(keys: Set<Seq<char>>)
    ensures
        judged(Some(keys)) is Ok == (keys.contains("set-all"@) || keys.contains("key"@)
            || keys.contains("index"@)),
        judged(Some(keys)) is Err ==> judged(Some(keys))->Err_0 == TemplateError::NoSection,
        judged(None) == Err::<(), TemplateError>(TemplateError::NotToml),
{
}

/// The keys of a document are the texts of their list, in whatever order.
pub proof fn law_key_set_holds_the_names(names: Vec<String>, name: Seq<char>)
    ensures
        key_set(None) is None,
        key_set(Some(names)) is Some,
        key_set(Some(names))->0.contains(name) <==> exists|i: int|
            0 <= i < names@.len() && (#[trigger] names@[i])@ == name,
{
    let all = text::texts(names@);
    if all.contains(name) {
        let i = choose|i: int| 0 <= i < all.len() && all[i] == name;
        assert(names@[i]@ == name);
    }
    if exists|i: int| 0 <= i < names@.len() && (#[trigger] names@[i])@ == name {
        let i = choose|i: int| 0 <= i < names@.len() && (#[trigger] names@[i])@ == name;
        assert(all[i] == name);
    }
}

} // verus!
