//! How the application was left last time, and the file it is written down in.
//!
//! The file is lines of `key=value`. The numbers in it are floating point, and
//! nothing here does arithmetic on those: a number is held by the bits it is made
//! of, and whoever reads or writes the file turns text into bits and back.

use vstd::prelude::*;
use vstd::string::*;

use crate::folders::{each_once, is_in_order_of, is_sameness, sameness, sorted_given};
use crate::text::{find, find_from, letters, pieces, pieces_of, same_text, trim, trimmed};

verus! {

/// The window's outer position and inner size, in logical points, each number by
/// the bits of the floating point number it is.
#[derive(Debug, Clone, Copy, PartialEq, Eq, Structural)]
pub struct Window {
    pub x: u32,
    pub y: u32,
    pub width: u32,
    pub height: u32,
    pub maximized: bool,
}

/// How the application was left last time.
///
/// This is the application's own state and not a fact about any folder, so it
/// lives here and not in the index. An index describes the files it was built
/// from; how someone was driving the window is not one of those.
pub struct Settings {
    /// Whatever was chosen, kept exactly as it was written.
    ///
    /// It is never checked for existence on load. A network share that is slow to
    /// answer, or offline for a minute, makes that check say no, and dropping the
    /// setting on the strength of it loses the choice for good on the next save.
    /// If the folder cannot be read, the scan says so.
    pub folder: Option<String>,
    pub recurse: bool,
    /// Folders that have been scanned, in alphabetical order. Opening a folder
    /// does not put one here: scanning it does.
    pub previous: Vec<String>,
    pub ignore_colour: bool,
    /// Where the window was and how big, or nothing the first time it is opened.
    pub window: Option<Window>,
    /// Width of the preview pane in the review view, so the divider comes back
    /// where it was left.
    pub preview_width: Option<u32>,
}

/// What the settings are, as the contracts speak of them.
#[verifier::ext_equal]
pub struct SettingsView {
    pub folder: Option<Seq<char>>,
    pub recurse: bool,
    pub previous: Seq<Seq<char>>,
    pub ignore_colour: bool,
    pub window: Option<Window>,
    pub preview_width: Option<u32>,
}

impl View for Settings {
    type V = SettingsView;

    open spec fn view(&self) -> SettingsView {
        SettingsView {
            folder: self.folder.deep_view(),
            recurse: self.recurse,
            previous: self.previous.deep_view(),
            ignore_colour: self.ignore_colour,
            window: self.window,
            preview_width: self.preview_width,
        }
    }
}

/// The settings of an application that has never been opened.
pub open spec fn unset() -> SettingsView {
    SettingsView {
        folder: None,
        recurse: false,
        previous: Seq::empty(),
        ignore_colour: false,
        window: None,
        preview_width: None,
    }
}

impl Default for Settings {
    fn default() -> (settings: Settings)
        ensures
            settings@ == unset(),
    {
        let settings = Settings {
            folder: None,
            recurse: false,
            previous: Vec::new(),
            ignore_colour: false,
            window: None,
            preview_width: None,
        };
        assert(settings@ =~= unset());
        settings
    }
}

/// The folders in the order they are offered: alphabetical, letter case ignored,
/// and each one once. Which of them are the same is what the system says.
pub fn sorted(folders: &[String]) -> (offered: Vec<String>)
    ensures
        exists|same: Seq<Seq<bool>>| #[trigger]
            is_sameness(folders.deep_view(), same) && is_in_order_of(
                offered.deep_view(),
                each_once(folders.deep_view(), same),
            ),
{
    let same = sameness(folders);
    sorted_given(folders, &same)
}

/// What a line of the file is about.
#[derive(Debug, Clone, Copy, PartialEq, Eq, Structural)]
pub enum Key {
    Folder,
    Recurse,
    Previous,
    IgnoreColour,
    Window,
    PreviewWidth,
}

/// What a name in the file stands for, if it stands for anything.
pub open spec fn key_named(name: Seq<char>) -> Option<Key> {
    if name == "folder"@ {
        Some(Key::Folder)
    } else if name == "recurse"@ {
        Some(Key::Recurse)
    } else if name == "previous"@ {
        Some(Key::Previous)
    } else if name == "ignore_colour"@ {
        Some(Key::IgnoreColour)
    } else if name == "window"@ {
        Some(Key::Window)
    } else if name == "preview_width"@ {
        Some(Key::PreviewWidth)
    } else {
        None
    }
}

fn key_of(name: &str) -> (key: Option<Key>)
    ensures
        key == key_named(name@),
{
    if same_text(name, "folder") {
        Some(Key::Folder)
    } else if same_text(name, "recurse") {
        Some(Key::Recurse)
    } else if same_text(name, "previous") {
        Some(Key::Previous)
    } else if same_text(name, "ignore_colour") {
        Some(Key::IgnoreColour)
    } else if same_text(name, "window") {
        Some(Key::Window)
    } else if same_text(name, "preview_width") {
        Some(Key::PreviewWidth)
    } else {
        None
    }
}

/// One line of the file: what it is about and what it says.
pub struct Field {
    pub key: Key,
    pub value: String,
}

/// One line of the file, as the contracts speak of it.
#[verifier::ext_equal]
pub struct FieldView {
    pub key: Key,
    pub value: Seq<char>,
}

impl DeepView for Field {
    type V = FieldView;

    open spec fn deep_view(&self) -> FieldView {
        FieldView { key: self.key, value: self.value@ }
    }
}

impl Key {
    /// Whether what a line says about this is kept exactly as it was written, which
    /// the folder that was chosen is.
    pub open spec fn is_kept_as_written(self) -> bool {
        self is Folder
    }
}

/// What a line says: the name before the first equals sign, without the white space
/// round it, and the value after it, which loses the white space round it too
/// unless it is the folder that was chosen. A line without one says nothing, and neither does one
/// with a name nobody knows.
pub open spec fn field_of(line: Seq<char>) -> Option<FieldView> {
    let at = find_from(line, '=', 0);
    if 0 <= at < line.len() {
        match key_named(trim(line.take(at))) {
            Some(key) => Some(
                FieldView {
                    key,
                    value: if key.is_kept_as_written() {
                        line.skip(at + 1)
                    } else {
                        trim(line.skip(at + 1))
                    },
                },
            ),
            None => None,
        }
    } else {
        None
    }
}

/// A line without the carriage return that some systems end one with.
pub open spec fn without_return(line: Seq<char>) -> Seq<char> {
    if line.len() > 0 && line.last() == '\r' {
        line.drop_last()
    } else {
        line
    }
}

/// Where the first line of some text ends.
pub open spec fn line_end(text: Seq<char>) -> int {
    find_from(text, '\n', 0)
}

/// What the lines of the file say, line after line.
pub open spec fn fields_of(text: Seq<char>) -> Seq<FieldView>
    decreases text.len(),
{
    if text.len() == 0 {
        Seq::empty()
    } else {
        let end = line_end(text);
        let said = if 0 <= end < text.len() {
            field_of(without_return(text.take(end)))
        } else {
            field_of(text)
        };
        let rest = if 0 <= end < text.len() {
            fields_of(text.skip(end + 1))
        } else {
            Seq::empty()
        };
        match said {
            Some(field) => seq![field] + rest,
            None => rest,
        }
    }
}

/// What the lines of the file say, line after line.
pub fn fields(text: &str) -> (said: Vec<Field>)
    ensures
        said.deep_view() == fields_of(text@),
{
    let found = letters(text);
    let mut said: Vec<Field> = Vec::new();
    let mut from: usize = 0;
    assert(found@.skip(0) =~= found@);
    assert(said.deep_view() + fields_of(text@) =~= fields_of(text@));
    while from < found.len()
        invariant
            found@ == text@,
            from <= found@.len(),
            said.deep_view() + fields_of(found@.skip(from as int)) == fields_of(text@),
        decreases found.len() - from,
    {
        let ghost left = found@.skip(from as int);
        let ghost before = said.deep_view();
        assert(left =~= found@.subrange(from as int, found@.len() as int));
        let end: usize = find(&found, '\n', from, found.len());
        let stop: usize = if end < found.len() && from < end && found[end - 1] == '\r' {
            end - 1
        } else {
            end
        };
        let ghost line = found@.subrange(from as int, stop as int);
        proof {
            let whole = found@.subrange(from as int, end as int);
            assert(left.take(end - from) =~= whole);
            assert(end < found@.len() ==> without_return(whole) =~= line);
            assert(end == found@.len() ==> left =~= line);
        }
        let next: usize = if end < found.len() {
            end + 1
        } else {
            end
        };
        let ghost rest = fields_of(found@.skip(next as int));
        proof {
            if end < found@.len() {
                assert(left.skip(end - from + 1) =~= found@.skip(end + 1));
            } else {
                assert(found@.skip(next as int).len() == 0);
            }
        }
        let equals: usize = find(&found, '=', from, stop);
        if equals < stop {
            let (name_from, name_to) = trimmed(&found, from, equals);
            assert(line.take(equals - from) =~= found@.subrange(from as int, equals as int));
            assert(line.skip(equals - from + 1) =~= found@.subrange(equals + 1, stop as int));
            match key_of(text.substring_char(name_from, name_to)) {
                Some(key) => {
                    let (value_from, value_to) = match key {
                        Key::Folder => (equals + 1, stop),
                        _ => trimmed(&found, equals + 1, stop),
                    };
                    let value = text.substring_char(value_from, value_to).to_owned();
                    let field = Field { key, value };
                    let ghost shown = field.deep_view();
                    said.push(field);
                    assert(said.deep_view() =~= before.push(shown));
                    assert(field_of(line) == Some(shown));
                    assert(said.deep_view() + rest =~= before + (seq![shown] + rest));
                },
                None => {
                    assert(field_of(line) is None);
                },
            }
        } else {
            assert(field_of(line) is None);
        }
        from = next;
    }
    assert(said.deep_view() + fields_of(found@.skip(from as int)) =~= said.deep_view());
    said
}

/// Whether the bits of a floating point number are those of one above nought.
pub open spec fn is_positive(bits: u32) -> bool {
    0 < bits <= 0x7f80_0000
}

/// The number at a place of some, if there is one.
pub open spec fn number_at(numbers: Seq<Option<u32>>, at: int) -> Option<u32> {
    if 0 <= at < numbers.len() {
        numbers[at]
    } else {
        None
    }
}

/// `x,y,width,height,maximized`. A line that is not all five numbers is no window
/// rather than a broken one, and neither is one that is no size at all.
pub open spec fn window_of(cut: Seq<Seq<char>>, numbers: Seq<Option<u32>>) -> Option<Window> {
    match (
        number_at(numbers, 0),
        number_at(numbers, 1),
        number_at(numbers, 2),
        number_at(numbers, 3),
        number_at(numbers, 4),
    ) {
        (Some(x), Some(y), Some(width), Some(height), Some(_)) => if cut.len() > 4 && is_positive(
            width,
        ) && is_positive(height) {
            Some(Window { x, y, width, height, maximized: cut[4] == "1"@ })
        } else {
            None
        },
        _ => None,
    }
}

/// The width a line says: the number that is all there is in it, where that is some
/// size.
pub open spec fn width_of(cut: Seq<Seq<char>>, numbers: Seq<Option<u32>>) -> Option<u32> {
    match number_at(numbers, 0) {
        Some(width) => if cut.len() == 1 && is_positive(width) {
            Some(width)
        } else {
            None
        },
        None => None,
    }
}

/// The settings once a line has been read, with the numbers that its pieces are.
pub open spec fn reading(
    settings: SettingsView,
    field: FieldView,
    numbers: Seq<Option<u32>>,
) -> SettingsView {
    match field.key {
        Key::Folder => SettingsView {
            folder: if field.value.len() == 0 {
                None
            } else {
                Some(field.value)
            },
            ..settings
        },
        Key::Recurse => SettingsView { recurse: field.value == "1"@, ..settings },
        Key::Previous => if field.value.len() == 0 {
            settings
        } else {
            SettingsView { previous: settings.previous.push(field.value), ..settings }
        },
        Key::IgnoreColour => SettingsView { ignore_colour: field.value == "1"@, ..settings },
        Key::Window => SettingsView { window: window_of(pieces_of(field.value), numbers), ..settings },
        Key::PreviewWidth => SettingsView {
            preview_width: width_of(pieces_of(field.value), numbers),
            ..settings
        },
    }
}

/// The settings once so many lines have been read, the folders as they come.
pub open spec fn reading_all(fields: Seq<FieldView>, numbers: Seq<Seq<Option<u32>>>) -> SettingsView
    decreases fields.len(),
{
    if fields.len() == 0 {
        unset()
    } else {
        reading(
            reading_all(fields.drop_last(), numbers.drop_last()),
            fields.last(),
            numbers.last(),
        )
    }
}

/// The number at a place of some, if there is one.
fn number(numbers: &Vec<Option<u32>>, at: usize) -> (found: Option<u32>)
    ensures
        found == number_at(numbers@, at as int),
{
    if at < numbers.len() {
        numbers[at]
    } else {
        None
    }
}

fn positive(bits: u32) -> (above: bool)
    ensures
        above == is_positive(bits),
{
    0 < bits && bits <= 0x7f80_0000
}

/// The window a line says, its pieces read as numbers.
pub fn parse_window(value: &str, numbers: &Vec<Option<u32>>) -> (window: Option<Window>)
    ensures
        window == window_of(pieces_of(value@), numbers@),
{
    let cut = pieces(value);
    let ghost shown = cut.deep_view();
    let (Some(x), Some(y), Some(width), Some(height), Some(_)) = (
        number(numbers, 0),
        number(numbers, 1),
        number(numbers, 2),
        number(numbers, 3),
        number(numbers, 4),
    ) else {
        return None;
    };
    if cut.len() > 4 && positive(width) && positive(height) {
        assert(shown[4] == cut@[4]@);
        Some(Window { x, y, width, height, maximized: same_text(cut[4].as_str(), "1") })
    } else {
        None
    }
}

/// The width a line says, its pieces read as numbers.
pub fn parse_width(value: &str, numbers: &Vec<Option<u32>>) -> (width: Option<u32>)
    ensures
        width == width_of(pieces_of(value@), numbers@),
{
    let cut = pieces(value);
    match number(numbers, 0) {
        Some(width) => if cut.len() == 1 && positive(width) {
            Some(width)
        } else {
            None
        },
        None => None,
    }
}

/// The settings some lines say, with the numbers that the pieces of each are.
///
/// The folders that were scanned come out in the order they are offered in.
pub fn settings_from(fields: &Vec<Field>, numbers: &Vec<Vec<Option<u32>>>) -> (settings: Settings)
    requires
        numbers@.len() == fields@.len(),
    ensures
        ({
            let read = reading_all(fields.deep_view(), numbers.deep_view());
            &&& settings@ == (SettingsView { previous: settings@.previous, ..read })
            &&& exists|same: Seq<Seq<bool>>| #[trigger]
                is_sameness(read.previous, same) && is_in_order_of(
                    settings@.previous,
                    each_once(read.previous, same),
                )
        }),
{
    let ghost all = fields.deep_view();
    let ghost parts = numbers.deep_view();
    let mut out = Settings::default();
    for at in 0..fields.len()
        invariant
            all == fields.deep_view(),
            parts == numbers.deep_view(),
            numbers@.len() == fields@.len(),
            out@ == reading_all(all.take(at as int), parts.take(at as int)),
    {
        let ghost before = out@;
        proof {
            assert(all.take(at + 1).drop_last() =~= all.take(at as int));
            assert(parts.take(at + 1).drop_last() =~= parts.take(at as int));
            assert(all[at as int] == fields@[at as int].deep_view());
            assert(parts[at as int] == numbers@[at as int].deep_view());
            assert(numbers@[at as int].deep_view() =~= numbers@[at as int]@);
        }
        let field = &fields[at];
        let value = field.value.as_str();
        match field.key {
            Key::Folder => {
                out.folder = if value.is_empty() {
                    None
                } else {
                    Some(field.value.clone())
                };
            },
            Key::Recurse => {
                out.recurse = same_text(value, "1");
            },
            Key::Previous => {
                if !value.is_empty() {
                    out.previous.push(field.value.clone());
                    assert(out.previous.deep_view() =~= before.previous.push(field.value@));
                }
            },
            Key::IgnoreColour => {
                out.ignore_colour = same_text(value, "1");
            },
            Key::Window => {
                out.window = parse_window(value, &numbers[at]);
            },
            Key::PreviewWidth => {
                out.preview_width = parse_width(value, &numbers[at]);
            },
        }
        assert(out@ =~= reading(before, all[at as int], parts[at as int]));
    }
    assert(all.take(all.len() as int) =~= all);
    assert(parts.take(parts.len() as int) =~= parts);
    let listed: &[String] = out.previous.as_slice();
    assert(listed.deep_view() =~= out@.previous);
    let offered = sorted(listed);
    out.previous = offered;
    out
}

/// The numbers of the window and of the preview pane, as they are written.
pub struct Shown {
    pub x: String,
    pub y: String,
    pub width: String,
    pub height: String,
    pub preview_width: String,
}

/// The numbers as they are written, as the contracts speak of them.
#[verifier::ext_equal]
pub struct ShownView {
    pub x: Seq<char>,
    pub y: Seq<char>,
    pub width: Seq<char>,
    pub height: Seq<char>,
    pub preview_width: Seq<char>,
}

impl View for Shown {
    type V = ShownView;

    open spec fn view(&self) -> ShownView {
        ShownView {
            x: self.x@,
            y: self.y@,
            width: self.width@,
            height: self.height@,
            preview_width: self.preview_width@,
        }
    }
}

/// How a yes and a no are written.
pub open spec fn flag(on: bool) -> Seq<char> {
    if on {
        "1"@
    } else {
        "0"@
    }
}

/// A line of the file: a name, an equals sign, a value and the end of the line.
pub open spec fn line(name: Seq<char>, value: Seq<char>) -> Seq<char> {
    name + seq!['='] + value + seq!['\n']
}

/// A line for each of some folders.
pub open spec fn previous_lines(folders: Seq<Seq<char>>) -> Seq<char>
    decreases folders.len(),
{
    if folders.len() == 0 {
        Seq::empty()
    } else {
        line("previous"@, folders[0]) + previous_lines(folders.drop_first())
    }
}

/// What a window is written as.
pub open spec fn window_value(shown: ShownView, maximized: bool) -> Seq<char> {
    shown.x + seq![','] + shown.y + seq![','] + shown.width + seq![','] + shown.height + seq![',']
        + flag(maximized)
}

/// The text the settings are written as, the folders that were scanned being these.
pub open spec fn text_of(
    settings: SettingsView,
    previous: Seq<Seq<char>>,
    shown: ShownView,
) -> Seq<char> {
    line(
        "folder"@,
        match settings.folder {
            Some(folder) => folder,
            None => Seq::empty(),
        },
    ) + line("recurse"@, flag(settings.recurse)) + line(
        "ignore_colour"@,
        flag(settings.ignore_colour),
    ) + previous_lines(previous) + (match settings.window {
        Some(window) => line("window"@, window_value(shown, window.maximized)),
        None => Seq::empty(),
    }) + (match settings.preview_width {
        Some(_) => line("preview_width"@, shown.preview_width),
        None => Seq::empty(),
    })
}

fn append_line(text: &mut String, name: &str, value: &str)
    ensures
        final(text)@ == old(text)@ + line(name@, value@),
{
    proof {
        reveal_strlit("=");
        reveal_strlit("\n");
    }
    text.append(name);
    text.append("=");
    text.append(value);
    text.append("\n");
    assert(text@ =~= old(text)@ + line(name@, value@));
}

fn flag_text(on: bool) -> (text: &'static str)
    ensures
        text@ == flag(on),
{
    if on {
        "1"
    } else {
        "0"
    }
}

/// The text the settings are written as, the folders that were scanned in the order
/// they will be shown in, given the window's numbers as they are written.
pub fn written(values: &Settings, shown: &Shown) -> (text: String)
    ensures
        exists|same: Seq<Seq<bool>>, previous: Seq<Seq<char>>| #[trigger]
            is_sameness(values@.previous, same) && #[trigger] is_in_order_of(
                previous,
                each_once(values@.previous, same),
            ) && text@ == text_of(values@, previous, shown@),
{
    let listed: &[String] = values.previous.as_slice();
    assert(listed.deep_view() =~= values@.previous);
    let previous = sorted(listed);
    written_given(values, &previous, shown)
}

/// The text the settings are written as, once the folders are in order.
pub fn written_given(values: &Settings, previous: &Vec<String>, shown: &Shown) -> (text: String)
    ensures
        text@ == text_of(values@, previous.deep_view(), shown@),
{
    let mut text = String::new();
    let folder = match &values.folder {
        Some(folder) => folder.clone(),
        None => String::new(),
    };
    append_line(&mut text, "folder", folder.as_str());
    append_line(&mut text, "recurse", flag_text(values.recurse));
    append_line(&mut text, "ignore_colour", flag_text(values.ignore_colour));
    let ghost before = text@;
    let ghost all = previous.deep_view();
    assert(all.skip(0) =~= all);
    for at in 0..previous.len()
        invariant
            all == previous.deep_view(),
            text@ + previous_lines(all.skip(at as int)) == before + previous_lines(all),
    {
        let ghost so_far = text@;
        append_line(&mut text, "previous", previous[at].as_str());
        assert(all.skip(at as int).drop_first() =~= all.skip(at + 1));
        assert(all.skip(at as int)[0] == previous@[at as int]@);
        assert(text@ + previous_lines(all.skip(at + 1)) =~= so_far + previous_lines(
            all.skip(at as int),
        ));
    }
    assert(text@ =~= before + previous_lines(all));
    let ghost so_far = text@;
    if let Some(window) = values.window {
        proof {
            reveal_strlit(",");
        }
        let value = shown.x.clone().concat(",").concat(shown.y.as_str()).concat(",").concat(
            shown.width.as_str(),
        ).concat(",").concat(shown.height.as_str()).concat(",").concat(flag_text(window.maximized));
        assert(value@ =~= window_value(shown@, window.maximized));
        append_line(&mut text, "window", value.as_str());
    } else {
        assert(text@ =~= so_far + Seq::<char>::empty());
    }
    let ghost so_far = text@;
    if values.preview_width.is_some() {
        append_line(&mut text, "preview_width", shown.preview_width.as_str());
    } else {
        assert(text@ =~= so_far + Seq::<char>::empty());
    }
    assert(text@ =~= text_of(values@, all, shown@));
    text
}

} // verus!
