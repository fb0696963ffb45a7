//! What each line of the settings file sets, and which lines set nothing.

use vstd::prelude::*;

use crate::settings::{
    field_of, fields_of, flag, key_named, reading, reading_all, width_of, window_of, FieldView, Key, SettingsView,
};
use crate::text::{find_from, pieces_of, trim};
use crate::text_laws::the_first_letter_is_found;

verus! {

/// Each line is known by its own name, and no other name is known.
pub proof fn a_line_is_known_by_its_name(name: Seq<char>)
    ensures
        key_named(name) == Some(Key::Folder) <==> name == "folder"@,
        key_named(name) == Some(Key::Recurse) <==> name == "recurse"@,
        key_named(name) == Some(Key::Previous) <==> name == "previous"@,
        key_named(name) == Some(Key::IgnoreColour) <==> name == "ignore_colour"@,
        key_named(name) == Some(Key::Window) <==> name == "window"@,
        key_named(name) == Some(Key::PreviewWidth) <==> name == "preview_width"@,
{
    reveal_strlit("folder");
    reveal_strlit("recurse");
    reveal_strlit("previous");
    reveal_strlit("ignore_colour");
    reveal_strlit("window");
    reveal_strlit("preview_width");
    assert("folder"@[0] == 'f');
    assert("recurse"@[0] == 'r');
    assert("previous"@[3] == 'v' && "previous"@.len() == 8);
    assert("ignore_colour"@[0] == 'i');
    assert("window"@[0] == 'w');
    assert("preview_width"@.len() == 13);
    assert("previous"@[0] == 'p' && "preview_width"@[0] == 'p');
    assert("ignore_colour"@[0] != "window"@[0]);
}

/// A line sets its own setting and no other: a folder with nothing in it is no folder, a
/// yes is `1` and anything else is a no, and a folder that was scanned joins those
/// before it where it has a name.
pub proof fn a_line_sets_its_own(
    settings: SettingsView,
    value: Seq<char>,
    numbers: Seq<Option<u32>>,
)
    ensures
        ({
            let folder = reading(settings, FieldView { key: Key::Folder, value }, numbers);
            let recurse = reading(settings, FieldView { key: Key::Recurse, value }, numbers);
            let colour = reading(settings, FieldView { key: Key::IgnoreColour, value }, numbers);
            let previous = reading(settings, FieldView { key: Key::Previous, value }, numbers);
            let window = reading(settings, FieldView { key: Key::Window, value }, numbers);
            let width = reading(settings, FieldView { key: Key::PreviewWidth, value }, numbers);
            &&& value.len() > 0 ==> folder.folder == Some(value)
            &&& value.len() == 0 ==> folder.folder is None
            &&& folder == (SettingsView { folder: folder.folder, ..settings })
            &&& recurse.recurse <==> value == "1"@
            &&& recurse == (SettingsView { recurse: recurse.recurse, ..settings })
            &&& colour.ignore_colour <==> value == "1"@
            &&& colour == (SettingsView { ignore_colour: colour.ignore_colour, ..settings })
            &&& value.len() > 0 ==> previous.previous == settings.previous.push(value)
            &&& value.len() == 0 ==> previous.previous == settings.previous
            &&& previous == (SettingsView { previous: previous.previous, ..settings })
            &&& window.window == window_of(pieces_of(value), numbers)
            &&& window == (SettingsView { window: window.window, ..settings })
            &&& width.preview_width == width_of(pieces_of(value), numbers)
            &&& width == (SettingsView { preview_width: width.preview_width, ..settings })
            &&& flag(true) == "1"@ && flag(false) == "0"@
        }),
{
}

/// A window is read where there are five numbers and the third and the fourth, its width
/// and its height, are above nought, and then it is those four in their order, maximized
/// where the fifth is written `1`. A pane is read where there is one number above
/// nought.
pub proof fn a_window_is_read_where_it_has_a_size(
    cut: Seq<Seq<char>>,
    numbers: Seq<Option<u32>>,
)
    requires
        cut.len() == numbers.len(),
    ensures
        window_of(cut, numbers) is Some <==> numbers.len() >= 5 && numbers[0] is Some && numbers[1]
            is Some && numbers[2] is Some && numbers[3] is Some && numbers[4] is Some && 0
            < numbers[2]->0 <= 0x7f80_0000 && 0 < numbers[3]->0 <= 0x7f80_0000,
        window_of(cut, numbers) matches Some(window) ==> {
            &&& window.x == numbers[0]->0 && window.y == numbers[1]->0
            &&& window.width == numbers[2]->0 && window.height == numbers[3]->0
            &&& window.maximized <==> cut[4] == "1"@
        },
        width_of(cut, numbers) is Some <==> numbers.len() == 1 && numbers[0] is Some && 0
            < numbers[0]->0 <= 0x7f80_0000,
        width_of(cut, numbers) matches Some(width) ==> width == numbers[0]->0,
{
}

/// A line is cut at its first equals sign: what stands before it, without its blank
/// ends, is the name, and what stands behind it the value, without its blank ends but
/// for a folder, which is kept as it is written. A line without one, and one whose name
/// is not known, says nothing.
pub proof fn a_line_is_cut_at_its_first_equals_sign(name: Seq<char>, value: Seq<char>)
    requires
        !name.contains('='),
    ensures
        field_of(name) is None,
        ({
            let said = field_of(name + seq!['='] + value);
            &&& said is Some <==> key_named(trim(name)) is Some
            &&& said matches Some(field) ==> {
                &&& Some(field.key) == key_named(trim(name))
                &&& field.key == Key::Folder ==> field.value == value
                &&& field.key != Key::Folder ==> field.value == trim(value)
            }
        }),
{
    the_first_letter_is_found(name, '=', 0);
    if find_from(name, '=', 0) < name.len() {
        assert(name.contains(name[find_from(name, '=', 0)]));
    }
    let all = name + seq!['='] + value;
    the_first_letter_is_found(all, '=', 0);
    let at = find_from(all, '=', 0);
    assert(all[name.len() as int] == '=');
    if at < name.len() {
        assert(all[at] == name[at]);
        assert(name.contains(name[at]));
    }
    assert(at == name.len());
    assert(all.take(at) =~= name);
    assert(all.skip(at + 1) =~= value);
}

/// The file is read line by line: what a line says stands before what the lines behind
/// it say, a return before the end of a line being no part of it, and a last line
/// without an end is read as it is.
pub proof fn the_file_is_read_line_by_line(words: Seq<char>, rest: Seq<char>)
    requires
        !words.contains('\n'),
    ensures
        fields_of(Seq::empty()).len() == 0,
        words.len() > 0 ==> fields_of(words) == match field_of(words) {
            Some(field) => seq![field],
            None => Seq::empty(),
        },
        fields_of(words + seq!['\n'] + rest) == (match field_of(
            if words.len() > 0 && words.last() == '\r' {
                words.drop_last()
            } else {
                words
            },
        ) {
            Some(field) => seq![field],
            None => Seq::empty(),
        }) + fields_of(rest),
{
    the_first_letter_is_found(words, '\n', 0);
    if find_from(words, '\n', 0) < words.len() {
        assert(words.contains(words[find_from(words, '\n', 0)]));
    }
    let all = words + seq!['\n'] + rest;
    the_first_letter_is_found(all, '\n', 0);
    let end = find_from(all, '\n', 0);
    assert(all[words.len() as int] == '\n');
    if end < words.len() {
        assert(all[end] == words[end]);
        assert(words.contains(words[end]));
    }
    assert(end == words.len());
    assert(all.take(end) =~= words);
    assert(all.skip(end + 1) =~= rest);
    assert(Seq::<FieldView>::empty() + fields_of(rest) =~= fields_of(rest));
    if words.len() > 0 {
        assert(field_of(words) matches Some(field) ==> fields_of(words) =~= seq![field]);
    }
}

/// With no lines nothing is set, and each line is read on top of those before it, so that
/// of two that set the same the later one stands.
pub proof fn later_lines_stand(
    fields: Seq<FieldView>,
    numbers: Seq<Seq<Option<u32>>>,
    field: FieldView,
    cut: Seq<Option<u32>>,
)
    requires
        fields.len() == numbers.len(),
    ensures
        ({
            let bare = reading_all(Seq::empty(), Seq::empty());
            &&& bare.folder is None && !bare.recurse && bare.previous.len() == 0
            &&& !bare.ignore_colour && bare.window is None && bare.preview_width is None
        }),
        reading_all(fields.push(field), numbers.push(cut)) == reading(
            reading_all(fields, numbers),
            field,
            cut,
        ),
{
    assert(fields.push(field).drop_last() =~= fields);
    assert(numbers.push(cut).drop_last() =~= numbers);
}

} // verus!
