//! What is written of the settings is what is read back of them.

use vstd::prelude::*;
use vstd::string::*;

use crate::folders::{
    different_folders_are_all_kept, each_folder_is_kept_once, each_once, is_in_order_of, is_sameness,
    is_told_by, lowercase, sorting_leaves_what_is_in_order, sorting_puts_in_order,
    what_is_offered_is_offered_again,
};
use crate::settings::{
    fields_of, flag, is_positive, key_named, line, line_end, previous_lines, reading, reading_all,
    text_of, unset, window_of, window_value, FieldView, Key, SettingsView, ShownView, Window,
};
use crate::text::{comes_before, is_blank, lemma_find_behind, pieces_of, trimming_leaves_bare_text};

verus! {

/// Text that a line can hold as it is: on one line, with no white space at either
/// end.
pub open spec fn is_plain(text: Seq<char>) -> bool {
    &&& !text.contains('\n')
    &&& text.len() > 0 ==> !is_blank(text[0]) && !is_blank(text.last())
}

/// Text that a line can hold as it is where that is kept as it was written: on one
/// line, without a carriage return at the end of it, which would be taken for the
/// line's own.
pub open spec fn is_line(text: Seq<char>) -> bool {
    &&& !text.contains('\n')
    &&& text.len() > 0 ==> text.last() != '\r'
}

/// Text that can stand between two commas.
pub open spec fn is_piece(text: Seq<char>) -> bool {
    is_plain(text) && !text.contains(',')
}

/// Settings that the file can hold as they are: the folders are named, the chosen one
/// on one line and those that were scanned plainly, the numbers as they are written
/// are plain, and the window and the preview pane are some size.
pub open spec fn is_writable(settings: SettingsView, shown: ShownView) -> bool {
    &&& settings.folder matches Some(folder) ==> folder.len() > 0 && is_line(folder)
    &&& forall|at: int|
        0 <= at < settings.previous.len() ==> (#[trigger] settings.previous[at]).len() > 0
            && is_plain(settings.previous[at])
    &&& settings.window matches Some(window) ==> {
        &&& is_piece(shown.x)
        &&& is_piece(shown.y)
        &&& is_piece(shown.width)
        &&& is_piece(shown.height)
        &&& is_positive(window.width)
        &&& is_positive(window.height)
    }
    &&& settings.preview_width matches Some(width) ==> is_piece(shown.preview_width)
        && is_positive(width)
}

/// A line about a folder that was scanned.
pub open spec fn previous_fields(folders: Seq<Seq<char>>) -> Seq<FieldView> {
    folders.map_values(|folder: Seq<char>| FieldView { key: Key::Previous, value: folder })
}

/// The lines that are always there.
pub open spec fn first_fields(settings: SettingsView) -> Seq<FieldView> {
    seq![
        FieldView {
            key: Key::Folder,
            value: match settings.folder {
                Some(folder) => folder,
                None => Seq::empty(),
            },
        },
        FieldView { key: Key::Recurse, value: flag(settings.recurse) },
        FieldView { key: Key::IgnoreColour, value: flag(settings.ignore_colour) },
    ]
}

/// What the lines the settings are written as say.
pub open spec fn fields_said(settings: SettingsView, shown: ShownView) -> Seq<FieldView> {
    let listed = first_fields(settings) + previous_fields(settings.previous);
    let placed = match settings.window {
        Some(window) => listed.push(
            FieldView { key: Key::Window, value: window_value(shown, window.maximized) },
        ),
        None => listed,
    };
    match settings.preview_width {
        Some(_) => placed.push(FieldView { key: Key::PreviewWidth, value: shown.preview_width }),
        None => placed,
    }
}

/// Whether some numbers are those in these lines: the window's and the preview
/// pane's, and whatever the other lines read as.
pub open spec fn are_the_numbers(numbers: Seq<Seq<Option<u32>>>, settings: SettingsView) -> bool {
    let listed = first_fields(settings).len() + settings.previous.len();
    let placed = listed + if settings.window is Some {
        1int
    } else {
        0
    };
    &&& numbers.len() == placed + if settings.preview_width is Some {
        1int
    } else {
        0
    }
    &&& settings.window matches Some(window) ==> {
        let said = numbers[listed as int];
        &&& said.len() == 5
        &&& said[0] == Some(window.x)
        &&& said[1] == Some(window.y)
        &&& said[2] == Some(window.width)
        &&& said[3] == Some(window.height)
        &&& said[4] is Some
    }
    &&& settings.preview_width matches Some(width) ==> numbers[placed] == seq![Some(width)]
}

/// A name the file knows is plain, and holds no equals sign.
proof fn lemma_name(name: Seq<char>)
    requires
        key_named(name) is Some,
    ensures
        is_plain(name),
        name.len() > 0,
        !name.contains('='),
{
    reveal_strlit("folder");
    reveal_strlit("recurse");
    reveal_strlit("previous");
    reveal_strlit("ignore_colour");
    reveal_strlit("window");
    reveal_strlit("preview_width");
    assert forall|at: int| 0 <= at < name.len() implies name[at] != '=' && name[at] != '\n'
        && !is_blank(name[at]) by {}
}

proof fn lemma_names()
    ensures
        key_named("folder"@) == Some(Key::Folder),
        key_named("recurse"@) == Some(Key::Recurse),
        key_named("previous"@) == Some(Key::Previous),
        key_named("ignore_colour"@) == Some(Key::IgnoreColour),
        key_named("window"@) == Some(Key::Window),
        key_named("preview_width"@) == Some(Key::PreviewWidth),
{
    reveal_strlit("folder");
    reveal_strlit("recurse");
    reveal_strlit("previous");
    reveal_strlit("ignore_colour");
    reveal_strlit("window");
    reveal_strlit("preview_width");
    assert("folder"@.len() == 6);
    assert("recurse"@.len() == 7);
    assert("previous"@.len() == 8);
    assert("ignore_colour"@.len() == 13);
    assert("window"@.len() == 6);
    assert("preview_width"@.len() == 13);
    assert("folder"@[0] != "window"@[0]);
    assert("ignore_colour"@[0] != "preview_width"@[0]);
}

/// A flag is plain, holds no comma, and is told from the other.
proof fn lemma_flag(on: bool)
    ensures
        is_piece(flag(on)),
        flag(on).len() == 1,
        (flag(on) == "1"@) == on,
{
    reveal_strlit("0");
    reveal_strlit("1");
    assert("0"@[0] != "1"@[0]);
}

/// A line in front of some text is read as what it says, and the text behind it as
/// what that says.
proof fn lemma_line(name: Seq<char>, value: Seq<char>, rest: Seq<char>, key: Key)
    requires
        key_named(name) == Some(key),
        if key.is_kept_as_written() {
            is_line(value)
        } else {
            is_plain(value)
        },
    ensures
        fields_of(line(name, value) + rest) == seq![FieldView { key, value }] + fields_of(rest),
{
    lemma_name(name);
    let text = line(name, value) + rest;
    let said = name + seq!['='] + value;
    let behind = seq!['\n'] + rest;
    assert(text =~= said + behind);
    assert(!said.contains('\n')) by {
        if said.contains('\n') {
            let at = choose|at: int| 0 <= at < said.len() && said[at] == '\n';
            if at < name.len() {
                assert(name[at] == '\n');
            } else if at > name.len() {
                assert(value[at - name.len() - 1] == '\n');
            }
        }
    }
    lemma_find_behind(said, behind, '\n', 0);
    assert(behind[0] == '\n');
    assert(line_end(text) == said.len());
    assert(text.take(said.len() as int) =~= said);
    assert(text.skip(said.len() as int + 1) =~= rest);
    let tail = seq!['='] + value;
    assert(said =~= name + tail);
    lemma_find_behind(name, tail, '=', 0);
    assert(tail[0] == '=');
    assert(said.take(name.len() as int) =~= name);
    assert(said.skip(name.len() as int + 1) =~= value);
    assert(said.last() != '\r') by {
        assert(is_blank('\r'));
        if value.len() > 0 {
            assert(said.last() == value.last());
        } else {
            assert(said.last() == '=');
        }
    }
    trimming_leaves_bare_text(name);
    if !key.is_kept_as_written() {
        trimming_leaves_bare_text(value);
    }
}

proof fn lemma_previous_lines(folders: Seq<Seq<char>>, rest: Seq<char>)
    requires
        forall|at: int| 0 <= at < folders.len() ==> is_plain(#[trigger] folders[at]),
    ensures
        fields_of(previous_lines(folders) + rest) == previous_fields(folders) + fields_of(rest),
    decreases folders.len(),
{
    if folders.len() == 0 {
        assert(previous_lines(folders) + rest =~= rest);
        assert(previous_fields(folders) + fields_of(rest) =~= fields_of(rest));
    } else {
        lemma_names();
        let others = folders.drop_first();
        assert forall|at: int| 0 <= at < others.len() implies is_plain(#[trigger] others[at]) by {
            assert(others[at] == folders[at + 1]);
        }
        lemma_previous_lines(others, rest);
        assert(previous_lines(folders) + rest =~= line("previous"@, folders[0]) + (previous_lines(
            others,
        ) + rest));
        lemma_line("previous"@, folders[0], previous_lines(others) + rest, Key::Previous);
        assert(previous_fields(folders) + fields_of(rest) =~= seq![
            FieldView { key: Key::Previous, value: folders[0] },
        ] + (previous_fields(others) + fields_of(rest)));
    }
}

proof fn lemma_piece(piece: Seq<char>, rest: Seq<char>)
    requires
        is_piece(piece),
    ensures
        pieces_of(piece + seq![','] + rest) == seq![piece] + pieces_of(rest),
{
    let text = piece + seq![','] + rest;
    let behind = seq![','] + rest;
    assert(text =~= piece + behind);
    lemma_find_behind(piece, behind, ',', 0);
    assert(behind[0] == ',');
    assert(text.take(piece.len() as int) =~= piece);
    assert(text.skip(piece.len() as int + 1) =~= rest);
    trimming_leaves_bare_text(piece);
}

proof fn lemma_last_piece(piece: Seq<char>)
    requires
        is_piece(piece),
    ensures
        pieces_of(piece) == seq![piece],
{
    lemma_find_behind(piece, Seq::empty(), ',', 0);
    assert(piece + Seq::<char>::empty() =~= piece);
    trimming_leaves_bare_text(piece);
}

/// A window is read back from the line it is written as.
proof fn lemma_window(window: Window, shown: ShownView, numbers: Seq<Option<u32>>)
    requires
        is_piece(shown.x),
        is_piece(shown.y),
        is_piece(shown.width),
        is_piece(shown.height),
        is_positive(window.width),
        is_positive(window.height),
        numbers.len() == 5,
        numbers[0] == Some(window.x),
        numbers[1] == Some(window.y),
        numbers[2] == Some(window.width),
        numbers[3] == Some(window.height),
        numbers[4] is Some,
    ensures
        is_plain(window_value(shown, window.maximized)),
        window_of(
            pieces_of(window_value(shown, window.maximized)),
            numbers,
        ) == Some(window),
{
    let last = flag(window.maximized);
    lemma_flag(window.maximized);
    let fourth = shown.height + seq![','] + last;
    let third = shown.width + seq![','] + fourth;
    let second = shown.y + seq![','] + third;
    let whole = shown.x + seq![','] + second;
    let value = window_value(shown, window.maximized);
    assert(value =~= whole);
    lemma_last_piece(last);
    lemma_piece(shown.height, last);
    lemma_piece(shown.width, fourth);
    lemma_piece(shown.y, third);
    lemma_piece(shown.x, second);
    let cut = pieces_of(value);
    assert(cut =~= seq![shown.x, shown.y, shown.width, shown.height, last]);
    assert(!is_blank(','));
    assert(value.last() == last[0]);
    assert(last.last() == last[0]);
    assert(!value.contains('\n')) by {
        lemma_no_letter(shown.height, last, '\n');
        lemma_no_letter(shown.width, fourth, '\n');
        lemma_no_letter(shown.y, third, '\n');
        lemma_no_letter(shown.x, second, '\n');
    }
    if shown.x.len() > 0 {
        assert(value[0] == shown.x[0]);
    } else {
        assert(value[0] == ',');
    }
}

proof fn lemma_no_letter(one: Seq<char>, other: Seq<char>, letter: char)
    requires
        letter != ',',
        !one.contains(letter),
        !other.contains(letter),
    ensures
        !(one + seq![','] + other).contains(letter),
{
    let whole = one + seq![','] + other;
    if whole.contains(letter) {
        let at = choose|at: int| 0 <= at < whole.len() && whole[at] == letter;
        if at < one.len() {
            assert(one[at] == letter);
        } else if at > one.len() {
            assert(other[at - one.len() - 1] == letter);
        }
    }
}

proof fn lemma_reading_one_more(
    fields: Seq<FieldView>,
    numbers: Seq<Seq<Option<u32>>>,
    field: FieldView,
    number: Seq<Option<u32>>,
)
    ensures
        reading_all(fields.push(field), numbers.push(number)) == reading(
            reading_all(fields, numbers),
            field,
            number,
        ),
{
    assert(fields.push(field).drop_last() =~= fields);
    assert(numbers.push(number).drop_last() =~= numbers);
}

proof fn lemma_reading_previous(
    fields: Seq<FieldView>,
    numbers: Seq<Seq<Option<u32>>>,
    folders: Seq<Seq<char>>,
)
    requires
        numbers.len() == fields.len() + folders.len(),
        forall|at: int| 0 <= at < folders.len() ==> (#[trigger] folders[at]).len() > 0,
    ensures
        ({
            let before = reading_all(fields, numbers.take(fields.len() as int));
            reading_all(fields + previous_fields(folders), numbers) == (SettingsView {
                previous: before.previous + folders,
                ..before
            })
        }),
    decreases folders.len(),
{
    let before = reading_all(fields, numbers.take(fields.len() as int));
    let all = fields + previous_fields(folders);
    if folders.len() == 0 {
        assert(all =~= fields);
        assert(numbers.take(fields.len() as int) =~= numbers);
        assert(before.previous + folders =~= before.previous);
    } else {
        let others = folders.drop_last();
        let less = numbers.drop_last();
        assert forall|at: int| 0 <= at < others.len() implies (#[trigger] others[at]).len() > 0 by {
            assert(others[at] == folders[at]);
        }
        lemma_reading_previous(fields, less, others);
        assert(less.take(fields.len() as int) =~= numbers.take(fields.len() as int));
        assert(all.drop_last() =~= fields + previous_fields(others));
        assert(all.last() == FieldView { key: Key::Previous, value: folders.last() });
        assert(folders[folders.len() - 1] == folders.last());
        assert((before.previous + others).push(folders.last()) =~= before.previous + folders);
    }
}

/// What is written of the settings is what is read back of them: the lines say what
/// was written, and the settings those lines say are the settings that were written.
pub proof fn what_is_written_is_read_back(
    settings: SettingsView,
    shown: ShownView,
    numbers: Seq<Seq<Option<u32>>>,
)
    requires
        is_writable(settings, shown),
        are_the_numbers(numbers, settings),
    ensures
        fields_of(text_of(settings, settings.previous, shown)) == fields_said(settings, shown),
        numbers.len() == fields_said(settings, shown).len(),
        reading_all(fields_said(settings, shown), numbers) == settings,
{
    lemma_the_lines_say_it(settings, shown);
    lemma_the_settings_come_back(settings, shown, numbers);
}

/// What was saved comes back: the settings that are read out of what is written of
/// some settings are those settings, with the folders that were scanned in the
/// order they are offered in and each of them once. The same is said of two folders
/// whenever it is asked, whichever of them comes first.
pub proof fn what_was_saved_comes_back(
    settings: SettingsView,
    shown: ShownView,
    one_path: spec_fn(Seq<char>, Seq<char>) -> bool,
    same: Seq<Seq<bool>>,
    offered: Seq<Seq<char>>,
    numbers: Seq<Seq<Option<u32>>>,
    same_again: Seq<Seq<bool>>,
    offered_again: Seq<Seq<char>>,
)
    requires
        is_writable(settings, shown),
        forall|one: Seq<char>, other: Seq<char>| #[trigger] one_path(one, other) == one_path(other, one),
        is_told_by(same, settings.previous, one_path),
        is_in_order_of(offered, each_once(settings.previous, same)),
        are_the_numbers(numbers, SettingsView { previous: offered, ..settings }),
        ({
            let read = reading_all(fields_of(text_of(settings, offered, shown)), numbers);
            &&& is_told_by(same_again, read.previous, one_path)
            &&& is_in_order_of(offered_again, each_once(read.previous, same_again))
        }),
    ensures
        numbers.len() == fields_of(text_of(settings, offered, shown)).len(),
        ({
            let read = reading_all(fields_of(text_of(settings, offered, shown)), numbers);
            SettingsView { previous: offered_again, ..read } == SettingsView {
                previous: offered,
                ..settings
            }
        }),
{
    let kept = each_once(settings.previous, same);
    each_folder_is_kept_once(settings.previous, same);
    sorting_puts_in_order(kept, offered);
    let saved = SettingsView { previous: offered, ..settings };
    assert forall|at: int| 0 <= at < saved.previous.len() implies (#[trigger] saved.previous[at]).len()
        > 0 && is_plain(saved.previous[at]) by {
        assert(offered.contains(offered[at]));
        assert(kept.contains(offered[at]));
        assert(settings.previous.contains(offered[at]));
    }
    assert(is_writable(saved, shown));
    assert(text_of(settings, offered, shown) == text_of(saved, saved.previous, shown));
    what_is_written_is_read_back(saved, shown, numbers);
    what_is_offered_is_offered_again(
        settings.previous,
        one_path,
        same,
        offered,
        same_again,
        offered_again,
    );
}

/// The line about the preview pane, where there is one.
spec fn width_line(settings: SettingsView, shown: ShownView) -> Seq<char> {
    match settings.preview_width {
        Some(_) => line("preview_width"@, shown.preview_width),
        None => Seq::empty(),
    }
}

/// The line about the window, where there is one.
spec fn place_line(settings: SettingsView, shown: ShownView) -> Seq<char> {
    match settings.window {
        Some(window) => line("window"@, window_value(shown, window.maximized)),
        None => Seq::empty(),
    }
}

/// What the line about the preview pane says.
spec fn width_said(settings: SettingsView, shown: ShownView) -> Seq<FieldView> {
    match settings.preview_width {
        Some(_) => seq![FieldView { key: Key::PreviewWidth, value: shown.preview_width }],
        None => Seq::empty(),
    }
}

/// What the line about the window says.
spec fn place_said(settings: SettingsView, shown: ShownView) -> Seq<FieldView> {
    match settings.window {
        Some(window) => seq![
            FieldView { key: Key::Window, value: window_value(shown, window.maximized) },
        ],
        None => Seq::empty(),
    }
}

proof fn lemma_last_lines(settings: SettingsView, shown: ShownView)
    requires
        is_writable(settings, shown),
    ensures
        fields_of(place_line(settings, shown) + width_line(settings, shown)) == place_said(
            settings,
            shown,
        ) + width_said(settings, shown),
{
    lemma_names();
    let none = Seq::<char>::empty();
    let width = width_line(settings, shown);
    assert(fields_of(none) =~= Seq::<FieldView>::empty());
    assert(fields_of(width) =~= width_said(settings, shown)) by {
        if settings.preview_width is Some {
            lemma_line("preview_width"@, shown.preview_width, none, Key::PreviewWidth);
            assert(width + none =~= width);
        }
    }
    match settings.window {
        Some(window) => {
            let read = seq![
                Some(window.x),
                Some(window.y),
                Some(window.width),
                Some(window.height),
                Some(0),
            ];
            lemma_window(window, shown, read);
            lemma_line("window"@, window_value(shown, window.maximized), width, Key::Window);
        },
        None => {
            assert(place_line(settings, shown) + width =~= width);
            assert(place_said(settings, shown) + width_said(settings, shown) =~= width_said(
                settings,
                shown,
            ));
        },
    }
}

proof fn lemma_first_lines(
    folder: Seq<char>,
    recurse: bool,
    ignore_colour: bool,
    rest: Seq<char>,
)
    requires
        is_line(folder),
    ensures
        fields_of(
            line("folder"@, folder) + (line("recurse"@, flag(recurse)) + (line(
                "ignore_colour"@,
                flag(ignore_colour),
            ) + rest)),
        ) == seq![
            FieldView { key: Key::Folder, value: folder },
            FieldView { key: Key::Recurse, value: flag(recurse) },
            FieldView { key: Key::IgnoreColour, value: flag(ignore_colour) },
        ] + fields_of(rest),
{
    lemma_names();
    lemma_flag(recurse);
    lemma_flag(ignore_colour);
    let colour = line("ignore_colour"@, flag(ignore_colour)) + rest;
    let depth = line("recurse"@, flag(recurse)) + colour;
    lemma_line("ignore_colour"@, flag(ignore_colour), rest, Key::IgnoreColour);
    lemma_line("recurse"@, flag(recurse), colour, Key::Recurse);
    lemma_line("folder"@, folder, depth, Key::Folder);
    assert(fields_of(line("folder"@, folder) + depth) =~= seq![
        FieldView { key: Key::Folder, value: folder },
        FieldView { key: Key::Recurse, value: flag(recurse) },
        FieldView { key: Key::IgnoreColour, value: flag(ignore_colour) },
    ] + fields_of(rest));
}

proof fn lemma_six_parts(
    a: Seq<char>,
    b: Seq<char>,
    c: Seq<char>,
    d: Seq<char>,
    e: Seq<char>,
    f: Seq<char>,
)
    ensures
        a + b + c + d + e + f == a + (b + (c + (d + (e + f)))),
{
    assert(a + b + c + d + e + f =~= a + (b + (c + (d + (e + f)))));
}

proof fn lemma_the_lines_say_it(settings: SettingsView, shown: ShownView)
    requires
        is_writable(settings, shown),
    ensures
        fields_of(text_of(settings, settings.previous, shown)) == fields_said(settings, shown),
{
    let folder = match settings.folder {
        Some(folder) => folder,
        None => Seq::<char>::empty(),
    };
    let last = place_line(settings, shown) + width_line(settings, shown);
    let rest = previous_lines(settings.previous) + last;
    lemma_six_parts(
        line("folder"@, folder),
        line("recurse"@, flag(settings.recurse)),
        line("ignore_colour"@, flag(settings.ignore_colour)),
        previous_lines(settings.previous),
        place_line(settings, shown),
        width_line(settings, shown),
    );
    lemma_first_lines(folder, settings.recurse, settings.ignore_colour, rest);
    lemma_previous_lines(settings.previous, last);
    lemma_last_lines(settings, shown);
    lemma_fields_in_parts(settings, shown);
}

proof fn lemma_fields_in_parts(settings: SettingsView, shown: ShownView)
    ensures
        fields_said(settings, shown) == first_fields(settings) + (previous_fields(settings.previous)
            + (place_said(settings, shown) + width_said(settings, shown))),
{
    assert(fields_said(settings, shown) =~= first_fields(settings) + (previous_fields(
        settings.previous,
    ) + (place_said(settings, shown) + width_said(settings, shown))));
}

proof fn lemma_the_settings_come_back(
    settings: SettingsView,
    shown: ShownView,
    numbers: Seq<Seq<Option<u32>>>,
)
    requires
        is_writable(settings, shown),
        are_the_numbers(numbers, settings),
    ensures
        reading_all(fields_said(settings, shown), numbers) == settings,
{
    lemma_flag(settings.recurse);
    lemma_flag(settings.ignore_colour);
    let first = first_fields(settings);
    let names = (first.len() + settings.previous.len()) as int;
    let listed_numbers = numbers.take(names);
    let listed = first + previous_fields(settings.previous);

    let one = Seq::<FieldView>::empty().push(first[0]);
    let two = one.push(first[1]);
    let ones = Seq::<Seq<Option<u32>>>::empty().push(numbers[0]);
    let twos = ones.push(numbers[1]);
    lemma_reading_one_more(Seq::empty(), Seq::empty(), first[0], numbers[0]);
    lemma_reading_one_more(one, ones, first[1], numbers[1]);
    lemma_reading_one_more(two, twos, first[2], numbers[2]);
    assert(first =~= two.push(first[2]));
    assert(listed_numbers.take(3) =~= twos.push(numbers[2]));
    let begun = SettingsView {
        folder: settings.folder,
        recurse: settings.recurse,
        ignore_colour: settings.ignore_colour,
        ..unset()
    };
    assert(reading_all(first, listed_numbers.take(3)) =~= begun);

    lemma_reading_previous(first, listed_numbers, settings.previous);
    assert(begun.previous + settings.previous =~= settings.previous);
    let named = SettingsView { previous: settings.previous, ..begun };
    assert(reading_all(listed, listed_numbers) == named);

    let placed = match settings.window {
        Some(window) => listed.push(
            FieldView { key: Key::Window, value: window_value(shown, window.maximized) },
        ),
        None => listed,
    };
    let placed_numbers = numbers.take(placed.len() as int);
    let there = SettingsView { window: settings.window, ..named };
    assert(reading_all(placed, placed_numbers) == there) by {
        match settings.window {
            Some(window) => {
                lemma_window(window, shown, numbers[names]);
                lemma_reading_one_more(listed, listed_numbers, placed.last(), numbers[names]);
                assert(placed_numbers =~= listed_numbers.push(numbers[names]));
            },
            None => {},
        }
    }
    match settings.preview_width {
        Some(width) => {
            lemma_last_piece(shown.preview_width);
            lemma_reading_one_more(
                placed,
                placed_numbers,
                FieldView { key: Key::PreviewWidth, value: shown.preview_width },
                numbers.last(),
            );
            assert(numbers =~= placed_numbers.push(numbers.last()));
        },
        None => {
            assert(numbers =~= placed_numbers);
        },
    }
}

/// Folders that are in order, no two of them the same, are offered as they stand.
pub proof fn a_list_in_order_is_offered_as_it_stands(
    previous: Seq<Seq<char>>,
    same: Seq<Seq<bool>>,
    offered: Seq<Seq<char>>,
)
    requires
        is_sameness(previous, same),
        forall|earlier: int, at: int|
            0 <= earlier < at < previous.len() ==> !#[trigger] same[at][earlier],
        forall|i: int, j: int|
            0 <= i < j < previous.len() ==> !comes_before(
                lowercase(#[trigger] previous[j]),
                lowercase(#[trigger] previous[i]),
            ),
        is_in_order_of(offered, each_once(previous, same)),
    ensures
        offered == previous,
{
    different_folders_are_all_kept(previous, same);
    sorting_leaves_what_is_in_order(previous, offered);
}

} // verus!
