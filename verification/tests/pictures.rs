use imgdedupe::faces::{face_given, face_of, fits, map_can_be_read, table};
use imgdedupe::folder_picker::{pick, Dialog};
use imgdedupe::fonts::{
    candidates, covers, face_names, left_undrawn, letters_to_draw, looks_sans_serif, missing_from,
    named_sans, order_given, takes, FaceInfo,
};
use imgdedupe::icon::{layout, window_icon, Icon, Ink, Shown};
use imgdedupe::shot::{Change, Held, Textures};

/// A face the toolkit ships, which has the Latin alphabets and no others.
fn face() -> Vec<u8> {
    egui::FontDefinitions::default().font_data["Ubuntu-Light"].font.to_vec()
}

/// A face of the regular weight.
fn regular_face() -> Vec<u8> {
    egui::FontDefinitions::default().font_data["Hack"].font.to_vec()
}

fn at(icon: &Icon, x: u32, y: u32) -> [u8; 4] {
    let start = ((y * icon.width + x) * 4) as usize;
    [icon.rgba[start], icon.rgba[start + 1], icon.rgba[start + 2], icon.rgba[start + 3]]
}

fn solid(ink: Ink) -> [u8; 4] {
    let colour = ink.colour();
    [colour.red, colour.green, colour.blue, 0xff]
}

#[test]
fn a_picker_exists_for_this_platform() {
    // The function is here and takes a starting folder. Opening a dialog needs a
    // person, so that part is not exercised.
    let _: fn(Option<&str>) -> Dialog = pick;
    assert_eq!(pick(Some("/pictures")).directory.as_deref(), Some("/pictures"));
    assert_eq!(pick(None).directory, None);
}

#[test]
fn the_icon_holds_the_pixels_it_says_it_does() {
    let icon = window_icon(Shown::TitleBar);
    assert_eq!(icon.width, 64);
    assert_eq!(icon.height, 64);
    assert_eq!(icon.rgba.len(), (icon.width * icon.height * 4) as usize);
}

#[test]
fn the_icon_is_one_picture_over_another() {
    let icon = window_icon(Shown::TitleBar);

    assert_eq!(at(&icon, 0, 0)[3], 0, "the corner of the icon is not clear");
    assert_eq!(at(&icon, 62, 6)[3], 0, "there is something behind the pictures");
    // The picture in front: its sky, its sun, and its hills.
    assert_eq!(at(&icon, 8, 8), solid(Ink::Picture), "the front picture has no sky");
    assert_eq!(at(&icon, 17, 17), solid(Ink::Inside), "the sun is not in the picture");
    assert_eq!(at(&icon, 20, 35), solid(Ink::Inside), "the hills are not in the picture");
    // The one behind: its edge, and nothing at all inside what that edge encloses,
    // because the picture in front is standing in it.
    assert_eq!(at(&icon, 58, 50), solid(Ink::Behind), "the one behind has no edge");
    assert_eq!(at(&icon, 54, 20)[3], 0, "the one behind is not an outline");
}

#[test]
fn the_picture_in_front_is_the_size_the_dock_draws_and_the_other_overhangs() {
    let icon = window_icon(Shown::Dock);
    let side = icon.width;
    assert_eq!(side, layout(Shown::Dock).side);
    // A point of the icon's own grid, in pixels of the picture.
    let pixel = |unit: f32| (unit * side as f32 / 64.0) as u32;

    // Where a colour reaches, in rows and in columns.
    let reach = |wanted: Ink| {
        let has = |along: u32, across_a_row: bool| {
            (0..side).any(|other| {
                let (x, y) = if across_a_row { (other, along) } else { (along, other) };
                at(&icon, x, y) == solid(wanted)
            })
        };
        let rows: Vec<u32> = (0..side).filter(|&n| has(n, true)).collect();
        let columns: Vec<u32> = (0..side).filter(|&n| has(n, false)).collect();
        (
            (*rows.first().expect("no rows"), *rows.last().expect("no rows")),
            (*columns.first().expect("no columns"), *columns.last().expect("no columns")),
        )
    };

    // The picture in front is the box the dock draws every icon in: the dock's own
    // margin around it, and its edge the dock's own width.
    let card = 64.0 * 824.0 / 1024.0;
    let front_on_canvas = (64.0 - card) / 2.0;
    let (rows, columns) = reach(Ink::Picture);
    let margin = pixel(front_on_canvas);
    let far = pixel(front_on_canvas + card);
    for (side, wanted, what) in [
        (rows.0, margin, "top"),
        (columns.0, margin, "left"),
        (rows.1, far, "bottom"),
        (columns.1, far, "right"),
    ] {
        assert!(
            side.abs_diff(wanted) <= 2,
            "the {what} of the picture in front is at {side} where the dock draws {wanted}"
        );
    }

    // And the one behind steps out past it, without reaching the canvas.
    let (behind_rows, behind_columns) = reach(Ink::Behind);
    assert!(
        behind_rows.1 > rows.1 && behind_columns.1 > columns.1,
        "the one behind does not overhang: it reaches {behind_rows:?} against {rows:?}"
    );
    assert!(behind_rows.1 < side - 1, "the overhang runs off the canvas");
    assert_eq!(at(&icon, 0, 0)[3], 0, "the corner of the canvas is not clear");
    assert_eq!(at(&icon, margin, margin)[3], 0, "the corner of the picture is square");
}

#[test]
fn an_edge_that_covers_half_its_pixel_ends_up_half_there() {
    let icon = window_icon(Shown::TitleBar);
    // The edges of the pictures fall between pixels, but their corners are rounded
    // across some.
    let mut partly = 0;
    for y in 0..64 {
        for x in 0..64 {
            if !matches!(at(&icon, x, y)[3], 0 | 0xff) {
                partly += 1;
            }
        }
    }
    assert!(partly > 0);
    assert_eq!(at(&icon, 2, 30), solid(Ink::Picture));
    assert_eq!(at(&icon, 1, 30)[3], 0);
}

#[test]
fn the_bundled_face_has_the_letters_the_window_writes() {
    let written = "Choose folder previous Include subfolders Save an index database for this \
         folder What counts as a duplicate presets close balanced wide yolo Match colour with \
         grayscale Scan Cancel Find duplicates read indexed found unchanged removed failed to \
         read per second sets duplicates to remove MB to reclaim keep all keep none KEEP \
         Clean up Recycle bin Move Remove dismiss none chosen clear previous locations \
         No duplicates found for current settings 0123456789 %.,:-_()[]/\\'\"";
    for letter in written.chars().filter(|letter| !letter.is_whitespace()) {
        assert!(
            covers(&face(), 0, &vec![letter]),
            "the bundled face has no {letter:?}"
        );
    }
}

#[test]
fn only_letters_the_bundled_face_lacks_send_anyone_looking() {
    assert!(missing_from(&face(), "holiday photo (1).jpeg", &Vec::new()).is_empty());
    assert!(
        missing_from(&face(), "café niño.png", &Vec::new()).is_empty(),
        "accented Latin is missing"
    );

    let mut wanted = vec!['写', '真'];
    wanted.sort_unstable();
    assert_eq!(missing_from(&face(), "写真.jpg", &Vec::new()), wanted);
}

#[test]
fn a_face_found_since_is_asked_too() {
    let nothing: Vec<u8> = Vec::new();
    assert_eq!(missing_from(&nothing, "b a\tb", &Vec::new()), vec!['a', 'b']);
    assert!(missing_from(&nothing, "b a\tb", &vec![nothing.clone(), face()]).is_empty());
    assert_eq!(missing_from(&nothing, "a真", &vec![face()]), vec!['真']);
}

#[test]
fn letters_are_listed_once_and_in_order() {
    assert_eq!(letters_to_draw("banana split, \u{3000}é"), {
        let mut wanted: Vec<char> = "banspliteé,".chars().filter(|l| *l != 'e').collect();
        wanted.sort_unstable();
        wanted
    });
    assert!(letters_to_draw(" \t\n\u{2003}").is_empty());
    assert_eq!(left_undrawn(&vec!['a', 'b', 'c'], &vec![true, false, false]), vec!['b', 'c']);
}

#[test]
fn a_face_is_taken_for_a_sans_serif_by_its_name() {
    let named = |name: &str| FaceInfo {
        families: vec![String::from(name)],
        upright: true,
        regular: true,
        unstretched: true,
    };
    for name in ["Segoe UI", "Noto Sans CJK JP", "Microsoft YaHei", "Yu Gothic"] {
        assert!(looks_sans_serif(&named(name)), "{name} was not taken as a sans serif");
    }
    for name in ["Times New Roman", "Noto Serif", "MS Mincho", "Comic Script"] {
        assert!(!looks_sans_serif(&named(name)), "{name} was taken as a sans serif");
    }
}

#[test]
fn a_serif_word_outweighs_a_sans_serif_word() {
    assert!(named_sans("some sans"));
    assert!(!named_sans("sans serif"));
    assert!(!named_sans("wingdings"));
    assert!(!looks_sans_serif(&FaceInfo {
        families: Vec::new(),
        upright: true,
        regular: true,
        unstretched: true,
    }));
}

#[test]
fn a_face_without_the_letters_is_not_taken() {
    let mut database = fontdb::Database::new();
    database.load_font_data(regular_face());
    let sans_serif_with = |wanted: &[char]| {
        let faces: Vec<fontdb::FaceInfo> = database.faces().cloned().collect();
        let infos: Vec<FaceInfo> = faces
            .iter()
            .map(|face| FaceInfo {
                families: face.families.iter().map(|(name, _)| name.clone()).collect(),
                upright: face.style == fontdb::Style::Normal,
                regular: face.weight == fontdb::Weight::NORMAL,
                unstretched: face.stretch == fontdb::Stretch::Normal,
            })
            .collect();
        candidates(&infos).into_iter().find_map(|at| {
            database
                .with_face_data(faces[at].id, |data, index| {
                    if covers(data, index, &wanted.to_vec()) {
                        Some(data.to_vec())
                    } else {
                        None
                    }
                })
                .flatten()
        })
    };
    assert!(sans_serif_with(&['a', 'b']).is_some(), "the bundled face has no a or b");
    assert!(
        sans_serif_with(&['中']).is_none(),
        "a face was taken for a letter it does not have"
    );
}

#[test]
fn plain_sans_serifs_are_tried_first() {
    let one = |name: &str, upright: bool, regular: bool| FaceInfo {
        families: vec![String::from(name)],
        upright,
        regular,
        unstretched: true,
    };
    let faces = vec![
        one("Georgia", true, true),
        one("Arial", true, true),
        one("Arial", false, true),
        one("Arial", true, false),
        one("Odd Name", true, true),
        one("VERDANA", true, true),
    ];
    assert_eq!(candidates(&faces), vec![1, 5, 0, 4]);
    assert_eq!(
        order_given(&faces, &vec![true, false, true, true, true, false]),
        vec![0, 4, 1, 5]
    );
}

#[test]
fn bytes_that_are_no_face_cover_nothing() {
    assert!(!covers(b"no face at all", 0, &Vec::new()));
    assert!(covers(&face(), 0, &Vec::new()));
    assert!(!covers(&face(), 7, &vec!['a']));
    assert!(takes(true, &vec![true, true]));
    assert!(!takes(true, &vec![true, false]));
    assert!(!takes(false, &vec![true]));
}

#[test]
fn the_faces_are_named_in_the_order_they_are_looked_in() {
    assert_eq!(face_names(0), vec!["ui"]);
    assert_eq!(face_names(2), vec!["ui", "system0", "system1"]);
}

fn held(width: usize, height: usize, pixels: &[u32]) -> Held {
    Held { width, height, pixels: pixels.to_vec() }
}

#[test]
fn a_patch_goes_where_it_says() {
    let mut textures = Textures::new();
    textures.take(Change { id: 4, at: None, image: held(3, 2, &[1, 2, 3, 4, 5, 6]) });
    textures.take(Change { id: 4, at: Some((1, 0)), image: held(2, 2, &[20, 30, 50, 60]) });
    assert_eq!(textures.held[&4].pixels, [1, 20, 30, 4, 50, 60]);
    // What falls below the texture is left out.
    textures.take(Change { id: 4, at: Some((0, 1)), image: held(1, 2, &[7, 8]) });
    assert_eq!(textures.held[&4].pixels, [1, 20, 30, 7, 50, 60]);
    assert_eq!((textures.held[&4].width, textures.held[&4].height), (3, 2));
}

#[test]
fn a_patch_of_a_texture_that_is_not_here_is_left_out() {
    let mut textures = Textures::new();
    textures.take(Change { id: 1, at: Some((0, 0)), image: held(1, 1, &[9]) });
    assert!(textures.held.is_empty());
    textures.take(Change { id: 1, at: None, image: held(1, 1, &[9]) });
    textures.take(Change { id: 1, at: None, image: held(1, 1, &[10]) });
    assert_eq!(textures.held[&1].pixels, [10]);
    textures.let_go(1);
    assert!(textures.held.is_empty());
}

/// A collection of one face: the face behind a header, its tables moved along.
fn collection() -> Vec<u8> {
    let face = regular_face();
    let mut bytes = Vec::from(*b"ttcf\x00\x01\x00\x00\x00\x00\x00\x01\x00\x00\x00\x10");
    bytes.extend_from_slice(&face);
    let tables = u16::from_be_bytes([face[4], face[5]]) as usize;
    for record in 0..tables {
        let at = 16 + 12 + 16 * record + 8;
        let from = u32::from_be_bytes([bytes[at], bytes[at + 1], bytes[at + 2], bytes[at + 3]]);
        bytes[at..at + 4].copy_from_slice(&(from + 16).to_be_bytes());
    }
    bytes
}

#[test]
fn a_face_has_the_letters_its_own_reader_finds() {
    let faces = egui::FontDefinitions::default();
    for name in ["Hack", "Ubuntu-Light", "NotoEmoji-Regular", "emoji-icon-font"] {
        let bytes = faces.font_data[name].font.to_vec();
        let parsed = ttf_parser::Face::parse(&bytes, 0).unwrap();
        let held = face_of(&bytes, 0).unwrap();
        for letter in ['a', 'Z', 'é', 'ß', 'Ж', '中', '写', '\u{1f600}', '\u{2764}', ' ', '\0'] {
            let found = parsed.glyph_index(letter).is_some();
            assert_eq!(held.has(letter), found, "{letter:?} in {name}");
            assert_eq!(covers(&bytes, 0, &vec![letter]), found);
        }
        assert!(face_of(&bytes, 1).is_none());
    }
}

#[test]
fn a_face_is_found_in_a_collection() {
    let bytes = collection();
    assert!(fits(&bytes));
    assert!(covers(&bytes, 0, &vec!['a', 'b']) && !covers(&bytes, 0, &vec!['中']));
    assert!(!covers(&bytes, 1, &vec!['a']));
    assert!(missing_from(&bytes, "ab 写", &Vec::new()) == ['写']);
}

#[test]
fn bytes_with_a_count_no_face_has_hold_none() {
    for count in [[0x40, 0, 0, 0], [0x40, 0, 0, 1], [0xff, 0xff, 0xff, 0xff]] {
        let mut bytes = collection();
        bytes[8..12].copy_from_slice(&count);
        assert!(!fits(&bytes) && !fits(&bytes[..12]));
        assert!(!covers(&bytes, 0, &Vec::new()) && !covers(&bytes[..12], 0, &Vec::new()));
        assert_eq!(missing_from(&bytes, "a", &vec![bytes.clone()]), ['a']);
    }
    assert!(fits(b"") && fits(b"ttcf") && !covers(b"", 0, &Vec::new()));
}

#[test]
fn a_map_of_letters_is_read_where_its_counts_can_be() {
    let map = |format: u8, count_at: usize, count: u32| {
        let mut bytes = vec![0u8, 0, 0, 1, 0, 3, 0, 10, 0, 0, 0, 12, 0, format];
        bytes.resize(12 + count_at, 0);
        bytes.extend_from_slice(&count.to_be_bytes());
        bytes
    };
    for (format, count_at, most) in
        [(10, 16, 0x7fff_fff5), (12, 12, 0x1555_5553), (13, 12, 0x1555_5553), (14, 6, 0x1745_d173)]
    {
        assert!(map_can_be_read(&map(format, count_at, most)), "format {format}");
        assert!(!map_can_be_read(&map(format, count_at, most + 1)), "format {format}");
        let whole = map(format, count_at, u32::MAX);
        assert!(map_can_be_read(&whole[..whole.len() - 1]));
    }
    assert!(map_can_be_read(&map(4, 12, u32::MAX)));
    assert!(map_can_be_read(b"") && map_can_be_read(&[0, 0, 0, 9]));
}

#[test]
fn a_table_is_where_the_last_record_of_it_says() {
    let bytes = [1u8, 2, 3, 4, 5];
    let records = vec![(7, 0, 2), (8, 1, 3), (7, 3, 2), (9, 4, 2), (10, u32::MAX, u32::MAX)];
    assert_eq!(table(&bytes, &records, 7), Some(&bytes[3..]));
    assert_eq!(table(&bytes, &records, 8), Some(&bytes[1..4]));
    assert_eq!(table(&bytes, &records, 9), None);
    assert_eq!(table(&bytes, &records, 10), None);
    assert_eq!(table(&bytes, &records, 11), None);
    let held = face_given(&bytes, &records);
    assert!(held.head.is_empty() && held.cmap.is_none());
}
