# imgdedupe

A desktop program that indexes a folder of images, finds duplicates in it, and removes
the ones that are not kept. This is its window: everything the window decides is a
library proved with Verus, and everything it has to ask of the machine is a thin program
around that library.

## Layout

- `src/` is the library. No file in it reads, writes, draws or starts a thread.
  - `app/` is the window's state. Whatever is pressed and whatever arrives from a thread
    is a method on `App`, whose contract says what the window is afterwards. What cannot
    be done there is left in a list, in order, for the program to do.
    - `opening`, `passing`, `searching`, `marking`, `cleaning` and `pages` are the parts
      of it; `laws` and `written` prove what holds of it whatever happens.
  - `review`, `walk`, `plan`, `keep`, `pairs` and `sets` are a review: the sets, what is
    marked in them, which are not sets of copies, and what a cleanup would take.
    `review_laws` proves what holds of one.
  - `settings`, `notes` and `folders` are what is remembered, by the program and by a
    folder's own index. `settings_laws` proves that what is written is read back.
  - `progress`, `lamps`, `indexer` and `metadata` follow the work that threads do.
  - `dates`, `lines`, `text`, `constants`, `state` and `theme` are what is shown.
    `date_laws` proves that dates are shown in their order.
  - `faces`, `fonts`, `icon`, `shot`, `mesa`, `folder_picker` and `headless` are the rest of it.
- `app/` is the program: the pages as they are drawn, the files, the threads, and the
  engine that scans and matches.
- `tests/` runs the library on values.

## What is taken on trust

Six functions, each a call out of the library, with its contract beside it:

- `folders::lowered`, `folders::same_path` and `folders::joined` call `str::to_lowercase`,
  `Path`'s equality and `Path::join`.
- `faces::directory`, `faces::parses` and `faces::draws` call `ttf_parser::RawFace::parse`,
  `Face::from_raw_tables` and `Face::glyph_index`.

Numbers with a fraction are held by their bits, or as the text they are shown as: what is
computed with them is in `app/`.
