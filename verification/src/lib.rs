pub mod app;
pub mod constants;
pub mod date_laws;
pub mod dates;
pub mod day_laws;
pub mod drawing_laws;
pub mod faces;
pub mod finding;
pub mod folder_laws;
pub mod folder_picker;
pub mod folders;
pub mod font_laws;
pub mod fonts;
pub mod headless;
pub mod icon;
pub mod indexer;
pub mod keep;
pub mod keep_laws;
pub mod lamps;
pub mod lines;
pub mod mesa;
pub mod metadata;
pub mod notes;
pub mod notes_laws;
pub mod pairs;
pub mod plan;
pub mod progress;
pub mod review;
pub mod review_laws;
pub mod review_pictures;
pub mod scan_laws;
pub mod sets;
pub mod setting_lines;
pub mod settings;
pub mod settings_laws;
pub mod shot;
pub mod state;
pub mod strictness;
pub mod text;
pub mod text_laws;
pub mod theme;
pub mod walk;
pub mod words;
