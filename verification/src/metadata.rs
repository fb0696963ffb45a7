//! The metadata of the picture the preview is showing.
//!
//! The reading of it happens elsewhere and takes a while. What is on screen is
//! whatever was read last until the next one lands.

use vstd::prelude::*;

use crate::constants::{NO_METADATA_TEXT, READING_TEXT};

verus! {

/// One section of what a file says about itself.
pub struct Group {
    pub name: String,
    pub entries: Vec<(String, String)>,
}

/// One section, as the contracts speak of it.
#[verifier::ext_equal]
pub struct GroupView {
    pub name: Seq<char>,
    pub entries: Seq<(Seq<char>, Seq<char>)>,
}

impl DeepView for Group {
    type V = GroupView;

    open spec fn deep_view(&self) -> GroupView {
        GroupView { name: self.name@, entries: self.entries.deep_view() }
    }
}

/// What the file the preview is showing says about itself, and which file is being
/// read for it.
pub struct Metadata {
    /// The file the groups below are about.
    pub about: Option<i64>,
    pub groups: Vec<Group>,
    /// The file being read.
    pub reading: Option<i64>,
}

/// What is known of a file, as the contracts speak of it.
#[verifier::ext_equal]
pub struct MetadataView {
    pub about: Option<i64>,
    pub groups: Seq<GroupView>,
    pub reading: Option<i64>,
}

impl View for Metadata {
    type V = MetadataView;

    open spec fn view(&self) -> MetadataView {
        MetadataView {
            about: self.about,
            groups: self.groups.deep_view(),
            reading: self.reading,
        }
    }
}

/// What there is to do about a file that is wanted: show what is held, wait for
/// what is being read, or start reading.
#[derive(Debug, Clone, Copy, PartialEq, Eq, Structural)]
pub enum Wanted {
    Held,
    Wait,
    Read,
}

impl MetadataView {
    /// What there is to do about a file, and what is known once it has been asked
    /// for, given what has arrived of the one being read.
    pub open spec fn asked(self, file_id: i64, arrived: Option<(i64, Seq<GroupView>)>) -> (
        Wanted,
        MetadataView,
    ) {
        if self.about == Some(file_id) {
            (Wanted::Held, self)
        } else if self.reading == Some(file_id) {
            match arrived {
                Some((about, groups)) => (
                    Wanted::Held,
                    MetadataView { about: Some(about), groups, reading: None },
                ),
                None => (Wanted::Wait, self),
            }
        } else {
            (
                Wanted::Read,
                MetadataView { about: None, groups: Seq::empty(), reading: Some(file_id) },
            )
        }
    }
}

impl Metadata {
    /// Nothing known and nothing being read.
    pub fn empty() -> (metadata: Metadata)
        ensures
            metadata@ == (MetadataView { about: None, groups: Seq::empty(), reading: None }),
    {
        let metadata = Metadata { about: None, groups: Vec::new(), reading: None };
        assert(metadata@.groups =~= Seq::<GroupView>::empty());
        metadata
    }

    /// Whether what has arrived is to be asked for before the file is: it is the
    /// one being read, and not the one that is held.
    pub fn waits_for(&self, file_id: i64) -> (waiting: bool)
        ensures
            waiting == (self@.about != Some(file_id) && self@.reading == Some(file_id)),
    {
        let held = match self.about {
            Some(about) => about == file_id,
            None => false,
        };
        let being_read = match self.reading {
            Some(wanted) => wanted == file_id,
            None => false,
        };
        !held && being_read
    }

    /// What the file says, asking for it if this is the first time it has been
    /// wanted. Empty while it is being read. A different picture lets go of
    /// whatever was being read.
    pub fn get(&mut self, file_id: i64, arrived: Option<(i64, Vec<Group>)>) -> (wanted: Wanted)
        ensures
            (wanted, final(self)@) == old(self)@.asked(file_id, arrived.deep_view()),
    {
        if let Some(about) = self.about {
            if about == file_id {
                return Wanted::Held;
            }
        }
        if let Some(reading) = self.reading {
            if reading == file_id {
                return match arrived {
                    Some((about, groups)) => {
                        self.about = Some(about);
                        self.groups = groups;
                        self.reading = None;
                        Wanted::Held
                    },
                    None => Wanted::Wait,
                };
            }
        }
        self.about = None;
        self.groups = Vec::new();
        self.reading = Some(file_id);
        assert(self@.groups =~= Seq::<GroupView>::empty());
        Wanted::Read
    }

    /// Whether anything is being waited for, which is what the pane says while it
    /// waits.
    pub fn is_reading(&self) -> (waiting: bool)
        ensures
            waiting == (self@.reading is Some),
    {
        self.reading.is_some()
    }

    /// What the pane says where there is nothing to show.
    pub fn nothing_to_show(&self) -> (text: &'static str)
        ensures
            text@ == if self@.reading is Some {
                READING_TEXT@
            } else {
                NO_METADATA_TEXT@
            },
    {
        if self.reading.is_some() {
            READING_TEXT
        } else {
            NO_METADATA_TEXT
        }
    }
}

/// A file that has been read is not read again while it is the one wanted.
pub proof fn a_file_that_is_held_is_not_read_again(
    known: MetadataView,
    file_id: i64,
    groups: Seq<GroupView>,
)
    requires
        known.reading == Some(file_id),
        known.about != Some(file_id),
    ensures
        ({
            let (wanted, held) = known.asked(file_id, Some((file_id, groups)));
            &&& wanted == Wanted::Held
            &&& held.groups == groups
            &&& held.asked(file_id, None) == (Wanted::Held, held)
        }),
{
}

/// One line of the pane: the heading of a section, or a name and what it is.
pub struct Line {
    pub heading: Option<String>,
    pub name: String,
    pub value: String,
}

/// One line of the pane, as the contracts speak of it.
#[verifier::ext_equal]
pub struct LineView {
    pub heading: Option<Seq<char>>,
    pub name: Seq<char>,
    pub value: Seq<char>,
}

impl DeepView for Line {
    type V = LineView;

    open spec fn deep_view(&self) -> LineView {
        LineView { heading: self.heading.deep_view(), name: self.name@, value: self.value@ }
    }
}

/// The line a section opens with.
pub open spec fn heading_line(group: GroupView) -> LineView {
    LineView { heading: Some(group.name), name: Seq::empty(), value: Seq::empty() }
}

/// The lines of a section behind its heading.
pub open spec fn entry_lines(group: GroupView) -> Seq<LineView> {
    group.entries.map_values(
        |entry: (Seq<char>, Seq<char>)| LineView { heading: None, name: entry.0, value: entry.1 },
    )
}

/// The lines of some sections: the heading of each, and behind it what it says.
pub open spec fn lines_of(groups: Seq<GroupView>) -> Seq<LineView>
    decreases groups.len(),
{
    if groups.len() == 0 {
        Seq::empty()
    } else {
        lines_of(groups.drop_last()) + seq![heading_line(groups.last())] + entry_lines(groups.last())
    }
}

/// What the file says about itself, line by line.
pub fn lines(groups: &Vec<Group>) -> (shown: Vec<Line>)
    ensures
        shown.deep_view() == lines_of(groups.deep_view()),
{
    let ghost all = groups.deep_view();
    let mut shown: Vec<Line> = Vec::new();
    assert(shown.deep_view() =~= lines_of(all.take(0)));
    for at in 0..groups.len()
        invariant
            all == groups.deep_view(),
            shown.deep_view() == lines_of(all.take(at as int)),
    {
        let ghost before = shown.deep_view();
        let ghost group = all[at as int];
        proof {
            assert(all.take(at + 1).drop_last() =~= all.take(at as int));
            assert(group == groups@[at as int].deep_view());
        }
        let heading = Line {
            heading: Some(groups[at].name.clone()),
            name: String::new(),
            value: String::new(),
        };
        assert(heading.deep_view() == heading_line(group));
        let ghost top = heading.deep_view();
        shown.push(heading);
        assert(shown.deep_view() =~= before + seq![top]);
        let ghost opened = shown.deep_view();
        let entries = &groups[at].entries;
        assert(group.entries == entries.deep_view());
        assert(opened + entry_lines(group).take(0) =~= opened);
        for place in 0..entries.len()
            invariant
                group.entries == entries.deep_view(),
                shown.deep_view() == opened + entry_lines(group).take(place as int),
        {
            let ghost so_far = shown.deep_view();
            assert(group.entries[place as int] == entries@[place as int].deep_view());
            let line = Line {
                heading: None,
                name: entries[place].0.clone(),
                value: entries[place].1.clone(),
            };
            let ghost said = line.deep_view();
            assert(said == entry_lines(group)[place as int]);
            shown.push(line);
            assert(shown.deep_view() =~= so_far.push(said));
            assert(shown.deep_view() =~= opened + entry_lines(group).take(place + 1));
        }
        assert(entry_lines(group).take(entries@.len() as int) =~= entry_lines(group));
    }
    assert(all.take(all.len() as int) =~= all);
    shown
}

} // verus!
