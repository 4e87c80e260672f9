//! Places in the file system and what is to be done there. The crate never
//! touches a file: it says where one is and what should happen to it, and
//! its caller does it.

use crate::text::{join_texts, joined, texts};
use crate::ticket::clone_texts;
use vstd::prelude::*;
use vstd::string::StringExecFns;

verus! {

/// Where a path starts.
#[derive(Debug, Clone, Copy, PartialEq, Eq, Structural)]
pub enum Base {
    /// The root of the repository: the nearest ancestor of the working
    /// directory that holds a `.git` entry.
    Repository,
    /// The operating system's directory for the user's configuration.
    UserConfig,
}

/// A place in the file system: a starting point and the names that lead
/// from it to the place.
#[derive(Debug, PartialEq, Eq)]
pub struct Location {
    pub base: Base,
    pub parts: Vec<String>,
}

/// A [`Location`] with its names as sequences of characters.
pub ghost struct LocationView {
    pub base: Base,
    pub parts: Seq<Seq<char>>,
}

impl View for Location {
    type V = LocationView;

    open spec fn view(&self) -> LocationView {
        LocationView { base: self.base, parts: texts(self.parts@) }
    }
}

impl Clone for Location {
    fn clone(&self) -> (copy: Location)
        ensures
            copy@ == self@,
    {
        Location { base: self.base, parts: clone_texts(&self.parts) }
    }
}

impl LocationView {
    /// The place at the starting point itself.
    pub open spec fn at(base: Base) -> LocationView {
        LocationView { base, parts: Seq::empty() }
    }

    /// The place called `part` inside this one.
    pub open spec fn join(self, part: Seq<char>) -> LocationView {
        LocationView { base: self.base, parts: self.parts.push(part) }
    }

    /// The names of this place with a slash between neighbours.
    pub open spec fn display(self) -> Seq<char> {
        joined(self.parts, seq!['/'])
    }
}

impl Location {
    /// The place at the starting point itself.
    pub fn at(base: Base) -> (place: Location)
        ensures
            place@ == LocationView::at(base),
    {
        let place = Location { base, parts: Vec::new() };
        assert(place@.parts =~= Seq::<Seq<char>>::empty());
        place
    }

    /// The place called `part` inside this one.
    pub fn join(self, part: &str) -> (place: Location)
        ensures
            place@ == self@.join(part@),
    {
        let mut parts = self.parts;
        parts.push(String::from_str(part));
        let place = Location { base: self.base, parts };
        assert(place@.parts =~= self@.parts.push(part@));
        place
    }

    /// The names of this place with a slash between neighbours, as it is
    /// shown to the user.
    pub fn display(&self) -> (text: String)
        ensures
            text@ == self@.display(),
    {
        proof {
            reveal_strlit("/");
            assert("/"@ =~= seq!['/']);
        }
        join_texts(&self.parts, "/")
    }
}

/// Something to be done to the file system, or a pause.
#[derive(Debug, PartialEq, Eq)]
pub enum Effect {
    /// Make the directory and every missing directory above it.
    CreateDir(Location),
    /// Write the text to the file, in place of whatever it held.
    Write(Location, String),
    /// Write the text to the file and let everybody run it (mode `0o755`).
    WriteExecutable(Location, String),
    /// Remove the file.
    Remove(Location),
    /// Make the second place a symbolic link to the first.
    Link(Location, Location),
    /// Wait for so many milliseconds.
    Sleep(u64),
}

/// An [`Effect`] with its texts as sequences of characters.
pub ghost enum EffectView {
    CreateDir(LocationView),
    Write(LocationView, Seq<char>),
    WriteExecutable(LocationView, Seq<char>),
    Remove(LocationView),
    Link(LocationView, LocationView),
    Sleep(u64),
}

impl View for Effect {
    type V = EffectView;

    open spec fn view(&self) -> EffectView {
        match *self {
            Effect::CreateDir(at) => EffectView::CreateDir(at@),
            Effect::Write(at, text) => EffectView::Write(at@, text@),
            Effect::WriteExecutable(at, text) => EffectView::WriteExecutable(at@, text@),
            Effect::Remove(at) => EffectView::Remove(at@),
            Effect::Link(target, link) => EffectView::Link(target@, link@),
            Effect::Sleep(millis) => EffectView::Sleep(millis),
        }
    }
}

/// The views of a sequence of effects.
pub open spec fn effect_views(effects: Seq<Effect>) -> Seq<EffectView> {
    effects.map_values(|e: Effect| e@)
}

/// What a command wants done, or why it wants nothing done, as contracts see
/// it.
pub open spec fn plan_view(r: Result<Vec<Effect>, crate::error::Error>) -> Result<
    Seq<EffectView>,
    crate::error::ErrorView,
> {
    match r {
        Ok(effects) => Ok(effect_views(effects@)),
        Err(e) => Err(e@),
    }
}

/// The mode of a file that everybody may run and only its owner may change.
pub const EXECUTABLE: u32 = 0o755;

} // verus!
