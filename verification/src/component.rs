//! The lexical units of a path and their mathematical model.

use vstd::prelude::*;

verus! {

/// One lexical unit of a path, as executable data.
#[derive(Debug, PartialEq, Eq, Hash)]
pub enum Component {
    /// A platform-specific leading qualifier, such as a drive designator,
    /// held as the text it was written with.
    Prefix(String),
    /// The root separator: the path is absolute from here on.
    RootDir,
    /// A literal `.` entry.
    CurDir,
    /// A literal `..` entry.
    ParentDir,
    /// An ordinary named entry.
    Normal(String),
}

/// The model of a [`Component`]: the same five shapes over sequences of
/// characters.
pub enum Segment {
    Prefix(Seq<char>),
    RootDir,
    CurDir,
    ParentDir,
    Normal(Seq<char>),
}

impl View for Component {
    type V = Segment;

    open spec fn view(&self) -> Segment {
        match *self {
            Component::Prefix(text) => Segment::Prefix(text@),
            Component::RootDir => Segment::RootDir,
            Component::CurDir => Segment::CurDir,
            Component::ParentDir => Segment::ParentDir,
            Component::Normal(name) => Segment::Normal(name@),
        }
    }
}

impl Clone for Component {
    fn clone(&self) -> (copy: Self)
        ensures
            copy == *self,
    {
        match self {
            Component::Prefix(text) => Component::Prefix(text.clone()),
            Component::RootDir => Component::RootDir,
            Component::CurDir => Component::CurDir,
            Component::ParentDir => Component::ParentDir,
            Component::Normal(name) => Component::Normal(name.clone()),
        }
    }
}

/// The model of a list of components, entry by entry.
pub open spec fn segments(components: Seq<Component>) -> Seq<Segment> {
    components.map_values(|c: Component| c@)
}

} // verus!
