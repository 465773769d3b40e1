//! A socket file that may have to go when its owner goes.

use vstd::prelude::*;
use vstd::std_specs::convert::FromSpec;
use vstd::string::*;

verus! {

/// The path of a file and whether the file is to be removed when this value
/// is given up. The removing is left to the owner: the value only keeps the
/// decision.
#[derive(Debug, PartialEq, Eq)]
pub struct AutoRemoveFile<'a> {
    path: &'a str,
    auto_remove: bool,
}

impl<'a> AutoRemoveFile<'a> {
    /// The path of the file.
    pub closed spec fn path_view(&self) -> Seq<char> {
        self.path@
    }

    /// Whether the file is to be removed in the end.
    pub closed spec fn auto_remove(&self) -> bool {
        self.auto_remove
    }

    /// Says whether the file is to be removed in the end.
    pub fn set_auto_remove(&mut self, enable: bool)
        ensures
            final(self).auto_remove() == enable,
            final(self).path_view() == old(self).path_view(),
    {
        self.auto_remove = enable;
    }

    /// Whether the file is to be removed in the end.
    pub fn removes_on_drop(&self) -> (remove: bool)
        ensures
            remove == self.auto_remove(),
    {
        self.auto_remove
    }

    /// The path of the file.
    pub fn path(&self) -> (path: &'a str)
        ensures
            path@ == self.path_view(),
    {
        self.path
    }

    /// The path of the file, as text of its own.
    pub fn to_string(&self) -> (text: String)
        ensures
            text@ == self.path_view(),
    {
        String::from_str(self.path)
    }
}

impl<'a> From<&'a str> for AutoRemoveFile<'a> {
    /// The file at `path`, which stays unless asked otherwise.
    fn from(path: &'a str) -> (file: Self) {
        AutoRemoveFile { path, auto_remove: false }
    }
}

impl<'a> vstd::std_specs::convert::FromSpecImpl<&'a str> for AutoRemoveFile<'a> {
    open spec fn obeys_from_spec() -> bool {
        true
    }

    closed spec fn from_spec(path: &'a str) -> Self {
        AutoRemoveFile { path, auto_remove: false }
    }
}

/// A file made from a path keeps the path and is not removed in the end.
pub proof fn lemma_from_path_keeps_file(path: &str)
    ensures
        <AutoRemoveFile as FromSpec<&str>>::from_spec(path).path_view() == path@,
        !<AutoRemoveFile as FromSpec<&str>>::from_spec(path).auto_remove(),
{
}

} // verus!
