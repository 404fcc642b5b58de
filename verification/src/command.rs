//! File commands as data: each command records what it would do and whether
//! it can be undone; the surrounding program performs the filesystem work.

use vstd::prelude::*;

verus! {

/// A command's result when it is executed successfully: nothing to return,
/// or some content as text.
pub enum Answer {
    SUCCEED,
    Content(String),
}

/// The command that creates a file with a given text; it can be undone.
pub struct CreateFile {
    undo: bool,
    path: String,
    text: String,
}

impl CreateFile {
    /// Whether the command can be undone.
    pub closed spec fn spec_undo(&self) -> bool {
        self.undo
    }

    /// The file's path.
    pub closed spec fn spec_path(&self) -> Seq<char> {
        self.path@
    }

    /// The text that will be written to the file.
    pub closed spec fn spec_text(&self) -> Seq<char> {
        self.text@
    }

    /// A create-file command; it can be undone.
    pub fn new(path: String, text: String) -> (c: CreateFile)
        ensures
            c.spec_undo(),
            c.spec_path() == path@,
            c.spec_text() == text@,
    {
        CreateFile { undo: true, path, text }
    }

    /// Whether the command can be undone.
    pub fn can_be_undo(&self) -> (r: bool)
        ensures
            r == self.spec_undo(),
    {
        self.undo
    }

    /// The file's path.
    pub fn path(&self) -> (r: &String)
        ensures
            r@ == self.spec_path(),
    {
        &self.path
    }

    /// The text that will be written to the file.
    pub fn text(&self) -> (r: &String)
        ensures
            r@ == self.spec_text(),
    {
        &self.text
    }
}

/// The command that renames a file; it can be undone.
pub struct RenameFile {
    undo: bool,
    src: String,
    dest: String,
}

impl RenameFile {
    /// Whether the command can be undone.
    pub closed spec fn spec_undo(&self) -> bool {
        self.undo
    }

    /// The path that will be renamed.
    pub closed spec fn spec_src(&self) -> Seq<char> {
        self.src@
    }

    /// The new path.
    pub closed spec fn spec_dest(&self) -> Seq<char> {
        self.dest@
    }

    /// A rename command; it can be undone.
    pub fn new(src: String, dest: String) -> (c: RenameFile)
        ensures
            c.spec_undo(),
            c.spec_src() == src@,
            c.spec_dest() == dest@,
    {
        RenameFile { undo: true, src, dest }
    }

    /// Whether the command can be undone.
    pub fn can_be_undo(&self) -> (r: bool)
        ensures
            r == self.spec_undo(),
    {
        self.undo
    }

    /// The path that will be renamed.
    pub fn src(&self) -> (r: &String)
        ensures
            r@ == self.spec_src(),
    {
        &self.src
    }

    /// The new path.
    pub fn dest(&self) -> (r: &String)
        ensures
            r@ == self.spec_dest(),
    {
        &self.dest
    }
}

/// The command that reads a file's content; it cannot be undone.
pub struct ReadFile {
    undo: bool,
    path: String,
}

impl ReadFile {
    /// Whether the command can be undone.
    pub closed spec fn spec_undo(&self) -> bool {
        self.undo
    }

    /// The file's path.
    pub closed spec fn spec_path(&self) -> Seq<char> {
        self.path@
    }

    /// A read-file command; it cannot be undone.
    pub fn new(path: String) -> (c: ReadFile)
        ensures
            !c.spec_undo(),
            c.spec_path() == path@,
    {
        ReadFile { undo: false, path }
    }

    /// Whether the command can be undone.
    pub fn can_be_undo(&self) -> (r: bool)
        ensures
            r == self.spec_undo(),
    {
        self.undo
    }

    /// The file's path.
    pub fn path(&self) -> (r: &String)
        ensures
            r@ == self.spec_path(),
    {
        &self.path
    }
}

} // verus!
