use vstd::prelude::*;

use crate::url::UrlBuf;

verus! {

/// The file-type bits of a mode that mark a directory.
pub const MODE_DIR: u16 = 0o040000;

/// The mode of a machine entry: a directory that its owner may read, write
/// and enter, and that anyone else may read and enter.
pub const MODE_ENTRY_DIR: u16 = 0o040755;

/// The characteristics of a file: whether it is a placeholder that stands
/// for no real file, whether it is hidden, and its mode bits.
#[derive(Debug)]
pub struct Cha {
    pub dummy: bool,
    pub hidden: bool,
    pub mode: u16,
}

/// A directory entry: its URL, its characteristics and what it links to.
#[derive(Debug)]
pub struct File {
    pub url: UrlBuf,
    pub cha: Cha,
    pub link_to: Option<UrlBuf>,
}

/// Whether `mode` marks a directory.
pub open spec fn mode_is_dir(mode: u16) -> bool {
    mode / 4096 == 4
}

impl Cha {
    /// Whether these characteristics are those of a directory.
    pub fn is_dir(&self) -> (b: bool)
        ensures
            b == mode_is_dir(self.mode),
    {
        self.mode / 4096 == 4
    }
}

impl File {
    /// Whether this entry is a directory.
    pub fn is_dir(&self) -> (b: bool)
        ensures
            b == mode_is_dir(self.cha.mode),
    {
        self.cha.is_dir()
    }

    /// Whether this entry stands for no real file.
    pub fn is_dummy(&self) -> (b: bool)
        ensures
            b == self.cha.dummy,
    {
        self.cha.dummy
    }

    /// Whether this entry is hidden.
    pub fn is_hidden(&self) -> (b: bool)
        ensures
            b == self.cha.hidden,
    {
        self.cha.hidden
    }
}

/// The characteristics of the machines directory: a placeholder directory.
pub fn root_cha() -> (c: Cha)
    ensures
        c.dummy,
        !c.hidden,
        c.mode == MODE_DIR,
{
    Cha { dummy: true, hidden: false, mode: MODE_DIR }
}

/// The entry that stands for a machine at `url`: a real, visible directory
/// that links nowhere.
pub fn machine_entry_file(url: UrlBuf) -> (f: File)
    ensures
        f.url@ == url@,
        !f.cha.dummy,
        !f.cha.hidden,
        f.cha.mode == MODE_ENTRY_DIR,
        f.link_to is None,
{
    File { url, cha: Cha { dummy: false, hidden: false, mode: MODE_ENTRY_DIR }, link_to: None }
}

} // verus!
