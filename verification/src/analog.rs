//! The analog input of the station: a directory of small files holding its
//! address, its last readings and its status.

use vstd::prelude::*;
use crate::text::{join_path, joined, or_fallback, stored_or};

verus! {

/// The analog input, kept in the directory `path`.
pub struct Analog {
    path: String,
}

impl Analog {
    /// The directory of the analog input.
    pub closed spec fn dir(&self) -> Seq<char> {
        self.path@
    }

    /// The directory of the analog input.
    pub fn path(&self) -> (r: &str)
        ensures
            r@ == self.dir(),
    {
        self.path.as_str()
    }

    /// The file `name` of the analog input.
    pub fn entry(&self, name: &str) -> (r: String)
        ensures
            r@ == joined(self.dir(), name@),
    {
        join_path(self.path.as_str(), name)
    }

    /// Address: what the file `addr` holds, `192.168.0.2` where it cannot be
    /// read.
    pub fn addr(&self, stored: Option<String>) -> (r: String)
        ensures
            r@ == stored_or(stored, "192.168.0.2"@),
    {
        or_fallback(stored, "192.168.0.2")
    }

    /// The last value: what the file `value` holds, `none` where it cannot be
    /// read.
    pub fn value(&self, stored: Option<String>) -> (r: String)
        ensures
            r@ == stored_or(stored, "none"@),
    {
        or_fallback(stored, "none")
    }

    /// The last voltage: what the file `volt` holds, `none` where it cannot be
    /// read.
    pub fn volt(&self, stored: Option<String>) -> (r: String)
        ensures
            r@ == stored_or(stored, "none"@),
    {
        or_fallback(stored, "none")
    }

    /// The last current: what the file `amper` holds, `none` where it cannot
    /// be read.
    pub fn amper(&self, stored: Option<String>) -> (r: String)
        ensures
            r@ == stored_or(stored, "none"@),
    {
        or_fallback(stored, "none")
    }

    /// The raw data: what the file `data` holds, `none` where it cannot be
    /// read.
    pub fn data(&self, stored: Option<String>) -> (r: String)
        ensures
            r@ == stored_or(stored, "none"@),
    {
        or_fallback(stored, "none")
    }

    /// The status: what the file `status` holds, `E` where it cannot be read.
    pub fn status(&self, stored: Option<String>) -> (r: String)
        ensures
            r@ == stored_or(stored, "E"@),
    {
        or_fallback(stored, "E")
    }
}

/// The analog input of the station whose directory is `rootdir`: the
/// directory `nitri` in it.
pub fn open(rootdir: &str) -> (a: Analog)
    ensures
        a.dir() == joined(rootdir@, "nitri"@),
{
    Analog { path: join_path(rootdir, "nitri") }
}

} // verus!
