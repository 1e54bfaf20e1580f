//! What the command line may set.

use vstd::prelude::*;
use vstd::string::StringExecFns;

verus! {

/// The port on which the display is served unless another is asked for.
pub const PORT: usize = 5900;

/// The options of a run, each absent unless given.
#[derive(Debug, PartialEq, Eq)]
pub struct Opt {
    /// The directory of the terraform project.
    pub chdir: Option<String>,
    /// The port on which the display is served.
    pub port: Option<usize>,
}

impl Opt {
    /// The project directory: the one given, else the current directory.
    pub open spec fn chdir_text(&self) -> Seq<char> {
        match self.chdir {
            Some(dir) => dir@,
            None => "."@,
        }
    }

    /// The display port: the one given, else `PORT`.
    pub open spec fn port_number(&self) -> usize {
        match self.port {
            Some(port) => port,
            None => PORT,
        }
    }

    /// The project directory: the one given, else the current directory.
    pub fn chdir(&self) -> (dir: String)
        ensures
            dir@ == self.chdir_text(),
    {
        match &self.chdir {
            Some(dir) => dir.clone(),
            None => String::from_str("."),
        }
    }

    /// The display port: the one given, else `PORT`.
    pub fn port(&self) -> (port: usize)
        ensures
            port == self.port_number(),
    {
        match self.port {
            Some(port) => port,
            None => PORT,
        }
    }
}

} // verus!
