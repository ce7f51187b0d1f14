//! The commands of the station's console interface. The argument parser
//! fills these values; the station acts on them.

use vstd::prelude::*;

verus! {

/// ✇ init
#[derive(Debug)]
pub struct Init {
    /// 🔧 replace
    pub replace: bool,
    /// 🔧 git
    pub git: bool,
}

impl Init {
    /// is replace on setup
    pub fn replace(&self) -> (b: bool)
        ensures
            b == self.replace,
    {
        self.replace
    }

    /// is git setup
    pub fn git(&self) -> (b: bool)
        ensures
            b == self.git,
    {
        self.git
    }
}

/// ✇ service
#[derive(Debug)]
pub struct Service {}

/// ✇ clean
#[derive(Debug)]
pub struct Clean {}

/// ✇ watch
#[derive(Debug)]
pub struct Watch {
    /// 🔧 log
    pub log: bool,
}

/// ✇ server cli
#[derive(Debug)]
pub struct Server {
    /// the port to listen on
    pub port: usize,
}

/// ✇ integration signal
#[derive(Debug)]
pub struct Integral {
    /// the count of values
    pub count: usize,
}

/// ✇ set prop signal
#[derive(Debug)]
pub struct SetProp {
    /// the path of the property
    pub name: String,
    /// 🔌 the value
    pub value: String,
}

/// ✇ get property value
#[derive(Debug)]
pub struct GetProp {
    /// 🔧 name
    pub name: String,
}

/// ✇ list show workspace
#[derive(Debug)]
pub struct List {}

/// 📢 Commands
#[derive(Debug)]
pub enum Cmd {
    Service(Service),
    Init(Init),
    Clean(Clean),
    Watch(Watch),
    List(List),
    SetValue(SetProp),
    Get(GetProp),
}

/// automata command argument
#[derive(Debug)]
pub struct Args {
    /// 📢 subcommands
    pub cmd: Cmd,
}

impl Args {
    /// Commands
    pub fn commands(&self) -> (c: &Cmd)
        ensures
            c == &self.cmd,
    {
        &self.cmd
    }
}

} // verus!
