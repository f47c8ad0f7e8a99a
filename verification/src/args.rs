use vstd::prelude::*;
use vstd::string::*;

verus! {

/// How the world of a new game is made.
#[allow(non_camel_case_types)]
#[derive(Debug, Clone, Copy, PartialEq, Eq, Structural)]
pub enum WorldInitializer {
    RANDOM,
    FLAT,
    DISK,
}

/// Some argument of `args` is exactly `flag`.
pub open spec fn has_arg(args: Seq<String>, flag: Seq<char>) -> bool {
    exists|i: int| 0 <= i < args.len() && (#[trigger] args[i])@ == flag
}

/// Choice of world for the arguments `args`: `--random`, else `--flat`, else
/// `--disk`, the first of these present deciding; random when none is.
pub open spec fn initializer_of(args: Seq<String>) -> WorldInitializer {
    if has_arg(args, "--random"@) {
        WorldInitializer::RANDOM
    } else if has_arg(args, "--flat"@) {
        WorldInitializer::FLAT
    } else if has_arg(args, "--disk"@) {
        WorldInitializer::DISK
    } else {
        WorldInitializer::RANDOM
    }
}

fn contains_arg(args: &Vec<String>, flag: &str) -> (r: bool)
    ensures
        r == has_arg(args@, flag@),
{
    let wanted = String::from_str(flag);
    let mut i: usize = 0;
    while i < args.len()
        invariant
            wanted@ == flag@,
            0 <= i <= args@.len(),
            forall|k: int| 0 <= k < i ==> (#[trigger] args@[k])@ != flag@,
        decreases args@.len() - i,
    {
        if args[i] == wanted {
            return true;
        }
        i = i + 1;
    }
    false
}

impl WorldInitializer {
    /// Choice of world given by the command-line arguments `args` (see
    /// `initializer_of`).
    pub fn from_arg_list(args: &Vec<String>) -> (r: Self)
        ensures
            r == initializer_of(args@),
    {
        if contains_arg(args, "--random") {
            Self::RANDOM
        } else if contains_arg(args, "--flat") {
            Self::FLAT
        } else if contains_arg(args, "--disk") {
            Self::DISK
        } else {
            Self::RANDOM
        }
    }
}

/// Options of a client: where the server is, the name of the player and how
/// the world is made.
pub struct Args {
    /// IP address of the server.
    pub server: String,
    /// IP port of the server.
    pub port: String,
    /// Name of the player.
    pub name: String,
    /// How to initialize the world.
    pub init: WorldInitializer,
}

impl Args {
    /// Address of the server, `server:port`.
    pub fn url(&self) -> (r: String)
        ensures
            r@ == self.server@ + ":"@ + self.port@,
    {
        let mut url = self.server.clone();
        url.append(":");
        url.append(self.port.as_str());
        url
    }
}

} // verus!
