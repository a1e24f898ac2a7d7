//! What the command line hands the library.
use vstd::prelude::*;

verus! {

/// The command-line options.
pub struct Args {
    /// The handle of the artist whose uploads are fetched.
    pub artist: Option<String>,
}

impl Args {
    /// The artist handle to look up: the one given, unless it is missing or empty.
    pub fn handle(&self) -> (r: Option<&String>)
        ensures
            match r {
                Some(h) => self.artist == Some(*h) && h@.len() > 0,
                None => self.artist is None || self.artist->Some_0@.len() == 0,
            },
    {
        match &self.artist {
            Some(a) => {
                if !a.as_str().is_empty() {
                    Some(a)
                } else {
                    None
                }
            },
            None => None,
        }
    }
}

} // verus!
