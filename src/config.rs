//! The downloaders whose configuration can receive the selected token.
use vstd::prelude::*;

verus! {

/// A downloader's configuration to write the selected token into.
#[derive(Debug)]
pub enum Config {
    Streamrip {
        /// Overrides the configuration path where set.
        path: Option<String>,
    },
}

impl Config {
    /// The path that overrides the downloader's default configuration location, if any.
    pub fn path_override(&self) -> (r: &Option<String>)
        ensures
            match self {
                Config::Streamrip { path } => r == path,
            },
    {
        match self {
            Config::Streamrip { path } => path,
        }
    }

    /// The name the downloader's configuration directory goes by.
    pub fn project(&self) -> (r: &'static str)
        ensures
            match self {
                Config::Streamrip { .. } => r@ == "streamrip"@,
            },
    {
        match self {
            Config::Streamrip { .. } => "streamrip",
        }
    }
}

} // verus!
