//! The command surface: what a user of the directory can ask for.
use vstd::prelude::*;

verus! {

/// A parsed command line.
pub struct Cli {
    /// The command to run.
    pub command: Commands,
}

/// The commands of the directory.
pub enum Commands {
    /// List tribal governments, all of them or those that pass the given filters.
    List {
        /// Keep only websites of this class.
        websites: Option<WebsiteFilter>,
        /// Keep only addresses that contain this text.
        state: Option<String>,
        /// Keep only names that contain this text.
        name: Option<String>,
    },
    /// Rebuild the table from the listing pages.
    Update {
        /// Whether to take the newest listing.
        latest: Option<bool>,
        /// Whether an existing table may be replaced.
        force: Option<bool>,
    },
    /// Statistics on the websites of federally recognised nations.
    Stats {
        /// The website class to count.
        filter: Option<WebsiteFilter>,
    },
}

/// The closed set of website classes.
#[derive(Clone, Copy, Debug, PartialEq, Eq, PartialOrd, Structural)]
pub enum WebsiteFilter {
    /// Websites ending in `.gov`.
    DotGov,
    /// Websites ending in `.com`.
    DotCom,
    /// Websites ending in `.net`.
    DotNet,
    /// Websites ending in `.org`.
    DotOrg,
    /// Websites whose address starts with `http:`.
    Http,
    /// Websites whose address starts with `https:`.
    Https,
}

} // verus!
