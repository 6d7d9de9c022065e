//! The dashboard's configuration: title, language, scan depth and services.

use vstd::prelude::*;

verus! {

/// Top-level application configuration.
#[derive(Debug, Clone, PartialEq, Eq)]
pub struct Config {
    pub title: String,
    pub language: String,
    pub scan_defaults: String,
    pub services: Vec<Service>,
    pub background_rotate: bool,
}

/// A single service entry displayed on the homepage.
#[derive(Debug, Clone, PartialEq, Eq)]
pub struct Service {
    pub name: String,
    pub url: String,
    pub icon: Option<String>,
    pub description: Option<String>,
    pub position: Position,
}

/// Grid position of a service card.
#[derive(Debug, Clone, PartialEq, Eq)]
pub struct Position {
    pub row: usize,
    pub col: usize,
}

/// The configuration used when no configuration file exists.
pub open spec fn is_default_config(c: Config) -> bool {
    &&& c.title@ == "Strandgut"@
    &&& c.language@ == "en"@
    &&& c.scan_defaults@ == "simple"@
    &&& c.services@.len() == 0
    &&& !c.background_rotate
}

impl Default for Config {
    fn default() -> (c: Self)
        ensures
            is_default_config(c),
    {
        Config {
            title: String::from_str("Strandgut"),
            language: String::from_str("en"),
            scan_defaults: String::from_str("simple"),
            services: Vec::new(),
            background_rotate: false,
        }
    }
}

} // verus!
