//! The process-wide settings a link store is built with, and the input of a
//! link creation.
use vstd::prelude::*;

verus! {

/// Settings injected into a link store.
#[derive(Debug)]
pub struct Settings {
    /// `max_uses` of a link created without one.
    pub default_max_uses: i64,
    /// `valid_for` of a link created without one, in milliseconds.
    pub default_valid_for: i64,
    /// The longest target accepted, in bytes, scheme included.
    pub max_link_length: usize,
    /// The longest custom identifier accepted, in bytes.
    pub max_custom_id_length: usize,
    /// The public address under which identifiers are served.
    pub public_url: String,
    /// The number of characters of a generated identifier.
    pub id_length: usize,
    /// How many random candidates a creation without a custom identifier
    /// tries before it gives up.
    pub id_attempts: usize,
}

/// `max_uses` of a link created without one.
pub fn default_max_uses(settings: &Settings) -> (r: i64)
    ensures
        r == settings.default_max_uses,
{
    settings.default_max_uses
}

/// `valid_for` of a link created without one.
pub fn default_valid_for(settings: &Settings) -> (r: i64)
    ensures
        r == settings.default_valid_for,
{
    settings.default_valid_for
}

/// Configuration of one link to create.
#[derive(Debug)]
pub struct LinkConfig {
    /// The target to shorten.
    pub link: String,
    /// A chosen identifier, in place of a generated one.
    pub custom_id: Option<String>,
    /// How often the link may be used: 0 is unlimited, negative is always expired.
    pub max_uses: i64,
    /// How long the link is valid, in milliseconds: 0 is unlimited, negative
    /// is always expired.
    pub valid_for: i64,
}

impl LinkConfig {
    /// A configuration with every field given.
    pub fn new(link: String, custom_id: Option<String>, max_uses: i64, valid_for: i64) -> (r:
        LinkConfig)
        ensures
            r == (LinkConfig { link, custom_id, max_uses, valid_for }),
    {
        LinkConfig { link, custom_id, max_uses, valid_for }
    }

    /// A configuration whose omitted limits take the defaults of `settings`.
    pub fn with_defaults(
        link: String,
        custom_id: Option<String>,
        max_uses: Option<i64>,
        valid_for: Option<i64>,
        settings: &Settings,
    ) -> (r: LinkConfig)
        ensures
            r.link == link,
            r.custom_id == custom_id,
            r.max_uses == match max_uses {
                Some(m) => m,
                None => settings.default_max_uses,
            },
            r.valid_for == match valid_for {
                Some(v) => v,
                None => settings.default_valid_for,
            },
    {
        let max_uses = match max_uses {
            Some(m) => m,
            None => default_max_uses(settings),
        };
        let valid_for = match valid_for {
            Some(v) => v,
            None => default_valid_for(settings),
        };
        LinkConfig { link, custom_id, max_uses, valid_for }
    }
}

} // verus!
