//! The actors that a job can name by type, each with its configuration and
//! the rules that a configuration must meet before a run is paid for.

use vstd::prelude::*;
use crate::text::str_eq;

pub mod google_search;
pub mod instagram;
pub mod tripadvisor;
pub mod web_scraper;

pub use google_search::GoogleSearchConfig;
pub use instagram::InstagramScraperConfig;
pub use tripadvisor::TripAdvisorConfig;
pub use web_scraper::WebScraperConfig;

verus! {

/// The actors that a request can name by type.
#[derive(Clone, Copy, Debug, PartialEq, Eq, Structural)]
pub enum ActorKind {
    WebScraper,
    GoogleSearch,
    Instagram,
    TripAdvisor,
}

impl ActorKind {
    /// The name by which requests ask for the actor.
    pub open spec fn request_name(self) -> Seq<char> {
        match self {
            ActorKind::WebScraper => "web_scraper"@,
            ActorKind::GoogleSearch => "google_search"@,
            ActorKind::Instagram => "instagram"@,
            ActorKind::TripAdvisor => "tripadvisor"@,
        }
    }

    /// The actor's identifier on the platform.
    pub open spec fn platform_name(self) -> Seq<char> {
        match self {
            ActorKind::WebScraper => "apify/web-scraper"@,
            ActorKind::GoogleSearch => "apify/google-search-scraper"@,
            ActorKind::Instagram => "apify/instagram-scraper"@,
            ActorKind::TripAdvisor => "Hvp4YfFGyLM635Q2F"@,
        }
    }

    /// The actor that requests ask for by `actor_type`, if there is one.
    pub open spec fn of_type(actor_type: Seq<char>) -> Option<ActorKind> {
        if actor_type == "web_scraper"@ {
            Some(ActorKind::WebScraper)
        } else if actor_type == "google_search"@ {
            Some(ActorKind::GoogleSearch)
        } else if actor_type == "instagram"@ {
            Some(ActorKind::Instagram)
        } else if actor_type == "tripadvisor"@ {
            Some(ActorKind::TripAdvisor)
        } else {
            None
        }
    }

    /// The actor that requests ask for by `actor_type`, if there is one.
    pub fn from_type(actor_type: &str) -> (r: Option<ActorKind>)
        ensures
            r == ActorKind::of_type(actor_type@),
    {
        if str_eq(actor_type, "web_scraper") {
            Some(ActorKind::WebScraper)
        } else if str_eq(actor_type, "google_search") {
            Some(ActorKind::GoogleSearch)
        } else if str_eq(actor_type, "instagram") {
            Some(ActorKind::Instagram)
        } else if str_eq(actor_type, "tripadvisor") {
            Some(ActorKind::TripAdvisor)
        } else {
            None
        }
    }

    /// The name by which requests ask for the actor.
    pub fn actor_type(self) -> (r: &'static str)
        ensures
            r@ == self.request_name(),
    {
        match self {
            ActorKind::WebScraper => "web_scraper",
            ActorKind::GoogleSearch => "google_search",
            ActorKind::Instagram => "instagram",
            ActorKind::TripAdvisor => "tripadvisor",
        }
    }

    /// The actor's identifier on the platform.
    pub fn actor_name(self) -> (r: &'static str)
        ensures
            r@ == self.platform_name(),
    {
        match self {
            ActorKind::WebScraper => "apify/web-scraper",
            ActorKind::GoogleSearch => "apify/google-search-scraper",
            ActorKind::Instagram => "apify/instagram-scraper",
            ActorKind::TripAdvisor => "Hvp4YfFGyLM635Q2F",
        }
    }

    /// Every actor, in the order in which they are listed.
    pub fn all() -> (r: Vec<ActorKind>)
        ensures
            r@ == seq![
                ActorKind::WebScraper,
                ActorKind::GoogleSearch,
                ActorKind::Instagram,
                ActorKind::TripAdvisor,
            ],
    {
        let mut kinds: Vec<ActorKind> = Vec::new();
        kinds.push(ActorKind::WebScraper);
        kinds.push(ActorKind::GoogleSearch);
        kinds.push(ActorKind::Instagram);
        kinds.push(ActorKind::TripAdvisor);
        assert(kinds@ =~= seq![
            ActorKind::WebScraper,
            ActorKind::GoogleSearch,
            ActorKind::Instagram,
            ActorKind::TripAdvisor,
        ]);
        kinds
    }
}

/// Each actor is found again by the name of its type: no two actors share
/// one.
pub proof fn lemma_actor_is_found_by_its_type(kind: ActorKind)
    ensures
        ActorKind::of_type(kind.request_name()) == Some(kind),
{
    reveal_strlit("web_scraper");
    reveal_strlit("google_search");
    reveal_strlit("instagram");
    reveal_strlit("tripadvisor");
    assert("web_scraper"@.len() == 11);
    assert("google_search"@.len() == 13);
    assert("instagram"@.len() == 9);
    assert("tripadvisor"@.len() == 11);
    assert("web_scraper"@[0] == 'w');
    assert("tripadvisor"@[0] == 't');
}

/// The configuration of a job, by the actor it is for.
#[derive(Clone, Debug)]
pub enum ActorConfig {
    WebScraper(WebScraperConfig),
    GoogleSearch(GoogleSearchConfig),
    Instagram(InstagramScraperConfig),
    TripAdvisor(TripAdvisorConfig),
}

impl ActorConfig {
    /// The actor that the configuration is for.
    pub open spec fn kind_spec(&self) -> ActorKind {
        match self {
            ActorConfig::WebScraper(_) => ActorKind::WebScraper,
            ActorConfig::GoogleSearch(_) => ActorKind::GoogleSearch,
            ActorConfig::Instagram(_) => ActorKind::Instagram,
            ActorConfig::TripAdvisor(_) => ActorKind::TripAdvisor,
        }
    }

    /// What [`ActorConfig::validate`] objects to, if anything.
    pub open spec fn complaint(&self) -> Option<Seq<char>> {
        match self {
            ActorConfig::WebScraper(c) => c.complaint(),
            ActorConfig::GoogleSearch(c) => c.complaint(),
            ActorConfig::Instagram(c) => c.complaint(),
            ActorConfig::TripAdvisor(c) => c.complaint(),
        }
    }

    /// The actor that the configuration is for.
    pub fn kind(&self) -> (r: ActorKind)
        ensures
            r == self.kind_spec(),
    {
        match self {
            ActorConfig::WebScraper(_) => ActorKind::WebScraper,
            ActorConfig::GoogleSearch(_) => ActorKind::GoogleSearch,
            ActorConfig::Instagram(_) => ActorKind::Instagram,
            ActorConfig::TripAdvisor(_) => ActorKind::TripAdvisor,
        }
    }

    /// The name by which requests ask for this kind of configuration.
    pub fn actor_type(&self) -> (r: &'static str)
        ensures
            r@ == self.kind_spec().request_name(),
    {
        self.kind().actor_type()
    }

    /// The actor's identifier on the platform.
    pub fn actor_name(&self) -> (r: &'static str)
        ensures
            r@ == self.kind_spec().platform_name(),
    {
        self.kind().actor_name()
    }

    /// Checks the configuration against the rules of its actor.
    pub fn validate(&self) -> (r: Result<(), String>)
        ensures
            match r {
                Ok(_) => self.complaint() is None,
                Err(message) => self.complaint() == Some(message@),
            },
    {
        match self {
            ActorConfig::WebScraper(c) => c.validate(),
            ActorConfig::GoogleSearch(c) => c.validate(),
            ActorConfig::Instagram(c) => c.validate(),
            ActorConfig::TripAdvisor(c) => c.validate(),
        }
    }
}

} // verus!
