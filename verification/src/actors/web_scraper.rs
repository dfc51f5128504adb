use vstd::prelude::*;
use crate::text::{starts_with, text};

verus! {

/// Configuration of the Web Scraper actor, which scrapes web pages starting
/// from given URLs.
#[derive(Clone, Debug)]
pub struct WebScraperConfig {
    /// URLs to start scraping from.
    pub start_urls: Vec<String>,
    /// Maximum pages to crawl.
    pub max_pages: u32,
    /// CSS selector for content extraction.
    pub content_selector: Option<String>,
    /// Whether to use the platform's proxy.
    pub use_apify_proxy: bool,
}

/// The pages to crawl of a configuration that names none.
pub fn default_max_pages() -> (r: u32)
    ensures
        r == 100,
{
    100
}

/// Whether `url` starts as a URL of the web does.
pub open spec fn is_web_url(url: Seq<char>) -> bool {
    "http://"@.is_prefix_of(url) || "https://"@.is_prefix_of(url)
}

/// The first of `urls` that is no URL of the web.
pub open spec fn first_foreign_url(urls: Seq<String>) -> Option<Seq<char>>
    decreases urls.len(),
{
    if urls.len() == 0 {
        None
    } else if !is_web_url(urls[0]@) {
        Some(urls[0]@)
    } else {
        first_foreign_url(urls.drop_first())
    }
}

impl WebScraperConfig {
    /// What [`WebScraperConfig::validate`] objects to, if anything: the first
    /// of its rules that the configuration breaks.
    pub open spec fn complaint(&self) -> Option<Seq<char>> {
        if self.start_urls@.len() == 0 {
            Some("start_urls cannot be empty"@)
        } else if first_foreign_url(self.start_urls@) is Some {
            Some("Invalid URL: "@ + first_foreign_url(self.start_urls@)->0)
        } else if self.max_pages == 0 {
            Some("max_pages must be greater than 0"@)
        } else {
            None
        }
    }

    /// Checks that there is a start URL, that each starts with `http://` or
    /// `https://`, and that some pages are asked for.
    pub fn validate(&self) -> (r: Result<(), String>)
        ensures
            match r {
                Ok(_) => self.complaint() is None,
                Err(message) => self.complaint() == Some(message@),
            },
    {
        if self.start_urls.len() == 0 {
            return Err(text("start_urls cannot be empty"));
        }
        let mut i: usize = 0;
        assert(self.start_urls@.skip(0) =~= self.start_urls@);
        while i < self.start_urls.len()
            invariant
                i <= self.start_urls.len(),
                first_foreign_url(self.start_urls@) == first_foreign_url(
                    self.start_urls@.skip(i as int),
                ),
            decreases self.start_urls.len() - i,
        {
            let url = self.start_urls[i].as_str();
            proof {
                assert(self.start_urls@.skip(i as int)[0] == self.start_urls@[i as int]);
                assert(self.start_urls@.skip(i as int).drop_first() =~= self.start_urls@.skip(
                    i + 1,
                ));
            }
            if !starts_with(url, "http://") && !starts_with(url, "https://") {
                return Err(text("Invalid URL: ").concat(url));
            }
            i += 1;
        }
        if self.max_pages == 0 {
            return Err(text("max_pages must be greater than 0"));
        }
        Ok(())
    }
}

} // verus!
