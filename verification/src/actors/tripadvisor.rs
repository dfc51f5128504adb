use vstd::prelude::*;
use crate::text::{contains_text, has_substring, text};

verus! {

/// Configuration of the TripAdvisor Reviews Scraper actor, which scrapes the
/// reviews of an attraction, restaurant or hotel page.
#[derive(Clone, Debug)]
pub struct TripAdvisorConfig {
    /// The TripAdvisor page to scrape reviews from.
    pub url: String,
    /// The ratings to keep, such as "5", or "ALL_REVIEW_RATINGS".
    pub review_ratings: Vec<String>,
    /// The languages to keep, such as "en", or "ALL_REVIEW_LANGUAGES".
    pub reviews_languages: Vec<String>,
    /// Maximum number of reviews to scrape; 0 for no limit.
    pub max_reviews: u32,
    /// Include details of the authors.
    pub include_reviewer_info: bool,
}

/// The ratings of a configuration that names none: all of them.
pub fn default_review_ratings() -> (r: Vec<String>)
    ensures
        r@.len() == 1,
        r@[0]@ == "ALL_REVIEW_RATINGS"@,
{
    let mut ratings: Vec<String> = Vec::new();
    ratings.push(text("ALL_REVIEW_RATINGS"));
    ratings
}

/// The languages of a configuration that names none: all of them.
pub fn default_review_languages() -> (r: Vec<String>)
    ensures
        r@.len() == 1,
        r@[0]@ == "ALL_REVIEW_LANGUAGES"@,
{
    let mut languages: Vec<String> = Vec::new();
    languages.push(text("ALL_REVIEW_LANGUAGES"));
    languages
}

/// The body of the request that starts a run of the TripAdvisor actor, field
/// by field. A field that is `None` is left out of the body.
#[derive(Debug, PartialEq)]
pub struct TripAdvisorBody {
    /// The page to start from: the only entry of `startUrls`.
    pub start_url: String,
    /// The HTTP method by which the page is asked for.
    pub method: String,
    pub review_ratings: Vec<String>,
    pub reviews_languages: Vec<String>,
    pub max_reviews: Option<u32>,
    pub include_reviewer_info: Option<bool>,
}

impl TripAdvisorConfig {
    /// The body of the request that starts a run with this configuration.
    ///
    /// The single URL becomes the page to start from, asked for with `GET`.
    /// A limit of 0 stands for no limit and is left out, and the details of
    /// the authors are asked for only where they are wanted.
    pub fn to_apify_body(&self) -> (r: TripAdvisorBody)
        ensures
            r.start_url@ == self.url@,
            r.method@ == "GET"@,
            r.review_ratings@ == self.review_ratings@,
            r.reviews_languages@ == self.reviews_languages@,
            r.max_reviews == (if self.max_reviews > 0 {
                Some(self.max_reviews)
            } else {
                None
            }),
            r.include_reviewer_info == (if self.include_reviewer_info {
                Some(true)
            } else {
                None
            }),
    {
        let review_ratings = self.review_ratings.clone();
        let reviews_languages = self.reviews_languages.clone();
        assert(review_ratings@ =~= self.review_ratings@);
        assert(reviews_languages@ =~= self.reviews_languages@);
        TripAdvisorBody {
            start_url: self.url.clone(),
            method: text("GET"),
            review_ratings,
            reviews_languages,
            max_reviews: if self.max_reviews > 0 {
                Some(self.max_reviews)
            } else {
                None
            },
            include_reviewer_info: if self.include_reviewer_info {
                Some(true)
            } else {
                None
            },
        }
    }

    /// What [`TripAdvisorConfig::validate`] objects to, if anything: the first
    /// of its rules that the configuration breaks.
    pub open spec fn complaint(&self) -> Option<Seq<char>> {
        if self.url@.len() == 0 {
            Some("url cannot be empty"@)
        } else if !has_substring(self.url@, "tripadvisor"@) {
            Some("URL does not appear to be a TripAdvisor URL: "@ + self.url@)
        } else {
            None
        }
    }

    /// Checks that there is a URL and that it names TripAdvisor.
    pub fn validate(&self) -> (r: Result<(), String>)
        ensures
            match r {
                Ok(_) => self.complaint() is None,
                Err(message) => self.complaint() == Some(message@),
            },
    {
        let url = self.url.as_str();
        if url.is_empty() {
            return Err(text("url cannot be empty"));
        }
        if !contains_text(url, "tripadvisor") {
            return Err(text("URL does not appear to be a TripAdvisor URL: ").concat(url));
        }
        Ok(())
    }
}

} // verus!
