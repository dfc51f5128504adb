use vstd::prelude::*;
use vstd::utf8::encode_utf8;
use crate::text::{blank, is_blank, text};

verus! {

/// Configuration of the Google Search Scraper actor, which scrapes the
/// result pages of Google for given queries.
#[derive(Clone, Debug)]
pub struct GoogleSearchConfig {
    /// Search queries to execute.
    pub queries: Vec<String>,
    /// Maximum results per query, from 1 to 100.
    pub max_results: u32,
    /// Language code, such as "en".
    pub language: String,
    /// Country code for localized results, such as "us".
    pub country_code: Option<String>,
}

/// The results per query of a configuration that names none.
pub fn default_max_results() -> (r: u32)
    ensures
        r == 10,
{
    10
}

/// The language of a configuration that names none.
pub fn default_language() -> (r: String)
    ensures
        r@ == "en"@,
{
    text("en")
}

/// Some query among `queries` is blank.
pub open spec fn some_blank(queries: Seq<String>) -> bool {
    exists|i: int| 0 <= i < queries.len() && blank(#[trigger] queries[i]@)
}

impl GoogleSearchConfig {
    /// What [`GoogleSearchConfig::validate`] objects to, if anything: the
    /// first of its rules that the configuration breaks.
    pub open spec fn complaint(&self) -> Option<Seq<char>> {
        if self.queries@.len() == 0 {
            Some("queries cannot be empty"@)
        } else if some_blank(self.queries@) {
            Some("query cannot be empty"@)
        } else if self.max_results == 0 || self.max_results > 100 {
            Some("max_results must be between 1 and 100"@)
        } else if self.country_code is Some && encode_utf8(self.country_code->0@).len() != 2 {
            Some("country_code must be 2 characters"@)
        } else {
            None
        }
    }

    /// Checks that there is a query, that no query is blank, that the results
    /// per query lie between 1 and 100, and that a country code has two bytes.
    pub fn validate(&self) -> (r: Result<(), String>)
        ensures
            match r {
                Ok(_) => self.complaint() is None,
                Err(message) => self.complaint() == Some(message@),
            },
    {
        if self.queries.len() == 0 {
            return Err(text("queries cannot be empty"));
        }
        let mut i: usize = 0;
        while i < self.queries.len()
            invariant
                i <= self.queries.len(),
                forall|j: int| 0 <= j < i ==> !blank(#[trigger] self.queries@[j]@),
            decreases self.queries.len() - i,
        {
            if is_blank(self.queries[i].as_str()) {
                return Err(text("query cannot be empty"));
            }
            i += 1;
        }
        assert(!some_blank(self.queries@));
        if self.max_results == 0 || self.max_results > 100 {
            return Err(text("max_results must be between 1 and 100"));
        }
        match &self.country_code {
            Some(code) => {
                if code.as_str().as_bytes().len() != 2 {
                    return Err(text("country_code must be 2 characters"));
                }
            },
            None => {},
        }
        Ok(())
    }
}

} // verus!
