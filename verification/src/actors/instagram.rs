use vstd::prelude::*;
use vstd::utf8::encode_utf8;
use crate::text::{blank, has_char, is_blank, text};

verus! {

/// Configuration of the Instagram Scraper actor, which scrapes profiles and
/// their posts.
#[derive(Clone, Debug)]
pub struct InstagramScraperConfig {
    /// Instagram usernames to scrape.
    pub usernames: Vec<String>,
    /// Maximum posts per profile.
    pub max_posts: u32,
    /// Include profile information.
    pub include_profile_info: bool,
    /// Include comments on posts.
    pub include_comments: bool,
}

/// The posts per profile of a configuration that names none.
pub fn default_max_posts() -> (r: u32)
    ensures
        r == 50,
{
    50
}

/// What is wrong with one username, if anything: it is blank, or it holds a
/// space or more than 30 bytes.
pub open spec fn username_complaint(name: Seq<char>) -> Option<Seq<char>> {
    if blank(name) {
        Some("username cannot be empty"@)
    } else if name.contains(' ') || encode_utf8(name).len() > 30 {
        Some("Invalid Instagram username: "@ + name)
    } else {
        None
    }
}

/// What is wrong with the first username that is not in order.
pub open spec fn first_username_complaint(names: Seq<String>) -> Option<Seq<char>>
    decreases names.len(),
{
    if names.len() == 0 {
        None
    } else if username_complaint(names[0]@) is Some {
        username_complaint(names[0]@)
    } else {
        first_username_complaint(names.drop_first())
    }
}

impl InstagramScraperConfig {
    /// What [`InstagramScraperConfig::validate`] objects to, if anything: the
    /// first of its rules that the configuration breaks.
    pub open spec fn complaint(&self) -> Option<Seq<char>> {
        if self.usernames@.len() == 0 {
            Some("usernames cannot be empty"@)
        } else if first_username_complaint(self.usernames@) is Some {
            first_username_complaint(self.usernames@)
        } else if self.max_posts == 0 {
            Some("max_posts must be greater than 0"@)
        } else {
            None
        }
    }

    /// Checks that there is a username, that each is in order, and that some
    /// posts are asked for.
    pub fn validate(&self) -> (r: Result<(), String>)
        ensures
            match r {
                Ok(_) => self.complaint() is None,
                Err(message) => self.complaint() == Some(message@),
            },
    {
        if self.usernames.len() == 0 {
            return Err(text("usernames cannot be empty"));
        }
        let mut i: usize = 0;
        assert(self.usernames@.skip(0) =~= self.usernames@);
        while i < self.usernames.len()
            invariant
                i <= self.usernames.len(),
                first_username_complaint(self.usernames@) == first_username_complaint(
                    self.usernames@.skip(i as int),
                ),
            decreases self.usernames.len() - i,
        {
            let name = self.usernames[i].as_str();
            proof {
                assert(self.usernames@.skip(i as int)[0] == self.usernames@[i as int]);
                assert(self.usernames@.skip(i as int).drop_first() =~= self.usernames@.skip(i + 1));
            }
            if is_blank(name) {
                return Err(text("username cannot be empty"));
            }
            if has_char(name, ' ') || name.as_bytes().len() > 30 {
                return Err(text("Invalid Instagram username: ").concat(name));
            }
            i += 1;
        }
        if self.max_posts == 0 {
            return Err(text("max_posts must be greater than 0"));
        }
        Ok(())
    }
}

} // verus!
