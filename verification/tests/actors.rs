use apify_connector::actors::google_search::{default_language, default_max_results};
use apify_connector::actors::instagram::default_max_posts;
use apify_connector::actors::tripadvisor::{
    default_review_languages, default_review_ratings, TripAdvisorBody,
};
use apify_connector::actors::web_scraper::default_max_pages;
use apify_connector::actors::{
    ActorConfig, ActorKind, GoogleSearchConfig, InstagramScraperConfig, TripAdvisorConfig,
    WebScraperConfig,
};

fn strings(items: &[&str]) -> Vec<String> {
    items.iter().map(|s| s.to_string()).collect()
}

fn google() -> GoogleSearchConfig {
    GoogleSearchConfig {
        queries: strings(&["rust verification"]),
        max_results: default_max_results(),
        language: default_language(),
        country_code: Some("us".to_string()),
    }
}

fn instagram() -> InstagramScraperConfig {
    InstagramScraperConfig {
        usernames: strings(&["ann", "bob"]),
        max_posts: default_max_posts(),
        include_profile_info: false,
        include_comments: false,
    }
}

fn web() -> WebScraperConfig {
    WebScraperConfig {
        start_urls: strings(&["https://a.example", "http://b.example"]),
        max_pages: default_max_pages(),
        content_selector: None,
        use_apify_proxy: false,
    }
}

fn trip() -> TripAdvisorConfig {
    TripAdvisorConfig {
        url: "https://www.tripadvisor.com/Hotel_Review-g1".to_string(),
        review_ratings: default_review_ratings(),
        reviews_languages: default_review_languages(),
        max_reviews: 0,
        include_reviewer_info: false,
    }
}

fn err(message: &str) -> Result<(), String> {
    Err(message.to_string())
}

#[test]
fn defaults() {
    assert_eq!(default_max_results(), 10);
    assert_eq!(default_language(), "en");
    assert_eq!(default_max_posts(), 50);
    assert_eq!(default_max_pages(), 100);
    assert_eq!(default_review_ratings(), vec!["ALL_REVIEW_RATINGS".to_string()]);
    assert_eq!(default_review_languages(), vec!["ALL_REVIEW_LANGUAGES".to_string()]);
}

#[test]
fn google_search_in_order() {
    assert_eq!(google().validate(), Ok(()));
    assert_eq!(GoogleSearchConfig { country_code: None, ..google() }.validate(), Ok(()));
    assert_eq!(GoogleSearchConfig { max_results: 1, ..google() }.validate(), Ok(()));
    assert_eq!(GoogleSearchConfig { max_results: 100, ..google() }.validate(), Ok(()));
}

#[test]
fn google_search_rules() {
    assert_eq!(
        GoogleSearchConfig { queries: vec![], ..google() }.validate(),
        err("queries cannot be empty")
    );
    assert_eq!(
        GoogleSearchConfig { queries: strings(&["a", " \t\u{a0}\n"]), ..google() }.validate(),
        err("query cannot be empty")
    );
    assert_eq!(
        GoogleSearchConfig { queries: strings(&[""]), ..google() }.validate(),
        err("query cannot be empty")
    );
    assert_eq!(
        GoogleSearchConfig { max_results: 0, ..google() }.validate(),
        err("max_results must be between 1 and 100")
    );
    assert_eq!(
        GoogleSearchConfig { max_results: 101, ..google() }.validate(),
        err("max_results must be between 1 and 100")
    );
    assert_eq!(
        GoogleSearchConfig { country_code: Some("usa".to_string()), ..google() }.validate(),
        err("country_code must be 2 characters")
    );
    assert_eq!(
        GoogleSearchConfig { country_code: Some("é".to_string()), ..google() }.validate(),
        Ok(())
    );
}

#[test]
fn google_search_first_broken_rule_is_reported() {
    let config = GoogleSearchConfig {
        queries: strings(&[" "]),
        max_results: 0,
        language: "en".to_string(),
        country_code: Some("x".to_string()),
    };
    assert_eq!(config.validate(), err("query cannot be empty"));
}

#[test]
fn instagram_rules() {
    assert_eq!(instagram().validate(), Ok(()));
    assert_eq!(
        InstagramScraperConfig { usernames: vec![], ..instagram() }.validate(),
        err("usernames cannot be empty")
    );
    assert_eq!(
        InstagramScraperConfig { usernames: strings(&["ann", "  "]), ..instagram() }.validate(),
        err("username cannot be empty")
    );
    assert_eq!(
        InstagramScraperConfig { usernames: strings(&["ann", "bob b"]), ..instagram() }.validate(),
        err("Invalid Instagram username: bob b")
    );
    let long = "a".repeat(31);
    assert_eq!(
        InstagramScraperConfig { usernames: vec![long.clone()], ..instagram() }.validate(),
        Err(format!("Invalid Instagram username: {}", long))
    );
    assert_eq!(
        InstagramScraperConfig { usernames: vec!["a".repeat(30)], ..instagram() }.validate(),
        Ok(())
    );
    assert_eq!(
        InstagramScraperConfig { usernames: vec!["é".repeat(16)], ..instagram() }.validate(),
        Err(format!("Invalid Instagram username: {}", "é".repeat(16)))
    );
    assert_eq!(
        InstagramScraperConfig { max_posts: 0, ..instagram() }.validate(),
        err("max_posts must be greater than 0")
    );
}

#[test]
fn instagram_first_bad_username_is_reported() {
    let config =
        InstagramScraperConfig { usernames: strings(&["ok", "b c", " ", "d e"]), ..instagram() };
    assert_eq!(config.validate(), err("Invalid Instagram username: b c"));
}

#[test]
fn web_scraper_rules() {
    assert_eq!(web().validate(), Ok(()));
    assert_eq!(
        WebScraperConfig { start_urls: vec![], ..web() }.validate(),
        err("start_urls cannot be empty")
    );
    assert_eq!(
        WebScraperConfig { start_urls: strings(&["https://a.example", "ftp://b", "c"]), ..web() }
            .validate(),
        err("Invalid URL: ftp://b")
    );
    assert_eq!(
        WebScraperConfig { start_urls: strings(&["http:/"]), ..web() }.validate(),
        err("Invalid URL: http:/")
    );
    assert_eq!(
        WebScraperConfig { max_pages: 0, ..web() }.validate(),
        err("max_pages must be greater than 0")
    );
}

#[test]
fn tripadvisor_rules() {
    assert_eq!(trip().validate(), Ok(()));
    assert_eq!(
        TripAdvisorConfig { url: String::new(), ..trip() }.validate(),
        err("url cannot be empty")
    );
    assert_eq!(
        TripAdvisorConfig { url: "https://example.com/hotel".to_string(), ..trip() }.validate(),
        err("URL does not appear to be a TripAdvisor URL: https://example.com/hotel")
    );
    assert_eq!(TripAdvisorConfig { url: "tripadvisor".to_string(), ..trip() }.validate(), Ok(()));
}

#[test]
fn tripadvisor_body_with_defaults() {
    assert_eq!(
        trip().to_apify_body(),
        TripAdvisorBody {
            start_url: "https://www.tripadvisor.com/Hotel_Review-g1".to_string(),
            method: "GET".to_string(),
            review_ratings: strings(&["ALL_REVIEW_RATINGS"]),
            reviews_languages: strings(&["ALL_REVIEW_LANGUAGES"]),
            max_reviews: None,
            include_reviewer_info: None,
        }
    );
}

#[test]
fn tripadvisor_body_with_limit_and_authors() {
    let config = TripAdvisorConfig {
        review_ratings: strings(&["5", "4"]),
        reviews_languages: strings(&["en"]),
        max_reviews: 1,
        include_reviewer_info: true,
        ..trip()
    };
    let body = config.to_apify_body();
    assert_eq!(body.start_url, config.url);
    assert_eq!(body.method, "GET");
    assert_eq!(body.review_ratings, strings(&["5", "4"]));
    assert_eq!(body.reviews_languages, strings(&["en"]));
    assert_eq!(body.max_reviews, Some(1));
    assert_eq!(body.include_reviewer_info, Some(true));
    let unlimited = TripAdvisorConfig { max_reviews: 0, ..config.clone() }.to_apify_body();
    assert_eq!(unlimited.max_reviews, None);
    let large = TripAdvisorConfig { max_reviews: u32::MAX, ..config }.to_apify_body();
    assert_eq!(large.max_reviews, Some(u32::MAX));
}

#[test]
fn actor_config_names_and_rules() {
    let configs = vec![
        (ActorConfig::WebScraper(web()), "web_scraper", "apify/web-scraper"),
        (ActorConfig::GoogleSearch(google()), "google_search", "apify/google-search-scraper"),
        (ActorConfig::Instagram(instagram()), "instagram", "apify/instagram-scraper"),
        (ActorConfig::TripAdvisor(trip()), "tripadvisor", "Hvp4YfFGyLM635Q2F"),
    ];
    for (config, actor_type, actor_name) in configs {
        assert_eq!(config.actor_type(), actor_type);
        assert_eq!(config.actor_name(), actor_name);
        assert_eq!(config.validate(), Ok(()));
        assert_eq!(ActorKind::from_type(actor_type), Some(config.kind()));
        assert_eq!(config.kind().actor_type(), actor_type);
        assert_eq!(config.kind().actor_name(), actor_name);
    }
    assert_eq!(
        ActorConfig::WebScraper(WebScraperConfig { max_pages: 0, ..web() }).validate(),
        err("max_pages must be greater than 0")
    );
    assert_eq!(
        ActorConfig::TripAdvisor(TripAdvisorConfig { url: String::new(), ..trip() }).validate(),
        err("url cannot be empty")
    );
}

#[test]
fn unknown_actor_type_has_no_actor() {
    assert_eq!(ActorKind::from_type("unknown_actor"), None);
    assert_eq!(ActorKind::from_type(""), None);
    assert_eq!(ActorKind::from_type("Web_Scraper"), None);
}

#[test]
fn all_actors_are_listed() {
    let kinds = ActorKind::all();
    assert_eq!(kinds.len(), 4);
    let types: Vec<&str> = kinds.iter().map(|kind| kind.actor_type()).collect();
    assert_eq!(types, vec!["web_scraper", "google_search", "instagram", "tripadvisor"]);
    let names: Vec<&str> = kinds.iter().map(|kind| kind.actor_name()).collect();
    assert_eq!(
        names,
        vec![
            "apify/web-scraper",
            "apify/google-search-scraper",
            "apify/instagram-scraper",
            "Hvp4YfFGyLM635Q2F"
        ]
    );
    for kind in kinds {
        assert_eq!(ActorKind::from_type(kind.actor_type()), Some(kind));
    }
}
