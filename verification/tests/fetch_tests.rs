use wowl::config::Settings;
use wowl::fetch::{Answer, Expected, FetchAction, FetchFailure, PhotoFetch};
use wowl::providers::{
    BingImage, FetchError, HttpRequest, Photo, PicsumItem, PixabayHit, Provider, UnsplashLinks,
    UnsplashPhoto, UnsplashUrls, UnsplashUser, WallhavenItem,
};

const TARGET: (u32, u32) = (2560, 1440);

fn sent(action: FetchAction) -> HttpRequest {
    match action {
        FetchAction::Send(req) => req,
        FetchAction::Finish(_) => panic!("expected a request"),
    }
}

fn photo(action: FetchAction) -> Photo {
    match action {
        FetchAction::Finish(Ok(p)) => p,
        _ => panic!("expected a photo"),
    }
}

fn refusal(action: FetchAction) -> FetchError {
    match action {
        FetchAction::Finish(Err(FetchFailure::Refused(e))) => e,
        _ => panic!("expected a refusal"),
    }
}

fn query(req: &HttpRequest, name: &str) -> Option<String> {
    req.query.iter().find(|(n, _)| n == name).map(|(_, v)| v.clone())
}

fn keyed(unsplash: &str, pixabay: &str, wallhaven: &str) -> Settings {
    let mut s = Settings::default();
    s.search_terms = "forest, sea".to_string();
    s.unsplash_key = unsplash.to_string();
    s.pixabay_key = pixabay.to_string();
    s.wallhaven_key = wallhaven.to_string();
    s
}

fn wall(id: &str) -> WallhavenItem {
    WallhavenItem {
        id: id.to_string(),
        url: format!("https://wallhaven.cc/w/{id}"),
        path: format!("https://w.wallhaven.cc/full/{id}.jpg"),
    }
}

#[test]
fn fetch_refused_without_key() {
    let (run, action) = PhotoFetch::start(Provider::Unsplash, &keyed("  ", "", ""), TARGET);
    assert_eq!(refusal(action), FetchError::UnsplashKeyMissing);
    assert_eq!(run.expected(), None);
    let (_, action) = PhotoFetch::start(Provider::Pixabay, &keyed("", "", ""), TARGET);
    assert_eq!(refusal(action), FetchError::PixabayKeyMissing);
}

#[test]
fn fetch_unsplash_sends_trimmed_key_and_terms() {
    let (run, action) = PhotoFetch::start(Provider::Unsplash, &keyed(" abc ", "", ""), TARGET);
    let req = sent(action);
    assert_eq!(query(&req, "query").as_deref(), Some("forest sea"));
    assert!(req.headers.iter().any(|(n, v)| n == "Authorization" && v == "Client-ID abc"));
    assert_eq!(run.expected(), Some(Expected::UnsplashPhoto));
    assert!(run.checks_http_status());
}

#[test]
fn fetch_status_refusal_ends_the_fetch() {
    let (mut run, _) = PhotoFetch::start(Provider::Unsplash, &keyed("abc", "", ""), TARGET);
    assert!(run.on_status(200).is_none());
    assert_eq!(run.expected(), Some(Expected::UnsplashPhoto));
    let action = run.on_status(401).expect("a refusal");
    assert_eq!(refusal(action), FetchError::UnsplashKeyRejected);
    assert_eq!(run.expected(), None);
}

#[test]
fn fetch_picsum_status_is_left_to_the_caller() {
    let (mut run, action) = PhotoFetch::start(Provider::Picsum, &Settings::default(), TARGET);
    let req = sent(action);
    assert!(req.url.starts_with("https://picsum.photos/v2/list?page="));
    assert!(run.on_status(404).is_none());
    assert_eq!(run.expected(), Some(Expected::PicsumList));
}

#[test]
fn fetch_picsum_answer_labels_photo() {
    let (mut run, _) = PhotoFetch::start(Provider::Picsum, &Settings::default(), TARGET);
    let item = PicsumItem {
        id: "7".to_string(),
        author: "Ann".to_string(),
        width: 5000,
        height: 3000,
        url: "https://unsplash.com/photos/x".to_string(),
    };
    let answer = Answer::PicsumList(vec![item]);
    assert!(run.accepts(&answer));
    assert!(!run.accepts(&Answer::BingImages(vec![])));
    let p = photo(run.on_answer(answer));
    assert_eq!(p.provider, "picsum");
    assert_eq!(p.id, "picsum-7");
    assert_eq!(run.expected(), None);
}

#[test]
fn fetch_empty_answers_are_refused() {
    let (mut run, _) = PhotoFetch::start(Provider::Picsum, &Settings::default(), TARGET);
    assert_eq!(refusal(run.on_answer(Answer::PicsumList(vec![]))), FetchError::PicsumEmpty);
    let (mut run, _) = PhotoFetch::start(Provider::Bing, &Settings::default(), TARGET);
    assert_eq!(refusal(run.on_answer(Answer::BingImages(vec![]))), FetchError::BingEmpty);
    let (mut run, _) = PhotoFetch::start(Provider::Pixabay, &keyed("", "k", ""), TARGET);
    assert_eq!(refusal(run.on_answer(Answer::PixabayHits(vec![]))), FetchError::PixabayEmpty);
    let (mut run, _) = PhotoFetch::start(Provider::Wallhaven, &keyed("", "", ""), TARGET);
    assert_eq!(
        refusal(run.on_answer(Answer::WallhavenSearch(vec![]))),
        FetchError::WallhavenEmpty
    );
}

#[test]
fn fetch_unsplash_bing_pixabay_answers_label_photos() {
    let (mut run, _) = PhotoFetch::start(Provider::Unsplash, &keyed("abc", "", ""), TARGET);
    let u = UnsplashPhoto {
        id: "Ab1".to_string(),
        urls: UnsplashUrls { raw: "https://images.unsplash.com/photo-1".to_string() },
        links: UnsplashLinks { html: "https://unsplash.com/photos/Ab1".to_string(), download_location: None },
        user: UnsplashUser { name: "Bob".to_string(), links: None },
    };
    let p = photo(run.on_answer(Answer::UnsplashPhoto(u)));
    assert_eq!((p.provider.as_str(), p.id.as_str()), ("unsplash", "unsplash-Ab1"));

    let (mut run, _) = PhotoFetch::start(Provider::Bing, &Settings::default(), TARGET);
    let img = BingImage {
        urlbase: "/th?id=OHR.Lake_EN-US123".to_string(),
        copyright: "A lake (© Jo)".to_string(),
        copyrightlink: "https://www.bing.com/search?q=lake".to_string(),
    };
    let p = photo(run.on_answer(Answer::BingImages(vec![img])));
    assert_eq!(p.provider, "bing");
    assert!(p.id.starts_with("bing-"));

    let (mut run, _) = PhotoFetch::start(Provider::Pixabay, &keyed("", "k", ""), TARGET);
    let hit = PixabayHit {
        id: 123,
        page_url: "https://pixabay.com/photos/car-123/".to_string(),
        large_image_url: "https://pixabay.com/get/large.jpg".to_string(),
        full_hd_url: None,
        image_url: None,
        user: "anna".to_string(),
        user_id: 42,
    };
    let p = photo(run.on_answer(Answer::PixabayHits(vec![hit])));
    assert_eq!((p.provider.as_str(), p.id.as_str()), ("pixabay", "pixabay-123"));
}

#[test]
fn fetch_wallhaven_asks_for_details_then_credits() {
    let (mut run, action) = PhotoFetch::start(Provider::Wallhaven, &keyed("", "", " wk "), TARGET);
    let search = sent(action);
    assert_eq!(search.url, "https://wallhaven.cc/api/v1/search");
    assert_eq!(query(&search, "apikey").as_deref(), Some("wk"));
    let detail = sent(run.on_answer(Answer::WallhavenSearch(vec![wall("abc123")])));
    assert_eq!(detail.url, "https://wallhaven.cc/api/v1/w/abc123");
    assert_eq!(query(&detail, "apikey").as_deref(), Some("wk"));
    assert_eq!(run.expected(), Some(Expected::WallhavenUploader));
    assert!(!run.checks_http_status());
    assert!(run.on_status(429).is_none());
    let p = photo(run.on_answer(Answer::WallhavenUploader(Some("neo".to_string()))));
    assert_eq!(p.provider, "wallhaven");
    assert_eq!(p.id, "wallhaven-abc123");
    assert_eq!(p.photographer, "neo");
}

#[test]
fn fetch_wallhaven_detail_failure_still_gives_photo() {
    let (mut run, _) = PhotoFetch::start(Provider::Wallhaven, &keyed("", "", ""), TARGET);
    sent(run.on_answer(Answer::WallhavenSearch(vec![wall("q1")])));
    let p = photo(run.on_failure("timed out".to_string()));
    assert_eq!(p.id, "wallhaven-q1");
    assert_eq!(p.photographer, "");
    assert_eq!(p.photographer_url, None);
    assert_eq!(run.expected(), None);
}

#[test]
fn fetch_failure_of_main_request_ends_it() {
    let (mut run, _) = PhotoFetch::start(Provider::Bing, &Settings::default(), TARGET);
    match run.on_failure("connection refused".to_string()) {
        FetchAction::Finish(Err(FetchFailure::Failed(m))) => assert_eq!(m, "connection refused"),
        _ => panic!("expected a failure"),
    }
    assert_eq!(run.expected(), None);
}
