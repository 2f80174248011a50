use wowl::providers::{
    bing_image_id, bing_photo, bing_photographer_of, bing_pick, bing_request, bing_request_for,
    picsum_photo, picsum_pick, picsum_request, picsum_request_for, pixabay_photo, pixabay_pick,
    pixabay_request, pixabay_status, unsplash_photo, unsplash_request, unsplash_status,
    unsplash_utm, wallhaven_detail_request, wallhaven_photo, wallhaven_pick,
    wallhaven_search_request, wallhaven_status, BingImage, FetchError, HttpRequest, PicsumItem,
    PixabayHit, Provider, UnsplashLinks, UnsplashPhoto, UnsplashUrls, UnsplashUser,
    UnsplashUserLinks, WallhavenItem,
};

const UTM: &str = "utm_source=Wowl&utm_medium=referral";

fn pairs(r: &HttpRequest) -> Vec<(&str, &str)> {
    r.query.iter().map(|(a, b)| (a.as_str(), b.as_str())).collect()
}

fn terms(list: &[&str]) -> Vec<String> {
    list.iter().map(|s| s.to_string()).collect()
}

#[test]
fn provider_from_id_known_and_unknown() {
    assert_eq!(Provider::from_id("unsplash"), Provider::Unsplash);
    assert_eq!(Provider::from_id("bing"), Provider::Bing);
    assert_eq!(Provider::from_id("pixabay"), Provider::Pixabay);
    assert_eq!(Provider::from_id("wallhaven"), Provider::Wallhaven);
    assert_eq!(Provider::from_id("picsum"), Provider::Picsum);
    assert_eq!(Provider::from_id("Unsplash"), Provider::Picsum);
    assert_eq!(Provider::from_id(""), Provider::Picsum);
}

#[test]
fn provider_id_round_trips() {
    for p in [Provider::Picsum, Provider::Unsplash, Provider::Bing, Provider::Pixabay, Provider::Wallhaven] {
        assert_eq!(Provider::from_id(p.id()), p);
    }
    assert_eq!(Provider::Bing.id(), "bing");
}

#[test]
fn provider_search_support() {
    assert!(!Provider::Picsum.supports_search());
    assert!(Provider::Unsplash.supports_search());
    assert!(!Provider::Bing.supports_search());
    assert!(Provider::Pixabay.supports_search());
    assert!(Provider::Wallhaven.supports_search());
}

#[test]
fn utm_added_only_to_unsplash_links() {
    assert_eq!(
        unsplash_utm("https://unsplash.com/photos/abc"),
        format!("https://unsplash.com/photos/abc?{UTM}")
    );
    assert_eq!(
        unsplash_utm("https://www.unsplash.com/photos/abc?x=1"),
        format!("https://www.unsplash.com/photos/abc?x=1&{UTM}")
    );
    assert_eq!(unsplash_utm("https://example.com/photos/abc"), "https://example.com/photos/abc");
    assert_eq!(unsplash_utm("https://unsplash.com"), format!("https://unsplash.com?{UTM}"));
    assert_eq!(unsplash_utm("https://unsplash.com?x=1"), format!("https://unsplash.com?x=1&{UTM}"));
    assert_eq!(
        unsplash_utm("https://unsplash.com:443/a"),
        format!("https://unsplash.com:443/a?{UTM}")
    );
    assert_eq!(unsplash_utm("https://unsplash.com.example.org/a"), "https://unsplash.com.example.org/a");
    assert_eq!(unsplash_utm("https://notunsplash.com/a"), "https://notunsplash.com/a");
}

fn picsum_item(id: &str) -> PicsumItem {
    PicsumItem {
        id: id.to_string(),
        author: "Paul Jarvis".to_string(),
        width: 5000,
        height: 3333,
        url: "https://unsplash.com/photos/xyz".to_string(),
    }
}

#[test]
fn picsum_photo_fields() {
    let p = picsum_photo(&picsum_item("10"), (1920, 1080));
    assert_eq!(p.id, "picsum-10");
    assert_eq!(p.provider, "picsum");
    assert_eq!((p.width, p.height), (1920, 1080));
    assert_eq!(p.photographer, "Paul Jarvis");
    let page = format!("https://unsplash.com/photos/xyz?{UTM}");
    assert_eq!(p.photographer_url.as_deref(), Some(page.as_str()));
    assert_eq!(p.source_url.as_deref(), Some(page.as_str()));
    assert_eq!(p.image_url, "https://picsum.photos/id/10/1920/1080");
    assert_eq!(p.download_trigger, None);
}

#[test]
fn picsum_pick_empty_and_single() {
    assert_eq!(picsum_pick(&Vec::new(), (1, 1)).unwrap_err(), FetchError::PicsumEmpty);
    let p = picsum_pick(&vec![picsum_item("7")], (2, 3)).unwrap();
    assert_eq!(p.id, "picsum-7");
    let list = vec![picsum_item("1"), picsum_item("2"), picsum_item("3")];
    for _ in 0..20 {
        let p = picsum_pick(&list, (2, 3)).unwrap();
        assert!(["picsum-1", "picsum-2", "picsum-3"].contains(&p.id.as_str()));
    }
}

#[test]
fn picsum_list_request() {
    let r = picsum_request_for(3);
    assert_eq!(r.url, "https://picsum.photos/v2/list?page=3&limit=30");
    assert!(r.query.is_empty() && r.headers.is_empty());
    for _ in 0..20 {
        let r = picsum_request();
        let page: u32 = r
            .url
            .strip_prefix("https://picsum.photos/v2/list?page=")
            .unwrap()
            .strip_suffix("&limit=30")
            .unwrap()
            .parse()
            .unwrap();
        assert!((1..=10).contains(&page));
    }
}

#[test]
fn unsplash_request_with_terms_and_key() {
    let r = unsplash_request(&terms(&["cat", "dog"]), " key123 ").unwrap();
    assert_eq!(r.url, "https://api.unsplash.com/photos/random");
    assert_eq!(
        pairs(&r),
        vec![("orientation", "landscape"), ("content_filter", "high"), ("query", "cat dog")]
    );
    assert_eq!(r.headers, vec![("Authorization".to_string(), "Client-ID key123".to_string())]);
    let r = unsplash_request(&Vec::new(), "k").unwrap();
    assert_eq!(pairs(&r), vec![("orientation", "landscape"), ("content_filter", "high")]);
}

#[test]
fn unsplash_request_without_key() {
    assert_eq!(unsplash_request(&Vec::new(), "").err(), Some(FetchError::UnsplashKeyMissing));
    assert_eq!(unsplash_request(&terms(&["x"]), " \t ").err(), Some(FetchError::UnsplashKeyMissing));
}

#[test]
fn unsplash_status_codes() {
    assert_eq!(unsplash_status(401), Some(FetchError::UnsplashKeyRejected));
    assert_eq!(unsplash_status(403), Some(FetchError::UnsplashRateLimited));
    assert_eq!(unsplash_status(200), None);
    assert_eq!(unsplash_status(500), None);
}

fn unsplash_answer(user_links: bool) -> UnsplashPhoto {
    UnsplashPhoto {
        id: "Ab1".to_string(),
        urls: UnsplashUrls { raw: "https://images.unsplash.com/photo-1?ixid=abc".to_string() },
        links: UnsplashLinks {
            html: "https://unsplash.com/photos/Ab1".to_string(),
            download_location: Some("https://api.unsplash.com/photos/Ab1/download".to_string()),
        },
        user: UnsplashUser {
            name: "Bob".to_string(),
            links: if user_links {
                Some(UnsplashUserLinks { html: "https://unsplash.com/@bob".to_string() })
            } else {
                None
            },
        },
    }
}

#[test]
fn unsplash_photo_fields() {
    let p = unsplash_photo(&unsplash_answer(true), (800, 600));
    assert_eq!(p.id, "unsplash-Ab1");
    assert_eq!(p.provider, "unsplash");
    assert_eq!(
        p.image_url,
        "https://images.unsplash.com/photo-1?ixid=abc&w=800&h=600&fit=crop&q=85&fm=jpg"
    );
    assert_eq!(p.photographer, "Bob");
    assert_eq!(p.photographer_url, Some(format!("https://unsplash.com/@bob?{UTM}")));
    assert_eq!(p.source_url, Some(format!("https://unsplash.com/photos/Ab1?{UTM}")));
    assert_eq!(
        p.download_trigger.as_deref(),
        Some("https://api.unsplash.com/photos/Ab1/download")
    );
    let p = unsplash_photo(&unsplash_answer(false), (800, 600));
    assert_eq!(p.photographer_url, None);
}

#[test]
fn bing_request_market_and_index() {
    let r = bing_request_for("de", 3);
    assert_eq!(r.url, "https://www.bing.com/HPImageArchive.aspx");
    assert_eq!(pairs(&r), vec![("format", "js"), ("idx", "3"), ("n", "1"), ("mkt", "de-DE")]);
    let r = bing_request_for("en", 0);
    assert_eq!(pairs(&r), vec![("format", "js"), ("idx", "0"), ("n", "1"), ("mkt", "en-US")]);
    for _ in 0..20 {
        let r = bing_request("fr");
        let idx: u32 = r.query[1].1.parse().unwrap();
        assert!(idx < 8);
        assert_eq!(r.query[3].1, "en-US");
    }
}

#[test]
fn bing_id_from_urlbase() {
    assert_eq!(bing_image_id("/th?id=OHR.SnowyOwl_EN-US1234_1920x1080.jpg"), "SnowyOwl");
    assert_eq!(bing_image_id("/th?id=OHR.A&x=1"), "A");
    assert_eq!(bing_image_id("/th?id=OHR.Foo"), "Foo");
    assert_eq!(bing_image_id("/th?id=OHR.Xy_id=OHR.Y"), "Xy");
    assert_eq!(bing_image_id("/az/hprichbg/rb/Owl"), "day");
}

#[test]
fn bing_photographer_from_copyright() {
    assert_eq!(
        bing_photographer_of("Snowy owl in Canada (© John Doe/Getty Images)"),
        "John Doe/Getty Images"
    );
    assert_eq!(bing_photographer_of("No credit given"), "No credit given");
    assert_eq!(bing_photographer_of("Title (©)"), "Title (©)");
    assert_eq!(bing_photographer_of("A (© x) (© Y ))"), "Y");
}

#[test]
fn bing_photo_fields_and_pick() {
    let img = BingImage {
        urlbase: "/th?id=OHR.Owl_EN-US123".to_string(),
        copyright: "Owl (© Ann)".to_string(),
        copyrightlink: String::new(),
    };
    let p = bing_photo(&img, (3840, 2160));
    assert_eq!(p.id, "bing-Owl");
    assert_eq!(p.provider, "bing");
    assert_eq!(p.photographer, "Ann");
    assert_eq!(p.photographer_url, None);
    assert_eq!(p.source_url.as_deref(), Some("https://www.bing.com"));
    assert_eq!(p.image_url, "https://www.bing.com/th?id=OHR.Owl_EN-US123_UHD.jpg");
    let linked = BingImage { copyrightlink: "https://www.bing.com/search?q=owl".to_string(), ..img };
    let p = bing_pick(&vec![linked], (1, 1)).unwrap();
    assert_eq!(p.source_url.as_deref(), Some("https://www.bing.com/search?q=owl"));
    assert_eq!(bing_pick(&Vec::new(), (1, 1)).unwrap_err(), FetchError::BingEmpty);
}

#[test]
fn pixabay_request_and_status() {
    let r = pixabay_request(&terms(&["red", "car"]), " pk ").unwrap();
    assert_eq!(r.url, "https://pixabay.com/api/");
    assert_eq!(
        pairs(&r),
        vec![
            ("key", "pk"),
            ("image_type", "photo"),
            ("orientation", "horizontal"),
            ("safesearch", "true"),
            ("per_page", "200"),
            ("q", "red car"),
        ]
    );
    assert!(r.headers.is_empty());
    assert_eq!(pixabay_request(&Vec::new(), "").err(), Some(FetchError::PixabayKeyMissing));
    assert_eq!(pixabay_status(401), Some(FetchError::PixabayKeyRejected));
    assert_eq!(pixabay_status(400), Some(FetchError::PixabayKeyRejected));
    assert_eq!(pixabay_status(429), Some(FetchError::PixabayRateLimited));
    assert_eq!(pixabay_status(404), None);
}

fn hit(full_hd: Option<&str>, image: Option<&str>) -> PixabayHit {
    PixabayHit {
        id: 123,
        page_url: "https://pixabay.com/photos/car-123/".to_string(),
        large_image_url: "https://pixabay.com/get/large.jpg".to_string(),
        full_hd_url: full_hd.map(str::to_string),
        image_url: image.map(str::to_string),
        user: "anna".to_string(),
        user_id: 42,
    }
}

#[test]
fn pixabay_photo_prefers_largest_image() {
    let p = pixabay_photo(&hit(Some("https://pixabay.com/get/hd.jpg"), Some("https://pixabay.com/get/o.jpg")));
    assert_eq!(p.image_url, "https://pixabay.com/get/hd.jpg");
    assert_eq!(p.id, "pixabay-123");
    assert_eq!(p.provider, "pixabay");
    assert_eq!((p.width, p.height), (0, 0));
    assert_eq!(p.photographer, "anna");
    assert_eq!(p.photographer_url.as_deref(), Some("https://pixabay.com/users/anna-42/"));
    assert_eq!(p.source_url.as_deref(), Some("https://pixabay.com/photos/car-123/"));
    let p = pixabay_photo(&hit(None, Some("https://pixabay.com/get/o.jpg")));
    assert_eq!(p.image_url, "https://pixabay.com/get/o.jpg");
    let p = pixabay_photo(&hit(None, None));
    assert_eq!(p.image_url, "https://pixabay.com/get/large.jpg");
    assert_eq!(pixabay_pick(&Vec::new()).unwrap_err(), FetchError::PixabayEmpty);
    assert_eq!(pixabay_pick(&vec![hit(None, None)]).unwrap().id, "pixabay-123");
}

#[test]
fn wallhaven_search_request_parameters() {
    let r = wallhaven_search_request(&terms(&["sky"]), "", (2560, 1440));
    assert_eq!(r.url, "https://wallhaven.cc/api/v1/search");
    assert_eq!(
        pairs(&r),
        vec![
            ("categories", "100"),
            ("purity", "100"),
            ("sorting", "random"),
            ("ratios", "landscape"),
            ("atleast", "1920x1080"),
            ("q", "sky"),
        ]
    );
    let r = wallhaven_search_request(&Vec::new(), " abc ", (1280, 720));
    assert_eq!(r.query[4].1, "1280x720");
    assert_eq!(r.query.len(), 6);
    assert_eq!(pairs(&r)[5], ("apikey", "abc"));
}

#[test]
fn wallhaven_detail_and_status() {
    let r = wallhaven_detail_request("abc123", "");
    assert_eq!(r.url, "https://wallhaven.cc/api/v1/w/abc123");
    assert!(r.query.is_empty());
    let r = wallhaven_detail_request("abc123", "key");
    assert_eq!(pairs(&r), vec![("apikey", "key")]);
    assert_eq!(wallhaven_status(401), Some(FetchError::WallhavenKeyRejected));
    assert_eq!(wallhaven_status(429), Some(FetchError::WallhavenRateLimited));
    assert_eq!(wallhaven_status(403), None);
}

#[test]
fn wallhaven_photo_credit() {
    let item = WallhavenItem {
        id: "9m".to_string(),
        url: "https://wallhaven.cc/w/9m".to_string(),
        path: "https://w.wallhaven.cc/full/9m/wallhaven-9m.jpg".to_string(),
    };
    let p = wallhaven_photo(&item, Some("neo".to_string()));
    assert_eq!(p.id, "wallhaven-9m");
    assert_eq!(p.provider, "wallhaven");
    assert_eq!(p.photographer, "neo");
    assert_eq!(p.photographer_url.as_deref(), Some("https://wallhaven.cc/user/neo"));
    assert_eq!(p.source_url.as_deref(), Some("https://wallhaven.cc/w/9m"));
    assert_eq!(p.image_url, "https://w.wallhaven.cc/full/9m/wallhaven-9m.jpg");
    let p = wallhaven_photo(&item, None);
    assert_eq!(p.photographer, "");
    assert_eq!(p.photographer_url, None);
    let items = vec![item];
    assert_eq!(wallhaven_pick(&items).unwrap().id, "9m");
    assert_eq!(wallhaven_pick(&Vec::new()).err(), Some(FetchError::WallhavenEmpty));
}

#[test]
fn fetch_error_messages() {
    assert_eq!(
        FetchError::UnsplashKeyMissing.message(),
        "Unsplash access key missing — add it in the settings"
    );
    assert_eq!(FetchError::UnsplashKeyRejected.message(), "Unsplash rejected the access key");
    assert_eq!(
        FetchError::UnsplashRateLimited.message(),
        "Unsplash rate limit reached — try again later"
    );
    assert_eq!(FetchError::PicsumEmpty.message(), "Picsum returned no images");
    assert_eq!(FetchError::BingEmpty.message(), "Bing returned no image");
    assert_eq!(
        FetchError::PixabayKeyMissing.message(),
        "Pixabay API key missing — add it in the settings"
    );
    assert_eq!(FetchError::PixabayKeyRejected.message(), "Pixabay rejected the API key");
    assert_eq!(
        FetchError::PixabayRateLimited.message(),
        "Pixabay rate limit reached — try again later"
    );
    assert_eq!(FetchError::PixabayEmpty.message(), "Pixabay returned no images");
    assert_eq!(FetchError::WallhavenKeyRejected.message(), "Wallhaven rejected the API key");
    assert_eq!(
        FetchError::WallhavenRateLimited.message(),
        "Wallhaven rate limit reached — try again later"
    );
    assert_eq!(FetchError::WallhavenEmpty.message(), "Wallhaven returned no wallpapers");
}
