//! Image providers: which provider an id names, the requests each one is sent,
//! how its answers are judged, and how one answer becomes a `Photo`.
use vstd::prelude::*;

use rand::seq::SliceRandom;
use rand::Rng;

use crate::text::{
    chars_of, contains_char, decimal, find, find_from_exec, first_of_from,
    first_of_from_exec, join, join_strings, lemma_find_from, lemma_first_of_from, lemma_rfind_below, occurs_at,
    occurs_at_exec,
    opt_view, push_chars, push_decimal, rfind, rfind_exec, str_equal, string_of, trim,
    trim_end_char, trim_end_char_bound, trim_range, trim_start_char, trim_start_char_bound,
    trim_str, views,
};

verus! {

// ---------------------------------------------------------------------------
// Photos
// ---------------------------------------------------------------------------

/// A single photo returned by a provider, with everything the UI needs to show
/// credit and everything the backend needs to download the full image.
#[derive(Clone, Debug)]
pub struct Photo {
    pub id: String,
    pub provider: String,
    pub width: u32,
    pub height: u32,
    pub photographer: String,
    pub photographer_url: Option<String>,
    /// Link to the photo's page on the source platform.
    pub source_url: Option<String>,
    /// Direct URL of the full-size image to download.
    pub image_url: String,
    /// Endpoint to ping once the image has been downloaded (Unsplash ToS).
    pub download_trigger: Option<String>,
}

/// A `Photo` with its strings taken as character sequences.
#[verifier::ext_equal]
pub ghost struct PhotoView {
    pub id: Seq<char>,
    pub provider: Seq<char>,
    pub width: u32,
    pub height: u32,
    pub photographer: Seq<char>,
    pub photographer_url: Option<Seq<char>>,
    pub source_url: Option<Seq<char>>,
    pub image_url: Seq<char>,
    pub download_trigger: Option<Seq<char>>,
}

impl View for Photo {
    type V = PhotoView;

    open spec fn view(&self) -> PhotoView {
        PhotoView {
            id: self.id@,
            provider: self.provider@,
            width: self.width,
            height: self.height,
            photographer: self.photographer@,
            photographer_url: opt_view(self.photographer_url),
            source_url: opt_view(self.source_url),
            image_url: self.image_url@,
            download_trigger: opt_view(self.download_trigger),
        }
    }
}

/// A copy of an optional string.
pub fn clone_opt(o: &Option<String>) -> (r: Option<String>)
    ensures
        opt_view(r) == opt_view(*o),
{
    match o {
        Some(s) => Some(s.clone()),
        None => None,
    }
}

/// `a` followed by `b`.
pub fn concat2(a: &str, b: &str) -> (r: String)
    ensures
        r@ == a@ + b@,
{
    let mut r = String::from_str(a);
    r.append(b);
    r
}

/// `a`, `b` and `c` in a row.
pub fn concat3(a: &str, b: &str, c: &str) -> (r: String)
    ensures
        r@ == a@ + b@ + c@,
{
    let mut r = String::from_str(a);
    r.append(b);
    r.append(c);
    r
}

// ---------------------------------------------------------------------------
// Providers
// ---------------------------------------------------------------------------

#[derive(Clone, Copy, Debug, PartialEq, Eq, Structural)]
pub enum Provider {
    Picsum,
    Unsplash,
    Bing,
    Pixabay,
    Wallhaven,
}

/// The provider that a settings id selects; an unknown id selects Picsum.
pub open spec fn provider_from_id(id: Seq<char>) -> Provider {
    if id == "unsplash"@ {
        Provider::Unsplash
    } else if id == "bing"@ {
        Provider::Bing
    } else if id == "pixabay"@ {
        Provider::Pixabay
    } else if id == "wallhaven"@ {
        Provider::Wallhaven
    } else {
        Provider::Picsum
    }
}

/// The settings id of a provider.
pub open spec fn provider_id(p: Provider) -> Seq<char> {
    match p {
        Provider::Picsum => "picsum"@,
        Provider::Unsplash => "unsplash"@,
        Provider::Bing => "bing"@,
        Provider::Pixabay => "pixabay"@,
        Provider::Wallhaven => "wallhaven"@,
    }
}

/// Whether a provider takes search terms.
pub open spec fn provider_supports_search(p: Provider) -> bool {
    p == Provider::Unsplash || p == Provider::Pixabay || p == Provider::Wallhaven
}

impl Provider {
    pub fn from_id(id: &str) -> (p: Provider)
        ensures
            p == provider_from_id(id@),
    {
        if str_equal(id, "unsplash") {
            Provider::Unsplash
        } else if str_equal(id, "bing") {
            Provider::Bing
        } else if str_equal(id, "pixabay") {
            Provider::Pixabay
        } else if str_equal(id, "wallhaven") {
            Provider::Wallhaven
        } else {
            Provider::Picsum
        }
    }

    pub fn id(&self) -> (r: &'static str)
        ensures
            r@ == provider_id(*self),
    {
        match self {
            Provider::Picsum => "picsum",
            Provider::Unsplash => "unsplash",
            Provider::Bing => "bing",
            Provider::Pixabay => "pixabay",
            Provider::Wallhaven => "wallhaven",
        }
    }

    pub fn supports_search(&self) -> (r: bool)
        ensures
            r == provider_supports_search(*self),
    {
        match self {
            Provider::Unsplash | Provider::Pixabay | Provider::Wallhaven => true,
            _ => false,
        }
    }
}

/// Every provider's id selects that provider again.
pub proof fn lemma_from_id_of_id(p: Provider)
    ensures
        provider_from_id(provider_id(p)) == p,
{
    reveal_strlit("picsum");
    reveal_strlit("unsplash");
    reveal_strlit("bing");
    reveal_strlit("pixabay");
    reveal_strlit("wallhaven");
    match p {
        Provider::Picsum => {
            assert("picsum"@[0] != "unsplash"@[0]);
            assert("picsum"@[0] != "bing"@[0]);
            assert("picsum"@[2] != "pixabay"@[2]);
            assert("picsum"@[0] != "wallhaven"@[0]);
        },
        Provider::Unsplash => {},
        Provider::Bing => {
            assert("bing"@[0] != "unsplash"@[0]);
        },
        Provider::Pixabay => {
            assert("pixabay"@[0] != "unsplash"@[0]);
            assert("pixabay"@[0] != "bing"@[0]);
        },
        Provider::Wallhaven => {
            assert("wallhaven"@[0] != "unsplash"@[0]);
            assert("wallhaven"@[0] != "bing"@[0]);
            assert("wallhaven"@[0] != "pixabay"@[0]);
        },
    }
}

// ---------------------------------------------------------------------------
// Errors
// ---------------------------------------------------------------------------

/// Why a provider gave no photo (apart from transport and HTTP errors).
#[derive(Clone, Copy, Debug, PartialEq, Eq, Structural)]
pub enum FetchError {
    UnsplashKeyMissing,
    UnsplashKeyRejected,
    UnsplashRateLimited,
    PicsumEmpty,
    BingEmpty,
    PixabayKeyMissing,
    PixabayKeyRejected,
    PixabayRateLimited,
    PixabayEmpty,
    WallhavenKeyRejected,
    WallhavenRateLimited,
    WallhavenEmpty,
}

/// The message the UI shows for an error.
pub open spec fn error_message(e: FetchError) -> Seq<char> {
    match e {
        FetchError::UnsplashKeyMissing => "Unsplash access key missing — add it in the settings"@,
        FetchError::UnsplashKeyRejected => "Unsplash rejected the access key"@,
        FetchError::UnsplashRateLimited => "Unsplash rate limit reached — try again later"@,
        FetchError::PicsumEmpty => "Picsum returned no images"@,
        FetchError::BingEmpty => "Bing returned no image"@,
        FetchError::PixabayKeyMissing => "Pixabay API key missing — add it in the settings"@,
        FetchError::PixabayKeyRejected => "Pixabay rejected the API key"@,
        FetchError::PixabayRateLimited => "Pixabay rate limit reached — try again later"@,
        FetchError::PixabayEmpty => "Pixabay returned no images"@,
        FetchError::WallhavenKeyRejected => "Wallhaven rejected the API key"@,
        FetchError::WallhavenRateLimited => "Wallhaven rate limit reached — try again later"@,
        FetchError::WallhavenEmpty => "Wallhaven returned no wallpapers"@,
    }
}

impl FetchError {
    /// The message the UI shows for this error.
    pub fn message(&self) -> (r: &'static str)
        ensures
            r@ == error_message(*self),
    {
        match self {
            FetchError::UnsplashKeyMissing => "Unsplash access key missing — add it in the settings",
            FetchError::UnsplashKeyRejected => "Unsplash rejected the access key",
            FetchError::UnsplashRateLimited => "Unsplash rate limit reached — try again later",
            FetchError::PicsumEmpty => "Picsum returned no images",
            FetchError::BingEmpty => "Bing returned no image",
            FetchError::PixabayKeyMissing => "Pixabay API key missing — add it in the settings",
            FetchError::PixabayKeyRejected => "Pixabay rejected the API key",
            FetchError::PixabayRateLimited => "Pixabay rate limit reached — try again later",
            FetchError::PixabayEmpty => "Pixabay returned no images",
            FetchError::WallhavenKeyRejected => "Wallhaven rejected the API key",
            FetchError::WallhavenRateLimited => "Wallhaven rate limit reached — try again later",
            FetchError::WallhavenEmpty => "Wallhaven returned no wallpapers",
        }
    }
}


// ---------------------------------------------------------------------------
// Randomness
// ---------------------------------------------------------------------------

/// A random integer in `lo..=hi` (`rand::thread_rng().gen_range(lo..=hi)`).
#[verifier::external_body]
fn random_in(lo: u32, hi: u32) -> (r: u32)
    requires
        lo <= hi,
    ensures
        lo <= r <= hi,
{
    rand::thread_rng().gen_range(lo..=hi)
}

/// A random element of `items`, or `None` when it is empty
/// (`SliceRandom::choose` with `rand::thread_rng()`).
#[verifier::external_body]
fn choose_item<T>(items: &[T]) -> (r: Option<&T>)
    ensures
        r is None <==> items@.len() == 0,
        r matches Some(x) ==> items@.contains(*x),
{
    items.choose(&mut rand::thread_rng())
}

// ---------------------------------------------------------------------------
// Requests
// ---------------------------------------------------------------------------

/// An HTTP GET request as plain data: URL, query parameters in order, headers.
pub struct HttpRequest {
    pub url: String,
    pub query: Vec<(String, String)>,
    pub headers: Vec<(String, String)>,
}

/// An `HttpRequest` with its strings taken as character sequences.
#[verifier::ext_equal]
pub ghost struct HttpRequestView {
    pub url: Seq<char>,
    pub query: Seq<(Seq<char>, Seq<char>)>,
    pub headers: Seq<(Seq<char>, Seq<char>)>,
}

/// The views of a list of name/value pairs.
pub open spec fn pairs_view(v: Seq<(String, String)>) -> Seq<(Seq<char>, Seq<char>)> {
    v.map_values(|p: (String, String)| (p.0@, p.1@))
}

impl View for HttpRequest {
    type V = HttpRequestView;

    open spec fn view(&self) -> HttpRequestView {
        HttpRequestView {
            url: self.url@,
            query: pairs_view(self.query@),
            headers: pairs_view(self.headers@),
        }
    }
}

/// The view of a request or of the reason none is sent.
pub open spec fn request_view(r: Result<HttpRequest, FetchError>) -> Result<
    HttpRequestView,
    FetchError,
> {
    match r {
        Ok(q) => Ok(q@),
        Err(e) => Err(e),
    }
}

/// The search-term parameter: absent without terms, else the terms joined by spaces.
pub open spec fn terms_param(terms: Seq<Seq<char>>, name: Seq<char>) -> Seq<(Seq<char>, Seq<char>)> {
    if terms.len() == 0 {
        Seq::empty()
    } else {
        seq![(name, join(terms, " "@))]
    }
}

/// The API-key parameter: absent for an empty key.
pub open spec fn key_param(key: Seq<char>) -> Seq<(Seq<char>, Seq<char>)> {
    if key.len() == 0 {
        Seq::empty()
    } else {
        seq![("apikey"@, key)]
    }
}

fn push_pair(v: &mut Vec<(String, String)>, name: &str, value: String)
    ensures
        pairs_view(final(v)@) == pairs_view(old(v)@).push((name@, value@)),
{
    v.push((String::from_str(name), value));
    assert(pairs_view(v@) =~= pairs_view(old(v)@).push((name@, v@.last().1@)));
}

fn push_terms(v: &mut Vec<(String, String)>, terms: &Vec<String>, name: &str)
    ensures
        pairs_view(final(v)@) == pairs_view(old(v)@) + terms_param(views(terms@), name@),
{
    if terms.len() > 0 {
        let joined = join_strings(terms, " ");
        push_pair(v, name, joined);
        assert(pairs_view(v@) =~= pairs_view(old(v)@) + terms_param(views(terms@), name@));
    } else {
        assert(pairs_view(v@) =~= pairs_view(old(v)@) + terms_param(views(terms@), name@));
    }
}

fn push_key(v: &mut Vec<(String, String)>, key: &String)
    ensures
        pairs_view(final(v)@) == pairs_view(old(v)@) + key_param(key@),
{
    if key.as_str().is_empty() {
        assert(pairs_view(v@) =~= pairs_view(old(v)@) + key_param(key@));
    } else {
        push_pair(v, "apikey", key.clone());
        assert(pairs_view(v@) =~= pairs_view(old(v)@) + key_param(key@));
    }
}

/* ===================== Picsum ===================== */

/// The Picsum list request for one page of thirty photos.
pub open spec fn picsum_request_spec(page: u32) -> HttpRequestView {
    HttpRequestView {
        url: "https://picsum.photos/v2/list?page="@ + decimal(page as nat) + "&limit=30"@,
        query: Seq::empty(),
        headers: Seq::empty(),
    }
}

/// The Picsum list request for page `page`.
pub fn picsum_request_for(page: u32) -> (r: HttpRequest)
    ensures
        r@ == picsum_request_spec(page),
{
    let mut url = String::from_str("https://picsum.photos/v2/list?page=");
    push_decimal(&mut url, page as u64);
    url.append("&limit=30");
    let r = HttpRequest { url, query: Vec::new(), headers: Vec::new() };
    assert(r@ =~= picsum_request_spec(page));
    r
}

/// The Picsum list request for a random page among the first ten.
pub fn picsum_request() -> (r: HttpRequest)
    ensures
        exists|page: u32| 1 <= page <= 10 && r@ == picsum_request_spec(page),
{
    let page = random_in(1, 10);
    picsum_request_for(page)
}

/// An entry of Picsum's photo list.
pub struct PicsumItem {
    pub id: String,
    pub author: String,
    pub width: u32,
    pub height: u32,
    /// Photo page (points at the original on Unsplash).
    pub url: String,
}

/// The referral parameters that Unsplash asks links to it to carry.
pub open spec fn utm() -> Seq<char> {
    "utm_source=Wowl&utm_medium=referral"@
}

/// Whether `c` ends the host of a URL: a port, a path, a query or a fragment starts.
pub open spec fn ends_host(c: char) -> bool {
    c == ':' || c == '/' || c == '?' || c == '#'
}

/// `marker` (a `://` and a host name) occurs at `i` in `url`, followed by the end
/// of the URL or by the end of the host.
pub open spec fn host_at(url: Seq<char>, marker: Seq<char>, i: int) -> bool {
    occurs_at(url, marker, i) && (i + marker.len() == url.len() || ends_host(url[i + marker.len()]))
}

/// The link `url` points at the host that `marker` names.
pub open spec fn names_host(url: Seq<char>, marker: Seq<char>) -> bool {
    exists|i: int| #[trigger] host_at(url, marker, i)
}

/// Whether a link points at unsplash.com or www.unsplash.com.
pub open spec fn points_at_unsplash(url: Seq<char>) -> bool {
    names_host(url, "://unsplash.com"@) || names_host(url, "://www.unsplash.com"@)
}

/// `url` with the referral parameters appended when it points at unsplash.com:
/// after a `?`, or after a `&` when the link has a query already.
pub open spec fn unsplash_utm_spec(url: Seq<char>) -> Seq<char> {
    if points_at_unsplash(url) {
        url.push(if url.contains('?') { '&' } else { '?' }) + utm()
    } else {
        url
    }
}

/// Whether `url` holds `marker` followed by the end of the URL or of the host.
fn names_host_exec(url: &Vec<char>, marker: &Vec<char>) -> (r: bool)
    ensures
        r == names_host(url@, marker@),
{
    if marker.len() > url.len() {
        assert(!names_host(url@, marker@)) by {
            assert forall|i: int| !#[trigger] host_at(url@, marker@, i) by {}
        }
        return false;
    }
    let last = url.len() - marker.len();
    let mut i: usize = 0;
    loop
        invariant
            last + marker.len() == url.len(),
            i <= last,
            forall|j: int| 0 <= j < i ==> !#[trigger] host_at(url@, marker@, j),
        ensures
            forall|j: int| 0 <= j <= last ==> !#[trigger] host_at(url@, marker@, j),
        decreases last - i,
    {
        if occurs_at_exec(url, marker, i) {
            let end = i + marker.len();
            if end == url.len() || url[end] == ':' || url[end] == '/' || url[end] == '?'
                || url[end] == '#' {
                assert(host_at(url@, marker@, i as int));
                return true;
            }
        }
        assert(!host_at(url@, marker@, i as int));
        if i == last {
            break;
        }
        i = i + 1;
    }
    assert(!names_host(url@, marker@)) by {
        assert forall|j: int| !#[trigger] host_at(url@, marker@, j) by {
            if 0 <= j <= last {
            }
        }
    }
    false
}

/// Append the Unsplash referral UTM parameters to any link that points at
/// unsplash.com (required by the Unsplash API guidelines). Links to other hosts
/// are returned unchanged.
pub fn unsplash_utm(url: &str) -> (r: String)
    ensures
        r@ == unsplash_utm_spec(url@),
{
    let v = chars_of(url);
    let bare = chars_of("://unsplash.com");
    let www = chars_of("://www.unsplash.com");
    if names_host_exec(&v, &bare) || names_host_exec(&v, &www) {
        let mut r = String::from_str(url);
        if contains_char(url, '?') {
            crate::text::push_char(&mut r, '&');
        } else {
            crate::text::push_char(&mut r, '?');
        }
        r.append("utm_source=Wowl&utm_medium=referral");
        r
    } else {
        String::from_str(url)
    }
}

/// The photo that a Picsum list entry describes, sized to `target`.
pub open spec fn picsum_photo_spec(item: PicsumItem, target: (u32, u32)) -> PhotoView {
    let page = unsplash_utm_spec(item.url@);
    PhotoView {
        id: "picsum-"@ + item.id@,
        provider: "picsum"@,
        width: target.0,
        height: target.1,
        photographer: item.author@,
        photographer_url: Some(page),
        source_url: Some(page),
        image_url: "https://picsum.photos/id/"@ + item.id@ + "/"@ + decimal(target.0 as nat) + "/"@
            + decimal(target.1 as nat),
        download_trigger: None,
    }
}

/// The photo that a Picsum list entry describes.
pub fn picsum_photo(item: &PicsumItem, target: (u32, u32)) -> (p: Photo)
    ensures
        p@ == picsum_photo_spec(*item, target),
{
    let (w, h) = target;
    let page = unsplash_utm(item.url.as_str());
    let mut image_url = concat2("https://picsum.photos/id/", item.id.as_str());
    image_url.append("/");
    push_decimal(&mut image_url, w as u64);
    image_url.append("/");
    push_decimal(&mut image_url, h as u64);
    let p = Photo {
        id: concat2("picsum-", item.id.as_str()),
        provider: String::from_str("picsum"),
        width: w,
        height: h,
        photographer: item.author.clone(),
        photographer_url: Some(page.clone()),
        source_url: Some(page),
        image_url,
        download_trigger: None,
    };
    assert(p@ =~= picsum_photo_spec(*item, target));
    p
}

/// A random photo of the list, or an error for an empty list.
pub fn picsum_pick(list: &Vec<PicsumItem>, target: (u32, u32)) -> (r: Result<Photo, FetchError>)
    ensures
        r is Err <==> list@.len() == 0,
        r matches Err(e) ==> e == FetchError::PicsumEmpty,
        r matches Ok(p) ==> exists|i: int|
            0 <= i < list@.len() && p@ == picsum_photo_spec(list@[i], target),
{
    match choose_item(list.as_slice()) {
        Some(item) => Ok(picsum_photo(item, target)),
        None => Err(FetchError::PicsumEmpty),
    }
}

/* ===================== Unsplash ===================== */

pub struct UnsplashPhoto {
    pub id: String,
    pub urls: UnsplashUrls,
    pub links: UnsplashLinks,
    pub user: UnsplashUser,
}

pub struct UnsplashUrls {
    pub raw: String,
}

pub struct UnsplashLinks {
    pub html: String,
    pub download_location: Option<String>,
}

pub struct UnsplashUser {
    pub name: String,
    pub links: Option<UnsplashUserLinks>,
}

pub struct UnsplashUserLinks {
    pub html: String,
}

/// The request for one random landscape photo, or the missing-key error.
pub open spec fn unsplash_request_spec(terms: Seq<Seq<char>>, key: Seq<char>) -> Result<
    HttpRequestView,
    FetchError,
> {
    let k = trim(key);
    if k.len() == 0 {
        Err(FetchError::UnsplashKeyMissing)
    } else {
        Ok(
            HttpRequestView {
                url: "https://api.unsplash.com/photos/random"@,
                query: seq![("orientation"@, "landscape"@), ("content_filter"@, "high"@)]
                    + terms_param(terms, "query"@),
                headers: seq![("Authorization"@, "Client-ID "@ + k)],
            },
        )
    }
}

/// The Unsplash request for a random photo matching `terms`.
pub fn unsplash_request(terms: &Vec<String>, key: &str) -> (r: Result<HttpRequest, FetchError>)
    ensures
        request_view(r) == unsplash_request_spec(views(terms@), key@),
{
    let k = trim_str(key);
    if k.as_str().is_empty() {
        return Err(FetchError::UnsplashKeyMissing);
    }
    let mut query: Vec<(String, String)> = Vec::new();
    push_pair(&mut query, "orientation", String::from_str("landscape"));
    push_pair(&mut query, "content_filter", String::from_str("high"));
    push_terms(&mut query, terms, "query");
    let mut headers: Vec<(String, String)> = Vec::new();
    push_pair(&mut headers, "Authorization", concat2("Client-ID ", k.as_str()));
    let r = HttpRequest {
        url: String::from_str("https://api.unsplash.com/photos/random"),
        query,
        headers,
    };
    assert(r@ =~= unsplash_request_spec(views(terms@), key@).unwrap());
    Ok(r)
}

/// What an HTTP status of Unsplash's answer means before the body is read.
pub open spec fn unsplash_status_spec(status: u16) -> Option<FetchError> {
    if status == 401 {
        Some(FetchError::UnsplashKeyRejected)
    } else if status == 403 {
        Some(FetchError::UnsplashRateLimited)
    } else {
        None
    }
}

/// The error an HTTP status of Unsplash stands for, if any.
pub fn unsplash_status(status: u16) -> (r: Option<FetchError>)
    ensures
        r == unsplash_status_spec(status),
{
    if status == 401 {
        Some(FetchError::UnsplashKeyRejected)
    } else if status == 403 {
        Some(FetchError::UnsplashRateLimited)
    } else {
        None
    }
}

/// The photo that Unsplash's answer describes, cropped to `target`.
pub open spec fn unsplash_photo_spec(u: UnsplashPhoto, target: (u32, u32)) -> PhotoView {
    PhotoView {
        id: "unsplash-"@ + u.id@,
        provider: "unsplash"@,
        width: target.0,
        height: target.1,
        photographer: u.user.name@,
        photographer_url: match u.user.links {
            Some(l) => Some(l.html@ + "?"@ + utm()),
            None => None,
        },
        source_url: Some(u.links.html@ + "?"@ + utm()),
        image_url: u.urls.raw@ + "&w="@ + decimal(target.0 as nat) + "&h="@ + decimal(
            target.1 as nat,
        ) + "&fit=crop&q=85&fm=jpg"@,
        download_trigger: opt_view(u.links.download_location),
    }
}

/// The photo that Unsplash's answer describes.
pub fn unsplash_photo(u: &UnsplashPhoto, target: (u32, u32)) -> (p: Photo)
    ensures
        p@ == unsplash_photo_spec(*u, target),
{
    let (w, h) = target;
    let mut image_url = concat2(u.urls.raw.as_str(), "&w=");
    push_decimal(&mut image_url, w as u64);
    image_url.append("&h=");
    push_decimal(&mut image_url, h as u64);
    image_url.append("&fit=crop&q=85&fm=jpg");
    let photographer_url = match &u.user.links {
        Some(l) => Some(concat3(l.html.as_str(), "?", "utm_source=Wowl&utm_medium=referral")),
        None => None,
    };
    let p = Photo {
        id: concat2("unsplash-", u.id.as_str()),
        provider: String::from_str("unsplash"),
        width: w,
        height: h,
        photographer: u.user.name.clone(),
        photographer_url,
        source_url: Some(concat3(u.links.html.as_str(), "?", "utm_source=Wowl&utm_medium=referral")),
        image_url,
        download_trigger: clone_opt(&u.links.download_location),
    };
    assert(p@ =~= unsplash_photo_spec(*u, target));
    p
}

/* ===================== Bing – image of the day ===================== */

pub struct BingImage {
    pub urlbase: String,
    pub copyright: String,
    pub copyrightlink: String,
}

/// The Bing market for a UI language.
pub open spec fn bing_market(lang: Seq<char>) -> Seq<char> {
    if lang == "de"@ {
        "de-DE"@
    } else {
        "en-US"@
    }
}

/// The request for Bing's image of the day `idx` days back.
pub open spec fn bing_request_spec(lang: Seq<char>, idx: u32) -> HttpRequestView {
    HttpRequestView {
        url: "https://www.bing.com/HPImageArchive.aspx"@,
        query: seq![
            ("format"@, "js"@),
            ("idx"@, decimal(idx as nat)),
            ("n"@, "1"@),
            ("mkt"@, bing_market(lang)),
        ],
        headers: Seq::empty(),
    }
}

/// The Bing request for the image of the day `idx` days back.
pub fn bing_request_for(lang: &str, idx: u32) -> (r: HttpRequest)
    ensures
        r@ == bing_request_spec(lang@, idx),
{
    let mkt = if str_equal(lang, "de") {
        "de-DE"
    } else {
        "en-US"
    };
    let mut idx_text = String::new();
    push_decimal(&mut idx_text, idx as u64);
    let mut query: Vec<(String, String)> = Vec::new();
    push_pair(&mut query, "format", String::from_str("js"));
    push_pair(&mut query, "idx", idx_text);
    push_pair(&mut query, "n", String::from_str("1"));
    push_pair(&mut query, "mkt", String::from_str(mkt));
    let r = HttpRequest {
        url: String::from_str("https://www.bing.com/HPImageArchive.aspx"),
        query,
        headers: Vec::new(),
    };
    assert(r@ =~= bing_request_spec(lang@, idx));
    r
}

/// The request for one of the last eight images of the day, picked at random.
pub fn bing_request(lang: &str) -> (r: HttpRequest)
    ensures
        exists|idx: u32| idx < 8 && r@ == bing_request_spec(lang@, idx),
{
    let idx = random_in(0, 7);
    bing_request_for(lang, idx)
}

/// The marker before the image id in Bing's `urlbase`.
pub open spec fn bing_id_marker() -> Seq<char> {
    "id=OHR."@
}

/// The image id inside `urlbase`: what follows the first `id=OHR.` up to the
/// next one, cut at the first `_` or `&`; `day` when there is no marker.
pub open spec fn bing_id(urlbase: Seq<char>) -> Seq<char> {
    match find(urlbase, bing_id_marker()) {
        Some(i) => {
            let rest = urlbase.skip(i + bing_id_marker().len());
            let piece = match find(rest, bing_id_marker()) {
                Some(j) => rest.take(j),
                None => rest,
            };
            piece.take(first_of_from(piece, '_', '&', 0))
        },
        None => "day"@,
    }
}

/// Bing's image id is the whole stretch after the first `id=OHR.`: it holds no
/// `_`, no `&` and no start of another marker, and it ends where the urlbase
/// ends or at a `_`, a `&` or another marker. Without a marker it is `day`.
pub proof fn lemma_bing_id_whole_stretch(urlbase: Seq<char>)
    ensures
        (forall|i: int| !occurs_at(urlbase, "id=OHR."@, i)) ==> bing_id(urlbase) == "day"@,
        forall|i: int|
            #[trigger] occurs_at(urlbase, "id=OHR."@, i) && (forall|j: int|
                0 <= j < i ==> !occurs_at(urlbase, "id=OHR."@, j)) ==> {
                let s = i + "id=OHR."@.len();
                let id = bing_id(urlbase);
                &&& s + id.len() <= urlbase.len()
                &&& id == urlbase.subrange(s, s + id.len())
                &&& forall|m: int|
                    0 <= m < id.len() ==> id[m] != '_' && id[m] != '&' && !occurs_at(
                        urlbase,
                        "id=OHR."@,
                        s + m,
                    )
                &&& s + id.len() == urlbase.len() || urlbase[s + id.len()] == '_' || urlbase[s
                    + id.len()] == '&' || occurs_at(urlbase, "id=OHR."@, s + id.len())
            },
{
    let mk = "id=OHR."@;
    lemma_find_from(urlbase, mk, 0);
    match find(urlbase, mk) {
        None => {},
        Some(i0) => {
            let s = i0 + mk.len();
            let rest = urlbase.skip(s);
            lemma_find_from(rest, mk, 0);
            assert forall|t: int| 0 <= t implies occurs_at(rest, mk, t) == occurs_at(
                urlbase,
                mk,
                s + t,
            ) by {
                if t + mk.len() <= rest.len() {
                    assert(rest.subrange(t, t + mk.len()) =~= urlbase.subrange(
                        s + t,
                        s + t + mk.len(),
                    ));
                }
            }
            let piece = match find(rest, mk) {
                Some(j) => rest.take(j),
                None => rest,
            };
            lemma_first_of_from(piece, '_', '&', 0);
            let k = first_of_from(piece, '_', '&', 0);
            let id = bing_id(urlbase);
            assert(id == piece.take(k));
            assert(id =~= urlbase.subrange(s, s + k));
            assert forall|m: int| 0 <= m < id.len() implies id[m] != '_' && id[m] != '&'
                && !occurs_at(urlbase, mk, s + m) by {
                assert(id[m] == piece[m]);
                assert(!occurs_at(rest, mk, m));
            }
            if k < piece.len() {
                assert(urlbase[s + k] == piece[k]);
            } else {
                match find(rest, mk) {
                    Some(j) => {
                        assert(occurs_at(rest, mk, j));
                    },
                    None => {},
                }
            }
            assert forall|i: int|
                #[trigger] occurs_at(urlbase, mk, i) && (forall|j: int|
                    0 <= j < i ==> !occurs_at(urlbase, mk, j)) implies i == i0 by {
                if i > i0 {
                    assert(!occurs_at(urlbase, mk, i0));
                }
            }
        },
    }
}

/// The credit in a caption "Caption (© Photographer/Agency)": what follows the
/// last "(©", trimmed, without closing parentheses; the whole caption when that
/// is empty or there is no "(©".
pub open spec fn bing_photographer(copyright: Seq<char>) -> Seq<char> {
    match rfind(copyright, "(©"@) {
        Some(i) => {
            let t = trim(trim_end_char(trim(copyright.skip(i + "(©"@.len())), ')'));
            if t.len() > 0 {
                t
            } else {
                copyright
            }
        },
        None => copyright,
    }
}

/// The photo that a Bing image entry describes.
pub open spec fn bing_photo_spec(img: BingImage, target: (u32, u32)) -> PhotoView {
    PhotoView {
        id: "bing-"@ + bing_id(img.urlbase@),
        provider: "bing"@,
        width: target.0,
        height: target.1,
        photographer: bing_photographer(img.copyright@),
        photographer_url: None,
        source_url: Some(
            if img.copyrightlink@.len() == 0 {
                "https://www.bing.com"@
            } else {
                img.copyrightlink@
            },
        ),
        image_url: "https://www.bing.com/"@ + trim_start_char(img.urlbase@, '/') + "_UHD.jpg"@,
        download_trigger: None,
    }
}

/// The characters of `v[lo..hi]` as a new vector.
fn slice_chars(v: &Vec<char>, lo: usize, hi: usize) -> (r: Vec<char>)
    requires
        lo <= hi <= v.len(),
    ensures
        r@ == v@.subrange(lo as int, hi as int),
{
    let mut r: Vec<char> = Vec::new();
    let mut i = lo;
    while i < hi
        invariant
            lo <= i <= hi <= v.len(),
            r@ == v@.subrange(lo as int, i as int),
        decreases hi - i,
    {
        r.push(v[i]);
        assert(r@ =~= v@.subrange(lo as int, i + 1));
        i = i + 1;
    }
    r
}

/// The image id inside Bing's `urlbase`.
pub fn bing_image_id(urlbase: &str) -> (r: String)
    ensures
        r@ == bing_id(urlbase@),
{
    let v = chars_of(urlbase);
    let m = chars_of("id=OHR.");
    proof {
        lemma_find_from(v@, m@, 0);
    }
    match find_from_exec(&v, &m, 0) {
        Some(i) => {
            assert(occurs_at(v@, m@, i as int));
            assert(i + m@.len() <= v@.len());
            assert(i + m.len() <= v.len());
            let rest = slice_chars(&v, i + m.len(), v.len());
            assert(rest@ =~= v@.skip(i + m@.len()));
            proof {
                lemma_find_from(rest@, m@, 0);
            }
            let end = match find_from_exec(&rest, &m, 0) {
                Some(j) => j,
                None => rest.len(),
            };
            let piece = slice_chars(&rest, 0, end);
            let k = first_of_from_exec(&piece, '_', '&', 0);
            let r = string_of(&piece, 0, k);
            assert(rest@.take(rest@.len() as int) =~= rest@);
            assert(r@ =~= bing_id(urlbase@));
            r
        },
        None => String::from_str("day"),
    }
}

/// The credit inside a Bing caption.
pub fn bing_photographer_of(copyright: &str) -> (r: String)
    ensures
        r@ == bing_photographer(copyright@),
{
    let v = chars_of(copyright);
    let p = chars_of("(©");
    match rfind_exec(&v, &p) {
        Some(i) => {
            proof {
                lemma_rfind_below(v@, p@, v@.len() - p@.len() + 1);
            }
            assert(occurs_at(v@, p@, i as int));
            assert(i + p@.len() <= v@.len());
            assert(i + p.len() <= v.len());
            let start = i + p.len();
            assert(v@.skip(start as int) =~= v@.subrange(start as int, v.len() as int));
            let (a, b) = trim_range(&v, start, v.len());
            let c = trim_end_char_bound(&v, a, b, ')');
            let (d, e) = trim_range(&v, a, c);
            if d < e {
                string_of(&v, d, e)
            } else {
                String::from_str(copyright)
            }
        },
        None => String::from_str(copyright),
    }
}

/// The photo that a Bing image entry describes.
pub fn bing_photo(img: &BingImage, target: (u32, u32)) -> (p: Photo)
    ensures
        p@ == bing_photo_spec(*img, target),
{
    let (w, h) = target;
    let base = chars_of(img.urlbase.as_str());
    let start = trim_start_char_bound(&base, 0, base.len(), '/');
    assert(base@.subrange(0, base.len() as int) =~= base@);
    let mut image_url = String::from_str("https://www.bing.com/");
    push_chars(&mut image_url, &base, start, base.len());
    image_url.append("_UHD.jpg");
    let source_url = if img.copyrightlink.as_str().is_empty() {
        String::from_str("https://www.bing.com")
    } else {
        img.copyrightlink.clone()
    };
    let p = Photo {
        id: concat2("bing-", bing_image_id(img.urlbase.as_str()).as_str()),
        provider: String::from_str("bing"),
        width: w,
        height: h,
        photographer: bing_photographer_of(img.copyright.as_str()),
        photographer_url: None,
        source_url: Some(source_url),
        image_url,
        download_trigger: None,
    };
    assert(p@ =~= bing_photo_spec(*img, target));
    p
}

/// The first image of Bing's answer, or an error when it holds none.
pub fn bing_pick(images: &Vec<BingImage>, target: (u32, u32)) -> (r: Result<Photo, FetchError>)
    ensures
        r is Err <==> images@.len() == 0,
        r matches Err(e) ==> e == FetchError::BingEmpty,
        r matches Ok(p) ==> p@ == bing_photo_spec(images@[0], target),
{
    if images.len() == 0 {
        Err(FetchError::BingEmpty)
    } else {
        Ok(bing_photo(&images[0], target))
    }
}

/* ===================== Pixabay ===================== */

pub struct PixabayHit {
    pub id: u64,
    pub page_url: String,
    pub large_image_url: String,
    /// Only present for accounts with full API access; fall back to the large URL.
    pub full_hd_url: Option<String>,
    pub image_url: Option<String>,
    pub user: String,
    pub user_id: u64,
}

/// The request for up to two hundred horizontal photos, or the missing-key error.
pub open spec fn pixabay_request_spec(terms: Seq<Seq<char>>, key: Seq<char>) -> Result<
    HttpRequestView,
    FetchError,
> {
    let k = trim(key);
    if k.len() == 0 {
        Err(FetchError::PixabayKeyMissing)
    } else {
        Ok(
            HttpRequestView {
                url: "https://pixabay.com/api/"@,
                query: seq![
                    ("key"@, k),
                    ("image_type"@, "photo"@),
                    ("orientation"@, "horizontal"@),
                    ("safesearch"@, "true"@),
                    ("per_page"@, "200"@),
                ] + terms_param(terms, "q"@),
                headers: Seq::empty(),
            },
        )
    }
}

/// The Pixabay request for photos matching `terms`.
pub fn pixabay_request(terms: &Vec<String>, key: &str) -> (r: Result<HttpRequest, FetchError>)
    ensures
        request_view(r) == pixabay_request_spec(views(terms@), key@),
{
    let k = trim_str(key);
    if k.as_str().is_empty() {
        return Err(FetchError::PixabayKeyMissing);
    }
    let mut query: Vec<(String, String)> = Vec::new();
    push_pair(&mut query, "key", k);
    push_pair(&mut query, "image_type", String::from_str("photo"));
    push_pair(&mut query, "orientation", String::from_str("horizontal"));
    push_pair(&mut query, "safesearch", String::from_str("true"));
    push_pair(&mut query, "per_page", String::from_str("200"));
    push_terms(&mut query, terms, "q");
    let r = HttpRequest {
        url: String::from_str("https://pixabay.com/api/"),
        query,
        headers: Vec::new(),
    };
    assert(r@ =~= pixabay_request_spec(views(terms@), key@).unwrap());
    Ok(r)
}

/// What an HTTP status of Pixabay's answer means before the body is read.
pub open spec fn pixabay_status_spec(status: u16) -> Option<FetchError> {
    if status == 401 || status == 400 {
        Some(FetchError::PixabayKeyRejected)
    } else if status == 429 {
        Some(FetchError::PixabayRateLimited)
    } else {
        None
    }
}

/// The error an HTTP status of Pixabay stands for, if any.
pub fn pixabay_status(status: u16) -> (r: Option<FetchError>)
    ensures
        r == pixabay_status_spec(status),
{
    if status == 401 || status == 400 {
        Some(FetchError::PixabayKeyRejected)
    } else if status == 429 {
        Some(FetchError::PixabayRateLimited)
    } else {
        None
    }
}

/// The photo that a Pixabay hit describes: its Full-HD image when the account
/// sees one, else its original image, else its large image.
pub open spec fn pixabay_photo_spec(hit: PixabayHit) -> PhotoView {
    PhotoView {
        id: "pixabay-"@ + decimal(hit.id as nat),
        provider: "pixabay"@,
        width: 0,
        height: 0,
        photographer: hit.user@,
        photographer_url: Some(
            "https://pixabay.com/users/"@ + hit.user@ + "-"@ + decimal(hit.user_id as nat) + "/"@,
        ),
        source_url: Some(hit.page_url@),
        image_url: match opt_view(hit.full_hd_url) {
            Some(u) => u,
            None => match opt_view(hit.image_url) {
                Some(u) => u,
                None => hit.large_image_url@,
            },
        },
        download_trigger: None,
    }
}

/// The photo that a Pixabay hit describes.
pub fn pixabay_photo(hit: &PixabayHit) -> (p: Photo)
    ensures
        p@ == pixabay_photo_spec(*hit),
{
    let image_url = match &hit.full_hd_url {
        Some(u) => u.clone(),
        None => match &hit.image_url {
            Some(u) => u.clone(),
            None => hit.large_image_url.clone(),
        },
    };
    let mut id = String::from_str("pixabay-");
    push_decimal(&mut id, hit.id);
    let mut user_url = concat3("https://pixabay.com/users/", hit.user.as_str(), "-");
    push_decimal(&mut user_url, hit.user_id);
    user_url.append("/");
    let p = Photo {
        id,
        provider: String::from_str("pixabay"),
        width: 0,
        height: 0,
        photographer: hit.user.clone(),
        photographer_url: Some(user_url),
        source_url: Some(hit.page_url.clone()),
        image_url,
        download_trigger: None,
    };
    assert(p@ =~= pixabay_photo_spec(*hit));
    p
}

/// A random hit of Pixabay's answer, or an error when it holds none.
pub fn pixabay_pick(hits: &Vec<PixabayHit>) -> (r: Result<Photo, FetchError>)
    ensures
        r is Err <==> hits@.len() == 0,
        r matches Err(e) ==> e == FetchError::PixabayEmpty,
        r matches Ok(p) ==> exists|i: int| 0 <= i < hits@.len() && p@ == pixabay_photo_spec(hits@[i]),
{
    match choose_item(hits.as_slice()) {
        Some(hit) => Ok(pixabay_photo(hit)),
        None => Err(FetchError::PixabayEmpty),
    }
}

/* ===================== Wallhaven ===================== */

pub struct WallhavenItem {
    pub id: String,
    /// Wallpaper page, e.g. `https://wallhaven.cc/w/<id>`.
    pub url: String,
    /// Direct full-image URL.
    pub path: String,
}

/// The smallest size asked of Wallhaven: the target, at most 1920×1080.
pub open spec fn wallhaven_atleast(target: (u32, u32)) -> Seq<char> {
    let w: u32 = if target.0 < 1920 { target.0 } else { 1920 };
    let h: u32 = if target.1 < 1080 { target.1 } else { 1080 };
    decimal(w as nat) + "x"@ + decimal(h as nat)
}

/// The search for one random SFW landscape wallpaper of at least the target size.
pub open spec fn wallhaven_search_request_spec(
    terms: Seq<Seq<char>>,
    key: Seq<char>,
    target: (u32, u32),
) -> HttpRequestView {
    HttpRequestView {
        url: "https://wallhaven.cc/api/v1/search"@,
        query: seq![
            ("categories"@, "100"@),
            ("purity"@, "100"@),
            ("sorting"@, "random"@),
            ("ratios"@, "landscape"@),
            ("atleast"@, wallhaven_atleast(target)),
        ] + terms_param(terms, "q"@) + key_param(trim(key)),
        headers: Seq::empty(),
    }
}

/// Wallhaven is asked for at least the target's width, capped at 1920, by its
/// height, capped at 1080: each from its own side of the target.
pub proof fn lemma_wallhaven_atleast(terms: Seq<Seq<char>>, key: Seq<char>, target: (u32, u32))
    ensures
        wallhaven_search_request_spec(terms, key, target).query.contains(
            (
                "atleast"@,
                decimal(vstd::math::min(target.0 as int, 1920) as nat) + "x"@ + decimal(
                    vstd::math::min(target.1 as int, 1080) as nat,
                ),
            ),
        ),
{
    let q = wallhaven_search_request_spec(terms, key, target).query;
    assert(q[4] == ("atleast"@, wallhaven_atleast(target)));
}

/// Every search request carries the search terms, joined by spaces, when there
/// are any, and the key with surrounding white space removed. Unsplash and
/// Pixabay refuse exactly when that key is empty; Wallhaven then sends no key.
pub proof fn lemma_requests_carry_terms_and_key(
    terms: Seq<Seq<char>>,
    key: Seq<char>,
    target: (u32, u32),
)
    ensures
        (trim(key).len() == 0) == (unsplash_request_spec(terms, key) is Err),
        (trim(key).len() == 0) == (pixabay_request_spec(terms, key) is Err),
        unsplash_request_spec(terms, key) matches Err(e) ==> e == FetchError::UnsplashKeyMissing,
        pixabay_request_spec(terms, key) matches Err(e) ==> e == FetchError::PixabayKeyMissing,
        unsplash_request_spec(terms, key) matches Ok(v) ==> {
            &&& v.headers.contains(("Authorization"@, "Client-ID "@ + trim(key)))
            &&& terms.len() > 0 ==> v.query.contains(("query"@, join(terms, " "@)))
        },
        pixabay_request_spec(terms, key) matches Ok(v) ==> {
            &&& v.query.contains(("key"@, trim(key)))
            &&& terms.len() > 0 ==> v.query.contains(("q"@, join(terms, " "@)))
        },
        ({
            let q = wallhaven_search_request_spec(terms, key, target).query;
            &&& trim(key).len() > 0 ==> q.contains(("apikey"@, trim(key)))
            &&& trim(key).len() == 0 ==> forall|i: int| 0 <= i < q.len() ==> q[i].0 != "apikey"@
            &&& terms.len() > 0 ==> q.contains(("q"@, join(terms, " "@)))
        }),
{
    if let Ok(v) = unsplash_request_spec(terms, key) {
        assert(v.headers[0] == ("Authorization"@, "Client-ID "@ + trim(key)));
        if terms.len() > 0 {
            assert(v.query[2] == ("query"@, join(terms, " "@)));
        }
    }
    if let Ok(v) = pixabay_request_spec(terms, key) {
        assert(v.query[0] == ("key"@, trim(key)));
        if terms.len() > 0 {
            assert(v.query[5] == ("q"@, join(terms, " "@)));
        }
    }
    let q = wallhaven_search_request_spec(terms, key, target).query;
    if terms.len() > 0 {
        assert(q[5] == ("q"@, join(terms, " "@)));
        if trim(key).len() > 0 {
            assert(q[6] == ("apikey"@, trim(key)));
        }
    } else if trim(key).len() > 0 {
        assert(q[5] == ("apikey"@, trim(key)));
    }
    if trim(key).len() == 0 {
        reveal_strlit("apikey");
        reveal_strlit("categories");
        reveal_strlit("purity");
        reveal_strlit("sorting");
        reveal_strlit("ratios");
        reveal_strlit("atleast");
        reveal_strlit("q");
        assert forall|i: int| 0 <= i < q.len() implies q[i].0 != "apikey"@ by {
            assert(q[i].0.len() != "apikey"@.len() || q[i].0[0] != "apikey"@[0]);
        }
    }
}

/// The Wallhaven search for a random wallpaper matching `terms`.
pub fn wallhaven_search_request(terms: &Vec<String>, key: &str, target: (u32, u32)) -> (r:
    HttpRequest)
    ensures
        r@ == wallhaven_search_request_spec(views(terms@), key@, target),
{
    let (w, h) = target;
    let k = trim_str(key);
    let mut atleast = String::new();
    push_decimal(&mut atleast, if w < 1920 { w } else { 1920 } as u64);
    atleast.append("x");
    push_decimal(&mut atleast, if h < 1080 { h } else { 1080 } as u64);
    let mut query: Vec<(String, String)> = Vec::new();
    push_pair(&mut query, "categories", String::from_str("100"));
    push_pair(&mut query, "purity", String::from_str("100"));
    push_pair(&mut query, "sorting", String::from_str("random"));
    push_pair(&mut query, "ratios", String::from_str("landscape"));
    push_pair(&mut query, "atleast", atleast);
    push_terms(&mut query, terms, "q");
    push_key(&mut query, &k);
    let r = HttpRequest {
        url: String::from_str("https://wallhaven.cc/api/v1/search"),
        query,
        headers: Vec::new(),
    };
    assert(r@ =~= wallhaven_search_request_spec(views(terms@), key@, target));
    r
}

/// The request for one wallpaper's details, which name its uploader.
pub open spec fn wallhaven_detail_request_spec(id: Seq<char>, key: Seq<char>) -> HttpRequestView {
    HttpRequestView {
        url: "https://wallhaven.cc/api/v1/w/"@ + id,
        query: key_param(trim(key)),
        headers: Seq::empty(),
    }
}

/// The Wallhaven request for one wallpaper's details.
pub fn wallhaven_detail_request(id: &str, key: &str) -> (r: HttpRequest)
    ensures
        r@ == wallhaven_detail_request_spec(id@, key@),
{
    let k = trim_str(key);
    let mut query: Vec<(String, String)> = Vec::new();
    push_key(&mut query, &k);
    let r = HttpRequest {
        url: concat2("https://wallhaven.cc/api/v1/w/", id),
        query,
        headers: Vec::new(),
    };
    assert(pairs_view(r.query@) =~= key_param(trim(key@)));
    assert(r@ =~= wallhaven_detail_request_spec(id@, key@));
    r
}

/// What an HTTP status of Wallhaven's search answer means before the body is read.
pub open spec fn wallhaven_status_spec(status: u16) -> Option<FetchError> {
    if status == 401 {
        Some(FetchError::WallhavenKeyRejected)
    } else if status == 429 {
        Some(FetchError::WallhavenRateLimited)
    } else {
        None
    }
}

/// The error an HTTP status of Wallhaven stands for, if any.
pub fn wallhaven_status(status: u16) -> (r: Option<FetchError>)
    ensures
        r == wallhaven_status_spec(status),
{
    if status == 401 {
        Some(FetchError::WallhavenKeyRejected)
    } else if status == 429 {
        Some(FetchError::WallhavenRateLimited)
    } else {
        None
    }
}

/// A random wallpaper of Wallhaven's answer, or an error when it holds none.
pub fn wallhaven_pick(items: &Vec<WallhavenItem>) -> (r: Result<&WallhavenItem, FetchError>)
    ensures
        r is Err <==> items@.len() == 0,
        r matches Err(e) ==> e == FetchError::WallhavenEmpty,
        r matches Ok(item) ==> items@.contains(*item),
{
    match choose_item(items.as_slice()) {
        Some(item) => Ok(item),
        None => Err(FetchError::WallhavenEmpty),
    }
}

/// The photo for a Wallhaven wallpaper, credited to its uploader when known.
pub open spec fn wallhaven_photo_spec(item: WallhavenItem, uploader: Option<Seq<char>>) -> PhotoView {
    PhotoView {
        id: "wallhaven-"@ + item.id@,
        provider: "wallhaven"@,
        width: 0,
        height: 0,
        photographer: match uploader {
            Some(u) => u,
            None => Seq::empty(),
        },
        photographer_url: match uploader {
            Some(u) => Some("https://wallhaven.cc/user/"@ + u),
            None => None,
        },
        source_url: Some(item.url@),
        image_url: item.path@,
        download_trigger: None,
    }
}

/// The photo for a Wallhaven wallpaper.
pub fn wallhaven_photo(item: &WallhavenItem, uploader: Option<String>) -> (p: Photo)
    ensures
        p@ == wallhaven_photo_spec(*item, opt_view(uploader)),
{
    let (photographer, photographer_url) = match uploader {
        Some(u) => {
            let url = concat2("https://wallhaven.cc/user/", u.as_str());
            (u, Some(url))
        },
        None => (String::new(), None),
    };
    let p = Photo {
        id: concat2("wallhaven-", item.id.as_str()),
        provider: String::from_str("wallhaven"),
        width: 0,
        height: 0,
        photographer,
        photographer_url,
        source_url: Some(item.url.clone()),
        image_url: item.path.clone(),
        download_trigger: None,
    };
    assert(p@ =~= wallhaven_photo_spec(*item, opt_view(uploader)));
    p
}

} // verus!
