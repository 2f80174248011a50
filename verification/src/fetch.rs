//! Fetching one photo from a provider, as a series of steps: which request to
//! send, what an HTTP status means, what to do with an answer or a failure. The
//! caller sends the requests and reports back; this module decides.
use vstd::prelude::*;

use crate::config::{search_terms, Settings};
use crate::providers::{
    bing_photo_spec, bing_pick, bing_request, bing_request_spec, picsum_photo_spec, picsum_pick,
    picsum_request, picsum_request_spec, pixabay_photo_spec, pixabay_pick, pixabay_request,
    pixabay_request_spec, pixabay_status, pixabay_status_spec, provider_id, unsplash_photo,
    unsplash_photo_spec, unsplash_request, unsplash_request_spec, unsplash_status,
    unsplash_status_spec, wallhaven_detail_request, wallhaven_detail_request_spec,
    wallhaven_photo, wallhaven_photo_spec, wallhaven_pick, wallhaven_search_request,
    wallhaven_search_request_spec, wallhaven_status, wallhaven_status_spec, BingImage, FetchError,
    HttpRequest, HttpRequestView, Photo, PhotoView, PicsumItem, PixabayHit, Provider, UnsplashPhoto, WallhavenItem,
};
use crate::text::opt_view;

verus! {

/// A parsed answer of a provider.
pub enum Answer {
    PicsumList(Vec<PicsumItem>),
    UnsplashPhoto(UnsplashPhoto),
    BingImages(Vec<BingImage>),
    PixabayHits(Vec<PixabayHit>),
    WallhavenSearch(Vec<WallhavenItem>),
    /// The uploader named by Wallhaven's details of a wallpaper, if any.
    WallhavenUploader(Option<String>),
}

/// Which kind of answer the request sent last is to be parsed into.
#[derive(Clone, Copy, Debug, PartialEq, Eq, Structural)]
pub enum Expected {
    PicsumList,
    UnsplashPhoto,
    BingImages,
    PixabayHits,
    WallhavenSearch,
    WallhavenUploader,
}

/// How far a fetch has come.
pub enum Stage {
    /// The provider's main request is out.
    Search,
    /// Wallhaven's details of the chosen wallpaper are asked for.
    Detail(WallhavenItem),
    /// The fetch ended.
    Finished,
}

/// A fetch of one photo from `provider`, sized for `target`.
pub struct PhotoFetch {
    pub provider: Provider,
    pub target: (u32, u32),
    /// The key the provider's requests carry, as the settings hold it.
    pub key: String,
    pub stage: Stage,
}

/// Why a fetch gave no photo.
pub enum FetchFailure {
    /// The provider's rules refused it (no key, key rejected, rate limit, empty answer).
    Refused(FetchError),
    /// Sending, the HTTP status or parsing failed, with this message.
    Failed(String),
}

/// What the caller does next.
pub enum FetchAction {
    /// Send this request, report its status, then its parsed answer or its failure.
    Send(HttpRequest),
    /// The fetch ended with this photo or failure.
    Finish(Result<Photo, FetchFailure>),
}

/// The action is to send a request with this view.
pub open spec fn sends(action: FetchAction, q: HttpRequestView) -> bool {
    action matches FetchAction::Send(r) && r@ == q
}

/// The answer expected next, if the fetch has not ended.
pub open spec fn expected_spec(f: PhotoFetch) -> Option<Expected> {
    match f.stage {
        Stage::Search => Some(
            match f.provider {
                Provider::Picsum => Expected::PicsumList,
                Provider::Unsplash => Expected::UnsplashPhoto,
                Provider::Bing => Expected::BingImages,
                Provider::Pixabay => Expected::PixabayHits,
                Provider::Wallhaven => Expected::WallhavenSearch,
            },
        ),
        Stage::Detail(_) => Some(Expected::WallhavenUploader),
        Stage::Finished => None,
    }
}

/// `a` is an answer of kind `e`.
pub open spec fn fits(a: Answer, e: Expected) -> bool {
    match a {
        Answer::PicsumList(_) => e == Expected::PicsumList,
        Answer::UnsplashPhoto(_) => e == Expected::UnsplashPhoto,
        Answer::BingImages(_) => e == Expected::BingImages,
        Answer::PixabayHits(_) => e == Expected::PixabayHits,
        Answer::WallhavenSearch(_) => e == Expected::WallhavenSearch,
        Answer::WallhavenUploader(_) => e == Expected::WallhavenUploader,
    }
}

/// The photo is labelled with `provider`: its provider field is the provider's
/// id, and its id starts with that id and `-`.
pub open spec fn labelled(p: PhotoView, provider: Provider) -> bool {
    &&& p.provider == provider_id(provider)
    &&& (provider_id(provider) + "-"@).is_prefix_of(p.id)
}

/// Only Wallhaven asks for details of what it found.
pub open spec fn consistent(f: PhotoFetch) -> bool {
    f.stage is Detail ==> f.provider == Provider::Wallhaven
}

/// The error an HTTP status of the provider's main answer stands for, if any.
pub open spec fn status_error(provider: Provider, status: u16) -> Option<FetchError> {
    match provider {
        Provider::Unsplash => unsplash_status_spec(status),
        Provider::Pixabay => pixabay_status_spec(status),
        Provider::Wallhaven => wallhaven_status_spec(status),
        _ => None,
    }
}

/// How a fetch starts: the main request of the provider, built from the search
/// terms of the settings and the provider's key (or the UI language for Bing),
/// or the refusal when a needed key is missing.
pub open spec fn start_spec(
    provider: Provider,
    settings: Settings,
    target: (u32, u32),
    f: PhotoFetch,
    action: FetchAction,
) -> bool {
    let terms = search_terms(settings.search_terms@);
    &&& f.provider == provider
    &&& f.target == target
    &&& match provider {
        Provider::Picsum => f.stage is Search && exists|page: u32|
            1 <= page <= 10 && sends(action, #[trigger] picsum_request_spec(page)),
        Provider::Unsplash => match unsplash_request_spec(terms, settings.unsplash_key@) {
            Ok(v) => f.stage is Search && sends(action, v),
            Err(e) => f.stage is Finished && (action matches FetchAction::Finish(
                Err(FetchFailure::Refused(e2)),
            ) && e2 == e),
        },
        Provider::Bing => f.stage is Search && exists|idx: u32|
            idx < 8 && sends(action, #[trigger] bing_request_spec(settings.language@, idx)),
        Provider::Pixabay => match pixabay_request_spec(terms, settings.pixabay_key@) {
            Ok(v) => f.stage is Search && sends(action, v),
            Err(e) => f.stage is Finished && (action matches FetchAction::Finish(
                Err(FetchFailure::Refused(e2)),
            ) && e2 == e),
        },
        Provider::Wallhaven => {
            &&& f.stage is Search
            &&& f.key@ == settings.wallhaven_key@
            &&& sends(
                action,
                wallhaven_search_request_spec(terms, settings.wallhaven_key@, target),
            )
        },
    }
}

/// The result of a pick from a list: refused with `e` when the list is empty,
/// else the photo that `photo` makes of one of its elements.
pub open spec fn picked<T>(
    res: Result<Photo, FetchFailure>,
    list: Seq<T>,
    e: FetchError,
    photo: spec_fn(T) -> PhotoView,
) -> bool {
    match res {
        Ok(p) => list.len() > 0 && exists|i: int| 0 <= i < list.len() && p@ == photo(list[i]),
        Err(FetchFailure::Refused(e2)) => list.len() == 0 && e2 == e,
        Err(FetchFailure::Failed(_)) => false,
    }
}

/// What an answer does to a fetch that expected it.
pub open spec fn answer_spec(
    f: PhotoFetch,
    a: Answer,
    after: PhotoFetch,
    action: FetchAction,
) -> bool {
    let target = f.target;
    &&& after.provider == f.provider
    &&& after.target == target
    &&& after.key == f.key
    &&& match (f.stage, a) {
        (Stage::Search, Answer::PicsumList(list)) => after.stage is Finished && (
        action matches FetchAction::Finish(res) && picked(
            res,
            list@,
            FetchError::PicsumEmpty,
            |i: PicsumItem| picsum_photo_spec(i, target),
        )),
        (Stage::Search, Answer::UnsplashPhoto(u)) => after.stage is Finished && (
        action matches FetchAction::Finish(Ok(p)) && p@ == unsplash_photo_spec(u, target)),
        (Stage::Search, Answer::BingImages(images)) => after.stage is Finished && (
        action matches FetchAction::Finish(res) && match res {
            Ok(p) => images@.len() > 0 && p@ == bing_photo_spec(images@[0], target),
            Err(FetchFailure::Refused(e)) => images@.len() == 0 && e == FetchError::BingEmpty,
            Err(FetchFailure::Failed(_)) => false,
        }),
        (Stage::Search, Answer::PixabayHits(hits)) => after.stage is Finished && (
        action matches FetchAction::Finish(res) && picked(
            res,
            hits@,
            FetchError::PixabayEmpty,
            |h: PixabayHit| pixabay_photo_spec(h),
        )),
        (Stage::Search, Answer::WallhavenSearch(items)) => if items@.len() == 0 {
            after.stage is Finished && (action matches FetchAction::Finish(
                Err(FetchFailure::Refused(e)),
            ) && e == FetchError::WallhavenEmpty)
        } else {
            after.stage matches Stage::Detail(item) && items@.contains(item) && sends(
                action,
                wallhaven_detail_request_spec(item.id@, f.key@),
            )
        },
        (Stage::Detail(item), Answer::WallhavenUploader(u)) => after.stage is Finished && (
        action matches FetchAction::Finish(Ok(p)) && p@ == wallhaven_photo_spec(
            item,
            opt_view(u),
        )),
        _ => false,
    }
}

/// Each provider's id followed by `-`, as its photos' ids begin.
proof fn lemma_id_prefixes()
    ensures
        provider_id(Provider::Picsum) + "-"@ == "picsum-"@,
        provider_id(Provider::Unsplash) + "-"@ == "unsplash-"@,
        provider_id(Provider::Bing) + "-"@ == "bing-"@,
        provider_id(Provider::Pixabay) + "-"@ == "pixabay-"@,
        provider_id(Provider::Wallhaven) + "-"@ == "wallhaven-"@,
{
    reveal_strlit("-");
    reveal_strlit("picsum");
    reveal_strlit("picsum-");
    reveal_strlit("unsplash");
    reveal_strlit("unsplash-");
    reveal_strlit("bing");
    reveal_strlit("bing-");
    reveal_strlit("pixabay");
    reveal_strlit("pixabay-");
    reveal_strlit("wallhaven");
    reveal_strlit("wallhaven-");
    assert("picsum"@ + "-"@ =~= "picsum-"@);
    assert("unsplash"@ + "-"@ =~= "unsplash-"@);
    assert("bing"@ + "-"@ =~= "bing-"@);
    assert("pixabay"@ + "-"@ =~= "pixabay-"@);
    assert("wallhaven"@ + "-"@ =~= "wallhaven-"@);
}

/// Every photo a provider's builder makes is labelled with that provider.
pub proof fn lemma_builders_label(
    item: PicsumItem,
    u: UnsplashPhoto,
    img: BingImage,
    hit: PixabayHit,
    wall: WallhavenItem,
    uploader: Option<Seq<char>>,
    target: (u32, u32),
)
    ensures
        labelled(picsum_photo_spec(item, target), Provider::Picsum),
        labelled(unsplash_photo_spec(u, target), Provider::Unsplash),
        labelled(bing_photo_spec(img, target), Provider::Bing),
        labelled(pixabay_photo_spec(hit), Provider::Pixabay),
        labelled(wallhaven_photo_spec(wall, uploader), Provider::Wallhaven),
{
    lemma_id_prefixes();
    assert("picsum-"@.is_prefix_of(picsum_photo_spec(item, target).id));
    assert("unsplash-"@.is_prefix_of(unsplash_photo_spec(u, target).id));
    assert("bing-"@.is_prefix_of(bing_photo_spec(img, target).id));
    assert("pixabay-"@.is_prefix_of(pixabay_photo_spec(hit).id));
    assert("wallhaven-"@.is_prefix_of(wallhaven_photo_spec(wall, uploader).id));
}

fn copy_item(item: &WallhavenItem) -> (r: WallhavenItem)
    ensures
        r == *item,
{
    WallhavenItem { id: item.id.clone(), url: item.url.clone(), path: item.path.clone() }
}

fn refused(r: Result<Photo, FetchError>) -> (out: Result<Photo, FetchFailure>)
    ensures
        match r {
            Ok(p) => out matches Ok(q) && q == p,
            Err(e) => out matches Err(FetchFailure::Refused(e2)) && e2 == e,
        },
{
    match r {
        Ok(p) => Ok(p),
        Err(e) => Err(FetchFailure::Refused(e)),
    }
}

impl PhotoFetch {
    /// Start fetching a photo from `provider` with the given settings.
    pub fn start(provider: Provider, settings: &Settings, target: (u32, u32)) -> (r: (
        PhotoFetch,
        FetchAction,
    ))
        ensures
            start_spec(provider, *settings, target, r.0, r.1),
            consistent(r.0),
    {
        let terms = settings.terms();
        let (key, request) = match provider {
            Provider::Picsum => (String::new(), Ok(picsum_request())),
            Provider::Unsplash => (
                settings.unsplash_key.clone(),
                unsplash_request(&terms, settings.unsplash_key.as_str()),
            ),
            Provider::Bing => (String::new(), Ok(bing_request(settings.language.as_str()))),
            Provider::Pixabay => (
                settings.pixabay_key.clone(),
                pixabay_request(&terms, settings.pixabay_key.as_str()),
            ),
            Provider::Wallhaven => (
                settings.wallhaven_key.clone(),
                Ok(
                    wallhaven_search_request(&terms, settings.wallhaven_key.as_str(), target),
                ),
            ),
        };
        match request {
            Ok(q) => (PhotoFetch { provider, target, key, stage: Stage::Search }, FetchAction::Send(q)),
            Err(e) => (
                PhotoFetch { provider, target, key, stage: Stage::Finished },
                FetchAction::Finish(Err(FetchFailure::Refused(e))),
            ),
        }
    }

    /// The kind of answer to parse the last request's body into; `None` once
    /// the fetch has ended.
    pub fn expected(&self) -> (r: Option<Expected>)
        ensures
            r == expected_spec(*self),
    {
        match &self.stage {
            Stage::Search => Some(
                match self.provider {
                    Provider::Picsum => Expected::PicsumList,
                    Provider::Unsplash => Expected::UnsplashPhoto,
                    Provider::Bing => Expected::BingImages,
                    Provider::Pixabay => Expected::PixabayHits,
                    Provider::Wallhaven => Expected::WallhavenSearch,
                },
            ),
            Stage::Detail(_) => Some(Expected::WallhavenUploader),
            Stage::Finished => None,
        }
    }

    /// Whether only Wallhaven is asked for details.
    pub fn is_consistent(&self) -> (r: bool)
        ensures
            r == consistent(*self),
    {
        match &self.stage {
            Stage::Detail(_) => self.provider == Provider::Wallhaven,
            _ => true,
        }
    }

    /// Whether an answer to the last request fails on an HTTP error status:
    /// the main answer does, Wallhaven's details do not.
    pub fn checks_http_status(&self) -> (r: bool)
        ensures
            r == (self.stage is Search),
    {
        match &self.stage {
            Stage::Search => true,
            _ => false,
        }
    }

    /// Whether `a` is the kind of answer expected next.
    pub fn accepts(&self, a: &Answer) -> (r: bool)
        ensures
            r == (expected_spec(*self) matches Some(e) && fits(*a, e)),
    {
        match self.expected() {
            Some(e) => match a {
                Answer::PicsumList(_) => e == Expected::PicsumList,
                Answer::UnsplashPhoto(_) => e == Expected::UnsplashPhoto,
                Answer::BingImages(_) => e == Expected::BingImages,
                Answer::PixabayHits(_) => e == Expected::PixabayHits,
                Answer::WallhavenSearch(_) => e == Expected::WallhavenSearch,
                Answer::WallhavenUploader(_) => e == Expected::WallhavenUploader,
            },
            None => false,
        }
    }

    /// The HTTP status of the last answer: for the main answer, a status the
    /// provider's rules refuse ends the fetch before the body is read; else
    /// nothing changes and the body is to be read.
    pub fn on_status(&mut self, status: u16) -> (r: Option<FetchAction>)
        ensures
            (old(self).stage is Search && status_error(old(self).provider, status) is Some) ==> {
                &&& r matches Some(FetchAction::Finish(Err(FetchFailure::Refused(e)))) && Some(e)
                    == status_error(old(self).provider, status)
                &&& final(self).stage is Finished
                &&& final(self).provider == old(self).provider
                &&& final(self).target == old(self).target
                &&& final(self).key == old(self).key
            },
            !(old(self).stage is Search && status_error(old(self).provider, status) is Some) ==> r
                is None && *final(self) == *old(self),
            consistent(*old(self)) ==> consistent(*final(self)),
    {
        let searching = match &self.stage {
            Stage::Search => true,
            _ => false,
        };
        if !searching {
            return None;
        }
        let refusal = match self.provider {
            Provider::Unsplash => unsplash_status(status),
            Provider::Pixabay => pixabay_status(status),
            Provider::Wallhaven => wallhaven_status(status),
            _ => None,
        };
        match refusal {
            Some(e) => {
                self.stage = Stage::Finished;
                Some(FetchAction::Finish(Err(FetchFailure::Refused(e))))
            },
            None => None,
        }
    }

    /// The parsed answer to the last request.
    pub fn on_answer(&mut self, a: Answer) -> (r: FetchAction)
        requires
            expected_spec(*old(self)) matches Some(e) && fits(a, e),
            consistent(*old(self)),
        ensures
            answer_spec(*old(self), a, *final(self), r),
            consistent(*final(self)),
            r matches FetchAction::Finish(Ok(p)) ==> labelled(p@, old(self).provider),
    {
        let target = self.target;
        proof {
            lemma_id_prefixes();
        }
        let mut stage = Stage::Finished;
        std::mem::swap(&mut stage, &mut self.stage);
        match stage {
            Stage::Search => match a {
                Answer::PicsumList(list) => {
                    let r = refused(picsum_pick(&list, target));
                    proof {
                        if let Ok(p) = &r {
                            let i = choose|i: int|
                                0 <= i < list@.len() && p@ == picsum_photo_spec(list@[i], target);
                            lemma_builders_label(
                                list@[i],
                                arbitrary(),
                                arbitrary(),
                                arbitrary(),
                                arbitrary(),
                                None,
                                target,
                            );
                        }
                    }
                    FetchAction::Finish(r)
                },
                Answer::UnsplashPhoto(u) => {
                    let p = unsplash_photo(&u, target);
                    proof {
                        lemma_builders_label(
                            arbitrary(),
                            u,
                            arbitrary(),
                            arbitrary(),
                            arbitrary(),
                            None,
                            target,
                        );
                    }
                    FetchAction::Finish(Ok(p))
                },
                Answer::BingImages(images) => {
                    let r = refused(bing_pick(&images, target));
                    proof {
                        if images@.len() > 0 {
                            lemma_builders_label(
                                arbitrary(),
                                arbitrary(),
                                images@[0],
                                arbitrary(),
                                arbitrary(),
                                None,
                                target,
                            );
                        }
                    }
                    FetchAction::Finish(r)
                },
                Answer::PixabayHits(hits) => {
                    let r = refused(pixabay_pick(&hits));
                    proof {
                        if let Ok(p) = &r {
                            let i = choose|i: int|
                                0 <= i < hits@.len() && p@ == pixabay_photo_spec(hits@[i]);
                            lemma_builders_label(
                                arbitrary(),
                                arbitrary(),
                                arbitrary(),
                                hits@[i],
                                arbitrary(),
                                None,
                                target,
                            );
                        }
                    }
                    FetchAction::Finish(r)
                },
                Answer::WallhavenSearch(items) => match wallhaven_pick(&items) {
                    Ok(item) => {
                        let request = wallhaven_detail_request(item.id.as_str(), self.key.as_str());
                        self.stage = Stage::Detail(copy_item(item));
                        FetchAction::Send(request)
                    },
                    Err(e) => FetchAction::Finish(Err(FetchFailure::Refused(e))),
                },
                Answer::WallhavenUploader(_) => FetchAction::Finish(
                    Err(FetchFailure::Refused(FetchError::WallhavenEmpty)),
                ),
            },
            Stage::Detail(item) => match a {
                Answer::WallhavenUploader(u) => {
                    proof {
                        lemma_builders_label(
                            arbitrary(),
                            arbitrary(),
                            arbitrary(),
                            arbitrary(),
                            item,
                            opt_view(u),
                            target,
                        );
                    }
                    FetchAction::Finish(Ok(wallhaven_photo(&item, u)))
                },
                _ => FetchAction::Finish(Err(FetchFailure::Refused(FetchError::WallhavenEmpty))),
            },
            Stage::Finished => FetchAction::Finish(
                Err(FetchFailure::Refused(FetchError::WallhavenEmpty)),
            ),
        }
    }

    /// Sending, the HTTP status or the parsing of the last request failed with
    /// `message`. That ends the fetch, except for Wallhaven's details: without
    /// them the photo is credited to no one.
    pub fn on_failure(&mut self, message: String) -> (r: FetchAction)
        requires
            !(old(self).stage is Finished),
            consistent(*old(self)),
        ensures
            final(self).stage is Finished,
            final(self).provider == old(self).provider,
            final(self).target == old(self).target,
            final(self).key == old(self).key,
            old(self).stage is Search ==> (r matches FetchAction::Finish(
                Err(FetchFailure::Failed(m)),
            ) && m@ == message@),
            old(self).stage matches Stage::Detail(item) ==> (r matches FetchAction::Finish(Ok(p))
                && p@ == wallhaven_photo_spec(item, None)),
            r matches FetchAction::Finish(Ok(p)) ==> labelled(p@, old(self).provider),
    {
        let mut stage = Stage::Finished;
        std::mem::swap(&mut stage, &mut self.stage);
        match stage {
            Stage::Detail(item) => {
                proof {
                    lemma_builders_label(
                        arbitrary(),
                        arbitrary(),
                        arbitrary(),
                        arbitrary(),
                        item,
                        None,
                        self.target,
                    );
                }
                FetchAction::Finish(Ok(wallhaven_photo(&item, None)))
            },
            _ => FetchAction::Finish(Err(FetchFailure::Failed(message))),
        }
    }
}

} // verus!
