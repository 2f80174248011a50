//! The decisions behind the commands the UI invokes: which providers it lists,
//! what it is sent back, when an image enters the history, and how the
//! wallpaper and lock-screen files are named and written.
use vstd::prelude::*;

use base64::Engine;

use crate::history::{
    cache_file_name, ext_for, extension_for, lemma_sanitized_is_safe, sanitize, sanitized,
    HistoryEntry,
};
use crate::imaging::{flip_to_jpeg, flipped_jpeg};
use crate::providers::{
    clone_opt, concat2, lemma_from_id_of_id, pixabay_request_spec, provider_id,
    provider_supports_search, unsplash_request_spec, wallhaven_search_request_spec, FetchError,
    HttpRequestView, Photo, PhotoView, Provider,
};
use crate::text::{
    chars_of, first_of_from, first_of_from_exec, lemma_rfind_below, occurs_at, occurs_at_exec,
    opt_view, push_char, rfind, rfind_exec, str_equal, string_of, trim, trim_range, trim_str,
};

verus! {

// ---------------------------------------------------------------------------
// Providers offered to the UI
// ---------------------------------------------------------------------------

/// What the UI is told of a provider.
pub struct ProviderInfo {
    pub id: &'static str,
    pub label: &'static str,
    pub supports_search: bool,
    pub needs_key: bool,
}

/// The providers in the order the UI offers them.
pub open spec fn listed_providers() -> Seq<Provider> {
    seq![
        Provider::Picsum,
        Provider::Unsplash,
        Provider::Bing,
        Provider::Pixabay,
        Provider::Wallhaven,
    ]
}

/// The name the UI shows for a provider.
pub open spec fn provider_label(p: Provider) -> Seq<char> {
    match p {
        Provider::Picsum => "Lorem Picsum"@,
        Provider::Unsplash => "Unsplash"@,
        Provider::Bing => "Bing"@,
        Provider::Pixabay => "Pixabay"@,
        Provider::Wallhaven => "Wallhaven"@,
    }
}

/// Whether a provider cannot be used without a key of the user's own.
pub open spec fn provider_needs_key(p: Provider) -> bool {
    p == Provider::Unsplash || p == Provider::Pixabay
}

/// `info` describes provider `p`.
pub open spec fn describes(info: ProviderInfo, p: Provider) -> bool {
    &&& info.id@ == provider_id(p)
    &&& info.label@ == provider_label(p)
    &&& info.supports_search == provider_supports_search(p)
    &&& info.needs_key == provider_needs_key(p)
}

fn info_for(p: Provider) -> (r: ProviderInfo)
    ensures
        describes(r, p),
{
    let label = match p {
        Provider::Picsum => "Lorem Picsum",
        Provider::Unsplash => "Unsplash",
        Provider::Bing => "Bing",
        Provider::Pixabay => "Pixabay",
        Provider::Wallhaven => "Wallhaven",
    };
    let needs_key = match p {
        Provider::Unsplash | Provider::Pixabay => true,
        _ => false,
    };
    ProviderInfo { id: p.id(), label, supports_search: p.supports_search(), needs_key }
}

/// The providers the UI offers, each with its id, label and capabilities.
pub fn list_providers() -> (r: Vec<ProviderInfo>)
    ensures
        r@.len() == listed_providers().len(),
        forall|i: int| 0 <= i < r@.len() ==> describes(#[trigger] r@[i], listed_providers()[i]),
{
    let mut r: Vec<ProviderInfo> = Vec::new();
    r.push(info_for(Provider::Picsum));
    r.push(info_for(Provider::Unsplash));
    r.push(info_for(Provider::Bing));
    r.push(info_for(Provider::Pixabay));
    r.push(info_for(Provider::Wallhaven));
    r
}

/// Each listed id selects the provider it was listed for, and every provider is
/// listed exactly once.
pub proof fn lemma_listed_ids_select_their_provider()
    ensures
        forall|i: int|
            0 <= i < listed_providers().len() ==> crate::providers::provider_from_id(
                provider_id(#[trigger] listed_providers()[i]),
            ) == listed_providers()[i],
        forall|p: Provider| #[trigger] listed_providers().contains(p),
        forall|i: int, j: int|
            0 <= i < j < listed_providers().len() ==> listed_providers()[i]
                != listed_providers()[j],
{
    assert forall|i: int| 0 <= i < listed_providers().len() implies crate::providers::provider_from_id(
        provider_id(#[trigger] listed_providers()[i]),
    ) == listed_providers()[i] by {
        lemma_from_id_of_id(listed_providers()[i]);
    }
    assert forall|p: Provider| #[trigger] listed_providers().contains(p) by {
        match p {
            Provider::Picsum => assert(listed_providers()[0] == p),
            Provider::Unsplash => assert(listed_providers()[1] == p),
            Provider::Bing => assert(listed_providers()[2] == p),
            Provider::Pixabay => assert(listed_providers()[3] == p),
            Provider::Wallhaven => assert(listed_providers()[4] == p),
        }
    }
}

/// A provider that needs a key refuses to build a request without one, and the
/// others build theirs with an empty key.
pub proof fn lemma_needs_key_matches_requests(terms: Seq<Seq<char>>, target: (u32, u32))
    ensures
        unsplash_request_spec(terms, Seq::empty()) == Err::<HttpRequestView, FetchError>(
            FetchError::UnsplashKeyMissing,
        ),
        pixabay_request_spec(terms, Seq::empty()) == Err::<HttpRequestView, FetchError>(
            FetchError::PixabayKeyMissing,
        ),
        wallhaven_search_request_spec(terms, Seq::empty(), target).query.len() >= 5,
        provider_needs_key(Provider::Unsplash) && provider_needs_key(Provider::Pixabay),
        !provider_needs_key(Provider::Wallhaven),
{
    assert(trim(Seq::<char>::empty()) == Seq::<char>::empty());
}

// ---------------------------------------------------------------------------
// Images sent to the UI
// ---------------------------------------------------------------------------

/// The standard Base64 encoding, with padding, of `bytes`.
pub uninterp spec fn base64_standard(bytes: Seq<u8>) -> Seq<char>;

/// `base64::engine::general_purpose::STANDARD.encode`: the standard Base64
/// encoding of the bytes, with padding. It panics only when the encoded length
/// overflows `usize`, which no slice of at most `isize::MAX` bytes reaches.
#[verifier::external_body]
fn base64_encode(bytes: &[u8]) -> (r: String)
    requires
        bytes@.len() <= isize::MAX,
    ensures
        r@ == base64_standard(bytes@),
{
    base64::engine::general_purpose::STANDARD.encode(bytes)
}

/// The `data:` URL of an image of type `mime`.
pub open spec fn data_url_spec(mime: Seq<char>, bytes: Seq<u8>) -> Seq<char> {
    "data:"@ + mime + ";base64,"@ + base64_standard(bytes)
}

/// The Base64 `data:` URL of an image of type `mime`.
pub fn data_url(mime: &str, bytes: &[u8]) -> (r: String)
    requires
        bytes@.len() <= isize::MAX,
    ensures
        r@ == data_url_spec(mime@, bytes@),
{
    let mut r = concat2("data:", mime);
    r.append(";base64,");
    let encoded = base64_encode(bytes);
    r.append(encoded.as_str());
    r
}

/// The image currently shown in the UI — kept so it can be set as wallpaper /
/// saved without re-downloading.
pub struct CurrentImage {
    pub photo: Photo,
    pub bytes: Vec<u8>,
    pub mime: String,
}

/// Mirror the active image left-to-right, keep it as a JPEG, and return its new
/// `data:` URL; when it does not decode or encode the image stays as it was.
pub fn flip_current(cur: &mut CurrentImage) -> (r: Result<String, String>)
    ensures
        r is Ok <==> flipped_jpeg(old(cur).bytes@) is Some,
        r matches Ok(url) ==> {
            &&& flipped_jpeg(old(cur).bytes@) == Some(final(cur).bytes@)
            &&& final(cur).photo == old(cur).photo
            &&& final(cur).mime@ == "image/jpeg"@
            &&& url@ == data_url_spec("image/jpeg"@, final(cur).bytes@)
        },
        r is Err ==> *final(cur) == *old(cur),
{
    match flip_to_jpeg(cur.bytes.as_slice()) {
        Ok(out) => {
            cur.bytes = out;
            cur.mime = String::from_str("image/jpeg");
            Ok(data_url("image/jpeg", cur.bytes.as_slice()))
        },
        Err(e) => Err(e),
    }
}

/// The photo a history entry stands for, as made current again.
pub open spec fn entry_photo(e: HistoryEntry) -> PhotoView {
    PhotoView {
        id: e.id@,
        provider: e.provider@,
        width: 0,
        height: 0,
        photographer: e.photographer@,
        photographer_url: opt_view(e.photographer_url),
        source_url: opt_view(e.source_url),
        image_url: e.image_url@,
        download_trigger: None,
    }
}

/// The photo a history entry stands for.
pub fn photo_from_entry(e: &HistoryEntry) -> (p: Photo)
    ensures
        p@ == entry_photo(*e),
{
    let p = Photo {
        id: e.id.clone(),
        provider: e.provider.clone(),
        width: 0,
        height: 0,
        photographer: e.photographer.clone(),
        photographer_url: clone_opt(&e.photographer_url),
        source_url: clone_opt(&e.source_url),
        image_url: e.image_url.clone(),
        download_trigger: None,
    };
    assert(p@ =~= entry_photo(*e));
    p
}

/// The MIME type of a cached history image with file extension `ext`; `jpeg`
/// when the file has none.
pub open spec fn history_mime_spec(ext: Option<Seq<char>>) -> Seq<char> {
    "image/"@ + match ext {
        Some(x) => x,
        None => "jpeg"@,
    }
}

/// The MIME type of a cached history image from its file extension.
pub fn history_mime(ext: Option<&str>) -> (r: String)
    ensures
        r@ == history_mime_spec(
            match ext {
                Some(x) => Some(x@),
                None => None,
            },
        ),
{
    match ext {
        Some(x) => concat2("image/", x),
        None => concat2("image/", "jpeg"),
    }
}

/// The extension of a file name (without directories), as a path's extension
/// reads: what follows the last `.`, unless that `.` begins the name; none for
/// `..`.
pub open spec fn file_extension_spec(name: Seq<char>) -> Option<Seq<char>> {
    if name == ".."@ {
        None
    } else {
        match rfind(name, "."@) {
            Some(i) => if i > 0 {
                Some(name.skip(i + 1))
            } else {
                None
            },
            None => None,
        }
    }
}

/// The extension of the file name `name`.
pub fn file_extension(name: &str) -> (r: Option<String>)
    ensures
        opt_view(r) == file_extension_spec(name@),
{
    if str_equal(name, "..") {
        return None;
    }
    let v = chars_of(name);
    let n: usize = v.len();
    let dot = chars_of(".");
    match rfind_exec(&v, &dot) {
        Some(i) => {
            proof {
                reveal_strlit(".");
                lemma_rfind_below(v@, dot@, v@.len() - dot@.len() + 1);
                assert(dot@.len() == 1);
                assert(occurs_at(v@, dot@, i as int));
            }
            if i > 0 {
                Some(string_of(&v, i + 1, n))
            } else {
                None
            }
        },
        None => None,
    }
}

/// An image cached under the extension its type gives is read back with that
/// type again, for PNG, WebP, GIF and AVIF.
pub proof fn lemma_history_mime_round_trip(mime: Seq<char>)
    requires
        mime == "image/png"@ || mime == "image/webp"@ || mime == "image/gif"@ || mime
            == "image/avif"@,
    ensures
        history_mime_spec(Some(extension_for(mime))) == mime,
{
    reveal_strlit("image/");
    reveal_strlit("image/png");
    reveal_strlit("image/webp");
    reveal_strlit("image/gif");
    reveal_strlit("image/avif");
    reveal_strlit("png");
    reveal_strlit("webp");
    reveal_strlit("gif");
    reveal_strlit("avif");
    assert("image/"@ + "png"@ =~= "image/png"@);
    assert("image/"@ + "webp"@ =~= "image/webp"@);
    assert("image/"@ + "gif"@ =~= "image/gif"@);
    assert("image/"@ + "avif"@ =~= "image/avif"@);
}

/// The MIME type of a download from its `Content-Type` header: the part before
/// any `;`, trimmed, when it is an image type; else `image/jpeg`.
pub open spec fn content_mime_spec(content_type: Option<Seq<char>>) -> Seq<char> {
    match content_type {
        Some(s) => {
            let t = trim(s.take(first_of_from(s, ';', ';', 0)));
            if "image/"@.is_prefix_of(t) {
                t
            } else {
                "image/jpeg"@
            }
        },
        None => "image/jpeg"@,
    }
}

/// The MIME type of a download from its `Content-Type` header.
pub fn content_mime(content_type: Option<&str>) -> (r: String)
    ensures
        r@ == content_mime_spec(
            match content_type {
                Some(s) => Some(s@),
                None => None,
            },
        ),
{
    match content_type {
        Some(s) => {
            let v = chars_of(s);
            let k = first_of_from_exec(&v, ';', ';', 0);
            let (a, b) = trim_range(&v, 0, k);
            assert(v@.subrange(0, k as int) =~= v@.take(k as int));
            let t = string_of(&v, a, b);
            let tv = chars_of(t.as_str());
            let p = chars_of("image/");
            if occurs_at_exec(&tv, &p, 0) {
                assert("image/"@.is_prefix_of(t@));
                t
            } else {
                assert(!"image/"@.is_prefix_of(t@)) by {
                    if "image/"@.is_prefix_of(t@) {
                        assert(t@.subrange(0, p@.len() as int) =~= p@);
                    }
                }
                String::from_str("image/jpeg")
            }
        },
        None => String::from_str("image/jpeg"),
    }
}

/// The size images are fetched at: the primary monitor's when it has one of
/// positive width and height, else 2560×1440.
pub open spec fn target_resolution_spec(monitor: Option<(u32, u32)>) -> (u32, u32) {
    match monitor {
        Some(size) => if size.0 > 0 && size.1 > 0 {
            size
        } else {
            (2560, 1440)
        },
        None => (2560, 1440),
    }
}

/// The size images are fetched at, from the primary monitor's size if known.
pub fn target_resolution(monitor: Option<(u32, u32)>) -> (r: (u32, u32))
    ensures
        r == target_resolution_spec(monitor),
{
    match monitor {
        Some((w, h)) => if w > 0 && h > 0 {
            (w, h)
        } else {
            (2560, 1440)
        },
        None => (2560, 1440),
    }
}

/// The header that goes with the Unsplash download ping: only for Unsplash and
/// only with a key.
pub open spec fn download_trigger_auth_spec(provider: Provider, key: Seq<char>) -> Option<
    Seq<char>,
> {
    if provider == Provider::Unsplash && trim(key).len() > 0 {
        Some("Client-ID "@ + trim(key))
    } else {
        None
    }
}

/// The `Authorization` header for the download ping, if one is sent.
pub fn download_trigger_auth(provider: Provider, key: &str) -> (r: Option<String>)
    ensures
        opt_view(r) == download_trigger_auth_spec(provider, key@),
{
    let k = trim_str(key);
    if provider == Provider::Unsplash && !k.as_str().is_empty() {
        Some(concat2("Client-ID ", k.as_str()))
    } else {
        None
    }
}

// ---------------------------------------------------------------------------
// History mode
// ---------------------------------------------------------------------------

/// Whether every image shown enters the history.
pub fn adds_when_loaded(history_mode: &str) -> (r: bool)
    ensures
        r == (history_mode@ == "loaded"@),
{
    str_equal(history_mode, "loaded")
}

/// Whether an image enters the history when it is set as wallpaper or lock screen.
pub fn adds_when_applied(history_mode: &str) -> (r: bool)
    ensures
        r == (history_mode@ == "applied"@),
{
    str_equal(history_mode, "applied")
}

/// An image never enters the history both when shown and when applied.
pub proof fn lemma_history_modes_exclusive(history_mode: Seq<char>)
    ensures
        !(history_mode == "loaded"@ && history_mode == "applied"@),
{
    reveal_strlit("loaded");
    reveal_strlit("applied");
    assert("loaded"@.len() != "applied"@.len());
}

// ---------------------------------------------------------------------------
// Wallpaper
// ---------------------------------------------------------------------------

/// The cache file the wallpaper is written to: fresh per image so that the OS
/// does not reuse a cached wallpaper.
pub open spec fn wallpaper_file_name_spec(id: Seq<char>, mime: Seq<char>) -> Seq<char> {
    "wp-"@ + sanitized(id) + "."@ + extension_for(mime)
}

/// The cache file name for the wallpaper made of an image.
pub fn wallpaper_file_name(id: &str, mime: &str) -> (r: String)
    ensures
        r@ == wallpaper_file_name_spec(id@, mime@),
{
    let mut r = String::from_str("wp-");
    let s = sanitize(id);
    r.append(s.as_str());
    r.append(".");
    r.append(ext_for(mime));
    r
}

/// Whether a file in the cache directory is an earlier wallpaper, to be deleted.
pub open spec fn is_stale_wallpaper_spec(name: Seq<char>, current: Seq<char>) -> bool {
    "wp-"@.is_prefix_of(name) && name != current
}

/// Whether a cache file is an earlier wallpaper than `current`.
pub fn is_stale_wallpaper(name: &str, current: &str) -> (r: bool)
    ensures
        r == is_stale_wallpaper_spec(name@, current@),
{
    let v = chars_of(name);
    let p = chars_of("wp-");
    let starts = occurs_at_exec(&v, &p, 0);
    proof {
        if "wp-"@.is_prefix_of(name@) {
            assert(v@.subrange(0, p@.len() as int) =~= p@);
        }
        if starts {
            assert("wp-"@.is_prefix_of(name@));
        }
    }
    starts && !str_equal(name, current)
}

/// The current wallpaper file is never taken for a stale one.
pub proof fn lemma_current_wallpaper_kept(id: Seq<char>, mime: Seq<char>)
    ensures
        !is_stale_wallpaper_spec(
            wallpaper_file_name_spec(id, mime),
            wallpaper_file_name_spec(id, mime),
        ),
{
}

// ---------------------------------------------------------------------------
// Lock screen
// ---------------------------------------------------------------------------

/// `s` with every backslash doubled, as a `.reg` file writes it.
pub open spec fn escape_backslashes(s: Seq<char>) -> Seq<char>
    decreases s.len(),
{
    if s.len() == 0 {
        Seq::empty()
    } else if s.last() == '\\' {
        escape_backslashes(s.drop_last()) + seq!['\\', '\\']
    } else {
        escape_backslashes(s.drop_last()).push(s.last())
    }
}

/// The `.reg` file that points the PersonalizationCSP lock-screen keys at `img`.
pub open spec fn lockscreen_reg_spec(img: Seq<char>) -> Seq<char> {
    let e = escape_backslashes(img);
    "Windows Registry Editor Version 5.00\r\n\r\n[HKEY_LOCAL_MACHINE\\SOFTWARE\\Microsoft\\Windows\\CurrentVersion\\PersonalizationCSP]\r\n\"LockScreenImagePath\"=\""@
        + e + "\"\r\n\"LockScreenImageUrl\"=\""@ + e
        + "\"\r\n\"LockScreenImageStatus\"=dword:00000001\r\n"@
}

/// The `.reg` file that sets the lock-screen image to `img`.
pub fn lockscreen_reg(img: &str) -> (r: String)
    ensures
        r@ == lockscreen_reg_spec(img@),
{
    let v = chars_of(img);
    let mut e = String::new();
    let mut i: usize = 0;
    while i < v.len()
        invariant
            i <= v.len(),
            v@ == img@,
            e@ == escape_backslashes(v@.take(i as int)),
        decreases v.len() - i,
    {
        assert(v@.take(i + 1).drop_last() =~= v@.take(i as int));
        if v[i] == '\\' {
            push_char(&mut e, '\\');
            push_char(&mut e, '\\');
            assert(e@ =~= escape_backslashes(v@.take(i + 1)));
        } else {
            push_char(&mut e, v[i]);
        }
        i = i + 1;
    }
    assert(v@.take(v.len() as int) =~= v@);
    let mut r = String::from_str(
        "Windows Registry Editor Version 5.00\r\n\r\n[HKEY_LOCAL_MACHINE\\SOFTWARE\\Microsoft\\Windows\\CurrentVersion\\PersonalizationCSP]\r\n\"LockScreenImagePath\"=\"",
    );
    r.append(e.as_str());
    r.append("\"\r\n\"LockScreenImageUrl\"=\"");
    r.append(e.as_str());
    r.append("\"\r\n\"LockScreenImageStatus\"=dword:00000001\r\n");
    r
}

/// The PowerShell script that imports the `.reg` file elevated, with one UAC prompt.
pub open spec fn lockscreen_import_script_spec(reg_path: Seq<char>) -> Seq<char> {
    "try { $p = Start-Process reg -Verb RunAs -WindowStyle Hidden -PassThru -Wait -ArgumentList 'import','\""@
        + reg_path + "\"'; exit $p.ExitCode } catch { exit 1223 }"@
}

/// The PowerShell script that imports the `.reg` file elevated.
pub fn lockscreen_import_script(reg_path: &str) -> (r: String)
    ensures
        r@ == lockscreen_import_script_spec(reg_path@),
{
    let mut r = String::from_str(
        "try { $p = Start-Process reg -Verb RunAs -WindowStyle Hidden -PassThru -Wait -ArgumentList 'import','\"",
    );
    r.append(reg_path);
    r.append("\"'; exit $p.ExitCode } catch { exit 1223 }");
    r
}

/// What the exit code of the elevated import means.
pub open spec fn lockscreen_outcome_spec(code: Option<i32>) -> Result<(), Seq<char>> {
    match code {
        Some(0) => Ok(()),
        Some(1223) => Err("the elevation prompt was cancelled"@),
        _ => Err("the registry import failed (Windows Pro/Enterprise required)"@),
    }
}

/// The result of setting the lock screen, from the import's exit code.
pub fn lockscreen_outcome(code: Option<i32>) -> (r: Result<(), &'static str>)
    ensures
        match r {
            Ok(()) => lockscreen_outcome_spec(code) == Ok::<(), Seq<char>>(()),
            Err(m) => lockscreen_outcome_spec(code) == Err::<(), Seq<char>>(m@),
        },
{
    match code {
        Some(0) => Ok(()),
        Some(1223) => Err("the elevation prompt was cancelled"),
        _ => Err("the registry import failed (Windows Pro/Enterprise required)"),
    }
}

/// The PowerShell script that deletes the PersonalizationCSP keys elevated, with
/// one UAC prompt.
pub open spec fn lockscreen_reset_script_spec() -> Seq<char> {
    "try { $p = Start-Process reg -Verb RunAs -WindowStyle Hidden -PassThru -Wait -ArgumentList 'delete','\"HKLM\\SOFTWARE\\Microsoft\\Windows\\CurrentVersion\\PersonalizationCSP\"','/f'; exit $p.ExitCode } catch { exit 1223 }"@
}

/// The PowerShell script that resets the lock screen elevated.
pub fn lockscreen_reset_script() -> (r: &'static str)
    ensures
        r@ == lockscreen_reset_script_spec(),
{
    "try { $p = Start-Process reg -Verb RunAs -WindowStyle Hidden -PassThru -Wait -ArgumentList 'delete','\"HKLM\\SOFTWARE\\Microsoft\\Windows\\CurrentVersion\\PersonalizationCSP\"','/f'; exit $p.ExitCode } catch { exit 1223 }"
}

/// What the exit code of the elevated key deletion means: 1 is a key that was
/// not there, so the lock screen is already reset.
pub open spec fn reset_outcome_spec(code: Option<i32>) -> Result<(), Seq<char>> {
    match code {
        Some(0) | Some(1) => Ok(()),
        Some(1223) => Err("the elevation prompt was cancelled"@),
        _ => Err("could not reset the lock screen"@),
    }
}

/// The result of resetting the lock screen, from the deletion's exit code.
pub fn reset_outcome(code: Option<i32>) -> (r: Result<(), &'static str>)
    ensures
        match r {
            Ok(()) => reset_outcome_spec(code) == Ok::<(), Seq<char>>(()),
            Err(m) => reset_outcome_spec(code) == Err::<(), Seq<char>>(m@),
        },
{
    match code {
        Some(0) | Some(1) => Ok(()),
        Some(1223) => Err("the elevation prompt was cancelled"),
        _ => Err("could not reset the lock screen"),
    }
}

/// A history image cached under a non-empty id is read back, by its file
/// name's extension, with the type it was cached under, for PNG, WebP, GIF and
/// AVIF.
pub proof fn lemma_cached_file_mime(id: Seq<char>, mime: Seq<char>)
    requires
        id.len() > 0,
        mime == "image/png"@ || mime == "image/webp"@ || mime == "image/gif"@ || mime
            == "image/avif"@,
    ensures
        history_mime_spec(file_extension_spec(cache_file_name(id, mime))) == mime,
{
    let name = cache_file_name(id, mime);
    let s = sanitized(id);
    let e = extension_for(mime);
    lemma_sanitized_is_safe(id);
    lemma_history_mime_round_trip(mime);
    reveal_strlit(".");
    reveal_strlit("..");
    reveal_strlit("png");
    reveal_strlit("webp");
    reveal_strlit("gif");
    reveal_strlit("avif");
    reveal_strlit("image/png");
    reveal_strlit("image/webp");
    reveal_strlit("image/gif");
    reveal_strlit("image/avif");
    assert(forall|j: int| 0 <= j < e.len() ==> e[j] != '.');
    assert(name.len() == s.len() + 1 + e.len());
    assert(name != ".."@) by {
        assert(name.len() != ".."@.len());
    }
    assert(occurs_at(name, "."@, s.len() as int)) by {
        assert(name.subrange(s.len() as int, s.len() + 1int) =~= "."@);
    }
    lemma_rfind_below(name, "."@, name.len() - "."@.len() + 1);
    assert forall|j: int| s.len() < j < name.len() implies !occurs_at(name, "."@, j) by {
        assert(name[j] == e[j - s.len() - 1]);
        if occurs_at(name, "."@, j) {
            assert(name.subrange(j, j + 1)[0] == name[j]);
        }
    }
    assert(rfind(name, "."@) == Some(s.len() as int));
    assert(name.skip(s.len() + 1int) =~= e);
}

} // verus!
