//! The history of images: its index entries, newest first, without two entries
//! of one id, cut to a maximum length, oldest out first.
use vstd::prelude::*;

use crate::providers::{clone_opt, Photo, PhotoView};
use crate::text::{chars_of, opt_view, push_char, str_equal, views};

verus! {

#[derive(Clone, Debug)]
pub struct HistoryEntry {
    pub id: String,
    pub provider: String,
    pub photographer: String,
    pub photographer_url: Option<String>,
    pub source_url: Option<String>,
    pub image_url: String,
    /// File name within the history directory.
    pub file: String,
    /// RFC 3339 timestamp of when the image was added.
    pub saved_at: String,
}

/// A `HistoryEntry` with its strings taken as character sequences.
#[verifier::ext_equal]
pub ghost struct HistoryEntryView {
    pub id: Seq<char>,
    pub provider: Seq<char>,
    pub photographer: Seq<char>,
    pub photographer_url: Option<Seq<char>>,
    pub source_url: Option<Seq<char>>,
    pub image_url: Seq<char>,
    pub file: Seq<char>,
    pub saved_at: Seq<char>,
}

impl View for HistoryEntry {
    type V = HistoryEntryView;

    open spec fn view(&self) -> HistoryEntryView {
        HistoryEntryView {
            id: self.id@,
            provider: self.provider@,
            photographer: self.photographer@,
            photographer_url: opt_view(self.photographer_url),
            source_url: opt_view(self.source_url),
            image_url: self.image_url@,
            file: self.file@,
            saved_at: self.saved_at@,
        }
    }
}

/// A copy of an entry.
pub fn copy_entry(e: &HistoryEntry) -> (r: HistoryEntry)
    ensures
        r@ == e@,
{
    HistoryEntry {
        id: e.id.clone(),
        provider: e.provider.clone(),
        photographer: e.photographer.clone(),
        photographer_url: clone_opt(&e.photographer_url),
        source_url: clone_opt(&e.source_url),
        image_url: e.image_url.clone(),
        file: e.file.clone(),
        saved_at: e.saved_at.clone(),
    }
}

/// The views of a list of entries.
pub open spec fn entries_view(v: Seq<HistoryEntry>) -> Seq<HistoryEntryView> {
    v.map_values(|e: HistoryEntry| e@)
}

// ---------------------------------------------------------------------------
// File names
// ---------------------------------------------------------------------------

/// An ASCII letter or digit.
pub open spec fn is_ascii_alphanumeric(c: char) -> bool {
    ('0' <= c && c <= '9') || ('a' <= c && c <= 'z') || ('A' <= c && c <= 'Z')
}

/// The character that stands for `c` in a file name: itself when it is an ASCII
/// letter or digit, `-` or `_`, else `_`.
pub open spec fn sanitize_char(c: char) -> char {
    if is_ascii_alphanumeric(c) || c == '-' || c == '_' {
        c
    } else {
        '_'
    }
}

/// `id` with every character replaced by the one that stands for it in a file name.
pub open spec fn sanitized(id: Seq<char>) -> Seq<char> {
    id.map_values(|c: char| sanitize_char(c))
}

/// The file extension for an image MIME type; `jpg` for any type not listed.
pub open spec fn extension_for(mime: Seq<char>) -> Seq<char> {
    if mime == "image/png"@ {
        "png"@
    } else if mime == "image/webp"@ {
        "webp"@
    } else if mime == "image/gif"@ {
        "gif"@
    } else if mime == "image/avif"@ {
        "avif"@
    } else {
        "jpg"@
    }
}

/// The file name under which an image of id `id` and type `mime` is cached.
pub open spec fn cache_file_name(id: Seq<char>, mime: Seq<char>) -> Seq<char> {
    sanitized(id) + "."@ + extension_for(mime)
}

/// A sanitized id has the id's length, only ASCII letters, digits, `-` and `_`,
/// and sanitizing it again changes nothing; each of those characters of the id
/// stays where it was, and every other character becomes `_`.
pub proof fn lemma_sanitized_is_safe(id: Seq<char>)
    ensures
        sanitized(id).len() == id.len(),
        forall|i: int|
            0 <= i < id.len() ==> {
                let c = #[trigger] sanitized(id)[i];
                is_ascii_alphanumeric(c) || c == '-' || c == '_'
            },
        sanitized(sanitized(id)) == sanitized(id),
        forall|i: int|
            0 <= i < id.len() ==> {
                let c = id[i];
                &&& (is_ascii_alphanumeric(c) || c == '-' || c == '_') ==> #[trigger] sanitized(id)[i]
                    == c
                &&& !(is_ascii_alphanumeric(c) || c == '-' || c == '_') ==> sanitized(id)[i] == '_'
            },
{
    assert(sanitized(sanitized(id)) =~= sanitized(id));
}

/// An id made safe to use as a file name.
pub fn sanitize(id: &str) -> (r: String)
    ensures
        r@ == sanitized(id@),
{
    let v = chars_of(id);
    let mut r = String::new();
    let mut i: usize = 0;
    while i < v.len()
        invariant
            i <= v.len(),
            v@ == id@,
            r@ == sanitized(v@.take(i as int)),
        decreases v.len() - i,
    {
        let c = v[i];
        let keep = ('0' <= c && c <= '9') || ('a' <= c && c <= 'z') || ('A' <= c && c <= 'Z') || c
            == '-' || c == '_';
        if keep {
            push_char(&mut r, c);
        } else {
            push_char(&mut r, '_');
        }
        assert(sanitized(v@.take(i + 1)) =~= sanitized(v@.take(i as int)).push(sanitize_char(c)));
        i = i + 1;
    }
    assert(v@.take(v.len() as int) =~= v@);
    r
}

/// The file extension for an image MIME type.
pub fn ext_for(mime: &str) -> (r: &'static str)
    ensures
        r@ == extension_for(mime@),
{
    if str_equal(mime, "image/png") {
        "png"
    } else if str_equal(mime, "image/webp") {
        "webp"
    } else if str_equal(mime, "image/gif") {
        "gif"
    } else if str_equal(mime, "image/avif") {
        "avif"
    } else {
        "jpg"
    }
}

/// The file name under which an image of id `id` and type `mime` is cached.
pub fn file_name(id: &str, mime: &str) -> (r: String)
    ensures
        r@ == cache_file_name(id@, mime@),
{
    let mut r = sanitize(id);
    r.append(".");
    r.append(ext_for(mime));
    r
}

// ---------------------------------------------------------------------------
// Lookup
// ---------------------------------------------------------------------------

/// Some entry has id `id`.
pub open spec fn has_id(entries: Seq<HistoryEntryView>, id: Seq<char>) -> bool {
    exists|i: int| 0 <= i < entries.len() && entries[i].id == id
}

/// No two entries share an id.
pub open spec fn unique_ids(entries: Seq<HistoryEntryView>) -> bool {
    forall|i: int, j: int|
        0 <= i < entries.len() && 0 <= j < entries.len() && i != j ==> entries[i].id
            != entries[j].id
}

/// `i` is the index of the first entry with id `id`.
pub open spec fn is_first_with_id(entries: Seq<HistoryEntryView>, id: Seq<char>, i: int) -> bool {
    &&& 0 <= i < entries.len()
    &&& entries[i].id == id
    &&& forall|j: int| 0 <= j < i ==> entries[j].id != id
}

/// The index of the first entry with id `id`, if any.
pub fn find_entry(entries: &Vec<HistoryEntry>, id: &str) -> (r: Option<usize>)
    ensures
        r is None <==> !has_id(entries_view(entries@), id@),
        r matches Some(i) ==> is_first_with_id(entries_view(entries@), id@, i as int),
{
    let mut i: usize = 0;
    while i < entries.len()
        invariant
            i <= entries.len(),
            forall|j: int| 0 <= j < i ==> entries_view(entries@)[j].id != id@,
        decreases entries.len() - i,
    {
        if str_equal(entries[i].id.as_str(), id) {
            assert(entries_view(entries@)[i as int].id == id@);
            return Some(i);
        }
        i = i + 1;
    }
    None
}

/// The cached file name, within the history directory, of the image with id `id`.
pub fn file_path(entries: &Vec<HistoryEntry>, id: &str) -> (r: Option<String>)
    ensures
        r is None <==> !has_id(entries_view(entries@), id@),
        r matches Some(f) ==> exists|i: int|
            is_first_with_id(entries_view(entries@), id@, i) && f@ == entries@[i].file@,
{
    match find_entry(entries, id) {
        Some(i) => {
            let f = entries[i].file.clone();
            assert(is_first_with_id(entries_view(entries@), id@, i as int));
            Some(f)
        },
        None => None,
    }
}

// ---------------------------------------------------------------------------
// Adding
// ---------------------------------------------------------------------------

/// The entry recorded for `photo`, cached as `file` at time `saved_at`.
pub open spec fn new_entry(photo: PhotoView, file: Seq<char>, saved_at: Seq<char>) -> HistoryEntryView {
    HistoryEntryView {
        id: photo.id,
        provider: photo.provider,
        photographer: photo.photographer,
        photographer_url: photo.photographer_url,
        source_url: photo.source_url,
        image_url: photo.image_url,
        file,
        saved_at,
    }
}

/// The files of a list of entries.
pub open spec fn files_of(entries: Seq<HistoryEntryView>) -> Seq<Seq<char>> {
    entries.map_values(|e: HistoryEntryView| e.file)
}

/// What adding `photo` does to the history `entries` when at most `max` entries are
/// kept: nothing (`None`) when an entry of that id is there or `max` is zero; else
/// the new entries (the new one first), the new file's name, and the files of the
/// entries that no longer fit, oldest last.
pub open spec fn add_spec(
    entries: Seq<HistoryEntryView>,
    photo: PhotoView,
    mime: Seq<char>,
    max: nat,
    saved_at: Seq<char>,
) -> Option<(Seq<HistoryEntryView>, Seq<char>, Seq<Seq<char>>)> {
    if has_id(entries, photo.id) || max == 0 {
        None
    } else {
        let file = cache_file_name(photo.id, mime);
        let all = seq![new_entry(photo, file, saved_at)] + entries;
        if all.len() > max {
            Some((all.take(max as int), file, files_of(all.skip(max as int))))
        } else {
            Some((all, file, Seq::empty()))
        }
    }
}

/// The result of adding an image to the history.
pub enum AddOutcome {
    /// The image is there already, or the history is disabled.
    Unchanged,
    /// The image was added: the entries to store, the file to write the image
    /// to, and the files of the entries that were dropped, to be deleted.
    Added { entries: Vec<HistoryEntry>, file: String, stale: Vec<String> },
}

/// The view of an `AddOutcome`.
pub open spec fn outcome_view(o: AddOutcome) -> Option<(Seq<HistoryEntryView>, Seq<char>, Seq<Seq<char>>)> {
    match o {
        AddOutcome::Unchanged => None,
        AddOutcome::Added { entries, file, stale } => Some((entries_view(entries@), file@, views(stale@))),
    }
}

/// Add an image to the history at time `saved_at`, then prune to `max` entries
/// (FIFO). `max == 0` disables the history entirely.
pub fn add_at(
    entries: Vec<HistoryEntry>,
    photo: &Photo,
    mime: &str,
    max: usize,
    saved_at: String,
) -> (r: AddOutcome)
    ensures
        outcome_view(r) == add_spec(entries_view(entries@), photo@, mime@, max as nat, saved_at@),
        r matches AddOutcome::Added { entries: kept, .. } ==> kept@.len() > 0 && kept@[0].saved_at@
            == saved_at@,
{
    let ghost old_view = entries_view(entries@);
    // Never store an image that is already in the history.
    if find_entry(&entries, photo.id.as_str()).is_some() {
        return AddOutcome::Unchanged;
    }
    if max == 0 {
        return AddOutcome::Unchanged;
    }
    let file = file_name(photo.id.as_str(), mime);
    let entry = HistoryEntry {
        id: photo.id.clone(),
        provider: photo.provider.clone(),
        photographer: photo.photographer.clone(),
        photographer_url: clone_opt(&photo.photographer_url),
        source_url: clone_opt(&photo.source_url),
        image_url: photo.image_url.clone(),
        file: file.clone(),
        saved_at,
    };
    let ghost new_view = entry@;
    let mut all = entries;
    all.insert(0, entry);
    let ghost all_view = seq![new_view] + old_view;
    assert(entries_view(all@) =~= all_view);
    let mut stale: Vec<String> = Vec::new();
    if all.len() > max {
        let mut j = max;
        while j < all.len()
            invariant
                max <= j <= all.len(),
                entries_view(all@) == all_view,
                views(stale@) == files_of(all_view.subrange(max as int, j as int)),
            decreases all.len() - j,
        {
            stale.push(all[j].file.clone());
            assert(files_of(all_view.subrange(max as int, j + 1)) =~= files_of(
                all_view.subrange(max as int, j as int),
            ).push(all_view[j as int].file));
            assert(views(stale@) =~= views(stale@.drop_last()).push(stale@.last()@));
            j = j + 1;
        }
        all.truncate(max);
        assert(all_view.subrange(max as int, all_view.len() as int) =~= all_view.skip(max as int));
        assert(entries_view(all@) =~= all_view.take(max as int));
    } else {
        assert(views(stale@) =~= Seq::<Seq<char>>::empty());
    }
    AddOutcome::Added { entries: all, file, stale }
}

/// The shape of every UTC timestamp that `to_rfc3339` writes: a date of at least
/// ten characters, `T`, the time of at least eight, and the offset `+00:00` last.
pub open spec fn is_utc_rfc3339(s: Seq<char>) -> bool {
    &&& s.len() >= 25
    &&& s.contains('T')
    &&& s.subrange(s.len() - 6, s.len() as int) == "+00:00"@
}

/// The current UTC time as an RFC 3339 timestamp (`chrono::Utc::now().to_rfc3339()`).
/// Which time it is, and so which digits, is not stated; the offset of UTC is
/// written `+00:00`.
#[verifier::external_body]
fn now_rfc3339() -> (r: String)
    ensures
        is_utc_rfc3339(r@),
{
    chrono::Utc::now().to_rfc3339()
}

/// Add an image to the history now, then prune to `max` entries (FIFO).
/// `max == 0` disables the history entirely.
pub fn add(entries: Vec<HistoryEntry>, photo: &Photo, mime: &str, max: usize) -> (r: AddOutcome)
    ensures
        r matches AddOutcome::Unchanged ==> add_spec(
            entries_view(entries@),
            photo@,
            mime@,
            max as nat,
            Seq::empty(),
        ) is None,
        r matches AddOutcome::Added { entries: kept, .. } ==> kept@.len() > 0 && outcome_view(r)
            == add_spec(entries_view(entries@), photo@, mime@, max as nat, kept@[0].saved_at@)
            && is_utc_rfc3339(kept@[0].saved_at@),
{
    let saved_at = now_rfc3339();
    add_at(entries, photo, mime, max, saved_at)
}

// ---------------------------------------------------------------------------
// Removing
// ---------------------------------------------------------------------------

/// The entries that stay when those with an id in `ids` are deleted, in order.
pub open spec fn kept_after_delete(entries: Seq<HistoryEntryView>, ids: Seq<Seq<char>>) -> Seq<
    HistoryEntryView,
> {
    entries.filter(|e: HistoryEntryView| !ids.contains(e.id))
}

/// The files of the entries with an id in `ids`, in order.
pub open spec fn removed_by_delete(entries: Seq<HistoryEntryView>, ids: Seq<Seq<char>>) -> Seq<
    Seq<char>,
> {
    files_of(entries.filter(|e: HistoryEntryView| ids.contains(e.id)))
}

fn contains_id(ids: &Vec<String>, id: &str) -> (r: bool)
    ensures
        r == views(ids@).contains(id@),
{
    let mut i: usize = 0;
    while i < ids.len()
        invariant
            i <= ids.len(),
            forall|j: int| 0 <= j < i ==> views(ids@)[j] != id@,
        decreases ids.len() - i,
    {
        if str_equal(ids[i].as_str(), id) {
            assert(views(ids@)[i as int] == id@);
            return true;
        }
        i = i + 1;
    }
    false
}

/// Remove the given ids from the history: the entries that stay, and the cached
/// files of those removed, to be deleted.
pub fn delete(entries: Vec<HistoryEntry>, ids: &Vec<String>) -> (r: (Vec<HistoryEntry>, Vec<String>))
    ensures
        entries_view(r.0@) == kept_after_delete(entries_view(entries@), views(ids@)),
        views(r.1@) == removed_by_delete(entries_view(entries@), views(ids@)),
{
    let ghost ev = entries_view(entries@);
    let ghost idv = views(ids@);
    let ghost out_pred = |e: HistoryEntryView| !idv.contains(e.id);
    let ghost in_pred = |e: HistoryEntryView| idv.contains(e.id);
    let mut kept: Vec<HistoryEntry> = Vec::new();
    let mut removed: Vec<String> = Vec::new();
    let mut i: usize = 0;
    while i < entries.len()
        invariant
            i <= entries.len(),
            ev == entries_view(entries@),
            idv == views(ids@),
            out_pred == (|e: HistoryEntryView| !idv.contains(e.id)),
            in_pred == (|e: HistoryEntryView| idv.contains(e.id)),
            entries_view(kept@) == ev.take(i as int).filter(out_pred),
            views(removed@) == files_of(ev.take(i as int).filter(in_pred)),
        decreases entries.len() - i,
    {
        let ghost e = ev[i as int];
        assert(ev.take(i + 1) =~= ev.take(i as int).push(e));
        proof {
            ev.take(i as int).lemma_filter_push(e, out_pred);
            ev.take(i as int).lemma_filter_push(e, in_pred);
        }
        if contains_id(ids, entries[i].id.as_str()) {
            removed.push(entries[i].file.clone());
            assert(views(removed@) =~= views(removed@.drop_last()).push(e.file));
            assert(files_of(ev.take(i as int).filter(in_pred).push(e)) =~= files_of(
                ev.take(i as int).filter(in_pred),
            ).push(e.file));
        } else {
            kept.push(copy_entry(&entries[i]));
            assert(entries_view(kept@) =~= entries_view(kept@.drop_last()).push(e));
        }
        i = i + 1;
    }
    assert(ev.take(entries.len() as int) =~= ev);
    (kept, removed)
}

/// The cached files of every entry, in order: what clearing the history deletes.
pub fn clear(entries: &Vec<HistoryEntry>) -> (r: Vec<String>)
    ensures
        views(r@) == files_of(entries_view(entries@)),
{
    let mut r: Vec<String> = Vec::new();
    let mut i: usize = 0;
    while i < entries.len()
        invariant
            i <= entries.len(),
            views(r@) == files_of(entries_view(entries@).take(i as int)),
        decreases entries.len() - i,
    {
        r.push(entries[i].file.clone());
        assert(entries_view(entries@).take(i + 1) =~= entries_view(entries@).take(i as int).push(
            entries[i as int]@,
        ));
        assert(views(r@) =~= views(r@.drop_last()).push(entries[i as int].file@));
        assert(files_of(entries_view(entries@).take(i as int).push(entries[i as int]@)) =~= files_of(
            entries_view(entries@).take(i as int),
        ).push(entries[i as int].file@));
        assert(views(r@) =~= files_of(entries_view(entries@).take(i + 1)));
        i = i + 1;
    }
    assert(entries_view(entries@).take(entries.len() as int) =~= entries_view(entries@));
    r
}

// ---------------------------------------------------------------------------
// Laws
// ---------------------------------------------------------------------------

/// Adding keeps the history free of two entries with one id.
pub proof fn lemma_add_keeps_ids_unique(
    entries: Seq<HistoryEntryView>,
    photo: PhotoView,
    mime: Seq<char>,
    max: nat,
    saved_at: Seq<char>,
)
    requires
        unique_ids(entries),
    ensures
        add_spec(entries, photo, mime, max, saved_at) matches Some(r) ==> unique_ids(r.0),
{
    if let Some(r) = add_spec(entries, photo, mime, max, saved_at) {
        let file = cache_file_name(photo.id, mime);
        let all = seq![new_entry(photo, file, saved_at)] + entries;
        assert(unique_ids(all)) by {
            assert forall|i: int, j: int|
                0 <= i < all.len() && 0 <= j < all.len() && i != j implies all[i].id
                != all[j].id by {
                if i == 0 {
                    assert(all[j] == entries[j - 1]);
                } else if j == 0 {
                    assert(all[i] == entries[i - 1]);
                } else {
                    assert(all[i] == entries[i - 1]);
                    assert(all[j] == entries[j - 1]);
                }
            }
        }
        if all.len() > max {
            assert forall|i: int, j: int|
                0 <= i < r.0.len() && 0 <= j < r.0.len() && i != j implies r.0[i].id
                != r.0[j].id by {
                assert(r.0[i] == all[i]);
                assert(r.0[j] == all[j]);
            }
        }
    }
}

/// An added image is the first entry of the history, recorded under the file
/// name that its id and type give, so the history then has its id.
pub proof fn lemma_add_puts_photo_first(
    entries: Seq<HistoryEntryView>,
    photo: PhotoView,
    mime: Seq<char>,
    max: nat,
    saved_at: Seq<char>,
)
    ensures
        add_spec(entries, photo, mime, max, saved_at) matches Some(r) ==> {
            &&& r.0.len() > 0
            &&& r.0[0] == new_entry(photo, cache_file_name(photo.id, mime), saved_at)
            &&& r.1 == cache_file_name(photo.id, mime)
            &&& has_id(r.0, photo.id)
        },
{
    if let Some(r) = add_spec(entries, photo, mime, max, saved_at) {
        assert(r.0[0].id == photo.id);
    }
}

/// The history never holds more than `max` entries after an addition: it holds
/// one more than before, or `max` when that is fewer.
pub proof fn lemma_add_bounded(
    entries: Seq<HistoryEntryView>,
    photo: PhotoView,
    mime: Seq<char>,
    max: nat,
    saved_at: Seq<char>,
)
    ensures
        add_spec(entries, photo, mime, max, saved_at) matches Some(r) ==> r.0.len() <= max
            && r.0.len() == if entries.len() + 1 <= max {
            entries.len() + 1
        } else {
            max
        },
{
}

/// After the new entry, the history keeps the newest of the old entries in
/// their order; only the oldest go (first in, first out).
pub proof fn lemma_add_drops_oldest(
    entries: Seq<HistoryEntryView>,
    photo: PhotoView,
    mime: Seq<char>,
    max: nat,
    saved_at: Seq<char>,
)
    ensures
        add_spec(entries, photo, mime, max, saved_at) matches Some(r) ==> r.0.drop_first()
            == entries.take(r.0.len() - 1),
{
    if let Some(r) = add_spec(entries, photo, mime, max, saved_at) {
        assert(r.0.drop_first() =~= entries.take(r.0.len() - 1));
    }
}

/// The files of the entries kept and of those dropped are together the new file
/// and the old files: no cached file is lost track of.
pub proof fn lemma_add_accounts_for_files(
    entries: Seq<HistoryEntryView>,
    photo: PhotoView,
    mime: Seq<char>,
    max: nat,
    saved_at: Seq<char>,
)
    ensures
        add_spec(entries, photo, mime, max, saved_at) matches Some(r) ==> files_of(r.0) + r.2
            == seq![r.1] + files_of(entries),
{
    if let Some(r) = add_spec(entries, photo, mime, max, saved_at) {
        let all = seq![new_entry(photo, r.1, saved_at)] + entries;
        if all.len() > max {
            assert(all.take(max as int) + all.skip(max as int) =~= all);
        }
        assert(files_of(all) =~= seq![r.1] + files_of(entries));
        assert(files_of(r.0) + r.2 =~= files_of(all));
    }
}

/// An image already in the history is never stored again, and a history of
/// size zero stores nothing: adding then changes nothing.
pub proof fn lemma_add_present_changes_nothing(
    entries: Seq<HistoryEntryView>,
    photo: PhotoView,
    mime: Seq<char>,
    max: nat,
    saved_at: Seq<char>,
)
    requires
        has_id(entries, photo.id) || max == 0,
    ensures
        add_spec(entries, photo, mime, max, saved_at) is None,
{
}

/// An image whose id is not in the history is always stored when the history
/// size is not zero, whatever else the photo holds: adding is refused only for
/// an id already present or a size of zero.
pub proof fn lemma_add_new_is_stored(
    entries: Seq<HistoryEntryView>,
    photo: PhotoView,
    mime: Seq<char>,
    max: nat,
    saved_at: Seq<char>,
)
    requires
        !has_id(entries, photo.id),
        max > 0,
    ensures
        add_spec(entries, photo, mime, max, saved_at) matches Some(r) && {
            let e = r.0[0];
            &&& r.0.len() > 0
            &&& e.id == photo.id
            &&& e.provider == photo.provider
            &&& e.photographer == photo.photographer
            &&& e.photographer_url == photo.photographer_url
            &&& e.source_url == photo.source_url
            &&& e.image_url == photo.image_url
            &&& e.saved_at == saved_at
            &&& e.file == r.1
            &&& r.1 == sanitized(photo.id) + "."@ + extension_for(mime)
            &&& entries.len() < max ==> r.0 == seq![e] + entries && r.2.len() == 0
        },
{
    if let Some(r) = add_spec(entries, photo, mime, max, saved_at) {
        if entries.len() < max {
            assert(r.0 =~= seq![r.0[0]] + entries);
        }
    }
}

/// Adding an image a second time changes nothing, whatever its type, the
/// history size or the time.
pub proof fn lemma_add_twice(
    entries: Seq<HistoryEntryView>,
    photo: PhotoView,
    mime: Seq<char>,
    max: nat,
    saved_at: Seq<char>,
    mime2: Seq<char>,
    max2: nat,
    saved_at2: Seq<char>,
)
    ensures
        add_spec(entries, photo, mime, max, saved_at) matches Some(r) ==> add_spec(
            r.0,
            photo,
            mime2,
            max2,
            saved_at2,
        ) is None,
{
    lemma_add_puts_photo_first(entries, photo, mime, max, saved_at);
}

/// Deleting keeps exactly the entries whose id is not listed, in their order,
/// and reports the file of each entry it removes.
pub proof fn lemma_delete_removes_listed(entries: Seq<HistoryEntryView>, ids: Seq<Seq<char>>)
    ensures
        forall|i: int|
            0 <= i < kept_after_delete(entries, ids).len() ==> !ids.contains(
                #[trigger] kept_after_delete(entries, ids)[i].id,
            ),
        forall|i: int|
            0 <= i < entries.len() && !ids.contains(entries[i].id) ==> kept_after_delete(
                entries,
                ids,
            ).contains(#[trigger] entries[i]),
        kept_after_delete(entries, ids).len() + removed_by_delete(entries, ids).len()
            == entries.len(),
    decreases entries.len(),
{
    let out_pred = |e: HistoryEntryView| !ids.contains(e.id);
    let in_pred = |e: HistoryEntryView| ids.contains(e.id);
    assert forall|i: int| 0 <= i < kept_after_delete(entries, ids).len() implies !ids.contains(
        #[trigger] kept_after_delete(entries, ids)[i].id,
    ) by {
        entries.lemma_filter_pred(out_pred, i);
    }
    assert forall|i: int|
        0 <= i < entries.len() && !ids.contains(entries[i].id) implies kept_after_delete(
        entries,
        ids,
    ).contains(#[trigger] entries[i]) by {
        entries.lemma_filter_contains(out_pred, i);
    }
    if entries.len() > 0 {
        let init = entries.drop_last();
        lemma_delete_removes_listed(init, ids);
        assert(init.push(entries.last()) =~= entries);
        init.lemma_filter_push(entries.last(), out_pred);
        init.lemma_filter_push(entries.last(), in_pred);
    }
}

/// Deleting keeps the history free of two entries with one id.
pub proof fn lemma_delete_keeps_ids_unique(entries: Seq<HistoryEntryView>, ids: Seq<Seq<char>>)
    requires
        unique_ids(entries),
    ensures
        unique_ids(kept_after_delete(entries, ids)),
    decreases entries.len(),
{
    let out_pred = |e: HistoryEntryView| !ids.contains(e.id);
    if entries.len() > 0 {
        let init = entries.drop_last();
        let x = entries.last();
        assert(unique_ids(init)) by {
            assert forall|i: int, j: int|
                0 <= i < init.len() && 0 <= j < init.len() && i != j implies init[i].id
                != init[j].id by {
                assert(init[i] == entries[i]);
                assert(init[j] == entries[j]);
            }
        }
        lemma_delete_keeps_ids_unique(init, ids);
        assert(init.push(x) =~= entries);
        init.lemma_filter_push(x, out_pred);
        let k = kept_after_delete(init, ids);
        if out_pred(x) {
            assert forall|i: int| 0 <= i < k.len() implies k[i].id != x.id by {
                assert(k.contains(k[i]));
                init.lemma_filter_contains_rev(out_pred, k[i]);
                let j = choose|j: int| 0 <= j < init.len() && init[j] == k[i];
                assert(entries[j] == init[j]);
                assert(entries[entries.len() - 1] == x);
            }
            let k2 = k.push(x);
            assert forall|i: int, j: int|
                0 <= i < k2.len() && 0 <= j < k2.len() && i != j implies k2[i].id
                != k2[j].id by {
                if i == k.len() {
                    assert(k2[j] == k[j]);
                } else if j == k.len() {
                    assert(k2[i] == k[i]);
                } else {
                    assert(k2[i] == k[i]);
                    assert(k2[j] == k[j]);
                }
            }
        }
    } else {
        assert(kept_after_delete(entries, ids) =~= Seq::<HistoryEntryView>::empty());
    }
}

/// After an image is added, deleting its id takes it out of the history again.
pub proof fn lemma_add_then_delete(
    entries: Seq<HistoryEntryView>,
    photo: PhotoView,
    mime: Seq<char>,
    max: nat,
    saved_at: Seq<char>,
)
    ensures
        add_spec(entries, photo, mime, max, saved_at) matches Some(r) ==> !has_id(
            kept_after_delete(r.0, seq![photo.id]),
            photo.id,
        ),
{
    if let Some(r) = add_spec(entries, photo, mime, max, saved_at) {
        lemma_delete_removes_listed(r.0, seq![photo.id]);
        let k = kept_after_delete(r.0, seq![photo.id]);
        assert forall|i: int| 0 <= i < k.len() implies k[i].id != photo.id by {
            assert(!seq![photo.id].contains(k[i].id));
            if k[i].id == photo.id {
                assert(seq![photo.id][0] == photo.id);
            }
        }
    }
}

// ---------------------------------------------------------------------------
// Order across changes
// ---------------------------------------------------------------------------

/// An entry of id `newer` stands before an entry of id `older`.
pub open spec fn comes_before(entries: Seq<HistoryEntryView>, newer: Seq<char>, older: Seq<char>) -> bool {
    exists|i: int, j: int|
        0 <= i < j < entries.len() && #[trigger] entries[i].id == newer && #[trigger] entries[j].id
            == older
}

/// One change made to the history index.
pub ghost enum HistoryChange {
    /// `add` of a photo of type `mime`, keeping at most `max` entries, at `saved_at`.
    Add { photo: PhotoView, mime: Seq<char>, max: nat, saved_at: Seq<char> },
    /// `delete` of the entries with the listed ids.
    Delete { ids: Seq<Seq<char>> },
}

/// The history after one change.
pub open spec fn apply_change(entries: Seq<HistoryEntryView>, c: HistoryChange) -> Seq<
    HistoryEntryView,
> {
    match c {
        HistoryChange::Add { photo, mime, max, saved_at } => match add_spec(
            entries,
            photo,
            mime,
            max,
            saved_at,
        ) {
            Some(r) => r.0,
            None => entries,
        },
        HistoryChange::Delete { ids } => kept_after_delete(entries, ids),
    }
}

/// The history after a series of changes, first to last.
pub open spec fn apply_changes(entries: Seq<HistoryEntryView>, cs: Seq<HistoryChange>) -> Seq<
    HistoryEntryView,
>
    decreases cs.len(),
{
    if cs.len() == 0 {
        entries
    } else {
        apply_change(apply_changes(entries, cs.drop_last()), cs.last())
    }
}

/// Filtering keeps two kept elements in their order.
proof fn lemma_filter_keeps_order(
    s: Seq<HistoryEntryView>,
    pred: spec_fn(HistoryEntryView) -> bool,
    i: int,
    j: int,
)
    requires
        0 <= i < j < s.len(),
        pred(s[i]),
        pred(s[j]),
    ensures
        exists|a: int, b: int|
            0 <= a < b < s.filter(pred).len() && s.filter(pred)[a] == s[i] && s.filter(pred)[b]
                == s[j],
    decreases s.len(),
{
    let t = s.drop_last();
    assert(t.push(s.last()) =~= s);
    t.lemma_filter_push(s.last(), pred);
    if j < s.len() - 1 {
        lemma_filter_keeps_order(t, pred, i, j);
        let (a, b) = choose|a: int, b: int|
            0 <= a < b < t.filter(pred).len() && t.filter(pred)[a] == t[i] && t.filter(pred)[b]
                == t[j];
        assert(s.filter(pred)[a] == s[i] && s.filter(pred)[b] == s[j]);
    } else {
        t.lemma_filter_contains(pred, i);
        let a = choose|a: int| 0 <= a < t.filter(pred).len() && t.filter(pred)[a] == t[i];
        let b = t.filter(pred).len() as int;
        assert(s.filter(pred)[a] == s[i] && s.filter(pred)[b] == s[j]);
    }
}

/// Any change keeps the history free of two entries with one id.
pub proof fn lemma_change_keeps_ids_unique(entries: Seq<HistoryEntryView>, c: HistoryChange)
    requires
        unique_ids(entries),
    ensures
        unique_ids(apply_change(entries, c)),
{
    match c {
        HistoryChange::Add { photo, mime, max, saved_at } => {
            lemma_add_keeps_ids_unique(entries, photo, mime, max, saved_at);
        },
        HistoryChange::Delete { ids } => {
            lemma_delete_keeps_ids_unique(entries, ids);
        },
    }
}

/// Any series of changes keeps the history free of two entries with one id.
pub proof fn lemma_changes_keep_ids_unique(entries: Seq<HistoryEntryView>, cs: Seq<HistoryChange>)
    requires
        unique_ids(entries),
    ensures
        unique_ids(apply_changes(entries, cs)),
    decreases cs.len(),
{
    if cs.len() > 0 {
        lemma_changes_keep_ids_unique(entries, cs.drop_last());
        lemma_change_keeps_ids_unique(apply_changes(entries, cs.drop_last()), cs.last());
    }
}

/// A change keeps two entries that both stay in their order.
pub proof fn lemma_change_keeps_order(
    entries: Seq<HistoryEntryView>,
    c: HistoryChange,
    newer: Seq<char>,
    older: Seq<char>,
)
    requires
        unique_ids(entries),
        comes_before(entries, newer, older),
        has_id(apply_change(entries, c), newer),
        has_id(apply_change(entries, c), older),
    ensures
        comes_before(apply_change(entries, c), newer, older),
{
    let (i, j) = choose|i: int, j: int|
        0 <= i < j < entries.len() && #[trigger] entries[i].id == newer && #[trigger] entries[j].id
            == older;
    match c {
        HistoryChange::Add { photo, mime, max, saved_at } => {
            if let Some(r) = add_spec(entries, photo, mime, max, saved_at) {
                let all = seq![new_entry(photo, r.1, saved_at)] + entries;
                let after = r.0;
                assert(forall|k: int| 0 <= k < after.len() ==> after[k] == all[k]);
                let j2 = choose|k: int| 0 <= k < after.len() && after[k].id == older;
                assert(older != photo.id);
                assert(j2 != 0);
                assert(all[j2] == entries[j2 - 1]);
                assert(j2 - 1 == j);
                assert(after[i + 1] == entries[i]);
                assert(after[j + 1] == entries[j]);
                assert(after[i + 1].id == newer && after[j + 1].id == older);
            }
        },
        HistoryChange::Delete { ids } => {
            let pred = |e: HistoryEntryView| !ids.contains(e.id);
            let after = kept_after_delete(entries, ids);
            let a = choose|k: int| 0 <= k < after.len() && after[k].id == newer;
            let b = choose|k: int| 0 <= k < after.len() && after[k].id == older;
            entries.lemma_filter_pred(pred, a);
            entries.lemma_filter_pred(pred, b);
            assert(!ids.contains(newer) && !ids.contains(older));
            lemma_filter_keeps_order(entries, pred, i, j);
            let (x, y) = choose|x: int, y: int|
                0 <= x < y < after.len() && after[x] == entries[i] && after[y] == entries[j];
            assert(after[x].id == newer && after[y].id == older);
        },
    }
}

/// Applying the first `k + 1` changes is applying change `k` after the first `k`.
proof fn lemma_apply_step(entries: Seq<HistoryEntryView>, cs: Seq<HistoryChange>, k: int)
    requires
        0 <= k < cs.len(),
    ensures
        apply_changes(entries, cs.take(k + 1)) == apply_change(
            apply_changes(entries, cs.take(k)),
            cs[k],
        ),
{
    assert(cs.take(k + 1).drop_last() =~= cs.take(k));
}

proof fn lemma_newest_first_upto(
    start: Seq<HistoryEntryView>,
    cs: Seq<HistoryChange>,
    m: int,
    older: Seq<char>,
    k: int,
)
    requires
        unique_ids(start),
        0 <= m < k <= cs.len(),
        cs[m] is Add,
        add_spec(
            apply_changes(start, cs.take(m)),
            cs[m]->photo,
            cs[m]->mime,
            cs[m]->max,
            cs[m]->saved_at,
        ) is Some,
        cs[m]->photo.id != older,
        forall|n: int|
            m < n <= cs.len() ==> has_id(#[trigger] apply_changes(start, cs.take(n)), cs[m]->photo.id)
                && has_id(apply_changes(start, cs.take(n)), older),
    ensures
        comes_before(apply_changes(start, cs.take(k)), cs[m]->photo.id, older),
    decreases k - m,
{
    let newer = cs[m]->photo.id;
    lemma_apply_step(start, cs, k - 1);
    let before = apply_changes(start, cs.take(k - 1));
    let after = apply_changes(start, cs.take(k));
    assert(has_id(after, newer) && has_id(after, older));
    if k == m + 1 {
        let r = add_spec(before, cs[m]->photo, cs[m]->mime, cs[m]->max, cs[m]->saved_at).unwrap();
        assert(after == r.0);
        lemma_add_puts_photo_first(before, cs[m]->photo, cs[m]->mime, cs[m]->max, cs[m]->saved_at);
        let j = choose|j: int| 0 <= j < after.len() && after[j].id == older;
        assert(j != 0);
        assert(after[0].id == newer);
    } else {
        lemma_newest_first_upto(start, cs, m, older, k - 1);
        lemma_changes_keep_ids_unique(start, cs.take(k - 1));
        lemma_change_keeps_order(before, cs[k - 1], newer, older);
    }
}

/// Newest first across calls: once a photo has been added, it stands before
/// every entry that is in the history with it, for as long as both stay.
pub proof fn lemma_history_newest_first(
    start: Seq<HistoryEntryView>,
    cs: Seq<HistoryChange>,
    m: int,
    older: Seq<char>,
)
    requires
        unique_ids(start),
        0 <= m < cs.len(),
        cs[m] is Add,
        add_spec(
            apply_changes(start, cs.take(m)),
            cs[m]->photo,
            cs[m]->mime,
            cs[m]->max,
            cs[m]->saved_at,
        ) is Some,
        cs[m]->photo.id != older,
        forall|n: int|
            m < n <= cs.len() ==> has_id(#[trigger] apply_changes(start, cs.take(n)), cs[m]->photo.id)
                && has_id(apply_changes(start, cs.take(n)), older),
    ensures
        comes_before(apply_changes(start, cs), cs[m]->photo.id, older),
{
    lemma_newest_first_upto(start, cs, m, older, cs.len() as int);
    assert(cs.take(cs.len() as int) =~= cs);
}

} // verus!
