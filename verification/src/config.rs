//! The persisted user settings and the search terms they hold.
use vstd::prelude::*;

use crate::text::{chars_of, is_white_space, lemma_trim, string_of, trim, trim_range, views};

verus! {

/// Persisted user settings. Stored as `wowl.toml` next to the executable when
/// that directory is writable (portable mode), otherwise in the OS config dir.
#[derive(Clone, Debug)]
pub struct Settings {
    /// Active image provider id: `picsum` | `unsplash` | `bing` | `pixabay` | `wallhaven`.
    pub provider: String,
    /// Raw search-term text as typed by the user, separated by `,` or `;`.
    pub search_terms: String,
    /// How many images to keep cached in the history folder.
    pub history_size: u32,
    /// When an image enters the history: `loaded` (every image shown) or
    /// `applied` (only images set as wallpaper / lock screen).
    pub history_mode: String,
    /// UI theme: `system` | `light` | `dark`.
    pub theme: String,
    /// UI language: `de` | `en`.
    pub language: String,
    /// User-supplied Unsplash access key.
    pub unsplash_key: String,
    /// User-supplied Pixabay API key.
    pub pixabay_key: String,
    /// User-supplied Wallhaven API key (optional).
    pub wallhaven_key: String,
    /// Last folder used in the "save as" dialog.
    pub last_save_dir: String,
}

/// Where the settings file and the image cache are kept.
#[derive(Clone, Copy, Debug, PartialEq, Eq, Structural)]
pub enum DataLocation {
    /// Next to the executable (portable mode).
    BesideExecutable,
    /// In the per-user configuration directory of the OS.
    ConfigDir,
    /// In the working directory, when neither of the others is known.
    WorkingDir,
}

/// Portable mode when the executable's directory is known and writable; else
/// the OS configuration directory if there is one (a write-protected program
/// folder sends the settings there); else the working directory.
pub open spec fn data_location_spec(
    exe_dir_known: bool,
    exe_dir_writable: bool,
    config_dir_known: bool,
) -> DataLocation {
    if exe_dir_known && exe_dir_writable {
        DataLocation::BesideExecutable
    } else if config_dir_known {
        DataLocation::ConfigDir
    } else {
        DataLocation::WorkingDir
    }
}

/// Where persisted data goes. `exe_dir_writable` tells whether the executable's
/// directory accepts a new file.
pub fn data_location(exe_dir_known: bool, exe_dir_writable: bool, config_dir_known: bool) -> (r:
    DataLocation)
    ensures
        r == data_location_spec(exe_dir_known, exe_dir_writable, config_dir_known),
{
    if exe_dir_known && exe_dir_writable {
        DataLocation::BesideExecutable
    } else if config_dir_known {
        DataLocation::ConfigDir
    } else {
        DataLocation::WorkingDir
    }
}

/// Whether `c` separates two search terms.
pub open spec fn is_term_separator(c: char) -> bool {
    c == ',' || c == ';'
}

/// The pieces of `s` between separators, empty pieces included (`str::split`).
pub open spec fn split_pieces(s: Seq<char>) -> Seq<Seq<char>>
    decreases s.len(),
{
    if s.len() == 0 {
        seq![Seq::empty()]
    } else {
        let r = split_pieces(s.drop_last());
        if is_term_separator(s.last()) {
            r.push(Seq::empty())
        } else {
            r.update(r.len() - 1, r.last().push(s.last()))
        }
    }
}

/// The search terms in the raw text: its pieces, trimmed, without the empty ones.
pub open spec fn search_terms(s: Seq<char>) -> Seq<Seq<char>> {
    split_pieces(s).map_values(|p: Seq<char>| trim(p)).filter(|t: Seq<char>| t.len() > 0)
}

/// The settings a fresh installation starts with.
pub open spec fn is_default_settings(s: Settings) -> bool {
    &&& s.provider@ == "picsum"@
    &&& s.search_terms@ == Seq::<char>::empty()
    &&& s.history_size == 20
    &&& s.history_mode@ == "loaded"@
    &&& s.theme@ == "system"@
    &&& s.language@ == "en"@
    &&& s.unsplash_key@ == Seq::<char>::empty()
    &&& s.pixabay_key@ == Seq::<char>::empty()
    &&& s.wallhaven_key@ == Seq::<char>::empty()
    &&& s.last_save_dir@ == Seq::<char>::empty()
}

impl Default for Settings {
    fn default() -> (s: Settings)
        ensures
            is_default_settings(s),
    {
        Settings {
            provider: String::from_str("picsum"),
            search_terms: String::new(),
            history_size: 20,
            history_mode: String::from_str("loaded"),
            theme: String::from_str("system"),
            language: String::from_str("en"),
            unsplash_key: String::new(),
            pixabay_key: String::new(),
            wallhaven_key: String::new(),
            last_save_dir: String::new(),
        }
    }
}

/// `split_pieces` never returns an empty sequence.
pub proof fn lemma_split_pieces_nonempty(s: Seq<char>)
    ensures
        split_pieces(s).len() >= 1,
    decreases s.len(),
{
    if s.len() > 0 {
        lemma_split_pieces_nonempty(s.drop_last());
    }
}

/// No piece of the split text holds a separator.
pub proof fn lemma_split_pieces_have_no_separator(s: Seq<char>)
    ensures
        forall|i: int, j: int|
            0 <= i < split_pieces(s).len() && 0 <= j < split_pieces(s)[i].len()
                ==> !is_term_separator(#[trigger] split_pieces(s)[i][j]),
    decreases s.len(),
{
    if s.len() > 0 {
        lemma_split_pieces_have_no_separator(s.drop_last());
        lemma_split_pieces_nonempty(s.drop_last());
        let r = split_pieces(s.drop_last());
        if !is_term_separator(s.last()) {
            assert forall|i: int, j: int|
                0 <= i < split_pieces(s).len() && 0 <= j < split_pieces(s)[i].len()
                    implies !is_term_separator(#[trigger] split_pieces(s)[i][j]) by {
                if i == r.len() - 1 {
                    if j < r.last().len() {
                        assert(split_pieces(s)[i][j] == r[i][j]);
                    }
                } else {
                    assert(split_pieces(s)[i] == r[i]);
                }
            }
        } else {
            assert forall|i: int, j: int|
                0 <= i < split_pieces(s).len() && 0 <= j < split_pieces(s)[i].len()
                    implies !is_term_separator(#[trigger] split_pieces(s)[i][j]) by {
                assert(split_pieces(s)[i] == r[i]);
            }
        }
    }
}

/// Splitting text made of `a`, a separator and `b` gives the pieces of `a`, then
/// those of `b`.
pub proof fn lemma_split_pieces_concat(a: Seq<char>, sep: char, b: Seq<char>)
    requires
        is_term_separator(sep),
    ensures
        split_pieces(a.push(sep) + b) == split_pieces(a) + split_pieces(b),
    decreases b.len(),
{
    let s = a.push(sep) + b;
    if b.len() == 0 {
        assert(s =~= a.push(sep));
        assert(a.push(sep).drop_last() =~= a);
        assert(split_pieces(b) =~= seq![Seq::<char>::empty()]);
        assert(split_pieces(s) =~= split_pieces(a) + split_pieces(b));
    } else {
        let b0 = b.drop_last();
        lemma_split_pieces_concat(a, sep, b0);
        lemma_split_pieces_nonempty(b0);
        lemma_split_pieces_nonempty(a);
        assert(s.drop_last() =~= a.push(sep) + b0);
        assert(s.last() == b.last());
        let x = split_pieces(a);
        let y = split_pieces(b0);
        if is_term_separator(b.last()) {
            assert(split_pieces(s) =~= x + y.push(Seq::empty()));
        } else {
            assert(split_pieces(s) =~= x + y.update(y.len() - 1, y.last().push(b.last())));
        }
    }
}

/// The search terms of text made of `a`, a separator and `b` are the terms of
/// `a` followed by those of `b`.
pub proof fn lemma_terms_concat(a: Seq<char>, sep: char, b: Seq<char>)
    requires
        is_term_separator(sep),
    ensures
        search_terms(a.push(sep) + b) == search_terms(a) + search_terms(b),
{
    let f = |p: Seq<char>| trim(p);
    let keep = |t: Seq<char>| t.len() > 0;
    lemma_split_pieces_concat(a, sep, b);
    let x = split_pieces(a);
    let y = split_pieces(b);
    assert((x + y).map_values(f) =~= x.map_values(f) + y.map_values(f));
    Seq::filter_distributes_over_add(x.map_values(f), y.map_values(f), keep);
}

/// Text without a separator is one piece: itself.
proof fn lemma_split_pieces_unseparated(s: Seq<char>)
    requires
        forall|j: int| 0 <= j < s.len() ==> !is_term_separator(s[j]),
    ensures
        split_pieces(s) == seq![s],
    decreases s.len(),
{
    if s.len() > 0 {
        let r = s.drop_last();
        assert forall|j: int| 0 <= j < r.len() implies !is_term_separator(r[j]) by {
            assert(r[j] == s[j]);
        }
        lemma_split_pieces_unseparated(r);
        assert(r.push(s.last()) =~= s);
        assert(split_pieces(s) =~= seq![s]);
    } else {
        assert(s =~= Seq::<char>::empty());
    }
}

/// Text without a separator is a single term, the text trimmed, unless it is
/// only white space: no term is dropped or cut for its length or content.
pub proof fn lemma_terms_of_unseparated(s: Seq<char>)
    requires
        forall|j: int| 0 <= j < s.len() ==> !is_term_separator(s[j]),
    ensures
        trim(s).len() > 0 ==> search_terms(s) == seq![trim(s)],
        trim(s).len() == 0 ==> search_terms(s) == Seq::<Seq<char>>::empty(),
{
    let f = |p: Seq<char>| trim(p);
    let keep = |t: Seq<char>| t.len() > 0;
    lemma_split_pieces_unseparated(s);
    let e = Seq::<Seq<char>>::empty();
    assert(seq![s].map_values(f) =~= e.push(trim(s)));
    e.lemma_filter_push(trim(s), keep);
    assert(e.filter(keep) =~= e) by {
        reveal(Seq::filter);
    }
    if trim(s).len() > 0 {
        assert(e.push(trim(s)).filter(keep) =~= seq![trim(s)]);
    }
}

/// Every search term is non-empty, neither starts nor ends with white space, and
/// holds no separator.
pub proof fn lemma_terms_are_clean(s: Seq<char>)
    ensures
        forall|i: int|
            0 <= i < search_terms(s).len() ==> {
                let t = #[trigger] search_terms(s)[i];
                &&& t.len() > 0
                &&& !is_white_space(t[0])
                &&& !is_white_space(t.last())
                &&& forall|j: int| 0 <= j < t.len() ==> !is_term_separator(t[j])
            },
{
    let f = |p: Seq<char>| trim(p);
    let keep = |t: Seq<char>| t.len() > 0;
    let pieces = split_pieces(s);
    let trimmed = pieces.map_values(f);
    lemma_split_pieces_have_no_separator(s);
    assert forall|i: int| 0 <= i < search_terms(s).len() implies {
        let t = #[trigger] search_terms(s)[i];
        &&& t.len() > 0
        &&& !is_white_space(t[0])
        &&& !is_white_space(t.last())
        &&& forall|j: int| 0 <= j < t.len() ==> !is_term_separator(t[j])
    } by {
        let t = search_terms(s)[i];
        trimmed.lemma_filter_pred(keep, i);
        assert(trimmed.filter(keep).contains(t));
        trimmed.lemma_filter_contains_rev(keep, t);
        let k = choose|k: int| 0 <= k < trimmed.len() && trimmed[k] == t;
        let p = pieces[k];
        lemma_trim(p);
        let (lo, hi) = choose|lo: int, hi: int| 0 <= lo <= hi <= p.len() && trim(p) == p.subrange(lo, hi);
        assert forall|j: int| 0 <= j < t.len() implies !is_term_separator(t[j]) by {
            assert(t[j] == p[lo + j]);
            assert(!is_term_separator(pieces[k][lo + j]));
        }
    }
}

impl Settings {
    /// Split the raw search-term text into trimmed, non-empty terms.
    pub fn terms(&self) -> (r: Vec<String>)
        ensures
            views(r@) == search_terms(self.search_terms@),
    {
        let v = chars_of(self.search_terms.as_str());
        let ghost f = |p: Seq<char>| trim(p);
        let ghost keep = |t: Seq<char>| t.len() > 0;
        let mut out: Vec<String> = Vec::new();
        let ghost mut done: Seq<Seq<char>> = Seq::empty();
        let mut start: usize = 0;
        let mut i: usize = 0;
        assert(v@.take(0) =~= Seq::<char>::empty());
        assert(split_pieces(Seq::<char>::empty()) =~= done.push(v@.subrange(0, 0)));
        while i < v.len()
            invariant
                start <= i <= v.len(),
                v@ == self.search_terms@,
                f == (|p: Seq<char>| trim(p)),
                keep == (|t: Seq<char>| t.len() > 0),
                split_pieces(v@.take(i as int)) == done.push(v@.subrange(start as int, i as int)),
                views(out@) == done.map_values(f).filter(keep),
            decreases v.len() - i,
        {
            let ghost prefix = v@.take(i as int);
            assert(v@.take(i + 1).drop_last() =~= prefix);
            assert(v@.take(i + 1).last() == v@[i as int]);
            proof {
                lemma_split_pieces_nonempty(prefix);
            }
            if v[i] == ',' || v[i] == ';' {
                let (a, b) = trim_range(&v, start, i);
                let ghost piece = v@.subrange(start as int, i as int);
                proof {
                    done.lemma_push_map_commute(f, piece);
                    done.map_values(f).lemma_filter_push(trim(piece), keep);
                }
                if a < b {
                    let t = string_of(&v, a, b);
                    out.push(t);
                    assert(views(out@) =~= views(out@.drop_last()).push(trim(piece)));
                } else {
                    assert(trim(piece).len() == 0);
                    assert(done.push(piece).map_values(f) == done.map_values(f).push(f(piece)));
                    assert(views(out@) == done.push(piece).map_values(f).filter(keep));
                }
                let ghost before = done;
                proof {
                    done = done.push(piece);
                }
                start = i + 1;
                assert(is_term_separator(v@.take(i + 1).last()));
                assert(split_pieces(v@.take(i + 1)) == split_pieces(prefix).push(Seq::empty()));
                assert(v@.subrange(start as int, i + 1) =~= Seq::<char>::empty());
                assert(split_pieces(v@.take(i + 1)) =~= done.push(
                    v@.subrange(start as int, i + 1),
                ));
            } else {
                let ghost r = split_pieces(prefix);
                assert(!is_term_separator(v@.take(i + 1).last()));
                assert(split_pieces(v@.take(i + 1)) == r.update(r.len() - 1, r.last().push(v@[i as int])));
                assert(v@.subrange(start as int, i + 1) =~= v@.subrange(start as int, i as int).push(v@[i as int]));
                assert(split_pieces(v@.take(i + 1)) =~= done.push(
                    v@.subrange(start as int, i + 1),
                ));
            }
            i = i + 1;
        }
        assert(v@.take(v.len() as int) =~= v@);
        let (a, b) = trim_range(&v, start, v.len());
        let ghost piece = v@.subrange(start as int, v.len() as int);
        proof {
            done.lemma_push_map_commute(f, piece);
            done.map_values(f).lemma_filter_push(trim(piece), keep);
        }
        if a < b {
            let t = string_of(&v, a, b);
            out.push(t);
            assert(views(out@) =~= views(out@.drop_last()).push(trim(piece)));
        } else {
            assert(trim(piece).len() == 0);
        }
        out
    }
}

} // verus!
