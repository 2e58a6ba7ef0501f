//! Artist sets and track records built from the fields of an audio file's
//! tag.

use crate::classify::{
    all_names, classified, lemma_all_names_concat, lemma_all_names_empty, lemma_all_names_single,
    lemma_of_names_empty, lemma_of_names_insert, lemma_of_names_union, lemma_piece_names_push,
    names_in, of_names, piece_names, ArtistsView,
};
use crate::composers::{lookup, Composer, ComposerView};
use crate::text::{chars_of, normalize, normalized, pieces, split, text_of, texts, trim};
use audiotags::{MimeType, Picture};
use std::path::PathBuf;
use vstd::prelude::*;
use vstd::slice::slice_to_vec;
use vstd::std_specs::cmp::PartialEqSpecImpl;
use vstd::std_specs::convert::FromSpecImpl;

verus! {

/// The views of a sequence of composers.
pub open spec fn composer_views(v: Seq<Composer>) -> Seq<ComposerView> {
    v.map_values(|c: Composer| c@)
}

/// The views of a sequence of strings.
pub open spec fn name_views(v: Seq<String>) -> Seq<Seq<char>> {
    v.map_values(|s: String| s@)
}

/// The views of a sequence of string slices.
pub open spec fn raw_views(v: Seq<&str>) -> Seq<Seq<char>> {
    v.map_values(|s: &str| s@)
}

/// The function that looks a name up in the registry.
pub open spec fn known() -> spec_fn(Seq<char>) -> Option<ComposerView> {
    |name: Seq<char>| lookup(name)
}

/// The predicate that holds of the names that the registry does not have.
pub open spec fn unknown() -> spec_fn(Seq<char>) -> bool {
    |name: Seq<char>| lookup(name) is None
}

/// Tells the composers among the artists of an album from the others. The
/// string is split at `;`. A piece that names a composer of the registry,
/// blanks at its ends aside, gives that composer; any other piece is kept
/// as it stands. Both lists are in the order of the string, and nothing is
/// left out of them, not what occurs twice either.
pub fn parse_album_artist(s: &str) -> (r: (Vec<Composer>, Vec<String>))
    ensures
        composer_views(r.0@) == pieces(s@).filter_map(known()),
        name_views(r.1@) == pieces(s@).filter(unknown()),
{
    let parts = split(&chars_of(s));
    let ghost ps = texts(parts@);
    let mut composers: Vec<Composer> = Vec::new();
    let mut artists: Vec<String> = Vec::new();
    let mut j: usize = 0;
    proof {
        assert(ps.take(0) =~= Seq::empty());
        assert(ps.take(0).filter_map(known()) =~= Seq::empty());
        ps.take(0).lemma_filter_len(unknown());
        assert(ps.take(0).filter(unknown()) =~= Seq::empty());
    }
    while j < parts.len()
        invariant
            j <= parts.len(),
            ps == texts(parts@),
            ps == pieces(s@),
            composer_views(composers@) == ps.take(j as int).filter_map(known()),
            name_views(artists@) == ps.take(j as int).filter(unknown()),
        decreases parts.len() - j,
    {
        let ghost cs = composer_views(composers@);
        let ghost os = name_views(artists@);
        let artist = text_of(&parts[j]);
        proof {
            ps.lemma_filter_map_take_succ(known(), j as int);
            assert(ps.take(j + 1) =~= ps.take(j as int).push(ps[j as int]));
            ps.take(j as int).lemma_filter_push(ps[j as int], unknown());
        }
        match Composer::from_famous(artist.as_str()) {
            Some(composer) => {
                composers.push(composer);
                assert(composer_views(composers@) =~= cs + seq![composer@]);
            },
            None => {
                artists.push(artist);
                assert(name_views(artists@) =~= os.push(artist@));
            },
        }
        j += 1;
    }
    assert(ps.take(j as int) =~= ps);
    (composers, artists)
}

/// A deduplicated set of composers and a deduplicated set of names of other
/// performers.
#[derive(Debug, Eq)]
pub struct Artists {
    composers: Vec<Composer>,
    others: Vec<String>,
}

impl View for Artists {
    type V = ArtistsView;

    closed spec fn view(&self) -> ArtistsView {
        ArtistsView {
            composers: composer_views(self.composers@).to_set(),
            others: name_views(self.others@).to_set(),
        }
    }
}

impl Artists {
    /// Nothing is held twice.
    #[verifier::type_invariant]
    closed spec fn unique(self) -> bool {
        &&& composer_views(self.composers@).no_duplicates()
        &&& name_views(self.others@).no_duplicates()
    }

    /// Creates an artist set without any artist.
    pub fn new() -> (r: Self)
        ensures
            r@ == ArtistsView::empty(),
    {
        let r = Artists { composers: Vec::new(), others: Vec::new() };
        assert(r@.composers =~= Set::empty());
        assert(r@.others =~= Set::empty());
        r
    }

    /// The composers of the set, each once, in the order in which they came.
    pub fn composers(&self) -> (r: &Vec<Composer>)
        ensures
            composer_views(r@).to_set() == self@.composers,
            composer_views(r@).no_duplicates(),
    {
        proof {
            use_type_invariant(self);
        }
        &self.composers
    }

    /// The names of the other performers of the set, each once, in the
    /// order in which they came.
    pub fn others(&self) -> (r: &Vec<String>)
        ensures
            name_views(r@).to_set() == self@.others,
            name_views(r@).no_duplicates(),
    {
        proof {
            use_type_invariant(self);
        }
        &self.others
    }

    /// Whether `composer` is in the set.
    pub fn has_composer(&self, composer: &Composer) -> (r: bool)
        ensures
            r == self@.composers.contains(composer@),
    {
        let ghost views = composer_views(self.composers@);
        let mut i: usize = 0;
        while i < self.composers.len()
            invariant
                i <= self.composers.len(),
                views == composer_views(self.composers@),
                forall|j: int| 0 <= j < i ==> views[j] != composer@,
            decreases self.composers.len() - i,
        {
            if self.composers[i] == *composer {
                assert(views[i as int] == composer@);
                return true;
            }
            i += 1;
        }
        false
    }

    /// Whether `name` is among the other performers.
    pub fn has_other(&self, name: &str) -> (r: bool)
        ensures
            r == self@.others.contains(name@),
    {
        let owned = name.to_owned();
        let ghost views = name_views(self.others@);
        let mut i: usize = 0;
        while i < self.others.len()
            invariant
                i <= self.others.len(),
                owned@ == name@,
                views == name_views(self.others@),
                forall|j: int| 0 <= j < i ==> views[j] != name@,
            decreases self.others.len() - i,
        {
            if self.others[i] == owned {
                assert(views[i as int] == name@);
                return true;
            }
            i += 1;
        }
        false
    }

    /// Adds a composer, unless the set holds it already.
    pub fn add_composer(&mut self, composer: Composer)
        ensures
            final(self)@ == old(self)@.with_composer(composer@),
    {
        proof {
            use_type_invariant(&*self);
        }
        if !self.has_composer(&composer) {
            let ghost before = composer_views(self.composers@);
            let mut held: Vec<Composer> = Vec::new();
            std::mem::swap(&mut self.composers, &mut held);
            held.push(composer);
            assert(composer_views(held@) =~= before.push(composer@));
            std::mem::swap(&mut self.composers, &mut held);
            proof {
                before.lemma_push_to_set_commute(composer@);
            }
        } else {
            assert(self@.composers.insert(composer@) =~= self@.composers);
        }
    }

    /// Adds a performer who is no composer of the registry, unless the set
    /// holds the name already.
    pub fn add_other(&mut self, other: &str)
        ensures
            final(self)@ == old(self)@.with_other(other@),
    {
        proof {
            use_type_invariant(&*self);
        }
        if !self.has_other(other) {
            let ghost before = name_views(self.others@);
            let mut held: Vec<String> = Vec::new();
            std::mem::swap(&mut self.others, &mut held);
            held.push(other.to_owned());
            assert(name_views(held@) =~= before.push(other@));
            std::mem::swap(&mut self.others, &mut held);
            proof {
                before.lemma_push_to_set_commute(other@);
            }
        } else {
            assert(self@.others.insert(other@) =~= self@.others);
        }
    }

    /// Whether every artist of this set is in `other` too.
    pub fn within(&self, other: &Artists) -> (r: bool)
        ensures
            r == (self@.composers.subset_of(other@.composers) && self@.others.subset_of(
                other@.others,
            )),
    {
        let ghost cs = composer_views(self.composers@);
        let ghost os = name_views(self.others@);
        let mut i: usize = 0;
        while i < self.composers.len()
            invariant
                i <= self.composers.len(),
                cs == composer_views(self.composers@),
                forall|j: int| 0 <= j < i ==> other@.composers.contains(cs[j]),
            decreases self.composers.len() - i,
        {
            if !other.has_composer(&self.composers[i]) {
                assert(cs[i as int] == self.composers[i as int]@);
                assert(cs.contains(cs[i as int]));
                return false;
            }
            i += 1;
        }
        let mut k: usize = 0;
        while k < self.others.len()
            invariant
                k <= self.others.len(),
                os == name_views(self.others@),
                forall|j: int| 0 <= j < k ==> other@.others.contains(os[j]),
            decreases self.others.len() - k,
        {
            if !other.has_other(self.others[k].as_str()) {
                assert(os[k as int] == self.others[k as int]@);
                assert(os.contains(os[k as int]));
                return false;
            }
            k += 1;
        }
        true
    }

    /// Classifies raw artist strings. Each string is normalised (every `/`
    /// and every `feat.` becomes `;`), split at `;`, and each piece trimmed;
    /// a piece that is empty then counts for nothing. A name that the
    /// registry knows gives its composer, any other name a performer.
    pub fn parse_strings(strings: &[&str]) -> (r: Self)
        ensures
            r@ == classified(raw_views(strings@)),
    {
        let ghost raws = raw_views(strings@);
        let mut out = Artists::new();
        let mut i: usize = 0;
        proof {
            lemma_all_names_empty();
            lemma_of_names_empty();
            assert(raws.take(0) =~= Seq::empty());
        }
        while i < strings.len()
            invariant
                i <= strings.len(),
                raws == raw_views(strings@),
                out@ == classified(raws.take(i as int)),
            decreases strings.len() - i,
        {
            let ghost base = out@;
            let parts = split(&normalize(&chars_of(strings[i])));
            let ghost ps = texts(parts@);
            assert(ps == pieces(normalized(raws[i as int])));
            let mut j: usize = 0;
            proof {
                lemma_of_names_empty();
                assert(ps.take(0) =~= Seq::empty());
                assert(piece_names(ps.take(0)) =~= Set::empty());
                assert(base.union(ArtistsView::empty()).composers =~= base.composers);
                assert(base.union(ArtistsView::empty()).others =~= base.others);
            }
            while j < parts.len()
                invariant
                    j <= parts.len(),
                    ps == texts(parts@),
                    out@ == base.union(of_names(piece_names(ps.take(j as int)))),
                decreases parts.len() - j,
            {
                let ghost seen = piece_names(ps.take(j as int));
                let name = trim(&parts[j]);
                proof {
                    assert(ps.take(j + 1) =~= ps.take(j as int).push(ps[j as int]));
                    lemma_piece_names_push(ps.take(j as int), ps[j as int]);
                }
                if name.len() > 0 {
                    let owned = text_of(&name);
                    out.add_string(owned.as_str());
                    proof {
                        lemma_of_names_insert(seen, name@);
                        let grown = base.union(of_names(seen).with_name(name@));
                        assert(out@.composers =~= grown.composers);
                        assert(out@.others =~= grown.others);
                    }
                }
                j += 1;
            }
            proof {
                assert(ps.take(j as int) =~= ps);
                let before = raws.take(i as int);
                assert(raws.take(i + 1) =~= before + seq![raws[i as int]]);
                lemma_all_names_concat(before, seq![raws[i as int]]);
                lemma_all_names_single(raws[i as int]);
                lemma_of_names_union(all_names(before), names_in(raws[i as int]));
            }
            i += 1;
        }
        assert(raws.take(i as int) =~= raws);
        out
    }

    /// Adds the artist that `s` names: the composer that the registry has
    /// for it, or else `s` as another performer.
    pub fn add_string(&mut self, s: &str)
        ensures
            final(self)@ == old(self)@.with_name(s@),
    {
        match Composer::from_famous(s) {
            Some(c) => self.add_composer(c),
            None => self.add_other(s),
        }
    }
}

impl PartialEq for Artists {
    /// Two artist sets are equal when they hold the same composers and the
    /// same other performers, in whatever order these were added.
    fn eq(&self, other: &Self) -> (r: bool) {
        let r = self.within(other) && other.within(self);
        proof {
            if r {
                assert(self@.composers =~= other@.composers);
                assert(self@.others =~= other@.others);
            }
        }
        r
    }
}

impl PartialEqSpecImpl for Artists {
    open spec fn obeys_eq_spec() -> bool {
        true
    }

    open spec fn eq_spec(&self, other: &Self) -> bool {
        self@ == other@
    }
}

impl Clone for Artists {
    fn clone(&self) -> (r: Self)
        ensures
            r@ == self@,
    {
        proof {
            use_type_invariant(self);
        }
        let mut composers: Vec<Composer> = Vec::new();
        let mut i: usize = 0;
        while i < self.composers.len()
            invariant
                i <= self.composers.len(),
                composer_views(composers@) == composer_views(self.composers@).take(i as int),
            decreases self.composers.len() - i,
        {
            let ghost before = composer_views(composers@);
            composers.push(self.composers[i].clone());
            assert(composer_views(composers@) =~= before.push(self.composers[i as int]@));
            assert(composer_views(self.composers@).take(i + 1) =~= before.push(
                self.composers[i as int]@,
            ));
            i += 1;
        }
        let mut others: Vec<String> = Vec::new();
        let mut k: usize = 0;
        while k < self.others.len()
            invariant
                k <= self.others.len(),
                name_views(others@) == name_views(self.others@).take(k as int),
            decreases self.others.len() - k,
        {
            let ghost before = name_views(others@);
            others.push(self.others[k].clone());
            assert(name_views(others@) =~= before.push(self.others[k as int]@));
            assert(name_views(self.others@).take(k + 1) =~= before.push(self.others[k as int]@));
            k += 1;
        }
        assert(composer_views(self.composers@).take(i as int) =~= composer_views(
            self.composers@,
        ));
        assert(name_views(self.others@).take(k as int) =~= name_views(self.others@));
        Artists { composers, others }
    }
}

impl Default for Artists {
    fn default() -> (r: Self)
        ensures
            r@ == ArtistsView::empty(),
    {
        Self::new()
    }
}

/// The kind of image that a cover holds, as `audiotags` names it.
#[verifier::external_type_specification]
pub struct ExMimeType(MimeType);

/// A picture as `audiotags` hands it out: borrowed bytes and their kind.
#[verifier::external_type_specification]
pub struct ExPicture<'a>(Picture<'a>);

/// A path of the file system. Paths are carried, never read.
#[verifier::external_type_specification]
#[verifier::external_body]
pub struct ExPathBuf(PathBuf);

/// An error of the operating system, carried in `Error::DirectoryReadError`.
#[verifier::external_type_specification]
#[verifier::external_body]
pub struct ExIoError(std::io::Error);

/// Specifies `PathBuf::clone`: the copy is the same path.
pub assume_specification[ <PathBuf as Clone>::clone ](path: &PathBuf) -> (r: PathBuf)
    ensures
        r == *path,
;

/// The art embedded in an album's metadata: the raw bytes and their kind.
#[derive(Debug)]
pub struct Cover {
    pub data: Vec<u8>,
    pub mime_type: MimeType,
}

/// What a `Cover` stands for.
pub struct CoverView {
    pub data: Seq<u8>,
    pub mime_type: MimeType,
}

impl View for Cover {
    type V = CoverView;

    open spec fn view(&self) -> CoverView {
        CoverView { data: self.data@, mime_type: self.mime_type }
    }
}

impl Clone for Cover {
    fn clone(&self) -> (r: Self)
        ensures
            r@ == self@,
    {
        Cover { data: self.data.clone(), mime_type: self.mime_type }
    }
}

impl Cover {
    /// Copies the bytes of `value` and keeps its kind.
    pub fn from(value: Picture<'_>) -> (r: Cover)
        ensures
            r@ == (CoverView { data: value.data@, mime_type: value.mime_type }),
    {
        Cover { data: slice_to_vec(value.data), mime_type: value.mime_type }
    }
}

/// Why no track record could be made, or no directory be read.
#[derive(Debug)]
pub enum Error {
    /// The directory to scan could not be found.
    DirectoryMissing,
    /// The operating system failed to read a directory.
    DirectoryReadError(std::io::Error),
    /// The year of the tag does not fit in sixteen bits without a sign; the
    /// offending number is kept.
    InvalidYear(i32),
    /// The tag has no album title.
    MissingAlbum,
    /// The tag has no performer, or no album performer.
    MissingArtist,
    /// Kept for callers that match on it: a tag without a genre gives a
    /// track with an empty genre, so `TrackMaxi::build` never returns this.
    MissingGenre,
    /// The tag has no track number.
    MissingPosition,
    /// The tag has no title.
    MissingTitle,
}

impl From<std::io::Error> for Error {
    /// An error of the operating system is a failure to read a directory.
    fn from(value: std::io::Error) -> (r: Error) {
        Error::DirectoryReadError(value)
    }
}

impl FromSpecImpl<std::io::Error> for Error {
    open spec fn obeys_from_spec() -> bool {
        true
    }

    open spec fn from_spec(value: std::io::Error) -> Error {
        Error::DirectoryReadError(value)
    }
}

/// The fields that a decoded tag supplies for one file. Each may be absent.
#[derive(Debug)]
pub struct TagFields {
    pub title: Option<String>,
    pub artist: Option<String>,
    pub album_artist: Option<String>,
    pub album_title: Option<String>,
    pub genre: Option<String>,
    pub year: Option<i32>,
    pub track_number: Option<u16>,
    pub cover: Option<Cover>,
}

/// The view inside an optional cover.
pub open spec fn cover_view(c: Option<Cover>) -> Option<CoverView> {
    match c {
        Some(c) => Some(c@),
        None => None,
    }
}

impl TagFields {
    /// The first reason, in the order of the checks, for which no track can
    /// be made of these fields: no title; no performer; no album performer;
    /// a year outside `0..=65535`; no album title; no track number. `None`
    /// where there is no such reason.
    pub open spec fn rejection(self) -> Option<Error> {
        if self.title is None {
            Some(Error::MissingTitle)
        } else if self.artist is None {
            Some(Error::MissingArtist)
        } else if self.album_artist is None {
            Some(Error::MissingArtist)
        } else if self.year is Some && !(0 <= self.year->0 <= 65535) {
            Some(Error::InvalidYear(self.year->0))
        } else if self.album_title is None {
            Some(Error::MissingAlbum)
        } else if self.track_number is None {
            Some(Error::MissingPosition)
        } else {
            None
        }
    }

    /// The track that these fields describe for the file at `path`, where
    /// nothing rejects them.
    pub open spec fn track(self, path: PathBuf) -> TrackView
        recommends
            self.rejection() is None,
    {
        TrackView {
            path,
            title: self.title->0@,
            artists: classified(seq![self.artist->0@, self.album_artist->0@]),
            album_name: self.album_title->0@,
            album_cover: cover_view(self.cover),
            album_artists: classified(seq![self.album_artist->0@]),
            genre: match self.genre {
                Some(g) => g@,
                None => Seq::empty(),
            },
            year: match self.year {
                Some(y) => Some(y as u16),
                None => None,
            },
            position: self.track_number->0,
        }
    }
}

/// What a `TrackMaxi` stands for.
pub struct TrackView {
    pub path: PathBuf,
    pub title: Seq<char>,
    pub artists: ArtistsView,
    pub album_name: Seq<char>,
    pub album_cover: Option<CoverView>,
    pub album_artists: ArtistsView,
    pub genre: Seq<char>,
    pub year: Option<u16>,
    pub position: u16,
}

/// A track: one music file with its metadata and that of its album.
///
/// A track has a title, artists, an album name and a position; there is no
/// way to make one without them.
pub struct TrackMaxi {
    path: PathBuf,
    title: String,
    artists: Artists,
    album_name: String,
    album_cover: Option<Cover>,
    album_artists: Artists,
    genre: String,
    year: Option<u16>,
    position: u16,
}

impl View for TrackMaxi {
    type V = TrackView;

    closed spec fn view(&self) -> TrackView {
        TrackView {
            path: self.path,
            title: self.title@,
            artists: self.artists@,
            album_name: self.album_name@,
            album_cover: cover_view(self.album_cover),
            album_artists: self.album_artists@,
            genre: self.genre@,
            year: self.year,
            position: self.position,
        }
    }
}

impl Clone for TrackMaxi {
    fn clone(&self) -> (r: Self)
        ensures
            r@ == self@,
    {
        TrackMaxi {
            path: self.path.clone(),
            title: self.title.clone(),
            artists: self.artists.clone(),
            album_name: self.album_name.clone(),
            album_cover: match &self.album_cover {
                Some(c) => Some(c.clone()),
                None => None,
            },
            album_artists: self.album_artists.clone(),
            genre: self.genre.clone(),
            year: self.year,
            position: self.position,
        }
    }
}

impl TrackMaxi {
    /// Makes the track of the file at `path` from the fields of its tag.
    ///
    /// The required fields are checked in a fixed order, and the first that
    /// is missing decides the error: title, performer, album performer, then
    /// the year's range, album title, track number. A missing genre gives
    /// an empty genre, a missing year or cover none. The track's artists
    /// are classified from the performer and the album performer together,
    /// the album's artists from the album performer alone.
    pub fn build(path: PathBuf, tags: TagFields) -> (r: Result<TrackMaxi, Error>)
        ensures
            match r {
                Ok(t) => tags.rejection() is None && t@ == tags.track(path),
                Err(e) => tags.rejection() == Some(e),
            },
    {
        let title = match tags.title {
            Some(t) => t,
            None => {
                return Err(Error::MissingTitle);
            },
        };
        let artist = match tags.artist {
            Some(a) => a,
            None => {
                return Err(Error::MissingArtist);
            },
        };
        let album_artist = match tags.album_artist {
            Some(a) => a,
            None => {
                return Err(Error::MissingArtist);
            },
        };
        let year: Option<u16> = match tags.year {
            Some(y) => {
                if y < 0 || y > 65535 {
                    return Err(Error::InvalidYear(y));
                }
                Some(y as u16)
            },
            None => None,
        };
        let album_name = match tags.album_title {
            Some(a) => a,
            None => {
                return Err(Error::MissingAlbum);
            },
        };
        let position = match tags.track_number {
            Some(p) => p,
            None => {
                return Err(Error::MissingPosition);
            },
        };
        let both = [artist.as_str(), album_artist.as_str()];
        let one = [album_artist.as_str()];
        let artists = Artists::parse_strings(both.as_slice());
        let album_artists = Artists::parse_strings(one.as_slice());
        proof {
            assert(raw_views(both@) =~= seq![artist@, album_artist@]);
            assert(raw_views(one@) =~= seq![album_artist@]);
        }
        let genre = match tags.genre {
            Some(g) => g,
            None => String::new(),
        };
        Ok(
            TrackMaxi {
                path,
                title,
                artists,
                album_name,
                album_cover: tags.cover,
                album_artists,
                genre,
                year,
                position,
            },
        )
    }

    /// The path of the file.
    pub fn path(&self) -> (r: &PathBuf)
        ensures
            *r == self@.path,
    {
        &self.path
    }

    /// The title.
    pub fn title(&self) -> (r: &str)
        ensures
            r@ == self@.title,
    {
        self.title.as_str()
    }

    /// The artists of the track.
    pub fn artists(&self) -> (r: &Artists)
        ensures
            r@ == self@.artists,
    {
        &self.artists
    }

    /// The name of the album.
    pub fn album_name(&self) -> (r: &str)
        ensures
            r@ == self@.album_name,
    {
        self.album_name.as_str()
    }

    /// The cover of the album, if the tag had one.
    pub fn album_cover(&self) -> (r: &Option<Cover>)
        ensures
            cover_view(*r) == self@.album_cover,
    {
        &self.album_cover
    }

    /// The artists of the album.
    pub fn album_artists(&self) -> (r: &Artists)
        ensures
            r@ == self@.album_artists,
    {
        &self.album_artists
    }

    /// The genre; empty where the tag had none.
    pub fn genre(&self) -> (r: &str)
        ensures
            r@ == self@.genre,
    {
        self.genre.as_str()
    }

    /// The year, if the tag had one.
    pub fn year(&self) -> (r: Option<u16>)
        ensures
            r == self@.year,
    {
        self.year
    }

    /// The number of the track on its album.
    pub fn position(&self) -> (r: u16)
        ensures
            r == self@.position,
    {
        self.position
    }
}

} // verus!
