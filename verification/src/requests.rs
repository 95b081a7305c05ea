//! What the server answers to requests for the album list, an album and a
//! media file, decided from the request's parameters and the albums.
use vstd::prelude::*;
use crate::album::{
    album_map, albums_wf, find_album_index, find_media, lemma_album_map_at, lemma_media_map_at,
    media_map, selected_names, strings_view, thumbnail_items, Album, deref_items,
    get_selected_media_items,
};
use crate::media_item::{opt_str_view, MediaItem};
use crate::text::{
    chars_eq, chars_seqs, find_from, split_char, split_on, str_chars, string_from_chars,
};

verus! {

/// The album reached from `albums` by following the names of `path`: the
/// album named `path[0]`, then its sub-album named `path[1]`, and so on.
pub open spec fn album_at_path(albums: Seq<Album>, path: Seq<Seq<char>>) -> Option<Album>
    decreases path.len(),
{
    if path.len() == 0 || !album_map(albums).contains_key(path[0]) {
        None
    } else if path.len() == 1 {
        Some(album_map(albums)[path[0]])
    } else {
        album_at_path(album_map(albums)[path[0]].sub_albums@, path.skip(1))
    }
}

/// The texts of a list of string slices.
pub open spec fn strs_view(s: Seq<&str>) -> Seq<Seq<char>> {
    s.map_values(|t: &str| t@)
}

/// The album reached from `a` by following the names of `path` through
/// sub-albums; `a` itself for an empty path.
pub open spec fn descend(a: Album, path: Seq<Seq<char>>) -> Option<Album> {
    if path.len() == 0 {
        Some(a)
    } else {
        album_at_path(a.sub_albums@, path)
    }
}

/// The album at the path of album names `album_names` (see `album_at_path`).
pub fn find_album<'a>(albums: &'a Vec<Album>, album_names: &[&str]) -> (r: Option<&'a Album>)
    requires
        albums_wf(albums@),
        album_names@.len() >= 1,
    ensures
        match r {
            Some(a) => album_at_path(albums@, strs_view(album_names@)) == Some(*a) && a.wf(),
            None => album_at_path(albums@, strs_view(album_names@)) is None,
        },
{
    let ghost path = strs_view(album_names@);
    let first = match find_album_index(albums, album_names[0]) {
        None => {
            assert(!album_map(albums@).contains_key(path[0]));
            return None;
        },
        Some(j) => j,
    };
    proof {
        lemma_album_map_at(albums@, first as int);
    }
    let mut current: &'a Album = &albums[first];
    let mut i: usize = 1;
    assert(album_at_path(albums@, path) == descend(*current, path.skip(1)));
    while i < album_names.len()
        invariant
            1 <= i <= album_names@.len(),
            path == strs_view(album_names@),
            current.wf(),
            album_at_path(albums@, path) == descend(*current, path.skip(i as int)),
        decreases album_names@.len() - i,
    {
        let ghost p = path.skip(i as int);
        assert(p[0] == album_names@[i as int]@);
        assert(p.skip(1) =~= path.skip(i + 1));
        match find_album_index(&current.sub_albums, album_names[i]) {
            None => {
                assert(!album_map(current.sub_albums@).contains_key(p[0]));
                return None;
            },
            Some(j) => {
                proof {
                    lemma_album_map_at(current.sub_albums@, j as int);
                }
                current = &current.sub_albums[j];
            },
        }
        i = i + 1;
    }
    assert(path.skip(i as int).len() == 0);
    Some(current)
}

/// `path` cut at every `/` (see `split_on`).
pub fn split_path(path: &str) -> (r: Vec<String>)
    ensures
        strings_view(r@) == split_on(path@, '/'),
{
    let chars = str_chars(path);
    let parts = split_char(chars.as_slice(), '/');
    let mut out: Vec<String> = Vec::new();
    let mut i: usize = 0;
    while i < parts.len()
        invariant
            i <= parts@.len(),
            out@.len() == i,
            forall|j: int| 0 <= j < i ==> (#[trigger] out@[j])@ == parts@[j]@,
        decreases parts@.len() - i,
    {
        out.push(string_from_chars(parts[i].as_slice()));
        i = i + 1;
    }
    assert(strings_view(out@) =~= chars_seqs(parts@));
    out
}

/// The album list: for each album, its name and the names of up to four
/// media items that stand for it (see `Album::tbnl_names`).
pub fn list_all_albums(albums: &Vec<Album>) -> (r: Vec<(String, Vec<String>)>)
    ensures
        r@.len() == albums@.len(),
        forall|i: int|
            0 <= i < r@.len() ==> (#[trigger] r@[i]).0@ == albums@[i].name@ && strings_view(
                r@[i].1@,
            ) == selected_names(thumbnail_items(albums@[i])),
{
    let mut out: Vec<(String, Vec<String>)> = Vec::new();
    let mut i: usize = 0;
    while i < albums.len()
        invariant
            i <= albums@.len(),
            out@.len() == i,
            forall|j: int|
                0 <= j < i ==> (#[trigger] out@[j]).0@ == albums@[j].name@ && strings_view(
                    out@[j].1@,
                ) == selected_names(thumbnail_items(albums@[j])),
        decreases albums@.len() - i,
    {
        let album = &albums[i];
        out.push((album.name.clone(), album.tbnl_names()));
        i = i + 1;
    }
    out
}

/// The album named by a slash-separated path of album names.
pub open spec fn album_for_path(albums: Seq<Album>, path: Seq<char>) -> Option<Album> {
    album_at_path(albums, split_on(path, '/'))
}

/// Whether a password given with a request opens an album with password
/// `album_pwd`.
pub open spec fn password_matches(given: Option<Seq<char>>, album_pwd: Seq<char>) -> bool {
    given == Some(album_pwd)
}

/// Whether a request with password `given` may see the album `a`: the
/// album has no password, or the request gives it.
pub open spec fn may_open(a: Album, given: Option<Seq<char>>) -> bool {
    match a.pwd {
        None => true,
        Some(p) => password_matches(given, p@),
    }
}

fn password_matches_exec(given: Option<&str>, album_pwd: &String) -> (r: bool)
    ensures
        r == password_matches(opt_str_view(given), album_pwd@),
{
    match given {
        None => false,
        Some(g) => {
            let a = str_chars(g);
            let b = str_chars(album_pwd.as_str());
            chars_eq(a.as_slice(), b.as_slice())
        },
    }
}

/// The album at a slash-separated path of album names.
fn album_by_path<'a>(albums: &'a Vec<Album>, path: &str) -> (r: Option<&'a Album>)
    requires
        albums_wf(albums@),
    ensures
        match r {
            Some(a) => album_for_path(albums@, path@) == Some(*a) && a.wf(),
            None => album_for_path(albums@, path@) is None,
        },
{
    let parts = split_path(path);
    let mut names: Vec<&str> = Vec::new();
    let mut i: usize = 0;
    while i < parts.len()
        invariant
            i <= parts@.len(),
            names@.len() == i,
            forall|j: int| 0 <= j < i ==> (#[trigger] names@[j])@ == parts@[j]@,
        decreases parts@.len() - i,
    {
        names.push(parts[i].as_str());
        i = i + 1;
    }
    assert(strs_view(names@) =~= strings_view(parts@));
    assert(split_on(path@, '/').len() >= 1) by {
        match find_from(path@, seq!['/'], 0) {
            None => {},
            Some(k) => {},
        }
    }
    find_album(albums, names.as_slice())
}

/// The answer to a request for an album.
#[derive(Clone, Debug)]
pub enum AlbumReply<'a> {
    /// 400: the request names no album path.
    BadRequest,
    /// 404: no album has that path.
    NotFound,
    /// Whether the album has a password (asked with `has_pwd`).
    HasPassword(bool),
    /// The names of the album's thumbnails (asked with `tbnl`).
    Thumbnails(Vec<String>),
    /// 401: the album has a password that the request does not give.
    Unauthorized,
    /// The album, to be sent as its `AlbumInfo`.
    Info(&'a Album),
}

/// What an album request is answered, as values.
pub enum AlbumAnswer {
    BadRequest,
    NotFound,
    HasPassword(bool),
    Thumbnails(Seq<Seq<char>>),
    Unauthorized,
    Info(Album),
}

/// The answer `r` as values.
pub open spec fn album_reply_view(r: AlbumReply) -> AlbumAnswer {
    match r {
        AlbumReply::BadRequest => AlbumAnswer::BadRequest,
        AlbumReply::NotFound => AlbumAnswer::NotFound,
        AlbumReply::HasPassword(b) => AlbumAnswer::HasPassword(b),
        AlbumReply::Thumbnails(v) => AlbumAnswer::Thumbnails(strings_view(v@)),
        AlbumReply::Unauthorized => AlbumAnswer::Unauthorized,
        AlbumReply::Info(a) => AlbumAnswer::Info(*a),
    }
}

/// What a request for the album at `path` is answered: 400 without a
/// path, 404 where no album has it; then, for a request with `has_pwd`,
/// whether the album has a password; for one with `tbnl`, the names of the
/// first four of its own media items; otherwise the album itself where the
/// request may open it (see `may_open`), else 401.
pub open spec fn album_answer(
    albums: Seq<Album>,
    path: Option<Seq<char>>,
    has_pwd: bool,
    tbnl: bool,
    pwd: Option<Seq<char>>,
) -> AlbumAnswer {
    match path {
        None => AlbumAnswer::BadRequest,
        Some(p) => match album_for_path(albums, p) {
            None => AlbumAnswer::NotFound,
            Some(a) => if has_pwd {
                AlbumAnswer::HasPassword(a.pwd is Some)
            } else if tbnl {
                AlbumAnswer::Thumbnails(selected_names(a.medias@))
            } else if may_open(a, pwd) {
                AlbumAnswer::Info(a)
            } else {
                AlbumAnswer::Unauthorized
            },
        },
    }
}

/// The answer to a request for the album at `path` (`None` where the
/// request has no `path` parameter); `has_pwd` and `tbnl` tell whether the
/// request has those parameters and `pwd` is its password parameter.
pub fn get_album<'a>(
    albums: &'a Vec<Album>,
    path: Option<&str>,
    has_pwd: bool,
    tbnl: bool,
    pwd: Option<&str>,
) -> (r: AlbumReply<'a>)
    requires
        albums_wf(albums@),
    ensures
        album_reply_view(r) == album_answer(albums@, opt_str_view(path), has_pwd, tbnl, opt_str_view(pwd)),
{
    let p = match path {
        None => return AlbumReply::BadRequest,
        Some(p) => p,
    };
    let album = match album_by_path(albums, p) {
        None => return AlbumReply::NotFound,
        Some(a) => a,
    };
    if has_pwd {
        return AlbumReply::HasPassword(album.pwd.is_some());
    }
    if tbnl {
        let mut items: Vec<&MediaItem> = Vec::new();
        let mut k: usize = 0;
        while k < album.medias.len()
            invariant
                k <= album.medias@.len(),
                deref_items(items@) =~= album.medias@.take(k as int),
            decreases album.medias@.len() - k,
        {
            let ghost prev = items@;
            let item = &album.medias[k];
            items.push(item);
            assert(deref_items(items@) =~= deref_items(prev).push(album.medias@[k as int]));
            k = k + 1;
            assert(album.medias@.take(k as int) =~= album.medias@.take(k - 1).push(
                album.medias@[k - 1],
            ));
        }
        assert(album.medias@.take(album.medias@.len() as int) =~= album.medias@);
        return AlbumReply::Thumbnails(get_selected_media_items(items));
    }
    match &album.pwd {
        Some(album_pwd) => {
            if password_matches_exec(pwd, album_pwd) {
                AlbumReply::Info(album)
            } else {
                AlbumReply::Unauthorized
            }
        },
        None => AlbumReply::Info(album),
    }
}

/// The answer to a request for a media file.
#[derive(Clone, Debug)]
pub enum MediaReply<'a> {
    /// 400: the request names no album path or no media name.
    BadRequest,
    /// 404: no album has that path, or the album has no media of that name.
    NotFound,
    /// 401: the album has a password that the request does not give.
    Unauthorized,
    /// Send the media item's thumbnail (`thumbnail`) or large preview.
    Preview { media: &'a MediaItem, thumbnail: bool },
    /// Send the media file itself.
    File(&'a MediaItem),
}

/// `1` as characters.
pub open spec fn level_one() -> Seq<char> {
    seq!['1']
}

/// What a media request is answered, as values.
pub enum MediaAnswer {
    BadRequest,
    NotFound,
    Unauthorized,
    Preview(MediaItem, bool),
    File(MediaItem),
}

/// The answer `r` as values.
pub open spec fn media_reply_view(r: MediaReply) -> MediaAnswer {
    match r {
        MediaReply::BadRequest => MediaAnswer::BadRequest,
        MediaReply::NotFound => MediaAnswer::NotFound,
        MediaReply::Unauthorized => MediaAnswer::Unauthorized,
        MediaReply::Preview { media, thumbnail } => MediaAnswer::Preview(*media, thumbnail),
        MediaReply::File(m) => MediaAnswer::File(*m),
    }
}

/// What a request for the media item `name` of the album at `path` is
/// answered: 400 without a path or a name, 404 where no album has the path
/// or the album has no item of that name, 401 where the request may not
/// open the album (see `may_open`); otherwise the item's preview where the
/// request gives a preview level (the thumbnail for level `1`), else the
/// file itself.
pub open spec fn media_answer(
    albums: Seq<Album>,
    path: Option<Seq<char>>,
    name: Option<Seq<char>>,
    tbnl: Option<Seq<char>>,
    pwd: Option<Seq<char>>,
) -> MediaAnswer {
    match (path, name) {
        (Some(p), Some(n)) => match album_for_path(albums, p) {
            None => MediaAnswer::NotFound,
            Some(a) => if !media_map(a.medias@).contains_key(n) {
                MediaAnswer::NotFound
            } else if !may_open(a, pwd) {
                MediaAnswer::Unauthorized
            } else {
                match tbnl {
                    Some(level) => MediaAnswer::Preview(
                        media_map(a.medias@)[n],
                        level == level_one(),
                    ),
                    None => MediaAnswer::File(media_map(a.medias@)[n]),
                }
            },
        },
        _ => MediaAnswer::BadRequest,
    }
}

/// The answer to a request for the media item named `name` (`None` where
/// the request has no `name` parameter) in the album at `path`; `tbnl` is
/// the request's preview level parameter, where there is one (level `1`
/// asks for the thumbnail, any other level for the large preview), and
/// `pwd` its password parameter.
pub fn get_media<'a>(
    albums: &'a Vec<Album>,
    path: Option<&str>,
    name: Option<&str>,
    tbnl: Option<&str>,
    pwd: Option<&str>,
) -> (r: MediaReply<'a>)
    requires
        albums_wf(albums@),
    ensures
        media_reply_view(r) == media_answer(
            albums@,
            opt_str_view(path),
            opt_str_view(name),
            opt_str_view(tbnl),
            opt_str_view(pwd),
        ),
{
    let p = match path {
        None => return MediaReply::BadRequest,
        Some(p) => p,
    };
    let n = match name {
        None => return MediaReply::BadRequest,
        Some(n) => n,
    };
    let album = match album_by_path(albums, p) {
        None => return MediaReply::NotFound,
        Some(a) => a,
    };
    let j = match find_media(&album.medias, n) {
        None => {
            assert(!media_map(album.medias@).contains_key(n@));
            return MediaReply::NotFound;
        },
        Some(j) => j,
    };
    proof {
        lemma_media_map_at(album.medias@, j as int);
    }
    let media = &album.medias[j];
    if let Some(album_pwd) = &album.pwd {
        if !password_matches_exec(pwd, album_pwd) {
            return MediaReply::Unauthorized;
        }
    }
    match tbnl {
        Some(level) => {
            let lc = str_chars(level);
            let one = vec!['1'];
            assert(one@ =~= level_one());
            MediaReply::Preview { media, thumbnail: chars_eq(lc.as_slice(), one.as_slice()) }
        },
        None => MediaReply::File(media),
    }
}

} // verus!
