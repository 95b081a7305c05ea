//! Albums: named trees of photos and videos, possibly protected by a
//! password, and the summaries that clients see of them.
use vstd::prelude::*;
use crate::media_item::MediaItem;
use crate::text::{chars_eq, push_digits, str_chars, string_from_chars};

verus! {

/// An album: its photos and videos and its sub-albums, each kept at most
/// once per name.
#[derive(Debug)]
pub struct Album {
    /// The album's name (the name of its folder).
    pub name: String,
    /// The album's photos and videos.
    pub medias: Vec<MediaItem>,
    /// The album's sub-albums.
    pub sub_albums: Vec<Album>,
    /// The album's password, if it has one.
    pub pwd: Option<String>,
}

/// Whether no two media items of `s` have the same name.
pub open spec fn media_names_distinct(s: Seq<MediaItem>) -> bool {
    forall|i: int, j: int|
        0 <= i < s.len() && 0 <= j < s.len() && i != j ==> #[trigger] s[i].name@ != #[trigger] s[j].name@
}

/// Whether no two albums of `s` have the same name.
pub open spec fn album_names_distinct(s: Seq<Album>) -> bool {
    forall|i: int, j: int|
        0 <= i < s.len() && 0 <= j < s.len() && i != j ==> #[trigger] s[i].name@ != #[trigger] s[j].name@
}

impl Album {
    /// Whether the album keeps each name at most once, among its media items
    /// and among its sub-albums, and so do all its sub-albums.
    pub open spec fn wf(&self) -> bool
        decreases self,
    {
        &&& media_names_distinct(self.medias@)
        &&& album_names_distinct(self.sub_albums@)
        &&& forall|i: int| 0 <= i < self.sub_albums@.len() ==> (#[trigger] self.sub_albums@[i]).wf()
    }
}

/// The media items of `s` by name, as a map from name to item.
pub open spec fn media_map(s: Seq<MediaItem>) -> Map<Seq<char>, MediaItem> {
    Map::new(
        |k: Seq<char>| exists|i: int| 0 <= i < s.len() && s[i].name@ == k,
        |k: Seq<char>| s[choose|i: int| 0 <= i < s.len() && s[i].name@ == k],
    )
}

/// The albums of `s` by name, as a map from name to album.
pub open spec fn album_map(s: Seq<Album>) -> Map<Seq<char>, Album> {
    Map::new(
        |k: Seq<char>| exists|i: int| 0 <= i < s.len() && s[i].name@ == k,
        |k: Seq<char>| s[choose|i: int| 0 <= i < s.len() && s[i].name@ == k],
    )
}

/// In a list of items with distinct names, the map holds each item under
/// its name.
pub proof fn lemma_media_map_at(s: Seq<MediaItem>, i: int)
    requires
        media_names_distinct(s),
        0 <= i < s.len(),
    ensures
        media_map(s).contains_key(s[i].name@),
        media_map(s)[s[i].name@] == s[i],
{
    let k = s[i].name@;
    assert(exists|j: int| 0 <= j < s.len() && s[j].name@ == k);
    let j = choose|j: int| 0 <= j < s.len() && s[j].name@ == k;
    assert(j == i);
}

/// In a list of albums with distinct names, the map holds each album under
/// its name.
pub proof fn lemma_album_map_at(s: Seq<Album>, i: int)
    requires
        album_names_distinct(s),
        0 <= i < s.len(),
    ensures
        album_map(s).contains_key(s[i].name@),
        album_map(s)[s[i].name@] == s[i],
{
    let k = s[i].name@;
    assert(exists|j: int| 0 <= j < s.len() && s[j].name@ == k);
    let j = choose|j: int| 0 <= j < s.len() && s[j].name@ == k;
    assert(j == i);
}

/// The position of the media item named `name`, if there is one.
pub fn find_media(s: &Vec<MediaItem>, name: &str) -> (r: Option<usize>)
    ensures
        r matches Some(j) ==> j < s@.len() && s@[j as int].name@ == name@,
        r is None ==> forall|i: int| 0 <= i < s@.len() ==> #[trigger] s@[i].name@ != name@,
{
    let target = str_chars(name);
    let mut i: usize = 0;
    while i < s.len()
        invariant
            i <= s@.len(),
            target@ == name@,
            forall|j: int| 0 <= j < i ==> #[trigger] s@[j].name@ != name@,
        decreases s.len() - i,
    {
        let n = str_chars(s[i].name.as_str());
        if chars_eq(n.as_slice(), target.as_slice()) {
            return Some(i);
        }
        i = i + 1;
    }
    None
}

/// The position of the album named `name`, if there is one.
pub fn find_album_index(s: &Vec<Album>, name: &str) -> (r: Option<usize>)
    ensures
        r matches Some(j) ==> j < s@.len() && s@[j as int].name@ == name@,
        r is None ==> forall|i: int| 0 <= i < s@.len() ==> #[trigger] s@[i].name@ != name@,
{
    let target = str_chars(name);
    let mut i: usize = 0;
    while i < s.len()
        invariant
            i <= s@.len(),
            target@ == name@,
            forall|j: int| 0 <= j < i ==> #[trigger] s@[j].name@ != name@,
        decreases s.len() - i,
    {
        let n = str_chars(s[i].name.as_str());
        if chars_eq(n.as_slice(), target.as_slice()) {
            return Some(i);
        }
        i = i + 1;
    }
    None
}

/// Puts `media` under its name into `s`, replacing an item of the same
/// name, as `HashMap::insert` does with the name as key.
pub fn insert_media(s: &mut Vec<MediaItem>, media: MediaItem)
    requires
        media_names_distinct(old(s)@),
    ensures
        media_names_distinct(final(s)@),
        media_map(final(s)@) == media_map(old(s)@).insert(media.name@, media),
        final(s)@.len() <= old(s)@.len() + 1,
        forall|i: int| 0 <= i < old(s)@.len() && old(s)@[i].name@ != media.name@
            ==> final(s)@[i] == old(s)@[i],
        forall|i: int| 0 <= i < final(s)@.len() ==> final(s)@[i] == media || old(s)@.contains(
            #[trigger] final(s)@[i],
        ),
{
    let ghost key = media.name@;
    let ghost m = media;
    let ghost before = s@;
    match find_media(s, media.name.as_str()) {
        Some(j) => {
            s.set(j, media);
            assert(s@ == before.update(j as int, m));
            assert forall|i: int| 0 <= i < s@.len() && s@[i] != m implies before.contains(
                #[trigger] s@[i],
            ) by {
                assert(before[i] == s@[i]);
            }
            assert(media_map(s@) =~= media_map(before).insert(key, m)) by {
                assert forall|k: Seq<char>| #[trigger] media_map(s@).contains_key(k)
                    == media_map(before).insert(key, m).contains_key(k) by {
                    if media_map(before).insert(key, m).contains_key(k) && k != key {
                        let i = choose|i: int| 0 <= i < before.len() && before[i].name@ == k;
                        assert(s@[i].name@ == k);
                    }
                    if media_map(s@).contains_key(k) && k != key {
                        let i = choose|i: int| 0 <= i < s@.len() && s@[i].name@ == k;
                        assert(before[i].name@ == k);
                    }
                    if k == key {
                        assert(s@[j as int].name@ == k);
                    }
                }
                assert forall|k: Seq<char>| #[trigger] media_map(s@).contains_key(k) implies
                    media_map(s@)[k] == media_map(before).insert(key, m)[k] by {
                    let i = choose|i: int| 0 <= i < s@.len() && s@[i].name@ == k;
                    lemma_media_map_at(s@, i);
                    if k != key {
                        assert(before[i].name@ == k);
                        lemma_media_map_at(before, i);
                    }
                }
            }
        },
        None => {
            s.push(media);
            assert(s@ == before.push(m));
            assert forall|i: int| 0 <= i < s@.len() && s@[i] != m implies before.contains(
                #[trigger] s@[i],
            ) by {
                assert(before[i] == s@[i]);
            }
            assert(media_map(s@) =~= media_map(before).insert(key, m)) by {
                assert forall|k: Seq<char>| #[trigger] media_map(s@).contains_key(k)
                    == media_map(before).insert(key, m).contains_key(k) by {
                    if media_map(before).insert(key, m).contains_key(k) && k != key {
                        let i = choose|i: int| 0 <= i < before.len() && before[i].name@ == k;
                        assert(s@[i].name@ == k);
                    }
                    if media_map(s@).contains_key(k) && k != key {
                        let i = choose|i: int| 0 <= i < s@.len() && s@[i].name@ == k;
                        assert(before[i].name@ == k);
                    }
                    if k == key {
                        assert(s@[before.len() as int].name@ == k);
                    }
                }
                assert forall|k: Seq<char>| #[trigger] media_map(s@).contains_key(k) implies
                    media_map(s@)[k] == media_map(before).insert(key, m)[k] by {
                    let i = choose|i: int| 0 <= i < s@.len() && s@[i].name@ == k;
                    lemma_media_map_at(s@, i);
                    if k != key {
                        assert(before[i].name@ == k);
                        lemma_media_map_at(before, i);
                    }
                }
            }
        },
    }
}

/// Puts `album` under its name into `s`, replacing an album of the same
/// name, as `HashMap::insert` does with the name as key.
pub fn insert_album(s: &mut Vec<Album>, album: Album)
    requires
        album_names_distinct(old(s)@),
    ensures
        album_names_distinct(final(s)@),
        album_map(final(s)@) == album_map(old(s)@).insert(album.name@, album),
        final(s)@.len() <= old(s)@.len() + 1,
        forall|i: int| 0 <= i < old(s)@.len() && old(s)@[i].name@ != album.name@
            ==> final(s)@[i] == old(s)@[i],
        forall|i: int| 0 <= i < final(s)@.len() ==> final(s)@[i] == album || old(s)@.contains(
            #[trigger] final(s)@[i],
        ),
{
    let ghost key = album.name@;
    let ghost m = album;
    let ghost before = s@;
    match find_album_index(s, album.name.as_str()) {
        Some(j) => {
            s.set(j, album);
            assert(s@ == before.update(j as int, m));
            assert forall|i: int| 0 <= i < s@.len() && s@[i] != m implies before.contains(
                #[trigger] s@[i],
            ) by {
                assert(before[i] == s@[i]);
            }
            assert(album_map(s@) =~= album_map(before).insert(key, m)) by {
                assert forall|k: Seq<char>| #[trigger] album_map(s@).contains_key(k)
                    == album_map(before).insert(key, m).contains_key(k) by {
                    if album_map(before).insert(key, m).contains_key(k) && k != key {
                        let i = choose|i: int| 0 <= i < before.len() && before[i].name@ == k;
                        assert(s@[i].name@ == k);
                    }
                    if album_map(s@).contains_key(k) && k != key {
                        let i = choose|i: int| 0 <= i < s@.len() && s@[i].name@ == k;
                        assert(before[i].name@ == k);
                    }
                    if k == key {
                        assert(s@[j as int].name@ == k);
                    }
                }
                assert forall|k: Seq<char>| #[trigger] album_map(s@).contains_key(k) implies
                    album_map(s@)[k] == album_map(before).insert(key, m)[k] by {
                    let i = choose|i: int| 0 <= i < s@.len() && s@[i].name@ == k;
                    lemma_album_map_at(s@, i);
                    if k != key {
                        assert(before[i].name@ == k);
                        lemma_album_map_at(before, i);
                    }
                }
            }
        },
        None => {
            s.push(album);
            assert(s@ == before.push(m));
            assert forall|i: int| 0 <= i < s@.len() && s@[i] != m implies before.contains(
                #[trigger] s@[i],
            ) by {
                assert(before[i] == s@[i]);
            }
            assert(album_map(s@) =~= album_map(before).insert(key, m)) by {
                assert forall|k: Seq<char>| #[trigger] album_map(s@).contains_key(k)
                    == album_map(before).insert(key, m).contains_key(k) by {
                    if album_map(before).insert(key, m).contains_key(k) && k != key {
                        let i = choose|i: int| 0 <= i < before.len() && before[i].name@ == k;
                        assert(s@[i].name@ == k);
                    }
                    if album_map(s@).contains_key(k) && k != key {
                        let i = choose|i: int| 0 <= i < s@.len() && s@[i].name@ == k;
                        assert(before[i].name@ == k);
                    }
                    if k == key {
                        assert(s@[before.len() as int].name@ == k);
                    }
                }
                assert forall|k: Seq<char>| #[trigger] album_map(s@).contains_key(k) implies
                    album_map(s@)[k] == album_map(before).insert(key, m)[k] by {
                    let i = choose|i: int| 0 <= i < s@.len() && s@[i].name@ == k;
                    lemma_album_map_at(s@, i);
                    if k != key {
                        assert(before[i].name@ == k);
                        lemma_album_map_at(before, i);
                    }
                }
            }
        },
    }
}

/// Whether a list of albums keeps each name at most once and every album
/// in it is well formed.
pub open spec fn albums_wf(s: Seq<Album>) -> bool {
    &&& album_names_distinct(s)
    &&& forall|i: int| 0 <= i < s.len() ==> (#[trigger] s[i]).wf()
}

/// Puts a scanned album under its name into `albums` unless it holds
/// neither media items nor sub-albums, in which case it is left out.
pub fn add_album(albums: &mut Vec<Album>, album: Album)
    requires
        albums_wf(old(albums)@),
        album.wf(),
    ensures
        albums_wf(final(albums)@),
        album.is_empty_spec() ==> final(albums)@ == old(albums)@,
        !album.is_empty_spec() ==> album_map(final(albums)@) == album_map(old(albums)@).insert(
            album.name@,
            album,
        ),
        album.medias@.len() == 0 && album.sub_albums@.len() == 0 ==> final(albums)@ == old(
            albums,
        )@,
        album.medias@.len() > 0 || album.sub_albums@.len() > 0 ==> album_map(final(albums)@)
            == album_map(old(albums)@).insert(album.name@, album),
{
    if album.is_empty() {
        return;
    }
    let ghost a = album;
    let ghost before = albums@;
    insert_album(albums, album);
    assert forall|i: int| 0 <= i < albums@.len() implies (#[trigger] albums@[i]).wf() by {
        if albums@[i] != a {
            assert(before.contains(albums@[i]));
            let j = choose|j: int| 0 <= j < before.len() && before[j] == albums@[i];
            assert(before[j].wf());
        }
    }
}

impl Album {
    /// An album named `name` with no media items, sub-albums or password.
    pub fn new(name: String) -> (r: Self)
        ensures
            r.name == name,
            r.medias@.len() == 0,
            r.sub_albums@.len() == 0,
            r.pwd is None,
            r.wf(),
    {
        Album { name, medias: Vec::new(), sub_albums: Vec::new(), pwd: None }
    }

    /// Whether the album holds neither media items nor sub-albums.
    pub open spec fn is_empty_spec(&self) -> bool {
        self.medias@.len() == 0 && self.sub_albums@.len() == 0
    }

    /// Whether the album holds neither media items nor sub-albums.
    pub fn is_empty(&self) -> (r: bool)
        ensures
            r == self.is_empty_spec(),
            r == (self.medias@.len() == 0 && self.sub_albums@.len() == 0),
    {
        self.medias.len() == 0 && self.sub_albums.len() == 0
    }

    /// Puts `media` into the album under its name, replacing an item of the
    /// same name.
    pub fn add_media(&mut self, media: MediaItem)
        requires
            old(self).wf(),
        ensures
            final(self).wf(),
            media_map(final(self).medias@) == media_map(old(self).medias@).insert(
                media.name@,
                media,
            ),
            final(self).name == old(self).name,
            final(self).pwd == old(self).pwd,
            final(self).sub_albums == old(self).sub_albums,
    {
        insert_media(&mut self.medias, media);
    }

    /// Puts a scanned sub-album into the album under its name, replacing a
    /// sub-album of the same name, unless it holds neither media items nor
    /// sub-albums, in which case it is left out.
    pub fn add_sub_album(&mut self, sub: Album)
        requires
            old(self).wf(),
            sub.wf(),
        ensures
            final(self).wf(),
            sub.is_empty_spec() ==> final(self).sub_albums@ == old(self).sub_albums@,
            sub.medias@.len() == 0 && sub.sub_albums@.len() == 0 ==> final(self).sub_albums@ == old(
                self,
            ).sub_albums@,
            sub.medias@.len() > 0 || sub.sub_albums@.len() > 0 ==> album_map(
                final(self).sub_albums@,
            ) == album_map(old(self).sub_albums@).insert(sub.name@, sub),
            !sub.is_empty_spec() ==> album_map(final(self).sub_albums@) == album_map(
                old(self).sub_albums@,
            ).insert(sub.name@, sub),
            final(self).name == old(self).name,
            final(self).pwd == old(self).pwd,
            final(self).medias == old(self).medias,
    {
        assert(albums_wf(self.sub_albums@));
        add_album(&mut self.sub_albums, sub);
    }
}

/// The media items that `collect_media_from_sub_albums` appends while it
/// goes through the albums `subs` from position `start` on, when `n` items
/// have been gathered so far: each album's items, then, unless that makes
/// four or more, the items gathered from its own sub-albums, and so on with
/// the next album. Reaching four items ends the walk through this list, but
/// not through the lists that enclose it.
pub open spec fn collect_from(subs: Seq<Album>, start: int, n: nat) -> Seq<MediaItem>
    decreases subs, subs.len() - start,
{
    if start < 0 || start >= subs.len() {
        Seq::empty()
    } else {
        let a = subs[start].medias@;
        if n + a.len() >= 4 {
            a
        } else {
            let deeper = collect_from(subs[start].sub_albums@, 0, n + a.len());
            a + deeper + collect_from(subs, start + 1, n + a.len() + deeper.len())
        }
    }
}

/// The media items a list of references points to.
pub open spec fn deref_items(s: Seq<&MediaItem>) -> Seq<MediaItem> {
    s.map_values(|m: &MediaItem| *m)
}

/// Appends to `media_items` the media items of the sub-albums of `album`,
/// going deeper as `collect_from` describes, to find at least four items
/// for an album's thumbnails where there are enough.
pub fn collect_media_from_sub_albums<'a>(album: &'a Album, media_items: &mut Vec<&'a MediaItem>)
    ensures
        deref_items(final(media_items)@) == deref_items(old(media_items)@) + collect_from(
            album.sub_albums@,
            0,
            old(media_items)@.len(),
        ),
    decreases album,
{
    let ghost start_items = deref_items(media_items@);
    let ghost subs = album.sub_albums@;
    let mut i: usize = 0;
    assert(deref_items(media_items@) + collect_from(subs, 0, media_items@.len()) =~= start_items
        + collect_from(subs, 0, start_items.len()));
    while i < album.sub_albums.len()
        invariant
            i <= subs.len(),
            subs == album.sub_albums@,
            start_items == deref_items(old(media_items)@),
            start_items.len() == old(media_items)@.len(),
            deref_items(media_items@) + collect_from(subs, i as int, media_items@.len())
                == start_items + collect_from(subs, 0, start_items.len()),
        decreases subs.len() - i,
    {
        let sub = &album.sub_albums[i];
        let ghost before = deref_items(media_items@);
        let mut k: usize = 0;
        while k < sub.medias.len()
            invariant
                k <= sub.medias@.len(),
                deref_items(media_items@) == before + sub.medias@.take(k as int),
            decreases sub.medias@.len() - k,
        {
            let ghost prev = media_items@;
            let item = &sub.medias[k];
            media_items.push(item);
            assert(media_items@ == prev.push(item));
            assert(deref_items(media_items@) =~= deref_items(prev).push(sub.medias@[k as int]));
            k = k + 1;
            assert(sub.medias@.take(k as int) =~= sub.medias@.take(k - 1).push(
                sub.medias@[k - 1],
            ));
            assert(deref_items(media_items@) =~= before + sub.medias@.take(k as int));
        }
        assert(sub.medias@.take(sub.medias@.len() as int) =~= sub.medias@);
        assert(deref_items(media_items@).len() == media_items@.len());
        assert(deref_items(media_items@) == before + sub.medias@);
        if media_items.len() >= 4 {
            assert(collect_from(subs, i as int, before.len()) == sub.medias@);
            return;
        }
        let ghost mid = deref_items(media_items@);
        collect_media_from_sub_albums(sub, media_items);
        i = i + 1;
        assert(deref_items(media_items@).len() == media_items@.len());
        assert(before.len() + sub.medias@.len() == mid.len());
        assert(deref_items(media_items@) + collect_from(subs, i as int, media_items@.len())
            =~= before + collect_from(subs, i - 1, before.len()));
    }
    assert(collect_from(subs, i as int, media_items@.len()) =~= Seq::<MediaItem>::empty());
    assert(deref_items(media_items@) =~= deref_items(media_items@) + Seq::<MediaItem>::empty());
}

/// The texts of a list of strings.
pub open spec fn strings_view(s: Seq<String>) -> Seq<Seq<char>> {
    s.map_values(|t: String| t@)
}

/// The names of a list of media items.
pub open spec fn item_names(s: Seq<MediaItem>) -> Seq<Seq<char>> {
    s.map_values(|m: MediaItem| m.name@)
}

/// The names of the first four media items of `s` (of all, where there are
/// fewer).
pub open spec fn selected_names(s: Seq<MediaItem>) -> Seq<Seq<char>> {
    item_names(
        if s.len() <= 4 {
            s
        } else {
            s.take(4)
        },
    )
}

/// The names of the first four of `media_items`, or of all where there are
/// fewer: the thumbnails shown for an album.
pub fn get_selected_media_items(media_items: Vec<&MediaItem>) -> (r: Vec<String>)
    ensures
        strings_view(r@) == selected_names(deref_items(media_items@)),
{
    let n = if media_items.len() <= 4 {
        media_items.len()
    } else {
        4
    };
    let ghost items = deref_items(media_items@);
    let ghost chosen = if items.len() <= 4 {
        items
    } else {
        items.take(4)
    };
    assert(chosen.len() == n);
    let mut out: Vec<String> = Vec::new();
    let mut i: usize = 0;
    while i < n
        invariant
            i <= n,
            n <= media_items@.len(),
            items == deref_items(media_items@),
            chosen.len() == n,
            forall|j: int| 0 <= j < n ==> #[trigger] chosen[j] == items[j],
            strings_view(out@) =~= item_names(chosen.take(i as int)),
        decreases n - i,
    {
        let name = media_items[i].name.clone();
        assert(items[i as int] == *media_items@[i as int]);
        assert(name@ == chosen[i as int].name@);
        let ghost prev = out@;
        out.push(name);
        assert(strings_view(out@) =~= strings_view(prev).push(chosen[i as int].name@));
        i = i + 1;
        assert(chosen.take(i as int) =~= chosen.take(i - 1).push(chosen[i - 1]));
        assert(strings_view(out@) =~= item_names(chosen.take(i as int)));
    }
    assert(chosen.take(n as int) =~= chosen);
    out
}

/// The media items an album's thumbnails are chosen from: its own items,
/// followed, where it has fewer than four, by items gathered from its
/// sub-albums (see `collect_from`).
pub open spec fn thumbnail_items(a: Album) -> Seq<MediaItem> {
    if a.medias@.len() < 4 {
        a.medias@ + collect_from(a.sub_albums@, 0, a.medias@.len())
    } else {
        a.medias@
    }
}

/// An album as a line of the album list: its name and the names of up to
/// four media items that stand for it.
#[derive(Clone, Debug)]
pub struct AlbumTbnl {
    pub name: String,
    pub tbnl_ids: Vec<String>,
}

/// What a client sees of an album: its name, its media items and its
/// sub-albums as lines of an album list.
#[derive(Clone, Debug)]
pub struct AlbumInfo {
    pub name: String,
    pub medias: Vec<MediaItem>,
    pub sub_albums: Vec<AlbumTbnl>,
}

impl Album {
    /// The names of up to four media items that stand for the album: the
    /// first four of `thumbnail_items`.
    pub fn tbnl_names(&self) -> (r: Vec<String>)
        ensures
            strings_view(r@) == selected_names(thumbnail_items(*self)),
    {
        let mut items: Vec<&MediaItem> = Vec::new();
        let mut k: usize = 0;
        while k < self.medias.len()
            invariant
                k <= self.medias@.len(),
                deref_items(items@) =~= self.medias@.take(k as int),
            decreases self.medias@.len() - k,
        {
            let ghost prev = items@;
            let item = &self.medias[k];
            items.push(item);
            assert(deref_items(items@) =~= deref_items(prev).push(self.medias@[k as int]));
            k = k + 1;
            assert(self.medias@.take(k as int) =~= self.medias@.take(k - 1).push(
                self.medias@[k - 1],
            ));
        }
        assert(self.medias@.take(self.medias@.len() as int) =~= self.medias@);
        assert(items@.len() == self.medias@.len());
        if items.len() < 4 {
            collect_media_from_sub_albums(self, &mut items);
        }
        get_selected_media_items(items)
    }

    /// The album as a client sees it; each sub-album becomes a line with its
    /// name and thumbnails (see `tbnl_names`).
    pub fn into_info(self) -> (r: AlbumInfo)
        ensures
            r.name == self.name,
            r.medias == self.medias,
            r.sub_albums@.len() == self.sub_albums@.len(),
            forall|i: int|
                0 <= i < r.sub_albums@.len() ==> (#[trigger] r.sub_albums@[i]).name@
                    == self.sub_albums@[i].name@ && strings_view(r.sub_albums@[i].tbnl_ids@)
                    == selected_names(thumbnail_items(self.sub_albums@[i])),
    {
        let mut lines: Vec<AlbumTbnl> = Vec::new();
        let mut i: usize = 0;
        while i < self.sub_albums.len()
            invariant
                i <= self.sub_albums@.len(),
                lines@.len() == i,
                forall|j: int|
                    0 <= j < i ==> (#[trigger] lines@[j]).name@ == self.sub_albums@[j].name@
                        && strings_view(lines@[j].tbnl_ids@) == selected_names(
                        thumbnail_items(self.sub_albums@[j]),
                    ),
            decreases self.sub_albums@.len() - i,
        {
            let sub = &self.sub_albums[i];
            let tbnl_ids = sub.tbnl_names();
            lines.push(AlbumTbnl { name: sub.name.clone(), tbnl_ids });
            i = i + 1;
        }
        AlbumInfo { name: self.name, medias: self.medias, sub_albums: lines }
    }

    /// The album as a line of an album list: its name and the number of its
    /// media items, as `{name} {count}x `.
    pub fn to_display_string(&self) -> (r: String)
        ensures
            r@ == self.name@ + seq![' '] + crate::text::decimal(self.medias@.len()) + seq!['x', ' '],
    {
        let mut out = str_chars(self.name.as_str());
        out.push(' ');
        push_digits(&mut out, self.medias.len() as u64, 10);
        out.push('x');
        out.push(' ');
        string_from_chars(out.as_slice())
    }
}

} // verus!
