//! Properties of the library as a whole, each stated over the same spec
//! functions as the contracts and proved.
use vstd::prelude::*;
use crate::text::{
    ascii_lower_seq,
    all_digits, decimal, hex, unicode_lowercase, digit_char, digit_value, digits_value, find_from,
    is_digit, lemma_find_from, occurs_at, parse_unsigned, split_on, unsigned_digits, DIGITS,
};
use crate::media_sender::{bytes_prefix, media_etag_text, spec_parse_range, Range};
use crate::album::{album_map, collect_from, media_map, selected_names, thumbnail_items, Album};
use crate::media_item::{path_extension, spec_scanned_file, MediaItem, ScannedFile};
use crate::media_processing::{ends_with, preview_action_for, PreviewAction};
use crate::requests::{
    album_answer, album_at_path, album_for_path, level_one, may_open, media_answer, AlbumAnswer,
    MediaAnswer,
};
use crate::media_item::{
    lower_extension, media_time, preview_path, spec_is_heif_image, spec_is_image, spec_is_jpg_image,
    spec_is_video,
};
use crate::gallery::{padded_ids, tbnl_ids};
use crate::util::{
    div_round_half_even, f64_round_from, f64_value, human_size_text, round_to_multiple,
    unit_index_from,
};
use vstd::arithmetic::power2::{lemma2_to64, lemma2_to64_rest, lemma_pow2_strictly_increases, pow2};

verus! {

proof fn lemma_digit_char(d: nat)
    requires
        d < 10,
    ensures
        is_digit(digit_char(d)),
        digit_value(digit_char(d)) == d,
        digit_char(d) != '+',
        digit_char(d) != '-',
        digit_char(d) != '/',
{
    assert(DIGITS@ =~= seq!['0', '1', '2', '3', '4', '5', '6', '7', '8', '9', 'a', 'b', 'c', 'd', 'e', 'f']);
}

/// The decimal digits of `n` are digits that spell `n`.
pub proof fn lemma_decimal_digits(n: nat)
    ensures
        decimal(n).len() > 0,
        all_digits(decimal(n)),
        digits_value(decimal(n)) == n,
        decimal(n)[0] != '+',
    decreases n,
{
    if n < 10 {
        lemma_digit_char(n);
        assert(decimal(n) =~= seq![digit_char(n)]);
        assert(decimal(n).drop_last() =~= Seq::<char>::empty());
        assert(digits_value(decimal(n)) == digits_value(decimal(n).drop_last()) * 10 + digit_value(
            decimal(n).last(),
        ));
    } else {
        lemma_decimal_digits(n / 10);
        lemma_digit_char(n % 10);
        let d = decimal(n);
        assert(d == decimal(n / 10).push(digit_char(n % 10)));
        assert(d.drop_last() =~= decimal(n / 10));
        assert(d[0] == decimal(n / 10)[0]);
        assert(d.last() == digit_char(n % 10));
        assert(digits_value(d) == digits_value(d.drop_last()) * 10 + digit_value(d.last()));
        assert((n / 10) * 10 + n % 10 == n);
        assert forall|i: int| 0 <= i < d.len() implies is_digit(#[trigger] d[i]) by {
            if i < d.len() - 1 {
                assert(d[i] == decimal(n / 10)[i]);
            }
        }
    }
}

/// Reading back a number written in decimal gives the number: what
/// `str::parse` reads from `n.to_string()` is `n`, for every `n` that fits
/// the type. So a video length stored in its cache file as text is read
/// back unchanged.
pub proof fn lemma_parse_decimal(n: nat, max: nat)
    requires
        n <= max,
    ensures
        parse_unsigned(decimal(n), max) == Some(n),
{
    lemma_decimal_digits(n);
    assert(unsigned_digits(decimal(n)) == decimal(n));
}

proof fn lemma_no_occurrence(s: Seq<char>, c: char)
    requires
        !s.contains(c),
    ensures
        find_from(s, seq![c], 0) is None,
{
    lemma_find_from(s, seq![c], 0);
    if let Some(k) = find_from(s, seq![c], 0) {
        assert(s.subrange(k, k + 1)[0] == s[k]);
        assert(s.contains(s[k]));
    }
}

proof fn lemma_split_single(s: Seq<char>, c: char)
    requires
        !s.contains(c),
    ensures
        split_on(s, c) == seq![s],
{
    lemma_no_occurrence(s, c);
}

proof fn lemma_split_two(x: Seq<char>, y: Seq<char>, c: char)
    requires
        !x.contains(c),
        !y.contains(c),
    ensures
        split_on(x + seq![c] + y, c) == seq![x, y],
{
    let t = x + seq![c] + y;
    lemma_find_from(t, seq![c], 0);
    assert(t.subrange(x.len() as int, x.len() + 1 as int) =~= seq![c]);
    assert(occurs_at(t, seq![c], x.len() as int));
    match find_from(t, seq![c], 0) {
        None => {},
        Some(k) => {
            if k < x.len() {
                assert(t.subrange(k, k + 1)[0] == x[k]);
                assert(x.contains(x[k]));
            }
            assert(k == x.len());
            assert(t.take(k) =~= x);
            assert(t.skip(k + 1) =~= y);
            lemma_split_single(y, c);
        },
    }
}

proof fn lemma_decimal_no(n: nat, c: char)
    requires
        c == '-' || c == '/' || c == '+' || c == '_',
    ensures
        !decimal(n).contains(c),
{
    lemma_decimal_digits(n);
    if decimal(n).contains(c) {
        let i = choose|i: int| 0 <= i < decimal(n).len() && decimal(n)[i] == c;
        assert(is_digit(decimal(n)[i]));
    }
}

/// A `Range` header value written as `bytes=<start>-<end>` is read back as
/// that range, and `bytes=<start>-` as the range from `start` to the end of
/// the file.
pub proof fn lemma_range_round_trip(start: u64, end: Option<u64>)
    ensures
        spec_parse_range(
            bytes_prefix() + decimal(start as nat) + seq!['-'] + match end {
                Some(e) => decimal(e as nat),
                None => Seq::<char>::empty(),
            },
        ) == Some(Range { start, end }),
{
    let tail = match end {
        Some(e) => decimal(e as nat),
        None => Seq::<char>::empty(),
    };
    let body = decimal(start as nat) + seq!['-'] + tail;
    let text = bytes_prefix() + body;
    assert(text =~= bytes_prefix() + decimal(start as nat) + seq!['-'] + tail);
    assert(text.subrange(0, 6) =~= bytes_prefix());
    assert(text.skip(6) =~= body);
    lemma_decimal_no(start as nat, '-');
    if let Some(e) = end {
        lemma_decimal_no(e as nat, '-');
        lemma_parse_decimal(e as nat, u64::MAX as nat);
        lemma_decimal_digits(e as nat);
    }
    lemma_split_two(decimal(start as nat), tail, '-');
    lemma_parse_decimal(start as nat, u64::MAX as nat);
}

/// Where `x1 c y1` and `x2 c y2` are the same text and neither `x1` nor
/// `x2` holds `c`, the parts are the same.
proof fn lemma_first_split(x1: Seq<char>, y1: Seq<char>, x2: Seq<char>, y2: Seq<char>, c: char)
    requires
        !x1.contains(c),
        !x2.contains(c),
        x1 + seq![c] + y1 == x2 + seq![c] + y2,
    ensures
        x1 == x2,
        y1 == y2,
{
    let t = x1 + seq![c] + y1;
    let u = x2 + seq![c] + y2;
    if x1.len() < x2.len() {
        assert(t[x1.len() as int] == c);
        assert(u[x1.len() as int] == x2[x1.len() as int]);
        assert(x2.contains(x2[x1.len() as int]));
    } else if x2.len() < x1.len() {
        assert(u[x2.len() as int] == c);
        assert(t[x2.len() as int] == x1[x2.len() as int]);
        assert(x1.contains(x1[x2.len() as int]));
    }
    assert(x1 =~= t.take(x1.len() as int));
    assert(x2 =~= u.take(x2.len() as int));
    assert(y1 =~= t.skip(x1.len() as int + 1));
    assert(y2 =~= u.skip(x2.len() as int + 1));
}

/// Different numbers are written differently in decimal.
proof fn lemma_decimal_injective(a: nat, b: nat)
    requires
        decimal(a) == decimal(b),
    ensures
        a == b,
{
    lemma_decimal_digits(a);
    lemma_decimal_digits(b);
}

/// The value of a lower-case hexadecimal digit character.
spec fn hex_digit_value(c: char) -> nat {
    if (c as u32) < 58 {
        (c as u32 - 48) as nat
    } else {
        (c as u32 - 87) as nat
    }
}

/// The number that the lower-case hexadecimal digits `s` spell.
spec fn hex_value(s: Seq<char>) -> nat
    decreases s.len(),
{
    if s.len() == 0 {
        0
    } else {
        hex_value(s.drop_last()) * 16 + hex_digit_value(s.last())
    }
}

proof fn lemma_hex_char(d: nat)
    requires
        d < 16,
    ensures
        hex_digit_value(digit_char(d)) == d,
        digit_char(d) != '-',
{
    assert(DIGITS@ =~= seq!['0', '1', '2', '3', '4', '5', '6', '7', '8', '9', 'a', 'b', 'c', 'd', 'e', 'f']);
}

/// The hexadecimal digits of `n` spell `n` and hold no `-`.
proof fn lemma_hex_value(n: nat)
    ensures
        hex_value(hex(n)) == n,
        !hex(n).contains('-'),
    decreases n,
{
    if n < 16 {
        lemma_hex_char(n);
        assert(hex(n) =~= seq![digit_char(n)]);
        assert(hex(n).drop_last() =~= Seq::<char>::empty());
        assert(hex_value(hex(n)) == hex_value(hex(n).drop_last()) * 16 + hex_digit_value(
            hex(n).last(),
        ));
        if hex(n).contains('-') {
            assert(hex(n)[0] == '-');
        }
    } else {
        lemma_hex_value(n / 16);
        lemma_hex_char(n % 16);
        let d = hex(n);
        assert(d == hex(n / 16).push(digit_char(n % 16)));
        assert(d.drop_last() =~= hex(n / 16));
        assert(d.last() == digit_char(n % 16));
        assert((n / 16) * 16 + n % 16 == n);
        assert(hex_value(d) == hex_value(d.drop_last()) * 16 + hex_digit_value(d.last()));
        if d.contains('-') {
            let i = choose|i: int| 0 <= i < d.len() && d[i] == '-';
            if i < d.len() - 1 {
                assert(d[i] == hex(n / 16)[i]);
                assert(hex(n / 16).contains(hex(n / 16)[i]));
            }
        }
    }
}

/// Entity tags tell media apart: two media items get the same entity tag
/// only where they have the same size and the same time, so a changed file
/// gets a new tag.
pub proof fn lemma_etag_distinguishes(size1: u64, time1: u64, size2: u64, time2: u64)
    ensures
        media_etag_text(size1, time1) == media_etag_text(size2, time2) ==> size1 == size2 && time1
            == time2,
{
    let e1 = media_etag_text(size1, time1);
    let e2 = media_etag_text(size2, time2);
    if e1 == e2 {
        let b1 = hex(size1 as nat) + seq!['-'] + hex(time1 as nat);
        let b2 = hex(size2 as nat) + seq!['-'] + hex(time2 as nat);
        assert(b1 =~= e1.subrange(3, e1.len() - 1));
        assert(b2 =~= e2.subrange(3, e2.len() - 1));
        lemma_hex_value(size1 as nat);
        lemma_hex_value(size2 as nat);
        lemma_hex_value(time1 as nat);
        lemma_hex_value(time2 as nat);
        lemma_first_split(hex(size1 as nat), hex(time1 as nat), hex(size2 as nat), hex(time2 as nat), '-');
    }
}

/// A preview cache file belongs to one media item: two preview paths are
/// the same only where both are thumbnails or both large previews, and the
/// items have the same size and the same lower-case name.
pub proof fn lemma_preview_paths_distinct(
    size1: u64,
    name1: Seq<char>,
    thumbnail1: bool,
    size2: u64,
    name2: Seq<char>,
    thumbnail2: bool,
)
    ensures
        preview_path(size1, name1, thumbnail1) == preview_path(size2, name2, thumbnail2) ==> thumbnail1
            == thumbnail2 && size1 == size2 && unicode_lowercase(name1) == unicode_lowercase(name2),
{
    let p1 = preview_path(size1, name1, thumbnail1);
    let p2 = preview_path(size2, name2, thumbnail2);
    if p1 == p2 {
        assert(p1[9] == if thumbnail1 { '2' } else { '0' });
        assert(p2[9] == if thumbnail2 { '2' } else { '0' });
        let b1 = decimal(size1 as nat) + seq!['_'] + unicode_lowercase(name1);
        let b2 = decimal(size2 as nat) + seq!['_'] + unicode_lowercase(name2);
        assert(b1 =~= p1.subrange(11, p1.len() - 5));
        assert(b2 =~= p2.subrange(11, p2.len() - 5));
        lemma_decimal_no(size1 as nat, '_');
        lemma_decimal_no(size2 as nat, '_');
        lemma_first_split(
            decimal(size1 as nat),
            unicode_lowercase(name1),
            decimal(size2 as nat),
            unicode_lowercase(name2),
            '_',
        );
        lemma_decimal_injective(size1 as nat, size2 as nat);
    }
}

/// A video length written to its cache file with `to_string` is read back
/// unchanged by `apply_video_duration_cache`.
pub proof fn lemma_duration_cache_round_trip(d: u16)
    ensures
        parse_unsigned(decimal(d as nat), 65535) == Some(d as nat),
{
    lemma_parse_decimal(d as nat, 65535);
}

/// After an album is put into a list of albums, it is found at the path
/// made of its name alone, and every other album of the list is found
/// where it was, with everything below it.
pub proof fn lemma_added_album_is_found(
    before: Seq<Album>,
    after: Seq<Album>,
    a: Album,
    path: Seq<Seq<char>>,
)
    requires
        album_map(after) == album_map(before).insert(a.name@, a),
    ensures
        album_at_path(after, seq![a.name@]) == Some(a),
        path.len() > 0 && path[0] != a.name@ ==> album_at_path(after, path) == album_at_path(
            before,
            path,
        ),
{
    assert(seq![a.name@][0] == a.name@);
    if path.len() > 0 && path[0] != a.name@ {
        assert(album_map(after).contains_key(path[0]) == album_map(before).contains_key(path[0]));
        if album_map(before).contains_key(path[0]) {
            assert(album_map(after)[path[0]] == album_map(before)[path[0]]);
        }
    }
}

/// An album with a password is never shown, and its media never sent,
/// unless the request gives that password: whenever a request for an album
/// is answered with the album, or a request for a media item with its file
/// or preview, the album has no password or the request gives it.
pub proof fn lemma_password_protects(
    albums: Seq<Album>,
    path: Seq<char>,
    name: Option<Seq<char>>,
    has_pwd: bool,
    tbnl: bool,
    level: Option<Seq<char>>,
    pwd: Option<Seq<char>>,
)
    ensures
        album_answer(albums, Some(path), has_pwd, tbnl, pwd) is Info ==> album_for_path(
            albums,
            path,
        ) is Some && may_open(album_for_path(albums, path)->0, pwd),
        media_answer(albums, Some(path), name, level, pwd) is Preview ==> album_for_path(
            albums,
            path,
        ) is Some && may_open(album_for_path(albums, path)->0, pwd),
        media_answer(albums, Some(path), name, level, pwd) is File ==> album_for_path(
            albums,
            path,
        ) is Some && may_open(album_for_path(albums, path)->0, pwd),
{
}

/// The password decides: a request for an album that exists, or for a media
/// item it holds, is answered 401 exactly when the album has a password that
/// the request does not give; otherwise it gets the album, or the item's
/// preview (the thumbnail for level `1`) or file.
pub proof fn lemma_password_decides(
    albums: Seq<Album>,
    path: Seq<char>,
    name: Seq<char>,
    level: Option<Seq<char>>,
    pwd: Option<Seq<char>>,
)
    requires
        album_for_path(albums, path) is Some,
    ensures
        album_answer(albums, Some(path), false, false, pwd) == if may_open(
            album_for_path(albums, path)->0,
            pwd,
        ) {
            AlbumAnswer::Info(album_for_path(albums, path)->0)
        } else {
            AlbumAnswer::Unauthorized
        },
        media_map(album_for_path(albums, path)->0.medias@).contains_key(name) ==> media_answer(
            albums,
            Some(path),
            Some(name),
            level,
            pwd,
        ) == if !may_open(album_for_path(albums, path)->0, pwd) {
            MediaAnswer::Unauthorized
        } else {
            match level {
                Some(l) => MediaAnswer::Preview(
                    media_map(album_for_path(albums, path)->0.medias@)[name],
                    l == level_one(),
                ),
                None => MediaAnswer::File(media_map(album_for_path(albums, path)->0.medias@)[name]),
            }
        },
{
}

/// An album is shown by at most four thumbnails: as many as there are
/// media items to choose from, up to four, each the name of one of the
/// first four of them, in order.
pub proof fn lemma_thumbnails(a: Album)
    ensures
        selected_names(thumbnail_items(a)).len() == if thumbnail_items(a).len() < 4 {
            thumbnail_items(a).len()
        } else {
            4
        },
        forall|i: int|
            0 <= i < selected_names(thumbnail_items(a)).len() ==> #[trigger] selected_names(
                thumbnail_items(a),
            )[i] == thumbnail_items(a)[i].name@,
        a.medias@.len() >= 4 ==> thumbnail_items(a) == a.medias@,
        a.medias@.len() <= thumbnail_items(a).len(),
        forall|i: int| 0 <= i < a.medias@.len() ==> #[trigger] thumbnail_items(a)[i] == a.medias@[i],
{
}

/// Whether `m` is a media item of the album `a` or of an album below it.
pub open spec fn in_album_tree(a: Album, m: MediaItem) -> bool
    decreases a,
{
    ||| a.medias@.contains(m)
    ||| exists|k: int|
        0 <= k < a.sub_albums@.len() && in_album_tree(#[trigger] a.sub_albums@[k], m)
}

proof fn lemma_collect_in_tree(subs: Seq<Album>, start: int, n: nat)
    ensures
        forall|j: int|
            0 <= j < collect_from(subs, start, n).len() ==> exists|k: int|
                start <= k < subs.len() && in_album_tree(
                    #[trigger] subs[k],
                    #[trigger] collect_from(subs, start, n)[j],
                ),
    decreases subs, subs.len() - start,
{
    if 0 <= start < subs.len() {
        let a = subs[start].medias@;
        let c = collect_from(subs, start, n);
        if n + a.len() >= 4 {
            assert forall|j: int| 0 <= j < c.len() implies exists|k: int|
                start <= k < subs.len() && in_album_tree(#[trigger] subs[k], #[trigger] c[j]) by {
                assert(a.contains(a[j]));
                assert(in_album_tree(subs[start], c[j]));
            }
        } else {
            let inner = subs[start].sub_albums@;
            let deeper = collect_from(inner, 0, n + a.len());
            let rest = collect_from(subs, start + 1, n + a.len() + deeper.len());
            lemma_collect_in_tree(inner, 0, n + a.len());
            lemma_collect_in_tree(subs, start + 1, n + a.len() + deeper.len());
            assert(c == a + deeper + rest);
            assert forall|j: int| 0 <= j < c.len() implies exists|k: int|
                start <= k < subs.len() && in_album_tree(#[trigger] subs[k], #[trigger] c[j]) by {
                if j < a.len() {
                    assert(c[j] == a[j]);
                    assert(a.contains(a[j]));
                    assert(in_album_tree(subs[start], c[j]));
                } else if j < a.len() + deeper.len() {
                    let d = j - a.len();
                    assert(c[j] == deeper[d]);
                    let k2 = choose|k2: int|
                        0 <= k2 < inner.len() && in_album_tree(#[trigger] inner[k2], deeper[d]);
                    assert(in_album_tree(inner[k2], c[j]));
                    assert(in_album_tree(subs[start], c[j]));
                } else {
                    let d = j - a.len() - deeper.len();
                    assert(c[j] == rest[d]);
                    let k2 = choose|k2: int|
                        start + 1 <= k2 < subs.len() && in_album_tree(#[trigger] subs[k2], rest[d]);
                    assert(in_album_tree(subs[k2], c[j]));
                }
            }
        }
    }
}

/// An album is stood for only by its own media: each media item that its
/// thumbnails are chosen from is an item of the album or of an album below
/// it.
pub proof fn lemma_thumbnails_from_album(a: Album)
    ensures
        forall|i: int|
            0 <= i < thumbnail_items(a).len() ==> in_album_tree(a, #[trigger] thumbnail_items(a)[i]),
{
    let t = thumbnail_items(a);
    let m = a.medias@;
    if m.len() < 4 {
        let c = collect_from(a.sub_albums@, 0, m.len());
        lemma_collect_in_tree(a.sub_albums@, 0, m.len());
        assert(t == m + c);
        assert forall|i: int| 0 <= i < t.len() implies in_album_tree(a, #[trigger] t[i]) by {
            if i < m.len() {
                assert(t[i] == m[i]);
                assert(m.contains(m[i]));
            } else {
                assert(t[i] == c[i - m.len()]);
                let k = choose|k: int|
                    0 <= k < a.sub_albums@.len() && in_album_tree(
                        #[trigger] a.sub_albums@[k],
                        c[i - m.len()],
                    );
                assert(in_album_tree(a.sub_albums@[k], t[i]));
            }
        }
    } else {
        assert forall|i: int| 0 <= i < t.len() implies in_album_tree(a, #[trigger] t[i]) by {
            assert(m.contains(m[i]));
        }
    }
}

/// An album is left out of a list exactly when it holds neither media items
/// nor sub-albums: one with a sub-album but no media of its own counts as
/// not empty, and so does one with media but no sub-album.
pub proof fn lemma_empty_album(a: Album)
    ensures
        a.is_empty_spec() <==> (a.medias@.len() == 0 && a.sub_albums@.len() == 0),
        a.sub_albums@.len() > 0 ==> !a.is_empty_spec(),
        a.medias@.len() > 0 ==> !a.is_empty_spec(),
{
}

/// The thumbnails of an album request with `tbnl` (and without `has_pwd`)
/// are the names of the album's own first media items, in order: all of
/// them where there are at most four, else the first four.
pub proof fn lemma_album_thumbnail_request(
    albums: Seq<Album>,
    path: Seq<char>,
    pwd: Option<Seq<char>>,
)
    requires
        album_for_path(albums, path) is Some,
    ensures
        album_answer(albums, Some(path), false, true, pwd) matches AlbumAnswer::Thumbnails(t) && {
            let own = album_for_path(albums, path)->0.medias@;
            &&& t.len() == if own.len() < 4 {
                own.len()
            } else {
                4
            }
            &&& forall|i: int| 0 <= i < t.len() ==> #[trigger] t[i] == own[i].name@
        },
{
    let own = album_for_path(albums, path)->0.medias@;
    let t = selected_names(own);
    assert(t.len() == if own.len() < 4 { own.len() } else { 4 });
    assert forall|i: int| 0 <= i < t.len() implies #[trigger] t[i] == own[i].name@ by {
        if own.len() > 4 {
            assert(own.take(4)[i] == own[i]);
        }
    }
}

/// An album with fewer than four media items of its own is stood for by
/// them followed by the media items of its first sub-album (and more,
/// gathered further, where these do not make four); one with four or more
/// only by its own items. So with fewer than four own items, the thumbnails
/// count `min(4, own + first sub-album's)` at least.
pub proof fn lemma_thumbnails_gather(a: Album)
    ensures
        a.medias@.len() <= thumbnail_items(a).len(),
        forall|i: int| 0 <= i < a.medias@.len() ==> #[trigger] thumbnail_items(a)[i] == a.medias@[i],
        a.medias@.len() >= 4 ==> thumbnail_items(a) == a.medias@,
        a.medias@.len() < 4 && a.sub_albums@.len() > 0 ==> {
            let own = a.medias@.len() as int;
            let first = a.sub_albums@[0].medias@;
            &&& own + first.len() <= thumbnail_items(a).len()
            &&& forall|j: int|
                0 <= j < first.len() ==> #[trigger] thumbnail_items(a)[own + j] == first[j]
            &&& selected_names(thumbnail_items(a)).len() >= if own + first.len() < 4 {
                own + first.len()
            } else {
                4
            }
        },
{
    if a.medias@.len() < 4 && a.sub_albums@.len() > 0 {
        let own = a.medias@;
        let subs = a.sub_albums@;
        let first = subs[0].medias@;
        let c = collect_from(subs, 0, own.len());
        assert(thumbnail_items(a) == own + c);
        if own.len() + first.len() >= 4 {
            assert(c == first);
        } else {
            let deeper = collect_from(subs[0].sub_albums@, 0, own.len() + first.len());
            let rest = collect_from(subs, 1, own.len() + first.len() + deeper.len());
            assert(c == first + deeper + rest);
        }
        assert forall|j: int| 0 <= j < first.len() implies #[trigger] thumbnail_items(a)[own.len()
            + j] == first[j] by {
            assert(c[j] == first[j]);
        }
        let t = thumbnail_items(a);
        assert(selected_names(t).len() == if t.len() <= 4 { t.len() } else { 4 });
    }
}

/// Which files an album scan keeps depends on the file's extension only,
/// up to ASCII case: a name starting with `.` is skipped; otherwise the file
/// is a photo exactly when its extension is `jpg` in any case, a video
/// exactly when it is `mp4` in any case, and skipped otherwise. Two paths
/// whose extensions differ only in case are treated alike.
pub proof fn lemma_scanned_file_by_extension(
    name: Seq<char>,
    path: Seq<char>,
    path2: Seq<char>,
)
    ensures
        name.len() > 0 && name[0] == '.' ==> spec_scanned_file(name, path) is None,
        !(name.len() > 0 && name[0] == '.') ==> {
            &&& (spec_scanned_file(name, path) == Some(ScannedFile::Photo) <==> (path_extension(
                path,
            ) matches Some(e) && ascii_lower_seq(e) == seq!['j', 'p', 'g']))
            &&& (spec_scanned_file(name, path) == Some(ScannedFile::Video) <==> (path_extension(
                path,
            ) matches Some(e) && ascii_lower_seq(e) == seq!['m', 'p', '4']))
            &&& (spec_scanned_file(name, path) is None <==> !(path_extension(path) matches Some(e)
                && (ascii_lower_seq(e) == seq!['j', 'p', 'g'] || ascii_lower_seq(e) == seq![
                'm',
                'p',
                '4',
            ])))
        },
        (path_extension(path) matches Some(e1) && path_extension(path2) matches Some(e2)
            && ascii_lower_seq(e1) == ascii_lower_seq(e2)) ==> spec_scanned_file(name, path)
            == spec_scanned_file(name, path2),
{
    assert(seq!['j', 'p', 'g'] != seq!['m', 'p', '4']) by {
        assert(seq!['j', 'p', 'g'][0] != seq!['m', 'p', '4'][0]);
    }
}

/// A photo's preview at a level is the photo scaled to the level's height
/// at WebP quality 80: 512 pixels at level 1, each next level half the one
/// before, down to level 5; at any other level the photo keeps its size
/// and is encoded at quality 40. Here a photo is a file whose lower-case
/// name ends in `.jpg` or `.png`.
pub proof fn lemma_photo_preview_levels(lower: Seq<char>, level: u8)
    requires
        lower.len() >= 4,
        lower.subrange(lower.len() - 4, lower.len() as int) == seq!['.', 'j', 'p', 'g']
            || lower.subrange(lower.len() - 4, lower.len() as int) == seq!['.', 'p', 'n', 'g'],
    ensures
        preview_action_for(lower, level) matches PreviewAction::Encode { height, quality } && {
            &&& level == 1 ==> height == Some(512u32)
            &&& 2 <= level <= 5 ==> height is Some
            &&& (level == 0 || level > 5) ==> height is None
            &&& quality == if height is Some {
                80u8
            } else {
                40u8
            }
        },
        2 <= level <= 5 ==> (preview_action_for(lower, level) is Encode && preview_action_for(
            lower,
            (level - 1) as u8,
        ) is Encode && preview_action_for(lower, level)->height is Some && preview_action_for(
            lower,
            (level - 1) as u8,
        )->height is Some && preview_action_for(lower, level)->height->0 * 2 == preview_action_for(
            lower,
            (level - 1) as u8,
        )->height->0),
{
    let n = lower.len() as int;
    let tail = lower.subrange(n - 4, n);
    assert(ends_with(lower, tail));
    assert(!ends_with(lower, seq!['.', 'm', 'p', '4'])) by {
        assert(tail[1] != 'm');
    }
    assert(!ends_with(lower, seq!['.', 'm', 'o', 'v'])) by {
        assert(tail[1] != 'm');
    }
}

/// Taking a media item's time a second time changes nothing.
pub proof fn lemma_media_time_idempotent(time: u64, shot_time: Option<Seq<char>>, name: Seq<char>)
    ensures
        media_time(media_time(time, shot_time, name), shot_time, name) == media_time(
            time,
            shot_time,
            name,
        ),
{
}

/// No file is both a video and an image; HEIF images and JPEG photos are
/// images.
pub proof fn lemma_media_kinds(path: Seq<char>)
    ensures
        spec_is_video(path) ==> !spec_is_image(path),
        spec_is_heif_image(path) ==> spec_is_image(path),
        spec_is_jpg_image(path) ==> spec_is_image(path),
{
    if spec_is_video(path) {
        let e = lower_extension(path)->0;
        assert(e =~= seq!['m', 'p', '4']);
        assert(e != seq!['p', 'n', 'g']) by {
            assert(e[0] != 'p');
        }
        assert(e != seq!['j', 'p', 'g']) by {
            assert(e[0] != 'j');
        }
        assert(e.len() != 4);
    }
}

/// The media ids that stand for a gallery are ids of the gallery, and a
/// gallery with media is stood for by at least its first one.
pub proof fn lemma_tbnl_ids(ids: Seq<u32>)
    ensures
        forall|i: int| 0 <= i < tbnl_ids(ids).len() ==> ids.contains(#[trigger] tbnl_ids(ids)[i]),
        ids.len() > 0 ==> tbnl_ids(ids).len() > 0 && tbnl_ids(ids)[0] == ids[0],
{
    if ids.len() > 0 {
        let n = ids.len() as int;
        let ext = padded_ids(ids);
        let keep = |x: u32| x == ext[0] || x == ext[n - 1] || x == ext[n / 3] || x == ext[2 * n / 3];
        assert forall|j: int| 0 <= j < ext.len() implies ids.contains(#[trigger] ext[j]) by {
            if j < n {
                assert(ids[j] == ext[j]);
            } else {
                assert(ext[j] == ids[n - 1]);
            }
        }
        assert(ext[0] == ids[0]);
        broadcast use vstd::seq_lib::group_filter_ensures;
        assert forall|i: int| 0 <= i < tbnl_ids(ids).len() implies ids.contains(
            #[trigger] tbnl_ids(ids)[i],
        ) by {
            assert(ext.contains(tbnl_ids(ids)[i]));
        }
        lemma_filter_keeps_first(ext, keep);
    }
}

proof fn lemma_filter_keeps_first(s: Seq<u32>, keep: spec_fn(u32) -> bool)
    requires
        s.len() > 0,
        keep(s[0]),
    ensures
        s.filter(keep).len() > 0,
        s.filter(keep)[0] == s[0],
    decreases s.len(),
{
    reveal_with_fuel(Seq::filter, 1);
    if s.len() == 1 {
        assert(s.drop_last() =~= Seq::<u32>::empty());
    } else {
        lemma_filter_keeps_first(s.drop_last(), keep);
        assert(s.drop_last()[0] == s[0]);
    }
}

/// Whether no two of `ids` are equal.
pub open spec fn ids_distinct(ids: Seq<u32>) -> bool {
    forall|x: int, y: int|
        0 <= x < ids.len() && 0 <= y < ids.len() && x != y ==> #[trigger] ids[x] != #[trigger] ids[y]
}

/// Of the ids at the first position, a third of the way in, two thirds of
/// the way in and at the last position, those that lie before position `k`,
/// in order.
spec fn chosen_before(ids: Seq<u32>, k: int) -> Seq<u32> {
    let n = ids.len() as int;
    if k <= 0 {
        Seq::empty()
    } else if k <= n / 3 {
        seq![ids[0]]
    } else if k <= 2 * n / 3 {
        seq![ids[0], ids[n / 3]]
    } else if k <= n - 1 {
        seq![ids[0], ids[n / 3], ids[2 * n / 3]]
    } else {
        seq![ids[0], ids[n / 3], ids[2 * n / 3], ids[n - 1]]
    }
}

proof fn lemma_filter_chosen(ids: Seq<u32>, keep: spec_fn(u32) -> bool, k: int)
    requires
        ids.len() >= 4,
        0 <= k <= ids.len(),
        ids_distinct(ids),
        forall|j: int|
            0 <= j < ids.len() ==> (keep(#[trigger] ids[j]) <==> (j == 0 || j == ids.len() - 1
                || j == ids.len() / 3 || j == 2 * ids.len() / 3)),
    ensures
        ids.take(k).filter(keep) == chosen_before(ids, k),
    decreases k,
{
    reveal_with_fuel(Seq::filter, 1);
    let n = ids.len() as int;
    assert(0 < n / 3 < 2 * n / 3 < n - 1);
    if k == 0 {
        assert(ids.take(0) =~= Seq::<u32>::empty());
    } else {
        lemma_filter_chosen(ids, keep, k - 1);
        assert(ids.take(k).drop_last() =~= ids.take(k - 1));
        assert(ids.take(k).last() == ids[k - 1]);
        assert(keep(ids[k - 1]) <==> (k - 1 == 0 || k - 1 == n - 1 || k - 1 == n / 3 || k - 1
            == 2 * n / 3));
        assert(ids.take(k).filter(keep) =~= chosen_before(ids, k));
    }
}

proof fn lemma_filter_all(s: Seq<u32>, keep: spec_fn(u32) -> bool)
    requires
        forall|j: int| 0 <= j < s.len() ==> keep(#[trigger] s[j]),
    ensures
        s.filter(keep) == s,
    decreases s.len(),
{
    reveal_with_fuel(Seq::filter, 1);
    if s.len() > 0 {
        lemma_filter_all(s.drop_last(), keep);
        assert(s.drop_last().push(s.last()) =~= s);
    }
}

/// A gallery is stood for by four media ids where its ids are all
/// different: with at least four media, by the first, the one a third of
/// the way in, the one two thirds of the way in and the last; with one to
/// three media, by all of them, the last repeated up to four.
pub proof fn lemma_tbnl_ids_four(ids: Seq<u32>)
    ensures
        ids.len() >= 4 && ids_distinct(ids) ==> tbnl_ids(ids) == seq![
            ids[0],
            ids[ids.len() as int / 3],
            ids[2 * ids.len() as int / 3],
            ids[ids.len() - 1],
        ],
        0 < ids.len() < 4 ==> tbnl_ids(ids) == padded_ids(ids) && tbnl_ids(ids).len() == 4,
{
    let n = ids.len() as int;
    if n > 0 {
        let ext = padded_ids(ids);
        let keep = |x: u32| x == ext[0] || x == ext[n - 1] || x == ext[n / 3] || x == ext[2 * n / 3];
        assert(tbnl_ids(ids) == ext.filter(keep));
        if n >= 4 && ids_distinct(ids) {
            assert(ext == ids);
            assert forall|j: int| 0 <= j < n implies (keep(#[trigger] ids[j]) <==> (j == 0 || j
                == n - 1 || j == n / 3 || j == 2 * n / 3)) by {
                if keep(ids[j]) {
                    if ids[j] == ids[0] && j != 0 {
                        assert(ids[j] != ids[0]);
                    }
                    if ids[j] == ids[n - 1] && j != n - 1 {
                        assert(ids[j] != ids[n - 1]);
                    }
                    if ids[j] == ids[n / 3] && j != n / 3 {
                        assert(ids[j] != ids[n / 3]);
                    }
                    if ids[j] == ids[2 * n / 3] && j != 2 * n / 3 {
                        assert(ids[j] != ids[2 * n / 3]);
                    }
                }
            }
            lemma_filter_chosen(ids, keep, n);
            assert(ids.take(n) =~= ids);
        }
        if n < 4 {
            assert forall|j: int| 0 <= j < ext.len() implies keep(#[trigger] ext[j]) by {
                if j >= n {
                    assert(ext[j] == ext[n - 1]);
                } else if n == 3 {
                    assert(j == 0 || j == n - 1 || j == n / 3);
                } else if n == 2 {
                    assert(j == 0 || j == n - 1);
                }
            }
            lemma_filter_all(ext, keep);
        }
    }
}

proof fn lemma_unit_index_from(x: nat, j: nat)
    requires
        j <= 8,
        j == 0 || x >= pow2(10 * j),
    ensures
        j <= unit_index_from(x, j) <= 8,
        unit_index_from(x, j) > 0 ==> x >= pow2(10 * unit_index_from(x, j)),
        unit_index_from(x, j) < 8 ==> x < pow2(10 * (unit_index_from(x, j) + 1)),
    decreases 8 - j,
{
    if j < 8 && x >= pow2(10 * (j + 1)) {
        lemma_unit_index_from(x, j + 1);
    }
}

/// A size is written in the largest unit it reaches: with `x` the value of
/// the byte count as a floating-point number, the unit `i` chosen has
/// `1024^i <= x` (or is bytes) and `x < 1024^(i+1)` (or is `YB`).
pub proof fn lemma_size_unit(bytes: nat)
    ensures
        unit_index_from(f64_value(bytes), 0) <= 8,
        unit_index_from(f64_value(bytes), 0) > 0 ==> f64_value(bytes) >= pow2(
            10 * unit_index_from(f64_value(bytes), 0),
        ),
        unit_index_from(f64_value(bytes), 0) < 8 ==> f64_value(bytes) < pow2(
            10 * (unit_index_from(f64_value(bytes), 0) + 1),
        ),
{
    lemma_unit_index_from(f64_value(bytes), 0);
}

/// Fewer than 1024 bytes are written as the count with two zero decimals
/// and `B`, e.g. `512.00 B`.
pub proof fn lemma_small_size(bytes: nat)
    requires
        bytes < 1024,
    ensures
        human_size_text(bytes) == decimal(bytes) + seq!['.', '0', '0', ' ', 'B'],
{
    lemma2_to64();
    lemma2_to64_rest();
    assert(f64_round_from(bytes, 0) == round_to_multiple(bytes, 0));
    assert(f64_value(bytes) == bytes);
    assert(10 * (0 + 1) == 10);
    assert(unit_index_from(bytes, 0) == 0);
    assert(div_round_half_even(bytes * 100, pow2(0)) == bytes * 100);
    let n = bytes * 100;
    assert(n / 100 == bytes && n % 100 == 0);
    assert(DIGITS@[0] == '0');
    assert(human_size_text(bytes) =~= decimal(bytes) + seq!['.', '0', '0', ' ', 'B']);
}

} // verus!
