use media_album::album::{
    add_album, collect_media_from_sub_albums, get_selected_media_items, Album,
};
use media_album::media_item::MediaItem;
use media_album::requests::{
    find_album, get_album, get_media, list_all_albums, split_path, AlbumReply, MediaReply,
};

fn media(name: &str) -> MediaItem {
    MediaItem::new(format!("/photos/{}", name), name.to_string(), 1000, 10)
}

fn album(name: &str, items: &[&str]) -> Album {
    let mut a = Album::new(name.to_string());
    for i in items {
        a.add_media(media(i));
    }
    a
}

/// trip (a, b) with sub-albums day1 (c, d, e) and day2 (f); family with
/// password `secret` (g); empty is left out.
fn library() -> Vec<Album> {
    let mut trip = album("trip", &["a.jpg", "b.jpg"]);
    trip.add_sub_album(album("day1", &["c.jpg", "d.mp4", "e.jpg"]));
    trip.add_sub_album(album("day2", &["f.jpg"]));
    let mut family = album("family", &["g.jpg"]);
    family.pwd = Some("secret".to_string());
    let mut albums = Vec::new();
    add_album(&mut albums, trip);
    add_album(&mut albums, family);
    add_album(&mut albums, Album::new("empty".to_string()));
    albums
}

fn names(items: &[&MediaItem]) -> Vec<String> {
    items.iter().map(|m| m.name.clone()).collect()
}

#[test]
fn empty_albums_are_left_out() {
    let albums = library();
    let listed: Vec<&str> = albums.iter().map(|a| a.name.as_str()).collect();
    assert_eq!(listed, vec!["trip", "family"]);
}

#[test]
fn adding_an_album_replaces_one_of_the_same_name() {
    let mut albums = library();
    add_album(&mut albums, album("family", &["h.jpg", "i.jpg"]));
    assert_eq!(albums.len(), 2);
    let family = find_album(&albums, &["family"]).expect("found");
    assert_eq!(family.medias.len(), 2);
    assert!(family.pwd.is_none());
}

#[test]
fn adding_media_replaces_one_of_the_same_name() {
    let mut a = album("x", &["a.jpg", "b.jpg"]);
    let mut newer = media("a.jpg");
    newer.size = 99;
    a.add_media(newer);
    assert_eq!(a.medias.len(), 2);
    let sizes: Vec<u64> = a.medias.iter().map(|m| m.size).collect();
    assert!(sizes.contains(&99) && sizes.contains(&10));
    assert!(!a.is_empty());
    assert!(Album::new("y".to_string()).is_empty());
}

#[test]
fn find_album_follows_the_path() {
    let albums = library();
    assert_eq!(find_album(&albums, &["trip"]).map(|a| a.name.as_str()), Some("trip"));
    assert_eq!(find_album(&albums, &["trip", "day2"]).map(|a| a.name.as_str()), Some("day2"));
    assert!(find_album(&albums, &["trip", "day3"]).is_none());
    assert!(find_album(&albums, &["day1"]).is_none());
    assert!(find_album(&albums, &["trip", "day1", "x"]).is_none());
    assert!(find_album(&albums, &["empty"]).is_none());
}

#[test]
fn collect_stops_once_four_items_are_gathered() {
    let albums = library();
    let trip = find_album(&albums, &["trip"]).expect("found");
    let mut items: Vec<&MediaItem> = trip.medias.iter().collect();
    collect_media_from_sub_albums(trip, &mut items);
    // day1 brings the count to five, so day2 is not visited.
    assert_eq!(names(&items), vec!["a.jpg", "b.jpg", "c.jpg", "d.mp4", "e.jpg"]);
    let mut none: Vec<&MediaItem> = Vec::new();
    collect_media_from_sub_albums(trip, &mut none);
    assert_eq!(names(&none), vec!["c.jpg", "d.mp4", "e.jpg", "f.jpg"]);
}

#[test]
fn collect_goes_deeper_before_the_next_sibling() {
    let mut root = album("root", &[]);
    let mut left = album("left", &["l1"]);
    left.add_sub_album(album("deep", &["d1"]));
    root.add_sub_album(left);
    root.add_sub_album(album("right", &["r1", "r2", "r3"]));
    let mut items: Vec<&MediaItem> = Vec::new();
    collect_media_from_sub_albums(&root, &mut items);
    assert_eq!(names(&items), vec!["l1", "d1", "r1", "r2", "r3"]);
}

#[test]
fn selected_media_items_are_the_first_four() {
    let a = album("x", &["1", "2", "3", "4", "5", "6"]);
    let all: Vec<&MediaItem> = a.medias.iter().collect();
    assert_eq!(get_selected_media_items(all), vec!["1", "2", "3", "4"]);
    let few: Vec<&MediaItem> = a.medias.iter().take(2).collect();
    assert_eq!(get_selected_media_items(few), vec!["1", "2"]);
    assert!(get_selected_media_items(Vec::new()).is_empty());
}

#[test]
fn album_list_has_four_thumbnails_per_album() {
    let albums = library();
    let list = list_all_albums(&albums);
    assert_eq!(list.len(), 2);
    assert_eq!(list[0].0, "trip");
    assert_eq!(list[0].1, vec!["a.jpg", "b.jpg", "c.jpg", "d.mp4"]);
    assert_eq!(list[1].0, "family");
    assert_eq!(list[1].1, vec!["g.jpg"]);
    let trip = find_album(&albums, &["trip"]).expect("found");
    assert_eq!(trip.tbnl_names(), vec!["a.jpg", "b.jpg", "c.jpg", "d.mp4"]);
}

#[test]
fn album_info_lists_sub_albums_with_thumbnails() {
    let mut albums = library();
    let trip = albums.remove(0);
    assert_eq!(trip.to_display_string(), "trip 2x ");
    let info = trip.into_info();
    assert_eq!(info.name, "trip");
    assert_eq!(names(&info.medias.iter().collect::<Vec<_>>()), vec!["a.jpg", "b.jpg"]);
    assert_eq!(info.sub_albums.len(), 2);
    assert_eq!(info.sub_albums[0].name, "day1");
    assert_eq!(info.sub_albums[0].tbnl_ids, vec!["c.jpg", "d.mp4", "e.jpg"]);
    assert_eq!(info.sub_albums[1].name, "day2");
    assert_eq!(info.sub_albums[1].tbnl_ids, vec!["f.jpg"]);
}

#[test]
fn split_path_matches_str_split() {
    for p in ["trip", "trip/day1", "trip/", "/trip", ""] {
        let want: Vec<String> = p.split('/').map(|s| s.to_string()).collect();
        assert_eq!(split_path(p), want);
    }
}

#[test]
fn album_requests() {
    let albums = library();
    assert!(matches!(get_album(&albums, None, false, false, None), AlbumReply::BadRequest));
    assert!(matches!(get_album(&albums, Some("nope"), false, false, None), AlbumReply::NotFound));
    assert!(matches!(
        get_album(&albums, Some("trip/nope"), false, false, None),
        AlbumReply::NotFound
    ));
    assert!(matches!(
        get_album(&albums, Some("family"), true, true, None),
        AlbumReply::HasPassword(true)
    ));
    assert!(matches!(
        get_album(&albums, Some("trip/day1"), true, false, None),
        AlbumReply::HasPassword(false)
    ));
    match get_album(&albums, Some("trip"), false, true, None) {
        AlbumReply::Thumbnails(t) => assert_eq!(t, vec!["a.jpg", "b.jpg"]),
        other => panic!("unexpected {:?}", other),
    }
    match get_album(&albums, Some("trip/day1"), false, false, Some("ignored")) {
        AlbumReply::Info(a) => assert_eq!(a.name, "day1"),
        other => panic!("unexpected {:?}", other),
    }
    assert!(matches!(
        get_album(&albums, Some("family"), false, false, None),
        AlbumReply::Unauthorized
    ));
    assert!(matches!(
        get_album(&albums, Some("family"), false, false, Some("Secret")),
        AlbumReply::Unauthorized
    ));
    match get_album(&albums, Some("family"), false, false, Some("secret")) {
        AlbumReply::Info(a) => assert_eq!(a.name, "family"),
        other => panic!("unexpected {:?}", other),
    }
}

#[test]
fn media_requests() {
    let albums = library();
    assert!(matches!(get_media(&albums, None, Some("a.jpg"), None, None), MediaReply::BadRequest));
    assert!(matches!(get_media(&albums, Some("trip"), None, None, None), MediaReply::BadRequest));
    assert!(matches!(
        get_media(&albums, Some("nope"), Some("a.jpg"), None, None),
        MediaReply::NotFound
    ));
    assert!(matches!(
        get_media(&albums, Some("trip"), Some("c.jpg"), None, None),
        MediaReply::NotFound
    ));
    match get_media(&albums, Some("trip/day1"), Some("c.jpg"), None, None) {
        MediaReply::File(m) => assert_eq!(m.name, "c.jpg"),
        other => panic!("unexpected {:?}", other),
    }
    match get_media(&albums, Some("trip"), Some("a.jpg"), Some("1"), None) {
        MediaReply::Preview { media, thumbnail } => {
            assert_eq!(media.name, "a.jpg");
            assert!(thumbnail);
        },
        other => panic!("unexpected {:?}", other),
    }
    match get_media(&albums, Some("trip"), Some("b.jpg"), Some("0"), None) {
        MediaReply::Preview { media, thumbnail } => {
            assert_eq!(media.name, "b.jpg");
            assert!(!thumbnail);
        },
        other => panic!("unexpected {:?}", other),
    }
    assert!(matches!(
        get_media(&albums, Some("family"), Some("g.jpg"), None, None),
        MediaReply::Unauthorized
    ));
    assert!(matches!(
        get_media(&albums, Some("family"), Some("g.jpg"), Some("1"), Some("wrong")),
        MediaReply::Unauthorized
    ));
    // A missing item is not found even without the password.
    assert!(matches!(
        get_media(&albums, Some("family"), Some("zzz.jpg"), None, None),
        MediaReply::NotFound
    ));
    match get_media(&albums, Some("family"), Some("g.jpg"), None, Some("secret")) {
        MediaReply::File(m) => assert_eq!(m.name, "g.jpg"),
        other => panic!("unexpected {:?}", other),
    }
}
