use media_album::album::{add_album, Album};
use media_album::media_item::{is_image, is_video, resolve_media_time, MediaItem};
use media_album::requests::find_album;
use media_album::text::{parse_unsigned_chars, u64_to_decimal};
use media_album::util::human_readable_size;

#[test]
fn decimal_text_reads_back() {
    for n in [0u64, 9, 10, 65535, 1 << 40, u64::MAX] {
        let text: Vec<char> = u64_to_decimal(n).chars().collect();
        assert_eq!(parse_unsigned_chars(&text, u64::MAX), Some(n));
    }
    let text: Vec<char> = u64_to_decimal(65535).chars().collect();
    assert_eq!(parse_unsigned_chars(&text, 65535), Some(65535));
}

#[test]
fn media_time_is_taken_once_for_all() {
    let cases = [
        (5u64, Some("2024-01-01 12:12:12"), "IMG_20200916_205836.jpg"),
        (5, Some("bad"), "IMG_20200916_205836.jpg"),
        (5, Some("bad"), "DSC_1.jpg"),
        (7, None, "IMG_20200916_205836.jpg"),
    ];
    for (time, shot, name) in cases {
        let once = resolve_media_time(time, shot, name);
        assert_eq!(resolve_media_time(once, shot, name), once);
    }
}

#[test]
fn an_added_album_is_found_by_its_name() {
    let mut albums = Vec::new();
    let mut first = Album::new("first".to_string());
    first.add_media(MediaItem::new("/p/a.jpg".to_string(), "a.jpg".to_string(), 1, 1));
    add_album(&mut albums, first);
    let mut second = Album::new("second".to_string());
    second.add_media(MediaItem::new("/p/b.jpg".to_string(), "b.jpg".to_string(), 1, 1));
    add_album(&mut albums, second);
    assert_eq!(find_album(&albums, &["second"]).map(|a| a.medias.len()), Some(1));
    assert_eq!(find_album(&albums, &["first"]).map(|a| a.medias[0].name.as_str()), Some("a.jpg"));
}

#[test]
fn no_file_is_both_video_and_image() {
    for p in ["a.mp4", "a.MP4", "a.jpg", "a.heic", "a.png", "a", ".mp4", "a.mp4.jpg"] {
        assert!(!(is_video(p) && is_image(p)), "path {}", p);
    }
    assert!(is_image("a.heic") && is_image("a.JPG"));
}

#[test]
fn sizes_use_the_largest_unit_reached() {
    assert_eq!(human_readable_size(1023), "1023.00 B");
    assert_eq!(human_readable_size(1024), "1.00 KB");
    assert_eq!(human_readable_size(1024 * 1024 - 1), "1024.00 KB");
    assert_eq!(human_readable_size(1024 * 1024), "1.00 MB");
    assert_eq!(human_readable_size(512), "512.00 B");
}

#[test]
fn entity_tags_tell_items_apart() {
    let a = MediaItem::new("/p/a".to_string(), "a".to_string(), 0x23, 0x1);
    let b = MediaItem::new("/p/b".to_string(), "b".to_string(), 0x3, 0x12);
    assert_eq!(media_album::media_sender::media_etag(&a), "W/\"1-23\"");
    assert_eq!(media_album::media_sender::media_etag(&b), "W/\"12-3\"");
}

#[test]
fn preview_caches_tell_items_apart() {
    let a = MediaItem::new("/p/x".to_string(), "3_a.jpg".to_string(), 1, 12);
    let b = MediaItem::new("/p/y".to_string(), "a.jpg".to_string(), 1, 123);
    assert_ne!(a.get_preview_path(true), b.get_preview_path(true));
    assert_ne!(a.get_preview_path(true), a.get_preview_path(false));
    // Names that differ only in case share their caches.
    let upper = MediaItem::new("/p/A.JPG".to_string(), "A.JPG".to_string(), 1, 5);
    let lower = MediaItem::new("/q/a.jpg".to_string(), "a.jpg".to_string(), 1, 5);
    assert_eq!(upper.get_preview_path(false), lower.get_preview_path(false));
}
