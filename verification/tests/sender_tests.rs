use media_album::gallery::{Gallery, GalleryInfo};
use media_album::media_item::MediaItem;
use media_album::media_processing::{
    media_preview_plan, preview_level_pixels, PreviewAction,
};
use media_album::media_sender::{
    cache_control, content_type_for, is_not_modified, media_etag, parse_range, plan_file_response,
    FilePlan, Range,
};
use media_album::util::TimeError;

fn item(name: &str, size: u64, time: u64) -> MediaItem {
    MediaItem::new(format!("/photos/{}", name), name.to_string(), time, size)
}

#[test]
fn parse_range_examples() {
    assert_eq!(parse_range("bytes=0-"), Some(Range { start: 0, end: None }));
    assert_eq!(parse_range("bytes=10-20"), Some(Range { start: 10, end: Some(20) }));
    assert_eq!(parse_range("bytes=+5-6"), Some(Range { start: 5, end: Some(6) }));
    assert_eq!(parse_range("bytes=-5"), None);
    assert_eq!(parse_range("bytes=1-2-3"), None);
    assert_eq!(parse_range("bytes=1"), None);
    assert_eq!(parse_range("bytes=a-2"), None);
    assert_eq!(parse_range("bytes=1-b"), None);
    assert_eq!(parse_range("items=0-1"), None);
    assert_eq!(parse_range("Bytes=0-1"), None);
    assert_eq!(parse_range(""), None);
    assert_eq!(parse_range("bytes=18446744073709551616-"), None);
}

#[test]
fn parse_range_reads_what_was_written() {
    for (start, end) in [(0u64, None), (7, Some(9u64)), (u64::MAX, Some(0)), (42, Some(u64::MAX))] {
        let text = match end {
            Some(e) => format!("bytes={}-{}", start, e),
            None => format!("bytes={}-", start),
        };
        assert_eq!(parse_range(&text), Some(Range { start, end }));
    }
}

#[test]
fn content_types() {
    assert_eq!(content_type_for("/a/IMG_1.HEIC"), Some("image/heic"));
    assert_eq!(content_type_for("/a/b.heif"), Some("image/heic"));
    assert_eq!(content_type_for("/a/b.JPG"), Some("image/jpeg"));
    assert_eq!(content_type_for("/a/b.mp4"), Some("video/mp4"));
    assert_eq!(content_type_for("/a/b.png"), None);
    assert_eq!(content_type_for("/a/jpg"), None);
    assert_eq!(content_type_for("/a/.jpg"), None);
}

#[test]
fn entity_tag_is_weak_hex_size_and_time() {
    assert_eq!(media_etag(&item("a.jpg", 1234, 100000000)), "W/\"4d2-5f5e100\"");
    assert_eq!(media_etag(&item("a.jpg", 0, 0)), "W/\"0-0\"");
    assert_eq!(
        media_etag(&item("a.jpg", u64::MAX, u64::MAX)),
        format!("W/\"{:x}-{:x}\"", u64::MAX, u64::MAX)
    );
    let tag = etag::EntityTag::weak(&format!("{:x}-{:x}", 77u64, 88u64));
    assert_eq!(media_etag(&item("b.jpg", 77, 88)), tag.to_string());
    assert_eq!(cache_control(), "public, max-age=604800");
}

#[test]
fn not_modified_compares_with_the_header_date() {
    let m = item("a.jpg", 1, 1000);
    assert_eq!(is_not_modified(&m, None), Ok(false));
    assert_eq!(is_not_modified(&m, Some("Thu, 01 Jan 1970 00:16:40 GMT")), Ok(true));
    assert_eq!(is_not_modified(&m, Some("Thu, 01 Jan 1970 00:16:39 GMT")), Ok(false));
    assert_eq!(is_not_modified(&m, Some("Fri, 02 Jan 1970 00:00:00 GMT")), Ok(true));
    assert_eq!(is_not_modified(&m, Some("yesterday")), Err(TimeError::Unparsable));
}

#[test]
fn file_plans() {
    assert!(matches!(plan_file_response(None, 100, None), FilePlan::UnsupportedType));
    assert!(matches!(plan_file_response(None, 100, Some("bytes=0-")), FilePlan::UnsupportedType));
    match plan_file_response(Some("video/mp4"), 100, None) {
        FilePlan::Whole { content_type } => assert_eq!(content_type, "video/mp4"),
        other => panic!("unexpected {:?}", other),
    }
    match plan_file_response(Some("video/mp4"), 100, Some("items=1-2")) {
        FilePlan::Whole { content_type } => assert_eq!(content_type, "video/mp4"),
        other => panic!("unexpected {:?}", other),
    }
    assert!(matches!(
        plan_file_response(Some("video/mp4"), 100, Some("bytes=100-")),
        FilePlan::RangeStartTooLarge
    ));
    let cases = [
        ("bytes=10-", 10u64, 99u64, 90u64, "bytes 10-99/100"),
        ("bytes=10-2000", 10, 99, 90, "bytes 10-99/100"),
        ("bytes=10-20", 10, 20, 11, "bytes 10-20/100"),
        ("bytes=99-99", 99, 99, 1, "bytes 99-99/100"),
        ("bytes=0-0", 0, 0, 1, "bytes 0-0/100"),
    ];
    for (header, s, e, l, cr) in cases {
        match plan_file_response(Some("image/jpeg"), 100, Some(header)) {
            FilePlan::Partial { start, end, len, content_range, content_type } => {
                assert_eq!((start, end, len), (s, e, l), "header {}", header);
                assert_eq!(content_range, cr);
                assert_eq!(content_type, "image/jpeg");
            },
            other => panic!("unexpected {:?}", other),
        }
    }
}

#[test]
fn gallery_thumbnail_ids() {
    let ids: Vec<u32> = (1..=10).collect();
    assert_eq!(GalleryInfo::get_tbnl_media_ids(&ids), vec![1, 4, 7, 10]);
    assert_eq!(GalleryInfo::get_tbnl_media_ids(&vec![1, 2, 3]), vec![1, 2, 3, 3]);
    assert_eq!(GalleryInfo::get_tbnl_media_ids(&vec![5]), vec![5, 5, 5, 5]);
    assert_eq!(GalleryInfo::get_tbnl_media_ids(&vec![5, 6]), vec![5, 6, 6, 6]);
    assert_eq!(GalleryInfo::get_tbnl_media_ids(&vec![]), Vec::<u32>::new());
    assert_eq!(GalleryInfo::get_tbnl_media_ids(&vec![1, 2, 3, 4]), vec![1, 2, 3, 4]);
    // Values equal to a chosen one are kept wherever they stand.
    assert_eq!(GalleryInfo::get_tbnl_media_ids(&vec![9, 1, 2, 9, 3, 4, 5]), vec![9, 2, 9, 3, 5]);
}

#[test]
fn gallery_display() {
    let g = Gallery::new(3, "trip".to_string(), 1536, vec![item("a.jpg", 1, 1), item("b.jpg", 1, 1)]);
    assert_eq!(g.to_display_string(), "[3] trip 2x 1.50 KB");
    assert_eq!((g.id, g.size, g.medias.len()), (3, 1536, 2));
}

#[test]
fn preview_levels() {
    let want = [(0u8, None), (1, Some(512u32)), (2, Some(256)), (3, Some(128)), (4, Some(64)), (5, Some(32)), (6, None)];
    for (level, px) in want {
        assert_eq!(preview_level_pixels(level), px);
    }
}

#[test]
fn preview_plans() {
    let p = media_preview_plan(2, 1000, "IMG_1.JPG");
    assert_eq!(p.cache_path, "cache/tb_2_1000_img_1.jpg.webp");
    assert_eq!(p.action, PreviewAction::Encode { height: Some(256), quality: 80 });
    let p = media_preview_plan(9, 5, "a.png");
    assert_eq!(p.cache_path, "cache/tb_9_5_a.png.webp");
    assert_eq!(p.action, PreviewAction::Encode { height: None, quality: 40 });
    assert_eq!(media_preview_plan(1, 5, "clip.MOV").action, PreviewAction::Empty);
    assert_eq!(media_preview_plan(1, 5, "clip.mp4").action, PreviewAction::Empty);
    assert_eq!(media_preview_plan(1, 5, "notes.txt").action, PreviewAction::Empty);
    assert_eq!(media_preview_plan(1, 5, "ÄB.JPG").cache_path, "cache/tb_1_5_äb.jpg.webp");
}
