use media_album::media_item::{
    extension_lowercase, is_heif_image, is_image, is_jpg_image, is_video, matches_extension,
    preview_source, resolve_media_time, scanned_file, webp_settings, DurationCacheError,
    MediaItem, PreviewSource, ScannedFile,
};
use std::path::Path;

fn item(name: &str, size: u64) -> MediaItem {
    MediaItem::new(format!("/photos/trip/{}", name), name.to_string(), 1000, size)
}

#[test]
fn extension_matches_std_path() {
    let samples = [
        "a.JPG", "/x/y/clip.Mp4", "noext", ".hidden", ".hidden.png", "dir/", "a.b.c", "a.",
        "..", "x/..", "/", "", "x/y/.", "photo.HeIc", "a/b.tar.gz/",
    ];
    for p in samples {
        let want = Path::new(p)
            .extension()
            .map(|e| e.to_ascii_lowercase().to_string_lossy().into_owned());
        let got = extension_lowercase(p).map(|v| v.into_iter().collect::<String>());
        assert_eq!(got, want, "path {:?}", p);
    }
}

#[test]
fn media_kinds() {
    assert!(is_video("a/b/VID.MP4"));
    assert!(!is_video("a/b/VID.mov"));
    assert!(is_image("x.png") && is_image("x.JPG") && is_image("x.heic") && is_image("x.HEIF"));
    assert!(!is_image("x.gif") && !is_image("x.mp4") && !is_image("jpg"));
    assert!(is_heif_image("a.heic") && !is_heif_image("a.jpg"));
    assert!(is_jpg_image("a.jpg") && !is_jpg_image("a.jpeg") && !is_jpg_image("a.png"));
    assert!(matches_extension("a.Txt", &["txt", "md"]));
    assert!(!matches_extension("a.txt", &[]));
    assert_eq!(preview_source("v.mp4"), Some(PreviewSource::VideoFrame));
    assert_eq!(preview_source("v.heic"), Some(PreviewSource::HeifImage));
    assert_eq!(preview_source("v.png"), Some(PreviewSource::Image));
    assert_eq!(preview_source("v.txt"), None);
    assert_eq!(scanned_file("a.jpg", "/d/a.jpg"), Some(ScannedFile::Photo));
    assert_eq!(scanned_file("a.mp4", "/d/a.mp4"), Some(ScannedFile::Video));
    assert_eq!(scanned_file(".a.jpg", "/d/.a.jpg"), None);
    assert_eq!(scanned_file("a.png", "/d/a.png"), None);
    assert_eq!(webp_settings(true).height, Some(256));
    assert_eq!(webp_settings(true).quality, 80);
    assert_eq!(webp_settings(false).height, None);
    assert_eq!(webp_settings(false).quality, 40);
}

#[test]
fn cache_paths() {
    let m = item("IMG_0001.JPG", 2048);
    assert_eq!(m.get_preview_path(true), "cache/tb_2_2048_img_0001.jpg.webp");
    assert_eq!(m.get_preview_path(false), "cache/tb_0_2048_img_0001.jpg.webp");
    assert_eq!(m.get_exif_cache_path(), "cache/exif/exif_2048_img_0001.jpg.json");
    assert_eq!(m.get_video_duration_cache_path(), "cache/video/duration_2048_img_0001.jpg.txt");
    let joined = Path::new("cache").join(format!("tb_{}_{}_{}.webp", 2, 2048, "img_0001.jpg"));
    assert_eq!(Path::new(&m.get_preview_path(true)), joined.as_path());
    let u = item("ÉTÉ.MP4", 7);
    assert_eq!(u.get_preview_path(true), "cache/tb_2_7_été.mp4.webp");
    assert_eq!(u.get_extension(), "mp4");
    assert_eq!(item("README", 1).get_extension(), "");
}

#[test]
fn media_time_rules() {
    // no Exif data: the file time stays
    assert_eq!(resolve_media_time(5, None, "IMG_20200916_205836.jpg"), 5);
    // Exif shooting time wins
    assert_eq!(resolve_media_time(5, Some("2024-01-01 12:12:12"), "IMG_20200916_205836.jpg"), 1704111132);
    // unreadable shooting time: the file name
    assert_eq!(resolve_media_time(5, Some(""), "IMG_20200916_205836.jpg"), 1600289916);
    // neither: the file time
    assert_eq!(resolve_media_time(5, Some("garbage"), "DSC_1.jpg"), 5);

    let mut m = item("IMG_20200916_205836.jpg", 10);
    m.update_media_time();
    assert_eq!(m.time, 1000);
}

#[test]
fn duration_cache() {
    let mut m = item("clip.mp4", 10);
    assert_eq!(m.apply_video_duration_cache("42"), Ok(()));
    assert_eq!(m.duration, Some(42));
    assert_eq!(m.apply_video_duration_cache("70000"), Err(DurationCacheError::NotANumber));
    assert_eq!(m.duration, Some(42));
    assert_eq!(m.apply_video_duration_cache("12\n"), Err(DurationCacheError::NotANumber));
    for d in [0u16, 1, 599, u16::MAX] {
        m.apply_video_duration_cache(&d.to_string()).unwrap();
        assert_eq!(m.duration, Some(d));
    }
}
