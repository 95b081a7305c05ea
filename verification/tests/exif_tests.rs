use media_album::image_exif::{ExifError, ImageExif};
use media_album::media_processing::get_image_exif;

struct Entry {
    tag: u16,
    typ: u16,
    count: u32,
    data: Vec<u8>,
}

fn ascii(tag: u16, s: &str) -> Entry {
    let mut data = s.as_bytes().to_vec();
    data.push(0);
    Entry { tag, typ: 2, count: data.len() as u32, data }
}

fn short(tag: u16, v: u16) -> Entry {
    Entry { tag, typ: 3, count: 1, data: v.to_le_bytes().to_vec() }
}

fn long(tag: u16, v: u32) -> Entry {
    Entry { tag, typ: 4, count: 1, data: v.to_le_bytes().to_vec() }
}

fn rationals(tag: u16, vals: &[(u32, u32)]) -> Entry {
    let mut data = Vec::new();
    for (n, d) in vals {
        data.extend_from_slice(&n.to_le_bytes());
        data.extend_from_slice(&d.to_le_bytes());
    }
    Entry { tag, typ: 5, count: vals.len() as u32, data }
}

fn srational(tag: u16, n: i32, d: i32) -> Entry {
    let mut data = Vec::new();
    data.extend_from_slice(&n.to_le_bytes());
    data.extend_from_slice(&d.to_le_bytes());
    Entry { tag, typ: 10, count: 1, data }
}

fn ifd_len(entries: &[Entry]) -> usize {
    if entries.is_empty() {
        0
    } else {
        2 + 12 * entries.len() + 4
    }
}

fn write_ifd(out: &mut Vec<u8>, entries: &[Entry], extra: &mut Vec<u8>, base: usize) {
    out.extend_from_slice(&(entries.len() as u16).to_le_bytes());
    for e in entries {
        out.extend_from_slice(&e.tag.to_le_bytes());
        out.extend_from_slice(&e.typ.to_le_bytes());
        out.extend_from_slice(&e.count.to_le_bytes());
        if e.data.len() <= 4 {
            let mut v = e.data.clone();
            v.resize(4, 0);
            out.extend_from_slice(&v);
        } else {
            let off = (base + extra.len()) as u32;
            out.extend_from_slice(&off.to_le_bytes());
            extra.extend_from_slice(&e.data);
            if extra.len() % 2 == 1 {
                extra.push(0);
            }
        }
    }
    out.extend_from_slice(&0u32.to_le_bytes());
}

/// A little-endian TIFF file with a primary IFD and, where given, an Exif
/// and a GPS IFD.
fn build_tiff(mut ifd0: Vec<Entry>, mut exif: Vec<Entry>, mut gps: Vec<Entry>) -> Vec<u8> {
    exif.sort_by_key(|e| e.tag);
    gps.sort_by_key(|e| e.tag);
    if !exif.is_empty() {
        ifd0.push(long(0x8769, 0));
    }
    if !gps.is_empty() {
        ifd0.push(long(0x8825, 0));
    }
    ifd0.sort_by_key(|e| e.tag);
    let ifd0_off = 8;
    let exif_off = ifd0_off + ifd_len(&ifd0);
    let gps_off = exif_off + ifd_len(&exif);
    let base = gps_off + ifd_len(&gps);
    for e in ifd0.iter_mut() {
        if e.tag == 0x8769 {
            e.data = (exif_off as u32).to_le_bytes().to_vec();
        }
        if e.tag == 0x8825 {
            e.data = (gps_off as u32).to_le_bytes().to_vec();
        }
    }
    let mut out = vec![b'I', b'I', 42, 0, 8, 0, 0, 0];
    let mut extra = Vec::new();
    write_ifd(&mut out, &ifd0, &mut extra, base);
    if !exif.is_empty() {
        write_ifd(&mut out, &exif, &mut extra, base);
    }
    if !gps.is_empty() {
        write_ifd(&mut out, &gps, &mut extra, base);
    }
    assert_eq!(out.len(), base);
    out.extend_from_slice(&extra);
    out
}

fn camera_file() -> Vec<u8> {
    build_tiff(
        vec![ascii(0x10f, "Canon"), ascii(0x110, "Canon EOS R5")],
        vec![
            rationals(0x829a, &[(1, 250)]),
            rationals(0x829d, &[(28, 10)]),
            short(0x8822, 3),
            short(0x8827, 400),
            ascii(0x9003, "2024:01:02 03:04:05"),
            srational(0x9204, -1, 3),
            short(0x9207, 5),
            short(0x9209, 16),
            rationals(0x920a, &[(50, 1)]),
            ascii(0xa433, "Canon"),
            ascii(0xa434, "RF24-105mm F4 L IS USM"),
        ],
        vec![
            ascii(0x1, "N"),
            rationals(0x2, &[(35, 1), (41, 1), (2, 1)]),
            ascii(0x3, "E"),
            rationals(0x4, &[(139, 1), (41, 1), (30, 1)]),
            rationals(0x6, &[(40, 1)]),
        ],
    )
}

fn phone_file() -> Vec<u8> {
    build_tiff(
        vec![ascii(0x10f, "\"Apple\""), ascii(0x110, "iPhone 12, Pro")],
        vec![
            short(0xa405, 26),
            rationals(0x920a, &[(42, 10)]),
            ascii(0xa434, "iPhone back camera"),
        ],
        vec![],
    )
}

fn reference_field(ex: &exif::Exif, tag: exif::Tag) -> String {
    ex.get_field(tag, exif::In::PRIMARY)
        .map_or_else(|| "".to_string(), |f| f.display_value().to_string())
}

fn reference_trim(ex: &exif::Exif, tag: exif::Tag) -> String {
    reference_field(ex, tag).replace(['\"', ','], "").trim().to_owned()
}

fn read_reference(data: &[u8]) -> exif::Exif {
    exif::Reader::new()
        .read_from_container(&mut std::io::Cursor::new(data))
        .expect("the test file holds Exif data")
}

fn check_against_reference(data: &[u8]) {
    let ex = read_reference(data);
    let got = ImageExif::from_exif_data(data).ok().expect("readable");
    let make = reference_trim(&ex, exif::Tag::Make);
    let model = reference_trim(&ex, exif::Tag::Model).replace(&make, "");
    assert_eq!(got.make, format!("{} {}", make, model));
    let lens_make = reference_trim(&ex, exif::Tag::LensMake);
    let lens_model = reference_trim(&ex, exif::Tag::LensModel);
    let lens = if lens_make.is_empty() {
        lens_model.clone()
    } else {
        format!("{}-{}", lens_make, lens_model)
    };
    assert_eq!(got.lens, lens);
    let f35 = reference_trim(&ex, exif::Tag::FocalLengthIn35mmFilm);
    let focal = if f35.is_empty() { reference_trim(&ex, exif::Tag::FocalLength) } else { f35 };
    assert_eq!(got.focal_len, focal);
    assert_eq!(got.xp_prog, reference_trim(&ex, exif::Tag::ExposureProgram));
    assert_eq!(got.av, reference_trim(&ex, exif::Tag::FNumber));
    assert_eq!(got.tv, reference_trim(&ex, exif::Tag::ExposureTime));
    assert_eq!(got.iso, reference_trim(&ex, exif::Tag::PhotographicSensitivity));
    assert_eq!(got.shot_time, reference_trim(&ex, exif::Tag::DateTimeOriginal));
    assert_eq!(got.meter_mode, reference_trim(&ex, exif::Tag::MeteringMode));
    assert_eq!(got.exp_cp, reference_trim(&ex, exif::Tag::ExposureBiasValue));
    assert_eq!(got.flash, reference_trim(&ex, exif::Tag::Flash));
    let loca = got.loca.expect("a location is always given");
    assert_eq!(loca.alt, reference_trim(&ex, exif::Tag::GPSAltitude));
    assert_eq!(loca.lat, reference_trim(&ex, exif::Tag::GPSLatitude));
    assert_eq!(loca.lng, reference_trim(&ex, exif::Tag::GPSLongitude));
}

#[test]
fn exif_of_camera_file_matches_reference() {
    check_against_reference(&camera_file());
}

#[test]
fn exif_of_phone_file_matches_reference() {
    check_against_reference(&phone_file());
}

#[test]
fn exif_texts_are_cleaned() {
    let got = ImageExif::from_exif_data(&camera_file()).ok().expect("readable");
    // The model loses the make, which it repeats.
    assert_eq!(got.make, "Canon  EOS R5");
    assert_eq!(got.lens, "Canon-RF24-105mm F4 L IS USM");
    assert_eq!(got.iso, "400");
    assert_eq!(got.shot_time, "2024-01-02 03:04:05");
    assert_eq!(got.focal_len, "50");
    let phone = ImageExif::from_exif_data(&phone_file()).ok().expect("readable");
    // Quotes and commas go (the crate shows a quote inside a text as `\"`,
    // so its backslash stays), the 35 mm focal length wins, no lens make
    // means no dash.
    assert_eq!(phone.make, "\\Apple\\ iPhone 12 Pro");
    assert_eq!(phone.focal_len, "26");
    assert_eq!(phone.lens, "iPhone back camera");
    assert_eq!(phone.iso, "");
    let loca = phone.loca.expect("a location is always given");
    assert_eq!((loca.alt.as_str(), loca.lat.as_str(), loca.lng.as_str()), ("", "", ""));
}

#[test]
fn exif_unreadable_data_is_an_error() {
    for data in [&b""[..], &b"not an image at all"[..], &b"II*\0"[..]] {
        assert!(matches!(ImageExif::from_exif_data(data), Err(ExifError::Unreadable)));
        assert!(matches!(get_image_exif(data), Err(ExifError::Unreadable)));
    }
}

fn reference_with_unit(ex: &exif::Exif, tag: exif::Tag) -> String {
    match ex.get_field(tag, exif::In::PRIMARY) {
        None => "".to_string(),
        Some(field) => format!("{}", field.display_value().with_unit(ex)),
    }
}

#[test]
fn image_exif_with_units_matches_reference() {
    for data in [camera_file(), phone_file()] {
        let ex = read_reference(&data);
        let got = get_image_exif(&data).ok().expect("readable");
        let make = reference_with_unit(&ex, exif::Tag::Make).replace("\"", "");
        let model = reference_with_unit(&ex, exif::Tag::Model).replace("\"", "");
        assert_eq!(got.make, format!("{} {}", make, model));
        let lens_make = reference_with_unit(&ex, exif::Tag::LensMake).replace("\"", "");
        let lens_model = reference_with_unit(&ex, exif::Tag::LensModel).replace("\"", "");
        assert_eq!(got.lens, format!("{} {}", lens_make, lens_model));
        let program = reference_with_unit(&ex, exif::Tag::ExposureProgram)
            .chars()
            .next()
            .unwrap_or(' ');
        assert_eq!(got.xp_prog, program.to_ascii_uppercase());
        assert_eq!(got.focal_len, reference_with_unit(&ex, exif::Tag::FocalLength));
        assert_eq!(got.aperture, reference_with_unit(&ex, exif::Tag::FNumber));
        assert_eq!(got.shutter, reference_with_unit(&ex, exif::Tag::ExposureTime));
        assert_eq!(got.iso, reference_with_unit(&ex, exif::Tag::PhotographicSensitivity));
        assert_eq!(got.shot_time, reference_with_unit(&ex, exif::Tag::DateTimeOriginal));
    }
}

#[test]
fn image_exif_units_are_kept() {
    let got = get_image_exif(&camera_file()).ok().expect("readable");
    assert_eq!(got.make, "Canon Canon EOS R5");
    assert_eq!(got.focal_len, "50 mm");
    assert_eq!(got.shutter, "1/250 s");
    assert_eq!(got.xp_prog, 'A');
}
