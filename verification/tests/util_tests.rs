use media_album::util::{
    convert_http_date_to_u64, convert_u64_to_http_date, date_str_to_timestamp,
    filename_to_timestamp, human_readable_size, TimeError,
};

fn reference_size(bytes: u64) -> String {
    let units = ["B", "KB", "MB", "GB", "TB", "PB", "EB", "ZB", "YB"];
    let mut size = bytes as f64;
    let mut i = 0;
    while size >= 1024.0 && i < units.len() - 1 {
        size /= 1024.0;
        i += 1;
    }
    format!("{:.2} {}", size, units[i])
}

#[test]
fn human_readable_size_examples() {
    assert_eq!(human_readable_size(0), "0.00 B");
    assert_eq!(human_readable_size(512), "512.00 B");
    assert_eq!(human_readable_size(1023), "1023.00 B");
    assert_eq!(human_readable_size(1024), "1.00 KB");
    assert_eq!(human_readable_size(1536), "1.50 KB");
    assert_eq!(human_readable_size(1048576), "1.00 MB");
    assert_eq!(human_readable_size(5 * 1024 * 1024 * 1024), "5.00 GB");
    assert_eq!(human_readable_size(u64::MAX), "16.00 EB");
}

#[test]
fn human_readable_size_matches_float_formatting() {
    let mut samples: Vec<u64> = vec![
        1, 9, 10, 99, 100, 1000, 1025, 1030, 1034, 1035, 2047, 2048, 10239, 10240, 123456,
        999_999, 1_048_575, 1_048_577, 987_654_321, 1_099_511_627_776, 9_007_199_254_740_991,
        9_007_199_254_740_993, 18_014_398_509_481_985, 1_152_921_504_606_846_975,
        u64::MAX - 1, u64::MAX / 3, 1 << 60, (1 << 60) + 1,
    ];
    // values whose exact quotient ends in a half hundredth
    for k in 0..2000u64 {
        samples.push(1024 + k * 5);
        samples.push(1024 * 1024 + k * 5243);
        samples.push(k * 1_000_003 + 77);
    }
    let mut x: u64 = 0x9E37_79B9_7F4A_7C15;
    for _ in 0..5000 {
        x ^= x << 13;
        x ^= x >> 7;
        x ^= x << 17;
        samples.push(x);
        samples.push(x >> (x % 64));
    }
    for b in samples {
        assert_eq!(human_readable_size(b), reference_size(b), "bytes = {}", b);
    }
}

#[test]
fn date_str_to_timestamp_examples() {
    assert_eq!(date_str_to_timestamp("2024-01-01 12:12:12"), Ok(1704111132));
    assert_eq!(date_str_to_timestamp("1970-01-01 00:00:00"), Ok(0));
    assert_eq!(date_str_to_timestamp("1969-12-31 23:59:59"), Err(TimeError::BeforeEpoch));
    assert_eq!(date_str_to_timestamp("2024:01:01 12:12:12"), Err(TimeError::Unparsable));
    assert_eq!(date_str_to_timestamp(""), Err(TimeError::Unparsable));
}

#[test]
fn filename_to_timestamp_examples() {
    assert_eq!(filename_to_timestamp("IMG_20200916_205836.jpg"), Ok(1600289916));
    assert_eq!(filename_to_timestamp("photo_IMG_20200916_205836.JPG"), Ok(1600289916));
    assert_eq!(filename_to_timestamp("IMG_20200916_205836"), Ok(1600289916));
    assert_eq!(filename_to_timestamp("DSC_0001.jpg"), Err(TimeError::NoImagePrefix));
    assert_eq!(filename_to_timestamp("IMG_.jpg"), Err(TimeError::Unparsable));
    assert_eq!(filename_to_timestamp("IMG_19000101_000000.jpg"), Err(TimeError::BeforeEpoch));
    assert_eq!(filename_to_timestamp("IMG_20200916_205836IMG_x.jpg"), Ok(1600289916));
}

#[test]
fn http_dates() {
    assert_eq!(convert_u64_to_http_date(0).unwrap(), "Thu, 01 Jan 1970 00:00:00 GMT");
    assert_eq!(convert_u64_to_http_date(1445412480).unwrap(), "Wed, 21 Oct 2015 07:28:00 GMT");
    assert_eq!(convert_u64_to_http_date(u64::MAX), Err(TimeError::OutOfRange));
    assert_eq!(convert_u64_to_http_date(i64::MAX as u64), Err(TimeError::OutOfRange));
    assert_eq!(convert_http_date_to_u64("Wed, 21 Oct 2015 07:28:00 GMT"), Ok(1445412480));
    assert_eq!(convert_http_date_to_u64("yesterday"), Err(TimeError::Unparsable));
    assert_eq!(convert_u64_to_http_date(253402300799).unwrap(), "Fri, 31 Dec 9999 23:59:59 GMT");
    for t in [0u64, 1, 86399, 951_782_400, 1_600_289_916, 4_102_444_800, 253402300799] {
        let text = convert_u64_to_http_date(t).unwrap();
        assert_eq!(convert_http_date_to_u64(&text), Ok(t));
    }
}
