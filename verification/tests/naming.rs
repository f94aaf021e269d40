use imgdl::config::NamingStrategy;
use imgdl::hash::content_hash;
use imgdl::output::naming::{
    content_hash_name, content_hash_name_from, detect_extension_from_magic_bytes,
    extension_from_url, file_header_name, file_header_name_from, generate_filename, sanitize,
    sequential_name, strip_url_query_and_fragment, truncate_filename, url_based_name,
    url_based_name_from,
};

#[test]
fn url_based_extracts_filename_from_path() {
    let name = generate_filename(
        "https://example.com/images/photo.jpg",
        0,
        &[],
        &NamingStrategy::UrlBased,
    );
    assert_eq!(name, "photo.jpg");
}

#[test]
fn url_based_sanitizes_special_characters() {
    let name = generate_filename(
        "https://example.com/photo (1).jpg",
        0,
        &[],
        &NamingStrategy::UrlBased,
    );
    assert_eq!(name, "photo__1_.jpg");
}

#[test]
fn url_based_falls_back_to_hash_when_no_path() {
    let name = generate_filename("https://example.com/", 0, &[], &NamingStrategy::UrlBased);
    assert!(name.ends_with(".bin"));
    assert!(name.len() > 4); // has a hash prefix
}

#[test]
fn url_based_preserves_extension() {
    let name = generate_filename(
        "https://example.com/test.png",
        0,
        &[],
        &NamingStrategy::UrlBased,
    );
    assert!(name.ends_with(".png"));
}

#[test]
fn sequential_generates_zero_padded_names() {
    let name = generate_filename(
        "https://example.com/photo.jpg",
        1,
        &[],
        &NamingStrategy::Sequential,
    );
    assert_eq!(name, "001.jpg");

    let name = generate_filename(
        "https://example.com/photo.jpg",
        42,
        &[],
        &NamingStrategy::Sequential,
    );
    assert_eq!(name, "042.jpg");
}

#[test]
fn sequential_infers_extension() {
    // From URL
    let name = generate_filename(
        "https://example.com/photo.png",
        1,
        &[],
        &NamingStrategy::Sequential,
    );
    assert_eq!(name, "001.png");

    // From magic bytes when URL has no extension
    let jpeg_bytes = [0xFF, 0xD8, 0xFF, 0xE0];
    let name = generate_filename(
        "https://example.com/image",
        2,
        &jpeg_bytes,
        &NamingStrategy::Sequential,
    );
    assert_eq!(name, "002.jpg");
}

#[test]
fn content_hash_generates_sha256_filename() {
    let data = b"hello world";
    let name = generate_filename(
        "https://example.com/photo.jpg",
        0,
        data,
        &NamingStrategy::ContentHash,
    );
    // SHA-256 of "hello world" starts with b94d27b9...
    assert!(name.starts_with("b94d27b9"));
    assert!(name.ends_with(".jpg"));
    // 16 hex chars + dot + ext
    let stem = name.split('.').next().unwrap();
    assert_eq!(stem.len(), 32);
}

#[test]
fn content_hash_differs_for_different_content() {
    let name1 = generate_filename(
        "https://example.com/a.jpg",
        0,
        b"content1",
        &NamingStrategy::ContentHash,
    );
    let name2 = generate_filename(
        "https://example.com/a.jpg",
        0,
        b"content2",
        &NamingStrategy::ContentHash,
    );
    assert_ne!(name1, name2);
}

#[test]
fn content_hash_same_for_identical_content() {
    let name1 = generate_filename(
        "https://example.com/a.jpg",
        0,
        b"same",
        &NamingStrategy::ContentHash,
    );
    let name2 = generate_filename(
        "https://example.com/b.jpg",
        0,
        b"same",
        &NamingStrategy::ContentHash,
    );
    // Same content hash but different extensions
    let stem1 = name1.split('.').next().unwrap();
    let stem2 = name2.split('.').next().unwrap();
    assert_eq!(stem1, stem2);
}

#[test]
fn file_header_detects_jpeg() {
    let bytes = [0xFF, 0xD8, 0xFF, 0xE0, 0x00, 0x10];
    let name = generate_filename(
        "https://example.com/photo.png",
        0,
        &bytes,
        &NamingStrategy::FileHeader,
    );
    assert!(name.ends_with(".jpg"));
}

#[test]
fn file_header_detects_png() {
    let bytes = [0x89, 0x50, 0x4E, 0x47, 0x0D, 0x0A];
    let name = generate_filename(
        "https://example.com/photo.jpg",
        0,
        &bytes,
        &NamingStrategy::FileHeader,
    );
    assert!(name.ends_with(".png"));
}

#[test]
fn file_header_detects_gif() {
    let bytes = [0x47, 0x49, 0x46, 0x38, 0x39, 0x61];
    let name = generate_filename(
        "https://example.com/photo.jpg",
        0,
        &bytes,
        &NamingStrategy::FileHeader,
    );
    assert!(name.ends_with(".gif"));
}

#[test]
fn file_header_detects_webp() {
    let bytes = [
        0x52, 0x49, 0x46, 0x46, // RIFF
        0x00, 0x00, 0x00, 0x00, // size (doesn't matter)
        0x57, 0x45, 0x42, 0x50, // WEBP
    ];
    let name = generate_filename(
        "https://example.com/photo.jpg",
        0,
        &bytes,
        &NamingStrategy::FileHeader,
    );
    assert!(name.ends_with(".webp"));
}

#[test]
fn file_header_falls_back_to_bin() {
    let bytes = [0x00, 0x00, 0x00, 0x00];
    let name = generate_filename(
        "https://example.com/photo.jpg",
        0,
        &bytes,
        &NamingStrategy::FileHeader,
    );
    assert!(name.ends_with(".bin"));
}

#[test]
fn long_filenames_truncated_to_200_chars() {
    let long_url = format!("https://example.com/{}.jpg", "a".repeat(250));
    let name = generate_filename(&long_url, 0, &[], &NamingStrategy::UrlBased);
    assert!(name.len() <= 200);
    assert!(name.ends_with(".jpg"));
}

#[test]
fn magic_bytes_tell_the_format() {
    assert_eq!(detect_extension_from_magic_bytes(&[0xFF, 0xD8, 0xFF]), ".jpg");
    assert_eq!(detect_extension_from_magic_bytes(&[0xFF, 0xD8]), ".bin");
    assert_eq!(detect_extension_from_magic_bytes(&[0x89, 0x50, 0x4E, 0x47]), ".png");
    assert_eq!(detect_extension_from_magic_bytes(&[0x47, 0x49, 0x46, 0x38]), ".gif");
    assert_eq!(
        detect_extension_from_magic_bytes(&[0, 0, 0, 0x20, 0x66, 0x74, 0x79, 0x70]),
        ".avif"
    );
    assert_eq!(detect_extension_from_magic_bytes(b"RIFF....WAVE"), ".bin");
    assert_eq!(detect_extension_from_magic_bytes(&[]), ".bin");
}

#[test]
fn query_and_fragment_are_stripped() {
    assert_eq!(strip_url_query_and_fragment("https://a/b.jpg?x=1#f"), "https://a/b.jpg");
    assert_eq!(strip_url_query_and_fragment("https://a/b.jpg#f?x"), "https://a/b.jpg");
    assert_eq!(strip_url_query_and_fragment(""), "");
}

#[test]
fn extension_is_taken_from_the_last_segment() {
    assert_eq!(extension_from_url("https://a/b.JPG?x=.png"), Some("jpg".to_string()));
    assert_eq!(extension_from_url("https://a.b/c"), None);
    assert_eq!(extension_from_url("https://a/b."), None);
    assert_eq!(extension_from_url("https://a/b.abcdefghij"), Some("abcdefghij".to_string()));
    assert_eq!(extension_from_url("https://a/b.abcdefghijk"), None);
    assert_eq!(extension_from_url("https://a/b.j-g"), None);
    assert_eq!(extension_from_url("https://a/b.j\u{e9}"), None);
    assert_eq!(extension_from_url("https://a.b/c.d/e"), None);
    assert_eq!(extension_from_url("photo.png"), Some("png".to_string()));
    assert_eq!(extension_from_url("images/photo.png"), Some("png".to_string()));
    assert_eq!(extension_from_url("images//photo.png"), Some("png".to_string()));
    assert_eq!(extension_from_url("a/b://photo.png"), Some("png".to_string()));
    assert_eq!(extension_from_url("https://a//photo.png"), Some("png".to_string()));
}

#[test]
fn queries_and_fragments_do_not_change_names() {
    let strategies = [
        NamingStrategy::UrlBased,
        NamingStrategy::Sequential,
        NamingStrategy::ContentHash,
        NamingStrategy::FileHeader,
    ];
    for strategy in strategies {
        let plain = generate_filename("https://a.b/c.png", 3, b"GIF8", &strategy);
        for added in ["?x=1", "#f", "?a/b.jpg#c", "#a?b/c.gif"] {
            let url = format!("https://a.b/c.png{added}");
            assert_eq!(generate_filename(&url, 3, b"GIF8", &strategy), plain);
        }
    }
    assert_eq!(
        generate_filename("https://a.b/c.png?x", 3, &[], &NamingStrategy::UrlBased),
        "c.png"
    );
}

#[test]
fn hosts_are_not_taken_for_file_names() {
    for url in [
        "https://example.com",
        "https://example.com?x=/a.png",
        "https://example.com#/a.png",
        "https://example.com/",
        "//example.com",
    ] {
        assert_eq!(extension_from_url(url), None);
        let name = generate_filename(url, 0, &[], &NamingStrategy::UrlBased);
        assert!(name.ends_with(".bin"));
        assert_eq!(name.len(), 36);
        assert_eq!(sequential_name(0, url, &[0xFF, 0xD8, 0xFF]), "000.jpg");
    }
    let digest: Vec<u8> = (0u8..32).collect();
    assert_eq!(
        url_based_name_from("https://example.com", &digest),
        "000102030405060708090a0b0c0d0e0f.bin"
    );
    assert_eq!(
        file_header_name_from("https://example.com", &[0xFF, 0xD8, 0xFF], &digest),
        "0001020304050607.jpg"
    );
    assert_eq!(
        content_hash_name_from(b"GIF8", "https://example.com", &digest),
        "000102030405060708090a0b0c0d0e0f.gif"
    );
}

#[test]
fn sanitize_keeps_letters_digits_dots_and_hyphens() {
    assert_eq!(sanitize("a-B.9 _\u{e9}/"), "a-B.9____");
}

#[test]
fn truncation_keeps_the_extension() {
    let name = format!("{}.jpeg", "b".repeat(250));
    let short = truncate_filename(&name);
    assert_eq!(short, format!("{}.jpeg", "b".repeat(195)));
    let plain = "c".repeat(250);
    assert_eq!(truncate_filename(&plain), "c".repeat(200));
    assert_eq!(truncate_filename("short.png"), "short.png");
    // No room for both the stem and the extension.
    let ext_only = format!("x.{}", "d".repeat(250));
    assert_eq!(truncate_filename(&ext_only), format!("x.{}", "d".repeat(198)));
    let exact = format!("{}.{}", "e".repeat(5), "f".repeat(199));
    assert_eq!(truncate_filename(&exact), format!("{}.{}", "e".repeat(5), "f".repeat(194)));
    // Characters are counted, not bytes.
    let wide = format!("{}.jpg", "\u{e9}".repeat(250));
    assert_eq!(truncate_filename(&wide).chars().count(), 200);
}

#[test]
fn sequential_names_are_padded_to_three_digits() {
    assert_eq!(sequential_name(0, "https://a/b.jpg", &[]), "000.jpg");
    assert_eq!(sequential_name(99, "https://a/b", &[]), "099.bin");
    assert_eq!(sequential_name(100, "https://a/b.gif", &[]), "100.gif");
    assert_eq!(sequential_name(12345, "https://a/b.gif", &[]), "12345.gif");
    assert_ne!(
        generate_filename("https://a/b.gif", 7, &[], &NamingStrategy::Sequential),
        generate_filename("https://a/b.gif", 70, &[], &NamingStrategy::Sequential)
    );
}

#[test]
fn digests_are_written_in_hexadecimal() {
    let digest: Vec<u8> = (0u8..32).collect();
    assert_eq!(
        url_based_name_from("https://a/", &digest),
        "000102030405060708090a0b0c0d0e0f.bin"
    );
    assert_eq!(
        content_hash_name_from(&[], "https://a/b.png", &digest),
        "000102030405060708090a0b0c0d0e0f.png"
    );
    assert_eq!(
        file_header_name_from("https://a/", &[0xFF, 0xD8, 0xFF], &digest),
        "0001020304050607.jpg"
    );
    assert_eq!(
        file_header_name_from("https://a/b.c.png?x", &[0x47, 0x49, 0x46, 0x38], &digest),
        "b.c.gif"
    );
}

#[test]
fn sha256_is_the_real_one() {
    assert_eq!(
        content_hash_name(b"hello world", "https://example.com/photo"),
        "b94d27b9934d3e08a52e52d7da7dabfa.bin"
    );
    assert_eq!(content_hash(b""), "e3b0c44298fc1c149afbf4c8996fb924");
    assert_eq!(url_based_name("abc"), "ba7816bf8f01cfea414140de5dae2223.bin");
    assert_eq!(file_header_name("abc", &[]), "ba7816bf8f01cfea.bin");
    assert_eq!(url_based_name("https://a/photo.jpg?size=2"), "photo.jpg");
}

#[test]
fn names_are_safe_for_every_strategy() {
    let strategies = [
        NamingStrategy::UrlBased,
        NamingStrategy::Sequential,
        NamingStrategy::ContentHash,
        NamingStrategy::FileHeader,
    ];
    for strategy in strategies.iter() {
        for url in ["", "https://a/b c.j*g", "https://a/\u{1F600}.png#x", "x/.."] {
            let name = generate_filename(url, 3, b"xyz", strategy);
            assert!(!name.is_empty());
            assert!(name.chars().count() <= 200);
            assert!(name
                .chars()
                .all(|c| c.is_ascii_alphanumeric() || c == '.' || c == '-' || c == '_'));
        }
    }
}
