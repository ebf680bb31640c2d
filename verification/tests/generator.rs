use std::hash::Hasher;

use no_face::config::Config;
use no_face::random::{color, color_data, hash, inverted_color, number, SeedError};
use no_face::raster::{render_to_png, RasterError};
use no_face::strutil::{find_last_dot, sort_strings, str_eq, str_le_exec};

fn reference_hash(style: &str, name: &str, tag: &str) -> u64 {
    let mut hasher = fnv::FnvHasher::with_key(0);
    hasher.write(style.as_bytes());
    hasher.write(name.as_bytes());
    hasher.write(tag.as_bytes());
    hasher.finish()
}

#[test]
fn hash_matches_reference_fnv() {
    for (style, name, tag) in [
        ("blob", "alice", "fill"),
        ("", "", ""),
        ("plasma", "bob", "background"),
        ("a", "bc", "d"),
        ("ab", "c", "d"),
    ] {
        assert_eq!(hash(style, name, tag), reference_hash(style, name, tag));
    }
}

#[test]
fn hash_is_deterministic() {
    let first = hash("blob", "alice", "fill");
    for _ in 0..10 {
        assert_eq!(hash("blob", "alice", "fill"), first);
    }
    assert_ne!(hash("blob", "alice", "fill"), hash("blob", "alice", "border"));
}

#[test]
fn number_is_hash_mod_max() {
    let data = hash("blob", "alice", "fill");
    assert_eq!(number("blob", "alice", "fill", 10), Ok(data % 10));
    assert_eq!(number("blob", "alice", "fill", u64::MAX), Ok(data % u64::MAX));
    for max in [1u64, 2, 7, 360] {
        let got = number("blob", "alice", "fill", max).unwrap();
        assert!(got < max);
    }
}

#[test]
fn number_rejects_zero_bound() {
    assert_eq!(number("blob", "alice", "fill", 0), Err(SeedError::ZeroMax));
}

#[test]
fn color_components_stay_in_range() {
    for tag in ["fill", "background", "border", "x", "", "zz9"] {
        let (h, s, v) = color_data("blob", "alice", tag);
        assert!(h < 360);
        assert!((70..90).contains(&s));
        assert!((55..75).contains(&v));
    }
}

#[test]
fn color_components_decompose_hash() {
    let data = hash("blob", "alice", "fill");
    let (h, s, v) = color_data("blob", "alice", "fill");
    assert_eq!(h, data % 360);
    assert_eq!(s, (data / 360) % 20 + 70);
    assert_eq!(v, (data / 360 / 20) % 20 + 55);
}

#[test]
fn color_formats_as_hsl() {
    let (h, s, v) = color_data("blob", "alice", "fill");
    assert_eq!(color("blob", "alice", "fill"), format!("hsl({h}, {s}%, {v}%)"));
}

#[test]
fn inverted_color_rotates_hue_half_turn() {
    for tag in ["fill", "background", "border"] {
        let (h, s, v) = color_data("blob", "alice", tag);
        let expected = format!("hsl({}, {}%, {}%)", (h + 180) % 360, s, v);
        assert_eq!(inverted_color("blob", "alice", tag), expected);
    }
}

#[test]
fn ceiling_defaults_to_1024() {
    let c = Config { api_root: None, max_raster_size: None };
    assert_eq!(c.ceiling(), 1024);
    let c = Config { api_root: None, max_raster_size: Some(64) };
    assert_eq!(c.ceiling(), 64);
}

#[test]
fn find_last_dot_finds_the_last() {
    assert_eq!(find_last_dot("a.b.c"), Some(3));
    assert_eq!(find_last_dot("alice.svg"), Some(5));
    assert_eq!(find_last_dot("alice"), None);
    assert_eq!(find_last_dot(""), None);
    assert_eq!(find_last_dot(".svg"), Some(0));
}

#[test]
fn string_helpers_compare() {
    assert!(str_eq("svg", "svg"));
    assert!(!str_eq("svg", "png"));
    assert!(str_le_exec("abc", "abd"));
    assert!(str_le_exec("ab", "abc"));
    assert!(!str_le_exec("abd", "abc"));
    assert!(str_le_exec("", "a"));
}

#[test]
fn sort_strings_orders_lexicographically() {
    let sorted = sort_strings(vec![
        "plasma".to_string(),
        "blob".to_string(),
        "aurora".to_string(),
        "blob".to_string(),
    ]);
    assert_eq!(sorted, vec!["aurora", "blob", "blob", "plasma"]);
}

const PLAIN_SVG: &str = "<svg xmlns=\"http://www.w3.org/2000/svg\" width=\"16\" height=\"16\"><rect width=\"16\" height=\"16\" fill=\"red\"/></svg>";

#[test]
fn rasterize_rejects_zero_size() {
    assert_eq!(render_to_png(PLAIN_SVG, 0), Err(RasterError::Allocate));
}

#[test]
fn rasterize_rejects_bad_markup() {
    assert_eq!(render_to_png("this is not vector markup", 16), Err(RasterError::Parse));
}

#[test]
fn rasterize_truncates_size_to_32_bits() {
    assert_eq!(render_to_png(PLAIN_SVG, 1u64 << 32), Err(RasterError::Allocate));
}

#[test]
fn rasterize_produces_png_bytes() {
    let bytes = render_to_png(PLAIN_SVG, 16).unwrap();
    assert_eq!(&bytes[0..8], &[137u8, 80, 78, 71, 13, 10, 26, 10]);
}

#[test]
fn raster_errors_describe_themselves() {
    assert_eq!(RasterError::Parse.describe(), "Error parsing SVG");
    assert_eq!(RasterError::Allocate.describe(), "Error creating pixmap");
    assert_eq!(RasterError::Encode.describe(), "Error encoding PNG");
}
