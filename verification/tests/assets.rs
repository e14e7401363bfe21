//! CDN URLs, initials, the bounded cache and RGBA decoding.

use couchcord::{AssetCache, AssetHash, AssetKind, GuildId, UserId};
use couchcord::assets::{cdn_url, decode_rgba, initials};
use image::{ColorType, ImageEncoder};

fn tiny_png() -> Vec<u8> {
    let pixels: Vec<u8> = vec![255u8; 2 * 3 * 4];
    let mut out = Vec::new();
    image::codecs::png::PngEncoder::new(&mut out)
        .write_image(&pixels, 2, 3, ColorType::Rgba8.into())
        .unwrap();
    out
}

#[test]
fn decode_png_to_rgba_handle() {
    let h = decode_rgba(&tiny_png()).expect("valid PNG decodes");
    assert_eq!((h.width, h.height), (2, 3));
    assert_eq!(h.rgba.len(), 2 * 3 * 4);
}

#[test]
fn decode_rejects_garbage() {
    assert!(decode_rgba(b"not an image").is_none());
}

#[test]
fn decode_keeps_the_pixels() {
    let h = decode_rgba(&tiny_png()).unwrap();
    assert!(h.rgba.iter().all(|b| *b == 255), "opaque white survives the round trip");
}

#[test]
fn guild_icon_url_is_official_cdn() {
    let url = cdn_url(AssetKind::GuildIcon { guild: GuildId(123) }, &AssetHash("abcdef".into()), 64);
    assert_eq!(url, "https://cdn.discordapp.com/icons/123/abcdef.png?size=64");
}

#[test]
fn user_avatar_url_and_animated_extension() {
    let still = cdn_url(AssetKind::UserAvatar { user: UserId(9) }, &AssetHash("hash".into()), 32);
    assert_eq!(still, "https://cdn.discordapp.com/avatars/9/hash.png?size=32");
    let anim = cdn_url(AssetKind::UserAvatar { user: UserId(9) }, &AssetHash("a_hash".into()), 32);
    assert!(anim.ends_with("a_hash.gif?size=32"), "animated hash → gif");
}

#[test]
fn size_is_clamped_to_valid_range() {
    let url = cdn_url(AssetKind::GuildIcon { guild: GuildId(1) }, &AssetHash("h".into()), 99999);
    assert!(url.ends_with("size=4096"));
    let url = cdn_url(AssetKind::GuildIcon { guild: GuildId(1) }, &AssetHash("h".into()), 1);
    assert!(url.ends_with("size=16"));
}

#[test]
fn size_bounds_are_kept_exactly() {
    let url = cdn_url(AssetKind::GuildIcon { guild: GuildId(1) }, &AssetHash("h".into()), 16);
    assert_eq!(url, "https://cdn.discordapp.com/icons/1/h.png?size=16");
    let url = cdn_url(AssetKind::GuildIcon { guild: GuildId(1) }, &AssetHash("h".into()), 4096);
    assert_eq!(url, "https://cdn.discordapp.com/icons/1/h.png?size=4096");
}

#[test]
fn initials_takes_up_to_two_uppercase() {
    assert_eq!(initials("mason rhodes"), "MR");
    assert_eq!(initials("Friends"), "F");
    assert_eq!(initials("the cool kids club"), "TC");
    assert_eq!(initials(""), "");
}

#[test]
fn initials_skip_runs_of_whitespace() {
    assert_eq!(initials("  ada \t lovelace "), "AL");
    assert_eq!(initials("ünï code"), "ÜC");
    assert_eq!(initials("ß ß"), "SSSS", "upper-casing may lengthen non-ASCII initials");
    assert_eq!(initials("ada\u{3000}lovelace\u{85}x"), "AL", "Unicode white space separates words");
    assert_eq!(initials("a\u{1c}b"), "A", "U+001C is no white space");
}

#[test]
fn cache_stores_and_retrieves() {
    let mut c = AssetCache::new(8);
    assert!(c.get("u").is_none());
    c.put("u".into(), vec![1, 2, 3]);
    assert_eq!(c.get("u"), Some(vec![1, 2, 3]));
}

#[test]
fn cache_respects_capacity() {
    let mut c = AssetCache::new(2);
    c.put("a".into(), vec![0]);
    c.put("b".into(), vec![0]);
    c.put("c".into(), vec![0]);
    assert_eq!(c.len(), 2, "never exceeds capacity");
    c.put("c".into(), vec![1]);
    assert_eq!(c.len(), 2);
    assert_eq!(c.get("c"), Some(vec![1]));
}

#[test]
fn cache_of_capacity_zero_still_holds_one() {
    let mut c = AssetCache::new(0);
    assert!(c.is_empty());
    c.put("a".into(), vec![7]);
    assert_eq!(c.len(), 1);
    c.put("b".into(), vec![8]);
    assert_eq!(c.len(), 1);
    assert_eq!(c.get("b"), Some(vec![8]));
}

#[test]
fn only_decodable_fetches_are_cached() {
    let mut c = AssetCache::new(4);
    assert!(c.cached_image("u").is_none(), "nothing cached yet");
    assert!(c.admit_fetched("u".into(), b"garbage".to_vec()).is_none());
    assert!(c.get("u").is_none(), "undecodable bytes are not cached");
    let h = c.admit_fetched("u".into(), tiny_png()).unwrap();
    assert_eq!((h.width, h.height), (2, 3));
    assert_eq!(c.get("u"), Some(tiny_png()));
    let again = c.cached_image("u").unwrap().unwrap();
    assert_eq!(again, h);
}

#[test]
fn admitting_keeps_other_entries() {
    let mut c = AssetCache::new(2);
    c.put("a".into(), vec![1]);
    c.admit_fetched("u".into(), tiny_png()).unwrap();
    assert_eq!(c.get("a"), Some(vec![1]), "room left: nothing evicted");
    c.admit_fetched("v".into(), tiny_png()).unwrap();
    assert_eq!(c.len(), 2, "full: exactly one other entry made room");
    assert!(c.get("v").is_some());
}
