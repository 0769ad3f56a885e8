use sealer_dashboard::detail::{ImageDetail, Props};
use sealer_dashboard::percent::{decode_from, hex_digit};
use sealer_dashboard::route::{resolve, route_path, AppRoute};

fn detail(name: &str) -> AppRoute {
    AppRoute::ImageDetail(name.to_string())
}

#[test]
fn resolve_detail_path() {
    assert_eq!(resolve("/images/busybox"), detail("busybox"));
}

#[test]
fn resolve_list_path() {
    assert_eq!(resolve("/images"), AppRoute::Images);
}

#[test]
fn resolve_empty_name_is_list() {
    assert_eq!(resolve("/images/"), AppRoute::Images);
}

#[test]
fn resolve_unknown_paths_default_to_list() {
    assert_eq!(resolve("/"), AppRoute::Images);
    assert_eq!(resolve(""), AppRoute::Images);
    assert_eq!(resolve("/imagesx"), AppRoute::Images);
    assert_eq!(resolve("/image/busybox"), AppRoute::Images);
    assert_eq!(resolve("images/busybox"), AppRoute::Images);
}

#[test]
fn resolve_keeps_nested_name() {
    assert_eq!(resolve("/images/library/redis"), detail("library/redis"));
}

#[test]
fn resolve_decodes_escapes() {
    assert_eq!(resolve("/images/my%20image"), detail("my image"));
    assert_eq!(resolve("/images/a%2Fb"), detail("a/b"));
    assert_eq!(resolve("/images/100%25"), detail("100%"));
    assert_eq!(resolve("/images/%2f"), detail("/"));
}

#[test]
fn resolve_keeps_malformed_escapes() {
    assert_eq!(resolve("/images/50%"), detail("50%"));
    assert_eq!(resolve("/images/%zz"), detail("%zz"));
    assert_eq!(resolve("/images/%4"), detail("%4"));
}

#[test]
fn resolve_decodes_utf8_escapes() {
    assert_eq!(resolve("/images/%C3%A9"), detail("\u{e9}"));
    assert_eq!(resolve("/images/caf%c3%a9"), detail("caf\u{e9}"));
    assert_eq!(resolve("/images/%E2%82%AC"), detail("\u{20ac}"));
    assert_eq!(resolve("/images/%F0%9F%90%B3"), detail("\u{1f433}"));
    assert_eq!(resolve("/images/\u{e9}"), detail("\u{e9}"));
}

#[test]
fn resolve_keeps_invalid_utf8_escapes() {
    assert_eq!(resolve("/images/%E9"), detail("%E9"));
    assert_eq!(resolve("/images/%C3A"), detail("%C3A"));
    assert_eq!(resolve("/images/%C3%41"), detail("%C3A"));
    assert_eq!(resolve("/images/%A9"), detail("%A9"));
    assert_eq!(resolve("/images/%C0%AF"), detail("%C0%AF"));
    assert_eq!(resolve("/images/%ED%A0%80"), detail("%ED%A0%80"));
    assert_eq!(resolve("/images/%F4%90%80%80"), detail("%F4%90%80%80"));
    assert_eq!(resolve("/images/%FF"), detail("%FF"));
}

#[test]
fn resolve_is_deterministic() {
    for p in ["/images/busybox", "/images", "/images/", "/other", "/images/a%20b"] {
        assert_eq!(resolve(p), resolve(p));
    }
}

#[test]
fn route_path_of_list() {
    assert_eq!(route_path(&AppRoute::Images), "/images");
}

#[test]
fn route_path_of_detail() {
    assert_eq!(route_path(&detail("redis")), "/images/redis");
    assert_eq!(route_path(&detail("50%")), "/images/50%25");
    assert_eq!(route_path(&detail("library/redis")), "/images/library/redis");
    assert_eq!(route_path(&detail("a?b#c")), "/images/a%3Fb%23c");
    assert_eq!(route_path(&detail("\u{e9}")), "/images/%C3%A9");
    assert_eq!(route_path(&detail("\u{20ac}")), "/images/%E2%82%AC");
    assert_eq!(route_path(&detail("\u{1f433}")), "/images/%F0%9F%90%B3");
}

#[test]
fn route_path_round_trip() {
    for r in [
        AppRoute::Images,
        detail("redis"),
        detail("100%"),
        detail("a%20b"),
        detail("x/y"),
        detail("q?x#y"),
        detail("caf\u{e9}"),
        detail("%C3%A9"),
        detail("\u{7ff}\u{800}\u{ffff}\u{10000}\u{10ffff}"),
    ] {
        assert_eq!(resolve(&route_path(&r)), r);
    }
}

#[test]
fn hex_digit_values() {
    assert_eq!(hex_digit('0'), Some(0));
    assert_eq!(hex_digit('9'), Some(9));
    assert_eq!(hex_digit('a'), Some(10));
    assert_eq!(hex_digit('F'), Some(15));
    assert_eq!(hex_digit('g'), None);
    assert_eq!(hex_digit('%'), None);
}

#[test]
fn decode_from_offset() {
    assert_eq!(decode_from("xx%41b", 2), "Ab");
    assert_eq!(decode_from("abc", 3), "");
}

#[test]
fn detail_view_from_route() {
    let d = ImageDetail::from_route(&resolve("/images/redis")).expect("detail view");
    assert_eq!(d.image_name(), "redis");
    assert!(ImageDetail::from_route(&AppRoute::Images).is_none());
    let c = ImageDetail::create(Props { image_name: "mysql".to_string() });
    assert_eq!(c.image_name(), "mysql");
}
