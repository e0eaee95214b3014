use ahash::RandomState;
use nano_image_server::image_cache::ImageCache;
use nano_image_server::processing::default_param;
use nano_image_server::processing::ProcessParameters;
use nano_image_server::request::hash;
use nano_image_server::request::parse;
use nano_image_server::request::ImgInfo;
use nano_image_server::request::FINGERPRINT_SEED;
use std::collections::HashSet;

fn request(name: &str, format: &str, params: ProcessParameters) -> ImgInfo {
    ImgInfo { name: name.to_string(), format: format.to_string(), params }
}

#[test]
fn seed_is_fixed() {
    assert_eq!(FINGERPRINT_SEED, 42);
}

#[test]
fn hash_is_the_seeded_ahash_of_the_name() {
    let expected = RandomState::with_seeds(42, 0, 0, 0).hash_one("cat.png");
    assert_eq!(hash("cat.png".to_string()), expected);
    assert_eq!(ImageCache::hash("cat.png".to_string()), expected);
    assert_ne!(hash("cat.png".to_string()), hash("dog.png".to_string()));
    assert_ne!(hash("7".to_string()), 7);
}

#[test]
fn hash_is_the_same_on_every_call() {
    for name in ["", "a", "cat.png", "sub/dir/picture.jpeg"] {
        assert_eq!(hash(name.to_string()), hash(name.to_string()));
    }
}

#[test]
fn identity_lists_every_part() {
    let info = request("cat", "png", default_param());
    assert_eq!(info.identity(), "3:cat3:png0;0;7:Optimal4:None0;4:None0;4:None0;0;4:None");
    let info = request(
        "d\u{e9}j\u{e0}",
        "jpeg",
        ProcessParameters {
            resx: 640,
            resy: 480,
            resfilter: "lanczos".to_string(),
            filter: "brighten".to_string(),
            f_param: -12,
            transform: "rotate".to_string(),
            t_param: 90,
            process: "unsharpen".to_string(),
            p1: 2,
            p2: -3,
            to: "webp".to_string(),
        },
    );
    assert_eq!(
        info.identity(),
        "4:d\u{e9}j\u{e0}4:jpeg640;480;7:lanczos8:brighten-12;6:rotate90;9:unsharpen2;-3;4:webp"
    );
}

#[test]
fn fingerprint_is_the_seeded_ahash_of_the_identity() {
    let info = request("cat", "png", default_param());
    let expected = RandomState::with_seeds(42, 0, 0, 0).hash_one(info.identity().as_str());
    assert_eq!(info.fingerprint(), expected);
}

#[test]
fn same_request_same_fingerprint() {
    let a = request("cat", "png", ProcessParameters { resx: 3, ..default_param() });
    let b = request("cat", "png", ProcessParameters { resx: 3, ..default_param() });
    assert_eq!(a.fingerprint(), b.fingerprint());
}

#[test]
fn every_part_changes_the_fingerprint() {
    let base = request("cat", "png", default_param()).fingerprint();
    let changed = [
        request("dog", "png", default_param()),
        request("cat", "jpg", default_param()),
        request("cat", "png", ProcessParameters { resx: 1, ..default_param() }),
        request("cat", "png", ProcessParameters { resy: 1, ..default_param() }),
        request("cat", "png", ProcessParameters { resfilter: "nearest".into(), ..default_param() }),
        request("cat", "png", ProcessParameters { filter: "blur".into(), ..default_param() }),
        request("cat", "png", ProcessParameters { f_param: 1, ..default_param() }),
        request("cat", "png", ProcessParameters { transform: "fliph".into(), ..default_param() }),
        request("cat", "png", ProcessParameters { t_param: 1, ..default_param() }),
        request("cat", "png", ProcessParameters { process: "invert".into(), ..default_param() }),
        request("cat", "png", ProcessParameters { p1: 1, ..default_param() }),
        request("cat", "png", ProcessParameters { p2: 1, ..default_param() }),
        request("cat", "png", ProcessParameters { to: "gif".into(), ..default_param() }),
        request("catp", "ng", default_param()),
    ];
    let mut seen = HashSet::new();
    seen.insert(base);
    for info in changed {
        assert!(seen.insert(info.fingerprint()), "{:?}", info);
    }
}

#[test]
fn no_collisions_among_many_requests() {
    let mut seen = HashSet::new();
    for n in 0..20_000u32 {
        let info = request(
            &format!("image-{n}"),
            if n % 2 == 0 { "png" } else { "jpg" },
            ProcessParameters { resx: n % 7, resy: n % 11, ..default_param() },
        );
        assert!(seen.insert(info.fingerprint()), "collision at {n}");
    }
    assert_eq!(seen.len(), 20_000);
}

#[test]
fn parse_splits_at_the_dots() {
    let parsed = |path: &str| parse(path, default_param()).map(|info| (info.name, info.format));
    assert_eq!(parsed("cat.png"), Some(("cat".to_string(), "png".to_string())));
    assert_eq!(parsed("cat.tar.gz"), Some(("cat".to_string(), "tar".to_string())));
    assert_eq!(parsed(".png"), Some((String::new(), "png".to_string())));
    assert_eq!(parsed("cat."), Some(("cat".to_string(), String::new())));
    assert_eq!(parsed("cat..png"), Some(("cat".to_string(), String::new())));
    assert_eq!(parsed("b\u{e4}r.jpg"), Some(("b\u{e4}r".to_string(), "jpg".to_string())));
    assert_eq!(parsed("cat"), None);
    assert_eq!(parsed(""), None);
}

#[test]
fn parse_keeps_the_parameters() {
    let params = ProcessParameters { resx: 9, filter: "bw".to_string(), ..default_param() };
    let info = parse("cat.png", params.clone()).unwrap();
    assert_eq!(info, request("cat", "png", params));
}

#[test]
fn content_type_names_the_format() {
    assert_eq!(request("cat", "png", default_param()).content_type(), "image/png");
    assert_eq!(request("cat", "", default_param()).content_type(), "image/");
}
