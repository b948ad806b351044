use res_switcher::classify::{classify, default_favorites, is_favorite};
use res_switcher::modes::{keeps, DisplayMode, ScalingMode};

fn mode(w: u32, h: u32, r: u32, scaling: ScalingMode, idx: u32) -> DisplayMode {
    DisplayMode { width: w, height: h, refresh_rate: r, scaling, os_index: idx }
}

#[test]
fn keeps_accepts_only_60hz_default_scaling() {
    assert!(keeps(&mode(1920, 1080, 60, ScalingMode::Default, 0)));
    assert!(!keeps(&mode(1920, 1080, 75, ScalingMode::Default, 1)));
    assert!(!keeps(&mode(1920, 1080, 60, ScalingMode::Stretch, 2)));
    assert!(!keeps(&mode(1920, 1080, 60, ScalingMode::Center, 3)));
    assert!(!keeps(&mode(1920, 1080, 59, ScalingMode::Unknown, 4)));
}

#[test]
fn default_favorites_is_the_fixed_list() {
    let favs = default_favorites();
    assert_eq!(
        favs,
        vec![(1280, 720, 60), (1920, 1080, 60), (2560, 1440, 60), (3840, 2160, 60)]
    );
}

#[test]
fn is_favorite_tests_triple_membership() {
    let favs = default_favorites();
    assert!(is_favorite(&mode(1280, 720, 60, ScalingMode::Default, 0), &favs));
    assert!(is_favorite(&mode(3840, 2160, 60, ScalingMode::Stretch, 1), &favs));
    assert!(!is_favorite(&mode(1280, 720, 75, ScalingMode::Default, 2), &favs));
    assert!(!is_favorite(&mode(1600, 900, 60, ScalingMode::Default, 3), &favs));
    assert!(!is_favorite(&mode(1280, 720, 60, ScalingMode::Default, 4), &vec![]));
}

#[test]
fn classify_fixed_enumeration_scenario() {
    // Raw enumeration: four modes, two of which survive the fixed policy.
    let modes = vec![
        mode(1280, 720, 60, ScalingMode::Default, 0),
        mode(1280, 720, 75, ScalingMode::Default, 1),
        mode(1920, 1080, 60, ScalingMode::Stretch, 2),
        mode(3840, 2160, 60, ScalingMode::Default, 3),
    ];
    let favs = vec![(1920, 1080, 60), (3840, 2160, 60)];
    let (fav_list, other_list) = classify(&modes, &favs);
    assert_eq!(fav_list, vec![mode(3840, 2160, 60, ScalingMode::Default, 3)]);
    assert_eq!(other_list, vec![mode(1280, 720, 60, ScalingMode::Default, 0)]);
}

#[test]
fn classify_partitions_filtered_modes_exactly_once() {
    let modes = vec![
        mode(1280, 720, 60, ScalingMode::Default, 0),
        mode(1920, 1080, 60, ScalingMode::Default, 1),
        mode(1920, 1080, 75, ScalingMode::Default, 2),
        mode(1600, 900, 60, ScalingMode::Default, 3),
        mode(2560, 1440, 60, ScalingMode::Center, 4),
        mode(3840, 2160, 60, ScalingMode::Default, 5),
    ];
    let favs = default_favorites();
    let (fav_list, other_list) = classify(&modes, &favs);
    // Union of the buckets is the filtered input, each mode exactly once,
    // and each bucket keeps the enumeration order.
    assert_eq!(
        fav_list,
        vec![
            mode(1280, 720, 60, ScalingMode::Default, 0),
            mode(1920, 1080, 60, ScalingMode::Default, 1),
            mode(3840, 2160, 60, ScalingMode::Default, 5),
        ]
    );
    assert_eq!(other_list, vec![mode(1600, 900, 60, ScalingMode::Default, 3)]);
    assert_eq!(fav_list.len() + other_list.len(), 4);
}

#[test]
fn excluded_iff_wrong_rate_or_scaling() {
    let bad_rate = mode(1280, 720, 75, ScalingMode::Default, 0);
    let bad_scaling = mode(1280, 720, 60, ScalingMode::Stretch, 1);
    let good = mode(1280, 720, 60, ScalingMode::Default, 2);
    let modes = vec![bad_rate, bad_scaling, good];
    let (fav_list, other_list) = classify(&modes, &default_favorites());
    assert!(!fav_list.contains(&bad_rate) && !other_list.contains(&bad_rate));
    assert!(!fav_list.contains(&bad_scaling) && !other_list.contains(&bad_scaling));
    assert!(fav_list.contains(&good) || other_list.contains(&good));
}

#[test]
fn favorite_triple_never_lands_in_others() {
    let favorite = mode(2560, 1440, 60, ScalingMode::Default, 7);
    let modes = vec![
        mode(1600, 900, 60, ScalingMode::Default, 6),
        favorite,
        mode(800, 600, 60, ScalingMode::Default, 8),
    ];
    let (fav_list, other_list) = classify(&modes, &default_favorites());
    assert!(fav_list.contains(&favorite));
    assert!(!other_list.contains(&favorite));
}

#[test]
fn classify_of_empty_enumeration_is_empty() {
    let (fav_list, other_list) = classify(&vec![], &default_favorites());
    assert!(fav_list.is_empty());
    assert!(other_list.is_empty());
}
