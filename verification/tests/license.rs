use askalono::{LicenseType, Store, TextData};
use nix_init::license::{
    can_analyze, can_answer, detect_licenses, is_license_file, keep_known, load_store, match_texts,
    package_license, Matched, MAX_SIZE,
};
use nix_init::ranking::{
    drop_repeats, license_expr, score_place, sort_ranked, Detected, SURE_SCORE,
};
use rustc_hash::FxHashMap;

const MIT: &str = "permission is hereby granted free of charge to any person obtaining a copy";
const ISC: &str = "permission to use copy modify and or distribute this software for any purpose";

fn store() -> Store {
    let mut store = Store::new();
    store.add_license("MIT".to_string(), TextData::from(MIT));
    store.add_license("ISC".to_string(), TextData::from(ISC));
    store
}

fn table() -> FxHashMap<&'static str, &'static str> {
    let mut table = FxHashMap::default();
    table.insert("MIT", "mit");
    table.insert("Zlib", "zlib");
    table
}

fn found(list: &[(f32, &'static str)]) -> Vec<Detected> {
    list.iter()
        .map(|(score, license)| Detected {
            score: score.to_bits(),
            license: *license,
        })
        .collect()
}

#[test]
fn scores_are_placed_as_numbers() {
    let values = [
        -1.0f32, -0.5, -0.0, 0.0, 1.0e-40, 0.1, 0.7499999, 0.75, 0.7500001, 0.9, 1.0, 2.0,
        f32::INFINITY, f32::NEG_INFINITY,
    ];
    for x in values {
        for y in values {
            let places = score_place(x.to_bits()).partial_cmp(&score_place(y.to_bits()));
            assert_eq!(places, x.partial_cmp(&y), "{} {}", x, y);
        }
    }
    assert_eq!(SURE_SCORE, 0.75f32.to_bits());
    assert!(score_place(f32::NAN.to_bits()) >= score_place(SURE_SCORE));
    assert!(score_place((-f32::NAN).to_bits()) >= score_place(SURE_SCORE));
}

#[test]
fn one_license_stands_alone() {
    assert_eq!(license_expr(&found(&[(0.1, "mit")])), "licenses.mit");
    assert_eq!(
        license_expr(&found(&[(0.9, "mit"), (0.2, "mit"), (1.0, "mit")])),
        "licenses.mit"
    );
}

#[test]
fn no_license_is_an_empty_list() {
    assert_eq!(license_expr(&Vec::new()), "with licenses; [ ]");
}

#[test]
fn sure_licenses_are_all_listed() {
    assert_eq!(
        license_expr(&found(&[(1.0, "mit"), (0.75, "isc"), (1.0, "asl20")])),
        "with licenses; [ isc asl20 mit ]"
    );
}

#[test]
fn the_lowest_is_listed_where_one_is_not_sure() {
    assert_eq!(
        license_expr(&found(&[(1.0, "mit"), (0.74, "isc"), (0.5, "bsd3")])),
        "with licenses; [ bsd3 ]"
    );
}

#[test]
fn only_neighbours_are_dropped() {
    let list = found(&[(1.0, "mit"), (0.9, "mit"), (0.8, "isc"), (0.95, "mit")]);
    let kept = drop_repeats(&list);
    assert_eq!(kept, found(&[(1.0, "mit"), (0.8, "isc"), (0.95, "mit")]));
    assert_eq!(license_expr(&list), "with licenses; [ isc mit mit ]");
}

#[test]
fn ranks_by_score_and_attribute() {
    let list = found(&[(0.9, "b"), (0.8, "z"), (0.9, "a"), (0.9, "ab"), (0.9, "é")]);
    assert_eq!(
        sort_ranked(&list),
        found(&[(0.8, "z"), (0.9, "a"), (0.9, "ab"), (0.9, "b"), (0.9, "é")])
    );
}

#[test]
fn the_order_of_discovery_does_not_matter() {
    let a = found(&[(0.9, "mit"), (0.8, "isc"), (1.0, "bsd3")]);
    let b = found(&[(1.0, "bsd3"), (0.9, "mit"), (0.8, "isc")]);
    assert_eq!(license_expr(&a), license_expr(&b));
    assert_eq!(license_expr(&a), "with licenses; [ isc mit bsd3 ]");
}

#[test]
fn recognises_license_files() {
    for name in ["LICENSE", "license.md", "Licence-MIT", "COPYING", "copying.lesser"] {
        assert!(is_license_file(name.as_bytes()), "{}", name);
    }
    for name in ["", "LICENS", "README", "UNLICENSE", "my-license", "copyin"] {
        assert!(!is_license_file(name.as_bytes()), "{}", name);
    }
    assert!(is_license_file(b"LICENSE\xff"));
    assert!(!is_license_file(b"L\xcfCENSE"));
}

#[test]
fn reads_a_store_from_its_cache() {
    let mut cache: Vec<u8> = Vec::new();
    store().to_cache(&mut cache).unwrap();
    let read = load_store(&cache).unwrap();
    assert_eq!(read.len(), 2);
    assert!(can_analyze(&read));
    assert!(load_store(b"").is_none());
    assert!(load_store(&cache[1..]).is_none());
    assert!(!can_analyze(&Store::new()));
}

fn store_with_size(kind: &str, size: u64) -> Store {
    let mut store = store();
    for variant in [LicenseType::Header, LicenseType::Alternate] {
        store.add_variant("MIT", variant, TextData::from("a b c")).unwrap();
    }
    let mut value = serde_json::to_value(&store).unwrap();
    let license = &mut value["licenses"]["MIT"];
    let text = if kind == "original" {
        &mut license[kind]
    } else {
        &mut license[kind][0]
    };
    text["match_data"]["size"] = size.into();
    serde_json::from_value(value).unwrap()
}

#[test]
fn a_store_with_a_size_that_is_too_large_is_not_asked() {
    for kind in ["original", "headers", "alternates"] {
        for size in [0, 1, MAX_SIZE] {
            assert!(can_analyze(&store_with_size(kind, size)), "{} {}", kind, size);
        }
        for size in [MAX_SIZE + 1, u64::MAX] {
            let store = store_with_size(kind, size);
            assert!(!can_analyze(&store), "{} {}", kind, size);
            assert!(!can_answer(&store, &vec![MIT.to_string()]));
            assert!(can_answer(&store, &Vec::new()));
        }
    }
    assert!(can_answer(&store(), &vec![MIT.to_string()]));
    assert!(!can_answer(&Store::new(), &vec![MIT.to_string()]));
}

#[test]
fn the_largest_size_is_still_scored() {
    let store = store_with_size("original", MAX_SIZE);
    let matches = match_texts(&store, &vec![ISC.to_string()]);
    assert_eq!(matches[0].name, "ISC");
    assert_eq!(matches[0].score, 1.0f32.to_bits());
}

#[test]
fn matches_the_closest_license() {
    let matches = match_texts(&store(), &vec![ISC.to_string(), MIT.to_string()]);
    assert_eq!(matches.len(), 2);
    assert_eq!(matches[0].name, "ISC");
    assert_eq!(matches[0].score, 1.0f32.to_bits());
    assert_eq!(matches[1].name, "MIT");
    let expected = TextData::from("permission is hereby granted to me")
        .match_score(&TextData::from(MIT));
    let near = match_texts(&store(), &vec!["permission is hereby granted to me".to_string()]);
    assert_eq!(near[0].name, "MIT");
    assert_eq!(near[0].score, expected.to_bits());
}

#[test]
fn equally_common_beginnings_leave_the_score_open() {
    let mut store = Store::new();
    store.add_license("CD".to_string(), TextData::from("c d"));
    let text = "aaaa bbbb 1\naaaa bbbb 2\naaaa bbbb 3\naaaa c\naaaa d".to_string();
    for _ in 0..20 {
        let matches = match_texts(&store, &vec![text.clone()]);
        assert_eq!(matches[0].name, "CD");
        let score = f32::from_bits(matches[0].score);
        assert!(score == 0.0 || score == 0.25, "{}", score);
    }
}

#[test]
fn keeps_the_licenses_that_the_table_knows() {
    let matched = |score: f32, name: &str| Matched {
        score: score.to_bits(),
        name: name.to_string(),
    };
    let list = vec![matched(0.5, "MIT"), matched(1.0, "ISC"), matched(0.9, "Zlib")];
    assert_eq!(
        keep_known(&list, &table()),
        found(&[(0.5, "mit"), (0.9, "zlib")])
    );
}

#[test]
fn detects_licenses() {
    let texts = vec![MIT.to_string(), ISC.to_string()];
    assert_eq!(detect_licenses(&store(), &table(), &texts), found(&[(1.0, "mit")]));
    assert_eq!(package_license(&store(), &table(), &texts), "licenses.mit");
    assert_eq!(
        package_license(&Store::new(), &table(), &Vec::new()),
        "with licenses; [ ]"
    );
}
