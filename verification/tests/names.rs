use nix_init::pname::{name_of_segments, name_of_url, suggest_pname, with_dashes};
use nix_init::revision::{
    choose_revision, find_number, suggest_version, take_version, version_from, Revisions, Version,
};

#[test]
fn takes_the_name_from_the_path_of_a_url() {
    assert_eq!(
        name_of_url("https://example.com/owner/Repo.git"),
        Some("Repo".to_string())
    );
    assert_eq!(
        name_of_url("https://example.com/a/b?x=/y#/z"),
        Some("b".to_string())
    );
    assert_eq!(
        name_of_url("https://example.com/a/../b c"),
        Some("b%20c".to_string())
    );
    assert_eq!(name_of_url("https://example.com"), Some("".to_string()));
    assert_eq!(name_of_url("https://example.com/a/"), Some("".to_string()));
    assert_eq!(name_of_url("mailto:someone@example.com"), None);
    assert_eq!(name_of_url("not a url"), None);
}

#[test]
fn takes_the_last_segment_without_its_extension() {
    let list = |xs: &[&str]| Some(xs.iter().map(|x| x.to_string()).collect::<Vec<String>>());
    assert_eq!(name_of_segments(&None), None);
    assert_eq!(name_of_segments(&list(&[])), None);
    assert_eq!(name_of_segments(&list(&["a", "b.git"])), Some("b".to_string()));
    assert_eq!(name_of_segments(&list(&["b.git.git"])), Some("b.git".to_string()));
    assert_eq!(name_of_segments(&list(&[".git", "b"])), Some("b".to_string()));
}

#[test]
fn suggests_a_spelling() {
    assert_eq!(suggest_pname("My_Package.js"), "my-package-js");
    assert_eq!(suggest_pname("ÄÖ~X"), "äö-x");
    assert_eq!(suggest_pname("İ"), "i\u{307}");
    assert_eq!(suggest_pname(""), "");
}

#[test]
fn keeps_plain_spellings() {
    for name in ["nix-init", "a1", "x y", ""] {
        assert_eq!(suggest_pname(name), name);
    }
    let once = suggest_pname("A.B_c");
    assert_eq!(suggest_pname(&once), once);
}

#[test]
fn replaces_all_punctuation() {
    for n in 0..0x80u8 {
        let c = n as char;
        let out = with_dashes(&c.to_string());
        if c.is_ascii_punctuation() {
            assert_eq!(out, "-");
        } else {
            assert_eq!(out, c.to_string());
        }
    }
}

#[test]
fn an_empty_answer_means_the_latest_revision() {
    let latest = "v2".to_string();
    assert_eq!(choose_revision(String::new(), &latest), "v2");
    assert_eq!(choose_revision("v2".to_string(), &latest), "v2");
    assert_eq!(choose_revision("main".to_string(), &latest), "main");
    assert_eq!(choose_revision(" ".to_string(), &latest), " ");
}

#[test]
fn lists_a_revision_once() {
    let mut revisions = Revisions::new("v2".to_string());
    assert!(revisions.versions.is_empty());
    revisions.insert("v1".to_string(), Version::Tag);
    revisions.insert("v2".to_string(), Version::Tag);
    revisions.insert("v1".to_string(), Version::Latest);
    assert_eq!(revisions.latest, "v2");
    assert_eq!(revisions.versions.len(), 2);
    assert!(matches!(
        take_version(revisions.versions, &"v1".to_string()),
        Some(Version::Latest)
    ));
}

#[test]
fn looks_up_what_is_known_of_a_revision() {
    let versions = || {
        vec![
            ("v1".to_string(), Version::Tag),
            (
                "main".to_string(),
                Version::Head {
                    date: "2023-01-01".to_string(),
                },
            ),
        ]
    };
    assert!(matches!(take_version(versions(), &"v1".to_string()), Some(Version::Tag)));
    assert!(
        matches!(take_version(versions(), &"main".to_string()), Some(Version::Head { date }) if date == "2023-01-01")
    );
    assert!(take_version(versions(), &"v".to_string()).is_none());
    assert!(take_version(Vec::new(), &"v1".to_string()).is_none());
}

#[test]
fn suggests_versions() {
    let dated = || "2023-02-03".to_string();
    assert_eq!(suggest_version("v1.2", &Some(Version::Latest)), "1.2");
    assert_eq!(suggest_version("release-1.2-rc3", &Some(Version::Tag)), "1.2-rc3");
    assert_eq!(suggest_version("stable", &Some(Version::Tag)), "stable");
    assert_eq!(suggest_version("r½x", &Some(Version::Tag)), "½x");
    assert_eq!(
        suggest_version("v1", &Some(Version::Head { date: dated() })),
        "unstable-2023-02-03"
    );
    assert_eq!(
        suggest_version("v1", &Some(Version::Commit { date: dated() })),
        "unstable-2023-02-03"
    );
    assert_eq!(suggest_version("v1", &None), "");
}

#[test]
fn finds_numbers() {
    assert_eq!(find_number("ab3"), Some(2));
    assert_eq!(find_number("é٣"), Some(1));
    assert_eq!(find_number("abc"), None);
    assert_eq!(version_from("v1.2", &Some(Version::Tag), Some(1)), "1.2");
    assert_eq!(version_from("v1.2", &Some(Version::Tag), None), "v1.2");
    assert_eq!(version_from("v1.2", &None, Some(1)), "");
}

#[test]
fn a_tag_ends_with_its_version() {
    for tag in ["v1", "1", "x", "", "a-2b"] {
        assert!(tag.ends_with(&suggest_version(tag, &Some(Version::Tag))));
    }
}
