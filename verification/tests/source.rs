use nix_init::error::Error;
use nix_init::source::{
    build_command, crate_source, fetch_command, fetcher_name, first_output, lookup_command,
    source_build_expr, source_expr, BuildResult, Fetcher, MaybeFetcher, Outputs,
};

fn args(fetcher: MaybeFetcher, rev: &str, version: &str) -> Vec<String> {
    let cmd = fetch_command("u", &fetcher, &rev.to_string(), &version.to_string());
    assert_eq!(cmd.program, "nurl");
    cmd.args
}

fn github() -> MaybeFetcher {
    MaybeFetcher::Known(Fetcher::FetchFromGitHub)
}

#[test]
fn looks_up_the_fetcher() {
    let cmd = lookup_command("u");
    assert_eq!(cmd.program, "nurl");
    assert_eq!(cmd.args, ["u", "-p"]);
}

#[test]
fn fetches_the_hash_of_a_crate() {
    let fetcher = MaybeFetcher::Known(Fetcher::FetchCrate);
    assert_eq!(args(fetcher, "1.0", "1.0"), ["u", "1.0", "-H"]);
}

#[test]
fn ties_the_revision_to_the_version() {
    assert_eq!(
        args(github(), "1.0", "1.0"),
        ["u", "1.0", "-o", "rev", "version", "-i", "2"]
    );
    assert_eq!(
        args(github(), "v1.0-1.0", "1.0"),
        ["u", "v1.0-1.0", "-O", "rev", "v${version}-1.0", "-i", "2"]
    );
    assert_eq!(args(github(), "main", "unstable-x"), ["u", "main", "-i", "2"]);
    assert_eq!(
        args(github(), "main", ""),
        ["u", "main", "-O", "rev", "${version}main", "-i", "2"]
    );
    let unknown = MaybeFetcher::Unknown {
        fetcher: "fetchgit".to_string(),
    };
    assert_eq!(
        args(unknown, "é1", "1"),
        ["u", "é1", "-O", "rev", "é${version}", "-i", "2"]
    );
}

#[test]
fn putting_the_version_back_gives_the_revision() {
    for (rev, version) in [("v1.0", "1.0"), ("1.0-x", "1.0"), ("a", "a"), ("x1y1", "1")] {
        let words = args(github(), rev, version);
        if words.len() == 7 && words[2] == "-O" {
            assert_eq!(words[4].replacen("${version}", version, 1), rev);
        } else {
            assert_eq!(rev, version);
        }
    }
}

#[test]
fn writes_the_source_of_a_crate() {
    let fetcher = MaybeFetcher::Known(Fetcher::FetchCrate);
    let expected = "fetchCrate {\n    inherit pname version;\n    hash = \"sha256-x\";\n  }";
    assert_eq!(crate_source("sha256-x"), expected);
    assert_eq!(source_expr(&fetcher, b"sha256-x \n\n".to_vec()).unwrap(), expected);
}

#[test]
fn keeps_the_source_of_other_fetchers() {
    assert_eq!(
        source_expr(&github(), "fetchFromGitHub é\n".as_bytes().to_vec()).unwrap(),
        "fetchFromGitHub é\n"
    );
}

#[test]
fn refuses_a_source_that_is_not_utf8() {
    match source_expr(&github(), b"a\xff".to_vec()) {
        Err(Error::NotUtf8 { bytes }) => assert_eq!(bytes, b"a\xff"),
        other => panic!("{:?}", other),
    }
}

#[test]
fn builds_the_source() {
    assert_eq!(
        source_build_expr("\"p\"", "\"1\"", "fetchgit { }"),
        "let pname=\"p\";version=\"1\";in(import<nixpkgs>{}).fetchgit { }"
    );
    let cmd = build_command("e");
    assert_eq!(cmd.program, "nix");
    assert_eq!(
        cmd.args,
        [
            "build",
            "--extra-experimental-features",
            "nix-command",
            "--impure",
            "--no-link",
            "--json",
            "--expr",
            "e"
        ]
    );
}

#[test]
fn takes_the_first_result() {
    let result = |out: &str| BuildResult {
        outputs: Outputs {
            out: out.to_string(),
        },
    };
    assert_eq!(first_output(vec![result("/a"), result("/b")]).unwrap(), "/a");
    let err = first_output(Vec::new()).unwrap_err();
    assert!(matches!(err, Error::SourceNotBuilt));
    assert_eq!(err.message(), Some("failed to build source".to_string()));
}

#[test]
fn names_the_fetchers() {
    assert_eq!(fetcher_name(&MaybeFetcher::Known(Fetcher::FetchCrate)), "fetchCrate");
    assert_eq!(fetcher_name(&github()), "fetchFromGitHub");
    assert_eq!(
        fetcher_name(&MaybeFetcher::Known(Fetcher::FetchFromGitLab)),
        "fetchFromGitLab"
    );
    let other = MaybeFetcher::Unknown {
        fetcher: "fetchhg".to_string(),
    };
    assert_eq!(fetcher_name(&other), "fetchhg");
    assert!(!other.is_fetch_crate());
}
