use nix_init::builder::{BuildFiles, BuildType};
use nix_init::command::Exit;
use nix_init::error::{check_exit, Error};
use nix_init::fod::{Finished, FAKE_HASH};
use nix_init::render::{arguments, back, clean_description, opening, written_argument};
use nix_init::revision::{PackageInfo, Revisions, Version};
use nix_init::session::{
    section_name, sections, start, AskName, BuildSource, Chosen, Lookup, Package, Pinned, Plan,
    Ready, Resolved, Section, Start,
};
use nix_init::source::{BuildResult, Fetcher, MaybeFetcher, Outputs};

fn lookup() -> Lookup {
    match start(Some("https://example.com/a/Some_Tool.git".to_string())) {
        Start::Lookup(lookup) => lookup,
        Start::AskUrl => panic!("a url was given"),
    }
}

fn info() -> PackageInfo {
    let mut revisions = Revisions::new("v1.2".to_string());
    revisions.insert("v1.2".to_string(), Version::Latest);
    revisions.insert(
        "abc".to_string(),
        Version::Commit {
            date: "2023-02-03".to_string(),
        },
    );
    PackageInfo {
        pname: "Some_Tool".to_string(),
        description: " A \"tool\". ".to_string(),
        revisions,
    }
}

fn chosen(answer: &str) -> Chosen {
    let resolve = lookup().finish(Exit::Success).unwrap();
    match resolve.fetcher(MaybeFetcher::Known(Fetcher::FetchFromGitHub)) {
        Resolved::Known(ask) => {
            let ask = ask.info(info());
            assert_eq!(ask.message(), "Enter tag or revision (defaults to v1.2)");
            ask.answer(answer.to_string())
        }
        Resolved::Unknown(_) => panic!("the fetcher is known"),
    }
}

fn named(answer: &str) -> AskName {
    match chosen(answer) {
        Chosen::Listed(ask) => {
            let version = ask.initial.clone();
            ask.answer(version)
        }
        Chosen::Unlisted(ask) => ask.version(None).answer("9".to_string()),
    }
}

fn source() -> BuildSource {
    named("")
        .answer("some-tool".to_string())
        .finish(Exit::Success, b"fetchFromGitHub { }".to_vec())
        .unwrap()
}

fn plan(files: BuildFiles, answer: &str) -> Plan {
    let result = BuildResult {
        outputs: Outputs {
            out: "/nix/store/src".to_string(),
        },
    };
    source()
        .finish(Exit::Success)
        .unwrap()
        .results(vec![result])
        .unwrap()
        .files(files)
        .answer(answer)
}

fn files(cargo: bool, go: bool) -> BuildFiles {
    BuildFiles {
        cargo,
        cmake: true,
        go,
        meson: false,
    }
}

fn pinned(vendored: bool, locked: bool) -> Pinned {
    Pinned { vendored, locked }
}

fn reported() -> Option<Finished> {
    Some(Finished {
        success: false,
        stderr: b" specified: x\n got: sha256-real=\n".to_vec(),
    })
}

fn ready(plan: Plan, pinned: Pinned, output: &Option<Finished>) -> Ready {
    plan.finish(pinned, output, &Vec::new(), &Vec::new())
}

#[test]
fn asks_for_a_url_that_is_missing() {
    assert!(matches!(start(None), Start::AskUrl));
}

#[test]
fn looks_up_a_url_that_is_given() {
    assert_eq!(
        lookup().command().args,
        ["https://example.com/a/Some_Tool.git", "-p"]
    );
}

#[test]
fn stops_at_a_command_that_failed() {
    let failure = || Exit::Failure {
        status: "exit status: 1".to_string(),
    };
    let text = Some("command exited with exit status: 1".to_string());
    assert_eq!(lookup().finish(failure()).unwrap_err().message(), text);
    let fetch = named("").answer("p".to_string());
    assert_eq!(
        fetch.finish(failure(), b"\xff".to_vec()).unwrap_err().message(),
        text
    );
    assert_eq!(source().finish(failure()).unwrap_err().message(), text);
    assert_eq!(check_exit(failure()).unwrap_err().message(), text);
    assert!(check_exit(Exit::Success).is_ok());
}

#[test]
fn stops_at_a_source_that_is_no_text() {
    let fetch = named("").answer("p".to_string());
    let err = fetch.finish(Exit::Success, b"\xff".to_vec()).unwrap_err();
    assert_eq!(err.message(), None);
    assert!(matches!(err, Error::NotUtf8 { bytes } if bytes == b"\xff"));
}

#[test]
fn stops_without_a_source() {
    let built = source().finish(Exit::Success).unwrap();
    assert!(matches!(built.results(Vec::new()), Err(Error::SourceNotBuilt)));
}

#[test]
fn the_latest_revision_is_the_default() {
    match chosen("") {
        Chosen::Listed(ask) => {
            assert_eq!(ask.rev, "v1.2");
            assert_eq!(ask.initial, "1.2");
        }
        Chosen::Unlisted(_) => panic!("the revision is listed"),
    }
    assert_eq!(named("").initial, Some("some-tool".to_string()));
}

#[test]
fn a_listed_commit_suggests_an_unstable_version() {
    match chosen("abc") {
        Chosen::Listed(ask) => {
            assert_eq!(ask.rev, "abc");
            assert_eq!(ask.initial, "unstable-2023-02-03");
        }
        Chosen::Unlisted(_) => panic!("the revision is listed"),
    }
}

#[test]
fn a_revision_that_is_not_listed_is_looked_up() {
    match chosen("v2.0") {
        Chosen::Listed(_) => panic!("the revision is not listed"),
        Chosen::Unlisted(ask) => {
            assert_eq!(ask.rev, "v2.0");
            assert_eq!(ask.version(Some(Version::Tag)).initial, "2.0");
        }
    }
    match chosen("v2.0") {
        Chosen::Listed(_) => panic!("the revision is not listed"),
        Chosen::Unlisted(ask) => assert_eq!(ask.version(None).initial, ""),
    }
}

#[test]
fn other_fetchers_are_asked_for_everything() {
    let resolve = lookup().finish(Exit::Success).unwrap();
    let other = MaybeFetcher::Unknown {
        fetcher: "fetchgit".to_string(),
    };
    match resolve.fetcher(other) {
        Resolved::Known(_) => panic!("the fetcher is not known"),
        Resolved::Unknown(ask) => {
            assert_eq!(ask.name, Some("Some_Tool".to_string()));
            let ask = ask.answer("".to_string(), "1".to_string());
            assert_eq!(ask.rev, "");
            assert_eq!(ask.version, "1");
            assert_eq!(ask.description, "");
            assert_eq!(ask.initial, Some("some-tool".to_string()));
            assert!(matches!(ask.fetcher, MaybeFetcher::Unknown { fetcher } if fetcher == "fetchgit"));
        }
    }
}

#[test]
fn a_url_without_a_path_suggests_no_name() {
    let lookup = Lookup {
        url: "mailto:x@y".to_string(),
    };
    let resolve = lookup.finish(Exit::Success).unwrap();
    match resolve.fetcher(MaybeFetcher::Unknown { fetcher: "f".to_string() }) {
        Resolved::Known(_) => panic!("the fetcher is not known"),
        Resolved::Unknown(ask) => {
            assert_eq!(ask.answer("r".to_string(), "v".to_string()).initial, None)
        }
    }
}

#[test]
fn fetches_and_builds_the_source() {
    let fetch = named("").answer("some-tool".to_string());
    assert_eq!(
        fetch.command().args,
        [
            "https://example.com/a/Some_Tool.git",
            "v1.2",
            "-O",
            "rev",
            "v${version}",
            "-i",
            "2"
        ]
    );
    assert_eq!(
        source().command().args[7],
        "let pname=\"some-tool\";version=\"1.2\";in(import<nixpkgs>{}).fetchFromGitHub { }"
    );
}

#[test]
fn quotes_what_needs_quotes() {
    let source = BuildSource {
        package: Package {
            url: "u".to_string(),
            fetcher: MaybeFetcher::Known(Fetcher::FetchCrate),
            description: String::new(),
            rev: "r".to_string(),
            version: "1\n".to_string(),
            pname: "a\"\\é'".to_string(),
        },
        src_expr: "s".to_string(),
    };
    assert_eq!(
        source.command().args[7],
        "let pname=\"a\\\"\\\\é'\";version=\"1\\n\";in(import<nixpkgs>{}).s"
    );
}

#[test]
fn packages_a_go_module() {
    let plan = plan(files(false, true), "0");
    assert_eq!(plan.choice, BuildType::BuildGoModule);
    assert_eq!(arguments(plan.choice, &plan.package.fetcher), ", buildGoModule\n, fetchFromGitHub\n");
    assert_eq!(plan.dependencies(pinned(true, true)), None);
    assert!(!plan.loads_lock(pinned(false, true)));
    assert_eq!(
        plan.dependencies(pinned(false, false)).unwrap(),
        format!("(import<nixpkgs>{{}}).buildGoModule{{pname=\"some-tool\";version=\"1.2\";src=/nix/store/src;vendorHash=\"{}\";}}", FAKE_HASH)
    );
    let ready = ready(plan, pinned(false, false), &reported());
    assert_eq!(
        ready.body(),
        "}:\n\nbuildGoModule rec {\n  pname = \"some-tool\";\n  version = \"1.2\";\n\n  src = fetchFromGitHub { };\n\n  vendorHash = \"sha256-real=\";\n\n"
    );
}

#[test]
fn a_vendored_go_module_has_no_hash() {
    let ready = ready(plan(files(false, true), ""), pinned(true, false), &reported());
    assert_eq!(ready.hash, "null");
    assert!(ready.body().ends_with("  vendorHash = null;\n\n"));
}

#[test]
fn the_fake_hash_stands_in() {
    let fake = format!("\"{}\"", FAKE_HASH);
    let go = || plan(files(false, true), "");
    let rust = || plan(files(true, false), "");
    assert_eq!(ready(go(), pinned(false, false), &None).hash, fake);
    assert_eq!(ready(rust(), pinned(false, true), &None).hash, FAKE_HASH);
    assert_eq!(ready(rust(), pinned(false, false), &reported()).hash, FAKE_HASH);
    let success = Some(Finished {
        success: true,
        stderr: Vec::new(),
    });
    assert_eq!(ready(go(), pinned(false, false), &success).hash, fake);
}

#[test]
fn packages_a_cargo_crate() {
    let plan = plan(files(true, false), "");
    assert_eq!(plan.choice, BuildType::BuildRustPackage);
    assert_eq!(arguments(plan.choice, &plan.package.fetcher), ", rustPlatform\n, fetchFromGitHub\n");
    assert_eq!(plan.dependencies(pinned(false, false)), None);
    assert!(plan.loads_lock(pinned(false, true)));
    assert_eq!(
        plan.dependencies(pinned(false, true)).unwrap(),
        format!("(import<nixpkgs>{{}}).rustPlatform.fetchCargoTarball{{name=\"some-tool-1.2\";src=/nix/store/src;hash=\"{}\";}}", FAKE_HASH)
    );
    let ready = plan.finish(
        pinned(false, true),
        &reported(),
        &vec!["pkg-config".to_string(), "pkg-config".to_string()],
        &vec!["openssl".to_string()],
    );
    assert_eq!(ready.inputs.native_build_inputs.always, ["pkg-config"]);
    assert_eq!(ready.inputs.build_inputs.always, ["openssl"]);
    assert_eq!(
        ready.body(),
        "}:\n\nrustPlatform.buildRustPackage rec {\n  pname = \"some-tool\";\n  version = \"1.2\";\n\n  src = fetchFromGitHub { };\n\n  cargoHash = \"sha256-real=\";\n\n"
    );
}

#[test]
fn packages_a_derivation_with_crates() {
    let plan = plan(files(true, false), "1");
    assert_eq!(plan.choice, BuildType::MkDerivationCargo);
    assert_eq!(arguments(plan.choice, &plan.package.fetcher), ", stdenv\n, fetchFromGitHub\n");
    let ready = ready(plan, pinned(false, true), &reported());
    assert_eq!(
        ready.body(),
        "}:\n\nstdenv.mkDerivation rec {\n  pname = \"some-tool\";\n  version = \"1.2\";\n\n  src = fetchFromGitHub { };\n\n  cargoDeps = rustPlatform.fetchCargoTarball {\n    inherit src;\n    name = \"${pname}-${version}\";\n    hash = \"sha256-real=\";\n  };\n\n"
    );
}

#[test]
fn packages_a_plain_derivation() {
    let plan = plan(files(true, false), "2");
    assert_eq!(plan.choice, BuildType::MkDerivation);
    assert_eq!(plan.dependencies(pinned(false, true)), None);
    let ready = plan.finish(
        pinned(false, true),
        &reported(),
        &vec!["x".to_string()],
        &vec!["y".to_string()],
    );
    assert_eq!(ready.inputs.native_build_inputs.always, ["cargo", "rustc", "cmake"]);
    assert!(ready.inputs.build_inputs.always.is_empty());
    assert_eq!(
        ready.body(),
        "}:\n\nstdenv.mkDerivation rec {\n  pname = \"some-tool\";\n  version = \"1.2\";\n\n  src = fetchFromGitHub { };\n\n"
    );
}

#[test]
fn writes_meta_data() {
    let ready = ready(plan(files(false, false), ""), pinned(false, false), &None);
    assert_eq!(
        ready.meta(),
        "  meta = with lib; {\n    description = \"A \\\"tool\\\"\";\n    homepage = \"https://example.com/a/Some_Tool.git\";\n    license = "
    );
    assert_eq!(opening(), "{ lib\n");
    assert_eq!(
        back(&None),
        ";\n    maintainers = with maintainers; [ ];\n  };\n}\n"
    );
}

#[test]
fn cleans_descriptions() {
    assert_eq!(clean_description(" a. "), "a");
    assert_eq!(clean_description("a.."), "a.");
    assert_eq!(clean_description("a. b"), "a. b");
    assert_eq!(clean_description(" . "), "");
    assert_eq!(clean_description("a ."), "a ");
}

#[test]
fn passes_over_an_argument_that_is_there() {
    assert_eq!(written_argument(BuildType::BuildGoModule), "rustPlatform");
    assert_eq!(written_argument(BuildType::BuildRustPackage), "rustPlatform");
    assert_eq!(written_argument(BuildType::MkDerivation), "stdenv");
    assert_eq!(written_argument(BuildType::MkDerivationCargo), "stdenv");
}

#[test]
fn writes_the_lists_that_hold_inputs() {
    let names = |native, build| -> Vec<&str> {
        sections(native, build).iter().map(|s| section_name(*s)).collect()
    };
    assert_eq!(names(true, true), ["nativeBuildInputs", "buildInputs"]);
    assert_eq!(names(false, true), ["buildInputs"]);
    assert_eq!(names(true, false), ["nativeBuildInputs"]);
    assert!(names(false, false).is_empty());
}

#[test]
fn writes_a_whole_package() {
    let plan = plan(files(true, false), "");
    let ready = ready(plan, pinned(false, true), &reported());
    let package = ready.package(
        ", openssl\n",
        "  buildInputs = [\n    openssl\n  ];\n\n",
        &Some("licenses.mit".to_string()),
    );
    assert_eq!(
        package,
        r#"{ lib
, rustPlatform
, fetchFromGitHub
, openssl
}:

rustPlatform.buildRustPackage rec {
  pname = "some-tool";
  version = "1.2";

  src = fetchFromGitHub { };

  cargoHash = "sha256-real=";

  buildInputs = [
    openssl
  ];

  meta = with lib; {
    description = "A \"tool\"";
    homepage = "https://example.com/a/Some_Tool.git";
    license = licenses.mit;
    maintainers = with maintainers; [ ];
  };
}
"#
    );
    let count = |c: char| package.chars().filter(|x| *x == c).count();
    assert_eq!(count('{'), count('}'));
}

#[test]
fn a_package_without_known_licenses_leaves_the_place_empty() {
    let ready = ready(plan(files(false, false), ""), pinned(false, false), &None);
    let package = ready.package("", "", &None);
    assert!(package.starts_with("{ lib\n, stdenv\n, fetchFromGitHub\n}:\n\nstdenv.mkDerivation rec {\n"));
    assert!(package.ends_with("    license = ;\n    maintainers = with maintainers; [ ];\n  };\n}\n"));
}

#[test]
fn each_section_has_its_list() {
    let ready = plan(files(true, false), "").finish(
        pinned(false, true),
        &None,
        &vec!["pkg-config".to_string()],
        &vec!["openssl".to_string()],
    );
    assert_eq!(ready.listed(Section::NativeBuildInputs).always, ["pkg-config"]);
    assert_eq!(ready.listed(Section::BuildInputs).always, ["openssl"]);
}
