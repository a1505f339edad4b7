use std::io::BufRead;

use nix_init::command::Command;
use nix_init::fod::{
    cargo_tarball_expr, find_hash, fod_command, fod_hash, go_modules_expr, split_lines, Finished,
    FAKE_HASH,
};

fn failed(stderr: &[u8]) -> Option<Finished> {
    Some(Finished {
        success: false,
        stderr: stderr.to_vec(),
    })
}

#[test]
fn finds_the_hash_that_nix_reports() {
    let stderr = b"error: hash mismatch in fixed-output derivation '/nix/store/x.drv':\n         specified: sha256-AAA=\n            got:    sha256-abc=\nerror: 1 dependencies failed\n";
    assert_eq!(fod_hash(&failed(stderr)), Some("sha256-abc=".to_string()));
}

#[test]
fn finds_no_hash_in_a_build_that_succeeded_or_did_not_run() {
    let stderr = b"specified: a\ngot: b\n".to_vec();
    assert_eq!(fod_hash(&Some(Finished { success: true, stderr })), None);
    assert_eq!(fod_hash(&None), None);
}

#[test]
fn finds_no_hash_without_an_announcement() {
    assert_eq!(fod_hash(&failed(b"")), None);
    assert_eq!(fod_hash(&failed(b"got: b\n")), None);
    assert_eq!(fod_hash(&failed(b"specified: a\n")), None);
    assert_eq!(fod_hash(&failed(b"specified: a\n\ngot: b\n")), None);
}

#[test]
fn passes_over_the_line_after_an_announcement() {
    assert_eq!(fod_hash(&failed(b"specified: a\nspecified: b\ngot: c\n")), None);
    assert_eq!(
        fod_hash(&failed(b"specified: a\nx\nspecified: b\ngot: c")),
        Some("c".to_string())
    );
    assert_eq!(
        fod_hash(&failed(b"specified: a\n\xff\nspecified: b\ngot: c")),
        Some("c".to_string())
    );
    assert_eq!(
        fod_hash(&failed(b"\xff\nspecified: a\ngot: c\nspecified: b\ngot: d")),
        Some("c".to_string())
    );
}

#[test]
fn reads_line_endings() {
    assert_eq!(
        fod_hash(&failed("specified: a\r\n\u{a0}got:\u{3000}b \r\n".as_bytes())),
        Some("b".to_string())
    );
    assert_eq!(split_lines(b""), Vec::<Option<String>>::new());
    assert_eq!(
        split_lines(b"a\r\n\n\r\r\nb\r"),
        vec![
            Some("a".to_string()),
            Some("".to_string()),
            Some("\r".to_string()),
            Some("b\r".to_string())
        ]
    );
    assert_eq!(
        split_lines(b"\xc3\xa9\n\xc3\n"),
        vec![Some("é".to_string()), None]
    );
}

#[test]
fn splits_lines_as_the_standard_library_does() {
    for bytes in [
        &b""[..], b"\n", b"\r\n", b"\r", b"a", b"a\n", b"a\nb", b"a\n\nb\r\n\r", b"\xff\nx", b"x\n\xe2\x82\n\xac",
    ] {
        let expected: Vec<Option<String>> = bytes.lines().map(|line| line.ok()).collect();
        assert_eq!(split_lines(bytes), expected, "{:?}", bytes);
    }
}

#[test]
fn finds_a_hash_among_lines() {
    let lines = vec![
        Some("  specified: x".to_string()),
        Some("  got: y  ".to_string()),
    ];
    assert_eq!(find_hash(&lines), Some("y".to_string()));
    assert_eq!(find_hash(&vec![None, None]), None);
}

#[test]
fn builds_fixed_output_derivations() {
    let Command { program, args } = fod_command("x");
    assert_eq!(program, "nix");
    assert_eq!(
        args,
        [
            "build",
            "--extra-experimental-features",
            "nix-command",
            "--impure",
            "--no-link",
            "--expr",
            "x"
        ]
    );
    assert_eq!(
        go_modules_expr("\"p\"", "\"1\"", "/s"),
        "(import<nixpkgs>{}).buildGoModule{pname=\"p\";version=\"1\";src=/s;vendorHash=\"sha256-AAAAAAAAAAAAAAAAAAAAAAAAAAAAAAAAAAAAAAAAAAA=\";}"
    );
    assert_eq!(
        cargo_tarball_expr("p", "1", "/s"),
        format!(
            "(import<nixpkgs>{{}}).rustPlatform.fetchCargoTarball{{name=\"p-1\";src=/s;hash=\"{}\";}}",
            FAKE_HASH
        )
    );
}
