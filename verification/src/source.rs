//! Fetching the source: the programs to run, and the expression that stands for it.
use vstd::prelude::*;
use vstd::utf8::{
    decode_utf8, decode_utf8_encode_utf8, encode_utf8, encode_utf8_decode_utf8, valid_utf8,
};

use crate::command::Command;
use crate::error::Error;
use crate::fod::attribute;
use crate::revision::{law_tag_ends_with_its_version, tag_version};
use crate::text::{
    all_white, find_part, first_at, has_part, is_white_space, law_splicing,
    law_white_space_after_is_dropped, occurs_at, splice, spliced, trim_end, trimmed_end, utf8_text,
};

verus! {

/// A fetcher whose revisions can be looked up.
#[derive(Clone, Copy, Debug, PartialEq, Eq, Structural)]
pub enum Fetcher {
    FetchCrate,
    FetchFromGitHub,
    FetchFromGitLab,
}

/// The fetcher for a URL: one that is known, or another one by its name.
#[derive(Debug)]
pub enum MaybeFetcher {
    Known(Fetcher),
    Unknown { fetcher: String },
}

impl MaybeFetcher {
    /// Tells whether crates are fetched.
    pub open spec fn fetches_crates(self) -> bool {
        self == MaybeFetcher::Known(Fetcher::FetchCrate)
    }

    /// Tells whether crates are fetched.
    pub fn is_fetch_crate(&self) -> (b: bool)
        ensures
            b == self.fetches_crates(),
    {
        match self {
            MaybeFetcher::Known(Fetcher::FetchCrate) => true,
            _ => false,
        }
    }
}

/// What the name of a fetcher is in Nix.
pub open spec fn fetcher_text(fetcher: MaybeFetcher) -> Seq<char> {
    match fetcher {
        MaybeFetcher::Known(Fetcher::FetchCrate) => "fetchCrate"@,
        MaybeFetcher::Known(Fetcher::FetchFromGitHub) => "fetchFromGitHub"@,
        MaybeFetcher::Known(Fetcher::FetchFromGitLab) => "fetchFromGitLab"@,
        MaybeFetcher::Unknown { fetcher } => fetcher@,
    }
}

/// What the name of a fetcher is in Nix.
pub fn fetcher_name(fetcher: &MaybeFetcher) -> (r: &str)
    ensures
        r@ == fetcher_text(*fetcher),
{
    match fetcher {
        MaybeFetcher::Known(Fetcher::FetchCrate) => "fetchCrate",
        MaybeFetcher::Known(Fetcher::FetchFromGitHub) => "fetchFromGitHub",
        MaybeFetcher::Known(Fetcher::FetchFromGitLab) => "fetchFromGitLab",
        MaybeFetcher::Unknown { fetcher } => fetcher.as_str(),
    }
}

/// The command that tells which fetcher a URL needs.
pub fn lookup_command(url: &str) -> (r: Command)
    ensures
        r.runs("nurl"@, seq![url@, "-p"@]),
{
    let mut cmd = Command::new("nurl");
    cmd.arg(url);
    cmd.arg("-p");
    cmd
}

/// `s` with the first `part` in it replaced by `by`.
pub open spec fn replaced_first(s: Seq<char>, part: Seq<char>, by: Seq<char>) -> Seq<char> {
    spliced(s, choose|at: int| first_at(s, part, at), part.len() as int, by)
}

/// The arguments that tie the revision to the version, where the one holds the other.
pub open spec fn override_args(rev: Seq<char>, version: Seq<char>) -> Seq<Seq<char>> {
    if rev == version {
        seq!["-o"@, "rev"@, "version"@]
    } else if has_part(rev, version) {
        seq!["-O"@, "rev"@, replaced_first(rev, version, "${version}"@)]
    } else {
        Seq::empty()
    }
}

/// The arguments that fetch a revision: of a crate its hash, of another source the expression.
pub open spec fn fetch_args(
    url: Seq<char>,
    crates: bool,
    rev: Seq<char>,
    version: Seq<char>,
) -> Seq<Seq<char>> {
    if crates {
        seq![url, rev, "-H"@]
    } else {
        seq![url, rev] + override_args(rev, version) + seq!["-i"@, "2"@]
    }
}

/// A text has one first index of a part of it.
proof fn lemma_first_at_unique(s: Seq<char>, part: Seq<char>, a: int, b: int)
    requires
        first_at(s, part, a),
        first_at(s, part, b),
    ensures
        a == b,
{
}

/// The command that fetches a revision: of a crate its hash, of another source the expression.
pub fn fetch_command(url: &str, fetcher: &MaybeFetcher, rev: &String, version: &String) -> (r:
    Command)
    ensures
        r.runs("nurl"@, fetch_args(url@, fetcher.fetches_crates(), rev@, version@)),
{
    let mut cmd = Command::new("nurl");
    cmd.arg(url);
    cmd.arg(rev);
    if fetcher.is_fetch_crate() {
        cmd.arg("-H");
    } else {
        if *rev == *version {
            cmd.arg("-o");
            cmd.arg("rev");
            cmd.arg("version");
        } else {
            match find_part(rev, version) {
                Some(at) => {
                    let n: usize = version.as_str().unicode_len();
                    let expr = splice(rev, at, n, "${version}");
                    proof {
                        assert(has_part(rev@, version@));
                        lemma_first_at_unique(
                            rev@,
                            version@,
                            at as int,
                            choose|at: int| first_at(rev@, version@, at),
                        );
                    }
                    cmd.arg("-O");
                    cmd.arg("rev");
                    cmd.arg(&expr);
                },
                None => {},
            }
        }
        cmd.arg("-i");
        cmd.arg("2");
    }
    cmd
}

/// The expression that fetches a crate with a given hash.
pub open spec fn crate_source_text(hash: Seq<char>) -> Seq<char> {
    "fetchCrate {\n    inherit pname version;\n    hash = \""@ + hash + "\";\n  }"@
}

/// The expression that fetches a crate with a given hash.
pub fn crate_source(hash: &str) -> (r: String)
    ensures
        r@ == crate_source_text(hash@),
{
    let mut out = "fetchCrate {\n    inherit pname version;\n    hash = \"".to_owned();
    out.append(hash);
    out.append("\";\n  }");
    out
}

/// The expression that fetches the source, from what the fetching command wrote.
pub open spec fn source_text(crates: bool, stdout: Seq<u8>) -> Seq<char> {
    if crates {
        crate_source_text(trimmed_end(decode_utf8(stdout)))
    } else {
        decode_utf8(stdout)
    }
}

/// The expression that fetches the source, from what the fetching command wrote.
pub fn source_expr(fetcher: &MaybeFetcher, stdout: Vec<u8>) -> (r: Result<String, Error>)
    ensures
        r is Ok <==> valid_utf8(stdout@),
        r matches Ok(expr) ==> expr@ == source_text(fetcher.fetches_crates(), stdout@),
        r matches Err(e) ==> (e matches Error::NotUtf8 { bytes } && bytes@ == stdout@),
{
    match utf8_text(stdout) {
        Ok(text) => {
            if fetcher.is_fetch_crate() {
                Ok(crate_source(trim_end(&text)))
            } else {
                Ok(text)
            }
        },
        Err(bytes) => Err(Error::NotUtf8 { bytes }),
    }
}

/// The expression that builds the source alone. `pname` and `version` are string literals.
pub open spec fn source_build_text(
    pname: Seq<char>,
    version: Seq<char>,
    src_expr: Seq<char>,
) -> Seq<char> {
    "let pname="@ + pname + ";version="@ + version + ";in(import<nixpkgs>{})."@ + src_expr
}

/// The expression that builds the source alone. `pname` and `version` are string literals.
pub fn source_build_expr(pname: &str, version: &str, src_expr: &str) -> (r: String)
    ensures
        r@ == source_build_text(pname@, version@, src_expr@),
{
    let mut out = "let pname=".to_owned();
    out.append(pname);
    out.append(";version=");
    out.append(version);
    out.append(";in(import<nixpkgs>{}).");
    out.append(src_expr);
    out
}

/// The command that builds an expression and reports the result in JSON.
pub fn build_command(expr: &str) -> (r: Command)
    ensures
        r.runs(
            "nix"@,
            seq![
                "build"@,
                "--extra-experimental-features"@,
                "nix-command"@,
                "--impure"@,
                "--no-link"@,
                "--json"@,
                "--expr"@,
                expr@,
            ],
        ),
{
    let mut cmd = Command::new("nix");
    cmd.arg("build");
    cmd.arg("--extra-experimental-features");
    cmd.arg("nix-command");
    cmd.arg("--impure");
    cmd.arg("--no-link");
    cmd.arg("--json");
    cmd.arg("--expr");
    cmd.arg(expr);
    cmd
}

/// A result of a build.
#[derive(Debug)]
pub struct BuildResult {
    pub outputs: Outputs,
}

/// The outputs of a build.
#[derive(Debug)]
pub struct Outputs {
    pub out: String,
}

/// The output path of the first result.
pub fn first_output(results: Vec<BuildResult>) -> (r: Result<String, Error>)
    ensures
        r == if results.len() > 0 {
            Ok(results[0].outputs.out)
        } else {
            Err(Error::SourceNotBuilt)
        },
{
    let mut results = results;
    if results.len() > 0 {
        Ok(results.remove(0).outputs.out)
    } else {
        Err(Error::SourceNotBuilt)
    }
}

/// Tells whether `rev` and `expr` differ in one place only, where `rev` has the version and `expr`
/// the reference to it.
pub open spec fn tied_between(
    rev: Seq<char>,
    version: Seq<char>,
    expr: Seq<char>,
    before: Seq<char>,
    after: Seq<char>,
) -> bool {
    rev == before + version + after && expr == before + "${version}"@ + after
}

/// Where the revision holds the version, putting the version back in the place of the reference to
/// it gives the revision.
pub proof fn law_override_gives_back_the_revision(rev: Seq<char>, version: Seq<char>)
    requires
        has_part(rev, version),
    ensures
        exists|before: Seq<char>, after: Seq<char>|
            tied_between(
                rev,
                version,
                replaced_first(rev, version, "${version}"@),
                before,
                after,
            ),
{
    lemma_has_first(rev, version);
    let at = choose|at: int| first_at(rev, version, at);
    let before = rev.take(at);
    let after = rev.skip(at + version.len());
    assert(rev =~= before + version + after);
    assert(tied_between(
        rev,
        version,
        replaced_first(rev, version, "${version}"@),
        before,
        after,
    ));
}

/// A part of a text has a first index.
proof fn lemma_has_first(s: Seq<char>, part: Seq<char>)
    requires
        has_part(s, part),
    ensures
        exists|at: int| first_at(s, part, at),
{
    let at = choose|at: int| occurs_at(s, part, at);
    lemma_first_up_to(s, part, at);
}

/// Up to an index of a part there is a first one.
proof fn lemma_first_up_to(s: Seq<char>, part: Seq<char>, at: int)
    requires
        occurs_at(s, part, at),
    ensures
        exists|first: int| first_at(s, part, first),
    decreases at,
{
    if exists|j: int| 0 <= j < at && occurs_at(s, part, j) {
        let j = choose|j: int| 0 <= j < at && occurs_at(s, part, j);
        lemma_first_up_to(s, part, j);
    } else {
        assert(first_at(s, part, at));
    }
}

/// A revision that holds the version is tied to it.
proof fn lemma_part_is_tied(rev: Seq<char>, version: Seq<char>)
    requires
        has_part(rev, version),
    ensures
        override_args(rev, version).len() == 3,
{
}

/// Where the version that is suggested for a tag is kept, the revision is tied to it.
pub proof fn law_suggested_version_ties_the_tag(tag: Seq<char>)
    ensures
        override_args(tag, tag_version(tag)).len() == 3,
{
    law_tag_ends_with_its_version(tag);
    lemma_part_is_tied(tag, tag_version(tag));
}

/// The expression for a source that is no crate is, byte for byte, what the command wrote.
pub proof fn law_expression_is_what_was_written(stdout: Seq<u8>)
    requires
        valid_utf8(stdout),
    ensures
        encode_utf8(source_text(false, stdout)) == stdout,
{
    decode_utf8_encode_utf8(stdout);
}

/// The expression for a crate takes the name and the version over, and has the whole hash that the
/// command wrote, without the white space after it.
pub proof fn law_crate_expression_has_the_whole_hash(hash: Seq<char>, white: Seq<char>)
    requires
        all_white(white),
        hash.len() > 0 ==> !is_white_space(hash.last()),
    ensures
        source_text(true, encode_utf8(hash + white)) == "fetchCrate {\n"@
            + "    inherit pname version;\n"@ + "    hash = \""@ + hash + "\";\n"@ + "  }"@,
{
    encode_utf8_decode_utf8(hash + white);
    law_white_space_after_is_dropped(hash, white);
    reveal_strlit("fetchCrate {\n    inherit pname version;\n    hash = \"");
    reveal_strlit("fetchCrate {\n");
    reveal_strlit("    inherit pname version;\n");
    reveal_strlit("    hash = \"");
    reveal_strlit("\";\n  }");
    reveal_strlit("\";\n");
    reveal_strlit("  }");
    assert("fetchCrate {\n    inherit pname version;\n    hash = \""@ =~= "fetchCrate {\n"@
        + "    inherit pname version;\n"@ + "    hash = \""@);
    assert("\";\n  }"@ =~= "\";\n"@ + "  }"@);
    assert(crate_source_text(hash) =~= "fetchCrate {\n"@ + "    inherit pname version;\n"@
        + "    hash = \""@ + hash + "\";\n"@ + "  }"@);
}

/// Of a crate the hash is asked for, whatever its version; of another source the expression, with
/// an indent of two.
pub proof fn law_what_is_asked_of_the_fetcher(
    url: Seq<char>,
    rev: Seq<char>,
    version: Seq<char>,
)
    ensures
        fetch_args(url, true, rev, version) == seq![url, rev, "-H"@],
        fetch_args(url, false, rev, version).len() >= 4,
        fetch_args(url, false, rev, version)[0] == url,
        fetch_args(url, false, rev, version)[1] == rev,
        fetch_args(url, false, rev, version)[fetch_args(url, false, rev, version).len() - 2]
            == "-i"@,
        fetch_args(url, false, rev, version).last() == "2"@,
        fetch_args(url, false, rev, rev) == seq![
            url,
            rev,
            "-o"@,
            "rev"@,
            "version"@,
            "-i"@,
            "2"@,
        ],
{
    assert(fetch_args(url, false, rev, rev) =~= seq![
        url,
        rev,
        "-o"@,
        "rev"@,
        "version"@,
        "-i"@,
        "2"@,
    ]);
}

/// Where the version stands in a revision that is more than it, its first place is taken by the
/// reference to the version, and what is before and after stays.
pub proof fn law_first_version_is_tied(
    url: Seq<char>,
    before: Seq<char>,
    version: Seq<char>,
    after: Seq<char>,
)
    requires
        before.len() + after.len() > 0,
        forall|j: int|
            0 <= j < before.len() ==> #[trigger] (before + version + after).subrange(
                j,
                j + version.len(),
            ) != version,
    ensures
        fetch_args(url, false, before + version + after, version) == seq![
            url,
            before + version + after,
            "-O"@,
            "rev"@,
            before + "${version}"@ + after,
            "-i"@,
            "2"@,
        ],
{
    let rev = before + version + after;
    let at = before.len() as int;
    assert(rev.subrange(at, at + version.len()) =~= version);
    assert forall|j: int| 0 <= j < at implies !occurs_at(rev, version, j) by {
        assert(rev.subrange(j, j + version.len()) != version);
    }
    assert(first_at(rev, version, at));
    assert(has_part(rev, version));
    lemma_first_at_unique(rev, version, at, choose|at: int| first_at(rev, version, at));
    assert(rev.len() != version.len());
    law_splicing(before, version, after, "${version}"@);
    assert(fetch_args(url, false, rev, version) =~= seq![
        url,
        rev,
        "-O"@,
        "rev"@,
        before + "${version}"@ + after,
        "-i"@,
        "2"@,
    ]);
}

/// Where the version stands nowhere in the revision, nothing is tied.
pub proof fn law_other_revisions_are_not_tied(url: Seq<char>, rev: Seq<char>, version: Seq<char>)
    requires
        forall|j: int|
            0 <= j <= rev.len() - version.len() ==> #[trigger] rev.subrange(j, j + version.len())
                != version,
    ensures
        fetch_args(url, false, rev, version) == seq![url, rev, "-i"@, "2"@],
{
    if rev == version {
        let start: int = 0;
        assert(rev.subrange(start, start + version.len()) =~= version);
    }
    if has_part(rev, version) {
        let at = choose|at: int| occurs_at(rev, version, at);
        assert(rev.subrange(at, at + version.len()) == version);
    }
    assert(fetch_args(url, false, rev, version) =~= seq![url, rev, "-i"@, "2"@]);
}

/// The source is built on its own as an attribute of Nixpkgs, with the name and the version bound
/// that the expression refers to.
pub proof fn law_source_is_built_with_its_bindings(
    pname: Seq<char>,
    version: Seq<char>,
    src_expr: Seq<char>,
)
    ensures
        source_build_text(pname, version, src_expr) == "let "@ + attribute("pname"@, pname)
            + attribute("version"@, version) + "in"@ + "(import<nixpkgs>{})."@ + src_expr,
{
    reveal_strlit("let ");
    reveal_strlit("pname");
    reveal_strlit("=");
    reveal_strlit(";");
    reveal_strlit("version");
    reveal_strlit("in");
    reveal_strlit("(import<nixpkgs>{}).");
    reveal_strlit("let pname=");
    reveal_strlit(";version=");
    reveal_strlit(";in(import<nixpkgs>{}).");
    assert("let pname="@ =~= "let "@ + "pname"@ + "="@);
    assert(";version="@ =~= ";"@ + "version"@ + "="@);
    assert(";in(import<nixpkgs>{})."@ =~= ";"@ + "in"@ + "(import<nixpkgs>{})."@);
    assert(source_build_text(pname, version, src_expr) =~= "let "@ + attribute("pname"@, pname)
        + attribute("version"@, version) + "in"@ + "(import<nixpkgs>{})."@ + src_expr);
}

/// A fetcher that is not known goes by its own name, and is not one for crates.
pub proof fn law_names_of_fetchers(name: String)
    ensures
        fetcher_text(MaybeFetcher::Unknown { fetcher: name }) == name@,
        fetcher_text(MaybeFetcher::Known(Fetcher::FetchCrate)) == "fetchCrate"@,
        fetcher_text(MaybeFetcher::Known(Fetcher::FetchFromGitHub)) == "fetchFromGitHub"@,
        fetcher_text(MaybeFetcher::Known(Fetcher::FetchFromGitLab)) == "fetchFromGitLab"@,
        MaybeFetcher::Known(Fetcher::FetchCrate).fetches_crates(),
        !MaybeFetcher::Known(Fetcher::FetchFromGitHub).fetches_crates(),
        !MaybeFetcher::Known(Fetcher::FetchFromGitLab).fetches_crates(),
        !(MaybeFetcher::Unknown { fetcher: name }).fetches_crates(),
{
}

} // verus!
