//! The course of a session: what is known at each point, what to run or to ask next, and what the
//! answers lead to. Each point has a type of its own, so that no step can be left out.
use vstd::prelude::*;
use vstd::utf8::valid_utf8;

use crate::builder::{
    build_choices, initial_inputs, offered, select_build, selected, tools, with_inputs, AllInputs,
    BuildFiles, BuildType, Inputs,
};
use crate::command::{words, Command, Exit};
use crate::error::{check_exit, Error};
use crate::fod::{
    cargo_tarball_expr, cargo_tarball_text, fod_hash, go_modules_expr, go_modules_text,
    is_specified, law_first_reported_hash_is_found, reported_hash, reports_at, text_lines, Finished,
    FAKE_HASH,
};
use crate::pname::{last_name, name_of_url, suggest_pname, suggested_pname, url_segments};
use crate::render::{
    arguments, back, body, body_text, cargo_hash, cargo_hash_text, clean_description, front,
    hash_or_fake, law_body_holds_its_parts, meta, meta_text, opening, package_text,
    plain_description, vendor_hash, vendor_hash_text,
};
use crate::revision::{
    choose_revision, meant_revision, suggest_version, suggested_version, take_version, version_of,
    PackageInfo, Version,
};
use crate::source::{
    build_command, fetch_args, fetch_command, fetcher_text, first_output, lookup_command,
    source_build_expr, source_build_text, source_expr, source_text, BuildResult, Fetcher,
    MaybeFetcher,
};
use crate::text::{has_part, lemma_part, lemma_part_of_part, literal, literal_text, text_of};

verus! {

/// What is asked for where no URL was given.
pub const ENTER_URL: &'static str = "Enter url";

/// What is asked for where the revisions are not known.
pub const ENTER_REVISION: &'static str = "Enter tag or revision";

/// What is asked for once the revision is known.
pub const ENTER_VERSION: &'static str = "Enter version";

/// What is asked for once the version is known.
pub const ENTER_PNAME: &'static str = "Enter pname";

/// What is asked for once the source is there.
pub const ENTER_BUILD: &'static str = "How should this package be built?";

/// Where a session starts: the URL is asked for, or its fetcher is looked up.
#[derive(Debug)]
pub enum Start {
    AskUrl,
    Lookup(Lookup),
}

/// Starts with the URL that was given, if one was.
pub fn start(url: Option<String>) -> (r: Start)
    ensures
        r == match url {
            Some(url) => Start::Lookup(Lookup { url }),
            None => Start::AskUrl,
        },
{
    match url {
        Some(url) => Start::Lookup(Lookup { url }),
        None => Start::AskUrl,
    }
}

/// The fetcher of a URL is looked up.
#[derive(Debug)]
pub struct Lookup {
    pub url: String,
}

impl Lookup {
    /// The command that tells the fetcher.
    pub fn command(&self) -> (r: Command)
        ensures
            r.runs("nurl"@, seq![self.url@, "-p"@]),
    {
        lookup_command(&self.url)
    }

    /// Goes on if the command ended well.
    pub fn finish(self, exit: Exit) -> (r: Result<Resolve, Error>)
        ensures
            r == match exit {
                Exit::Success => Ok(Resolve { url: self.url }),
                Exit::Failure { status } => Err(Error::CommandFailed { status }),
            },
    {
        match check_exit(exit) {
            Ok(()) => Ok(Resolve { url: self.url }),
            Err(e) => Err(e),
        }
    }
}

/// The fetcher of a URL has been told, and is to be read.
#[derive(Debug)]
pub struct Resolve {
    pub url: String,
}

/// What a fetcher leads to: the revisions are looked up, or the answers are asked for.
#[derive(Debug)]
pub enum Resolved {
    Known(AskInfo),
    Unknown(AskAll),
}

impl Resolve {
    /// Goes on with the fetcher. One that is not known gives no name of the package: the URL does,
    /// if it has one.
    pub fn fetcher(self, fetcher: MaybeFetcher) -> (r: Resolved)
        ensures
            fetcher matches MaybeFetcher::Known(known) ==> r == Resolved::Known(
                AskInfo { url: self.url, fetcher: known },
            ),
            fetcher matches MaybeFetcher::Unknown { fetcher: name } ==> (r matches Resolved::Unknown(
                next,
            ) && next.url == self.url && next.fetcher == name && text_of(next.name) == last_name(
                url_segments(self.url@),
            )),
    {
        match fetcher {
            MaybeFetcher::Known(known) => Resolved::Known(AskInfo { url: self.url, fetcher: known }),
            MaybeFetcher::Unknown { fetcher } => {
                let name = name_of_url(&self.url);
                Resolved::Unknown(AskAll { url: self.url, fetcher, name })
            },
        }
    }
}

/// The package is looked up with a known fetcher.
#[derive(Debug)]
pub struct AskInfo {
    pub url: String,
    pub fetcher: Fetcher,
}

impl AskInfo {
    /// Goes on with what the fetcher tells of the package.
    pub fn info(self, info: PackageInfo) -> (r: AskRevision)
        ensures
            r == (AskRevision { url: self.url, fetcher: self.fetcher, info }),
    {
        AskRevision { url: self.url, fetcher: self.fetcher, info }
    }
}

/// The revision is asked for.
#[derive(Debug)]
pub struct AskRevision {
    pub url: String,
    pub fetcher: Fetcher,
    pub info: PackageInfo,
}

/// What a revision leads to: the version is asked for, or the revision is looked up first.
#[derive(Debug)]
pub enum Chosen {
    Listed(AskVersion),
    Unlisted(LookupVersion),
}

impl AskRevision {
    /// What to ask: with the revision that is taken without an answer.
    pub fn message(&self) -> (r: String)
        ensures
            r@ == "Enter tag or revision (defaults to "@ + self.info.revisions.latest@ + ")"@,
    {
        let mut out = "Enter tag or revision (defaults to ".to_owned();
        out.append(self.info.revisions.latest.as_str());
        out.append(")");
        out
    }

    /// Goes on with the revision that the answer means. One that is listed suggests a version.
    pub fn answer(self, answer: String) -> (r: Chosen)
        ensures
            ({
                let rev = meant_revision(answer@, self.info.revisions.latest@);
                let known = version_of(self.info.revisions.versions@, rev);
                &&& r is Listed <==> known is Some
                &&& r matches Chosen::Listed(next) ==> {
                    &&& next.url == self.url
                    &&& next.fetcher == self.fetcher
                    &&& next.name == self.info.pname
                    &&& next.description == self.info.description
                    &&& next.rev@ == rev
                    &&& next.initial@ == suggested_version(rev, known)
                }
                &&& r matches Chosen::Unlisted(next) ==> {
                    &&& next.url == self.url
                    &&& next.fetcher == self.fetcher
                    &&& next.name == self.info.pname
                    &&& next.description == self.info.description
                    &&& next.rev@ == rev
                }
            }),
    {
        let rev = choose_revision(answer, &self.info.revisions.latest);
        let known = take_version(self.info.revisions.versions, &rev);
        let next = LookupVersion {
            url: self.url,
            fetcher: self.fetcher,
            name: self.info.pname,
            description: self.info.description,
            rev,
        };
        if known.is_some() {
            Chosen::Listed(next.version(known))
        } else {
            Chosen::Unlisted(next)
        }
    }
}

/// A revision that is not listed is looked up.
#[derive(Debug)]
pub struct LookupVersion {
    pub url: String,
    pub fetcher: Fetcher,
    pub name: String,
    pub description: String,
    pub rev: String,
}

impl LookupVersion {
    /// Goes on with what is known of the revision. If nothing is, no version is suggested.
    pub fn version(self, version: Option<Version>) -> (r: AskVersion)
        ensures
            r.url == self.url,
            r.fetcher == self.fetcher,
            r.name == self.name,
            r.description == self.description,
            r.rev == self.rev,
            r.initial@ == suggested_version(self.rev@, version),
    {
        let initial = suggest_version(&self.rev, &version);
        AskVersion {
            url: self.url,
            fetcher: self.fetcher,
            name: self.name,
            description: self.description,
            rev: self.rev,
            initial,
        }
    }
}

/// The version is asked for, with the one that the revision suggests.
#[derive(Debug)]
pub struct AskVersion {
    pub url: String,
    pub fetcher: Fetcher,
    pub name: String,
    pub description: String,
    pub rev: String,
    pub initial: String,
}

impl AskVersion {
    /// Goes on with the version.
    pub fn answer(self, version: String) -> (r: AskName)
        ensures
            r.url == self.url,
            r.fetcher == MaybeFetcher::Known(self.fetcher),
            r.description == self.description,
            r.rev == self.rev,
            r.version == version,
            text_of(r.initial) == Some(suggested_pname(self.name@)),
    {
        let initial = suggest_pname(&self.name);
        AskName {
            url: self.url,
            fetcher: MaybeFetcher::Known(self.fetcher),
            description: self.description,
            rev: self.rev,
            version,
            initial: Some(initial),
        }
    }
}

/// The revision and the version are asked for, with nothing to suggest.
#[derive(Debug)]
pub struct AskAll {
    pub url: String,
    pub fetcher: String,
    pub name: Option<String>,
}

impl AskAll {
    /// Goes on with the revision and the version. Such a package has no description.
    pub fn answer(self, rev: String, version: String) -> (r: AskName)
        ensures
            r.url == self.url,
            r.fetcher == (MaybeFetcher::Unknown { fetcher: self.fetcher }),
            r.description@ == Seq::<char>::empty(),
            r.rev == rev,
            r.version == version,
            text_of(r.initial) == match self.name {
                Some(name) => Some(suggested_pname(name@)),
                None => None,
            },
    {
        let initial = match &self.name {
            Some(name) => Some(suggest_pname(name)),
            None => None,
        };
        AskName {
            url: self.url,
            fetcher: MaybeFetcher::Unknown { fetcher: self.fetcher },
            description: String::new(),
            rev,
            version,
            initial,
        }
    }
}

/// The name of the package is asked for, with a spelling to suggest where there is one.
#[derive(Debug)]
pub struct AskName {
    pub url: String,
    pub fetcher: MaybeFetcher,
    pub description: String,
    pub rev: String,
    pub version: String,
    pub initial: Option<String>,
}

/// What the answers say of the package.
#[derive(Debug)]
pub struct Package {
    pub url: String,
    pub fetcher: MaybeFetcher,
    pub description: String,
    pub rev: String,
    pub version: String,
    pub pname: String,
}

impl AskName {
    /// Goes on with the name.
    pub fn answer(self, pname: String) -> (r: Fetch)
        ensures
            r.package == (Package {
                url: self.url,
                fetcher: self.fetcher,
                description: self.description,
                rev: self.rev,
                version: self.version,
                pname,
            }),
    {
        Fetch {
            package: Package {
                url: self.url,
                fetcher: self.fetcher,
                description: self.description,
                rev: self.rev,
                version: self.version,
                pname,
            },
        }
    }
}

/// The source is fetched.
#[derive(Debug)]
pub struct Fetch {
    pub package: Package,
}

impl Fetch {
    /// The command that fetches the source.
    pub fn command(&self) -> (r: Command)
        ensures
            r.runs(
                "nurl"@,
                fetch_args(
                    self.package.url@,
                    self.package.fetcher.fetches_crates(),
                    self.package.rev@,
                    self.package.version@,
                ),
            ),
    {
        fetch_command(
            &self.package.url,
            &self.package.fetcher,
            &self.package.rev,
            &self.package.version,
        )
    }

    /// Goes on with the expression for the source, if the command ended well and wrote text.
    pub fn finish(self, exit: Exit, stdout: Vec<u8>) -> (r: Result<BuildSource, Error>)
        ensures
            exit matches Exit::Failure { status } ==> r == Err::<BuildSource, Error>(
                Error::CommandFailed { status },
            ),
            exit is Success ==> (r is Ok <==> valid_utf8(stdout@)),
            exit is Success ==> (r matches Err(e) ==> (e matches Error::NotUtf8 { bytes } && bytes@
                == stdout@)),
            r matches Ok(next) ==> next.package == self.package && next.src_expr@ == source_text(
                self.package.fetcher.fetches_crates(),
                stdout@,
            ),
    {
        match check_exit(exit) {
            Ok(()) => match source_expr(&self.package.fetcher, stdout) {
                Ok(src_expr) => Ok(BuildSource { package: self.package, src_expr }),
                Err(e) => Err(e),
            },
            Err(e) => Err(e),
        }
    }
}

/// The source is built.
#[derive(Debug)]
pub struct BuildSource {
    pub package: Package,
    pub src_expr: String,
}

impl BuildSource {
    /// The command that builds the source.
    pub fn command(&self) -> (r: Command)
        ensures
            r.runs(
                "nix"@,
                seq![
                    "build"@,
                    "--extra-experimental-features"@,
                    "nix-command"@,
                    "--impure"@,
                    "--no-link"@,
                    "--json"@,
                    "--expr"@,
                    source_build_text(
                        literal_text(self.package.pname@),
                        literal_text(self.package.version@),
                        self.src_expr@,
                    ),
                ],
            ),
    {
        let pname = literal(&self.package.pname);
        let version = literal(&self.package.version);
        build_command(&source_build_expr(&pname, &version, &self.src_expr))
    }

    /// Goes on if the command ended well.
    pub fn finish(self, exit: Exit) -> (r: Result<Built, Error>)
        ensures
            r == match exit {
                Exit::Success => Ok(Built { package: self.package, src_expr: self.src_expr }),
                Exit::Failure { status } => Err(Error::CommandFailed { status }),
            },
    {
        match check_exit(exit) {
            Ok(()) => Ok(Built { package: self.package, src_expr: self.src_expr }),
            Err(e) => Err(e),
        }
    }
}

/// The source has been built, and the results are to be read.
#[derive(Debug)]
pub struct Built {
    pub package: Package,
    pub src_expr: String,
}

impl Built {
    /// Goes on with the output of the first result, if there is one.
    pub fn results(self, results: Vec<BuildResult>) -> (r: Result<Inspect, Error>)
        ensures
            r == if results.len() > 0 {
                Ok(
                    Inspect {
                        package: self.package,
                        src_expr: self.src_expr,
                        src: results[0].outputs.out,
                    },
                )
            } else {
                Err(Error::SourceNotBuilt)
            },
    {
        match first_output(results) {
            Ok(src) => Ok(Inspect { package: self.package, src_expr: self.src_expr, src }),
            Err(e) => Err(e),
        }
    }
}

/// The source is searched for build files.
#[derive(Debug)]
pub struct Inspect {
    pub package: Package,
    pub src_expr: String,
    pub src: String,
}

impl Inspect {
    /// Goes on with the build files that are there.
    pub fn files(self, files: BuildFiles) -> (r: AskBuild)
        ensures
            r == (AskBuild {
                package: self.package,
                src_expr: self.src_expr,
                src: self.src,
                files,
            }),
    {
        AskBuild { package: self.package, src_expr: self.src_expr, src: self.src, files }
    }
}

/// The way to build is asked for.
#[derive(Debug)]
pub struct AskBuild {
    pub package: Package,
    pub src_expr: String,
    pub src: String,
    pub files: BuildFiles,
}

impl AskBuild {
    /// The ways to build to choose from.
    pub fn choices(&self) -> (r: Vec<BuildType>)
        ensures
            r@ == offered(self.files),
    {
        build_choices(self.files)
    }

    /// Goes on with the way to build that the answer chooses, and with what it needs.
    pub fn answer(self, answer: &str) -> (r: Plan)
        ensures
            r.package == self.package,
            r.src_expr == self.src_expr,
            r.src == self.src,
            r.choice == selected(offered(self.files), answer@),
            r.inputs.wf(),
            r.inputs.native_build_inputs@ == tools(r.choice, self.files),
            r.inputs.build_inputs@ == Seq::<Seq<char>>::empty(),
    {
        let choices = build_choices(self.files);
        let choice = select_build(&choices, answer);
        let inputs = initial_inputs(choice, self.files);
        Plan { package: self.package, src_expr: self.src_expr, src: self.src, choice, inputs }
    }
}

/// The way to build is chosen. The dependencies are to be fixed.
#[derive(Debug)]
pub struct Plan {
    pub package: Package,
    pub src_expr: String,
    pub src: String,
    pub choice: BuildType,
    pub inputs: AllInputs,
}

/// What the source holds of its dependencies.
#[derive(Clone, Copy, Debug, PartialEq, Eq, Structural)]
pub struct Pinned {
    /// A directory `vendor`.
    pub vendored: bool,
    /// A file `Cargo.lock` that can be read.
    pub locked: bool,
}

/// Tells whether a way to build reads the lock file of Cargo.
pub open spec fn reads_lock(choice: BuildType, pinned: Pinned) -> bool {
    (choice == BuildType::BuildRustPackage || choice == BuildType::MkDerivationCargo)
        && pinned.locked
}

/// The derivation of the dependencies, if their hash is to be found out.
pub open spec fn dependencies_expr(
    choice: BuildType,
    pinned: Pinned,
    pname: Seq<char>,
    version: Seq<char>,
    src: Seq<char>,
) -> Option<Seq<char>> {
    if choice == BuildType::BuildGoModule && !pinned.vendored {
        Some(go_modules_text(literal_text(pname), literal_text(version), src))
    } else if reads_lock(choice, pinned) {
        Some(cargo_tarball_text(pname, version, src))
    } else {
        None
    }
}

/// The hash of the dependencies, as the package writes it.
pub open spec fn dependencies_hash(
    choice: BuildType,
    pinned: Pinned,
    hash: Option<Seq<char>>,
) -> Seq<char> {
    match choice {
        BuildType::BuildGoModule => vendor_hash_text(pinned.vendored, hash),
        BuildType::BuildRustPackage => cargo_hash_text(pinned.locked, hash),
        BuildType::MkDerivationCargo => cargo_hash_text(pinned.locked, hash),
        BuildType::MkDerivation => Seq::empty(),
    }
}

impl Plan {
    /// The derivation of the dependencies, if their hash is to be found out.
    pub fn dependencies(&self, pinned: Pinned) -> (r: Option<String>)
        ensures
            text_of(r) == dependencies_expr(
                self.choice,
                pinned,
                self.package.pname@,
                self.package.version@,
                self.src@,
            ),
    {
        match self.choice {
            BuildType::BuildGoModule => {
                if pinned.vendored {
                    None
                } else {
                    let pname = literal(&self.package.pname);
                    let version = literal(&self.package.version);
                    Some(go_modules_expr(&pname, &version, &self.src))
                }
            },
            BuildType::BuildRustPackage | BuildType::MkDerivationCargo => {
                if pinned.locked {
                    Some(cargo_tarball_expr(&self.package.pname, &self.package.version, &self.src))
                } else {
                    None
                }
            },
            BuildType::MkDerivation => None,
        }
    }

    /// Tells whether the lock file of Cargo is to be searched for inputs.
    pub fn loads_lock(&self, pinned: Pinned) -> (b: bool)
        ensures
            b == reads_lock(self.choice, pinned),
    {
        match self.choice {
            BuildType::BuildRustPackage | BuildType::MkDerivationCargo => pinned.locked,
            BuildType::BuildGoModule | BuildType::MkDerivation => false,
        }
    }

    /// Goes on with what the build of the dependencies left behind, if it was run, and with the
    /// inputs that the lock file asks for, if it was searched.
    pub fn finish(
        self,
        pinned: Pinned,
        output: &Option<Finished>,
        native: &Vec<String>,
        build: &Vec<String>,
    ) -> (r: Ready)
        ensures
            r.package == self.package,
            r.src_expr == self.src_expr,
            r.choice == self.choice,
            r.hash@ == dependencies_hash(self.choice, pinned, reported_hash(*output)),
            self.inputs.wf() ==> r.inputs.wf(),
            reads_lock(self.choice, pinned) ==> r.inputs.native_build_inputs@ == with_inputs(
                self.inputs.native_build_inputs@,
                words(native@),
            ),
            reads_lock(self.choice, pinned) ==> r.inputs.build_inputs@ == with_inputs(
                self.inputs.build_inputs@,
                words(build@),
            ),
            !reads_lock(self.choice, pinned) ==> r.inputs == self.inputs,
    {
        let loads = self.loads_lock(pinned);
        let found = fod_hash(output);
        let hash = match self.choice {
            BuildType::BuildGoModule => vendor_hash(pinned.vendored, &found),
            BuildType::BuildRustPackage | BuildType::MkDerivationCargo => cargo_hash(
                pinned.locked,
                found,
            ),
            BuildType::MkDerivation => String::new(),
        };
        let mut inputs = self.inputs;
        if loads {
            inputs.native_build_inputs.extend(native);
            inputs.build_inputs.extend(build);
        }
        Ready {
            package: self.package,
            src_expr: self.src_expr,
            choice: self.choice,
            inputs,
            hash,
        }
    }
}

/// All is known that the package says, but for its license.
#[derive(Debug)]
pub struct Ready {
    pub package: Package,
    pub src_expr: String,
    pub choice: BuildType,
    pub inputs: AllInputs,
    pub hash: String,
}

/// A list of inputs that the package writes.
#[derive(Clone, Copy, Debug, PartialEq, Eq, Structural)]
pub enum Section {
    NativeBuildInputs,
    BuildInputs,
}

/// The lists of inputs that the package writes, in their order.
pub open spec fn written_sections(native: bool, build: bool) -> Seq<Section> {
    let first = if native {
        seq![Section::NativeBuildInputs]
    } else {
        Seq::empty()
    };
    let second = if build {
        seq![Section::BuildInputs]
    } else {
        Seq::empty()
    };
    first + second
}

/// What a list of inputs is called.
pub open spec fn section_text(section: Section) -> Seq<char> {
    match section {
        Section::NativeBuildInputs => "nativeBuildInputs"@,
        Section::BuildInputs => "buildInputs"@,
    }
}

/// What a list of inputs is called.
pub fn section_name(section: Section) -> (r: &'static str)
    ensures
        r@ == section_text(section),
{
    match section {
        Section::NativeBuildInputs => "nativeBuildInputs",
        Section::BuildInputs => "buildInputs",
    }
}

/// The lists of inputs that the package writes: those that hold any.
pub fn sections(native: bool, build: bool) -> (r: Vec<Section>)
    ensures
        r@ == written_sections(native, build),
{
    let mut list: Vec<Section> = Vec::new();
    if native {
        list.push(Section::NativeBuildInputs);
    }
    if build {
        list.push(Section::BuildInputs);
    }
    assert(list@ =~= written_sections(native, build));
    list
}

impl Ready {
    /// The derivation up to its inputs.
    pub fn body(&self) -> (r: String)
        ensures
            r@ == body_text(
                self.choice,
                literal_text(self.package.pname@),
                literal_text(self.package.version@),
                self.src_expr@,
                self.hash@,
            ),
    {
        let pname = literal(&self.package.pname);
        let version = literal(&self.package.version);
        body(self.choice, &pname, &version, &self.src_expr, &self.hash)
    }

    /// The start of the meta data, up to the value of `license`.
    pub fn meta(&self) -> (r: String)
        ensures
            r@ == meta_text(
                literal_text(plain_description(self.package.description@)),
                literal_text(self.package.url@),
            ),
    {
        let description = literal(clean_description(&self.package.description));
        let url = literal(&self.package.url);
        meta(&description, &url)
    }

    /// A list of inputs.
    pub fn listed(&self, section: Section) -> (r: &Inputs)
        ensures
            *r == match section {
                Section::NativeBuildInputs => self.inputs.native_build_inputs,
                Section::BuildInputs => self.inputs.build_inputs,
            },
    {
        match section {
            Section::NativeBuildInputs => &self.inputs.native_build_inputs,
            Section::BuildInputs => &self.inputs.build_inputs,
        }
    }

    /// The whole package, with the arguments and the lists that the inputs add, and with the value
    /// of `license`, if licenses can be told at all.
    pub fn package(&self, lambda_inputs: &str, sections: &str, license: &Option<String>) -> (r:
        String)
        ensures
            r@ == package_text(
                self.choice,
                fetcher_text(self.package.fetcher),
                lambda_inputs@,
                literal_text(self.package.pname@),
                literal_text(self.package.version@),
                self.src_expr@,
                self.hash@,
                sections@,
                literal_text(plain_description(self.package.description@)),
                literal_text(self.package.url@),
                text_of(*license),
            ),
    {
        let mut out = opening().to_owned();
        out.append(&arguments(self.choice, &self.package.fetcher));
        out.append(&front(lambda_inputs, &self.body(), sections, &self.meta()));
        out.append(&back(license));
        out
    }
}

/// The hash of the dependencies stands in the package, where one is needed: the hash that the build
/// reports, or the fake one.
proof fn lemma_hash_reaches_the_package(
    choice: BuildType,
    pinned: Pinned,
    pname: Seq<char>,
    version: Seq<char>,
    src: Seq<char>,
    src_expr: Seq<char>,
    hash: Option<Seq<char>>,
)
    requires
        dependencies_expr(choice, pinned, pname, version, src) is Some,
    ensures
        has_part(
            body_text(
                choice,
                literal_text(pname),
                literal_text(version),
                src_expr,
                dependencies_hash(choice, pinned, hash),
            ),
            hash_or_fake(hash),
        ),
{
    let written = dependencies_hash(choice, pinned, hash);
    let bare = hash_or_fake(hash);
    let whole = body_text(choice, literal_text(pname), literal_text(version), src_expr, written);
    law_body_holds_its_parts(choice, literal_text(pname), literal_text(version), src_expr, written);
    if choice == BuildType::BuildGoModule {
        lemma_part("\""@, bare, "\""@);
        lemma_part_of_part(whole, written, bare);
    }
}

/// Where the build of the dependencies fails and reports a hash at the first announcement, the
/// package holds this hash.
pub proof fn law_reported_hash_reaches_the_package(
    choice: BuildType,
    pinned: Pinned,
    pname: Seq<char>,
    version: Seq<char>,
    src: Seq<char>,
    src_expr: Seq<char>,
    output: Finished,
    i: int,
    hash: Seq<char>,
)
    requires
        dependencies_expr(choice, pinned, pname, version, src) is Some,
        !output.success,
        reports_at(text_lines(output.stderr@), i, hash),
        forall|j: int| 0 <= j < i ==> !is_specified(#[trigger] text_lines(output.stderr@)[j]),
    ensures
        has_part(
            body_text(
                choice,
                literal_text(pname),
                literal_text(version),
                src_expr,
                dependencies_hash(choice, pinned, reported_hash(Some(output))),
            ),
            hash,
        ),
{
    law_first_reported_hash_is_found(text_lines(output.stderr@), i, hash);
    lemma_hash_reaches_the_package(
        choice,
        pinned,
        pname,
        version,
        src,
        src_expr,
        reported_hash(Some(output)),
    );
}

/// Where the build of the dependencies cannot be run, or succeeds with the fake hash, the package
/// holds the fake hash.
pub proof fn law_fake_hash_stands_in(
    choice: BuildType,
    pinned: Pinned,
    pname: Seq<char>,
    version: Seq<char>,
    src: Seq<char>,
    src_expr: Seq<char>,
    output: Option<Finished>,
)
    requires
        dependencies_expr(choice, pinned, pname, version, src) is Some,
        output matches Some(finished) ==> finished.success,
    ensures
        has_part(
            body_text(
                choice,
                literal_text(pname),
                literal_text(version),
                src_expr,
                dependencies_hash(choice, pinned, reported_hash(output)),
            ),
            FAKE_HASH@,
        ),
{
    lemma_hash_reaches_the_package(
        choice,
        pinned,
        pname,
        version,
        src,
        src_expr,
        reported_hash(output),
    );
}

/// The hash of the dependencies is to be found out for a Go module that does not hold them, and for
/// what Cargo builds from a lock file. Else nothing is built for it.
pub proof fn law_when_a_hash_is_found_out(
    choice: BuildType,
    pinned: Pinned,
    pname: Seq<char>,
    version: Seq<char>,
    src: Seq<char>,
)
    ensures
        choice == BuildType::BuildGoModule ==> dependencies_expr(
            choice,
            pinned,
            pname,
            version,
            src,
        ) == if pinned.vendored {
            None
        } else {
            Some(go_modules_text(literal_text(pname), literal_text(version), src))
        },
        choice == BuildType::BuildRustPackage || choice == BuildType::MkDerivationCargo
            ==> dependencies_expr(choice, pinned, pname, version, src) == if pinned.locked {
            Some(cargo_tarball_text(pname, version, src))
        } else {
            None
        },
        choice == BuildType::MkDerivation ==> dependencies_expr(
            choice,
            pinned,
            pname,
            version,
            src,
        ) is None,
        reads_lock(choice, pinned) <==> dependencies_expr(
            choice,
            pinned,
            pname,
            version,
            src,
        ) is Some && choice != BuildType::BuildGoModule,
{
}

/// What the package has for the hash of its dependencies: the one that was found in full, in quotes
/// for a Go module, or the fake one; nothing to be found for a Go module that holds them, and
/// nothing at all for a plain derivation.
pub proof fn law_hash_by_builder(pinned: Pinned, found: Option<Seq<char>>, hash: Seq<char>)
    ensures
        pinned.vendored ==> dependencies_hash(BuildType::BuildGoModule, pinned, found) == "null"@,
        !pinned.vendored ==> dependencies_hash(BuildType::BuildGoModule, pinned, Some(hash)) == "\""@
            + hash + "\""@,
        !pinned.vendored ==> dependencies_hash(BuildType::BuildGoModule, pinned, None) == "\""@
            + FAKE_HASH@ + "\""@,
        pinned.locked ==> dependencies_hash(BuildType::BuildRustPackage, pinned, Some(hash))
            == hash,
        !pinned.locked || found is None ==> dependencies_hash(
            BuildType::BuildRustPackage,
            pinned,
            found,
        ) == FAKE_HASH@,
        dependencies_hash(BuildType::MkDerivationCargo, pinned, found) == dependencies_hash(
            BuildType::BuildRustPackage,
            pinned,
            found,
        ),
        dependencies_hash(BuildType::MkDerivation, pinned, found) == Seq::<char>::empty(),
{
}

/// A list of inputs is written if and only if it holds any, the native ones first.
pub proof fn law_sections(native: bool, build: bool)
    ensures
        written_sections(native, build).contains(Section::NativeBuildInputs) <==> native,
        written_sections(native, build).contains(Section::BuildInputs) <==> build,
        written_sections(native, build).no_duplicates(),
        native ==> written_sections(native, build)[0] == Section::NativeBuildInputs,
        section_text(Section::NativeBuildInputs) == "nativeBuildInputs"@,
        section_text(Section::BuildInputs) == "buildInputs"@,
{
    let list = written_sections(native, build);
    if native {
        assert(list[0] == Section::NativeBuildInputs);
    }
    if build {
        assert(list[list.len() - 1] == Section::BuildInputs);
    }
}

} // verus!
