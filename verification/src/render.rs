//! The text of the package, piece by piece.
use vstd::prelude::*;

use crate::builder::BuildType;
use crate::fod::FAKE_HASH;
use crate::source::{fetcher_name, fetcher_text, MaybeFetcher};
use crate::text::{
    all_white, has_part, is_trimmed, is_white_space, law_affixes, law_trimming,
    law_white_space_around_is_dropped, lemma_part, strip_suffix, text_of, trim, trimmed,
    without_suffix,
};

verus! {

/// How the package starts.
pub fn opening() -> (r: &'static str)
    ensures
        r@ == "{ lib\n"@,
{
    "{ lib\n"
}

/// What a way to build takes as an argument of the package.
pub open spec fn builder_text(choice: BuildType) -> Seq<char> {
    match choice {
        BuildType::BuildGoModule => ", buildGoModule\n"@,
        BuildType::BuildRustPackage => ", rustPlatform\n"@,
        BuildType::MkDerivation => ", stdenv\n"@,
        BuildType::MkDerivationCargo => ", stdenv\n"@,
    }
}

/// The arguments of the package for the builder and the fetcher, a line for each.
pub open spec fn arguments_text(choice: BuildType, fetcher: Seq<char>) -> Seq<char> {
    builder_text(choice) + ", "@ + fetcher + "\n"@
}

/// The arguments of the package for the builder and the fetcher, a line for each.
pub fn arguments(choice: BuildType, fetcher: &MaybeFetcher) -> (r: String)
    ensures
        r@ == arguments_text(choice, fetcher_text(*fetcher)),
{
    let builder = match choice {
        BuildType::BuildGoModule => ", buildGoModule\n",
        BuildType::BuildRustPackage => ", rustPlatform\n",
        BuildType::MkDerivation => ", stdenv\n",
        BuildType::MkDerivationCargo => ", stdenv\n",
    };
    let mut out = builder.to_owned();
    out.append(", ");
    out.append(fetcher_name(fetcher));
    out.append("\n");
    out
}

/// The argument that needs no further line when the inputs are added to the arguments.
pub open spec fn written_text(choice: BuildType) -> Seq<char> {
    match choice {
        BuildType::BuildGoModule => "rustPlatform"@,
        BuildType::BuildRustPackage => "rustPlatform"@,
        BuildType::MkDerivation => "stdenv"@,
        BuildType::MkDerivationCargo => "stdenv"@,
    }
}

/// The argument that needs no further line when the inputs are added to the arguments.
pub fn written_argument(choice: BuildType) -> (r: &'static str)
    ensures
        r@ == written_text(choice),
{
    match choice {
        BuildType::BuildGoModule => "rustPlatform",
        BuildType::BuildRustPackage => "rustPlatform",
        BuildType::MkDerivation => "stdenv",
        BuildType::MkDerivationCargo => "stdenv",
    }
}

/// The hash that stands for an optional one.
pub open spec fn hash_or_fake(hash: Option<Seq<char>>) -> Seq<char> {
    match hash {
        Some(hash) => hash,
        None => FAKE_HASH@,
    }
}

/// The vendor hash of a Go module: none where the source holds its dependencies, else a hash in
/// quotes.
pub open spec fn vendor_hash_text(vendored: bool, hash: Option<Seq<char>>) -> Seq<char> {
    if vendored {
        "null"@
    } else {
        "\""@ + hash_or_fake(hash) + "\""@
    }
}

/// The vendor hash of a Go module.
pub fn vendor_hash(vendored: bool, hash: &Option<String>) -> (r: String)
    ensures
        r@ == vendor_hash_text(vendored, text_of(*hash)),
{
    if vendored {
        "null".to_owned()
    } else {
        let mut out = "\"".to_owned();
        match hash {
            Some(hash) => {
                out.append(hash.as_str());
            },
            None => {
                out.append(FAKE_HASH);
            },
        }
        out.append("\"");
        out
    }
}

/// The hash of the crates of a Cargo package: the fake one where the source has no lock file.
pub open spec fn cargo_hash_text(locked: bool, hash: Option<Seq<char>>) -> Seq<char> {
    if locked {
        hash_or_fake(hash)
    } else {
        FAKE_HASH@
    }
}

/// The hash of the crates of a Cargo package.
pub fn cargo_hash(locked: bool, hash: Option<String>) -> (r: String)
    ensures
        r@ == cargo_hash_text(locked, text_of(hash)),
{
    match hash {
        Some(hash) => {
            if locked {
                hash
            } else {
                FAKE_HASH.to_owned()
            }
        },
        None => FAKE_HASH.to_owned(),
    }
}

/// The end of the arguments and the start of the derivation. `pname` and `version` are string
/// literals.
pub open spec fn derivation_text(
    builder: Seq<char>,
    pname: Seq<char>,
    version: Seq<char>,
    src_expr: Seq<char>,
) -> Seq<char> {
    "}:\n\n"@ + builder + " rec {\n  pname = "@ + pname + ";\n  version = "@ + version
        + ";\n\n  src = "@ + src_expr + ";\n\n"@
}

/// The builder that a way to build calls.
pub open spec fn called_builder(choice: BuildType) -> Seq<char> {
    match choice {
        BuildType::BuildGoModule => "buildGoModule"@,
        BuildType::BuildRustPackage => "rustPlatform.buildRustPackage"@,
        BuildType::MkDerivation => "stdenv.mkDerivation"@,
        BuildType::MkDerivationCargo => "stdenv.mkDerivation"@,
    }
}

/// What fixes the dependencies of the package, by the way it is built.
pub open spec fn dependencies_text(choice: BuildType, hash: Seq<char>) -> Seq<char> {
    match choice {
        BuildType::BuildGoModule => "  vendorHash = "@ + hash + ";\n\n"@,
        BuildType::BuildRustPackage => "  cargoHash = \""@ + hash + "\";\n\n"@,
        BuildType::MkDerivation => Seq::empty(),
        BuildType::MkDerivationCargo => {
            "  cargoDeps = rustPlatform.fetchCargoTarball {\n    inherit src;\n    name = \"${pname}-${version}\";\n    hash = \""@
                + hash + "\";\n  };\n\n"@
        },
    }
}

/// The derivation up to its inputs. `pname` and `version` are string literals.
pub open spec fn body_text(
    choice: BuildType,
    pname: Seq<char>,
    version: Seq<char>,
    src_expr: Seq<char>,
    hash: Seq<char>,
) -> Seq<char> {
    derivation_text(called_builder(choice), pname, version, src_expr) + dependencies_text(
        choice,
        hash,
    )
}

/// What fixes the dependencies of the package, by the way it is built.
fn dependencies(choice: BuildType, hash: &str) -> (r: String)
    ensures
        r@ == dependencies_text(choice, hash@),
{
    match choice {
        BuildType::BuildGoModule => {
            let mut out = "  vendorHash = ".to_owned();
            out.append(hash);
            out.append(";\n\n");
            out
        },
        BuildType::BuildRustPackage => {
            let mut out = "  cargoHash = \"".to_owned();
            out.append(hash);
            out.append("\";\n\n");
            out
        },
        BuildType::MkDerivation => String::new(),
        BuildType::MkDerivationCargo => {
            let mut out =
                "  cargoDeps = rustPlatform.fetchCargoTarball {\n    inherit src;\n    name = \"${pname}-${version}\";\n    hash = \"".to_owned();
            out.append(hash);
            out.append("\";\n  };\n\n");
            out
        },
    }
}

/// The derivation up to its inputs. `pname` and `version` are string literals.
pub fn body(choice: BuildType, pname: &str, version: &str, src_expr: &str, hash: &str) -> (r: String)
    ensures
        r@ == body_text(choice, pname@, version@, src_expr@, hash@),
{
    let builder = match choice {
        BuildType::BuildGoModule => "buildGoModule",
        BuildType::BuildRustPackage => "rustPlatform.buildRustPackage",
        BuildType::MkDerivation => "stdenv.mkDerivation",
        BuildType::MkDerivationCargo => "stdenv.mkDerivation",
    };
    let mut out = "}:\n\n".to_owned();
    out.append(builder);
    out.append(" rec {\n  pname = ");
    out.append(pname);
    out.append(";\n  version = ");
    out.append(version);
    out.append(";\n\n  src = ");
    out.append(src_expr);
    out.append(";\n\n");
    out.append(&dependencies(choice, hash));
    out
}

/// A description without white space around it and without a full stop at its end.
pub open spec fn plain_description(description: Seq<char>) -> Seq<char> {
    match without_suffix(trimmed(description), "."@) {
        Some(rest) => rest,
        None => trimmed(description),
    }
}

/// A description without white space around it and without a full stop at its end.
pub fn clean_description(description: &str) -> (r: &str)
    ensures
        r@ == plain_description(description@),
{
    let text = trim(description);
    match strip_suffix(text, ".") {
        Some(rest) => rest,
        None => text,
    }
}

/// The start of the package's meta data, up to the value of `license`. `description` and `url` are
/// string literals.
pub open spec fn meta_text(description: Seq<char>, url: Seq<char>) -> Seq<char> {
    "  meta = with lib; {\n    description = "@ + description + ";\n    homepage = "@ + url
        + ";\n    license = "@
}

/// The start of the package's meta data, up to the value of `license`. `description` and `url` are
/// string literals.
pub fn meta(description: &str, url: &str) -> (r: String)
    ensures
        r@ == meta_text(description@, url@),
{
    let mut out = "  meta = with lib; {\n    description = ".to_owned();
    out.append(description);
    out.append(";\n    homepage = ");
    out.append(url);
    out.append(";\n    license = ");
    out
}

/// What stands between the arguments for builder and fetcher and the value of `license`: the
/// arguments for the inputs, the derivation, the lists of inputs and the start of the meta data.
pub open spec fn front_text(
    lambda_inputs: Seq<char>,
    body: Seq<char>,
    sections: Seq<char>,
    meta: Seq<char>,
) -> Seq<char> {
    lambda_inputs + body + sections + meta
}

/// What stands between the arguments for builder and fetcher and the value of `license`.
pub fn front(lambda_inputs: &str, body: &str, sections: &str, meta: &str) -> (r: String)
    ensures
        r@ == front_text(lambda_inputs@, body@, sections@, meta@),
{
    let mut out = lambda_inputs.to_owned();
    out.append(body);
    out.append(sections);
    out.append(meta);
    out
}

/// How the package ends, from the value of `license` on. Without one, the place stays empty.
pub open spec fn back_text(license: Option<Seq<char>>) -> Seq<char> {
    match license {
        Some(value) => value + ";\n    maintainers = with maintainers; [ ];\n  };\n}\n"@,
        None => ";\n    maintainers = with maintainers; [ ];\n  };\n}\n"@,
    }
}

/// How the package ends, from the value of `license` on.
pub fn back(license: &Option<String>) -> (r: String)
    ensures
        r@ == back_text(text_of(*license)),
{
    match license {
        Some(value) => {
            let mut out = value.clone();
            out.append(";\n    maintainers = with maintainers; [ ];\n  };\n}\n");
            out
        },
        None => ";\n    maintainers = with maintainers; [ ];\n  };\n}\n".to_owned(),
    }
}

/// The whole package, in the order in which it is written. `pname`, `version`, `description` and
/// `url` are string literals; `lambda_inputs` and `sections` are what the inputs add.
pub open spec fn package_text(
    choice: BuildType,
    fetcher: Seq<char>,
    lambda_inputs: Seq<char>,
    pname: Seq<char>,
    version: Seq<char>,
    src_expr: Seq<char>,
    hash: Seq<char>,
    sections: Seq<char>,
    description: Seq<char>,
    url: Seq<char>,
    license: Option<Seq<char>>,
) -> Seq<char> {
    "{ lib\n"@ + arguments_text(choice, fetcher) + front_text(
        lambda_inputs,
        body_text(choice, pname, version, src_expr, hash),
        sections,
        meta_text(description, url),
    ) + back_text(license)
}

/// A description is written without the full stop that it ends with.
pub proof fn law_one_full_stop_is_dropped(description: Seq<char>)
    requires
        is_trimmed(description),
    ensures
        plain_description(description + "."@) == description,
{
    reveal_strlit(".");
    let dotted = description + "."@;
    assert(is_trimmed(dotted));
    law_trimming(dotted);
    assert(dotted.subrange(dotted.len() - 1, dotted.len() as int) =~= "."@);
    assert("."@.is_suffix_of(dotted));
    assert(dotted.take(dotted.len() - 1) =~= description);
}

/// The derivation holds what it is made of: the name, the version, the source, and, unless it is a
/// plain `stdenv.mkDerivation`, the hash of the dependencies.
pub proof fn law_body_holds_its_parts(
    choice: BuildType,
    pname: Seq<char>,
    version: Seq<char>,
    src_expr: Seq<char>,
    hash: Seq<char>,
)
    ensures
        has_part(body_text(choice, pname, version, src_expr, hash), pname),
        has_part(body_text(choice, pname, version, src_expr, hash), version),
        has_part(body_text(choice, pname, version, src_expr, hash), src_expr),
        choice != BuildType::MkDerivation ==> has_part(
            body_text(choice, pname, version, src_expr, hash),
            hash,
        ),
{
    let whole = body_text(choice, pname, version, src_expr, hash);
    let deps = dependencies_text(choice, hash);
    let a = "}:\n\n"@ + called_builder(choice) + " rec {\n  pname = "@;
    let b = ";\n  version = "@;
    let c = ";\n\n  src = "@;
    let d = ";\n\n"@;
    assert(whole =~= a + pname + (b + version + c + src_expr + d + deps));
    lemma_part(a, pname, b + version + c + src_expr + d + deps);
    assert(whole =~= (a + pname + b) + version + (c + src_expr + d + deps));
    lemma_part(a + pname + b, version, c + src_expr + d + deps);
    assert(whole =~= (a + pname + b + version + c) + src_expr + (d + deps));
    lemma_part(a + pname + b + version + c, src_expr, d + deps);
    if choice != BuildType::MkDerivation {
        let head = derivation_text(called_builder(choice), pname, version, src_expr);
        let before = match choice {
            BuildType::BuildGoModule => "  vendorHash = "@,
            BuildType::BuildRustPackage => "  cargoHash = \""@,
            _ => "  cargoDeps = rustPlatform.fetchCargoTarball {\n    inherit src;\n    name = \"${pname}-${version}\";\n    hash = \""@,
        };
        let after = match choice {
            BuildType::BuildGoModule => ";\n\n"@,
            BuildType::BuildRustPackage => "\";\n\n"@,
            _ => "\";\n  };\n\n"@,
        };
        assert(whole =~= (head + before) + hash + after);
        lemma_part(head + before, hash, after);
    }
}

/// An argument of the package, on a line of its own.
pub open spec fn argument(name: Seq<char>) -> Seq<char> {
    ", "@ + name + "\n"@
}

/// An attribute of the derivation, on a line of its own.
pub open spec fn line(name: Seq<char>, value: Seq<char>) -> Seq<char> {
    "  "@ + name + " = "@ + value + ";\n"@
}

/// The first arguments are what the builder comes from and the fetcher.
pub proof fn law_first_arguments(fetcher: Seq<char>)
    ensures
        arguments_text(BuildType::BuildGoModule, fetcher) == argument("buildGoModule"@) + argument(
            fetcher,
        ),
        arguments_text(BuildType::BuildRustPackage, fetcher) == argument("rustPlatform"@)
            + argument(fetcher),
        arguments_text(BuildType::MkDerivation, fetcher) == argument("stdenv"@) + argument(fetcher),
        arguments_text(BuildType::MkDerivationCargo, fetcher) == argument("stdenv"@) + argument(
            fetcher,
        ),
{
    reveal_strlit(", ");
    reveal_strlit("\n");
    reveal_strlit("buildGoModule");
    reveal_strlit("rustPlatform");
    reveal_strlit("stdenv");
    reveal_strlit(", buildGoModule\n");
    reveal_strlit(", rustPlatform\n");
    reveal_strlit(", stdenv\n");
    assert(", buildGoModule\n"@ =~= argument("buildGoModule"@));
    assert(", rustPlatform\n"@ =~= argument("rustPlatform"@));
    assert(", stdenv\n"@ =~= argument("stdenv"@));
    assert(arguments_text(BuildType::BuildGoModule, fetcher) =~= argument("buildGoModule"@)
        + argument(fetcher));
    assert(arguments_text(BuildType::BuildRustPackage, fetcher) =~= argument("rustPlatform"@)
        + argument(fetcher));
    assert(arguments_text(BuildType::MkDerivation, fetcher) =~= argument("stdenv"@) + argument(
        fetcher,
    ));
    assert(arguments_text(BuildType::MkDerivationCargo, fetcher) =~= argument("stdenv"@)
        + argument(fetcher));
}

/// The derivation is a call of the builder with a line for the name, one for the version and one for
/// the source, as they are.
pub proof fn law_lines_of_the_derivation(
    builder: Seq<char>,
    pname: Seq<char>,
    version: Seq<char>,
    src_expr: Seq<char>,
)
    ensures
        derivation_text(builder, pname, version, src_expr) == "}:\n\n"@ + builder + " rec {\n"@
            + line("pname"@, pname) + line("version"@, version) + "\n"@ + line("src"@, src_expr)
            + "\n"@,
{
    reveal_strlit("  ");
    reveal_strlit(" = ");
    reveal_strlit(";\n");
    reveal_strlit("\n");
    reveal_strlit("pname");
    reveal_strlit("version");
    reveal_strlit("src");
    reveal_strlit(" rec {\n");
    reveal_strlit(" rec {\n  pname = ");
    reveal_strlit(";\n  version = ");
    reveal_strlit(";\n\n  src = ");
    reveal_strlit(";\n\n");
    assert(" rec {\n  pname = "@ =~= " rec {\n"@ + "  "@ + "pname"@ + " = "@);
    assert(";\n  version = "@ =~= ";\n"@ + "  "@ + "version"@ + " = "@);
    assert(";\n\n  src = "@ =~= ";\n"@ + "\n"@ + "  "@ + "src"@ + " = "@);
    assert(";\n\n"@ =~= ";\n"@ + "\n"@);
    assert(derivation_text(builder, pname, version, src_expr) =~= "}:\n\n"@ + builder
        + " rec {\n"@ + line("pname"@, pname) + line("version"@, version) + "\n"@ + line(
        "src"@,
        src_expr,
    ) + "\n"@);
}

/// After the source comes what fixes the dependencies: for a Go module the vendor hash, for a Cargo
/// package the hash in quotes, for a derivation with crates their derivation with the hash in
/// quotes, and for a plain derivation nothing.
pub proof fn law_derivation_by_builder(
    pname: Seq<char>,
    version: Seq<char>,
    src_expr: Seq<char>,
    hash: Seq<char>,
)
    ensures
        body_text(BuildType::BuildGoModule, pname, version, src_expr, hash) == derivation_text(
            "buildGoModule"@,
            pname,
            version,
            src_expr,
        ) + line("vendorHash"@, hash) + "\n"@,
        body_text(BuildType::BuildRustPackage, pname, version, src_expr, hash) == derivation_text(
            "rustPlatform.buildRustPackage"@,
            pname,
            version,
            src_expr,
        ) + line("cargoHash"@, "\""@ + hash + "\""@) + "\n"@,
        body_text(BuildType::MkDerivation, pname, version, src_expr, hash) == derivation_text(
            "stdenv.mkDerivation"@,
            pname,
            version,
            src_expr,
        ),
        body_text(BuildType::MkDerivationCargo, pname, version, src_expr, hash) == derivation_text(
            "stdenv.mkDerivation"@,
            pname,
            version,
            src_expr,
        ) + "  cargoDeps = rustPlatform.fetchCargoTarball {\n"@ + "    inherit src;\n"@ + "  "@
            + line("name"@, "\"${pname}-${version}\""@) + "  "@ + line(
            "hash"@,
            "\""@ + hash + "\""@,
        ) + "  };\n\n"@,
{
    let head = |builder: Seq<char>| derivation_text(builder, pname, version, src_expr);
    reveal_strlit("  ");
    reveal_strlit(" = ");
    reveal_strlit(";\n");
    reveal_strlit("\n");
    reveal_strlit("\"");
    reveal_strlit("vendorHash");
    reveal_strlit("cargoHash");
    reveal_strlit("hash");
    reveal_strlit("  vendorHash = ");
    reveal_strlit("  cargoHash = \"");
    reveal_strlit(";\n\n");
    reveal_strlit("\";\n\n");
    reveal_strlit("\";\n  };\n\n");
    reveal_strlit("  };\n\n");
    assert(";\n\n"@ =~= ";\n"@ + "\n"@);
    assert("\";\n\n"@ =~= "\""@ + ";\n"@ + "\n"@);
    assert("  vendorHash = "@ =~= "  "@ + "vendorHash"@ + " = "@);
    assert("  cargoHash = \""@ =~= "  "@ + "cargoHash"@ + " = "@ + "\""@);
    assert("\";\n  };\n\n"@ =~= "\""@ + ";\n"@ + "  };\n\n"@);
    assert(body_text(BuildType::BuildGoModule, pname, version, src_expr, hash) =~= head(
        "buildGoModule"@,
    ) + line("vendorHash"@, hash) + "\n"@);
    assert(body_text(BuildType::BuildRustPackage, pname, version, src_expr, hash) =~= head(
        "rustPlatform.buildRustPackage"@,
    ) + line("cargoHash"@, "\""@ + hash + "\""@) + "\n"@);
    assert(body_text(BuildType::MkDerivation, pname, version, src_expr, hash) =~= head(
        "stdenv.mkDerivation"@,
    ));
    lemma_crates_lines();
    let plain = head("stdenv.mkDerivation"@);
    let crates = "  cargoDeps = rustPlatform.fetchCargoTarball {\n"@;
    let inherit = "    inherit src;\n"@;
    let name = line("name"@, "\"${pname}-${version}\""@);
    assert(body_text(BuildType::MkDerivationCargo, pname, version, src_expr, hash) =~= plain + (
    crates + inherit + "  "@ + name + "  "@ + "  "@ + "hash"@ + " = "@ + "\""@) + hash + ("\""@
        + ";\n"@ + "  };\n\n"@));
    assert(plain + (crates + inherit + "  "@ + name + "  "@ + "  "@ + "hash"@ + " = "@ + "\""@)
        + hash + ("\""@ + ";\n"@ + "  };\n\n"@) =~= plain + crates + inherit + "  "@ + name
        + "  "@ + line("hash"@, "\""@ + hash + "\""@) + "  };\n\n"@);
}

/// The lines that open the derivation of vendored crates.
proof fn lemma_crates_lines()
    ensures
        "  cargoDeps = rustPlatform.fetchCargoTarball {\n    inherit src;\n    name = \"${pname}-${version}\";\n    hash = \""@
            == "  cargoDeps = rustPlatform.fetchCargoTarball {\n"@ + "    inherit src;\n"@ + "  "@
            + line("name"@, "\"${pname}-${version}\""@) + "  "@ + "  "@ + "hash"@ + " = "@ + "\""@,
{
    reveal_strlit(
        "  cargoDeps = rustPlatform.fetchCargoTarball {\n    inherit src;\n    name = \"${pname}-${version}\";\n    hash = \"",
    );
    reveal_strlit("  cargoDeps = rustPlatform.fetchCargoTarball {\n");
    reveal_strlit("    inherit src;\n");
    reveal_strlit("  ");
    reveal_strlit("name");
    reveal_strlit(" = ");
    reveal_strlit("\"${pname}-${version}\"");
    reveal_strlit(";\n");
    reveal_strlit("hash");
    reveal_strlit("\"");
    assert("  cargoDeps = rustPlatform.fetchCargoTarball {\n    inherit src;\n    name = \"${pname}-${version}\";\n    hash = \""@
        =~= "  cargoDeps = rustPlatform.fetchCargoTarball {\n"@ + "    inherit src;\n"@ + "  "@
        + line("name"@, "\"${pname}-${version}\""@) + "  "@ + "  "@ + "hash"@ + " = "@ + "\""@);
}

/// The meta data say the description and the home page as they are, then the license.
pub proof fn law_lines_of_the_meta_data(description: Seq<char>, url: Seq<char>)
    ensures
        meta_text(description, url) == "  meta = with lib; {\n"@ + "  "@ + line(
            "description"@,
            description,
        ) + "  "@ + line("homepage"@, url) + "    license = "@,
{
    reveal_strlit("  meta = with lib; {\n    description = ");
    reveal_strlit("  meta = with lib; {\n");
    reveal_strlit("  ");
    reveal_strlit("description");
    reveal_strlit(" = ");
    reveal_strlit(";\n");
    reveal_strlit("homepage");
    reveal_strlit(";\n    homepage = ");
    reveal_strlit(";\n    license = ");
    reveal_strlit("    license = ");
    assert("  meta = with lib; {\n    description = "@ =~= "  meta = with lib; {\n"@ + "  "@
        + "  "@ + "description"@ + " = "@);
    assert(";\n    homepage = "@ =~= ";\n"@ + "  "@ + "  "@ + "homepage"@ + " = "@);
    assert(";\n    license = "@ =~= ";\n"@ + "    license = "@);
    assert(meta_text(description, url) =~= "  meta = with lib; {\n"@ + "  "@ + line(
        "description"@,
        description,
    ) + "  "@ + line("homepage"@, url) + "    license = "@);
}

/// After the license, which may be left out, comes an empty list of maintainers, and all is closed.
pub proof fn law_end_of_the_package(license: Seq<char>)
    ensures
        back_text(Some(license)) == license + back_text(None),
        back_text(None) == ";\n"@ + "  "@ + line("maintainers"@, "with maintainers; [ ]"@)
            + "  };\n"@ + "}\n"@,
{
    reveal_strlit(";\n    maintainers = with maintainers; [ ];\n  };\n}\n");
    reveal_strlit(";\n");
    reveal_strlit("  ");
    reveal_strlit("maintainers");
    reveal_strlit(" = ");
    reveal_strlit("with maintainers; [ ]");
    reveal_strlit("  };\n");
    reveal_strlit("}\n");
    assert(";\n    maintainers = with maintainers; [ ];\n  };\n}\n"@ =~= ";\n"@ + "  "@ + line(
        "maintainers"@,
        "with maintainers; [ ]"@,
    ) + "  };\n"@ + "}\n"@);
}

/// The package holds all its pieces, one after the other, whatever the way to build: the arguments,
/// those that the inputs add, the derivation, the lists of inputs, the meta data and the license.
pub proof fn law_package_holds_its_pieces(
    choice: BuildType,
    fetcher: Seq<char>,
    lambda_inputs: Seq<char>,
    pname: Seq<char>,
    version: Seq<char>,
    src_expr: Seq<char>,
    hash: Seq<char>,
    sections: Seq<char>,
    description: Seq<char>,
    url: Seq<char>,
    license: Option<Seq<char>>,
)
    ensures
        ({
            let package = package_text(
                choice,
                fetcher,
                lambda_inputs,
                pname,
                version,
                src_expr,
                hash,
                sections,
                description,
                url,
                license,
            );
            let body = body_text(choice, pname, version, src_expr, hash);
            let meta = meta_text(description, url);
            &&& package == "{ lib\n"@ + arguments_text(choice, fetcher) + lambda_inputs + body
                + sections + meta + back_text(license)
            &&& has_part(package, arguments_text(choice, fetcher) + lambda_inputs + body)
            &&& has_part(package, body + sections + meta)
            &&& license matches Some(value) ==> has_part(package, meta + value + ";\n"@)
        }),
{
    let arguments = arguments_text(choice, fetcher);
    let body = body_text(choice, pname, version, src_expr, hash);
    let meta = meta_text(description, url);
    let back = back_text(license);
    let package = package_text(
        choice,
        fetcher,
        lambda_inputs,
        pname,
        version,
        src_expr,
        hash,
        sections,
        description,
        url,
        license,
    );
    let open = "{ lib\n"@;
    assert(package =~= open + arguments + lambda_inputs + body + sections + meta + back);
    assert(package =~= open + (arguments + lambda_inputs + body) + (sections + meta + back));
    lemma_part(open, arguments + lambda_inputs + body, sections + meta + back);
    assert(package =~= (open + arguments + lambda_inputs) + (body + sections + meta) + back);
    lemma_part(open + arguments + lambda_inputs, body + sections + meta, back);
    if let Some(value) = license {
        law_end_of_the_package(value);
        let rest = "  "@ + line("maintainers"@, "with maintainers; [ ]"@) + "  };\n"@ + "}\n"@;
        assert(back =~= value + ";\n"@ + rest);
        assert(package =~= (open + arguments + lambda_inputs + body + sections) + (meta + value
            + ";\n"@) + rest);
        lemma_part(open + arguments + lambda_inputs + body + sections, meta + value + ";\n"@, rest);
    }
}

/// A hash that was found is written as it is, and the fake one where none was. A Go module has it in
/// quotes, or none at all where the dependencies are in the source. A Cargo package without a lock
/// file has the fake one.
pub proof fn law_hashes_are_written(found: Option<Seq<char>>, hash: Seq<char>)
    ensures
        vendor_hash_text(true, found) == "null"@,
        vendor_hash_text(false, Some(hash)) == "\""@ + hash + "\""@,
        vendor_hash_text(false, None) == "\""@ + FAKE_HASH@ + "\""@,
        cargo_hash_text(true, Some(hash)) == hash,
        cargo_hash_text(true, None) == FAKE_HASH@,
        cargo_hash_text(false, found) == FAKE_HASH@,
{
}

/// A description loses the white space around it and then one full stop at its end, and nothing
/// else.
pub proof fn law_descriptions_are_cleaned(
    before: Seq<char>,
    description: Seq<char>,
    after: Seq<char>,
)
    requires
        all_white(before),
        all_white(after),
        description.len() > 0 ==> !is_white_space(description[0]),
    ensures
        plain_description(before + description + "."@ + after) == description,
        description.len() == 0 || (!is_white_space(description.last()) && description.last()
            != '.') ==> plain_description(before + description + after) == description,
{
    reveal_strlit(".");
    let dotted = description + "."@;
    assert(before + description + "."@ + after =~= before + dotted + after);
    law_white_space_around_is_dropped(before, dotted, after);
    law_affixes("."@, description, description);
    if description.len() == 0 || (!is_white_space(description.last()) && description.last()
        != '.') {
        law_white_space_around_is_dropped(before, description, after);
        if "."@.is_suffix_of(description) {
            assert(description.subrange(
                description.len() - 1,
                description.len() as int,
            )[0] == description.last());
        }
    }
}

/// The argument that the inputs need not add is the one that Cargo packages and Go modules, or plain
/// derivations, have.
pub proof fn law_written_arguments()
    ensures
        written_text(BuildType::BuildGoModule) == "rustPlatform"@,
        written_text(BuildType::BuildRustPackage) == "rustPlatform"@,
        written_text(BuildType::MkDerivation) == "stdenv"@,
        written_text(BuildType::MkDerivationCargo) == "stdenv"@,
{
}

} // verus!
