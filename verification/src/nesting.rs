//! Braces: the package opens and closes them in pairs.
use vstd::prelude::*;

use crate::builder::BuildType;
use crate::render::{
    arguments_text, back_text, body_text, builder_text, called_builder, dependencies_text,
    derivation_text, front_text, meta_text, package_text,
};
use crate::text::{is_plain, literal_text};

verus! {

/// How deep in braces the first `n` characters of `s` lead from depth `d`, if they never close a
/// brace that is not open.
pub open spec fn depth_upto(s: Seq<char>, n: nat, d: int) -> Option<int>
    decreases n,
{
    if n == 0 {
        Some(d)
    } else {
        match depth_upto(s, (n - 1) as nat, d) {
            Some(e) => if s[n - 1] == '{' {
                Some(e + 1)
            } else if s[n - 1] != '}' {
                Some(e)
            } else if e > 0 {
                Some(e - 1)
            } else {
                None
            },
            None => None,
        }
    }
}

/// How deep in braces `s` leads from depth `d`, if it never closes a brace that is not open.
pub open spec fn depth_after(s: Seq<char>, d: int) -> Option<int> {
    depth_upto(s, s.len(), d)
}

/// Tells whether the braces of a text are closed as they are opened.
pub open spec fn well_nested(s: Seq<char>) -> bool {
    depth_after(s, 0) == Some(0int)
}

/// Where the fixed texts of the arguments lead.
proof fn lemma_arguments_texts(d: int)
    requires
        d >= 0,
    ensures
        depth_after("{ lib\n"@, d) == Some(d + 1),
        depth_after(", buildGoModule\n"@, d) == Some(d),
        depth_after(", rustPlatform\n"@, d) == Some(d),
        depth_after(", stdenv\n"@, d) == Some(d),
        depth_after(", "@, d) == Some(d),
        depth_after("\n"@, d) == Some(d),
{
    reveal_strlit("{ lib\n");
    reveal_strlit(", buildGoModule\n");
    reveal_strlit(", rustPlatform\n");
    reveal_strlit(", stdenv\n");
    reveal_strlit(", ");
    reveal_strlit("\n");
    reveal_with_fuel(depth_upto, 17);
}

/// Where the fixed texts of the derivation lead.
proof fn lemma_derivation_texts(d: int)
    requires
        d >= 1,
    ensures
        depth_after("}:\n\n"@, d) == Some(d - 1),
        depth_after(";\n  version = "@, d) == Some(d),
        depth_after(";\n\n  src = "@, d) == Some(d),
        depth_after(";\n\n"@, d) == Some(d),
{
    reveal_strlit("}:\n\n");
    reveal_strlit(";\n  version = ");
    reveal_strlit(";\n\n  src = ");
    reveal_strlit(";\n\n");
    reveal_with_fuel(depth_upto, 30);
}

/// Where the names of the builders lead.
proof fn lemma_builder_names(d: int)
    ensures
        depth_after("buildGoModule"@, d) == Some(d),
        depth_after("rustPlatform.buildRustPackage"@, d) == Some(d),
        depth_after("stdenv.mkDerivation"@, d) == Some(d),
{
    reveal_strlit("buildGoModule");
    reveal_strlit("rustPlatform.buildRustPackage");
    reveal_strlit("stdenv.mkDerivation");
    reveal_with_fuel(depth_upto, 30);
}

/// Where the text that opens the derivation leads.
proof fn lemma_rec_text(d: int)
    ensures
        depth_after(" rec {\n  pname = "@, d) == Some(d + 1),
{
    reveal_strlit(" rec {\n  pname = ");
    reveal_with_fuel(depth_upto, 18);
}

/// Where the fixed texts of the dependencies lead.
proof fn lemma_dependencies_texts(d: int)
    requires
        d >= 1,
    ensures
        depth_after("  vendorHash = "@, d) == Some(d),
        depth_after("  cargoHash = \""@, d) == Some(d),
        depth_after("\";\n\n"@, d) == Some(d),
        depth_after("\";\n  };\n\n"@, d) == Some(d - 1),
{
    reveal_strlit("  vendorHash = ");
    reveal_strlit("  cargoHash = \"");
    reveal_strlit("\";\n\n");
    reveal_strlit("\";\n  };\n\n");
    reveal_with_fuel(depth_upto, 16);
}

/// Where the fixed texts of the meta lead.
proof fn lemma_meta_texts(d: int)
    requires
        d >= 0,
    ensures
        depth_after("  meta = with lib; {\n    description = "@, d) == Some(d + 1),
        depth_after(";\n    homepage = "@, d) == Some(d),
        depth_after(";\n    license = "@, d) == Some(d),
{
    reveal_strlit("  meta = with lib; {\n    description = ");
    reveal_strlit(";\n    homepage = ");
    reveal_strlit(";\n    license = ");
    reveal_with_fuel(depth_upto, 40);
}

/// Where the text that opens the vendored crates leads.
proof fn lemma_crates_text(d: int)
    requires
        d >= 0,
    ensures
        depth_after(
            "  cargoDeps = rustPlatform.fetchCargoTarball {\n    inherit src;\n    name = \"${pname}-${version}\";\n    hash = \""@,
            d,
        ) == Some(d + 1),
{
    let s =
        "  cargoDeps = rustPlatform.fetchCargoTarball {\n    inherit src;\n    name = \"${pname}-${version}\";\n    hash = \""@;
    reveal_strlit(
        "  cargoDeps = rustPlatform.fetchCargoTarball {\n    inherit src;\n    name = \"${pname}-${version}\";\n    hash = \"",
    );
    reveal_with_fuel(depth_upto, 60);
    assert(depth_upto(s, 50, d) == Some(d + 1));
    assert(depth_upto(s, 100, d) == Some(d + 1));
}

/// Where the end of the package leads.
proof fn lemma_closing_text(d: int)
    requires
        d >= 2,
    ensures
        depth_after(";\n    maintainers = with maintainers; [ ];\n  };\n}\n"@, d) == Some(d - 2),
{
    reveal_strlit(";\n    maintainers = with maintainers; [ ];\n  };\n}\n");
    reveal_with_fuel(depth_upto, 51);
}

proof fn lemma_upto_prefix(a: Seq<char>, b: Seq<char>, n: nat, d: int)
    requires
        n <= a.len(),
    ensures
        depth_upto(a + b, n, d) == depth_upto(a, n, d),
    decreases n,
{
    if n > 0 {
        lemma_upto_prefix(a, b, (n - 1) as nat, d);
    }
}

proof fn lemma_upto_concat(a: Seq<char>, b: Seq<char>, n: nat, d: int, e: int)
    requires
        n <= b.len(),
        depth_after(a, d) == Some(e),
    ensures
        depth_upto(a + b, a.len() + n, d) == depth_upto(b, n, e),
    decreases n,
{
    if n == 0 {
        lemma_upto_prefix(a, b, a.len(), d);
    } else {
        lemma_upto_concat(a, b, (n - 1) as nat, d, e);
        assert((a + b)[a.len() + n - 1] == b[n - 1]);
    }
}

/// One text after another leads where the second leads from where the first leads.
proof fn lemma_concat(a: Seq<char>, b: Seq<char>, d: int, e: int, f: int)
    requires
        depth_after(a, d) == Some(e),
        depth_after(b, e) == Some(f),
    ensures
        depth_after(a + b, d) == Some(f),
{
    lemma_upto_concat(a, b, b.len(), d, e);
}

proof fn lemma_shift(s: Seq<char>, n: nat, d: int, e: int, k: int)
    requires
        k >= 0,
        depth_upto(s, n, d) == Some(e),
    ensures
        depth_upto(s, n, d + k) == Some(e + k),
    decreases n,
{
    if n > 0 {
        let before = depth_upto(s, (n - 1) as nat, d)->0;
        lemma_shift(s, (n - 1) as nat, d, before, k);
    }
}

/// A well-nested text leads from every depth back to it.
proof fn lemma_nested(s: Seq<char>, d: int)
    requires
        well_nested(s),
        d >= 0,
    ensures
        depth_after(s, d) == Some(d),
{
    lemma_shift(s, s.len(), 0, 0, d);
}

proof fn lemma_arguments(choice: BuildType, fetcher: Seq<char>)
    requires
        well_nested(fetcher),
    ensures
        depth_after(arguments_text(choice, fetcher), 1) == Some(1int),
{
    let b = builder_text(choice);
    lemma_arguments_texts(1);
    lemma_nested(fetcher, 1);
    lemma_concat(b, ", "@, 1, 1, 1);
    lemma_concat(b + ", "@, fetcher, 1, 1, 1);
    lemma_concat(b + ", "@ + fetcher, "\n"@, 1, 1, 1);
}

proof fn lemma_derivation(
    choice: BuildType,
    pname: Seq<char>,
    version: Seq<char>,
    src_expr: Seq<char>,
)
    requires
        well_nested(pname),
        well_nested(version),
        well_nested(src_expr),
    ensures
        depth_after(derivation_text(called_builder(choice), pname, version, src_expr), 1) == Some(
            1int,
        ),
{
    lemma_derivation_texts(1);
    lemma_nested(pname, 1);
    lemma_nested(version, 1);
    lemma_nested(src_expr, 1);
    lemma_builder_names(0);
    let a = "}:\n\n"@;
    let b = a + called_builder(choice);
    lemma_concat(a, called_builder(choice), 1, 0, 0);
    lemma_rec_text(0);
    let c = b + " rec {\n  pname = "@;
    lemma_concat(b, " rec {\n  pname = "@, 1, 0, 1);
    lemma_concat(c, pname, 1, 1, 1);
    let e = c + pname + ";\n  version = "@;
    lemma_concat(c + pname, ";\n  version = "@, 1, 1, 1);
    lemma_concat(e, version, 1, 1, 1);
    let f = e + version + ";\n\n  src = "@;
    lemma_concat(e + version, ";\n\n  src = "@, 1, 1, 1);
    lemma_concat(f, src_expr, 1, 1, 1);
    lemma_concat(f + src_expr, ";\n\n"@, 1, 1, 1);
}

proof fn lemma_dependencies(choice: BuildType, hash: Seq<char>)
    requires
        well_nested(hash),
    ensures
        depth_after(dependencies_text(choice, hash), 1) == Some(1int),
{
    lemma_nested(hash, 1);
    lemma_nested(hash, 2);
    lemma_dependencies_texts(1);
    lemma_dependencies_texts(2);
    lemma_derivation_texts(1);
    match choice {
        BuildType::BuildGoModule => {
            lemma_concat("  vendorHash = "@, hash, 1, 1, 1);
            lemma_concat("  vendorHash = "@ + hash, ";\n\n"@, 1, 1, 1);
        },
        BuildType::BuildRustPackage => {
            lemma_concat("  cargoHash = \""@, hash, 1, 1, 1);
            lemma_concat("  cargoHash = \""@ + hash, "\";\n\n"@, 1, 1, 1);
        },
        BuildType::MkDerivation => {},
        BuildType::MkDerivationCargo => {
            let a =
                "  cargoDeps = rustPlatform.fetchCargoTarball {\n    inherit src;\n    name = \"${pname}-${version}\";\n    hash = \""@;
            lemma_crates_text(1);
            lemma_concat(a, hash, 1, 2, 2);
            lemma_concat(a + hash, "\";\n  };\n\n"@, 1, 2, 1);
        },
    }
}

proof fn lemma_meta(description: Seq<char>, url: Seq<char>)
    requires
        well_nested(description),
        well_nested(url),
    ensures
        depth_after(meta_text(description, url), 1) == Some(2int),
{
    lemma_meta_texts(1);
    lemma_meta_texts(2);
    lemma_nested(description, 2);
    lemma_nested(url, 2);
    let a = "  meta = with lib; {\n    description = "@;
    lemma_concat(a, description, 1, 2, 2);
    lemma_concat(a + description, ";\n    homepage = "@, 1, 2, 2);
    let b = a + description + ";\n    homepage = "@;
    lemma_concat(b, url, 1, 2, 2);
    lemma_concat(b + url, ";\n    license = "@, 1, 2, 2);
}

/// A text without braces closes them as it opens them.
pub proof fn law_text_without_braces_is_well_nested(s: Seq<char>)
    requires
        forall|i: int| 0 <= i < s.len() ==> #[trigger] s[i] != '{' && s[i] != '}',
    ensures
        well_nested(s),
{
    lemma_no_braces(s, s.len());
}

proof fn lemma_no_braces(s: Seq<char>, n: nat)
    requires
        n <= s.len(),
        forall|i: int| 0 <= i < s.len() ==> #[trigger] s[i] != '{' && s[i] != '}',
    ensures
        depth_upto(s, n, 0) == Some(0int),
    decreases n,
{
    if n > 0 {
        lemma_no_braces(s, (n - 1) as nat);
    }
}

/// A plain text that closes its braces as it opens them does so as a string literal too.
pub proof fn law_literal_is_well_nested(s: Seq<char>)
    requires
        is_plain(s),
        well_nested(s),
    ensures
        well_nested(literal_text(s)),
{
    reveal_strlit("\"");
    law_text_without_braces_is_well_nested("\""@);
    lemma_concat("\""@, s, 0, 0, 0);
    lemma_concat("\""@ + s, "\""@, 0, 0, 0);
}

/// Where what is put into it closes its braces as it opens them, so does the package.
pub proof fn law_package_is_well_nested(
    choice: BuildType,
    fetcher: Seq<char>,
    lambda_inputs: Seq<char>,
    pname: Seq<char>,
    version: Seq<char>,
    src_expr: Seq<char>,
    hash: Seq<char>,
    sections: Seq<char>,
    description: Seq<char>,
    url: Seq<char>,
    license: Option<Seq<char>>,
)
    requires
        well_nested(fetcher),
        well_nested(lambda_inputs),
        well_nested(pname),
        well_nested(version),
        well_nested(src_expr),
        well_nested(hash),
        well_nested(sections),
        well_nested(description),
        well_nested(url),
        license matches Some(value) ==> well_nested(value),
    ensures
        well_nested(
            package_text(
                choice,
                fetcher,
                lambda_inputs,
                pname,
                version,
                src_expr,
                hash,
                sections,
                description,
                url,
                license,
            ),
        ),
{
    let body = body_text(choice, pname, version, src_expr, hash);
    let head = derivation_text(called_builder(choice), pname, version, src_expr);
    let front = front_text(lambda_inputs, body, sections, meta_text(description, url));
    lemma_arguments_texts(0);
    lemma_arguments(choice, fetcher);
    lemma_nested(lambda_inputs, 1);
    lemma_derivation(choice, pname, version, src_expr);
    lemma_dependencies(choice, hash);
    lemma_concat(head, dependencies_text(choice, hash), 1, 1, 1);
    lemma_nested(sections, 1);
    lemma_meta(description, url);
    lemma_concat(lambda_inputs, body, 1, 1, 1);
    lemma_concat(lambda_inputs + body, sections, 1, 1, 1);
    lemma_concat(lambda_inputs + body + sections, meta_text(description, url), 1, 1, 2);
    lemma_closing_text(2);
    if let Some(value) = license {
        lemma_nested(value, 2);
        lemma_concat(value, ";\n    maintainers = with maintainers; [ ];\n  };\n}\n"@, 2, 2, 0);
    }
    let a = "{ lib\n"@ + arguments_text(choice, fetcher);
    lemma_concat("{ lib\n"@, arguments_text(choice, fetcher), 0, 1, 1);
    lemma_concat(a, front, 0, 1, 2);
    lemma_concat(a + front, back_text(license), 0, 2, 0);
}

} // verus!
