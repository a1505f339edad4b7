use nix_init::builder::{
    build_choices, build_label, initial_inputs, select_build, BuildFiles, BuildType, Inputs,
};

fn files(cargo: bool, cmake: bool, go: bool, meson: bool) -> BuildFiles {
    BuildFiles {
        cargo,
        cmake,
        go,
        meson,
    }
}

#[test]
fn offers_the_ways_to_build() {
    assert_eq!(build_choices(files(false, true, false, true)), [BuildType::MkDerivation]);
    assert_eq!(
        build_choices(files(true, false, false, false)),
        [BuildType::BuildRustPackage, BuildType::MkDerivationCargo, BuildType::MkDerivation]
    );
    assert_eq!(
        build_choices(files(true, false, true, true)),
        [BuildType::MkDerivationCargo, BuildType::BuildRustPackage, BuildType::BuildGoModule, BuildType::MkDerivation]
    );
    assert_eq!(
        build_choices(files(false, false, true, false)),
        [BuildType::BuildGoModule, BuildType::MkDerivation]
    );
}

#[test]
fn labels_the_ways_to_build() {
    assert_eq!(build_label(BuildType::BuildGoModule), "buildGoModule");
    assert_eq!(
        build_label(BuildType::BuildRustPackage),
        "rustPlatform.buildRustPackage"
    );
    assert_eq!(build_label(BuildType::MkDerivation), "stdenv.mkDerivation");
    assert_eq!(
        build_label(BuildType::MkDerivationCargo),
        "stdenv.mkDerivation + rustPlatform.cargoSetupHook"
    );
}

#[test]
fn every_choice_can_be_taken() {
    let choices = build_choices(files(true, true, true, true));
    for i in 0..choices.len() {
        assert_eq!(select_build(&choices, &i.to_string()), choices[i]);
    }
    assert_eq!(select_build(&choices, "+1"), choices[1]);
}

#[test]
fn other_answers_take_the_first_choice() {
    let choices = build_choices(files(true, false, false, false));
    for answer in ["", "x", "3", "-1", " 1", "stdenv.mkDerivation"] {
        assert_eq!(select_build(&choices, answer), choices[0]);
    }
}

#[test]
fn asks_for_tools() {
    let native = |choice, files| initial_inputs(choice, files).native_build_inputs.always;
    let all = files(true, true, true, true);
    let none = files(false, false, false, false);
    assert!(native(BuildType::BuildGoModule, all).is_empty());
    assert!(native(BuildType::BuildRustPackage, all).is_empty());
    assert_eq!(
        native(BuildType::MkDerivation, all),
        ["cargo", "rustc", "cmake", "meson", "ninja"]
    );
    assert!(native(BuildType::MkDerivation, none).is_empty());
    assert_eq!(
        native(BuildType::MkDerivationCargo, all),
        [
            "cmake",
            "meson",
            "ninja",
            "rustPlatform.cargoSetupHook",
            "rustPlatform.rust.cargo",
            "rustPlatform.rust.rustc"
        ]
    );
    assert_eq!(
        native(BuildType::MkDerivationCargo, files(true, false, false, false)).len(),
        3
    );
    assert!(initial_inputs(BuildType::MkDerivation, all)
        .build_inputs
        .always
        .is_empty());
}

#[test]
fn inputs_occur_once() {
    let mut inputs = Inputs::new();
    inputs.insert("a".to_string());
    inputs.insert("b".to_string());
    inputs.insert("a".to_string());
    inputs.extend(&vec!["c".to_string(), "b".to_string(), "c".to_string()]);
    assert_eq!(inputs.always, ["a", "b", "c"]);
    assert!(inputs.contains(&"c".to_string()));
    assert!(!inputs.contains(&"d".to_string()));
}
