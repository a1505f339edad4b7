//! Which builder packages the source, and what the builder needs.
use vstd::prelude::*;

use crate::command::words;
use crate::text::{all_digits, digits_value, parse_number, written_number};

verus! {

/// A way to build the package.
#[derive(Clone, Copy, Debug, PartialEq, Eq, Structural)]
pub enum BuildType {
    BuildGoModule,
    BuildRustPackage,
    MkDerivation,
    MkDerivationCargo,
}

/// The build files that stand at the top of the source.
#[derive(Clone, Copy, Debug, PartialEq, Eq, Structural)]
pub struct BuildFiles {
    /// `Cargo.toml`
    pub cargo: bool,
    /// `CMakeLists.txt`
    pub cmake: bool,
    /// `go.mod`
    pub go: bool,
    /// `meson.build`
    pub meson: bool,
}

/// The ways to build that the build files leave open, the likeliest first.
pub open spec fn offered(files: BuildFiles) -> Seq<BuildType> {
    let cargo = if files.cargo && files.meson {
        seq![BuildType::MkDerivationCargo, BuildType::BuildRustPackage]
    } else if files.cargo {
        seq![BuildType::BuildRustPackage, BuildType::MkDerivationCargo]
    } else {
        Seq::empty()
    };
    let go = if files.go {
        seq![BuildType::BuildGoModule]
    } else {
        Seq::empty()
    };
    cargo + go + seq![BuildType::MkDerivation]
}

/// What a way to build is called.
pub open spec fn label_text(choice: BuildType) -> Seq<char> {
    match choice {
        BuildType::BuildGoModule => "buildGoModule"@,
        BuildType::BuildRustPackage => "rustPlatform.buildRustPackage"@,
        BuildType::MkDerivation => "stdenv.mkDerivation"@,
        BuildType::MkDerivationCargo => "stdenv.mkDerivation + rustPlatform.cargoSetupHook"@,
    }
}

/// The choice that an answer makes: the one that it gives the index of, or the first.
pub open spec fn selected(choices: Seq<BuildType>, answer: Seq<char>) -> BuildType {
    match written_number(answer) {
        Some(i) => if i < choices.len() {
            choices[i as int]
        } else {
            choices[0]
        },
        None => choices[0],
    }
}

/// The ways to build that the build files leave open, the likeliest first.
pub fn build_choices(files: BuildFiles) -> (r: Vec<BuildType>)
    ensures
        r@ == offered(files),
{
    let mut choices: Vec<BuildType> = Vec::new();
    if files.cargo {
        if files.meson {
            choices.push(BuildType::MkDerivationCargo);
            choices.push(BuildType::BuildRustPackage);
        } else {
            choices.push(BuildType::BuildRustPackage);
            choices.push(BuildType::MkDerivationCargo);
        }
    }
    if files.go {
        choices.push(BuildType::BuildGoModule);
    }
    choices.push(BuildType::MkDerivation);
    assert(choices@ =~= offered(files));
    choices
}

/// What a way to build is called.
pub fn build_label(choice: BuildType) -> (r: &'static str)
    ensures
        r@ == label_text(choice),
{
    match choice {
        BuildType::BuildGoModule => "buildGoModule",
        BuildType::BuildRustPackage => "rustPlatform.buildRustPackage",
        BuildType::MkDerivation => "stdenv.mkDerivation",
        BuildType::MkDerivationCargo => "stdenv.mkDerivation + rustPlatform.cargoSetupHook",
    }
}

/// The choice that an answer makes: the one that it gives the index of, or the first.
pub fn select_build(choices: &Vec<BuildType>, answer: &str) -> (r: BuildType)
    requires
        choices.len() > 0,
    ensures
        r == selected(choices@, answer@),
{
    match parse_number(answer) {
        Some(i) => {
            if i < choices.len() {
                choices[i]
            } else {
                choices[0]
            }
        },
        None => choices[0],
    }
}

/// A set of package inputs, in the order in which they came.
#[derive(Debug)]
pub struct Inputs {
    pub always: Vec<String>,
}

/// A list of distinct inputs with one more.
pub open spec fn with_input(list: Seq<Seq<char>>, input: Seq<char>) -> Seq<Seq<char>> {
    if list.contains(input) {
        list
    } else {
        list.push(input)
    }
}

/// A list of distinct inputs with those of another list.
pub open spec fn with_inputs(list: Seq<Seq<char>>, more: Seq<Seq<char>>) -> Seq<Seq<char>>
    decreases more.len(),
{
    if more.len() == 0 {
        list
    } else {
        with_input(with_inputs(list, more.drop_last()), more.last())
    }
}

impl View for Inputs {
    type V = Seq<Seq<char>>;

    open spec fn view(&self) -> Seq<Seq<char>> {
        words(self.always@)
    }
}

impl Inputs {
    /// No input occurs twice.
    pub open spec fn wf(self) -> bool {
        self@.no_duplicates()
    }

    /// No inputs.
    pub fn new() -> (r: Inputs)
        ensures
            r.wf(),
            r@ == Seq::<Seq<char>>::empty(),
    {
        let always: Vec<String> = Vec::new();
        assert(words(always@) =~= Seq::empty());
        Inputs { always }
    }

    /// Tells whether `input` is among the inputs.
    pub fn contains(&self, input: &String) -> (b: bool)
        ensures
            b == self@.contains(input@),
    {
        let n: usize = self.always.len();
        let mut i: usize = 0;
        while i < n
            invariant
                n == self.always.len(),
                i <= n,
                forall|j: int| 0 <= j < i ==> #[trigger] self@[j] != input@,
            decreases n - i,
        {
            assert(self@[i as int] == self.always@[i as int]@);
            if self.always[i] == *input {
                return true;
            }
            i = i + 1;
        }
        false
    }

    /// Adds an input, unless it is there.
    pub fn insert(&mut self, input: String)
        ensures
            old(self).wf() ==> final(self).wf(),
            final(self)@ == with_input(old(self)@, input@),
    {
        let ghost before = self@;
        if !self.contains(&input) {
            self.always.push(input);
            assert(self@ =~= before.push(input@));
        }
    }

    /// Adds each input that is not there.
    pub fn extend(&mut self, inputs: &Vec<String>)
        ensures
            old(self).wf() ==> final(self).wf(),
            final(self)@ == with_inputs(old(self)@, words(inputs@)),
    {
        let ghost before = self@;
        let ghost all = words(inputs@);
        let n: usize = inputs.len();
        let mut i: usize = 0;
        assert(all.take(0).len() == 0);
        while i < n
            invariant
                n == inputs.len(),
                i <= n,
                all == words(inputs@),
                before.no_duplicates() ==> self.wf(),
                self@ == with_inputs(before, all.take(i as int)),
            decreases n - i,
        {
            assert(all.take(i + 1).drop_last() =~= all.take(i as int));
            assert(all.take(i + 1).last() == inputs@[i as int]@);
            self.insert(inputs[i].clone());
            i = i + 1;
        }
        assert(all.take(n as int) =~= all);
    }
}

/// The inputs of a package: those that run while it is built, and those that it is built against.
#[derive(Debug)]
pub struct AllInputs {
    pub native_build_inputs: Inputs,
    pub build_inputs: Inputs,
}

impl AllInputs {
    /// No input occurs twice among those of a kind.
    pub open spec fn wf(self) -> bool {
        self.native_build_inputs.wf() && self.build_inputs.wf()
    }
}

/// The tools that a build with `stdenv` needs for the build files that it is given.
pub open spec fn tools(choice: BuildType, files: BuildFiles) -> Seq<Seq<char>> {
    let cargo = if choice == BuildType::MkDerivation && files.cargo {
        seq!["cargo"@, "rustc"@]
    } else {
        Seq::empty()
    };
    let cmake = if files.cmake {
        seq!["cmake"@]
    } else {
        Seq::empty()
    };
    let meson = if files.meson {
        seq!["meson"@, "ninja"@]
    } else {
        Seq::empty()
    };
    let hook = if choice == BuildType::MkDerivationCargo {
        seq![
            "rustPlatform.cargoSetupHook"@,
            "rustPlatform.rust.cargo"@,
            "rustPlatform.rust.rustc"@,
        ]
    } else {
        Seq::empty()
    };
    match choice {
        BuildType::BuildGoModule | BuildType::BuildRustPackage => Seq::empty(),
        BuildType::MkDerivation | BuildType::MkDerivationCargo => cargo + cmake + meson + hook,
    }
}

/// The names of the tools are told apart by a few characters.
proof fn lemma_tool_names()
    ensures
        "cargo"@.len() == 5 && "cargo"@[0] == 'c' && "cargo"@[1] == 'a',
        "rustc"@.len() == 5 && "rustc"@[0] == 'r',
        "cmake"@.len() == 5 && "cmake"@[0] == 'c' && "cmake"@[1] == 'm',
        "meson"@.len() == 5 && "meson"@[0] == 'm',
        "ninja"@.len() == 5 && "ninja"@[0] == 'n',
        "rustPlatform.cargoSetupHook"@.len() == 27,
        "rustPlatform.rust.cargo"@.len() == 23 && "rustPlatform.rust.cargo"@[18] == 'c',
        "rustPlatform.rust.rustc"@.len() == 23 && "rustPlatform.rust.rustc"@[18] == 'r',
{
    reveal_strlit("cargo");
    reveal_strlit("rustc");
    reveal_strlit("cmake");
    reveal_strlit("meson");
    reveal_strlit("ninja");
    reveal_strlit("rustPlatform.cargoSetupHook");
    reveal_strlit("rustPlatform.rust.cargo");
    reveal_strlit("rustPlatform.rust.rustc");
}

/// No tool is asked for twice.
pub proof fn law_tools_are_distinct(choice: BuildType, files: BuildFiles)
    ensures
        tools(choice, files).no_duplicates(),
{
    lemma_tool_names();
}

/// The inputs that a way to build needs for the build files that it is given.
pub fn initial_inputs(choice: BuildType, files: BuildFiles) -> (r: AllInputs)
    ensures
        r.wf(),
        r.native_build_inputs@ == tools(choice, files),
        r.build_inputs@ == Seq::<Seq<char>>::empty(),
{
    let mut always: Vec<String> = Vec::new();
    match choice {
        BuildType::BuildGoModule => {},
        BuildType::BuildRustPackage => {},
        BuildType::MkDerivation => {
            if files.cargo {
                always.push("cargo".to_owned());
                always.push("rustc".to_owned());
            }
            if files.cmake {
                always.push("cmake".to_owned());
            }
            if files.meson {
                always.push("meson".to_owned());
                always.push("ninja".to_owned());
            }
        },
        BuildType::MkDerivationCargo => {
            if files.cmake {
                always.push("cmake".to_owned());
            }
            if files.meson {
                always.push("meson".to_owned());
                always.push("ninja".to_owned());
            }
            always.push("rustPlatform.cargoSetupHook".to_owned());
            always.push("rustPlatform.rust.cargo".to_owned());
            always.push("rustPlatform.rust.rustc".to_owned());
        },
    }
    assert(words(always@) =~= tools(choice, files));
    proof {
        law_tools_are_distinct(choice, files);
    }
    AllInputs { native_build_inputs: Inputs { always }, build_inputs: Inputs::new() }
}

/// There is always a way to build, none is offered twice, and the plain `stdenv.mkDerivation` comes
/// last.
pub proof fn law_choices(files: BuildFiles)
    ensures
        offered(files).len() > 0,
        offered(files).no_duplicates(),
        offered(files).last() == BuildType::MkDerivation,
        offered(files).contains(BuildType::BuildRustPackage) <==> files.cargo,
        offered(files).contains(BuildType::MkDerivationCargo) <==> files.cargo,
        offered(files).contains(BuildType::BuildGoModule) <==> files.go,
{
    let all = offered(files);
    if files.cargo {
        assert(all[0] == BuildType::BuildRustPackage || all[1] == BuildType::BuildRustPackage);
        assert(all[0] == BuildType::MkDerivationCargo || all[1] == BuildType::MkDerivationCargo);
    }
    if files.go {
        assert(all[all.len() - 2] == BuildType::BuildGoModule);
    }
}

/// Whatever is answered, one of the choices is taken.
pub proof fn law_selection_is_a_choice(choices: Seq<BuildType>, answer: Seq<char>)
    requires
        choices.len() > 0,
    ensures
        choices.contains(selected(choices, answer)),
{
    assert(choices.contains(choices[0]));
}

/// Every way to build that is offered can be chosen, by the digit of its index.
pub proof fn law_every_choice_can_be_taken(files: BuildFiles, i: int)
    requires
        0 <= i < offered(files).len(),
    ensures
        selected(offered(files), seq![('0' as u32 + i as u32) as char]) == offered(files)[i],
{
    let c = ('0' as u32 + i as u32) as char;
    let answer = seq![c];
    assert(i <= 3);
    assert('0' <= c <= '9' && c != '+');
    assert(answer.drop_last() =~= Seq::empty());
    assert(all_digits(answer));
    assert(digits_value(answer.drop_last()) == 0);
    assert(digits_value(answer) == i);
}

/// Adding inputs keeps those that are there, in their places, and adds no others.
pub proof fn law_inputs_grow(list: Seq<Seq<char>>, more: Seq<Seq<char>>)
    ensures
        list.is_prefix_of(with_inputs(list, more)),
        forall|x: Seq<char>| #[trigger]
            with_inputs(list, more).contains(x) <==> list.contains(x) || more.contains(x),
    decreases more.len(),
{
    if more.len() > 0 {
        law_inputs_grow(list, more.drop_last());
        let before = with_inputs(list, more.drop_last());
        let input = more.last();
        let after = with_inputs(list, more);
        assert(more =~= more.drop_last().push(input));
        assert forall|x: Seq<char>| #[trigger] after.contains(x) <==> list.contains(x)
            || more.contains(x) by {
            assert(more.contains(x) <==> more.drop_last().contains(x) || x == input) by {
                if more.contains(x) && x != input {
                    let k = choose|k: int| 0 <= k < more.len() && more[k] == x;
                    assert(more.drop_last()[k] == x);
                }
                if more.drop_last().contains(x) {
                    let k = choose|k: int| 0 <= k < more.len() - 1 && more.drop_last()[k] == x;
                    assert(more[k] == x);
                }
                assert(more[more.len() - 1] == input);
            }
            assert(before.contains(x) <==> list.contains(x) || more.drop_last().contains(x));
            if !before.contains(input) {
                assert(after == before.push(input));
                if after.contains(x) && x != input {
                    let k = choose|k: int| 0 <= k < after.len() && after[k] == x;
                    assert(before[k] == x);
                }
                if before.contains(x) {
                    let k = choose|k: int| 0 <= k < before.len() && before[k] == x;
                    assert(after[k] == x);
                }
                assert(after[after.len() - 1] == input);
            }
        }
    }
}

/// Each tool of a build with `stdenv` depends on its own build file alone, and no other tool is
/// asked for. The other builders bring their own.
pub proof fn law_each_tool_has_its_reason(choice: BuildType, files: BuildFiles, tool: Seq<char>)
    ensures
        choice == BuildType::BuildGoModule || choice == BuildType::BuildRustPackage ==> !tools(
            choice,
            files,
        ).contains(tool),
        choice == BuildType::MkDerivation || choice == BuildType::MkDerivationCargo ==> (tools(
            choice,
            files,
        ).contains(tool) <==> {
            ||| tool == "cmake"@ && files.cmake
            ||| tool == "meson"@ && files.meson
            ||| tool == "ninja"@ && files.meson
            ||| tool == "cargo"@ && files.cargo && choice == BuildType::MkDerivation
            ||| tool == "rustc"@ && files.cargo && choice == BuildType::MkDerivation
            ||| tool == "rustPlatform.cargoSetupHook"@ && choice == BuildType::MkDerivationCargo
            ||| tool == "rustPlatform.rust.cargo"@ && choice == BuildType::MkDerivationCargo
            ||| tool == "rustPlatform.rust.rustc"@ && choice == BuildType::MkDerivationCargo
        }),
{
    let all = tools(choice, files);
    let cargo: int = if choice == BuildType::MkDerivation && files.cargo {
        2
    } else {
        0
    };
    let cmake: int = if files.cmake {
        cargo + 1
    } else {
        cargo
    };
    let meson: int = if files.meson {
        cmake + 2
    } else {
        cmake
    };
    if choice == BuildType::MkDerivation || choice == BuildType::MkDerivationCargo {
        if cargo == 2 {
            assert(all[0] == "cargo"@ && all[1] == "rustc"@);
        }
        if files.cmake {
            assert(all[cargo] == "cmake"@);
        }
        if files.meson {
            assert(all[cmake] == "meson"@ && all[cmake + 1] == "ninja"@);
        }
        if choice == BuildType::MkDerivationCargo {
            assert(all[meson] == "rustPlatform.cargoSetupHook"@);
            assert(all[meson + 1] == "rustPlatform.rust.cargo"@);
            assert(all[meson + 2] == "rustPlatform.rust.rustc"@);
        }
    }
}

/// Where there is a `Cargo.toml`, the two ways to build for it come first: that for Cargo alone,
/// unless there is a `meson.build`. No other way to build is offered than the build files ask for.
pub proof fn law_order_of_choices(files: BuildFiles)
    ensures
        files.cargo && !files.meson ==> offered(files)[0] == BuildType::BuildRustPackage
            && offered(files)[1] == BuildType::MkDerivationCargo,
        files.cargo && files.meson ==> offered(files)[0] == BuildType::MkDerivationCargo
            && offered(files)[1] == BuildType::BuildRustPackage,
        files.go ==> offered(files)[offered(files).len() - 2] == BuildType::BuildGoModule,
        offered(files).len() == 1 + (if files.cargo {
            2int
        } else {
            0
        }) + (if files.go {
            1int
        } else {
            0
        }),
{
}

/// An answer that writes the index of a choice takes it. Every other answer takes the first.
pub proof fn law_answers_take_a_choice(choices: Seq<BuildType>, answer: Seq<char>)
    requires
        choices.len() > 0,
    ensures
        forall|i: int|
            0 <= i < choices.len() && written_number(answer) == Some(i as nat)
                ==> selected(choices, answer) == #[trigger] choices[i],
        (forall|i: int|
            0 <= i < choices.len() ==> written_number(answer) != Some(#[trigger] (i as nat)))
            ==> selected(choices, answer) == choices[0],
{
    if let Some(n) = written_number(answer) {
        if n < choices.len() {
            let i = n as int;
            assert(i as nat == n);
        }
    }
}

/// Inputs are added one by one, each at the end unless it is there.
pub proof fn law_inputs_are_added_in_turn(
    list: Seq<Seq<char>>,
    more: Seq<Seq<char>>,
    input: Seq<char>,
)
    ensures
        with_inputs(list, Seq::empty()) == list,
        with_inputs(list, more.push(input)) == if with_inputs(list, more).contains(input) {
            with_inputs(list, more)
        } else {
            with_inputs(list, more).push(input)
        },
{
    assert(more.push(input).drop_last() =~= more);
}

/// The ways to build are called by the functions of Nixpkgs that do them.
pub proof fn law_labels()
    ensures
        label_text(BuildType::BuildGoModule) == "buildGoModule"@,
        label_text(BuildType::BuildRustPackage) == "rustPlatform.buildRustPackage"@,
        label_text(BuildType::MkDerivation) == "stdenv.mkDerivation"@,
        label_text(BuildType::MkDerivationCargo) == label_text(BuildType::MkDerivation)
            + " + rustPlatform.cargoSetupHook"@,
{
    reveal_strlit("stdenv.mkDerivation + rustPlatform.cargoSetupHook");
    reveal_strlit("stdenv.mkDerivation");
    reveal_strlit(" + rustPlatform.cargoSetupHook");
    assert("stdenv.mkDerivation + rustPlatform.cargoSetupHook"@ =~= "stdenv.mkDerivation"@
        + " + rustPlatform.cargoSetupHook"@);
}

} // verus!
