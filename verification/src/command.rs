//! Programs to run, and how they ended.
use vstd::prelude::*;

verus! {

/// The texts of a list of strings.
pub open spec fn words(list: Seq<String>) -> Seq<Seq<char>> {
    list.map_values(|s: String| s@)
}

/// A program with its arguments.
#[derive(Debug)]
pub struct Command {
    pub program: String,
    pub args: Vec<String>,
}

impl Command {
    /// Tells whether the command runs `program` with `args`.
    pub open spec fn runs(self, program: Seq<char>, args: Seq<Seq<char>>) -> bool {
        self.program@ == program && words(self.args@) =~= args
    }

    /// A program without arguments.
    pub fn new(program: &str) -> (r: Command)
        ensures
            r.runs(program@, Seq::empty()),
    {
        let args: Vec<String> = Vec::new();
        assert(words(args@) =~= Seq::empty());
        Command { program: program.to_owned(), args }
    }

    /// Adds an argument at the end.
    pub fn arg(&mut self, arg: &str)
        ensures
            final(self).runs(old(self).program@, words(old(self).args@).push(arg@)),
    {
        let ghost before = self.args@;
        let word = arg.to_owned();
        self.args.push(word);
        assert(words(self.args@) =~= words(before).push(arg@));
    }
}

/// How a program ended: well, or with a status that tells otherwise.
#[derive(Debug)]
pub enum Exit {
    Success,
    Failure { status: String },
}

/// A command that runs a program with arguments holds the program and each argument in its place,
/// and no others.
pub proof fn law_what_a_command_runs(command: Command, program: Seq<char>, args: Seq<Seq<char>>)
    ensures
        command.runs(program, args) <==> command.program@ == program && command.args@.len()
            == args.len() && forall|i: int|
            0 <= i < args.len() ==> (#[trigger] command.args@[i])@ == args[i],
{
    let held = words(command.args@);
    if command.runs(program, args) {
        assert forall|i: int| 0 <= i < args.len() implies (#[trigger] command.args@[i])@
            == args[i] by {
            assert(held[i] == args[i]);
        }
    }
    if command.args@.len() == args.len() && forall|i: int|
        0 <= i < args.len() ==> (#[trigger] command.args@[i])@ == args[i] {
        assert forall|i: int| 0 <= i < args.len() implies held[i] == args[i] by {
            assert(command.args@[i]@ == args[i]);
        }
        assert(held =~= args);
    }
}

} // verus!
