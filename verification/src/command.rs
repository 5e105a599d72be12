//! Command lines and the commands that a client sends to a listener.

use vstd::prelude::*;

verus! {

/// The mathematical content of a command line.
pub struct CommandLineView {
    pub command: Seq<char>,
    pub args: Seq<Seq<char>>,
}

/// The arguments `args`, each behind one space, joined in order.
pub open spec fn joined_args(args: Seq<Seq<char>>) -> Seq<char>
    decreases args.len(),
{
    if args.len() == 0 {
        Seq::<char>::empty()
    } else {
        joined_args(args.drop_last()) + seq![' '] + args.last()
    }
}

/// The text of a command line: the program, then each argument behind one space.
pub open spec fn rendered(c: CommandLineView) -> Seq<char> {
    c.command + joined_args(c.args)
}

/// A program name with its arguments in order.
#[derive(Debug)]
pub struct CommandLine {
    pub command: String,
    pub args: Vec<String>,
}

impl View for CommandLine {
    type V = CommandLineView;

    open spec fn view(&self) -> CommandLineView {
        CommandLineView { command: self.command@, args: Seq::new(self.args@.len(), |i: int| self.args@[i]@) }
    }
}

impl CommandLine {
    /// The command line of `command` with the arguments `args`.
    pub fn new(command: String, args: Vec<String>) -> (c: Self)
        ensures
            c.command == command,
            c.args == args,
    {
        CommandLine { command, args }
    }

    /// A command line with the same program and arguments.
    pub fn duplicate(&self) -> (c: Self)
        ensures
            c@ == self@,
    {
        let mut args: Vec<String> = Vec::new();
        let mut i: usize = 0;
        while i < self.args.len()
            invariant
                i <= self.args@.len(),
                args@.len() == i,
                forall|k: int| 0 <= k < i ==> args@[k]@ == self.args@[k]@,
            decreases self.args@.len() - i,
        {
            args.push(self.args[i].clone());
            i += 1;
        }
        let c = CommandLine { command: self.command.clone(), args };
        assert(c@.args =~= self@.args);
        c
    }

    /// The command line as one line of text.
    pub fn to_text(&self) -> (text: String)
        ensures
            text@ == rendered(self@),
    {
        let mut text = self.command.clone();
        let mut i: usize = 0;
        while i < self.args.len()
            invariant
                i <= self.args@.len(),
                text@ == self.command@ + joined_args(self@.args.subrange(0, i as int)),
            decreases self.args@.len() - i,
        {
            proof {
                let next = self@.args.subrange(0, i + 1);
                assert(next.drop_last() =~= self@.args.subrange(0, i as int));
                assert(next.last() == self.args@[i as int]@);
                reveal_strlit(" ");
                assert(" "@ =~= seq![' ']);
            }
            text.append(" ");
            text.append(self.args[i].as_str());
            i += 1;
        }
        assert(self@.args.subrange(0, i as int) =~= self@.args);
        text
    }
}

impl Clone for CommandLine {
    fn clone(&self) -> (c: Self)
        ensures
            c@ == self@,
    {
        self.duplicate()
    }
}

/// What a client asks of a listener.
#[derive(Debug)]
pub enum ServerCommand {
    /// Submit a command line as a new job.
    Queue(CommandLine),
    /// Ask for a job to run.
    Query,
}

} // verus!
