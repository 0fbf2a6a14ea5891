//! The command registry and the dispatcher that resolves a command line to
//! the built-in help or to a registered command.

use vstd::prelude::*;
use crate::bounded::{arg_pairs, args_slice, message_text, name_str, param_str};
use crate::args::{contains_param, index_of_param};
use crate::error::{Error, into_truncated, is_truncation};
use crate::parser::{ParsedCommand, parse_spec, reports};
use crate::text::{chars_of, same_ignoring_case, str_eq_ignore_case};

verus! {

/// Number of commands a registry holds.
pub const MAX_CMDS: usize = 20;

/// A named command with its help texts and its handler.
#[derive(Debug)]
pub struct Command<F> {
    pub name: &'static str,
    pub desc: &'static str,
    pub help: &'static str,
    pub func: F,
}

/// The registered commands, in registration order.
#[derive(Debug)]
pub struct CommandList<F> {
    pub commands: Vec<Command<F>>,
}

/// Index of the first command whose name equals `name`, ignoring ASCII case.
pub open spec fn index_of_command<F>(cmds: Seq<Command<F>>, name: Seq<char>) -> Option<int> {
    if exists|i: int| 0 <= i < cmds.len() && same_ignoring_case(cmds[i].name@, name) {
        Some(
            choose|i: int|
                0 <= i < cmds.len() && same_ignoring_case(cmds[i].name@, name) && forall|j: int|
                    0 <= j < i ==> !same_ignoring_case(#[trigger] cmds[j].name@, name),
        )
    } else {
        None
    }
}

/// The error for a name that no command has: it carries the name, truncated.
pub open spec fn not_found(e: Error, name: Seq<char>) -> bool {
    e is CmdNotFound && is_truncation(message_text(e->CmdNotFound_0), name, 48)
}

proof fn lemma_index_of_command<F>(cmds: Seq<Command<F>>, name: Seq<char>, i: int)
    requires
        0 <= i < cmds.len(),
        same_ignoring_case(cmds[i].name@, name),
        forall|j: int| 0 <= j < i ==> !same_ignoring_case(#[trigger] cmds[j].name@, name),
    ensures
        index_of_command(cmds, name) == Some(i),
{
    let c = choose|k: int|
        0 <= k < cmds.len() && same_ignoring_case(cmds[k].name@, name) && forall|j: int|
            0 <= j < k ==> !same_ignoring_case(#[trigger] cmds[j].name@, name);
    assert(0 <= c < cmds.len() && same_ignoring_case(cmds[c].name@, name));
    if c < i {
        assert(!same_ignoring_case(cmds[c].name@, name));
    } else if c > i {
        assert(!same_ignoring_case(cmds[i].name@, name));
    }
}

impl<F> CommandList<F> {
    pub fn new() -> (r: CommandList<F>)
        ensures
            r.commands@.len() == 0,
    {
        CommandList { commands: Vec::new() }
    }

    /// Adds a command; a registry that is already full keeps its commands
    /// and drops the new one.
    pub fn register_command(&mut self, command: Command<F>)
        ensures
            old(self).commands@.len() < MAX_CMDS ==> final(self).commands@ == old(
                self,
            ).commands@.push(command),
            old(self).commands@.len() >= MAX_CMDS ==> final(self).commands@ == old(self).commands@,
    {
        if self.commands.len() < MAX_CMDS {
            self.commands.push(command);
        }
    }

    /// Position of the command named `name` (ASCII case ignored).
    pub fn find(&self, name: &str) -> (r: Option<usize>)
        ensures
            match index_of_command(self.commands@, name@) {
                Some(i) => r is Some && r->0 as int == i,
                None => r is None,
            },
            r matches Some(i) ==> i < self.commands@.len(),
    {
        let mut i: usize = 0;
        while i < self.commands.len()
            invariant
                i <= self.commands.len(),
                forall|k: int|
                    0 <= k < i ==> !same_ignoring_case(#[trigger] self.commands@[k].name@, name@),
            decreases self.commands.len() - i,
        {
            if str_eq_ignore_case(self.commands[i].name, name) {
                proof {
                    lemma_index_of_command(self.commands@, name@, i as int);
                }
                return Some(i);
            }
            i += 1;
        }
        None
    }

    /// The command named `name` (ASCII case ignored).
    pub fn get_command(&self, name: &str) -> (r: Result<&Command<F>, Error>)
        ensures
            match index_of_command(self.commands@, name@) {
                Some(i) => r is Ok && r->Ok_0 == &self.commands@[i],
                None => r is Err && not_found(r->Err_0, name@),
            },
    {
        match self.find(name) {
            Some(i) => Ok(&self.commands[i]),
            None => Err(Error::CmdNotFound(into_truncated(name))),
        }
    }

    /// The description of the command named `cmd_name`.
    pub fn get_description(&self, cmd_name: &str) -> (r: Result<&'static str, Error>)
        ensures
            match index_of_command(self.commands@, cmd_name@) {
                Some(i) => r is Ok && r->Ok_0 == self.commands@[i].desc,
                None => r is Err && not_found(r->Err_0, cmd_name@),
            },
    {
        let command = self.get_command(cmd_name)?;
        Ok(command.desc)
    }
}

/// What a command line asks the console to do.
#[derive(Debug)]
pub enum Dispatch {
    /// List every command.
    ListAll,
    /// Show the description and help text of the command at this position.
    Help(usize),
    /// Run the command at this position with the parsed line.
    Run(usize, ParsedCommand),
}

/// The name of the built-in help.
pub open spec fn help_name() -> Seq<char> {
    seq!['h', 'e', 'l', 'p']
}

/// Whether some argument is the `help` flag (ASCII case ignored).
pub open spec fn asks_for_help(args: Seq<(Seq<char>, Seq<char>)>) -> bool {
    exists|k: int| 0 <= k < args.len() && same_ignoring_case(#[trigger] args[k].0, help_name())
}

/// What the dispatcher decides for a line, when the line parses.
pub open spec fn dispatch_spec<F>(
    cmds: Seq<Command<F>>,
    name: Seq<char>,
    args: Seq<(Seq<char>, Seq<char>)>,
    d: Dispatch,
) -> bool {
    if name == help_name() {
        if args.len() == 0 {
            d is ListAll
        } else {
            match index_of_command(cmds, args[0].0) {
                Some(i) => d == Dispatch::Help(i as usize),
                None => false,
            }
        }
    } else {
        match index_of_command(cmds, name) {
            Some(i) => if asks_for_help(args) {
                d == Dispatch::Help(i as usize)
            } else {
                d is Run && d->Run_0 == i as usize && d->Run_1@ == (name, args)
            },
            None => false,
        }
    }
}

/// The name the dispatcher looks up for a line, and whether the lookup fails.
pub open spec fn unknown_name<F>(
    cmds: Seq<Command<F>>,
    name: Seq<char>,
    args: Seq<(Seq<char>, Seq<char>)>,
) -> Option<Seq<char>> {
    let looked_up = if name == help_name() && args.len() > 0 {
        args[0].0
    } else {
        name
    };
    if name == help_name() && args.len() == 0 {
        None
    } else if index_of_command(cmds, looked_up) is None {
        Some(looked_up)
    } else {
        None
    }
}

fn is_help(s: &str) -> (r: bool)
    ensures
        r == (s@ == help_name()),
{
    let c = chars_of(s);
    if c.len() != 4 {
        return false;
    }
    let r = c[0] == 'h' && c[1] == 'e' && c[2] == 'l' && c[3] == 'p';
    proof {
        if r {
            assert(c@ =~= help_name());
        }
    }
    r
}

/// The console: a registry and the dispatcher over it.
#[derive(Debug)]
pub struct SimpleCli<F> {
    pub command_list: CommandList<F>,
}

impl<F> SimpleCli<F> {
    pub fn new(command_list: CommandList<F>) -> (r: SimpleCli<F>)
        ensures
            r.command_list == command_list,
    {
        SimpleCli { command_list }
    }

    /// Resolves a command line. `help` alone lists every command, `help`
    /// followed by a command's name shows that command's help, a command
    /// whose arguments hold the `help` flag shows its own help, and any other
    /// line runs the command registered under its name. A line that does not parse
    /// fails with the tokenizer's error; an unknown name fails with
    /// `CmdNotFound`.
    pub fn dispatch(&self, input: &str) -> (r: Result<Dispatch, Error>)
        ensures
            match parse_spec(input@) {
                Err(f) => r is Err && reports(r->Err_0, f),
                Ok(c) => match unknown_name(self.command_list.commands@, c.0, c.1) {
                    Some(n) => r is Err && not_found(r->Err_0, n),
                    None => r is Ok && dispatch_spec(self.command_list.commands@, c.0, c.1, r->Ok_0),
                },
            },
    {
        let parsed = ParsedCommand::parse(input)?;
        let name = name_str(&parsed.cmd);
        if is_help(name) {
            let args = args_slice(&parsed.args);
            if args.len() == 0 {
                return Ok(Dispatch::ListAll);
            }
            let target = param_str(&args[0].param);
            proof {
                assert(args@[0]@ == arg_pairs(parsed.args)[0]);
                assert(target@ == arg_pairs(parsed.args)[0].0);
            }
            match self.command_list.find(target) {
                Some(i) => Ok(Dispatch::Help(i)),
                None => Err(Error::CmdNotFound(into_truncated(target))),
            }
        } else {
            match self.command_list.find(name) {
                Some(i) => {
                    let args = args_slice(&parsed.args);
                    let help = "help";
                    let wants_help = contains_param(args, help);
                    proof {
                        reveal_strlit("help");
                        assert(help@ =~= help_name());
                        let pairs = arg_pairs(parsed.args);
                        if wants_help {
                            let k = index_of_param(args@, help@)->0;
                            assert(args@[k]@ == pairs[k]);
                        }
                        if asks_for_help(pairs) {
                            let k = choose|k: int|
                                0 <= k < pairs.len() && same_ignoring_case(
                                    #[trigger] pairs[k].0,
                                    help_name(),
                                );
                            assert(args@[k]@ == pairs[k]);
                        }
                    }
                    if wants_help {
                        Ok(Dispatch::Help(i))
                    } else {
                        Ok(Dispatch::Run(i, parsed))
                    }
                },
                None => Err(Error::CmdNotFound(into_truncated(name))),
            }
        }
    }
}

} // verus!
