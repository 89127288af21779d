//! The text of the console's `help` command.
use vstd::prelude::*;

use crate::text::{join, joined, owned, str_eq, views};

verus! {

/// What the help text shows of a command: its name, its description,
/// whether it runs by itself, and its sub-commands.
pub struct CommandSummary {
    pub name: String,
    pub description: String,
    pub is_executable: bool,
    pub children: Vec<CommandSummary>,
}

/// The names of `commands`.
pub open spec fn summary_names(commands: Seq<CommandSummary>) -> Seq<Seq<char>> {
    commands.map_values(|c: CommandSummary| c.name@)
}

/// The line of a sub-command in the help of its parent.
pub open spec fn subcommand_line(c: CommandSummary) -> Seq<char> {
    "    "@ + c.name@ + " - "@ + c.description@ + if c.is_executable {
        "\t(executable)"@
    } else {
        Seq::empty()
    }
}

/// The overview line of a top-level command.
pub open spec fn overview_line(c: CommandSummary) -> Seq<char> {
    c.name@ + " - "@ + c.description@ + if c.children@.len() > 0 {
        "\t(has subcommands: "@ + joined(summary_names(c.children@), ", "@)
    } else {
        Seq::empty()
    }
}

/// The lines of `items`, one after the other.
pub open spec fn concat_lines(items: Seq<CommandSummary>, line: spec_fn(CommandSummary) -> Seq<char>) -> Seq<char>
    decreases items.len(),
{
    if items.len() == 0 {
        Seq::empty()
    } else {
        concat_lines(items.drop_last(), line) + line(items.last())
    }
}

/// The help of one command, reached by `path`: the path and description,
/// whether it runs by itself, and its sub-commands.
pub open spec fn command_help(
    path: Seq<Seq<char>>,
    description: Seq<char>,
    is_executable: bool,
    children: Seq<CommandSummary>,
) -> Seq<char> {
    joined(path, " "@) + " - "@ + description + (if is_executable {
        "\t(executable command)"@
    } else {
        Seq::empty()
    }) + if children.len() > 0 {
        "\tSubcommands:"@ + concat_lines(children, |c: CommandSummary| subcommand_line(c))
    } else {
        Seq::empty()
    }
}

/// The overview of every top-level command.
pub open spec fn commands_overview(commands: Seq<CommandSummary>) -> Seq<char> {
    "Available commands:"@ + concat_lines(commands, |c: CommandSummary| overview_line(c))
}

fn literal(s: &str) -> (res: String)
    ensures
        res@ == s@,
{
    owned(s)
}

/// The help text of the command reached by `path`.
pub fn command_tree_help(
    path: &[String],
    description: &str,
    is_executable: bool,
    children: &Vec<CommandSummary>,
) -> (res: String)
    ensures
        res@ == command_help(views(path@), description@, is_executable, children@),
{
    proof {
        reveal_strlit(" ");
        reveal_strlit(" - ");
        reveal_strlit("\t(executable command)");
        reveal_strlit("\tSubcommands:");
    }
    let mut msg = join(path, " ");
    msg = msg.concat(" - ");
    msg = msg.concat(description);
    if is_executable {
        msg = msg.concat("\t(executable command)");
    }
    if children.len() > 0 {
        msg = msg.concat("\tSubcommands:");
        let ghost head = msg@;
        let mut i: usize = 0;
        while i < children.len()
            invariant
                i <= children@.len(),
                msg@ == head + concat_lines(children@.take(i as int), |c: CommandSummary| subcommand_line(c)),
            decreases children@.len() - i,
        {
            proof {
                reveal_strlit("    ");
                reveal_strlit("\t(executable)");
                assert(children@.take(i + 1).drop_last() =~= children@.take(i as int));
            }
            let child = &children[i];
            msg = msg.concat("    ");
            msg = msg.concat(child.name.as_str());
            msg = msg.concat(" - ");
            msg = msg.concat(child.description.as_str());
            if child.is_executable {
                msg = msg.concat("\t(executable)");
            }
            i += 1;
        }
        assert(children@.take(children@.len() as int) =~= children@);
    }
    msg
}

/// The overview listing every top-level command.
pub fn available_commands_help(commands: &Vec<CommandSummary>) -> (res: String)
    ensures
        res@ == commands_overview(commands@),
{
    let mut msg = literal("Available commands:");
    let ghost head = msg@;
    let mut i: usize = 0;
    while i < commands.len()
        invariant
            i <= commands@.len(),
            msg@ == head + concat_lines(commands@.take(i as int), |c: CommandSummary| overview_line(c)),
            head == "Available commands:"@,
        decreases commands@.len() - i,
    {
        proof {
            reveal_strlit(" - ");
            reveal_strlit("\t(has subcommands: ");
            reveal_strlit(", ");
            assert(commands@.take(i + 1).drop_last() =~= commands@.take(i as int));
        }
        let command = &commands[i];
        msg = msg.concat(command.name.as_str());
        msg = msg.concat(" - ");
        msg = msg.concat(command.description.as_str());
        if command.children.len() > 0 {
            msg = msg.concat("\t(has subcommands: ");
            let names = summary_name_list(&command.children);
            let joined_names = join(names.as_slice(), ", ");
            msg = msg.concat(joined_names.as_str());
        }
        i += 1;
    }
    assert(commands@.take(commands@.len() as int) =~= commands@);
    msg
}

/// The names of `commands`, in order.
fn summary_name_list(commands: &Vec<CommandSummary>) -> (res: Vec<String>)
    ensures
        views(res@) == summary_names(commands@),
{
    let mut res: Vec<String> = Vec::new();
    let mut i: usize = 0;
    while i < commands.len()
        invariant
            i <= commands@.len(),
            views(res@) == summary_names(commands@).take(i as int),
        decreases commands@.len() - i,
    {
        let ghost before = res@;
        res.push(owned(commands[i].name.as_str()));
        proof {
            assert(views(res@) =~= views(before).push(commands@[i as int].name@));
            assert(summary_names(commands@).take(i + 1) =~= summary_names(commands@).take(i as int).push(
                commands@[i as int].name@,
            ));
        }
        i += 1;
    }
    assert(summary_names(commands@).take(commands@.len() as int) =~= summary_names(commands@));
    res
}

/// The first of `commands` named `name`.
pub open spec fn first_summary_named(commands: Seq<CommandSummary>, name: Seq<char>) -> Option<int> {
    if exists|i: int| 0 <= i < commands.len() && commands[i].name@ == name {
        Some(
            choose|i: int|
                0 <= i < commands.len() && commands[i].name@ == name && forall|j: int|
                    0 <= j < i ==> commands[j].name@ != name,
        )
    } else {
        None
    }
}

/// What `help` prints: without a target, the overview of all commands;
/// with one, the help of the top-level command of that name, or else the
/// error that it does not exist.
pub open spec fn help_outcome(target: Option<Seq<char>>, commands: Seq<CommandSummary>) -> Result<
    Seq<char>,
    Seq<char>,
> {
    match target {
        None => Ok(commands_overview(commands)),
        Some(t) => match first_summary_named(commands, t) {
            Some(i) => Ok(
                command_help(seq![t], commands[i].description@, commands[i].is_executable, commands[i].children@),
            ),
            None => Err("Command '"@ + t + "' does not exist"@),
        },
    }
}

/// The characters of an optional text.
pub open spec fn option_view(t: Option<&str>) -> Option<Seq<char>> {
    match t {
        Some(s) => Some(s@),
        None => None,
    }
}

/// The text that `help` prints, or its error message.
pub fn help_text(target: Option<&str>, commands: &Vec<CommandSummary>) -> (res: Result<String, String>)
    ensures
        match (res, help_outcome(option_view(target), commands@)) {
            (Ok(r), Ok(e)) => r@ == e,
            (Err(r), Err(e)) => r@ == e,
            _ => false,
        },
{
    match target {
        None => Ok(available_commands_help(commands)),
        Some(t) => {
            let mut i: usize = 0;
            while i < commands.len()
                invariant
                    i <= commands@.len(),
                    target == Some(t),
                    forall|j: int| 0 <= j < i ==> commands@[j].name@ != t@,
                decreases commands@.len() - i,
            {
                if str_eq(commands[i].name.as_str(), t) {
                    proof {
                        let k = choose|k: int|
                            0 <= k < commands@.len() && commands@[k].name@ == t@ && forall|j: int|
                                0 <= j < k ==> commands@[j].name@ != t@;
                        if k < i {
                        }
                        if k > i {
                            assert(commands@[i as int].name@ == t@);
                        }
                        assert(k == i);
                    }
                    let path: Vec<String> = vec![owned(t)];
                    proof {
                        assert(views(path@) =~= seq![t@]);
                    }
                    let command = &commands[i];
                    return Ok(
                        command_tree_help(
                            path.as_slice(),
                            command.description.as_str(),
                            command.is_executable,
                            &command.children,
                        ),
                    );
                }
                i += 1;
            }
            proof {
                reveal_strlit("Command '");
                reveal_strlit("' does not exist");
            }
            let msg = literal("Command '");
            let msg = msg.concat(t);
            let msg = msg.concat("' does not exist");
            Err(msg)
        },
    }
}

} // verus!
