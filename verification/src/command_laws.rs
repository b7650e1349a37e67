//! What the names of the interface commands run.

use vstd::prelude::*;
use crate::command::{ui_command, ui_names, Command};

verus! {

/// The interface commands in the order of the command list (see
/// `ui_names` and `slash_commands`).
pub open spec fn listed_commands() -> Seq<Command> {
    seq![
        Command::New,
        Command::Session,
        Command::Plan,
        Command::Models,
        Command::Compact,
        Command::Skills,
        Command::Mcp,
        Command::Tasks,
        Command::Yolo,
        Command::Exit,
    ]
}

/// Each listed interface command name runs the command it is listed for,
/// so no two listed names run the same command; besides the listed names
/// only `quit` and `q` (both `exit`) name an interface command.
pub proof fn law_ui_command_names(name: Seq<char>)
    ensures
        forall|i: int| 0 <= i < 10 ==> ui_command(#[trigger] ui_names()[i]) == Some(listed_commands()[i]),
        forall|i: int, j: int|
            0 <= i < j < 10 ==> ui_command(#[trigger] ui_names()[i]) != ui_command(
                #[trigger] ui_names()[j],
            ),
        ui_command(name) is Some ==> ui_names().contains(name) || name == "quit"@ || name == "q"@,
        ui_command("quit"@) == Some(Command::Exit),
        ui_command("q"@) == Some(Command::Exit),
{
    reveal_strlit("new");
    reveal_strlit("sessions");
    reveal_strlit("plan");
    reveal_strlit("models");
    reveal_strlit("compact");
    reveal_strlit("skills");
    reveal_strlit("mcp");
    reveal_strlit("tasks");
    reveal_strlit("yolo");
    reveal_strlit("exit");
    reveal_strlit("quit");
    reveal_strlit("q");
    let ns = ui_names();
    assert forall|i: int| 0 <= i < 10 implies ui_command(#[trigger] ui_names()[i]) == Some(
        listed_commands()[i],
    ) by {
        let n = ns[i];
        if i == 0 {
        } else if i == 1 {
            assert(n[0] != "new"@[0]);
        } else if i == 2 {
            assert(n.len() != "new"@.len());
            assert(n[0] != "sessions"@[0]);
        } else if i == 3 {
            assert(n.len() != "new"@.len());
            assert(n[0] != "sessions"@[0]);
            assert(n[0] != "plan"@[0]);
        } else if i == 4 {
            assert(n.len() != "new"@.len());
            assert(n[0] != "sessions"@[0]);
            assert(n[0] != "plan"@[0]);
            assert(n[0] != "models"@[0]);
        } else if i == 5 {
            assert(n[0] != "new"@[0]);
            assert(n[1] != "sessions"@[1]);
            assert(n[0] != "plan"@[0]);
            assert(n[0] != "models"@[0]);
            assert(n[0] != "compact"@[0]);
        } else if i == 6 {
            assert(n[0] != "new"@[0]);
            assert(n[0] != "sessions"@[0]);
            assert(n[0] != "plan"@[0]);
            assert(n.len() != "models"@.len());
            assert(n[0] != "compact"@[0]);
            assert(n[0] != "skills"@[0]);
        } else if i == 7 {
            assert(n[0] != "new"@[0]);
            assert(n[0] != "sessions"@[0]);
            assert(n[0] != "plan"@[0]);
            assert(n[0] != "models"@[0]);
            assert(n[0] != "compact"@[0]);
            assert(n[0] != "skills"@[0]);
            assert(n[0] != "mcp"@[0]);
        } else if i == 8 {
            assert(n[0] != "new"@[0]);
            assert(n[0] != "sessions"@[0]);
            assert(n[0] != "plan"@[0]);
            assert(n[0] != "models"@[0]);
            assert(n[0] != "compact"@[0]);
            assert(n[0] != "skills"@[0]);
            assert(n[0] != "mcp"@[0]);
            assert(n[0] != "tasks"@[0]);
        } else {
            assert(n[0] != "new"@[0]);
            assert(n[0] != "sessions"@[0]);
            assert(n[0] != "plan"@[0]);
            assert(n[0] != "models"@[0]);
            assert(n[0] != "compact"@[0]);
            assert(n[0] != "skills"@[0]);
            assert(n[0] != "mcp"@[0]);
            assert(n[0] != "tasks"@[0]);
            assert(n[0] != "yolo"@[0]);
        }
    }
    assert(ui_command("quit"@) == Some(Command::Exit)) by {
        assert("quit"@[0] != "new"@[0]);
        assert("quit"@[0] != "sessions"@[0]);
        assert("quit"@[0] != "plan"@[0]);
        assert("quit"@[0] != "models"@[0]);
        assert("quit"@[0] != "compact"@[0]);
        assert("quit"@[0] != "skills"@[0]);
        assert("quit"@[0] != "mcp"@[0]);
        assert("quit"@[0] != "tasks"@[0]);
        assert("quit"@[0] != "yolo"@[0]);
        assert("quit"@[0] != "exit"@[0]);
    }
    assert(ui_command("q"@) == Some(Command::Exit)) by {
        assert("q"@[0] != "new"@[0]);
        assert("q"@[0] != "sessions"@[0]);
        assert("q"@[0] != "plan"@[0]);
        assert("q"@[0] != "models"@[0]);
        assert("q"@[0] != "compact"@[0]);
        assert("q"@[0] != "skills"@[0]);
        assert("q"@[0] != "mcp"@[0]);
        assert("q"@[0] != "tasks"@[0]);
        assert("q"@[0] != "yolo"@[0]);
        assert("q"@[0] != "exit"@[0]);
        assert("q"@.len() != "quit"@.len());
    }
    if ui_command(name) is Some && name != "quit"@ && name != "q"@ {
        if name == "new"@ {
            assert(ns[0] == name);
        } else if name == "sessions"@ {
            assert(ns[1] == name);
        } else if name == "plan"@ {
            assert(ns[2] == name);
        } else if name == "models"@ {
            assert(ns[3] == name);
        } else if name == "compact"@ {
            assert(ns[4] == name);
        } else if name == "skills"@ {
            assert(ns[5] == name);
        } else if name == "mcp"@ {
            assert(ns[6] == name);
        } else if name == "tasks"@ {
            assert(ns[7] == name);
        } else if name == "yolo"@ {
            assert(ns[8] == name);
        } else {
            assert(ns[9] == name);
        }
    }
}

} // verus!
