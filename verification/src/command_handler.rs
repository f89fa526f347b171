//! The registry as the program builds it at startup, and the help menu
//! that lists it.

use crate::command::Command;
use crate::registry::{lemma_absent, Entry, Registry};
use crate::text::{center, centered, views, SEPARATOR};
use vstd::prelude::*;
use vstd::string::*;

verus! {

/// The entries of the registry that the program starts with, in menu order.
pub open spec fn default_entries() -> Seq<Entry> {
    seq![
        ("sS"@, Command::Search),
        ("S"@, Command::Install),
        ("R"@, Command::Uninstall),
        ("pconfig"@, Command::PrintConfig),
        ("config"@, Command::EditConfig),
        ("l"@, Command::List),
        ("h"@, Command::Help),
        ("q"@, Command::Quit),
    ]
}

/// The menu line of one entry: a bullet, the token, a hyphen between
/// spaces, and the command's description.
pub open spec fn menu_line(entry: Entry) -> Seq<char> {
    "\u{2022} "@ + entry.0 + " - "@ + entry.1.description_text()
}

/// The title of the help menu for the program version `version`.
pub open spec fn menu_title(version: Seq<char>) -> Seq<char> {
    "Modify "@ + version
}

/// The help menu: the banner with the centred title, then one line for
/// each entry, in the order of the registry.
pub open spec fn help_menu(entries: Seq<Entry>, version: Seq<char>) -> Seq<Seq<char>> {
    seq![centered(SEPARATOR@, menu_title(version))] + entries.map_values(|e: Entry| menu_line(e))
}

/// Builds the registry that the program starts with: eight tokens, each
/// with its command, in the order in which the menu shows them.
pub fn create_command_handler() -> (r: Registry)
    ensures
        r@ == default_entries(),
        r.wf(),
{
    proof {
        reveal_strlit("sS");
        reveal_strlit("S");
        reveal_strlit("R");
        reveal_strlit("pconfig");
        reveal_strlit("config");
        reveal_strlit("l");
        reveal_strlit("h");
        reveal_strlit("q");
    }
    proof {
        assert("sS"@.len() == 2 && "sS"@[0] == 's');
        assert("S"@.len() == 1 && "S"@[0] == 'S');
        assert("R"@.len() == 1 && "R"@[0] == 'R');
        assert("pconfig"@.len() == 7 && "pconfig"@[0] == 'p');
        assert("config"@.len() == 6 && "config"@[0] == 'c');
        assert("l"@.len() == 1 && "l"@[0] == 'l');
        assert("h"@.len() == 1 && "h"@[0] == 'h');
        assert("q"@.len() == 1 && "q"@[0] == 'q');
    }
    let mut dispatcher = Registry::new();
    proof {
        lemma_absent(dispatcher@, "sS"@, Command::Search);
    }
    dispatcher.insert("sS", Command::Search);
    assert(dispatcher@ =~= default_entries().take(1));
    proof {
        lemma_absent(dispatcher@, "S"@, Command::Install);
    }
    dispatcher.insert("S", Command::Install);
    assert(dispatcher@ =~= default_entries().take(2));
    proof {
        lemma_absent(dispatcher@, "R"@, Command::Uninstall);
    }
    dispatcher.insert("R", Command::Uninstall);
    assert(dispatcher@ =~= default_entries().take(3));
    proof {
        lemma_absent(dispatcher@, "pconfig"@, Command::PrintConfig);
    }
    dispatcher.insert("pconfig", Command::PrintConfig);
    assert(dispatcher@ =~= default_entries().take(4));
    proof {
        lemma_absent(dispatcher@, "config"@, Command::EditConfig);
    }
    dispatcher.insert("config", Command::EditConfig);
    assert(dispatcher@ =~= default_entries().take(5));
    proof {
        lemma_absent(dispatcher@, "l"@, Command::List);
    }
    dispatcher.insert("l", Command::List);
    assert(dispatcher@ =~= default_entries().take(6));
    proof {
        lemma_absent(dispatcher@, "h"@, Command::Help);
    }
    dispatcher.insert("h", Command::Help);
    assert(dispatcher@ =~= default_entries().take(7));
    proof {
        lemma_absent(dispatcher@, "q"@, Command::Quit);
    }
    dispatcher.insert("q", Command::Quit);
    assert(dispatcher@ =~= default_entries().take(8));
    assert(dispatcher@ =~= default_entries());
    dispatcher
}

/// The menu line of the entry `token`, `command`.
pub fn menu_line_string(token: &str, command: Command) -> (r: String)
    ensures
        r@ == menu_line((token@, command)),
{
    let mut line = String::from_str("\u{2022} ");
    line.append(token);
    line.append(" - ");
    line.append(command.description());
    line
}

/// The lines of the help menu of `registry` for the program version
/// `version`: the banner, then the entries in insertion order.
pub fn print_help_menu(registry: &Registry, version: &str) -> (lines: Vec<String>)
    ensures
        views(lines@) == help_menu(registry@, version@),
{
    let mut title = String::from_str("Modify ");
    title.append(version);
    let mut lines: Vec<String> = Vec::new();
    lines.push(center(SEPARATOR, title.as_str()));
    let n = registry.len();
    let mut i: usize = 0;
    while i < n
        invariant
            0 <= i <= n,
            n == registry@.len(),
            views(lines@) == seq![
                centered(SEPARATOR@, menu_title(version@)),
            ] + registry@.take(i as int).map_values(|e: Entry| menu_line(e)),
        decreases n - i,
    {
        let ghost before = views(lines@);
        match registry.entry(i) {
            Some((token, command)) => {
                lines.push(menu_line_string(token, command));
            },
            None => {},
        }
        assert(views(lines@) =~= before.push(menu_line(registry@[i as int])));
        assert(registry@.take(i as int + 1).map_values(|e: Entry| menu_line(e))
            =~= registry@.take(i as int).map_values(|e: Entry| menu_line(e)).push(
            menu_line(registry@[i as int]),
        ));
        i += 1;
    }
    assert(registry@.take(n as int) =~= registry@);
    lines
}

} // verus!
