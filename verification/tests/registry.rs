use modify::command::Command;
use modify::command_handler::{create_command_handler, menu_line_string, print_help_menu};
use modify::registry::Registry;

fn tokens_of(registry: &Registry) -> Vec<&'static str> {
    (0..registry.len()).map(|i| registry.entry(i).unwrap().0).collect()
}

#[test]
fn registry_lists_tokens_in_insertion_order() {
    let registry = create_command_handler();
    assert_eq!(registry.len(), 8);
    assert_eq!(tokens_of(&registry), vec!["sS", "S", "R", "pconfig", "config", "l", "h", "q"]);
}

#[test]
fn registry_order_is_the_same_on_every_build() {
    let first = create_command_handler();
    let second = create_command_handler();
    for _ in 0..3 {
        assert_eq!(tokens_of(&first), tokens_of(&second));
    }
    for i in 0..first.len() {
        assert_eq!(first.entry(i), second.entry(i));
    }
}

#[test]
fn registry_maps_each_token_to_its_command() {
    let registry = create_command_handler();
    assert_eq!(registry.get("sS"), Some(Command::Search));
    assert_eq!(registry.get("S"), Some(Command::Install));
    assert_eq!(registry.get("R"), Some(Command::Uninstall));
    assert_eq!(registry.get("pconfig"), Some(Command::PrintConfig));
    assert_eq!(registry.get("config"), Some(Command::EditConfig));
    assert_eq!(registry.get("l"), Some(Command::List));
    assert_eq!(registry.get("h"), Some(Command::Help));
    assert_eq!(registry.get("q"), Some(Command::Quit));
}

#[test]
fn registry_lookup_is_exact() {
    let registry = create_command_handler();
    assert_eq!(registry.get("Q"), None);
    assert_eq!(registry.get("s"), None);
    assert_eq!(registry.get("ss"), None);
    assert_eq!(registry.get("conf"), None);
    assert_eq!(registry.get("configs"), None);
    assert_eq!(registry.get(" q"), None);
    assert_eq!(registry.get(""), None);
}

#[test]
fn registry_entry_past_the_end_is_nothing() {
    let registry = create_command_handler();
    assert_eq!(registry.entry(7), Some(("q", Command::Quit)));
    assert_eq!(registry.entry(8), None);
    assert_eq!(Registry::new().entry(0), None);
    assert_eq!(Registry::new().len(), 0);
}

#[test]
fn registry_insert_of_known_token_keeps_its_place() {
    let mut registry = Registry::new();
    assert_eq!(registry.insert("a", Command::Search), None);
    assert_eq!(registry.insert("b", Command::Install), None);
    assert_eq!(registry.insert("c", Command::List), None);
    assert_eq!(registry.insert("a", Command::Quit), Some(Command::Search));
    assert_eq!(registry.len(), 3);
    assert_eq!(tokens_of(&registry), vec!["a", "b", "c"]);
    assert_eq!(registry.entry(0), Some(("a", Command::Quit)));
    assert_eq!(registry.get("a"), Some(Command::Quit));
}

#[test]
fn help_menu_lists_tokens_in_registry_order() {
    let registry = create_command_handler();
    let lines = print_help_menu(&registry, "0.3.1");
    assert_eq!(lines.len(), 9);
    assert_eq!(lines[0], "================ Modify 0.3.1 ================");
    let shown: Vec<&str> = lines[1..]
        .iter()
        .map(|line| line.strip_prefix("\u{2022} ").unwrap().split(" - ").next().unwrap())
        .collect();
    assert_eq!(shown, vec!["sS", "S", "R", "pconfig", "config", "l", "h", "q"]);
}

#[test]
fn help_menu_lines_pair_token_and_description() {
    let registry = create_command_handler();
    let lines = print_help_menu(&registry, "1");
    assert_eq!(lines[1], "\u{2022} sS - search for mods");
    assert_eq!(lines[2], "\u{2022} S - install a mod");
    assert_eq!(lines[3], "\u{2022} R - uninstall a mod");
    assert_eq!(lines[4], "\u{2022} pconfig - print the config");
    assert_eq!(lines[5], "\u{2022} config - edit the config");
    assert_eq!(lines[6], "\u{2022} l - list installed mods");
    assert_eq!(lines[7], "\u{2022} h - print this help menu");
    assert_eq!(lines[8], "\u{2022} q - quit the program");
    assert_eq!(
        menu_line_string("b", Command::CreateBackup),
        "\u{2022} b - create a backup of the mods folder"
    );
}

#[test]
fn help_menu_of_empty_registry_is_only_the_banner() {
    let lines = print_help_menu(&Registry::new(), "2.0");
    assert_eq!(lines, vec!["================= Modify 2.0 =================".to_string()]);
}
