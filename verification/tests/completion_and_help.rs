use sand_ui::console::{CompletionNode, ConsoleCache};
use sand_ui::help::{available_commands_help, command_tree_help, help_text, CommandSummary};

fn node(name: &str, children: Vec<CompletionNode>) -> CompletionNode {
    CompletionNode { name: name.to_string(), children }
}

fn command_tree() -> Vec<CompletionNode> {
    vec![
        node(
            "brush",
            vec![node("set", vec![node("size", vec![]), node("type", vec![]), node("mode", vec![])])],
        ),
        node("help", vec![]),
        node("scene", vec![node("spawn", vec![]), node("list", vec![])]),
    ]
}

fn path(items: &[&str]) -> Vec<String> {
    items.iter().map(|s| s.to_string()).collect()
}

#[test]
fn cache_starts_empty() {
    let cache = ConsoleCache::new();
    assert!(cache.context_tries().is_empty());
}

#[test]
fn rebuild_makes_one_trie_per_path_with_completions() {
    let mut cache = ConsoleCache::new();
    cache.rebuild_tries(&command_tree());
    let mut keys: Vec<Vec<String>> = cache.context_tries().iter().map(|(k, _)| k.clone()).collect();
    keys.sort();
    assert_eq!(keys, vec![path(&[]), path(&["brush"]), path(&["brush", "set"]), path(&["scene"])]);
}

#[test]
fn tries_answer_the_completions_of_their_path() {
    let mut cache = ConsoleCache::new();
    cache.rebuild_tries(&command_tree());
    let find = |p: &[&str]| {
        cache
            .context_tries()
            .iter()
            .find(|(k, _)| *k == path(p))
            .map(|(_, t)| t)
            .expect("path has a trie")
    };
    let root = find(&[]);
    assert!(root.exact_match("brush"));
    assert!(root.exact_match("help"));
    assert!(root.exact_match("scene"));
    assert!(!root.exact_match("set"));
    assert!(!root.exact_match("bru"));
    let set = find(&["brush", "set"]);
    assert!(set.exact_match("size"));
    assert!(set.exact_match("mode"));
    assert!(!set.exact_match("brush"));
    let scene = find(&["scene"]);
    assert!(scene.exact_match("list"));
    assert!(!scene.exact_match("size"));
}

#[test]
fn rebuild_replaces_previous_tries() {
    let mut cache = ConsoleCache::new();
    cache.rebuild_tries(&command_tree());
    cache.rebuild_tries(&vec![node("exit", vec![])]);
    let tries = cache.context_tries();
    assert_eq!(tries.len(), 1);
    assert_eq!(tries[0].0, path(&[]));
    assert!(tries[0].1.exact_match("exit"));
    assert!(!tries[0].1.exact_match("brush"));
}

#[test]
fn duplicate_names_share_one_entry() {
    let tree = vec![node("a", vec![node("x", vec![])]), node("a", vec![node("y", vec![])])];
    let mut cache = ConsoleCache::new();
    cache.rebuild_tries(&tree);
    let tries = cache.context_tries();
    assert_eq!(tries.len(), 2);
    let a = tries.iter().find(|(k, _)| *k == path(&["a"])).unwrap();
    assert!(a.1.exact_match("x"));
    assert!(!a.1.exact_match("y"));
}

#[test]
fn non_ascii_completions_are_stored_as_utf8() {
    let mut cache = ConsoleCache::new();
    cache.rebuild_tries(&vec![node("général", vec![])]);
    assert!(cache.context_tries()[0].1.exact_match("général".as_bytes()));
}

fn summary(name: &str, description: &str, is_executable: bool, children: Vec<CommandSummary>) -> CommandSummary {
    CommandSummary { name: name.to_string(), description: description.to_string(), is_executable, children }
}

fn summaries() -> Vec<CommandSummary> {
    vec![
        summary(
            "brush",
            "Brush operations",
            false,
            vec![summary("set", "Set brush properties", false, vec![]), summary("reset", "Reset", true, vec![])],
        ),
        summary("exit", "Exit the application", true, vec![]),
    ]
}

#[test]
fn tree_help_lists_subcommands() {
    let text = command_tree_help(&path(&["brush"]), "Brush operations", false, &summaries()[0].children);
    assert_eq!(
        text,
        "brush - Brush operations\tSubcommands:    set - Set brush properties    reset - Reset\t(executable)"
    );
}

#[test]
fn tree_help_of_executable_leaf() {
    let text = command_tree_help(&path(&["camera", "reset"]), "Reset the camera", true, &vec![]);
    assert_eq!(text, "camera reset - Reset the camera\t(executable command)");
}

#[test]
fn overview_help() {
    assert_eq!(
        available_commands_help(&summaries()),
        "Available commands:brush - Brush operations\t(has subcommands: set, resetexit - Exit the application"
    );
    assert_eq!(available_commands_help(&vec![]), "Available commands:");
}

#[test]
fn help_text_targets() {
    assert_eq!(help_text(None, &summaries()), Ok(available_commands_help(&summaries())));
    assert_eq!(
        help_text(Some("exit"), &summaries()),
        Ok("exit - Exit the application\t(executable command)".to_string())
    );
    assert_eq!(help_text(Some("warp"), &summaries()), Err("Command 'warp' does not exist".to_string()));
}
