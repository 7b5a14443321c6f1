use tui2::config::{config_directory, config_file_path, parse_custom_items, render_custom_items, stats_file_path};
use tui2::launcher::{LauncherItem, LauncherSource, record_launch, toggle_favorite};
use tui2::stats::{parse_stats, LauncherStats, StatsTable};

#[test]
fn custom_items_are_read_line_by_line() {
    let text = "# comment line\n\nNeovim\tnvim\tEdit files\n  Notes\tnvim ~/notes  \r\nonly-a-name\n#Hidden\tx\ty\nTabs\tcmd\tdesc\twith\ttabs\n";
    let items = parse_custom_items(text);
    assert_eq!(items.len(), 3);
    assert_eq!(items[0].name, "Neovim");
    assert_eq!(items[0].command, "nvim");
    assert_eq!(items[0].description, "Edit files");
    assert_eq!(items[0].source, LauncherSource::Custom);
    assert_eq!(items[0].launch_count, 0);
    assert!(!items[0].is_favorite);
    assert_eq!(items[1].name, "Notes");
    assert_eq!(items[1].command, "nvim ~/notes");
    assert_eq!(items[1].description, "Added from config file.");
    assert_eq!(items[2].name, "Tabs");
    assert_eq!(items[2].command, "cmd");
    assert_eq!(items[2].description, "desc\twith\ttabs");
}

#[test]
fn custom_items_of_empty_text() {
    assert!(parse_custom_items("").is_empty());
    assert!(parse_custom_items("\n\n   \n# only comments\n").is_empty());
}

#[test]
fn custom_items_are_written_with_a_header() {
    let items = vec![
        LauncherItem::custom("Notes", "nvim ~/notes", "My notes"),
        LauncherItem::custom("Tab\tname", "a\tb", "c\td"),
    ];
    let text = render_custom_items(&items);
    assert_eq!(
        text,
        "# TUI launcher entries. Each line is: name<TAB>command<TAB>description\nNotes\tnvim ~/notes\tMy notes\nTab name\ta b\tc d\n"
    );
}

#[test]
fn custom_items_round_trip() {
    let items = vec![
        LauncherItem::custom("Notes", "nvim ~/notes", "My notes"),
        LauncherItem::custom("Top", "", "Process monitor"),
        LauncherItem::custom("Ünïcode", "  htop  ", "ends here."),
    ];
    let back = parse_custom_items(&render_custom_items(&items));
    assert_eq!(back.len(), items.len());
    for (a, b) in items.iter().zip(back.iter()) {
        assert_eq!(a.name, b.name);
        assert_eq!(a.command, b.command);
        assert_eq!(a.description, b.description);
        assert_eq!(a.source, b.source);
    }
}

#[test]
fn custom_item_with_blank_description_reads_back_with_the_default() {
    let items = vec![LauncherItem::custom("Notes", "nvim", "")];
    let back = parse_custom_items(&render_custom_items(&items));
    assert_eq!(back[0].description, "Added from config file.");
}

#[test]
fn stats_are_read_with_defaults() {
    let text = "# header\nnvim\t4\ttrue\nhtop\tmany\tfalse\nlazygit\t+7\tTRUE\nshort\t3\n  btop\t4294967295\ttrue  \nnvim\t5\tfalse\ntoo_big\t4294967296\ttrue\n";
    let stats = parse_stats(text);
    assert_eq!(stats.len(), 5);
    assert_eq!(stats.get("nvim"), Some(LauncherStats { launch_count: 5, is_favorite: false }));
    assert_eq!(stats.get("htop"), Some(LauncherStats { launch_count: 0, is_favorite: false }));
    assert_eq!(stats.get("lazygit"), Some(LauncherStats { launch_count: 7, is_favorite: false }));
    assert_eq!(stats.get("btop"), Some(LauncherStats { launch_count: 4294967295, is_favorite: true }));
    assert_eq!(stats.get("too_big"), Some(LauncherStats { launch_count: 0, is_favorite: true }));
    assert_eq!(stats.get("short"), None);
}

#[test]
fn stats_are_written_in_command_order() {
    let stats = parse_stats("zellij\t2\tfalse\nbtop\t10\ttrue\nhtop\t0\tfalse\n");
    assert_eq!(
        stats.render(),
        "# TUI usage stats. Each line is: command<TAB>launch_count<TAB>favorite\nbtop\t10\ttrue\nhtop\t0\tfalse\nzellij\t2\tfalse\n"
    );
}

#[test]
fn stats_round_trip() {
    let mut stats = StatsTable::new();
    toggle_favorite(&mut stats, "nvim ~/notes");
    record_launch(&mut stats, "htop");
    record_launch(&mut stats, "htop");
    record_launch(&mut stats, "Émacs -nw");
    let back = parse_stats(&stats.render());
    assert_eq!(back.len(), 3);
    assert_eq!(back.get("nvim"), stats.get("nvim"));
    assert_eq!(back.get("htop"), Some(LauncherStats { launch_count: 2, is_favorite: false }));
    assert_eq!(back.get("Émacs"), Some(LauncherStats { launch_count: 1, is_favorite: false }));
    assert_eq!(back.render(), stats.render());
}

#[test]
fn toggling_a_favorite_twice_restores_it() {
    let mut stats = parse_stats("nvim\t3\tfalse\n");
    assert!(toggle_favorite(&mut stats, "nvim file.txt"));
    assert_eq!(stats.get("nvim"), Some(LauncherStats { launch_count: 3, is_favorite: true }));
    assert!(!toggle_favorite(&mut stats, "  nvim"));
    assert_eq!(stats.get("nvim"), Some(LauncherStats { launch_count: 3, is_favorite: false }));
}

#[test]
fn toggling_an_unknown_program_creates_it() {
    let mut stats = StatsTable::new();
    assert!(toggle_favorite(&mut stats, "yazi"));
    assert_eq!(stats.get("yazi"), Some(LauncherStats { launch_count: 0, is_favorite: true }));
}

#[test]
fn recording_a_launch_counts_and_saturates() {
    let mut stats = parse_stats("btop\t4294967295\ttrue\n");
    record_launch(&mut stats, "btop");
    assert_eq!(stats.get("btop"), Some(LauncherStats { launch_count: u32::MAX, is_favorite: true }));
    record_launch(&mut stats, "dua interactive");
    record_launch(&mut stats, "dua");
    assert_eq!(stats.get("dua"), Some(LauncherStats { launch_count: 2, is_favorite: false }));
    assert_eq!(stats.get("dua interactive"), None);
}

#[test]
fn config_paths_follow_the_environment() {
    assert_eq!(config_directory(Some("/x"), Some("/home/u")), vec!["/x", "tui2"]);
    assert_eq!(config_directory(None, Some("/home/u")), vec!["/home/u", ".config", "tui2"]);
    assert_eq!(config_directory(None, None), vec!["."]);
    assert_eq!(config_file_path(Some("/x"), None), vec!["/x", "tui2", "launchers.txt"]);
    assert_eq!(stats_file_path(None, Some("/h")), vec!["/h", ".config", "tui2", "stats.txt"]);
    assert_eq!(stats_file_path(None, None), vec![".", "stats.txt"]);
}
