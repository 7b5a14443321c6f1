use tui2::catalog::{detected_launcher_items, known_tui_programs, should_show_program, KnownTuiProgram};
use tui2::launcher::{build_launcher_items, LauncherItem, LauncherSource};
use tui2::labels::{editing_text, favorite_marker, list_tags, priority_text, usage_label};
use tui2::priority::sort_by_priority;
use tui2::stats::{parse_stats, StatsTable};
use tui2::text::command_name;

fn names(items: &[LauncherItem]) -> Vec<String> {
    items.iter().map(|i| i.name.clone()).collect()
}

#[test]
fn sources_have_labels() {
    assert_eq!(LauncherSource::Detected.label(), "detected on this computer");
    assert_eq!(LauncherSource::Custom.label(), "added by you");
    assert_eq!(LauncherSource::Detected.short_label(), "auto");
    assert_eq!(LauncherSource::Custom.short_label(), "user");
}

#[test]
fn new_entries_are_fresh() {
    let item = LauncherItem::custom("Notes", "nvim notes", "My notes");
    assert_eq!(item.name, "Notes");
    assert_eq!(item.command, "nvim notes");
    assert_eq!(item.description, "My notes");
    assert_eq!(item.source, LauncherSource::Custom);
    assert_eq!(item.launch_count, 0);
    assert!(!item.is_favorite);
    let detected = LauncherItem::detected("Htop", "htop", "Monitor");
    assert_eq!(detected.source, LauncherSource::Detected);
}

#[test]
fn command_names_are_first_words() {
    assert_eq!(command_name("emacs -nw"), "emacs");
    assert_eq!(command_name("  dua interactive"), "dua");
    assert_eq!(command_name("htop"), "htop");
    assert_eq!(command_name("   "), "   ");
    assert_eq!(command_name(""), "");
    assert_eq!(command_name("\tnvim\u{2003}x"), "nvim");
}

#[test]
fn sorting_puts_favorites_then_usage_then_name() {
    let mut a = LauncherItem::custom("beta", "b", "");
    a.launch_count = 4;
    let mut b = LauncherItem::custom("Alpha", "a", "");
    b.launch_count = 4;
    let mut c = LauncherItem::custom("zed", "z", "");
    c.is_favorite = true;
    let d = LauncherItem::custom("delta", "d", "");
    let mut items = vec![d, a, c, b];
    sort_by_priority(&mut items);
    assert_eq!(names(&items), vec!["zed", "Alpha", "beta", "delta"]);
}

#[test]
fn sorting_compares_names_in_lowercase() {
    let mut items = vec![LauncherItem::custom("Beta", "b", ""), LauncherItem::custom("alpha", "a", "")];
    sort_by_priority(&mut items);
    assert_eq!(names(&items), vec!["alpha", "Beta"]);
}

#[test]
fn sorting_keeps_equal_entries_in_order() {
    let mut items = vec![
        LauncherItem::custom("Same", "first", ""),
        LauncherItem::custom("same", "second", ""),
        LauncherItem::custom("Other", "x", ""),
        LauncherItem::custom("SAME", "third", ""),
    ];
    sort_by_priority(&mut items);
    let commands: Vec<String> = items.iter().map(|i| i.command.clone()).collect();
    assert_eq!(commands, vec!["x", "first", "second", "third"]);
}

#[test]
fn building_merges_custom_and_detected_entries() {
    let custom = vec![
        LauncherItem::custom("My Vim", "nvim ~/code", "Code"),
        LauncherItem::custom("Notes", "nvim ~/notes", "Notes"),
    ];
    let detected = vec![
        LauncherItem::detected("Neovim", "nvim", "Editor"),
        LauncherItem::detected("Htop", "htop", "Monitor"),
        LauncherItem::detected("Htop again", "htop -t", "Monitor"),
        LauncherItem::detected("Btop", "btop", "Monitor"),
    ];
    let stats = parse_stats("btop\t9\tfalse\nnvim\t2\ttrue\n");
    let items = build_launcher_items(custom, &stats, detected);
    assert_eq!(names(&items), vec!["My Vim", "Notes", "Btop", "Htop"]);
    assert!(items[0].is_favorite && items[1].is_favorite);
    assert_eq!(items[0].launch_count, 2);
    assert_eq!(items[2].launch_count, 9);
    assert_eq!(items[3].launch_count, 0);
    assert_eq!(items[3].source, LauncherSource::Detected);
}

#[test]
fn building_with_nothing_gives_nothing() {
    let items = build_launcher_items(Vec::new(), &StatsTable::new(), Vec::new());
    assert!(items.is_empty());
}

#[test]
fn multiplexers_are_hidden_inside_their_sessions() {
    assert!(!should_show_program("tmux", true, false));
    assert!(should_show_program("tmux", false, true));
    assert!(!should_show_program("zellij --layout x", false, true));
    assert!(should_show_program("nvim", true, true));
}

#[test]
fn detected_entries_follow_the_installed_marks() {
    let programs = vec![
        KnownTuiProgram { name: "Tmux", command: "tmux", description: "mux" },
        KnownTuiProgram { name: "Htop", command: "htop", description: "top" },
        KnownTuiProgram { name: "Btop", command: "btop", description: "top" },
        KnownTuiProgram { name: "Lf", command: "lf", description: "files" },
    ];
    let items = detected_launcher_items(&programs, true, false, &vec![true, true, false]);
    assert_eq!(names(&items), vec!["Htop"]);
    assert_eq!(items[0].source, LauncherSource::Detected);
    let items = detected_launcher_items(&programs, false, false, &vec![true, true, true, true]);
    assert_eq!(names(&items), vec!["Tmux", "Htop", "Btop", "Lf"]);
}

#[test]
fn the_catalog_knows_its_programs() {
    let programs = known_tui_programs();
    assert_eq!(programs.len(), 66);
    assert_eq!(programs[0].name, "Zellij");
    assert_eq!(programs[6].command, "emacs -nw");
    assert_eq!(programs[65].command, "viddy");
    assert_eq!((programs[2].name, programs[2].command), ("Neovim", "nvim"));
    assert_eq!((programs[4].name, programs[4].command), ("Helix", "hx"));
    assert_eq!((programs[21].name, programs[21].command), ("Midnight Commander", "mc"));
    assert_eq!((programs[24].name, programs[24].command), ("Bottom", "btm"));
    for (i, a) in programs.iter().enumerate() {
        assert!(!a.name.is_empty() && !a.command.is_empty() && !a.description.is_empty());
        for b in programs.iter().skip(i + 1) {
            assert_ne!(command_name(a.command), command_name(b.command));
        }
    }
}

#[test]
fn usage_is_told_in_words() {
    assert_eq!(usage_label(0), "never used");
    assert_eq!(usage_label(1), "used once");
    assert_eq!(usage_label(4), "used 4x");
    assert_eq!(usage_label(4294967295), "used 4294967295x");
    assert_eq!(priority_text(true, 1), "favorite, used once");
    assert_eq!(priority_text(false, 12), "not favorited, used 12x");
}

#[test]
fn list_rows_show_tags() {
    let mut item = LauncherItem::detected("Neovim", "nvim", "Editor");
    item.launch_count = 4;
    assert_eq!(list_tags(&item), "  [auto | used 4x]");
    let item = LauncherItem::custom("Notes", "nvim", "Notes");
    assert_eq!(list_tags(&item), "  [user | never used]");
    assert_eq!(favorite_marker(true), "[fav] ");
    assert_eq!(favorite_marker(false), "");
}

#[test]
fn form_fields_show_a_cursor_or_a_dash() {
    assert_eq!(editing_text("abc", true), "abc_");
    assert_eq!(editing_text("", true), "_");
    assert_eq!(editing_text("", false), "-");
    assert_eq!(editing_text("abc", false), "abc");
}
