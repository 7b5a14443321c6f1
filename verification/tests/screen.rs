use tui2::app::{Action, AddStep, App, AppMode, Key};
use tui2::launcher::LauncherItem;

fn sample() -> Vec<LauncherItem> {
    vec![
        LauncherItem::custom("One", "one", "first"),
        LauncherItem::custom("Two", "two --flag", "second"),
        LauncherItem::detected("Three", "three", "third"),
    ]
}

fn form_step(app: &App) -> Option<AddStep> {
    match &app.mode {
        AppMode::Adding(form) => Some(form.step),
        AppMode::Normal => None,
    }
}

#[test]
fn opening_tells_how_many_launchers() {
    let app = App::new(sample());
    assert_eq!(app.status, "Found 3 launchers.");
    assert_eq!(app.selected, 0);
    assert!(!app.should_quit);
    assert!(matches!(app.mode, AppMode::Normal));
    assert_eq!(App::new(vec![LauncherItem::custom("a", "a", "")]).status, "Found 1 launcher.");
    assert_eq!(App::new(Vec::new()).status, "Found 0 launchers.");
}

#[test]
fn selection_wraps_around() {
    let mut app = App::new(sample());
    app.handle_key(Key::Char('k'));
    assert_eq!(app.selected, 2);
    app.handle_key(Key::Down);
    assert_eq!(app.selected, 0);
    app.handle_key(Key::Char('j'));
    app.handle_key(Key::Char('j'));
    assert_eq!(app.selected, 2);
    app.handle_key(Key::Up);
    assert_eq!(app.selected, 1);
}

#[test]
fn moving_down_then_up_restores_the_selection() {
    let mut app = App::new(sample());
    for start in 0..3 {
        app.selected = start;
        app.select_next();
        app.select_previous();
        assert_eq!(app.selected, start);
    }
    let mut empty = App::new(Vec::new());
    empty.select_next();
    empty.select_previous();
    assert_eq!(empty.selected, 0);
}

#[test]
fn quitting() {
    let mut app = App::new(sample());
    assert!(matches!(app.handle_key(Key::Char('x')), Action::Continue));
    assert!(!app.should_quit);
    app.handle_key(Key::Char('q'));
    assert!(app.should_quit);
    let mut app = App::new(sample());
    app.handle_key(Key::Esc);
    assert!(app.should_quit);
}

#[test]
fn keys_ask_for_outside_work() {
    let mut app = App::new(sample());
    app.selected = 1;
    match app.handle_key(Key::Char('f')) {
        Action::ToggleFavorite(item) => assert_eq!(item.command, "two --flag"),
        _ => panic!("expected a favorite toggle"),
    }
    match app.handle_key(Key::Enter) {
        Action::Launch(item) => assert_eq!(item.name, "Two"),
        _ => panic!("expected a launch"),
    }
    assert!(matches!(app.handle_key(Key::Char('r')), Action::Reload));
}

#[test]
fn nothing_to_favorite_or_launch_in_an_empty_list() {
    let mut app = App::new(Vec::new());
    assert!(matches!(app.handle_key(Key::Char('f')), Action::Continue));
    assert_eq!(app.status, "Nothing to favorite. Press a to add a TUI.");
    assert!(matches!(app.handle_key(Key::Enter), Action::Continue));
    assert_eq!(app.status, "Nothing to launch. Press a to add a TUI.");
}

#[test]
fn adding_a_launcher_step_by_step() {
    let mut app = App::new(sample());
    app.handle_key(Key::Char('a'));
    assert_eq!(app.status, "Adding a launcher.");
    assert_eq!(form_step(&app), Some(AddStep::Name));
    for c in " Notesx".chars() {
        app.handle_key(Key::Char(c));
    }
    app.handle_key(Key::Backspace);
    app.handle_key(Key::Enter);
    assert_eq!(form_step(&app), Some(AddStep::Command));
    for c in "nvim ~/notes ".chars() {
        app.handle_key(Key::Char(c));
    }
    app.handle_key(Key::Enter);
    assert_eq!(form_step(&app), Some(AddStep::Description));
    let action = app.handle_key(Key::Enter);
    let item = match action {
        Action::SaveItem(item) => item,
        _ => panic!("expected a save"),
    };
    assert_eq!(item.name, "Notes");
    assert_eq!(item.command, "nvim ~/notes");
    assert_eq!(item.description, "Added from inside the launcher.");
    app.save_new_item(item, Ok("/home/u/.config/tui2/launchers.txt".to_string()));
    assert_eq!(app.items.len(), 4);
    assert_eq!(app.selected, 3);
    assert!(matches!(app.mode, AppMode::Normal));
    assert_eq!(app.status, "Saved launcher to /home/u/.config/tui2/launchers.txt.");
}

#[test]
fn adding_needs_a_name_and_a_command() {
    let mut app = App::new(sample());
    app.handle_key(Key::Char('a'));
    app.handle_key(Key::Char(' '));
    app.handle_key(Key::Enter);
    app.handle_key(Key::Char('x'));
    app.handle_key(Key::Enter);
    assert!(matches!(app.handle_key(Key::Enter), Action::Continue));
    assert_eq!(app.status, "Name and command are required.");
    assert_eq!(form_step(&app), Some(AddStep::Description));
}

#[test]
fn backspace_on_an_empty_field_does_nothing() {
    let mut app = App::new(sample());
    app.handle_key(Key::Char('a'));
    app.handle_key(Key::Backspace);
    match &app.mode {
        AppMode::Adding(form) => assert_eq!(form.name, ""),
        AppMode::Normal => panic!("expected the form"),
    }
}

#[test]
fn adding_can_be_cancelled_or_fail() {
    let mut app = App::new(sample());
    app.handle_key(Key::Char('a'));
    app.handle_key(Key::Esc);
    assert!(matches!(app.mode, AppMode::Normal));
    assert_eq!(app.status, "Add cancelled.");
    assert!(!app.should_quit);
    app.handle_key(Key::Char('a'));
    app.save_new_item(LauncherItem::custom("n", "c", "d"), Err("disk full".to_string()));
    assert_eq!(app.status, "Could not save launcher: disk full");
    assert_eq!(app.items.len(), 3);
    assert!(matches!(app.mode, AppMode::Adding(_)));
}

#[test]
fn rescanning_keeps_the_selected_entry() {
    let mut app = App::new(sample());
    app.selected = 1;
    let mut items = sample();
    items.reverse();
    app.reload_items(items);
    assert_eq!(app.selected, 1);
    assert_eq!(app.items[1].command, "two --flag");
    assert_eq!(app.status, "Rescanned and found 3 launcher(s).");
    app.selected = 2;
    app.reload_items(vec![LauncherItem::custom("x", "x", "")]);
    assert_eq!(app.selected, 0);
    app.reload_items(Vec::new());
    assert_eq!(app.selected, 0);
    assert_eq!(app.status, "Rescanned and found 0 launcher(s).");
}

#[test]
fn favorites_and_launches_are_told() {
    let mut app = App::new(sample());
    let item = app.items[2].clone();
    let mut rebuilt = sample();
    rebuilt.rotate_left(1);
    app.finish_toggle_favorite(&item, Ok((true, rebuilt)));
    assert_eq!(app.status, "Favorited Three.");
    assert_eq!(app.selected, 1);
    app.finish_toggle_favorite(&item, Ok((false, sample())));
    assert_eq!(app.status, "Unfavorited Three.");
    assert_eq!(app.selected, 2);
    app.finish_toggle_favorite(&item, Err("denied".to_string()));
    assert_eq!(app.status, "Could not update favorite: denied");
    app.finish_launch(&item, Ok(0), sample());
    assert_eq!(app.status, "Three exited with status 0.");
    app.finish_launch(&item, Ok(-2), sample());
    assert_eq!(app.status, "Three exited with status -2.");
    app.finish_launch(&item, Err("not found".to_string()), sample());
    assert_eq!(app.status, "Could not launch Three: not found");
}

#[test]
fn selection_moves_from_outside_the_list() {
    let mut app = App::new(sample());
    app.selected = 7;
    app.select_next();
    assert_eq!(app.selected, 2);
    app.selected = 7;
    app.select_previous();
    assert_eq!(app.selected, 6);
    let mut empty = App::new(Vec::new());
    empty.selected = 5;
    empty.select_next();
    empty.select_previous();
    assert_eq!(empty.selected, 5);
}

#[test]
fn advancing_the_form_while_browsing_does_nothing() {
    let mut app = App::new(sample());
    assert!(matches!(app.advance_add_form(), Action::Continue));
    assert!(matches!(app.mode, AppMode::Normal));
    assert_eq!(app.status, "Found 3 launchers.");
}

#[test]
fn saving_selects_the_new_entry_whatever_was_selected() {
    let mut app = App::new(sample());
    app.selected = 9;
    app.save_new_item(LauncherItem::custom("n", "c", "d"), Ok("f".to_string()));
    assert_eq!(app.selected, 3);
    assert_eq!(app.items[3].name, "n");
}
