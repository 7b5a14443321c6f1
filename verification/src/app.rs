//! The interactive screen as a state machine: a key press changes the state
//! and may ask for outside work (saving, launching, rescanning), whose outcome
//! is handed back to finish the step.

use vstd::prelude::*;
use vstd::arithmetic::div_mod::{lemma_mod_self_0, lemma_small_mod};
use crate::launcher::{ItemView, LauncherItem, LauncherSource, fresh_item, views};
use crate::text::{
    decimal, pop_char, push_char, push_decimal, push_signed_decimal,
    signed_decimal, trim, trim_string,
};

verus! {

/// The field of the add form being edited.
#[derive(Clone, Copy, Debug, PartialEq, Eq, Structural)]
pub enum AddStep {
    Name,
    Command,
    Description,
}

/// The form for adding a custom launcher.
pub struct AddForm {
    pub name: String,
    pub command: String,
    pub description: String,
    pub step: AddStep,
}

/// The value of an add form.
pub struct FormView {
    pub name: Seq<char>,
    pub command: Seq<char>,
    pub description: Seq<char>,
    pub step: AddStep,
}

impl View for AddForm {
    type V = FormView;

    open spec fn view(&self) -> FormView {
        FormView {
            name: self.name@,
            command: self.command@,
            description: self.description@,
            step: self.step,
        }
    }
}

/// The description of an entry added on the screen without one.
pub open spec fn default_screen_description() -> Seq<char> {
    "Added from inside the launcher."@
}

/// The entry that a filled-in form gives: its fields trimmed; nothing when
/// the name or the command is empty; the default description when none is
/// given.
pub open spec fn form_item(f: FormView) -> Option<ItemView> {
    let name = trim(f.name);
    let command = trim(f.command);
    let description = trim(f.description);
    if name.len() == 0 || command.len() == 0 {
        None
    } else {
        Some(
            fresh_item(
                name,
                command,
                if description.len() == 0 {
                    default_screen_description()
                } else {
                    description
                },
                LauncherSource::Custom,
            ),
        )
    }
}

/// The value of the field being edited.
pub open spec fn current_field(f: FormView) -> Seq<char> {
    match f.step {
        AddStep::Name => f.name,
        AddStep::Command => f.command,
        AddStep::Description => f.description,
    }
}

/// The form with the field being edited set to `value`.
pub open spec fn with_current_field(f: FormView, value: Seq<char>) -> FormView {
    match f.step {
        AddStep::Name => FormView { name: value, ..f },
        AddStep::Command => FormView { command: value, ..f },
        AddStep::Description => FormView { description: value, ..f },
    }
}

impl AddForm {
    /// An empty form, editing the name.
    pub fn new() -> (r: Self)
        ensures
            r@ == (FormView {
                name: Seq::empty(),
                command: Seq::empty(),
                description: Seq::empty(),
                step: AddStep::Name,
            }),
    {
        AddForm {
            name: String::new(),
            command: String::new(),
            description: String::new(),
            step: AddStep::Name,
        }
    }

    /// The field being edited.
    pub fn current_value_mut(&mut self) -> (r: &mut String)
        ensures
            r@ == current_field(old(self)@),
            final(self)@ == with_current_field(old(self)@, final(r)@),
    {
        match self.step {
            AddStep::Name => &mut self.name,
            AddStep::Command => &mut self.command,
            AddStep::Description => &mut self.description,
        }
    }

    /// The entry that the form gives, as `form_item` says.
    pub fn to_launcher_item(&self) -> (r: Option<LauncherItem>)
        ensures
            match r {
                Some(item) => form_item(self@) == Some(item@),
                None => form_item(self@) is None,
            },
    {
        let name = trim_string(self.name.as_str());
        let command = trim_string(self.command.as_str());
        let description = trim_string(self.description.as_str());
        if name.as_str().is_empty() || command.as_str().is_empty() {
            return None;
        }
        let description = if description.as_str().is_empty() {
            String::from_str("Added from inside the launcher.")
        } else {
            description
        };
        Some(
            LauncherItem {
                name,
                command,
                description,
                source: LauncherSource::Custom,
                launch_count: 0,
                is_favorite: false,
            },
        )
    }
}


/// What the screen is doing.
pub enum AppMode {
    /// Browsing the list.
    Normal,
    /// Filling in the form for a new launcher.
    Adding(AddForm),
}

/// The value of a mode.
pub enum ModeView {
    Normal,
    Adding(FormView),
}

impl View for AppMode {
    type V = ModeView;

    open spec fn view(&self) -> ModeView {
        match self {
            AppMode::Normal => ModeView::Normal,
            AppMode::Adding(f) => ModeView::Adding(f@),
        }
    }
}

/// A key press, as far as the screen tells keys apart.
#[derive(Clone, Copy, Debug, PartialEq, Eq, Structural)]
pub enum Key {
    Char(char),
    Esc,
    Enter,
    Up,
    Down,
    Backspace,
    Other,
}

/// The outside work that a key press asks for.
pub enum Action {
    /// Nothing to do.
    Continue,
    /// Flip the favorite mark of this entry's program in the stats file, then
    /// rebuild the list (see `App::finish_toggle_favorite`).
    ToggleFavorite(LauncherItem),
    /// Rebuild the list (see `App::reload_items`).
    Reload,
    /// Count a launch of this entry, run its command, then rebuild the list
    /// (see `App::finish_launch`).
    Launch(LauncherItem),
    /// Add this entry to the config file (see `App::save_new_item`).
    SaveItem(LauncherItem),
}

/// The value of an action.
pub enum ActionView {
    Continue,
    ToggleFavorite(ItemView),
    Reload,
    Launch(ItemView),
    SaveItem(ItemView),
}

impl View for Action {
    type V = ActionView;

    open spec fn view(&self) -> ActionView {
        match self {
            Action::Continue => ActionView::Continue,
            Action::ToggleFavorite(item) => ActionView::ToggleFavorite(item@),
            Action::Reload => ActionView::Reload,
            Action::Launch(item) => ActionView::Launch(item@),
            Action::SaveItem(item) => ActionView::SaveItem(item@),
        }
    }
}

/// The state of the screen.
pub struct App {
    pub items: Vec<LauncherItem>,
    pub selected: usize,
    pub status: String,
    pub mode: AppMode,
    pub should_quit: bool,
}

/// The value of the screen's state.
pub struct AppView {
    pub items: Seq<ItemView>,
    pub selected: int,
    pub status: Seq<char>,
    pub mode: ModeView,
    pub should_quit: bool,
}

impl View for App {
    type V = AppView;

    open spec fn view(&self) -> AppView {
        AppView {
            items: views(self.items@),
            selected: self.selected as int,
            status: self.status@,
            mode: self.mode@,
            should_quit: self.should_quit,
        }
    }
}

/// The selection points at an entry, or is 0 when the list is empty.
pub open spec fn selection_valid(v: AppView) -> bool {
    if v.items.len() == 0 {
        v.selected == 0
    } else {
        0 <= v.selected < v.items.len()
    }
}

/// The status shown when the screen opens with `n` launchers.
pub open spec fn found_text(n: nat) -> Seq<char> {
    "Found "@ + decimal(n) + " launcher"@ + (if n == 1 {
        ""@
    } else {
        "s"@
    }) + "."@
}

/// The screen as it opens on the list `items`.
pub open spec fn opening(items: Seq<ItemView>) -> AppView {
    AppView {
        items,
        selected: 0,
        status: found_text(items.len()),
        mode: ModeView::Normal,
        should_quit: false,
    }
}

/// The selection moved down one entry, from the last back to the first.
pub open spec fn next_selected(v: AppView) -> AppView {
    if v.items.len() == 0 {
        v
    } else {
        AppView { selected: (v.selected + 1) % (v.items.len() as int), ..v }
    }
}

/// The selection moved up one entry, from the first round to the last.
pub open spec fn previous_selected(v: AppView) -> AppView {
    if v.items.len() == 0 {
        v
    } else if v.selected == 0 {
        AppView { selected: v.items.len() - 1, ..v }
    } else {
        AppView { selected: v.selected - 1, ..v }
    }
}

/// The empty form, editing the name.
pub open spec fn empty_form() -> FormView {
    FormView {
        name: Seq::empty(),
        command: Seq::empty(),
        description: Seq::empty(),
        step: AddStep::Name,
    }
}

/// The step of a key press while browsing the list.
pub open spec fn normal_key_step(v: AppView, key: Key) -> (AppView, ActionView) {
    match key {
        Key::Char('q') | Key::Esc => (AppView { should_quit: true, ..v }, ActionView::Continue),
        Key::Char('j') | Key::Down => (next_selected(v), ActionView::Continue),
        Key::Char('k') | Key::Up => (previous_selected(v), ActionView::Continue),
        Key::Char('a') => (
            AppView { mode: ModeView::Adding(empty_form()), status: "Adding a launcher."@, ..v },
            ActionView::Continue,
        ),
        Key::Char('f') => if 0 <= v.selected < v.items.len() {
            (v, ActionView::ToggleFavorite(v.items[v.selected]))
        } else {
            (
                AppView { status: "Nothing to favorite. Press a to add a TUI."@, ..v },
                ActionView::Continue,
            )
        },
        Key::Char('r') => (v, ActionView::Reload),
        Key::Enter => if 0 <= v.selected < v.items.len() {
            (v, ActionView::Launch(v.items[v.selected]))
        } else {
            (
                AppView { status: "Nothing to launch. Press a to add a TUI."@, ..v },
                ActionView::Continue,
            )
        },
        _ => (v, ActionView::Continue),
    }
}

/// The step of a key press while filling in the form `f`.
pub open spec fn add_key_step(v: AppView, f: FormView, key: Key) -> (AppView, ActionView) {
    match key {
        Key::Esc => (
            AppView { mode: ModeView::Normal, status: "Add cancelled."@, ..v },
            ActionView::Continue,
        ),
        Key::Enter => match f.step {
            AddStep::Name => (
                AppView { mode: ModeView::Adding(FormView { step: AddStep::Command, ..f }), ..v },
                ActionView::Continue,
            ),
            AddStep::Command => (
                AppView {
                    mode: ModeView::Adding(FormView { step: AddStep::Description, ..f }),
                    ..v
                },
                ActionView::Continue,
            ),
            AddStep::Description => match form_item(f) {
                Some(item) => (v, ActionView::SaveItem(item)),
                None => (
                    AppView { status: "Name and command are required."@, ..v },
                    ActionView::Continue,
                ),
            },
        },
        Key::Backspace => {
            let cur = current_field(f);
            let shorter = if cur.len() > 0 {
                cur.drop_last()
            } else {
                cur
            };
            (
                AppView { mode: ModeView::Adding(with_current_field(f, shorter)), ..v },
                ActionView::Continue,
            )
        },
        Key::Char(c) => (
            AppView {
                mode: ModeView::Adding(with_current_field(f, current_field(f).push(c))),
                ..v
            },
            ActionView::Continue,
        ),
        _ => (v, ActionView::Continue),
    }
}

/// The step of a key press: the new state and the outside work it asks for.
pub open spec fn key_step(v: AppView, key: Key) -> (AppView, ActionView) {
    match v.mode {
        ModeView::Normal => normal_key_step(v, key),
        ModeView::Adding(f) => add_key_step(v, f, key),
    }
}

/// The position of the first entry whose command is `command`.
pub open spec fn position_of_command(items: Seq<ItemView>, command: Seq<char>) -> Option<int>
    decreases items.len(),
{
    if items.len() == 0 {
        None
    } else if items[0].command == command {
        Some(0)
    } else {
        match position_of_command(items.drop_first(), command) {
            Some(i) => Some(i + 1),
            None => None,
        }
    }
}

/// `position_of_command` finds the first such entry, and nothing when there
/// is none.
pub proof fn lemma_position_of_command(items: Seq<ItemView>, command: Seq<char>)
    ensures
        match position_of_command(items, command) {
            Some(k) => 0 <= k < items.len() && items[k].command == command && forall|j: int|
                0 <= j < k ==> items[j].command != command,
            None => forall|j: int| 0 <= j < items.len() ==> items[j].command != command,
        },
    decreases items.len(),
{
    if items.len() > 0 && items[0].command != command {
        lemma_position_of_command(items.drop_first(), command);
        assert forall|j: int| 1 <= j < items.len() implies items[j] == items.drop_first()[j - 1] by {}
    }
}

/// The selection after the list is replaced by `items`: the first entry
/// running `command` when given and present, else the old selection, moved
/// onto the last entry when it is past the end.
pub open spec fn kept_selection(selected: int, command: Option<Seq<char>>, items: Seq<ItemView>) -> int {
    let fallback = if items.len() == 0 {
        0
    } else if selected < items.len() - 1 {
        selected
    } else {
        items.len() - 1
    };
    match command {
        Some(c) => match position_of_command(items, c) {
            Some(i) => i,
            None => fallback,
        },
        None => fallback,
    }
}

/// The state with the list replaced by `items`, keeping the entry running
/// `command` selected when there is one.
pub open spec fn reloaded_keeping(v: AppView, command: Option<Seq<char>>, items: Seq<ItemView>) -> AppView {
    AppView { items, selected: kept_selection(v.selected, command, items), ..v }
}

/// The command of the selected entry, if any.
pub open spec fn selected_command(v: AppView) -> Option<Seq<char>> {
    if 0 <= v.selected < v.items.len() {
        Some(v.items[v.selected].command)
    } else {
        None
    }
}

/// The state after a rescan found the list `items`.
pub open spec fn rescanned(v: AppView, items: Seq<ItemView>) -> AppView {
    AppView {
        status: "Rescanned and found "@ + decimal(items.len()) + " launcher(s)."@,
        ..reloaded_keeping(v, selected_command(v), items)
    }
}

/// The state after flipping the favorite mark of `item`: on success the list
/// rebuilt as `items` with `item` kept selected, and the new mark told; on
/// failure the error told.
pub open spec fn favorite_toggled_screen(
    v: AppView,
    item: ItemView,
    outcome: Result<(bool, Seq<ItemView>), Seq<char>>,
) -> AppView {
    match outcome {
        Ok((is_favorite, items)) => AppView {
            status: (if is_favorite {
                "Favorited "@
            } else {
                "Unfavorited "@
            }) + item.name + "."@,
            ..reloaded_keeping(v, Some(item.command), items)
        },
        Err(error) => AppView { status: "Could not update favorite: "@ + error, ..v },
    }
}

/// The state after running `item`: the list rebuilt as `items` with `item`
/// kept selected, and the exit status or the error told.
pub open spec fn launched_screen(
    v: AppView,
    item: ItemView,
    result: Result<i32, Seq<char>>,
    items: Seq<ItemView>,
) -> AppView {
    AppView {
        status: match result {
            Ok(code) => item.name + " exited with status "@ + signed_decimal(code as int) + "."@,
            Err(error) => "Could not launch "@ + item.name + ": "@ + error,
        },
        ..reloaded_keeping(v, Some(item.command), items)
    }
}

/// The state after saving the new entry `item`: on success the entry added at
/// the end of the list and selected, the form closed and the file told; on
/// failure the error told and the form left open.
pub open spec fn saved_screen(v: AppView, item: ItemView, outcome: Result<Seq<char>, Seq<char>>) -> AppView {
    match outcome {
        Ok(path) => AppView {
            items: v.items.push(item),
            selected: v.items.len() as int,
            mode: ModeView::Normal,
            status: "Saved launcher to "@ + path + "."@,
            ..v
        },
        Err(error) => AppView { status: "Could not save launcher: "@ + error, ..v },
    }
}

/// A result whose error is given by its text.
pub open spec fn result_text<T>(r: Result<T, String>) -> Result<T, Seq<char>> {
    match r {
        Ok(t) => Ok(t),
        Err(e) => Err(e@),
    }
}

impl App {
    /// The screen opening on the list `items`, the first entry selected.
    pub fn new(items: Vec<LauncherItem>) -> (r: Self)
        ensures
            r@ == opening(views(items@)),
            selection_valid(r@),
    {
        let n: usize = items.len();
        let mut status = String::from_str("Found ");
        push_decimal(&mut status, n as u64);
        status.append(" launcher");
        proof {
            reveal_strlit("");
        }
        if n != 1 {
            status.append("s");
        }
        status.append(".");
        assert(status@ =~= found_text(n as nat));
        App { items, selected: 0, status, mode: AppMode::Normal, should_quit: false }
    }

    /// Moves the selection down one entry, from the last back to the first.
    pub fn select_next(&mut self)
        requires
            old(self).items.len() == 0 || old(self).selected < usize::MAX,
        ensures
            final(self)@ == next_selected(old(self)@),
    {
        if self.items.len() > 0 {
            self.selected = (self.selected + 1) % self.items.len();
        }
    }

    /// Moves the selection up one entry, from the first round to the last.
    pub fn select_previous(&mut self)
        ensures
            final(self)@ == previous_selected(old(self)@),
    {
        if self.items.len() == 0 {
            return;
        }
        if self.selected == 0 {
            self.selected = self.items.len() - 1;
        } else {
            self.selected = self.selected - 1;
        }
    }

    /// Opens the empty add form.
    pub fn start_add_form(&mut self)
        ensures
            final(self)@ == (AppView {
                mode: ModeView::Adding(empty_form()),
                status: "Adding a launcher."@,
                ..old(self)@
            }),
    {
        self.mode = AppMode::Adding(AddForm::new());
        self.status = String::from_str("Adding a launcher.");
    }

    /// Asks to flip the favorite mark of the selected entry, or says that
    /// there is none.
    pub fn toggle_selected_favorite(&mut self) -> (r: Action)
        ensures
            (final(self)@, r@) == normal_key_step(old(self)@, Key::Char('f')),
    {
        if self.selected < self.items.len() {
            Action::ToggleFavorite(self.items[self.selected].duplicate())
        } else {
            self.status = String::from_str("Nothing to favorite. Press a to add a TUI.");
            Action::Continue
        }
    }

    /// Asks to launch the selected entry, or says that there is none.
    pub fn launch_selected(&mut self) -> (r: Action)
        ensures
            (final(self)@, r@) == normal_key_step(old(self)@, Key::Enter),
    {
        if self.selected < self.items.len() {
            Action::Launch(self.items[self.selected].duplicate())
        } else {
            self.status = String::from_str("Nothing to launch. Press a to add a TUI.");
            Action::Continue
        }
    }

    /// Handles a key press while browsing the list.
    fn handle_normal_key(&mut self, key: Key) -> (r: Action)
        requires
            old(self).mode@ == ModeView::Normal,
            old(self).items.len() == 0 || old(self).selected < usize::MAX,
        ensures
            (final(self)@, r@) == normal_key_step(old(self)@, key),
    {
        match key {
            Key::Char('q') | Key::Esc => {
                self.should_quit = true;
                Action::Continue
            },
            Key::Char('j') | Key::Down => {
                self.select_next();
                Action::Continue
            },
            Key::Char('k') | Key::Up => {
                self.select_previous();
                Action::Continue
            },
            Key::Char('a') => {
                self.start_add_form();
                Action::Continue
            },
            Key::Char('f') => self.toggle_selected_favorite(),
            Key::Char('r') => Action::Reload,
            Key::Enter => self.launch_selected(),
            _ => Action::Continue,
        }
    }

    /// Replaces the list by `items`, keeping selected the first entry running
    /// `selected_command` when there is one, else keeping the selection within
    /// the list.
    pub fn reload_items_keeping(&mut self, selected_command: Option<&str>, items: Vec<LauncherItem>)
        ensures
            final(self)@ == reloaded_keeping(
                old(self)@,
                match selected_command {
                    Some(c) => Some(c@),
                    None => None,
                },
                views(items@),
            ),
            selection_valid(final(self)@),
    {
        let ghost vs = views(items@);
        let n: usize = items.len();
        let fallback: usize = if n == 0 {
            0
        } else if self.selected < n - 1 {
            self.selected
        } else {
            n - 1
        };
        let mut chosen = fallback;
        match selected_command {
            Some(c) => {
                let target = String::from_str(c);
                let mut i: usize = 0;
                while i < n && !(items[i].command == target)
                    invariant
                        i <= n == items@.len(),
                        vs == views(items@),
                        target@ == c@,
                        forall|j: int| 0 <= j < i ==> vs[j].command != c@,
                    decreases n - i,
                {
                    i = i + 1;
                }
                proof {
                    lemma_position_of_command(vs, c@);
                }
                if i < n {
                    chosen = i;
                    proof {
                        assert(vs[i as int].command == c@);
                        if let Some(k) = position_of_command(vs, c@) {
                            if k < i {
                                assert(vs[k].command != c@);
                            } else if k > i {
                                assert(vs[i as int].command != c@);
                            }
                        }
                    }
                }
            },
            None => {},
        }
        self.items = items;
        self.selected = chosen;
    }

    /// Replaces the list by the rescanned `items`, keeping the selected entry
    /// selected when it is still there, and tells how many were found.
    pub fn reload_items(&mut self, items: Vec<LauncherItem>)
        ensures
            final(self)@ == rescanned(old(self)@, views(items@)),
            selection_valid(final(self)@),
    {
        let selected = if self.selected < self.items.len() {
            Some(self.items[self.selected].command.clone())
        } else {
            None
        };
        match selected {
            Some(c) => self.reload_items_keeping(Some(c.as_str()), items),
            None => self.reload_items_keeping(None, items),
        }
        let mut status = String::from_str("Rescanned and found ");
        push_decimal(&mut status, self.items.len() as u64);
        status.append(" launcher(s).");
        self.status = status;
    }

    /// Finishes flipping the favorite mark of `item`: on success (the new mark
    /// and the rebuilt list) the list is replaced keeping `item` selected and
    /// the new mark is told; on failure the error is told.
    pub fn finish_toggle_favorite(
        &mut self,
        item: &LauncherItem,
        outcome: Result<(bool, Vec<LauncherItem>), String>,
    )
        ensures
            selection_valid(old(self)@) ==> selection_valid(final(self)@),
            final(self)@ == favorite_toggled_screen(
                old(self)@,
                item@,
                match outcome {
                    Ok((f, items)) => Ok((f, views(items@))),
                    Err(e) => Err(e@),
                },
            ),
    {
        match outcome {
            Ok((is_favorite, items)) => {
                self.reload_items_keeping(Some(item.command.as_str()), items);
                let mut status = if is_favorite {
                    String::from_str("Favorited ")
                } else {
                    String::from_str("Unfavorited ")
                };
                status.append(item.name.as_str());
                status.append(".");
                self.status = status;
            },
            Err(error) => {
                let mut status = String::from_str("Could not update favorite: ");
                status.append(error.as_str());
                self.status = status;
            },
        }
    }

    /// Finishes launching `item`: the list is replaced by the rebuilt `items`
    /// keeping `item` selected, and the exit status of its command, or the
    /// error that kept it from running, is told.
    pub fn finish_launch(&mut self, item: &LauncherItem, result: Result<i32, String>, items: Vec<LauncherItem>)
        ensures
            selection_valid(final(self)@),
            final(self)@ == launched_screen(old(self)@, item@, result_text(result), views(items@)),
    {
        self.reload_items_keeping(Some(item.command.as_str()), items);
        let mut status = item.name.clone();
        match result {
            Ok(code) => {
                status.append(" exited with status ");
                push_signed_decimal(&mut status, code);
                status.append(".");
            },
            Err(error) => {
                status = String::from_str("Could not launch ");
                status.append(item.name.as_str());
                status.append(": ");
                status.append(error.as_str());
            },
        }
        self.status = status;
    }

    /// Finishes saving the new entry `item`: on success (the path of the
    /// config file) the entry is added at the end of the list and selected and
    /// the form closed; on failure the error is told.
    pub fn save_new_item(&mut self, item: LauncherItem, outcome: Result<String, String>)
        ensures
            selection_valid(old(self)@) ==> selection_valid(final(self)@),
            final(self)@ == saved_screen(
                old(self)@,
                item@,
                match outcome {
                    Ok(path) => Ok(path@),
                    Err(e) => Err(e@),
                },
            ),
    {
        match outcome {
            Ok(path) => {
                let ghost before = self.items@;
                self.items.push(item);
                assert(views(self.items@) =~= views(before).push(item@));
                self.selected = self.items.len() - 1;
                self.mode = AppMode::Normal;
                let mut status = String::from_str("Saved launcher to ");
                status.append(path.as_str());
                status.append(".");
                self.status = status;
            },
            Err(error) => {
                let mut status = String::from_str("Could not save launcher: ");
                status.append(error.as_str());
                self.status = status;
            },
        }
    }

    /// Handles a key press while filling in the form.
    fn handle_add_key(&mut self, key: Key) -> (r: Action)
        requires
            old(self).mode@ is Adding,
        ensures
            (final(self)@, r@) == add_key_step(old(self)@, old(self).mode@->Adding_0, key),
    {
        match key {
            Key::Esc => {
                self.mode = AppMode::Normal;
                self.status = String::from_str("Add cancelled.");
                Action::Continue
            },
            Key::Enter => self.advance_add_form(),
            Key::Backspace => {
                match &mut self.mode {
                    AppMode::Adding(form) => {
                        pop_char(form.current_value_mut());
                    },
                    AppMode::Normal => {},
                }
                Action::Continue
            },
            Key::Char(c) => {
                match &mut self.mode {
                    AppMode::Adding(form) => {
                        push_char(form.current_value_mut(), c);
                    },
                    AppMode::Normal => {},
                }
                Action::Continue
            },
            _ => Action::Continue,
        }
    }

    /// Handles a key press: changes the state as `key_step` says and returns
    /// the outside work it asks for.
    pub fn handle_key(&mut self, key: Key) -> (r: Action)
        requires
            old(self).items.len() == 0 || old(self).selected < usize::MAX,
        ensures
            (final(self)@, r@) == key_step(old(self)@, key),
            selection_valid(old(self)@) ==> selection_valid(final(self)@),
    {
        match self.mode {
            AppMode::Normal => self.handle_normal_key(key),
            AppMode::Adding(_) => self.handle_add_key(key),
        }
    }

    /// Moves the form to its next field, or, on the last field, asks to save
    /// the entry it gives (or says what is missing).
    pub fn advance_add_form(&mut self) -> (r: Action)
        ensures
            (final(self)@, r@) == match old(self).mode@ {
                ModeView::Adding(f) => add_key_step(old(self)@, f, Key::Enter),
                ModeView::Normal => (old(self)@, ActionView::Continue),
            },
    {
        let step = match &self.mode {
            AppMode::Adding(form) => form.step,
            AppMode::Normal => AddStep::Name,
        };
        match step {
            AddStep::Name => {
                match &mut self.mode {
                    AppMode::Adding(form) => {
                        form.step = AddStep::Command;
                    },
                    AppMode::Normal => {},
                }
                Action::Continue
            },
            AddStep::Command => {
                match &mut self.mode {
                    AppMode::Adding(form) => {
                        form.step = AddStep::Description;
                    },
                    AppMode::Normal => {},
                }
                Action::Continue
            },
            AddStep::Description => {
                let item = match &self.mode {
                    AppMode::Adding(form) => form.to_launcher_item(),
                    AppMode::Normal => None,
                };
                match item {
                    Some(item) => Action::SaveItem(item),
                    None => {
                        self.status = String::from_str("Name and command are required.");
                        Action::Continue
                    },
                }
            },
        }
    }
}


/// Moving the selection down and then up gives back the state.
pub proof fn law_select_next_then_previous(v: AppView)
    requires
        selection_valid(v),
    ensures
        previous_selected(next_selected(v)) == v,
{
    if v.items.len() > 0 {
        let n = v.items.len() as int;
        if v.selected + 1 < n {
            lemma_small_mod((v.selected + 1) as nat, n as nat);
        } else {
            lemma_mod_self_0(n);
        }
    }
}

/// Moving the selection up and then down gives back the state.
pub proof fn law_select_previous_then_next(v: AppView)
    requires
        selection_valid(v),
    ensures
        next_selected(previous_selected(v)) == v,
{
    if v.items.len() > 0 {
        let n = v.items.len() as int;
        let p = previous_selected(v).selected;
        assert(0 <= p < n);
        if p + 1 < n {
            lemma_small_mod((p + 1) as nat, n as nat);
        } else {
            lemma_mod_self_0(n);
        }
    }
}

/// Every key press keeps the selection on an entry (or at 0 for an empty
/// list).
pub proof fn law_key_step_keeps_selection(v: AppView, key: Key)
    requires
        selection_valid(v),
    ensures
        selection_valid(key_step(v, key).0),
{
    if v.items.len() > 0 {
        let n = v.items.len() as int;
        assert(0 <= (v.selected + 1) % n < n);
    }
}


/// In the add form, a typed character goes to the end of the field of the
/// current step and Backspace removes the last character of that field (if
/// any); the other two fields and the step stay as they were.
pub proof fn law_typing_edits_the_current_field(v: AppView, f: FormView, c: char)
    requires
        v.mode == ModeView::Adding(f),
    ensures
        ({
            let typed = key_step(v, Key::Char(c)).0.mode;
            let erased = key_step(v, Key::Backspace).0.mode;
            &&& typed is Adding && erased is Adding
            &&& typed->Adding_0.step == f.step && erased->Adding_0.step == f.step
            &&& typed->Adding_0.name == if f.step == AddStep::Name {
                f.name.push(c)
            } else {
                f.name
            }
            &&& typed->Adding_0.command == if f.step == AddStep::Command {
                f.command.push(c)
            } else {
                f.command
            }
            &&& typed->Adding_0.description == if f.step == AddStep::Description {
                f.description.push(c)
            } else {
                f.description
            }
            &&& erased->Adding_0.name == if f.step == AddStep::Name && f.name.len() > 0 {
                f.name.drop_last()
            } else {
                f.name
            }
            &&& erased->Adding_0.command == if f.step == AddStep::Command && f.command.len() > 0 {
                f.command.drop_last()
            } else {
                f.command
            }
            &&& erased->Adding_0.description == if f.step == AddStep::Description
                && f.description.len() > 0 {
                f.description.drop_last()
            } else {
                f.description
            }
        }),
{
}

/// Enter on the last step of the form asks to save the entry made of the
/// trimmed name, command and description as typed, each from its own field
/// (the default description when it is empty), and nothing when the name or
/// the command is empty.
pub proof fn law_enter_saves_the_typed_fields(v: AppView, f: FormView)
    requires
        v.mode == ModeView::Adding(f),
        f.step == AddStep::Description,
    ensures
        trim(f.name).len() > 0 && trim(f.command).len() > 0 ==> key_step(v, Key::Enter).1
            == ActionView::SaveItem(
            fresh_item(
                trim(f.name),
                trim(f.command),
                if trim(f.description).len() == 0 {
                    default_screen_description()
                } else {
                    trim(f.description)
                },
                LauncherSource::Custom,
            ),
        ),
        !(trim(f.name).len() > 0 && trim(f.command).len() > 0) ==> key_step(v, Key::Enter).1
            == ActionView::Continue,
{
}

} // verus!
