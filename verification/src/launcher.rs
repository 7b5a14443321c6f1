//! Launcher entries: what one is, where it comes from, and the texts that
//! describe its source.

use vstd::prelude::*;
use crate::stats::{LauncherStats, StatsTable, saved_or_none};
use crate::text::{chars_of, program_name, command_name, same_chars, seqs_of};
use crate::priority::{is_priority_sort_of, law_priority_order, law_priority_sort_is_permutation, sort_by_priority};
use crate::text::lowercase;
use crate::text::seq_lt;

verus! {

/// Where a launcher entry comes from.
#[derive(Clone, Copy, Debug, PartialEq, Eq, Structural)]
pub enum LauncherSource {
    /// Found on this computer among the known terminal programs.
    Detected,
    /// Added by the user and kept in the config file.
    Custom,
}

impl LauncherSource {
    /// The long description of the source, shown in the detail panel.
    pub fn label(&self) -> (r: &'static str)
        ensures
            r@ == (match self {
                LauncherSource::Detected => "detected on this computer"@,
                LauncherSource::Custom => "added by you"@,
            }),
    {
        match self {
            LauncherSource::Detected => "detected on this computer",
            LauncherSource::Custom => "added by you",
        }
    }

    /// The short tag of the source, shown in the list.
    pub fn short_label(&self) -> (r: &'static str)
        ensures
            r@ == (match self {
                LauncherSource::Detected => "auto"@,
                LauncherSource::Custom => "user"@,
            }),
    {
        match self {
            LauncherSource::Detected => "auto",
            LauncherSource::Custom => "user",
        }
    }
}

/// One program that the launcher can start.
#[derive(Clone, Debug)]
pub struct LauncherItem {
    pub name: String,
    pub command: String,
    pub description: String,
    pub source: LauncherSource,
    pub launch_count: u32,
    pub is_favorite: bool,
}

/// The value of a launcher entry, with its texts as character sequences.
pub struct ItemView {
    pub name: Seq<char>,
    pub command: Seq<char>,
    pub description: Seq<char>,
    pub source: LauncherSource,
    pub launch_count: u32,
    pub is_favorite: bool,
}

impl View for LauncherItem {
    type V = ItemView;

    open spec fn view(&self) -> ItemView {
        ItemView {
            name: self.name@,
            command: self.command@,
            description: self.description@,
            source: self.source,
            launch_count: self.launch_count,
            is_favorite: self.is_favorite,
        }
    }
}

/// The views of a sequence of entries.
pub open spec fn views(items: Seq<LauncherItem>) -> Seq<ItemView> {
    items.map_values(|item: LauncherItem| item@)
}

/// A fresh entry: never launched and not a favorite.
pub open spec fn fresh_item(
    name: Seq<char>,
    command: Seq<char>,
    description: Seq<char>,
    source: LauncherSource,
) -> ItemView {
    ItemView { name, command, description, source, launch_count: 0, is_favorite: false }
}

impl LauncherItem {
    /// An entry for a program found on this computer.
    pub fn detected(name: &str, command: &str, description: &str) -> (r: Self)
        ensures
            r@ == fresh_item(name@, command@, description@, LauncherSource::Detected),
    {
        Self::new(name, command, description, LauncherSource::Detected)
    }

    /// An entry added by the user.
    pub fn custom(name: &str, command: &str, description: &str) -> (r: Self)
        ensures
            r@ == fresh_item(name@, command@, description@, LauncherSource::Custom),
    {
        Self::new(name, command, description, LauncherSource::Custom)
    }

    /// A fresh entry from the given source.
    fn new(name: &str, command: &str, description: &str, source: LauncherSource) -> (r: Self)
        ensures
            r@ == fresh_item(name@, command@, description@, source),
    {
        LauncherItem {
            name: String::from_str(name),
            command: String::from_str(command),
            description: String::from_str(description),
            source,
            launch_count: 0,
            is_favorite: false,
        }
    }

    /// A copy of this entry.
    pub fn duplicate(&self) -> (r: Self)
        ensures
            r@ == self@,
    {
        LauncherItem {
            name: self.name.clone(),
            command: self.command.clone(),
            description: self.description.clone(),
            source: self.source,
            launch_count: self.launch_count,
            is_favorite: self.is_favorite,
        }
    }
}


/// The statistics after flipping the favorite mark of the program of `command`.
pub open spec fn favorite_toggled(m: Map<Seq<char>, LauncherStats>, command: Seq<char>) -> Map<
    Seq<char>,
    LauncherStats,
> {
    let key = program_name(command);
    let before = saved_or_none(m, key);
    m.insert(key, LauncherStats { launch_count: before.launch_count, is_favorite: !before.is_favorite })
}

/// The statistics after counting one more launch of the program of `command`.
pub open spec fn launch_recorded(m: Map<Seq<char>, LauncherStats>, command: Seq<char>) -> Map<
    Seq<char>,
    LauncherStats,
> {
    let key = program_name(command);
    let before = saved_or_none(m, key);
    m.insert(
        key,
        LauncherStats {
            launch_count: if before.launch_count == u32::MAX {
                u32::MAX
            } else {
                (before.launch_count + 1) as u32
            },
            is_favorite: before.is_favorite,
        },
    )
}

/// Flipping the favorite mark twice gives back the saved statistics of the
/// program (none saved becoming no statistics); nothing else changes.
pub proof fn law_toggle_favorite_twice(m: Map<Seq<char>, LauncherStats>, command: Seq<char>)
    ensures
        favorite_toggled(favorite_toggled(m, command), command) == m.insert(
            program_name(command),
            saved_or_none(m, program_name(command)),
        ),
        m.contains_key(program_name(command)) ==> favorite_toggled(
            favorite_toggled(m, command),
            command,
        ) == m,
{
    let key = program_name(command);
    assert(favorite_toggled(favorite_toggled(m, command), command) =~= m.insert(
        key,
        saved_or_none(m, key),
    ));
    if m.contains_key(key) {
        assert(m.insert(key, m[key]) =~= m);
    }
}

/// Flips the favorite mark of the program of `command` (its first word) in
/// `stats`, a program with nothing saved starting from no statistics, and
/// returns the new mark.
pub fn toggle_favorite(stats: &mut StatsTable, command: &str) -> (r: bool)
    requires
        old(stats).wf(),
    ensures
        final(stats).wf(),
        r == !saved_or_none(old(stats)@, program_name(command@)).is_favorite,
        final(stats)@ == favorite_toggled(old(stats)@, command@),
{
    let key = chars_of(&command_name(command));
    let before = match stats.lookup(&key) {
        Some(s) => s,
        None => LauncherStats { launch_count: 0, is_favorite: false },
    };
    let updated = LauncherStats { launch_count: before.launch_count, is_favorite: !before.is_favorite };
    stats.set(key, updated);
    updated.is_favorite
}

/// Counts one more launch of the program of `command` (its first word) in
/// `stats`, stopping at the largest `u32`; its favorite mark is kept.
pub fn record_launch(stats: &mut StatsTable, command: &str)
    requires
        old(stats).wf(),
    ensures
        final(stats).wf(),
        final(stats)@ == launch_recorded(old(stats)@, command@),
        final(stats)@.contains_key(program_name(command@)),
        final(stats)@[program_name(command@)].launch_count == if saved_or_none(
            old(stats)@,
            program_name(command@),
        ).launch_count < u32::MAX {
            saved_or_none(old(stats)@, program_name(command@)).launch_count + 1
        } else {
            u32::MAX as int
        },
        final(stats)@[program_name(command@)].is_favorite == saved_or_none(
            old(stats)@,
            program_name(command@),
        ).is_favorite,
{
    proof {
        law_record_launch_counts(old(stats)@, command@);
    }
    let key = chars_of(&command_name(command));
    let before = match stats.lookup(&key) {
        Some(s) => s,
        None => LauncherStats { launch_count: 0, is_favorite: false },
    };
    let updated = LauncherStats {
        launch_count: before.launch_count.saturating_add(1),
        is_favorite: before.is_favorite,
    };
    stats.set(key, updated);
}


/// `item` with the saved statistics of its program, when there are any.
pub open spec fn with_stats(item: ItemView, m: Map<Seq<char>, LauncherStats>) -> ItemView {
    let key = program_name(item.command);
    if m.contains_key(key) {
        ItemView {
            name: item.name,
            command: item.command,
            description: item.description,
            source: item.source,
            launch_count: m[key].launch_count,
            is_favorite: m[key].is_favorite,
        }
    } else {
        item
    }
}

/// Whether one of `items` starts the program `key`.
pub open spec fn runs_program(items: Seq<ItemView>, key: Seq<char>) -> bool {
    exists|i: int| 0 <= i < items.len() && program_name(#[trigger] items[i].command) == key
}

/// The detected entries that are listed: those whose program neither a
/// custom entry nor an earlier detected entry starts.
pub open spec fn kept_detected(detected: Seq<ItemView>, custom: Seq<ItemView>) -> Seq<ItemView>
    decreases detected.len(),
{
    if detected.len() == 0 {
        Seq::empty()
    } else {
        let init = detected.drop_last();
        let x = detected.last();
        let key = program_name(x.command);
        if runs_program(custom, key) || runs_program(init, key) {
            kept_detected(init, custom)
        } else {
            kept_detected(init, custom).push(x)
        }
    }
}

/// The listed entries before ordering: every custom entry, then the kept
/// detected entries, each with the saved statistics of its program.
pub open spec fn unsorted_launchers(
    custom: Seq<ItemView>,
    detected: Seq<ItemView>,
    m: Map<Seq<char>, LauncherStats>,
) -> Seq<ItemView> {
    custom.map_values(|v: ItemView| with_stats(v, m)) + kept_detected(detected, custom).map_values(
        |v: ItemView| with_stats(v, m),
    )
}

/// Gives `item` the saved statistics of its program, when there are any.
fn apply_stats(item: &mut LauncherItem, stats: &StatsTable)
    requires
        stats.wf(),
    ensures
        final(item)@ == with_stats(old(item)@, stats@),
{
    let key = chars_of(&command_name(item.command.as_str()));
    match stats.lookup(&key) {
        Some(saved) => {
            item.launch_count = saved.launch_count;
            item.is_favorite = saved.is_favorite;
        },
        None => {},
    }
}

/// Whether `names` holds `key`.
fn holds_name(names: &Vec<Vec<char>>, key: &Vec<char>) -> (r: bool)
    ensures
        r == seqs_of(names@).contains(key@),
{
    let mut i: usize = 0;
    while i < names.len()
        invariant
            i <= names@.len(),
            forall|j: int| 0 <= j < i ==> names@[j]@ != key@,
        decreases names@.len() - i,
    {
        if same_chars(&names[i], key) {
            assert(seqs_of(names@)[i as int] == key@);
            return true;
        }
        i = i + 1;
    }
    proof {
        if seqs_of(names@).contains(key@) {
            let j = choose|j: int| 0 <= j < seqs_of(names@).len() && seqs_of(names@)[j] == key@;
            assert(names@[j]@ == key@);
        }
    }
    false
}

/// The program names of `items`.
pub open spec fn program_names(items: Seq<ItemView>) -> Seq<Seq<char>> {
    items.map_values(|v: ItemView| program_name(v.command))
}

/// The list of launchers: the custom entries and the detected entries whose
/// program no custom or earlier detected entry starts, each given the saved
/// statistics of its program, in the order of `sort_by_priority`.
pub fn build_launcher_items(
    custom_items: Vec<LauncherItem>,
    stats: &StatsTable,
    detected: Vec<LauncherItem>,
) -> (r: Vec<LauncherItem>)
    requires
        stats.wf(),
    ensures
        is_priority_sort_of(
            views(r@),
            unsorted_launchers(views(custom_items@), views(detected@), stats@),
        ),
        forall|i: int|
            #![trigger views(r@)[i]]
            0 <= i < r@.len() && stats@.contains_key(program_name(views(r@)[i].command))
                ==> views(r@)[i].launch_count == stats@[program_name(
                views(r@)[i].command,
            )].launch_count && views(r@)[i].is_favorite == stats@[program_name(
                views(r@)[i].command,
            )].is_favorite,
        forall|i: int, j: int|
            0 <= i < j < r@.len() ==> {
                let (a, b) = (#[trigger] views(r@)[i], #[trigger] views(r@)[j]);
                &&& b.is_favorite ==> a.is_favorite
                &&& a.is_favorite == b.is_favorite ==> a.launch_count >= b.launch_count
                &&& a.is_favorite == b.is_favorite && a.launch_count == b.launch_count ==> !seq_lt(
                    lowercase(b.name),
                    lowercase(a.name),
                )
            },
{
    let ghost cs = views(custom_items@);
    let ghost ds = views(detected@);
    let ghost m = stats@;
    let mut used: Vec<Vec<char>> = Vec::new();
    let mut items: Vec<LauncherItem> = Vec::new();
    let mut i: usize = 0;
    while i < custom_items.len()
        invariant
            i <= custom_items@.len(),
            cs == views(custom_items@),
            m == stats@,
            stats.wf(),
            seqs_of(used@) == program_names(cs.take(i as int)),
            views(items@) == cs.take(i as int).map_values(|v: ItemView| with_stats(v, m)),
        decreases custom_items@.len() - i,
    {
        let mut item = custom_items[i].duplicate();
        let name = chars_of(&command_name(item.command.as_str()));
        apply_stats(&mut item, stats);
        let ghost before_items = items@;
        let ghost before_used = used@;
        items.push(item);
        used.push(name);
        proof {
            assert(cs.take(i + 1) =~= cs.take(i as int).push(cs[i as int]));
            assert(views(items@) =~= views(before_items).push(item@));
            assert(seqs_of(used@) =~= seqs_of(before_used).push(name@));
            assert(views(items@) =~= cs.take(i + 1).map_values(|v: ItemView| with_stats(v, m)));
            assert(seqs_of(used@) =~= program_names(cs.take(i + 1)));
        }
        i = i + 1;
    }
    assert(cs.take(custom_items@.len() as int) =~= cs);
    let mut k: usize = 0;
    while k < detected.len()
        invariant
            k <= detected@.len(),
            cs == views(custom_items@),
            ds == views(detected@),
            m == stats@,
            stats.wf(),
            seqs_of(used@) == program_names(cs) + program_names(ds.take(k as int)),
            views(items@) == cs.map_values(|v: ItemView| with_stats(v, m)) + kept_detected(
                ds.take(k as int),
                cs,
            ).map_values(|v: ItemView| with_stats(v, m)),
        decreases detected@.len() - k,
    {
        let mut item = detected[k].duplicate();
        let name = chars_of(&command_name(item.command.as_str()));
        apply_stats(&mut item, stats);
        let taken = holds_name(&used, &name);
        let ghost init = ds.take(k as int);
        let ghost x = ds[k as int];
        proof {
            assert(ds.take(k + 1) =~= init.push(x));
            assert(ds.take(k + 1).drop_last() =~= init);
            let key = program_name(x.command);
            let names = program_names(cs) + program_names(init);
            if runs_program(cs, key) {
                let j = choose|j: int| 0 <= j < cs.len() && program_name(#[trigger] cs[j].command)
                    == key;
                assert(names[j] == key);
            }
            if runs_program(init, key) {
                let j = choose|j: int| 0 <= j < init.len() && program_name(
                    #[trigger] init[j].command,
                ) == key;
                assert(names[cs.len() + j] == key);
            }
            if names.contains(key) {
                let j = choose|j: int| 0 <= j < names.len() && names[j] == key;
                if j < cs.len() {
                    assert(program_name(cs[j].command) == key);
                } else {
                    assert(program_name(init[j - cs.len()].command) == key);
                }
            }
            assert(taken == (runs_program(cs, key) || runs_program(init, key)));
        }
        let ghost before_items = items@;
        let ghost before_used = used@;
        if !taken {
            items.push(item);
            proof {
                assert(views(items@) =~= views(before_items).push(item@));
                assert(kept_detected(ds.take(k + 1), cs) == kept_detected(init, cs).push(x));
                assert(views(items@) =~= cs.map_values(|v: ItemView| with_stats(v, m))
                    + kept_detected(ds.take(k + 1), cs).map_values(|v: ItemView| with_stats(v, m)));
            }
        } else {
            assert(kept_detected(ds.take(k + 1), cs) == kept_detected(init, cs));
        }
        used.push(name);
        proof {
            assert(seqs_of(used@) =~= seqs_of(before_used).push(name@));
            assert(program_names(ds.take(k + 1)) =~= program_names(init).push(
                program_name(x.command),
            ));
            assert(seqs_of(used@) =~= program_names(cs) + program_names(ds.take(k + 1)));
        }
        k = k + 1;
    }
    assert(ds.take(detected@.len() as int) =~= ds);
    sort_by_priority(&mut items);
    proof {
        law_listed_entries_carry_stats(views(items@), cs, ds, m);
        law_priority_order(views(items@), unsorted_launchers(cs, ds, m));
    }
    items
}


/// Every custom entry is listed, with the saved statistics of its program.
pub proof fn law_custom_entries_listed(
    listed: Seq<ItemView>,
    custom: Seq<ItemView>,
    detected: Seq<ItemView>,
    m: Map<Seq<char>, LauncherStats>,
    i: int,
)
    requires
        is_priority_sort_of(listed, unsorted_launchers(custom, detected, m)),
        0 <= i < custom.len(),
    ensures
        listed.contains(with_stats(custom[i], m)),
{
    let u = unsorted_launchers(custom, detected, m);
    law_priority_sort_is_permutation(listed, u);
    assert(u[i] == with_stats(custom[i], m));
    u.to_multiset_ensures();
    listed.to_multiset_ensures();
    assert(u.contains(u[i]));
    assert(u.to_multiset().count(u[i]) > 0);
    assert(listed.to_multiset().count(u[i]) > 0);
}

/// The kept detected entries are detected entries whose programs differ from
/// those of the custom entries and from each other's.
pub proof fn law_kept_detected_distinct(detected: Seq<ItemView>, custom: Seq<ItemView>)
    ensures
        forall|i: int| #![trigger kept_detected(detected, custom)[i]]
            0 <= i < kept_detected(detected, custom).len() ==> detected.contains(
                kept_detected(detected, custom)[i],
            ) && !runs_program(custom, program_name(kept_detected(detected, custom)[i].command)),
        forall|i: int, j: int|
            0 <= i < j < kept_detected(detected, custom).len() ==> program_name(
                #[trigger] kept_detected(detected, custom)[i].command,
            ) != program_name(#[trigger] kept_detected(detected, custom)[j].command),
    decreases detected.len(),
{
    if detected.len() > 0 {
        let init = detected.drop_last();
        let x = detected.last();
        law_kept_detected_distinct(init, custom);
        let kept = kept_detected(detected, custom);
        let prev = kept_detected(init, custom);
        assert forall|i: int| #![trigger kept[i]] 0 <= i < prev.len() implies detected.contains(
            kept[i],
        ) by {
            assert(kept[i] == prev[i]);
            let j = choose|j: int| 0 <= j < init.len() && init[j] == prev[i];
            assert(detected[j] == init[j]);
        }
        if !(runs_program(custom, program_name(x.command)) || runs_program(
            init,
            program_name(x.command),
        )) {
            assert(detected[detected.len() - 1] == x);
            assert forall|i: int| 0 <= i < prev.len() implies program_name(
                #[trigger] prev[i].command,
            ) != program_name(x.command) by {
                let j = choose|j: int| 0 <= j < init.len() && init[j] == prev[i];
                assert(program_name(init[j].command) == program_name(prev[i].command));
            }
            assert forall|i: int, j: int| 0 <= i < j < kept.len() implies program_name(
                #[trigger] kept[i].command,
            ) != program_name(#[trigger] kept[j].command) by {
                assert(kept[i] == prev[i]);
                if j < prev.len() {
                    assert(kept[j] == prev[j]);
                }
            }
        }
    }
}


/// Recording a launch adds one to the saved count of the command's program (0
/// when none is saved), stopping at the largest `u32`, whether or not the
/// program is a favorite; its favorite mark and every other program's
/// statistics stay as they were.
pub proof fn law_record_launch_counts(m: Map<Seq<char>, LauncherStats>, command: Seq<char>)
    ensures
        launch_recorded(m, command).contains_key(program_name(command)),
        launch_recorded(m, command)[program_name(command)].launch_count == if saved_or_none(
            m,
            program_name(command),
        ).launch_count < u32::MAX {
            saved_or_none(m, program_name(command)).launch_count + 1
        } else {
            u32::MAX as int
        },
        launch_recorded(m, command)[program_name(command)].is_favorite == saved_or_none(
            m,
            program_name(command),
        ).is_favorite,
        forall|k: Seq<char>|
            k != program_name(command) ==> (#[trigger] launch_recorded(m, command).contains_key(k)
                == m.contains_key(k) && (m.contains_key(k) ==> launch_recorded(m, command)[k]
                == m[k])),
{
}

/// Every listed entry whose program has saved statistics carries exactly
/// those statistics, whether it is a custom or a detected entry.
pub proof fn law_listed_entries_carry_stats(
    listed: Seq<ItemView>,
    custom: Seq<ItemView>,
    detected: Seq<ItemView>,
    m: Map<Seq<char>, LauncherStats>,
)
    requires
        is_priority_sort_of(listed, unsorted_launchers(custom, detected, m)),
    ensures
        forall|i: int|
            #![trigger listed[i]]
            0 <= i < listed.len() && m.contains_key(program_name(listed[i].command))
                ==> listed[i].launch_count == m[program_name(listed[i].command)].launch_count
                && listed[i].is_favorite == m[program_name(listed[i].command)].is_favorite,
{
    let u = unsorted_launchers(custom, detected, m);
    law_priority_sort_is_permutation(listed, u);
    listed.to_multiset_ensures();
    u.to_multiset_ensures();
    assert forall|i: int|
        #![trigger listed[i]]
        0 <= i < listed.len() && m.contains_key(program_name(listed[i].command)) implies listed[i].launch_count
        == m[program_name(listed[i].command)].launch_count && listed[i].is_favorite
        == m[program_name(listed[i].command)].is_favorite by {
        let x = listed[i];
        assert(listed.contains(x));
        assert(listed.to_multiset().count(x) > 0);
        assert(u.to_multiset().count(x) > 0);
        assert(u.contains(x));
        let k = choose|k: int| 0 <= k < u.len() && u[k] == x;
        let cl = custom.len() as int;
        if k < cl {
            assert(u[k] == with_stats(custom[k], m));
        } else {
            let kept = kept_detected(detected, custom);
            assert(u[k] == with_stats(kept[k - cl], m));
        }
    }
}


/// Flipping the favorite mark negates the saved mark of the command's program
/// (no mark saved counting as not a favorite), keeps its launch count, and
/// leaves every other program's statistics as they were.
pub proof fn law_toggle_favorite_flips(m: Map<Seq<char>, LauncherStats>, command: Seq<char>)
    ensures
        favorite_toggled(m, command).contains_key(program_name(command)),
        favorite_toggled(m, command)[program_name(command)].is_favorite == !(m.contains_key(
            program_name(command),
        ) && m[program_name(command)].is_favorite),
        favorite_toggled(m, command)[program_name(command)].launch_count == if m.contains_key(
            program_name(command),
        ) {
            m[program_name(command)].launch_count
        } else {
            0
        },
        forall|k: Seq<char>|
            k != program_name(command) ==> (#[trigger] favorite_toggled(m, command).contains_key(k)
                == m.contains_key(k) && (m.contains_key(k) ==> favorite_toggled(m, command)[k]
                == m[k])),
{
}

/// A detected entry is listed when no custom entry and no earlier detected
/// entry runs its program.
pub proof fn law_new_programs_are_kept(detected: Seq<ItemView>, custom: Seq<ItemView>, i: int)
    requires
        0 <= i < detected.len(),
        forall|j: int|
            0 <= j < custom.len() ==> program_name(#[trigger] custom[j].command) != program_name(
                detected[i].command,
            ),
        forall|j: int|
            0 <= j < i ==> program_name(#[trigger] detected[j].command) != program_name(
                detected[i].command,
            ),
    ensures
        kept_detected(detected, custom).contains(detected[i]),
    decreases detected.len(),
{
    let init = detected.drop_last();
    let prev = kept_detected(init, custom);
    if i == detected.len() - 1 {
        let key = program_name(detected[i].command);
        assert(!runs_program(custom, key));
        assert(!runs_program(init, key)) by {
            assert forall|j: int| 0 <= j < init.len() implies program_name(
                #[trigger] init[j].command,
            ) != key by {
                assert(init[j] == detected[j]);
            }
        }
        assert(kept_detected(detected, custom) == prev.push(detected[i]));
        assert(prev.push(detected[i])[prev.len() as int] == detected[i]);
    } else {
        assert forall|j: int| 0 <= j < i implies program_name(#[trigger] init[j].command)
            != program_name(init[i].command) by {
            assert(init[j] == detected[j]);
        }
        assert(init[i] == detected[i]);
        law_new_programs_are_kept(init, custom, i);
        let k = choose|k: int| 0 <= k < prev.len() && prev[k] == detected[i];
        let kept = kept_detected(detected, custom);
        assert(kept[k] == prev[k]);
    }
}

} // verus!
