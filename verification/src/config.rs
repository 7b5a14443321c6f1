//! The config file of custom launchers, and where the config files live.

use vstd::prelude::*;
use crate::launcher::{ItemView, LauncherItem, LauncherSource, fresh_item, views};
use crate::text::{
    fields_of_line, is_ws, lemma_first_index_at, lemma_split_on_append,
    lemma_split_on_single, line_fields, push_char, push_untabbed, seqs_of, split3, split_lines,
    split_on, string_of, chars_of, trim, trim_end, trim_start, untab,
};

verus! {

/// The description of an entry whose line in the config file has none.
pub open spec fn default_file_description() -> Seq<char> {
    "Added from config file."@
}

/// The entry that one line of the config file gives: a line with at least two
/// fields, `name`, `command` and, when present, `description`.
pub open spec fn custom_line(line: Seq<char>) -> Option<ItemView> {
    match line_fields(line) {
        Some(f) => if f.len() < 2 {
            None
        } else {
            Some(
                fresh_item(
                    f[0],
                    f[1],
                    if f.len() == 3 {
                        f[2]
                    } else {
                        default_file_description()
                    },
                    LauncherSource::Custom,
                ),
            )
        },
        None => None,
    }
}

/// The entries that a sequence of lines gives, in order.
pub open spec fn custom_items_from_lines(lines: Seq<Seq<char>>) -> Seq<ItemView>
    decreases lines.len(),
{
    if lines.len() == 0 {
        Seq::empty()
    } else {
        let items = custom_items_from_lines(lines.drop_last());
        match custom_line(lines.last()) {
            Some(item) => items.push(item),
            None => items,
        }
    }
}

/// The entries that the text of the config file gives.
pub open spec fn custom_items_of_text(contents: Seq<char>) -> Seq<ItemView> {
    custom_items_from_lines(split_on(contents, '\n'))
}

/// The entry of one line of the config file, as `custom_line` describes it.
fn custom_item_of_line(line: &Vec<char>) -> (r: Option<LauncherItem>)
    ensures
        match r {
            Some(item) => custom_line(line@) == Some(item@),
            None => custom_line(line@) is None,
        },
{
    match fields_of_line(line) {
        None => None,
        Some(f) => {
            if f.len() < 2 {
                None
            } else {
                assert(seqs_of(f@)[0] == f[0]@ && seqs_of(f@)[1] == f[1]@);
                let name = string_of(&f[0]);
                let command = string_of(&f[1]);
                let description = if f.len() == 3 {
                    assert(seqs_of(f@)[2] == f[2]@);
                    string_of(&f[2])
                } else {
                    String::from_str("Added from config file.")
                };
                Some(
                    LauncherItem {
                        name,
                        command,
                        description,
                        source: LauncherSource::Custom,
                        launch_count: 0,
                        is_favorite: false,
                    },
                )
            }
        },
    }
}

/// Reads the text of the config file: one `name<TAB>command<TAB>description`
/// line per custom launcher, the description optional; blank lines, comment
/// lines and lines with fewer than two fields are skipped.
pub fn parse_custom_items(contents: &str) -> (r: Vec<LauncherItem>)
    ensures
        views(r@) == custom_items_of_text(contents@),
{
    let lines = split_lines(contents);
    let mut items: Vec<LauncherItem> = Vec::new();
    let mut i: usize = 0;
    while i < lines.len()
        invariant
            i <= lines@.len(),
            seqs_of(lines@) == split_on(contents@, '\n'),
            views(items@) == custom_items_from_lines(seqs_of(lines@).take(i as int)),
        decreases lines@.len() - i,
    {
        assert(seqs_of(lines@).take(i + 1).drop_last() =~= seqs_of(lines@).take(i as int));
        assert(seqs_of(lines@).take(i + 1).last() == lines@[i as int]@);
        match custom_item_of_line(&lines[i]) {
            Some(item) => {
                let ghost before = items@;
                items.push(item);
                assert(views(items@) =~= views(before).push(item@));
            },
            None => {},
        }
        i = i + 1;
    }
    assert(seqs_of(lines@).take(lines@.len() as int) =~= seqs_of(lines@));
    items
}

/// The first line of the config file.
pub open spec fn custom_header() -> Seq<char> {
    "# TUI launcher entries. Each line is: name<TAB>command<TAB>description"@
}

/// The line that the config file holds for one entry.
pub open spec fn custom_row_text(item: ItemView) -> Seq<char> {
    untab(item.name) + seq!['\t'] + untab(item.command) + seq!['\t'] + untab(item.description)
}

/// The lines of the config file for the given entries, each ending in a newline.
pub open spec fn custom_rows_text(items: Seq<ItemView>) -> Seq<char>
    decreases items.len(),
{
    if items.len() == 0 {
        Seq::empty()
    } else {
        custom_rows_text(items.drop_last()) + custom_row_text(items.last()).push('\n')
    }
}

/// The whole text of the config file for the given entries.
pub open spec fn custom_text(items: Seq<ItemView>) -> Seq<char> {
    custom_header().push('\n') + custom_rows_text(items)
}

/// The text of the config file for `items`: a comment line, then one line per
/// entry, tabs inside a field written as spaces.
pub fn render_custom_items(items: &Vec<LauncherItem>) -> (r: String)
    ensures
        r@ == custom_text(views(items@)),
{
    let mut out = String::from_str(
        "# TUI launcher entries. Each line is: name<TAB>command<TAB>description",
    );
    push_char(&mut out, '\n');
    let mut i: usize = 0;
    while i < items.len()
        invariant
            i <= items@.len(),
            out@ == custom_header().push('\n') + custom_rows_text(views(items@).take(i as int)),
        decreases items@.len() - i,
    {
        let ghost before = out@;
        let item = &items[i];
        push_untabbed(&mut out, &chars_of(item.name.as_str()));
        push_char(&mut out, '\t');
        push_untabbed(&mut out, &chars_of(item.command.as_str()));
        push_char(&mut out, '\t');
        push_untabbed(&mut out, &chars_of(item.description.as_str()));
        push_char(&mut out, '\n');
        proof {
            let vs = views(items@);
            assert(vs.take(i + 1).drop_last() =~= vs.take(i as int));
            assert(vs.take(i + 1).last() == item@);
            assert(out@ =~= before + custom_row_text(item@).push('\n'));
        }
        i = i + 1;
    }
    assert(views(items@).take(items@.len() as int) =~= views(items@));
    out
}


/// A field with no tab and no newline.
pub open spec fn plain_field(s: Seq<char>) -> bool {
    forall|i: int| 0 <= i < s.len() ==> s[i] != '\t' && s[i] != '\n'
}

/// An entry that a line of the config file gives back as it was written: a
/// fresh custom entry whose fields hold no tab and no newline, whose name is
/// not empty and starts with neither whitespace nor `#`, and whose
/// description is not empty and does not end in whitespace.
pub open spec fn storable_item(item: ItemView) -> bool {
    &&& item == fresh_item(item.name, item.command, item.description, LauncherSource::Custom)
    &&& plain_field(item.name)
    &&& plain_field(item.command)
    &&& plain_field(item.description)
    &&& item.name.len() > 0
    &&& !is_ws(item.name[0])
    &&& item.name[0] != '#'
    &&& item.description.len() > 0
    &&& !is_ws(item.description.last())
}

/// The line written for a storable entry reads back as that entry.
proof fn lemma_custom_row_reads_back(item: ItemView)
    requires
        storable_item(item),
    ensures
        custom_line(custom_row_text(item)) == Some(item),
        forall|i: int| 0 <= i < custom_row_text(item).len() ==> custom_row_text(item)[i] != '\n',
{
    let (n, c, d) = (item.name, item.command, item.description);
    assert(untab(n) =~= n);
    assert(untab(c) =~= c);
    assert(untab(d) =~= d);
    let line = custom_row_text(item);
    let rest = c + seq!['\t'] + d;
    assert(line =~= n + seq!['\t'] + rest);
    assert forall|i: int| 0 <= i < line.len() implies line[i] != '\n' by {
        if i < n.len() {
            assert(line[i] == n[i]);
        } else if n.len() < i < n.len() + 1 + c.len() {
            assert(line[i] == c[i - n.len() - 1]);
        } else if i > n.len() + 1 + c.len() {
            assert(line[i] == d[i - n.len() - 2 - c.len()]);
        }
    }
    assert(line.last() == d.last());
    assert(trim_start(line) == line);
    assert(trim_end(line) == line);
    assert(trim(line) == line);
    lemma_first_index_at(line, '\t', n.len() as int);
    assert(line.skip(n.len() as int + 1) =~= rest);
    assert(line.take(n.len() as int) =~= n);
    lemma_first_index_at(rest, '\t', c.len() as int);
    assert(rest.take(c.len() as int) =~= c);
    assert(rest.skip(c.len() as int + 1) =~= d);
    assert(split3(line, '\t') =~= seq![n, c, d]);
}

/// Reading the text written for storable entries gives them back.
proof fn lemma_custom_text_reads_back(items: Seq<ItemView>)
    requires
        forall|i: int| 0 <= i < items.len() ==> storable_item(#[trigger] items[i]),
    ensures
        custom_items_of_text(custom_text(items)) == items,
        custom_text(items).len() > 0,
        custom_text(items).last() == '\n',
    decreases items.len(),
{
    reveal_strlit("# TUI launcher entries. Each line is: name<TAB>command<TAB>description");
    let h = custom_header();
    if items.len() == 0 {
        assert(custom_text(items) =~= h.push('\n') + Seq::<char>::empty());
        lemma_split_on_append(h, Seq::<char>::empty(), '\n');
        lemma_split_on_single(h, '\n');
        assert(split_on(Seq::<char>::empty(), '\n') == seq![Seq::<char>::empty()]);
        let lines = split_on(custom_text(items), '\n');
        assert(lines =~= seq![h, Seq::<char>::empty()]);
        assert(lines.drop_last() =~= seq![h]);
        assert(seq![h].drop_last() =~= Seq::<Seq<char>>::empty());
        assert(trim_start(h) == h);
        assert(trim_end(h) == h);
        assert(trim(Seq::<char>::empty()) =~= Seq::<char>::empty());
        assert(h[0] == '#');
        assert(custom_line(h) is None);
        assert(custom_line(Seq::<char>::empty()) is None);
        assert(custom_items_from_lines(seq![h]) == custom_items_from_lines(
            Seq::<Seq<char>>::empty(),
        ));
        assert(custom_items_from_lines(lines) == custom_items_from_lines(seq![h]));
        assert(custom_items_from_lines(lines) =~= items);
    } else {
        let init = items.drop_last();
        assert forall|i: int| 0 <= i < init.len() implies storable_item(#[trigger] init[i]) by {
            assert(init[i] == items[i]);
        }
        lemma_custom_text_reads_back(init);
        let t = custom_text(init);
        let x = t.drop_last();
        assert(t =~= x.push('\n'));
        let item = items.last();
        assert(storable_item(items[items.len() - 1]));
        lemma_custom_row_reads_back(item);
        let l = custom_row_text(item);
        assert(custom_text(items) =~= x.push('\n') + l.push('\n'));
        lemma_split_on_append(x, l.push('\n'), '\n');
        lemma_split_on_append(l, Seq::<char>::empty(), '\n');
        lemma_split_on_single(l, '\n');
        lemma_split_on_append(x, Seq::<char>::empty(), '\n');
        assert(x.push('\n') + Seq::<char>::empty() =~= x.push('\n'));
        assert(l.push('\n') + Seq::<char>::empty() =~= l.push('\n'));
        assert(split_on(Seq::<char>::empty(), '\n') == seq![Seq::<char>::empty()]);
        let px = split_on(x, '\n');
        let lines = split_on(custom_text(items), '\n');
        assert(lines =~= px + seq![l, Seq::<char>::empty()]);
        assert(split_on(t, '\n') =~= px.push(Seq::<char>::empty()));
        assert(split_on(t, '\n').drop_last() =~= px);
        assert(lines.drop_last() =~= px.push(l));
        assert(trim(Seq::<char>::empty()) =~= Seq::<char>::empty());
        assert(custom_line(Seq::<char>::empty()) is None);
        assert(custom_items_from_lines(split_on(t, '\n')) == custom_items_from_lines(px));
        assert(custom_items_from_lines(lines) == custom_items_from_lines(px.push(l)));
        assert(px.push(l).drop_last() =~= px);
        assert(custom_items_from_lines(px.push(l)) == custom_items_from_lines(px).push(item));
        assert(init.push(item) =~= items);
    }
}

/// Saving custom launchers to the config file and loading the file back gives
/// the same launchers, when each of them is storable.
pub proof fn law_custom_items_round_trip(items: Seq<ItemView>)
    requires
        forall|i: int| 0 <= i < items.len() ==> storable_item(#[trigger] items[i]),
    ensures
        custom_items_of_text(custom_text(items)) == items,
{
    lemma_custom_text_reads_back(items);
}


/// The text of an optional string.
pub open spec fn opt_text(s: Option<&str>) -> Option<Seq<char>> {
    match s {
        Some(t) => Some(t@),
        None => None,
    }
}

/// The components of the config directory, to be joined as a path: the app's
/// directory inside `$XDG_CONFIG_HOME` when it is set, else inside
/// `$HOME/.config` when `$HOME` is set, else the current directory.
pub open spec fn config_directory_parts(xdg_config_home: Option<Seq<char>>, home: Option<Seq<char>>) -> Seq<
    Seq<char>,
> {
    match xdg_config_home {
        Some(x) => seq![x, "tui2"@],
        None => match home {
            Some(h) => seq![h, ".config"@, "tui2"@],
            None => seq!["."@],
        },
    }
}

/// The texts of a list of strings.
pub open spec fn texts(v: Seq<String>) -> Seq<Seq<char>> {
    v.map_values(|s: String| s@)
}

/// The components of the config directory, given the values of
/// `XDG_CONFIG_HOME` and `HOME` (`None` when unset).
pub fn config_directory(xdg_config_home: Option<&str>, home: Option<&str>) -> (r: Vec<String>)
    ensures
        texts(r@) == config_directory_parts(opt_text(xdg_config_home), opt_text(home)),
{
    let mut parts: Vec<String> = Vec::new();
    match xdg_config_home {
        Some(x) => {
            parts.push(String::from_str(x));
            parts.push(String::from_str("tui2"));
        },
        None => match home {
            Some(h) => {
                parts.push(String::from_str(h));
                parts.push(String::from_str(".config"));
                parts.push(String::from_str("tui2"));
            },
            None => {
                parts.push(String::from_str("."));
            },
        },
    }
    assert(texts(parts@) =~= config_directory_parts(opt_text(xdg_config_home), opt_text(home)));
    parts
}

/// The path components of the config file of custom launchers.
pub fn config_file_path(xdg_config_home: Option<&str>, home: Option<&str>) -> (r: Vec<String>)
    ensures
        texts(r@) == config_directory_parts(opt_text(xdg_config_home), opt_text(home)).push(
            "launchers.txt"@,
        ),
{
    let mut parts = config_directory(xdg_config_home, home);
    let ghost before = parts@;
    parts.push(String::from_str("launchers.txt"));
    assert(texts(parts@) =~= texts(before).push("launchers.txt"@));
    parts
}

/// The path components of the usage stats file.
pub fn stats_file_path(xdg_config_home: Option<&str>, home: Option<&str>) -> (r: Vec<String>)
    ensures
        texts(r@) == config_directory_parts(opt_text(xdg_config_home), opt_text(home)).push(
            "stats.txt"@,
        ),
{
    let mut parts = config_directory(xdg_config_home, home);
    let ghost before = parts@;
    parts.push(String::from_str("stats.txt"));
    assert(texts(parts@) =~= texts(before).push("stats.txt"@));
    parts
}

} // verus!
