//! Usage statistics per command: how often it was launched and whether it is
//! a favorite, kept in a table ordered by command.

use vstd::prelude::*;
use crate::text::{
    decimal, fields_of_line, line_fields, parse_u32, parse_u32_at, push_decimal, push_char,
    push_untabbed, split_lines, split_on, seqs_of, untab,
};
use crate::text::{
    is_ws, lemma_decimal_digits, lemma_digit_not_special, lemma_first_index_at,
    lemma_parse_decimal, lemma_split_on_append, lemma_split_on_single, split3, trim, trim_end,
    trim_start,
};
use crate::text::{chars_of, seq_lt, lemma_seq_lt_irreflexive, lemma_seq_lt_total, lemma_seq_lt_transitive, less_than, same_chars};

verus! {

/// The saved usage of one command.
#[derive(Clone, Copy, Debug, PartialEq, Eq, Structural)]
pub struct LauncherStats {
    pub launch_count: u32,
    pub is_favorite: bool,
}

/// The usage of a command with nothing saved: never launched, not a favorite.
pub open spec fn no_stats() -> LauncherStats {
    LauncherStats { launch_count: 0, is_favorite: false }
}

/// One row of the table.
struct StatsRow {
    command: Vec<char>,
    stats: LauncherStats,
}

/// The usage statistics of all commands, one row per command, in the order
/// of the commands (the order in which the stats file lists them).
pub struct StatsTable {
    rows: Vec<StatsRow>,
}

/// The map that a list of rows describes, a later row for a command
/// replacing an earlier one.
pub open spec fn rows_map(rows: Seq<(Seq<char>, LauncherStats)>) -> Map<Seq<char>, LauncherStats>
    decreases rows.len(),
{
    if rows.len() == 0 {
        Map::empty()
    } else {
        rows_map(rows.drop_last()).insert(rows.last().0, rows.last().1)
    }
}

/// Rows whose commands are in strictly increasing order.
pub open spec fn strictly_sorted(rows: Seq<(Seq<char>, LauncherStats)>) -> bool {
    forall|i: int, j: int| 0 <= i < j < rows.len() ==> seq_lt(#[trigger] rows[i].0, #[trigger] rows[j].0)
}

/// In strictly sorted rows every command occurs once, and the map gives each
/// row's statistics for its command and holds no other command.
pub proof fn lemma_rows_map(rows: Seq<(Seq<char>, LauncherStats)>)
    requires
        strictly_sorted(rows),
    ensures
        forall|i: int| 0 <= i < rows.len() ==> #[trigger] rows_map(rows).contains_key(rows[i].0)
            && rows_map(rows)[rows[i].0] == rows[i].1,
        forall|k: Seq<char>| #[trigger] rows_map(rows).contains_key(k) ==> exists|i: int|
            0 <= i < rows.len() && rows[i].0 == k,
    decreases rows.len(),
{
    if rows.len() > 0 {
        let init = rows.drop_last();
        assert(strictly_sorted(init)) by {
            assert forall|i: int, j: int| 0 <= i < j < init.len() implies seq_lt(
                #[trigger] init[i].0,
                #[trigger] init[j].0,
            ) by {
                assert(init[i] == rows[i] && init[j] == rows[j]);
            }
        }
        lemma_rows_map(init);
        let n = rows.len() - 1;
        assert forall|i: int| 0 <= i < rows.len() implies #[trigger] rows_map(rows).contains_key(
            rows[i].0,
        ) && rows_map(rows)[rows[i].0] == rows[i].1 by {
            if i < n {
                assert(init[i] == rows[i]);
                assert(rows_map(init).contains_key(init[i].0));
                assert(seq_lt(rows[i].0, rows[n].0));
                lemma_seq_lt_irreflexive(rows[i].0);
            }
        }
        assert forall|k: Seq<char>| #[trigger] rows_map(rows).contains_key(k) implies exists|i: int|
            0 <= i < rows.len() && rows[i].0 == k by {
            if k != rows[n].0 {
                assert(rows_map(init).contains_key(k));
                let i = choose|i: int| 0 <= i < init.len() && init[i].0 == k;
                assert(rows[i] == init[i]);
            }
        }
    }
}

/// Rows in strictly increasing order name distinct commands.
pub proof fn lemma_sorted_distinct(rows: Seq<(Seq<char>, LauncherStats)>, i: int, j: int)
    requires
        strictly_sorted(rows),
        0 <= i < rows.len(),
        0 <= j < rows.len(),
        i != j,
    ensures
        rows[i].0 != rows[j].0,
{
    if i < j {
        assert(seq_lt(rows[i].0, rows[j].0));
    } else {
        assert(seq_lt(rows[j].0, rows[i].0));
    }
    lemma_seq_lt_irreflexive(rows[i].0);
}

impl StatsTable {
    /// The rows of the table, in order.
    pub closed spec fn rows(&self) -> Seq<(Seq<char>, LauncherStats)> {
        self.rows@.map_values(|r: StatsRow| (r.command@, r.stats))
    }

    /// The table lists each command once, in increasing order.
    pub open spec fn wf(&self) -> bool {
        strictly_sorted(self.rows())
    }

    /// An empty table.
    pub fn new() -> (r: Self)
        ensures
            r.wf(),
            r@ == Map::<Seq<char>, LauncherStats>::empty(),
            r.rows().len() == 0,
    {
        let r = StatsTable { rows: Vec::new() };
        assert(r.rows() =~= Seq::<(Seq<char>, LauncherStats)>::empty());
        r
    }

    /// The number of commands in the table.
    pub fn len(&self) -> (r: usize)
        ensures
            r == self.rows().len(),
    {
        self.rows.len()
    }

    /// The position of `command` in the table.
    fn find(&self, command: &Vec<char>) -> (r: Option<usize>)
        requires
            self.wf(),
        ensures
            match r {
                Some(i) => i < self.rows().len() && self.rows()[i as int].0 == command@,
                None => !self@.contains_key(command@),
            },
    {
        let mut i: usize = 0;
        while i < self.rows.len()
            invariant
                i <= self.rows@.len(),
                forall|j: int| 0 <= j < i ==> self.rows()[j].0 != command@,
            decreases self.rows@.len() - i,
        {
            if same_chars(&self.rows[i].command, command) {
                return Some(i);
            }
            i = i + 1;
        }
        proof {
            lemma_rows_map(self.rows());
        }
        None
    }

    /// The saved statistics of `command`, if any.
    pub fn lookup(&self, command: &Vec<char>) -> (r: Option<LauncherStats>)
        requires
            self.wf(),
        ensures
            r == (if self@.contains_key(command@) {
                Some(self@[command@])
            } else {
                None
            }),
    {
        match self.find(command) {
            Some(i) => {
                proof {
                    lemma_rows_map(self.rows());
                }
                Some(self.rows[i].stats)
            },
            None => None,
        }
    }

    /// The saved statistics of the command written `command`, if any.
    pub fn get(&self, command: &str) -> (r: Option<LauncherStats>)
        requires
            self.wf(),
        ensures
            r == (if self@.contains_key(command@) {
                Some(self@[command@])
            } else {
                None
            }),
    {
        self.lookup(&chars_of(command))
    }

    /// Sets the statistics of `command`, keeping the rows in order.
    pub fn set(&mut self, command: Vec<char>, stats: LauncherStats)
        requires
            old(self).wf(),
        ensures
            final(self).wf(),
            final(self)@ == old(self)@.insert(command@, stats),
    {
        let ghost old_rows = self.rows();
        let mut p: usize = 0;
        while p < self.rows.len() && less_than(&self.rows[p].command, &command)
            invariant
                p <= self.rows@.len(),
                self.rows() == old_rows,
                forall|j: int| 0 <= j < p ==> seq_lt(#[trigger] old_rows[j].0, command@),
            decreases self.rows@.len() - p,
        {
            p = p + 1;
        }
        let ghost key = command@;
        if p < self.rows.len() && same_chars(&self.rows[p].command, &command) {
            let row = StatsRow { command, stats };
            self.rows.set(p, row);
            proof {
                let new_rows = self.rows();
                assert(new_rows =~= old_rows.update(p as int, (key, stats)));
                assert(strictly_sorted(new_rows)) by {
                    assert forall|i: int, j: int| 0 <= i < j < new_rows.len() implies seq_lt(
                        #[trigger] new_rows[i].0,
                        #[trigger] new_rows[j].0,
                    ) by {
                        assert(old_rows[i].0 == new_rows[i].0);
                        assert(old_rows[j].0 == new_rows[j].0);
                    }
                }
                lemma_rows_map(old_rows);
                lemma_rows_map(new_rows);
                assert forall|k: Seq<char>| #[trigger] rows_map(old_rows).insert(key, stats).contains_key(k)
                    implies rows_map(new_rows).contains_key(k) by {
                    if k != key {
                        assert(rows_map(old_rows).contains_key(k));
                        let i = choose|i: int| 0 <= i < old_rows.len() && old_rows[i].0 == k;
                        assert(i != p);
                        assert(new_rows[i] == old_rows[i]);
                        assert(rows_map(new_rows).contains_key(new_rows[i].0));
                    } else {
                        assert(new_rows[p as int].0 == key);
                        assert(rows_map(new_rows).contains_key(new_rows[p as int].0));
                    }
                }
                assert forall|k: Seq<char>| #[trigger] rows_map(new_rows).contains_key(k)
                    implies rows_map(old_rows).insert(key, stats).contains_key(k) && rows_map(new_rows)[k]
                    == rows_map(old_rows).insert(key, stats)[k] by {
                    let i = choose|i: int| 0 <= i < new_rows.len() && new_rows[i].0 == k;
                    assert(rows_map(new_rows)[new_rows[i].0] == new_rows[i].1);
                    if i != p {
                        assert(old_rows[i] == new_rows[i]);
                        assert(rows_map(old_rows).contains_key(old_rows[i].0));
                        lemma_sorted_distinct(old_rows, i, p as int);
                    } else {
                        assert(new_rows[i] == (key, stats));
                    }
                }
                assert(rows_map(new_rows) =~= rows_map(old_rows).insert(key, stats));
            }
        } else {
            proof {
                if p < old_rows.len() {
                    lemma_seq_lt_total(old_rows[p as int].0, key);
                }
            }
            let row = StatsRow { command, stats };
            self.rows.insert(p, row);
            proof {
                let new_rows = self.rows();
                assert(new_rows =~= old_rows.insert(p as int, (key, stats)));
                assert(strictly_sorted(new_rows)) by {
                    assert forall|i: int, j: int| 0 <= i < j < new_rows.len() implies seq_lt(
                        #[trigger] new_rows[i].0,
                        #[trigger] new_rows[j].0,
                    ) by {
                        if j < p {
                            assert(old_rows[i] == new_rows[i] && old_rows[j] == new_rows[j]);
                        } else if j == p {
                            assert(old_rows[i] == new_rows[i]);
                        } else if i == p {
                            assert(new_rows[j] == old_rows[j - 1]);
                            if j - 1 > p {
                                assert(seq_lt(old_rows[p as int].0, old_rows[j - 1].0));
                                lemma_seq_lt_transitive(key, old_rows[p as int].0, old_rows[j - 1].0);
                            }
                        } else if i < p {
                            assert(new_rows[j] == old_rows[j - 1]);
                            assert(old_rows[i] == new_rows[i]);
                        } else {
                            assert(new_rows[j] == old_rows[j - 1]);
                            assert(new_rows[i] == old_rows[i - 1]);
                        }
                    }
                }
                lemma_rows_map(old_rows);
                lemma_rows_map(new_rows);
                assert(new_rows[p as int] == (key, stats));
                assert forall|k: Seq<char>| #[trigger] rows_map(old_rows).insert(key, stats).contains_key(k)
                    implies rows_map(new_rows).contains_key(k) by {
                    if k != key {
                        assert(rows_map(old_rows).contains_key(k));
                        let i = choose|i: int| 0 <= i < old_rows.len() && old_rows[i].0 == k;
                        if i < p {
                            assert(new_rows[i] == old_rows[i]);
                            assert(rows_map(new_rows).contains_key(new_rows[i].0));
                        } else {
                            assert(new_rows[i + 1] == old_rows[i]);
                            assert(rows_map(new_rows).contains_key(new_rows[i + 1].0));
                        }
                    } else {
                        assert(rows_map(new_rows).contains_key(new_rows[p as int].0));
                    }
                }
                assert forall|k: Seq<char>| #[trigger] rows_map(new_rows).contains_key(k)
                    implies rows_map(old_rows).insert(key, stats).contains_key(k) && rows_map(new_rows)[k]
                    == rows_map(old_rows).insert(key, stats)[k] by {
                    let i = choose|i: int| 0 <= i < new_rows.len() && new_rows[i].0 == k;
                    assert(rows_map(new_rows)[new_rows[i].0] == new_rows[i].1);
                    if i < p {
                        assert(old_rows[i] == new_rows[i]);
                        assert(rows_map(old_rows).contains_key(old_rows[i].0));
                        lemma_sorted_distinct(new_rows, i, p as int);
                    } else if i > p {
                        assert(old_rows[i - 1] == new_rows[i]);
                        assert(rows_map(old_rows).contains_key(old_rows[i - 1].0));
                        lemma_sorted_distinct(new_rows, i, p as int);
                    }
                }
                assert(rows_map(new_rows) =~= rows_map(old_rows).insert(key, stats));
            }
        }
    }
}

impl View for StatsTable {
    type V = Map<Seq<char>, LauncherStats>;

    open spec fn view(&self) -> Map<Seq<char>, LauncherStats> {
        rows_map(self.rows())
    }
}


/// The word that marks a favorite in the stats file.
pub open spec fn true_word() -> Seq<char> {
    "true"@
}

/// The word that marks a command that is not a favorite.
pub open spec fn false_word() -> Seq<char> {
    "false"@
}

/// The command and statistics that one line of the stats file gives: a line
/// with at least three fields, `command`, `launch_count` (0 when it is not a
/// `u32`) and `favorite` (a favorite exactly when it reads `true`).
pub open spec fn stats_line(line: Seq<char>) -> Option<(Seq<char>, LauncherStats)> {
    match line_fields(line) {
        Some(f) => if f.len() < 3 {
            None
        } else {
            Some(
                (
                    f[0],
                    LauncherStats {
                        launch_count: match parse_u32(f[1]) {
                            Some(n) => n,
                            None => 0,
                        },
                        is_favorite: f[2] == true_word(),
                    },
                ),
            )
        },
        None => None,
    }
}

/// The statistics that a sequence of lines gives, a later line for a command
/// replacing an earlier one.
pub open spec fn stats_from_lines(lines: Seq<Seq<char>>) -> Map<Seq<char>, LauncherStats>
    decreases lines.len(),
{
    if lines.len() == 0 {
        Map::empty()
    } else {
        let m = stats_from_lines(lines.drop_last());
        match stats_line(lines.last()) {
            Some(entry) => m.insert(entry.0, entry.1),
            None => m,
        }
    }
}

/// The statistics that the text of a stats file gives.
pub open spec fn stats_of_text(contents: Seq<char>) -> Map<Seq<char>, LauncherStats> {
    stats_from_lines(split_on(contents, '\n'))
}

/// Whether `v` reads `true`.
fn is_true_word(v: &Vec<char>) -> (r: bool)
    ensures
        r == (v@ == true_word()),
{
    proof {
        reveal_strlit("true");
    }
    let r = v.len() == 4 && v[0] == 't' && v[1] == 'r' && v[2] == 'u' && v[3] == 'e';
    if r {
        assert(v@ =~= true_word());
    }
    r
}

/// The entry that one line of the stats file gives, as `stats_line` describes it.
fn stats_entry_of_line(line: &Vec<char>) -> (r: Option<(Vec<char>, LauncherStats)>)
    ensures
        match r {
            Some(e) => stats_line(line@) == Some((e.0@, e.1)),
            None => stats_line(line@) is None,
        },
{
    match fields_of_line(line) {
        None => None,
        Some(f) => {
            if f.len() < 3 {
                None
            } else {
                let count = match parse_u32_at(&f[1], 0, f[1].len()) {
                    Some(n) => n,
                    None => 0,
                };
                let fav = is_true_word(&f[2]);
                assert(f[1]@.subrange(0, f[1]@.len() as int) =~= f[1]@);
                assert(seqs_of(f@)[0] == f[0]@ && seqs_of(f@)[1] == f[1]@ && seqs_of(f@)[2]
                    == f[2]@);
                let key = f[0].clone();
                Some((key, LauncherStats { launch_count: count, is_favorite: fav }))
            }
        },
    }
}

/// Reads the text of a stats file: one `command<TAB>launch_count<TAB>favorite`
/// line per command; blank lines, comment lines and lines with fewer than three
/// fields are skipped, and a later line for a command wins.
pub fn parse_stats(contents: &str) -> (r: StatsTable)
    ensures
        r.wf(),
        r@ == stats_of_text(contents@),
{
    let lines = split_lines(contents);
    let mut table = StatsTable::new();
    let mut i: usize = 0;
    while i < lines.len()
        invariant
            i <= lines@.len(),
            seqs_of(lines@) == split_on(contents@, '\n'),
            table.wf(),
            table@ == stats_from_lines(seqs_of(lines@).take(i as int)),
        decreases lines@.len() - i,
    {
        assert(seqs_of(lines@).take(i + 1).drop_last() =~= seqs_of(lines@).take(i as int));
        assert(seqs_of(lines@).take(i + 1).last() == lines@[i as int]@);
        match stats_entry_of_line(&lines[i]) {
            Some(e) => {
                table.set(e.0, e.1);
            },
            None => {},
        }
        i = i + 1;
    }
    assert(seqs_of(lines@).take(lines@.len() as int) =~= seqs_of(lines@));
    table
}

/// The first line of the stats file.
pub open spec fn stats_header() -> Seq<char> {
    "# TUI usage stats. Each line is: command<TAB>launch_count<TAB>favorite"@
}

/// The line that the stats file holds for one command.
pub open spec fn stats_row_text(command: Seq<char>, stats: LauncherStats) -> Seq<char> {
    untab(command) + seq!['\t'] + decimal(stats.launch_count as nat) + seq!['\t'] + (
    if stats.is_favorite {
        true_word()
    } else {
        false_word()
    })
}

/// The lines of the stats file for the given rows, each ending in a newline.
pub open spec fn stats_rows_text(rows: Seq<(Seq<char>, LauncherStats)>) -> Seq<char>
    decreases rows.len(),
{
    if rows.len() == 0 {
        Seq::empty()
    } else {
        stats_rows_text(rows.drop_last()) + stats_row_text(rows.last().0, rows.last().1).push(
            '\n',
        )
    }
}

/// The whole text of the stats file for the given rows.
pub open spec fn stats_text(rows: Seq<(Seq<char>, LauncherStats)>) -> Seq<char> {
    stats_header().push('\n') + stats_rows_text(rows)
}

impl StatsTable {
    /// The text of the stats file for this table: a comment line, then one
    /// line per command in the order of the commands, tabs inside a command
    /// written as spaces.
    pub fn render(&self) -> (r: String)
        ensures
            r@ == stats_text(self.rows()),
    {
        let mut out = String::from_str(
            "# TUI usage stats. Each line is: command<TAB>launch_count<TAB>favorite",
        );
        push_char(&mut out, '\n');
        let mut i: usize = 0;
        while i < self.rows.len()
            invariant
                i <= self.rows@.len(),
                out@ == stats_header().push('\n') + stats_rows_text(self.rows().take(i as int)),
            decreases self.rows@.len() - i,
        {
            let ghost before = out@;
            let row = &self.rows[i];
            push_untabbed(&mut out, &row.command);
            push_char(&mut out, '\t');
            push_decimal(&mut out, row.stats.launch_count as u64);
            push_char(&mut out, '\t');
            if row.stats.is_favorite {
                out.append("true");
            } else {
                out.append("false");
            }
            push_char(&mut out, '\n');
            proof {
                let rows = self.rows();
                assert(rows.take(i + 1).drop_last() =~= rows.take(i as int));
                assert(rows.take(i + 1).last() == rows[i as int]);
                assert(rows[i as int] == (row.command@, row.stats));
                assert(out@ =~= before + stats_row_text(row.command@, row.stats).push('\n'));
            }
            i = i + 1;
        }
        assert(self.rows().take(self.rows@.len() as int) =~= self.rows());
        out
    }
}


/// A command that a line of the stats file gives back as it was written:
/// not empty, not starting with whitespace or `#`, and holding no tab and no
/// newline.
pub open spec fn storable_command(k: Seq<char>) -> bool {
    &&& k.len() > 0
    &&& !is_ws(k[0])
    &&& k[0] != '#'
    &&& forall|i: int| 0 <= i < k.len() ==> k[i] != '\t' && k[i] != '\n'
}

/// The line written for a storable command reads back as that command and
/// its statistics.
proof fn lemma_stats_row_reads_back(k: Seq<char>, st: LauncherStats)
    requires
        storable_command(k),
    ensures
        stats_line(stats_row_text(k, st)) == Some((k, st)),
        forall|i: int| 0 <= i < stats_row_text(k, st).len() ==> stats_row_text(k, st)[i] != '\n',
{
    reveal_strlit("true");
    reveal_strlit("false");
    let d = decimal(st.launch_count as nat);
    lemma_decimal_digits(st.launch_count as nat);
    lemma_parse_decimal(st.launch_count as nat);
    let w = if st.is_favorite {
        true_word()
    } else {
        false_word()
    };
    assert(untab(k) =~= k);
    let line = stats_row_text(k, st);
    let rest = d + seq!['\t'] + w;
    assert(line =~= k + seq!['\t'] + rest);
    assert forall|i: int| 0 <= i < d.len() implies d[i] != '\t' && d[i] != '\n' by {
        lemma_digit_not_special(d[i]);
    }
    assert forall|i: int| 0 <= i < line.len() implies line[i] != '\n' by {
        if i < k.len() {
            assert(line[i] == k[i]);
        } else if k.len() < i < k.len() + 1 + d.len() {
            assert(line[i] == d[i - k.len() - 1]);
        }
    }
    assert(!is_ws(line.last()));
    assert(trim_start(line) == line);
    assert(trim_end(line) == line);
    assert(trim(line) == line);
    lemma_first_index_at(line, '\t', k.len() as int);
    assert(line.skip(k.len() as int + 1) =~= rest);
    assert(line.take(k.len() as int) =~= k);
    lemma_first_index_at(rest, '\t', d.len() as int);
    assert(rest.take(d.len() as int) =~= d);
    assert(rest.skip(d.len() as int + 1) =~= w);
    assert(split3(line, '\t') =~= seq![k, d, w]);
    if !st.is_favorite {
        assert(w.len() != true_word().len());
    }
}

/// Reading the text written for strictly sorted rows of storable commands
/// gives back the map of the rows.
proof fn lemma_stats_text_reads_back(rows: Seq<(Seq<char>, LauncherStats)>)
    requires
        forall|i: int| 0 <= i < rows.len() ==> storable_command(#[trigger] rows[i].0),
    ensures
        stats_of_text(stats_text(rows)) == rows_map(rows),
        stats_text(rows).len() > 0,
        stats_text(rows).last() == '\n',
    decreases rows.len(),
{
    reveal_strlit("# TUI usage stats. Each line is: command<TAB>launch_count<TAB>favorite");
    let h = stats_header();
    if rows.len() == 0 {
        assert(stats_text(rows) =~= h.push('\n') + Seq::<char>::empty());
        lemma_split_on_append(h, Seq::<char>::empty(), '\n');
        lemma_split_on_single(h, '\n');
        assert(split_on(Seq::<char>::empty(), '\n') == seq![Seq::<char>::empty()]);
        let lines = split_on(stats_text(rows), '\n');
        assert(lines =~= seq![h, Seq::<char>::empty()]);
        assert(lines.drop_last() =~= seq![h]);
        assert(seq![h].drop_last() =~= Seq::<Seq<char>>::empty());
        assert(trim_start(h) == h);
        assert(trim_end(h) == h);
        assert(trim(Seq::<char>::empty()) =~= Seq::<char>::empty());
        assert(h[0] == '#');
        assert(stats_line(h) is None);
        assert(stats_line(Seq::<char>::empty()) is None);
        assert(stats_from_lines(seq![h]) == stats_from_lines(Seq::<Seq<char>>::empty()));
        assert(stats_from_lines(lines) == stats_from_lines(seq![h]));
        assert(stats_from_lines(lines) =~= rows_map(rows));
    } else {
        let init = rows.drop_last();
        lemma_stats_text_reads_back(init);
        let t = stats_text(init);
        let x = t.drop_last();
        assert(t =~= x.push('\n'));
        let (k, st) = rows.last();
        assert(storable_command(rows[rows.len() - 1].0));
        lemma_stats_row_reads_back(k, st);
        let l = stats_row_text(k, st);
        assert(stats_text(rows) =~= x.push('\n') + l.push('\n'));
        lemma_split_on_append(x, l.push('\n'), '\n');
        lemma_split_on_append(l, Seq::<char>::empty(), '\n');
        lemma_split_on_single(l, '\n');
        lemma_split_on_append(x, Seq::<char>::empty(), '\n');
        assert(x.push('\n') + Seq::<char>::empty() =~= x.push('\n'));
        assert(l.push('\n') + Seq::<char>::empty() =~= l.push('\n'));
        assert(split_on(Seq::<char>::empty(), '\n') == seq![Seq::<char>::empty()]);
        let px = split_on(x, '\n');
        let lines = split_on(stats_text(rows), '\n');
        assert(lines =~= px + seq![l, Seq::<char>::empty()]);
        assert(split_on(t, '\n') =~= px.push(Seq::<char>::empty()));
        assert(split_on(t, '\n').drop_last() =~= px);
        assert(lines.drop_last() =~= px.push(l));
        assert(lines.drop_last().drop_last() =~= px);
        assert(trim(Seq::<char>::empty()) =~= Seq::<char>::empty());
        assert(stats_from_lines(split_on(t, '\n')) == stats_from_lines(px));
        assert(stats_line(Seq::<char>::empty()) is None);
        assert(stats_from_lines(lines) == stats_from_lines(px.push(l)));
        assert(px.push(l).drop_last() =~= px);
        assert(stats_from_lines(px.push(l)) == stats_from_lines(px).insert(k, st));
    }
}


/// Writing a table to the stats file and reading the file back gives the same
/// table, when every command in it is storable.
pub proof fn law_stats_round_trip(t: &StatsTable)
    requires
        t.wf(),
        forall|k: Seq<char>| #[trigger] t@.contains_key(k) ==> storable_command(k),
    ensures
        stats_of_text(stats_text(t.rows())) == t@,
{
    lemma_rows_map(t.rows());
    assert forall|i: int| 0 <= i < t.rows().len() implies storable_command(
        #[trigger] t.rows()[i].0,
    ) by {
        assert(t@.contains_key(t.rows()[i].0));
    }
    lemma_stats_text_reads_back(t.rows());
}

/// The saved statistics of `command` in `m`, or none saved.
pub open spec fn saved_or_none(m: Map<Seq<char>, LauncherStats>, command: Seq<char>) -> LauncherStats {
    if m.contains_key(command) {
        m[command]
    } else {
        no_stats()
    }
}

} // verus!
