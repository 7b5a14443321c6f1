//! The terminal programs that the launcher knows how to find, and the
//! entries it lists for those that are installed.

use vstd::prelude::*;
use crate::launcher::{ItemView, LauncherItem, LauncherSource, fresh_item, views};
use crate::text::{chars_of, command_name, is_ws, lemma_program_name_word, program_name, same_chars};

verus! {

/// A terminal program that the launcher looks for.
pub struct KnownTuiProgram {
    pub name: &'static str,
    pub command: &'static str,
    pub description: &'static str,
}

/// The known programs as `(name, command, description)` texts, in order.
pub open spec fn known_programs() -> Seq<(Seq<char>, Seq<char>, Seq<char>)> {
    seq![
        ("Zellij"@, "zellij"@, "Open the Zellij terminal workspace and multiplexer."@),
        ("Tmux"@, "tmux"@, "Open a tmux terminal multiplexer session."@),
        ("Neovim"@, "nvim"@, "Open Neovim in the directory where this launcher was started."@),
        ("Vim"@, "vim"@, "Open Vim in the directory where this launcher was started."@),
        ("Helix"@, "hx"@, "Open the Helix editor in the current directory."@),
        ("Micro"@, "micro"@, "Open the Micro terminal text editor."@),
        ("Emacs"@, "emacs -nw"@, "Open Emacs in terminal mode."@),
        ("Nano"@, "nano"@, "Open the Nano terminal text editor."@),
        ("Lazygit"@, "lazygit"@, "Open a Git status and commit dashboard for the current directory."@),
        ("GitUI"@, "gitui"@, "Open a keyboard-driven Git interface."@),
        ("Tig"@, "tig"@, "Browse Git history from the terminal."@),
        ("Lazy Docker"@, "lazydocker"@, "Open a terminal dashboard for Docker containers and services."@),
        ("Docker TUI"@, "docui"@, "Open a terminal interface for Docker resources."@),
        ("K9s"@, "k9s"@, "Open the K9s Kubernetes dashboard."@),
        ("Kubectl TUI"@, "kui"@, "Open a terminal interface for Kubernetes workflows."@),
        ("Stern"@, "stern"@, "Tail Kubernetes logs from multiple pods."@),
        ("Yazi"@, "yazi"@, "Open the Yazi terminal file manager."@),
        ("Ranger"@, "ranger"@, "Open the Ranger terminal file manager."@),
        ("Lf"@, "lf"@, "Open the lf terminal file manager."@),
        ("Nnn"@, "nnn"@, "Open the nnn terminal file manager."@),
        ("Vifm"@, "vifm"@, "Open the Vifm dual-pane file manager."@),
        ("Midnight Commander"@, "mc"@, "Open the Midnight Commander file manager."@),
        ("Superfile"@, "spf"@, "Open the Superfile terminal file manager."@),
        ("Btop"@, "btop"@, "Open the btop system monitor."@),
        ("Bottom"@, "btm"@, "Open the Bottom system monitor."@),
        ("Htop"@, "htop"@, "Open the htop process monitor."@),
        ("Top"@, "top"@, "Open the standard process monitor."@),
        ("Glances"@, "glances"@, "Open the Glances system monitor."@),
        ("Atop"@, "atop"@, "Open the atop system and process monitor."@),
        ("Iotop"@, "iotop"@, "Inspect disk I/O usage by process."@),
        ("Bandwhich"@, "bandwhich"@, "Show current network usage by process and connection."@),
        ("Nethogs"@, "nethogs"@, "Show network usage grouped by process."@),
        ("Nload"@, "nload"@, "Monitor network throughput in the terminal."@),
        ("Bluetuith"@, "bluetuith"@, "Manage Bluetooth devices from the terminal."@),
        ("Impala"@, "impala"@, "Manage Wi-Fi connections from the terminal."@),
        ("Glow"@, "glow"@, "Browse Markdown files in the terminal."@),
        ("Broot"@, "broot"@, "Explore and search directory trees."@),
        ("Dust"@, "dust"@, "Inspect disk usage with a terminal tree view."@),
        ("Ncdu"@, "ncdu"@, "Inspect disk usage from the terminal."@),
        ("Dua"@, "dua interactive"@, "Inspect disk usage with dua's interactive terminal view."@),
        ("Gdu"@, "gdu"@, "Inspect disk usage with the gdu terminal analyzer."@),
        ("Rmpc"@, "rmpc"@, "Open the rmpc terminal music client."@),
        ("Newsboat"@, "newsboat"@, "Open the Newsboat RSS reader."@),
        ("Aerc"@, "aerc"@, "Open the aerc terminal email client."@),
        ("Neomutt"@, "neomutt"@, "Open the NeoMutt terminal email client."@),
        ("Mutt"@, "mutt"@, "Open the Mutt terminal email client."@),
        ("WeeChat"@, "weechat"@, "Open the WeeChat terminal chat client."@),
        ("Irssi"@, "irssi"@, "Open the Irssi terminal chat client."@),
        ("Tuigreet"@, "tuigreet"@, "Open the tuigreet terminal login greeter."@),
        ("Music Player"@, "ncmpcpp"@, "Open the ncmpcpp music client."@),
        ("Cmus"@, "cmus"@, "Open the cmus terminal music player."@),
        ("Mocp"@, "mocp"@, "Open the MOC terminal music player."@),
        ("Tuir"@, "tuir"@, "Open a terminal Reddit client."@),
        ("Rtv"@, "rtv"@, "Open a terminal Reddit viewer."@),
        ("Twtxt"@, "twtxt"@, "Open the twtxt command line social client."@),
        ("W3m"@, "w3m"@, "Open the w3m terminal web browser."@),
        ("Lynx"@, "lynx"@, "Open the Lynx terminal web browser."@),
        ("El Links"@, "elinks"@, "Open the ELinks terminal web browser."@),
        ("Bashmount"@, "bashmount"@, "Mount and unmount storage devices from the terminal."@),
        ("Pulsemixer"@, "pulsemixer"@, "Control PulseAudio volume from the terminal."@),
        ("Alsamixer"@, "alsamixer"@, "Control ALSA audio levels from the terminal."@),
        ("Termscp"@, "termscp"@, "Open a terminal file transfer client."@),
        ("Lftp"@, "lftp"@, "Open the lftp terminal file transfer client."@),
        ("Gdb TUI"@, "gdb -tui"@, "Open GDB in terminal UI mode."@),
        ("Lldb"@, "lldb"@, "Open the LLDB debugger."@),
        ("Viddy"@, "viddy"@, "Run commands repeatedly in an interactive watch view."@),
    ]
}

/// The known programs have all their texts filled in, each command starts with
/// its program rather than with whitespace, and no two run the same program.
pub open spec fn programs_well_formed(ps: Seq<(Seq<char>, Seq<char>, Seq<char>)>) -> bool {
    &&& forall|i: int|
        #![trigger ps[i]]
        0 <= i < ps.len() ==> ps[i].0.len() > 0 && ps[i].1.len() > 0 && ps[i].2.len() > 0
            && !is_ws(ps[i].1[0])
    &&& forall|i: int, j: int|
        0 <= i < j < ps.len() ==> program_name(#[trigger] ps[i].1) != program_name(
            #[trigger] ps[j].1,
        )
}

/// The length and the first, second and last characters of a text: enough to
/// tell the program names of the known programs apart.
pub open spec fn name_key(s: Seq<char>) -> (nat, char, char, char) {
    (s.len(), s[0], s[1], s.last())
}

/// The position in the table of the known program whose program name has the
/// key of `s`.
spec fn known_slot(s: Seq<char>) -> int {
    let k = name_key(s);
    if k == (6nat, 'z', 'e', 'j') {
        0
    } else if k == (4nat, 't', 'm', 'x') {
        1
    } else if k == (4nat, 'n', 'v', 'm') {
        2
    } else if k == (3nat, 'v', 'i', 'm') {
        3
    } else if k == (2nat, 'h', 'x', 'x') {
        4
    } else if k == (5nat, 'm', 'i', 'o') {
        5
    } else if k == (5nat, 'e', 'm', 's') {
        6
    } else if k == (4nat, 'n', 'a', 'o') {
        7
    } else if k == (7nat, 'l', 'a', 't') {
        8
    } else if k == (5nat, 'g', 'i', 'i') {
        9
    } else if k == (3nat, 't', 'i', 'g') {
        10
    } else if k == (10nat, 'l', 'a', 'r') {
        11
    } else if k == (5nat, 'd', 'o', 'i') {
        12
    } else if k == (3nat, 'k', '9', 's') {
        13
    } else if k == (3nat, 'k', 'u', 'i') {
        14
    } else if k == (5nat, 's', 't', 'n') {
        15
    } else if k == (4nat, 'y', 'a', 'i') {
        16
    } else if k == (6nat, 'r', 'a', 'r') {
        17
    } else if k == (2nat, 'l', 'f', 'f') {
        18
    } else if k == (3nat, 'n', 'n', 'n') {
        19
    } else if k == (4nat, 'v', 'i', 'm') {
        20
    } else if k == (2nat, 'm', 'c', 'c') {
        21
    } else if k == (3nat, 's', 'p', 'f') {
        22
    } else if k == (4nat, 'b', 't', 'p') {
        23
    } else if k == (3nat, 'b', 't', 'm') {
        24
    } else if k == (4nat, 'h', 't', 'p') {
        25
    } else if k == (3nat, 't', 'o', 'p') {
        26
    } else if k == (7nat, 'g', 'l', 's') {
        27
    } else if k == (4nat, 'a', 't', 'p') {
        28
    } else if k == (5nat, 'i', 'o', 'p') {
        29
    } else if k == (9nat, 'b', 'a', 'h') {
        30
    } else if k == (7nat, 'n', 'e', 's') {
        31
    } else if k == (5nat, 'n', 'l', 'd') {
        32
    } else if k == (9nat, 'b', 'l', 'h') {
        33
    } else if k == (6nat, 'i', 'm', 'a') {
        34
    } else if k == (4nat, 'g', 'l', 'w') {
        35
    } else if k == (5nat, 'b', 'r', 't') {
        36
    } else if k == (4nat, 'd', 'u', 't') {
        37
    } else if k == (4nat, 'n', 'c', 'u') {
        38
    } else if k == (3nat, 'd', 'u', 'a') {
        39
    } else if k == (3nat, 'g', 'd', 'u') {
        40
    } else if k == (4nat, 'r', 'm', 'c') {
        41
    } else if k == (8nat, 'n', 'e', 't') {
        42
    } else if k == (4nat, 'a', 'e', 'c') {
        43
    } else if k == (7nat, 'n', 'e', 't') {
        44
    } else if k == (4nat, 'm', 'u', 't') {
        45
    } else if k == (7nat, 'w', 'e', 't') {
        46
    } else if k == (5nat, 'i', 'r', 'i') {
        47
    } else if k == (8nat, 't', 'u', 't') {
        48
    } else if k == (7nat, 'n', 'c', 'p') {
        49
    } else if k == (4nat, 'c', 'm', 's') {
        50
    } else if k == (4nat, 'm', 'o', 'p') {
        51
    } else if k == (4nat, 't', 'u', 'r') {
        52
    } else if k == (3nat, 'r', 't', 'v') {
        53
    } else if k == (5nat, 't', 'w', 't') {
        54
    } else if k == (3nat, 'w', '3', 'm') {
        55
    } else if k == (4nat, 'l', 'y', 'x') {
        56
    } else if k == (6nat, 'e', 'l', 's') {
        57
    } else if k == (9nat, 'b', 'a', 't') {
        58
    } else if k == (10nat, 'p', 'u', 'r') {
        59
    } else if k == (9nat, 'a', 'l', 'r') {
        60
    } else if k == (7nat, 't', 'e', 'p') {
        61
    } else if k == (4nat, 'l', 'f', 'p') {
        62
    } else if k == (3nat, 'g', 'd', 'b') {
        63
    } else if k == (4nat, 'l', 'l', 'b') {
        64
    } else if k == (5nat, 'v', 'i', 'y') {
        65
    } else {
        66
    }
}

/// What the table says of its entry `i`: its texts are filled in, its command
/// starts with its program, and the key of the program name is that of entry `i`.
proof fn lemma_known_entry(i: int)
    requires
        0 <= i < known_programs().len(),
    ensures
        ({
            let p = known_programs()[i];
            &&& p.0.len() > 0
            &&& p.1.len() > 0
            &&& p.2.len() > 0
            &&& !is_ws(p.1[0])
            &&& known_slot(program_name(p.1)) == i
        }),
{
    let ps = known_programs();
    if i == 0 {
        reveal_strlit("Open the Zellij terminal workspace and multiplexer.");
        reveal_strlit("Zellij");
        reveal_strlit("zellij");
        lemma_program_name_word(ps[0].1, 6);
        assert(ps[0].1.take(6).len() == 6);
    } else if i == 1 {
        reveal_strlit("Open a tmux terminal multiplexer session.");
        reveal_strlit("Tmux");
        reveal_strlit("tmux");
        lemma_program_name_word(ps[1].1, 4);
        assert(ps[1].1.take(4).len() == 4);
    } else if i == 2 {
        reveal_strlit("Neovim");
        reveal_strlit("Open Neovim in the directory where this launcher was started.");
        reveal_strlit("nvim");
        lemma_program_name_word(ps[2].1, 4);
        assert(ps[2].1.take(4).len() == 4);
    } else if i == 3 {
        reveal_strlit("Open Vim in the directory where this launcher was started.");
        reveal_strlit("Vim");
        reveal_strlit("vim");
        lemma_program_name_word(ps[3].1, 3);
        assert(ps[3].1.take(3).len() == 3);
    } else if i == 4 {
        reveal_strlit("Helix");
        reveal_strlit("Open the Helix editor in the current directory.");
        reveal_strlit("hx");
        lemma_program_name_word(ps[4].1, 2);
        assert(ps[4].1.take(2).len() == 2);
    } else if i == 5 {
        reveal_strlit("Micro");
        reveal_strlit("Open the Micro terminal text editor.");
        reveal_strlit("micro");
        lemma_program_name_word(ps[5].1, 5);
        assert(ps[5].1.take(5).len() == 5);
    } else if i == 6 {
        reveal_strlit("Emacs");
        reveal_strlit("Open Emacs in terminal mode.");
        reveal_strlit("emacs -nw");
        lemma_program_name_word(ps[6].1, 5);
        assert(ps[6].1.take(5).len() == 5);
    } else if i == 7 {
        reveal_strlit("Nano");
        reveal_strlit("Open the Nano terminal text editor.");
        reveal_strlit("nano");
        lemma_program_name_word(ps[7].1, 4);
        assert(ps[7].1.take(4).len() == 4);
    } else if i == 8 {
        reveal_strlit("Lazygit");
        reveal_strlit("Open a Git status and commit dashboard for the current directory.");
        reveal_strlit("lazygit");
        lemma_program_name_word(ps[8].1, 7);
        assert(ps[8].1.take(7).len() == 7);
    } else if i == 9 {
        reveal_strlit("GitUI");
        reveal_strlit("Open a keyboard-driven Git interface.");
        reveal_strlit("gitui");
        lemma_program_name_word(ps[9].1, 5);
        assert(ps[9].1.take(5).len() == 5);
    } else if i == 10 {
        reveal_strlit("Browse Git history from the terminal.");
        reveal_strlit("Tig");
        reveal_strlit("tig");
        lemma_program_name_word(ps[10].1, 3);
        assert(ps[10].1.take(3).len() == 3);
    } else if i == 11 {
        reveal_strlit("Lazy Docker");
        reveal_strlit("Open a terminal dashboard for Docker containers and services.");
        reveal_strlit("lazydocker");
        lemma_program_name_word(ps[11].1, 10);
        assert(ps[11].1.take(10).len() == 10);
    } else if i == 12 {
        reveal_strlit("Docker TUI");
        reveal_strlit("Open a terminal interface for Docker resources.");
        reveal_strlit("docui");
        lemma_program_name_word(ps[12].1, 5);
        assert(ps[12].1.take(5).len() == 5);
    } else if i == 13 {
        reveal_strlit("K9s");
        reveal_strlit("Open the K9s Kubernetes dashboard.");
        reveal_strlit("k9s");
        lemma_program_name_word(ps[13].1, 3);
        assert(ps[13].1.take(3).len() == 3);
    } else if i == 14 {
        reveal_strlit("Kubectl TUI");
        reveal_strlit("Open a terminal interface for Kubernetes workflows.");
        reveal_strlit("kui");
        lemma_program_name_word(ps[14].1, 3);
        assert(ps[14].1.take(3).len() == 3);
    } else if i == 15 {
        reveal_strlit("Stern");
        reveal_strlit("Tail Kubernetes logs from multiple pods.");
        reveal_strlit("stern");
        lemma_program_name_word(ps[15].1, 5);
        assert(ps[15].1.take(5).len() == 5);
    } else if i == 16 {
        reveal_strlit("Open the Yazi terminal file manager.");
        reveal_strlit("Yazi");
        reveal_strlit("yazi");
        lemma_program_name_word(ps[16].1, 4);
        assert(ps[16].1.take(4).len() == 4);
    } else if i == 17 {
        reveal_strlit("Open the Ranger terminal file manager.");
        reveal_strlit("Ranger");
        reveal_strlit("ranger");
        lemma_program_name_word(ps[17].1, 6);
        assert(ps[17].1.take(6).len() == 6);
    } else if i == 18 {
        reveal_strlit("Lf");
        reveal_strlit("Open the lf terminal file manager.");
        reveal_strlit("lf");
        lemma_program_name_word(ps[18].1, 2);
        assert(ps[18].1.take(2).len() == 2);
    } else if i == 19 {
        reveal_strlit("Nnn");
        reveal_strlit("Open the nnn terminal file manager.");
        reveal_strlit("nnn");
        lemma_program_name_word(ps[19].1, 3);
        assert(ps[19].1.take(3).len() == 3);
    } else if i == 20 {
        reveal_strlit("Open the Vifm dual-pane file manager.");
        reveal_strlit("Vifm");
        reveal_strlit("vifm");
        lemma_program_name_word(ps[20].1, 4);
        assert(ps[20].1.take(4).len() == 4);
    } else if i == 21 {
        reveal_strlit("Midnight Commander");
        reveal_strlit("Open the Midnight Commander file manager.");
        reveal_strlit("mc");
        lemma_program_name_word(ps[21].1, 2);
        assert(ps[21].1.take(2).len() == 2);
    } else if i == 22 {
        reveal_strlit("Open the Superfile terminal file manager.");
        reveal_strlit("Superfile");
        reveal_strlit("spf");
        lemma_program_name_word(ps[22].1, 3);
        assert(ps[22].1.take(3).len() == 3);
    } else if i == 23 {
        reveal_strlit("Btop");
        reveal_strlit("Open the btop system monitor.");
        reveal_strlit("btop");
        lemma_program_name_word(ps[23].1, 4);
        assert(ps[23].1.take(4).len() == 4);
    } else if i == 24 {
        reveal_strlit("Bottom");
        reveal_strlit("Open the Bottom system monitor.");
        reveal_strlit("btm");
        lemma_program_name_word(ps[24].1, 3);
        assert(ps[24].1.take(3).len() == 3);
    } else if i == 25 {
        reveal_strlit("Htop");
        reveal_strlit("Open the htop process monitor.");
        reveal_strlit("htop");
        lemma_program_name_word(ps[25].1, 4);
        assert(ps[25].1.take(4).len() == 4);
    } else if i == 26 {
        reveal_strlit("Open the standard process monitor.");
        reveal_strlit("Top");
        reveal_strlit("top");
        lemma_program_name_word(ps[26].1, 3);
        assert(ps[26].1.take(3).len() == 3);
    } else if i == 27 {
        reveal_strlit("Glances");
        reveal_strlit("Open the Glances system monitor.");
        reveal_strlit("glances");
        lemma_program_name_word(ps[27].1, 7);
        assert(ps[27].1.take(7).len() == 7);
    } else if i == 28 {
        reveal_strlit("Atop");
        reveal_strlit("Open the atop system and process monitor.");
        reveal_strlit("atop");
        lemma_program_name_word(ps[28].1, 4);
        assert(ps[28].1.take(4).len() == 4);
    } else if i == 29 {
        reveal_strlit("Inspect disk I/O usage by process.");
        reveal_strlit("Iotop");
        reveal_strlit("iotop");
        lemma_program_name_word(ps[29].1, 5);
        assert(ps[29].1.take(5).len() == 5);
    } else if i == 30 {
        reveal_strlit("Bandwhich");
        reveal_strlit("Show current network usage by process and connection.");
        reveal_strlit("bandwhich");
        lemma_program_name_word(ps[30].1, 9);
        assert(ps[30].1.take(9).len() == 9);
    } else if i == 31 {
        reveal_strlit("Nethogs");
        reveal_strlit("Show network usage grouped by process.");
        reveal_strlit("nethogs");
        lemma_program_name_word(ps[31].1, 7);
        assert(ps[31].1.take(7).len() == 7);
    } else if i == 32 {
        reveal_strlit("Monitor network throughput in the terminal.");
        reveal_strlit("Nload");
        reveal_strlit("nload");
        lemma_program_name_word(ps[32].1, 5);
        assert(ps[32].1.take(5).len() == 5);
    } else if i == 33 {
        reveal_strlit("Bluetuith");
        reveal_strlit("Manage Bluetooth devices from the terminal.");
        reveal_strlit("bluetuith");
        lemma_program_name_word(ps[33].1, 9);
        assert(ps[33].1.take(9).len() == 9);
    } else if i == 34 {
        reveal_strlit("Impala");
        reveal_strlit("Manage Wi-Fi connections from the terminal.");
        reveal_strlit("impala");
        lemma_program_name_word(ps[34].1, 6);
        assert(ps[34].1.take(6).len() == 6);
    } else if i == 35 {
        reveal_strlit("Browse Markdown files in the terminal.");
        reveal_strlit("Glow");
        reveal_strlit("glow");
        lemma_program_name_word(ps[35].1, 4);
        assert(ps[35].1.take(4).len() == 4);
    } else if i == 36 {
        reveal_strlit("Broot");
        reveal_strlit("Explore and search directory trees.");
        reveal_strlit("broot");
        lemma_program_name_word(ps[36].1, 5);
        assert(ps[36].1.take(5).len() == 5);
    } else if i == 37 {
        reveal_strlit("Dust");
        reveal_strlit("Inspect disk usage with a terminal tree view.");
        reveal_strlit("dust");
        lemma_program_name_word(ps[37].1, 4);
        assert(ps[37].1.take(4).len() == 4);
    } else if i == 38 {
        reveal_strlit("Inspect disk usage from the terminal.");
        reveal_strlit("Ncdu");
        reveal_strlit("ncdu");
        lemma_program_name_word(ps[38].1, 4);
        assert(ps[38].1.take(4).len() == 4);
    } else if i == 39 {
        reveal_strlit("Dua");
        reveal_strlit("Inspect disk usage with dua's interactive terminal view.");
        reveal_strlit("dua interactive");
        lemma_program_name_word(ps[39].1, 3);
        assert(ps[39].1.take(3).len() == 3);
    } else if i == 40 {
        reveal_strlit("Gdu");
        reveal_strlit("Inspect disk usage with the gdu terminal analyzer.");
        reveal_strlit("gdu");
        lemma_program_name_word(ps[40].1, 3);
        assert(ps[40].1.take(3).len() == 3);
    } else if i == 41 {
        reveal_strlit("Open the rmpc terminal music client.");
        reveal_strlit("Rmpc");
        reveal_strlit("rmpc");
        lemma_program_name_word(ps[41].1, 4);
        assert(ps[41].1.take(4).len() == 4);
    } else if i == 42 {
        reveal_strlit("Newsboat");
        reveal_strlit("Open the Newsboat RSS reader.");
        reveal_strlit("newsboat");
        lemma_program_name_word(ps[42].1, 8);
        assert(ps[42].1.take(8).len() == 8);
    } else if i == 43 {
        reveal_strlit("Aerc");
        reveal_strlit("Open the aerc terminal email client.");
        reveal_strlit("aerc");
        lemma_program_name_word(ps[43].1, 4);
        assert(ps[43].1.take(4).len() == 4);
    } else if i == 44 {
        reveal_strlit("Neomutt");
        reveal_strlit("Open the NeoMutt terminal email client.");
        reveal_strlit("neomutt");
        lemma_program_name_word(ps[44].1, 7);
        assert(ps[44].1.take(7).len() == 7);
    } else if i == 45 {
        reveal_strlit("Mutt");
        reveal_strlit("Open the Mutt terminal email client.");
        reveal_strlit("mutt");
        lemma_program_name_word(ps[45].1, 4);
        assert(ps[45].1.take(4).len() == 4);
    } else if i == 46 {
        reveal_strlit("Open the WeeChat terminal chat client.");
        reveal_strlit("WeeChat");
        reveal_strlit("weechat");
        lemma_program_name_word(ps[46].1, 7);
        assert(ps[46].1.take(7).len() == 7);
    } else if i == 47 {
        reveal_strlit("Irssi");
        reveal_strlit("Open the Irssi terminal chat client.");
        reveal_strlit("irssi");
        lemma_program_name_word(ps[47].1, 5);
        assert(ps[47].1.take(5).len() == 5);
    } else if i == 48 {
        reveal_strlit("Open the tuigreet terminal login greeter.");
        reveal_strlit("Tuigreet");
        reveal_strlit("tuigreet");
        lemma_program_name_word(ps[48].1, 8);
        assert(ps[48].1.take(8).len() == 8);
    } else if i == 49 {
        reveal_strlit("Music Player");
        reveal_strlit("Open the ncmpcpp music client.");
        reveal_strlit("ncmpcpp");
        lemma_program_name_word(ps[49].1, 7);
        assert(ps[49].1.take(7).len() == 7);
    } else if i == 50 {
        reveal_strlit("Cmus");
        reveal_strlit("Open the cmus terminal music player.");
        reveal_strlit("cmus");
        lemma_program_name_word(ps[50].1, 4);
        assert(ps[50].1.take(4).len() == 4);
    } else if i == 51 {
        reveal_strlit("Mocp");
        reveal_strlit("Open the MOC terminal music player.");
        reveal_strlit("mocp");
        lemma_program_name_word(ps[51].1, 4);
        assert(ps[51].1.take(4).len() == 4);
    } else if i == 52 {
        reveal_strlit("Open a terminal Reddit client.");
        reveal_strlit("Tuir");
        reveal_strlit("tuir");
        lemma_program_name_word(ps[52].1, 4);
        assert(ps[52].1.take(4).len() == 4);
    } else if i == 53 {
        reveal_strlit("Open a terminal Reddit viewer.");
        reveal_strlit("Rtv");
        reveal_strlit("rtv");
        lemma_program_name_word(ps[53].1, 3);
        assert(ps[53].1.take(3).len() == 3);
    } else if i == 54 {
        reveal_strlit("Open the twtxt command line social client.");
        reveal_strlit("Twtxt");
        reveal_strlit("twtxt");
        lemma_program_name_word(ps[54].1, 5);
        assert(ps[54].1.take(5).len() == 5);
    } else if i == 55 {
        reveal_strlit("Open the w3m terminal web browser.");
        reveal_strlit("W3m");
        reveal_strlit("w3m");
        lemma_program_name_word(ps[55].1, 3);
        assert(ps[55].1.take(3).len() == 3);
    } else if i == 56 {
        reveal_strlit("Lynx");
        reveal_strlit("Open the Lynx terminal web browser.");
        reveal_strlit("lynx");
        lemma_program_name_word(ps[56].1, 4);
        assert(ps[56].1.take(4).len() == 4);
    } else if i == 57 {
        reveal_strlit("El Links");
        reveal_strlit("Open the ELinks terminal web browser.");
        reveal_strlit("elinks");
        lemma_program_name_word(ps[57].1, 6);
        assert(ps[57].1.take(6).len() == 6);
    } else if i == 58 {
        reveal_strlit("Bashmount");
        reveal_strlit("Mount and unmount storage devices from the terminal.");
        reveal_strlit("bashmount");
        lemma_program_name_word(ps[58].1, 9);
        assert(ps[58].1.take(9).len() == 9);
    } else if i == 59 {
        reveal_strlit("Control PulseAudio volume from the terminal.");
        reveal_strlit("Pulsemixer");
        reveal_strlit("pulsemixer");
        lemma_program_name_word(ps[59].1, 10);
        assert(ps[59].1.take(10).len() == 10);
    } else if i == 60 {
        reveal_strlit("Alsamixer");
        reveal_strlit("Control ALSA audio levels from the terminal.");
        reveal_strlit("alsamixer");
        lemma_program_name_word(ps[60].1, 9);
        assert(ps[60].1.take(9).len() == 9);
    } else if i == 61 {
        reveal_strlit("Open a terminal file transfer client.");
        reveal_strlit("Termscp");
        reveal_strlit("termscp");
        lemma_program_name_word(ps[61].1, 7);
        assert(ps[61].1.take(7).len() == 7);
    } else if i == 62 {
        reveal_strlit("Lftp");
        reveal_strlit("Open the lftp terminal file transfer client.");
        reveal_strlit("lftp");
        lemma_program_name_word(ps[62].1, 4);
        assert(ps[62].1.take(4).len() == 4);
    } else if i == 63 {
        reveal_strlit("Gdb TUI");
        reveal_strlit("Open GDB in terminal UI mode.");
        reveal_strlit("gdb -tui");
        lemma_program_name_word(ps[63].1, 3);
        assert(ps[63].1.take(3).len() == 3);
    } else if i == 64 {
        reveal_strlit("Lldb");
        reveal_strlit("Open the LLDB debugger.");
        reveal_strlit("lldb");
        lemma_program_name_word(ps[64].1, 4);
        assert(ps[64].1.take(4).len() == 4);
    } else if i == 65 {
        reveal_strlit("Run commands repeatedly in an interactive watch view.");
        reveal_strlit("Viddy");
        reveal_strlit("viddy");
        lemma_program_name_word(ps[65].1, 5);
        assert(ps[65].1.take(5).len() == 5);
    }
}

/// The table of known programs is well formed.
pub proof fn lemma_known_programs_well_formed()
    ensures
        programs_well_formed(known_programs()),
{
    let ps = known_programs();
    assert forall|i: int| #![trigger ps[i]] 0 <= i < ps.len() implies ps[i].0.len() > 0 && ps[i].1.len() > 0
        && ps[i].2.len() > 0 && !is_ws(ps[i].1[0]) by {
        lemma_known_entry(i);
    }
    assert forall|i: int, j: int| 0 <= i < j < ps.len() implies program_name(
        #[trigger] ps[i].1,
    ) != program_name(#[trigger] ps[j].1) by {
        lemma_known_entry(i);
        lemma_known_entry(j);
    }
}

/// The texts of a known program.
pub open spec fn program_texts(p: KnownTuiProgram) -> (Seq<char>, Seq<char>, Seq<char>) {
    (p.name@, p.command@, p.description@)
}

/// The terminal programs that the launcher looks for, in the order in which
/// they are listed when found.
pub fn known_tui_programs() -> (r: Vec<KnownTuiProgram>)
    ensures
        r@.map_values(|p: KnownTuiProgram| program_texts(p)) == known_programs(),
        programs_well_formed(r@.map_values(|p: KnownTuiProgram| program_texts(p))),
{
    proof {
        lemma_known_programs_well_formed();
    }
    vec![
        KnownTuiProgram {
            name: "Zellij",
            command: "zellij",
            description: "Open the Zellij terminal workspace and multiplexer.",
        },
        KnownTuiProgram {
            name: "Tmux",
            command: "tmux",
            description: "Open a tmux terminal multiplexer session.",
        },
        KnownTuiProgram {
            name: "Neovim",
            command: "nvim",
            description: "Open Neovim in the directory where this launcher was started.",
        },
        KnownTuiProgram {
            name: "Vim",
            command: "vim",
            description: "Open Vim in the directory where this launcher was started.",
        },
        KnownTuiProgram {
            name: "Helix",
            command: "hx",
            description: "Open the Helix editor in the current directory.",
        },
        KnownTuiProgram {
            name: "Micro",
            command: "micro",
            description: "Open the Micro terminal text editor.",
        },
        KnownTuiProgram {
            name: "Emacs",
            command: "emacs -nw",
            description: "Open Emacs in terminal mode.",
        },
        KnownTuiProgram {
            name: "Nano",
            command: "nano",
            description: "Open the Nano terminal text editor.",
        },
        KnownTuiProgram {
            name: "Lazygit",
            command: "lazygit",
            description: "Open a Git status and commit dashboard for the current directory.",
        },
        KnownTuiProgram {
            name: "GitUI",
            command: "gitui",
            description: "Open a keyboard-driven Git interface.",
        },
        KnownTuiProgram {
            name: "Tig",
            command: "tig",
            description: "Browse Git history from the terminal.",
        },
        KnownTuiProgram {
            name: "Lazy Docker",
            command: "lazydocker",
            description: "Open a terminal dashboard for Docker containers and services.",
        },
        KnownTuiProgram {
            name: "Docker TUI",
            command: "docui",
            description: "Open a terminal interface for Docker resources.",
        },
        KnownTuiProgram {
            name: "K9s",
            command: "k9s",
            description: "Open the K9s Kubernetes dashboard.",
        },
        KnownTuiProgram {
            name: "Kubectl TUI",
            command: "kui",
            description: "Open a terminal interface for Kubernetes workflows.",
        },
        KnownTuiProgram {
            name: "Stern",
            command: "stern",
            description: "Tail Kubernetes logs from multiple pods.",
        },
        KnownTuiProgram {
            name: "Yazi",
            command: "yazi",
            description: "Open the Yazi terminal file manager.",
        },
        KnownTuiProgram {
            name: "Ranger",
            command: "ranger",
            description: "Open the Ranger terminal file manager.",
        },
        KnownTuiProgram {
            name: "Lf",
            command: "lf",
            description: "Open the lf terminal file manager.",
        },
        KnownTuiProgram {
            name: "Nnn",
            command: "nnn",
            description: "Open the nnn terminal file manager.",
        },
        KnownTuiProgram {
            name: "Vifm",
            command: "vifm",
            description: "Open the Vifm dual-pane file manager.",
        },
        KnownTuiProgram {
            name: "Midnight Commander",
            command: "mc",
            description: "Open the Midnight Commander file manager.",
        },
        KnownTuiProgram {
            name: "Superfile",
            command: "spf",
            description: "Open the Superfile terminal file manager.",
        },
        KnownTuiProgram {
            name: "Btop",
            command: "btop",
            description: "Open the btop system monitor.",
        },
        KnownTuiProgram {
            name: "Bottom",
            command: "btm",
            description: "Open the Bottom system monitor.",
        },
        KnownTuiProgram {
            name: "Htop",
            command: "htop",
            description: "Open the htop process monitor.",
        },
        KnownTuiProgram {
            name: "Top",
            command: "top",
            description: "Open the standard process monitor.",
        },
        KnownTuiProgram {
            name: "Glances",
            command: "glances",
            description: "Open the Glances system monitor.",
        },
        KnownTuiProgram {
            name: "Atop",
            command: "atop",
            description: "Open the atop system and process monitor.",
        },
        KnownTuiProgram {
            name: "Iotop",
            command: "iotop",
            description: "Inspect disk I/O usage by process.",
        },
        KnownTuiProgram {
            name: "Bandwhich",
            command: "bandwhich",
            description: "Show current network usage by process and connection.",
        },
        KnownTuiProgram {
            name: "Nethogs",
            command: "nethogs",
            description: "Show network usage grouped by process.",
        },
        KnownTuiProgram {
            name: "Nload",
            command: "nload",
            description: "Monitor network throughput in the terminal.",
        },
        KnownTuiProgram {
            name: "Bluetuith",
            command: "bluetuith",
            description: "Manage Bluetooth devices from the terminal.",
        },
        KnownTuiProgram {
            name: "Impala",
            command: "impala",
            description: "Manage Wi-Fi connections from the terminal.",
        },
        KnownTuiProgram {
            name: "Glow",
            command: "glow",
            description: "Browse Markdown files in the terminal.",
        },
        KnownTuiProgram {
            name: "Broot",
            command: "broot",
            description: "Explore and search directory trees.",
        },
        KnownTuiProgram {
            name: "Dust",
            command: "dust",
            description: "Inspect disk usage with a terminal tree view.",
        },
        KnownTuiProgram {
            name: "Ncdu",
            command: "ncdu",
            description: "Inspect disk usage from the terminal.",
        },
        KnownTuiProgram {
            name: "Dua",
            command: "dua interactive",
            description: "Inspect disk usage with dua's interactive terminal view.",
        },
        KnownTuiProgram {
            name: "Gdu",
            command: "gdu",
            description: "Inspect disk usage with the gdu terminal analyzer.",
        },
        KnownTuiProgram {
            name: "Rmpc",
            command: "rmpc",
            description: "Open the rmpc terminal music client.",
        },
        KnownTuiProgram {
            name: "Newsboat",
            command: "newsboat",
            description: "Open the Newsboat RSS reader.",
        },
        KnownTuiProgram {
            name: "Aerc",
            command: "aerc",
            description: "Open the aerc terminal email client.",
        },
        KnownTuiProgram {
            name: "Neomutt",
            command: "neomutt",
            description: "Open the NeoMutt terminal email client.",
        },
        KnownTuiProgram {
            name: "Mutt",
            command: "mutt",
            description: "Open the Mutt terminal email client.",
        },
        KnownTuiProgram {
            name: "WeeChat",
            command: "weechat",
            description: "Open the WeeChat terminal chat client.",
        },
        KnownTuiProgram {
            name: "Irssi",
            command: "irssi",
            description: "Open the Irssi terminal chat client.",
        },
        KnownTuiProgram {
            name: "Tuigreet",
            command: "tuigreet",
            description: "Open the tuigreet terminal login greeter.",
        },
        KnownTuiProgram {
            name: "Music Player",
            command: "ncmpcpp",
            description: "Open the ncmpcpp music client.",
        },
        KnownTuiProgram {
            name: "Cmus",
            command: "cmus",
            description: "Open the cmus terminal music player.",
        },
        KnownTuiProgram {
            name: "Mocp",
            command: "mocp",
            description: "Open the MOC terminal music player.",
        },
        KnownTuiProgram {
            name: "Tuir",
            command: "tuir",
            description: "Open a terminal Reddit client.",
        },
        KnownTuiProgram {
            name: "Rtv",
            command: "rtv",
            description: "Open a terminal Reddit viewer.",
        },
        KnownTuiProgram {
            name: "Twtxt",
            command: "twtxt",
            description: "Open the twtxt command line social client.",
        },
        KnownTuiProgram {
            name: "W3m",
            command: "w3m",
            description: "Open the w3m terminal web browser.",
        },
        KnownTuiProgram {
            name: "Lynx",
            command: "lynx",
            description: "Open the Lynx terminal web browser.",
        },
        KnownTuiProgram {
            name: "El Links",
            command: "elinks",
            description: "Open the ELinks terminal web browser.",
        },
        KnownTuiProgram {
            name: "Bashmount",
            command: "bashmount",
            description: "Mount and unmount storage devices from the terminal.",
        },
        KnownTuiProgram {
            name: "Pulsemixer",
            command: "pulsemixer",
            description: "Control PulseAudio volume from the terminal.",
        },
        KnownTuiProgram {
            name: "Alsamixer",
            command: "alsamixer",
            description: "Control ALSA audio levels from the terminal.",
        },
        KnownTuiProgram {
            name: "Termscp",
            command: "termscp",
            description: "Open a terminal file transfer client.",
        },
        KnownTuiProgram {
            name: "Lftp",
            command: "lftp",
            description: "Open the lftp terminal file transfer client.",
        },
        KnownTuiProgram {
            name: "Gdb TUI",
            command: "gdb -tui",
            description: "Open GDB in terminal UI mode.",
        },
        KnownTuiProgram {
            name: "Lldb",
            command: "lldb",
            description: "Open the LLDB debugger.",
        },
        KnownTuiProgram {
            name: "Viddy",
            command: "viddy",
            description: "Run commands repeatedly in an interactive watch view.",
        },
    ]
}

/// Whether the program of `command` is offered: a terminal multiplexer is not
/// offered from inside a session of itself (`in_tmux`, `in_zellij`).
pub open spec fn program_shown(command: Seq<char>, in_tmux: bool, in_zellij: bool) -> bool {
    let key = program_name(command);
    if key == "tmux"@ {
        !in_tmux
    } else if key == "zellij"@ {
        !in_zellij
    } else {
        true
    }
}

/// Whether the program of `command` is offered, as `program_shown` says.
pub fn should_show_program(command: &str, in_tmux: bool, in_zellij: bool) -> (r: bool)
    ensures
        r == program_shown(command@, in_tmux, in_zellij),
        r == ((program_name(command@) == "tmux"@ ==> !in_tmux) && (program_name(command@)
            == "zellij"@ ==> !in_zellij)),
{
    proof {
        law_program_shown(command@, in_tmux, in_zellij);
    }
    let key = chars_of(&command_name(command));
    if same_chars(&key, &chars_of("tmux")) {
        !in_tmux
    } else if same_chars(&key, &chars_of("zellij")) {
        !in_zellij
    } else {
        true
    }
}

/// A program is offered unless it is tmux inside a tmux session or zellij
/// inside a zellij session: each multiplexer is hidden only by a session of
/// itself, and every other program is always offered.
pub proof fn law_program_shown(command: Seq<char>, in_tmux: bool, in_zellij: bool)
    ensures
        program_shown(command, in_tmux, in_zellij) == ((program_name(command) == "tmux"@
            ==> !in_tmux) && (program_name(command) == "zellij"@ ==> !in_zellij)),
{
    reveal_strlit("tmux");
    reveal_strlit("zellij");
    assert("tmux"@.len() != "zellij"@.len());
}

/// The entry listed for a known program.
pub open spec fn program_item(p: KnownTuiProgram) -> ItemView {
    fresh_item(p.name@, p.command@, p.description@, LauncherSource::Detected)
}

/// Whether `installed` marks position `i` as installed.
pub open spec fn marked(installed: Seq<bool>, i: int) -> bool {
    0 <= i < installed.len() && installed[i]
}

/// The entries for the known programs that are offered and installed, in order.
pub open spec fn detected_views(
    programs: Seq<KnownTuiProgram>,
    in_tmux: bool,
    in_zellij: bool,
    installed: Seq<bool>,
) -> Seq<ItemView>
    decreases programs.len(),
{
    if programs.len() == 0 {
        Seq::empty()
    } else {
        let n = programs.len() - 1;
        let init = detected_views(programs.drop_last(), in_tmux, in_zellij, installed);
        let p = programs.last();
        if program_shown(p.command@, in_tmux, in_zellij) && marked(installed, n) {
            init.push(program_item(p))
        } else {
            init
        }
    }
}

/// The detected entries: one for each program of `programs` that is offered
/// (see `should_show_program`) and that `installed` marks as installed, at the
/// same position, in the order of `programs`.
pub fn detected_launcher_items(
    programs: &Vec<KnownTuiProgram>,
    in_tmux: bool,
    in_zellij: bool,
    installed: &Vec<bool>,
) -> (r: Vec<LauncherItem>)
    ensures
        views(r@) == detected_views(programs@, in_tmux, in_zellij, installed@),
{
    let mut items: Vec<LauncherItem> = Vec::new();
    let mut i: usize = 0;
    while i < programs.len()
        invariant
            i <= programs@.len(),
            views(items@) == detected_views(programs@.take(i as int), in_tmux, in_zellij, installed@),
        decreases programs@.len() - i,
    {
        let p = &programs[i];
        let ghost before = items@;
        assert(programs@.take(i + 1).drop_last() =~= programs@.take(i as int));
        assert(programs@.take(i + 1).last() == programs@[i as int]);
        if should_show_program(p.command, in_tmux, in_zellij) && i < installed.len() && installed[i] {
            items.push(LauncherItem::detected(p.name, p.command, p.description));
            assert(views(items@) =~= views(before).push(program_item(*p)));
        }
        i = i + 1;
    }
    assert(programs@.take(programs@.len() as int) =~= programs@);
    items
}

} // verus!
