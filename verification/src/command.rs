//! The `:` command line: editing the buffer and reading a command out of it.
use vstd::prelude::*;

use crate::keys::{Key, KeyCode};
use crate::text::{is_white_space, trim_end_spec, trim_start_spec};
use crate::text::{
    chars_of, split_whitespace, str_eq, string_of_range, string_pop, string_push, trim, trim_spec,
    views, words,
};

verus! {

/// The commands of the command line.
#[derive(Clone, Copy, Debug, PartialEq, Eq, Structural)]
pub enum CommandKind {
    /// `:w`
    Save,
    /// `:q`
    Quit,
    /// `:q!`
    ForceQuit,
    /// `:qa`, `:qa!`
    QuitAll,
    /// `:wq`
    SaveQuit,
    /// `:home`
    Home,
    /// `:rename <name>`, `:mv <name>`
    Rename,
    /// `:delete`, `:delete!`, `:rm`, `:rm!`
    Delete,
    /// `:new <name>`
    New,
    /// `:mkdir <name>`
    Mkdir,
    /// `:vault <path>`
    Vault,
    /// `:export-tema <name>`
    ExportTheme,
    /// `:import-tema <name>`
    ImportTheme,
    /// `:temas`
    Themes,
    /// `:help`
    Help,
    /// `:ext list`
    ExtList,
    /// `:ext install <path>`
    ExtInstall,
    /// `:ext remove <name>`
    ExtRemove,
    /// `:ext enable <name>`
    ExtEnable,
    /// `:ext disable <name>`
    ExtDisable,
    /// `:ext` with anything else: the usage line is shown.
    ExtUsage,
    /// Anything else: a command that an extension may have registered.
    Extension,
}

/// A command read from the command line, with its arguments: the trimmed
/// argument of the commands that take one, and for an extension command its
/// name followed by its whitespace-separated arguments.
pub struct Command {
    pub kind: CommandKind,
    pub args: Vec<String>,
}

/// A command as plain values.
pub open spec fn command_view(c: Command) -> (CommandKind, Seq<Seq<char>>) {
    (c.kind, views(c.args@))
}

/// Where the first space of `t` is.
pub open spec fn first_space(t: Seq<char>) -> Option<int>
    decreases t.len(),
{
    if t.len() == 0 {
        None
    } else if t[0] == ' ' {
        Some(0)
    } else {
        match first_space(t.drop_first()) {
            Some(i) => Some(i + 1),
            None => None,
        }
    }
}

/// The first part of `t` split once at a space (`splitn(2, ' ')`).
pub open spec fn head_part(t: Seq<char>) -> Seq<char> {
    match first_space(t) {
        Some(i) => t.take(i),
        None => t,
    }
}

/// The second part of `t` split once at a space, if there is one.
pub open spec fn tail_part(t: Seq<char>) -> Option<Seq<char>> {
    match first_space(t) {
        Some(i) => Some(t.skip(i + 1)),
        None => None,
    }
}

/// The `:ext` subcommand in `r` (already trimmed).
pub open spec fn ext_command_spec(r: Seq<char>) -> (CommandKind, Seq<Seq<char>>) {
    let h = head_part(r);
    match tail_part(r) {
        None => if h == "list"@ {
            (CommandKind::ExtList, seq![])
        } else {
            (CommandKind::ExtUsage, seq![])
        },
        Some(x) => if h == "install"@ {
            (CommandKind::ExtInstall, seq![trim_spec(x)])
        } else if h == "remove"@ {
            (CommandKind::ExtRemove, seq![trim_spec(x)])
        } else if h == "enable"@ {
            (CommandKind::ExtEnable, seq![trim_spec(x)])
        } else if h == "disable"@ {
            (CommandKind::ExtDisable, seq![trim_spec(x)])
        } else {
            (CommandKind::ExtUsage, seq![])
        },
    }
}

/// The command that the command line `cmd` holds: it is trimmed and split
/// once at its first space into a name and, maybe, an argument.
pub open spec fn command_spec(cmd: Seq<char>) -> (CommandKind, Seq<Seq<char>>) {
    let t = trim_spec(cmd);
    let h = head_part(t);
    match tail_part(t) {
        None => if h == "w"@ {
            (CommandKind::Save, seq![])
        } else if h == "q"@ {
            (CommandKind::Quit, seq![])
        } else if h == "q!"@ {
            (CommandKind::ForceQuit, seq![])
        } else if h == "qa"@ || h == "qa!"@ {
            (CommandKind::QuitAll, seq![])
        } else if h == "wq"@ {
            (CommandKind::SaveQuit, seq![])
        } else if h == "home"@ {
            (CommandKind::Home, seq![])
        } else if h == "delete"@ || h == "delete!"@ || h == "rm"@ || h == "rm!"@ {
            (CommandKind::Delete, seq![])
        } else if h == "temas"@ {
            (CommandKind::Themes, seq![])
        } else if h == "help"@ {
            (CommandKind::Help, seq![])
        } else {
            (CommandKind::Extension, seq![h])
        },
        Some(x) => if h == "w"@ && x.len() == 0 {
            (CommandKind::Save, seq![])
        } else if h == "rename"@ || h == "mv"@ {
            (CommandKind::Rename, seq![trim_spec(x)])
        } else if h == "new"@ {
            (CommandKind::New, seq![trim_spec(x)])
        } else if h == "mkdir"@ {
            (CommandKind::Mkdir, seq![trim_spec(x)])
        } else if h == "vault"@ {
            (CommandKind::Vault, seq![trim_spec(x)])
        } else if h == "export-tema"@ {
            (CommandKind::ExportTheme, seq![trim_spec(x)])
        } else if h == "import-tema"@ {
            (CommandKind::ImportTheme, seq![trim_spec(x)])
        } else if h == "ext"@ {
            ext_command_spec(trim_spec(x))
        } else {
            (CommandKind::Extension, seq![h] + words(x))
        },
    }
}

proof fn lemma_first_space(s: Seq<char>, k: int)
    requires
        0 <= k <= s.len(),
        forall|j: int| 0 <= j < k ==> #[trigger] s[j] != ' ',
    ensures
        k < s.len() && s[k] == ' ' ==> first_space(s) == Some(k),
        k == s.len() ==> first_space(s) is None,
    decreases k,
{
    if k > 0 {
        lemma_first_space(s.drop_first(), k - 1);
    }
}

/// `t` split once at its first space: the first part and, when there is a
/// space, the rest after it.
fn split_once(t: &str) -> (r: (String, Option<String>))
    ensures
        r.0@ == head_part(t@),
        crate::paths::opt_string_view(r.1) == tail_part(t@),
{
    let v = chars_of(t);
    let mut i: usize = 0;
    while i < v.len() && v[i] != ' '
        invariant
            i <= v.len(),
            forall|j: int| 0 <= j < i ==> #[trigger] v@[j] != ' ',
        decreases v.len() - i,
    {
        i = i + 1;
    }
    proof {
        lemma_first_space(v@, i as int);
    }
    if i < v.len() {
        let h = string_of_range(&v, 0, i);
        let x = string_of_range(&v, i + 1, v.len());
        assert(v@.subrange(0, i as int) =~= v@.take(i as int));
        assert(v@.subrange(i + 1, v@.len() as int) =~= v@.skip(i + 1));
        (h, Some(x))
    } else {
        let h = string_of_range(&v, 0, v.len());
        assert(v@.subrange(0, v@.len() as int) =~= v@);
        (h, None)
    }
}

fn simple(kind: CommandKind) -> (c: Command)
    ensures
        command_view(c) == (kind, Seq::<Seq<char>>::empty()),
{
    let c = Command { kind, args: Vec::new() };
    assert(views(c.args@) =~= Seq::<Seq<char>>::empty());
    c
}

fn with_arg(kind: CommandKind, arg: &str) -> (c: Command)
    ensures
        command_view(c) == (kind, seq![trim_spec(arg@)]),
{
    let mut args: Vec<String> = Vec::new();
    args.push(trim(arg));
    let c = Command { kind, args };
    assert(views(c.args@) =~= seq![trim_spec(arg@)]);
    c
}

fn parse_ext(r: &str) -> (c: Command)
    ensures
        command_view(c) == ext_command_spec(r@),
{
    let (h, x) = split_once(r);
    match x {
        None => {
            if str_eq(h.as_str(), "list") {
                simple(CommandKind::ExtList)
            } else {
                simple(CommandKind::ExtUsage)
            }
        },
        Some(x) => {
            if str_eq(h.as_str(), "install") {
                with_arg(CommandKind::ExtInstall, x.as_str())
            } else if str_eq(h.as_str(), "remove") {
                with_arg(CommandKind::ExtRemove, x.as_str())
            } else if str_eq(h.as_str(), "enable") {
                with_arg(CommandKind::ExtEnable, x.as_str())
            } else if str_eq(h.as_str(), "disable") {
                with_arg(CommandKind::ExtDisable, x.as_str())
            } else {
                simple(CommandKind::ExtUsage)
            }
        },
    }
}

/// The command that the command line `cmd` holds.
pub fn parse_command(cmd: &str) -> (c: Command)
    ensures
        command_view(c) == command_spec(cmd@),
{
    let t = trim(cmd);
    let (h, x) = split_once(t.as_str());
    let hs = h.as_str();
    match x {
        None => {
            if str_eq(hs, "w") {
                simple(CommandKind::Save)
            } else if str_eq(hs, "q") {
                simple(CommandKind::Quit)
            } else if str_eq(hs, "q!") {
                simple(CommandKind::ForceQuit)
            } else if str_eq(hs, "qa") || str_eq(hs, "qa!") {
                simple(CommandKind::QuitAll)
            } else if str_eq(hs, "wq") {
                simple(CommandKind::SaveQuit)
            } else if str_eq(hs, "home") {
                simple(CommandKind::Home)
            } else if str_eq(hs, "delete") || str_eq(hs, "delete!") || str_eq(hs, "rm") || str_eq(
                hs,
                "rm!",
            ) {
                simple(CommandKind::Delete)
            } else if str_eq(hs, "temas") {
                simple(CommandKind::Themes)
            } else if str_eq(hs, "help") {
                simple(CommandKind::Help)
            } else {
                let mut args: Vec<String> = Vec::new();
                args.push(h);
                let c = Command { kind: CommandKind::Extension, args };
                assert(views(c.args@) =~= seq![head_part(t@)]);
                c
            }
        },
        Some(x) => {
            let xs = x.as_str();
            if str_eq(hs, "w") && xs.unicode_len() == 0 {
                simple(CommandKind::Save)
            } else if str_eq(hs, "rename") || str_eq(hs, "mv") {
                with_arg(CommandKind::Rename, xs)
            } else if str_eq(hs, "new") {
                with_arg(CommandKind::New, xs)
            } else if str_eq(hs, "mkdir") {
                with_arg(CommandKind::Mkdir, xs)
            } else if str_eq(hs, "vault") {
                with_arg(CommandKind::Vault, xs)
            } else if str_eq(hs, "export-tema") {
                with_arg(CommandKind::ExportTheme, xs)
            } else if str_eq(hs, "import-tema") {
                with_arg(CommandKind::ImportTheme, xs)
            } else if str_eq(hs, "ext") {
                let r = trim(xs);
                parse_ext(r.as_str())
            } else {
                let ws = split_whitespace(xs);
                let mut args: Vec<String> = Vec::new();
                args.push(h);
                let mut i: usize = 0;
                while i < ws.len()
                    invariant
                        i <= ws.len(),
                        views(args@) == seq![head_part(t@)] + views(ws@).take(i as int),
                    decreases ws.len() - i,
                {
                    let a = ws[i].clone();
                    assert(a@ == ws@[i as int]@);
                    let ghost before = views(args@);
                    args.push(a);
                    assert(views(ws@).take(i + 1) =~= views(ws@).take(i as int).push(ws@[i as int]@));
                    assert(views(args@) =~= before.push(a@));
                    i = i + 1;
                }
                assert(views(ws@).take(ws.len() as int) =~= views(ws@));
                Command { kind: CommandKind::Extension, args }
            }
        },
    }
}

/// What a key press does to the command line.
pub enum CommandKey {
    /// Esc: the line is cleared and Normal mode comes back.
    Cancel,
    /// Enter: the line, taken out of the buffer, is to be run.
    Submit(String),
    /// Backspace or a character: the buffer changed.
    Edited,
    /// Any other key: nothing happens.
    Ignored,
}

/// Applies the key press `key` to the command-line buffer `buffer`.
pub fn command_line_key(buffer: &mut String, key: Key) -> (r: CommandKey)
    ensures
        key.code == KeyCode::Esc ==> r is Cancel && final(buffer)@.len() == 0,
        key.code == KeyCode::Enter ==> (r matches CommandKey::Submit(c) && c@ == old(buffer)@
            && final(buffer)@.len() == 0),
        key.code == KeyCode::Backspace ==> r is Edited && final(buffer)@ == (if old(buffer)@.len()
            > 0 {
            old(buffer)@.drop_last()
        } else {
            old(buffer)@
        }),
        key.code matches KeyCode::Char(c) ==> (r is Edited && final(buffer)@ == old(buffer)@.push(c)),
        !(key.code == KeyCode::Esc || key.code == KeyCode::Enter || key.code == KeyCode::Backspace
            || key.code is Char) ==> r is Ignored && final(buffer)@ == old(buffer)@,
{
    match key.code {
        KeyCode::Esc => {
            *buffer = String::new();
            CommandKey::Cancel
        },
        KeyCode::Enter => {
            let cmd = buffer.clone();
            *buffer = String::new();
            CommandKey::Submit(cmd)
        },
        KeyCode::Backspace => {
            let _ = string_pop(buffer);
            CommandKey::Edited
        },
        KeyCode::Char(c) => {
            string_push(buffer, c);
            CommandKey::Edited
        },
        _ => CommandKey::Ignored,
    }
}

/// What a command does to the active tab.
#[derive(Clone, Copy, Debug, PartialEq, Eq, Structural)]
pub enum TabClose {
    /// The command leaves the tab open.
    Keep,
    /// The tab is closed.
    Close,
    /// The note is saved, then the tab is closed.
    SaveAndClose,
    /// `:q` on a note with unsaved changes: the tab stays open, with a warning.
    Refuse,
}

/// What the command `kind` does to the active tab, whose note has unsaved
/// changes when `dirty`: `:q` closes it only without unsaved changes, `:q!`
/// closes it whatever they are, `:wq` saves and closes it.
pub open spec fn tab_close_spec(kind: CommandKind, dirty: bool) -> TabClose {
    match kind {
        CommandKind::Quit => if dirty {
            TabClose::Refuse
        } else {
            TabClose::Close
        },
        CommandKind::ForceQuit => TabClose::Close,
        CommandKind::SaveQuit => TabClose::SaveAndClose,
        _ => TabClose::Keep,
    }
}

/// What the command `kind` does to the active tab, whose note has unsaved
/// changes when `dirty`.
pub fn tab_close(kind: CommandKind, dirty: bool) -> (r: TabClose)
    ensures
        r == tab_close_spec(kind, dirty),
{
    match kind {
        CommandKind::Quit => if dirty {
            TabClose::Refuse
        } else {
            TabClose::Close
        },
        CommandKind::ForceQuit => TabClose::Close,
        CommandKind::SaveQuit => TabClose::SaveAndClose,
        _ => TabClose::Keep,
    }
}

/// Each command name that takes no argument, as the command line is typed
/// (blanks around it do not matter), gives its command: `w` saves, `q`
/// closes the tab, `q!` forces it, `qa` and `qa!` quit, `wq` saves and
/// closes, `home` goes home, `delete`, `delete!`, `rm` and `rm!` delete the
/// note, `temas` lists the themes, `help` shows the commands.
pub proof fn lemma_bare_command_names(cmd: Seq<char>)
    ensures
        trim_spec(cmd) == "w"@ ==> command_spec(cmd) == (CommandKind::Save, Seq::<Seq<char>>::empty()),
        trim_spec(cmd) == "q"@ ==> command_spec(cmd) == (CommandKind::Quit, Seq::<Seq<char>>::empty()),
        trim_spec(cmd) == "q!"@ ==> command_spec(cmd) == (CommandKind::ForceQuit, Seq::<Seq<char>>::empty()),
        trim_spec(cmd) == "qa"@ ==> command_spec(cmd) == (CommandKind::QuitAll, Seq::<Seq<char>>::empty()),
        trim_spec(cmd) == "qa!"@ ==> command_spec(cmd) == (CommandKind::QuitAll, Seq::<Seq<char>>::empty()),
        trim_spec(cmd) == "wq"@ ==> command_spec(cmd) == (CommandKind::SaveQuit, Seq::<Seq<char>>::empty()),
        trim_spec(cmd) == "home"@ ==> command_spec(cmd) == (CommandKind::Home, Seq::<Seq<char>>::empty()),
        trim_spec(cmd) == "delete"@ ==> command_spec(cmd) == (CommandKind::Delete, Seq::<Seq<char>>::empty()),
        trim_spec(cmd) == "delete!"@ ==> command_spec(cmd) == (CommandKind::Delete, Seq::<Seq<char>>::empty()),
        trim_spec(cmd) == "rm"@ ==> command_spec(cmd) == (CommandKind::Delete, Seq::<Seq<char>>::empty()),
        trim_spec(cmd) == "rm!"@ ==> command_spec(cmd) == (CommandKind::Delete, Seq::<Seq<char>>::empty()),
        trim_spec(cmd) == "temas"@ ==> command_spec(cmd) == (CommandKind::Themes, Seq::<Seq<char>>::empty()),
        trim_spec(cmd) == "help"@ ==> command_spec(cmd) == (CommandKind::Help, Seq::<Seq<char>>::empty()),
{
    reveal_strlit("w");
    reveal_strlit("q");
    reveal_strlit("q!");
    reveal_strlit("qa");
    reveal_strlit("qa!");
    reveal_strlit("wq");
    reveal_strlit("home");
    reveal_strlit("delete");
    reveal_strlit("delete!");
    reveal_strlit("rm");
    reveal_strlit("rm!");
    reveal_strlit("temas");
    reveal_strlit("help");
    let t = trim_spec(cmd);
    if t.len() <= 7 && forall|j: int| 0 <= j < t.len() ==> #[trigger] t[j] != ' ' {
        lemma_first_space(t, t.len() as int);
    }
    if t == "qa"@ {
        assert(t[1] == 'a');
        assert(t != "q!"@ && t != "wq"@ && t != "rm"@);
    }
    if t == "help"@ {
        assert(t[0] == 'h' && t[1] == 'e');
        assert(t != "home"@);
    }
}

/// The command name `n` followed by a space and the argument `a` (which
/// starts and ends with a visible character) splits into `n` and `a`.
proof fn lemma_argument_command(a: Seq<char>, n: Seq<char>, ns: Seq<char>)
    requires
        a.len() > 0,
        !is_white_space(a[0]),
        !is_white_space(a.last()),
        n.len() > 0,
        !is_white_space(n[0]),
        forall|j: int| 0 <= j < n.len() ==> #[trigger] n[j] != ' ',
        ns == n.push(' '),
    ensures
        trim_spec(ns + a) == ns + a,
        head_part(ns + a) == n,
        tail_part(ns + a) == Some(a),
        trim_spec(a) == a,
{
    let t = ns + a;
    assert(t[0] == n[0]);
    assert(t.last() == a.last());
    assert(trim_start_spec(t) == t);
    assert(trim_end_spec(t) == t);
    assert(trim_start_spec(a) == a);
    assert(trim_end_spec(a) == a);
    assert forall|j: int| 0 <= j < n.len() implies #[trigger] t[j] != ' ' by {
        assert(t[j] == n[j]);
    }
    assert(t[n.len() as int] == ' ');
    lemma_first_space(t, n.len() as int);
    assert(t.take(n.len() as int) =~= n);
    assert(t.skip(n.len() as int + 1) =~= a);
}

/// Each command name that takes an argument, followed by a space and the
/// argument, gives its command with that argument: `rename` and `mv`
/// rename the note, `new` creates one, `mkdir` a folder, `vault` opens a
/// vault, `export-tema` and `import-tema` move a theme.
pub proof fn lemma_argument_command_names(a: Seq<char>)
    requires
        a.len() > 0,
        !is_white_space(a[0]),
        !is_white_space(a.last()),
    ensures
        command_spec("rename "@ + a) == (CommandKind::Rename, seq![a]),
        command_spec("mv "@ + a) == (CommandKind::Rename, seq![a]),
        command_spec("new "@ + a) == (CommandKind::New, seq![a]),
        command_spec("mkdir "@ + a) == (CommandKind::Mkdir, seq![a]),
        command_spec("vault "@ + a) == (CommandKind::Vault, seq![a]),
        command_spec("export-tema "@ + a) == (CommandKind::ExportTheme, seq![a]),
        command_spec("import-tema "@ + a) == (CommandKind::ImportTheme, seq![a]),
{
    reveal_strlit("rename ");
    reveal_strlit("rename");
    assert("rename "@ =~= "rename"@.push(' '));
    lemma_argument_command(a, "rename"@, "rename "@);
    reveal_strlit("mv ");
    reveal_strlit("mv");
    assert("mv "@ =~= "mv"@.push(' '));
    lemma_argument_command(a, "mv"@, "mv "@);
    reveal_strlit("new ");
    reveal_strlit("new");
    assert("new "@ =~= "new"@.push(' '));
    lemma_argument_command(a, "new"@, "new "@);
    reveal_strlit("mkdir ");
    reveal_strlit("mkdir");
    assert("mkdir "@ =~= "mkdir"@.push(' '));
    lemma_argument_command(a, "mkdir"@, "mkdir "@);
    reveal_strlit("vault ");
    reveal_strlit("vault");
    assert("vault "@ =~= "vault"@.push(' '));
    lemma_argument_command(a, "vault"@, "vault "@);
    reveal_strlit("export-tema ");
    reveal_strlit("export-tema");
    assert("export-tema "@ =~= "export-tema"@.push(' '));
    lemma_argument_command(a, "export-tema"@, "export-tema "@);
    reveal_strlit("import-tema ");
    reveal_strlit("import-tema");
    assert("import-tema "@ =~= "import-tema"@.push(' '));
    lemma_argument_command(a, "import-tema"@, "import-tema "@);
}

} // verus!
