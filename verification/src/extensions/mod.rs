//! Bookkeeping of installed extensions: which ones are enabled, which events
//! and commands reach which running script.
pub mod hooks;
pub mod manifest;

use vstd::prelude::*;
use vstd::string::*;

use crate::paths::{join_path, join_spec, opt_string_view};
use crate::text::views;
use hooks::{HookEvent, HookResult, hook_permission_spec};
use manifest::{Language, Manifest, grants};

verus! {

/// A running extension script. The engines behind it live outside the
/// library; nothing is known of what they answer.
pub trait ExtRuntime {
    fn call_hook(&mut self, event: &HookEvent) -> HookResult;

    fn dispatch_command(&mut self, name: &str, args: &[String]) -> Option<String>;

    fn drain_notifications(&mut self) -> Vec<String>;
}

/// An installed extension: its manifest, its directory and, once started,
/// its running script.
pub struct ExtensionEntry<R> {
    pub manifest: Manifest,
    pub dir: String,
    pub runtime: Option<R>,
}

/// The extensions of one scope (global, or one vault's).
pub struct ExtensionManager<R> {
    pub extensions: Vec<ExtensionEntry<R>>,
    pub extensions_dir: String,
    pub vault_root: Option<String>,
    /// Every call the manager made on a script, in order: the extension's
    /// index, and the call with what came back.
    pub log: Ghost<Seq<(int, ScriptCall)>>,
}

/// A call made on an extension's script, with what it handed over and what
/// came back.
pub enum ScriptCall {
    /// `call_hook` with an event, and the script's answer.
    Hook(HookEvent, HookResult),
    /// `dispatch_command` with a command's name and arguments, and the
    /// script's answer.
    Command(Seq<char>, Seq<Seq<char>>, Option<Seq<char>>),
    /// `drain_notifications`, and the notifications it gave.
    Drain(Seq<Seq<char>>),
}

/// The extensions directory of a vault: `<vault_root>/.mimic/extensions`.
pub open spec fn vault_extensions_dir_spec(vault_root: Seq<char>) -> Seq<char> {
    join_spec(join_spec(vault_root, ".mimic"@), "extensions"@)
}

/// The global extensions directory under the configuration directory `base`.
pub open spec fn global_extensions_dir_spec(base: Seq<char>) -> Seq<char> {
    join_spec(join_spec(base, "sdrx-mimic"@), "extensions"@)
}

/// The script an extension runs, by its language.
pub open spec fn script_name_spec(l: Language) -> Seq<char> {
    match l {
        Language::Lua => "main.lua"@,
        Language::Rhai => "main.rhai"@,
    }
}

impl<R> ExtensionEntry<R> {
    /// Whether the extension's script is running.
    pub open spec fn runtime_loaded(&self) -> bool {
        self.runtime is Some
    }

    /// The running script, if any.
    pub open spec fn runtime_spec(&self) -> Option<R> {
        self.runtime
    }

    /// An entry for the extension in `dir`, with its script, if started.
    pub fn new(manifest: Manifest, dir: String, runtime: Option<R>) -> (r: Self)
        ensures
            r.manifest == manifest,
            r.dir == dir,
            r.runtime_spec() == runtime,
    {
        ExtensionEntry { manifest, dir, runtime }
    }

    /// Whether the extension's script is running.
    pub fn has_runtime(&self) -> (r: bool)
        ensures
            r == self.runtime_loaded(),
    {
        self.runtime.is_some()
    }

    /// Installs (or drops) the running script.
    pub fn set_runtime(&mut self, runtime: Option<R>)
        ensures
            final(self).runtime_spec() == runtime,
            final(self).manifest == old(self).manifest,
            final(self).dir == old(self).dir,
    {
        self.runtime = runtime;
    }

    /// The file name of the extension's script: `main.lua` or `main.rhai`.
    pub fn script_name(&self) -> (r: &'static str)
        ensures
            r@ == script_name_spec(self.manifest.language),
    {
        match self.manifest.language {
            Language::Lua => "main.lua",
            Language::Rhai => "main.rhai",
        }
    }

    /// The path of the extension's script, inside its directory.
    pub fn script_path(&self) -> (r: String)
        ensures
            r@ == join_spec(self.dir@, script_name_spec(self.manifest.language)),
    {
        join_path(self.dir.as_str(), self.script_name())
    }
}

/// Entry `e` receives events that need permission `perm`: it is enabled,
/// holds the permission, and its script is running.
pub open spec fn receives<R>(e: ExtensionEntry<R>, perm: Seq<char>) -> bool {
    e.manifest.enabled && grants(e.manifest, perm) && e.runtime_loaded()
}

/// How many of the entries receive events that need permission `perm`.
pub open spec fn count_receivers<R>(es: Seq<ExtensionEntry<R>>, perm: Seq<char>) -> nat
    decreases es.len(),
{
    if es.len() == 0 {
        0
    } else {
        count_receivers(es.drop_last(), perm) + if receives(es.last(), perm) {
            1nat
        } else {
            0nat
        }
    }
}

/// Entries keep their manifests, their directories and their order.
pub open spec fn same_entries<R>(a: Seq<ExtensionEntry<R>>, b: Seq<ExtensionEntry<R>>) -> bool {
    &&& a.len() == b.len()
    &&& forall|i: int|
        0 <= i < a.len() ==> (#[trigger] a[i]).manifest == b[i].manifest && a[i].dir == b[i].dir
}

/// Besides keeping manifests and directories, an entry that does not
/// receive the event keeps its script untouched, and one that does still
/// has a running script.
pub open spec fn hook_effect<R>(
    a: Seq<ExtensionEntry<R>>,
    b: Seq<ExtensionEntry<R>>,
    perm: Seq<char>,
) -> bool {
    &&& same_entries(a, b)
    &&& forall|i: int|
        0 <= i < a.len() ==> if receives(#[trigger] a[i], perm) {
            b[i].runtime_loaded()
        } else {
            b[i].runtime_spec() == a[i].runtime_spec()
        }
}

/// Besides keeping manifests and directories, an entry without a running
/// script is left as it was, and one with a running script keeps it
/// running.
pub open spec fn drain_effect<R>(a: Seq<ExtensionEntry<R>>, b: Seq<ExtensionEntry<R>>) -> bool {
    &&& same_entries(a, b)
    &&& forall|i: int|
        0 <= i < a.len() ==> if (#[trigger] a[i]).runtime_loaded() {
            b[i].runtime_loaded()
        } else {
            b[i] == a[i]
        }
}

/// The command was answered by a receiving entry, and every entry after it
/// was left as it was.
pub open spec fn answered_by<R>(a: Seq<ExtensionEntry<R>>, b: Seq<ExtensionEntry<R>>, perm: Seq<char>) -> bool {
    exists|j: int|
        0 <= j < a.len() && receives(#[trigger] a[j], perm) && forall|k: int|
            j < k < a.len() ==> #[trigger] b[k] == a[k]
}

proof fn lemma_count_push<R>(es: Seq<ExtensionEntry<R>>, e: ExtensionEntry<R>, perm: Seq<char>)
    ensures
        count_receivers(es.push(e), perm) == count_receivers(es, perm) + if receives(e, perm) {
            1nat
        } else {
            0nat
        },
{
    assert(es.push(e).drop_last() =~= es);
}

/// The indices of the entries that receive events needing permission `perm`,
/// in order.
pub open spec fn receivers<R>(es: Seq<ExtensionEntry<R>>, perm: Seq<char>) -> Seq<int>
    decreases es.len(),
{
    if es.len() == 0 {
        seq![]
    } else if receives(es.last(), perm) {
        receivers(es.drop_last(), perm).push(es.len() - 1)
    } else {
        receivers(es.drop_last(), perm)
    }
}

/// The indices of the entries with a running script, in order.
pub open spec fn holders<R>(es: Seq<ExtensionEntry<R>>) -> Seq<int>
    decreases es.len(),
{
    if es.len() == 0 {
        seq![]
    } else if es.last().runtime_loaded() {
        holders(es.drop_last()).push(es.len() - 1)
    } else {
        holders(es.drop_last())
    }
}

/// The calls of `call_hook` with `event` on the scripts of the entries `rs`,
/// in order, which answered `answers`.
pub open spec fn hook_calls(rs: Seq<int>, event: HookEvent, answers: Seq<HookResult>) -> Seq<(int, ScriptCall)> {
    Seq::new(rs.len(), |k: int| (rs[k], ScriptCall::Hook(event, answers[k])))
}

/// What a script answered to a command, if the call was one.
pub open spec fn command_answer(c: ScriptCall) -> Option<Seq<char>> {
    match c {
        ScriptCall::Command(_, _, a) => a,
        _ => None,
    }
}

/// The calls `calls` offered the command `name` with `args` to the scripts
/// of the entries `rs`, in order, until one answered: each of the first
/// entries was asked once; all but the last answered none, and the last
/// answered or was the last of `rs`.
pub open spec fn asked_in_order(calls: Seq<(int, ScriptCall)>, rs: Seq<int>, name: Seq<char>, args: Seq<Seq<char>>) -> bool {
    &&& calls.len() <= rs.len()
    &&& forall|k: int|
        0 <= k < calls.len() ==> (#[trigger] calls[k]).0 == rs[k] && calls[k].1 == ScriptCall::Command(
            name,
            args,
            command_answer(calls[k].1),
        )
    &&& forall|k: int| 0 <= k < calls.len() - 1 ==> command_answer((#[trigger] calls[k]).1) is None
    &&& calls.len() == rs.len() || command_answer(calls.last().1) is Some
}

/// The answer of the last of the calls `calls`, none without calls.
pub open spec fn last_answer(calls: Seq<(int, ScriptCall)>) -> Option<Seq<char>> {
    if calls.len() == 0 {
        None
    } else {
        command_answer(calls.last().1)
    }
}

/// The notifications the drain calls among `calls` gave, joined in order.
pub open spec fn drained(calls: Seq<(int, ScriptCall)>) -> Seq<Seq<char>>
    decreases calls.len(),
{
    if calls.len() == 0 {
        seq![]
    } else {
        drained(calls.drop_last()) + match calls.last().1 {
            ScriptCall::Drain(ns) => ns,
            _ => seq![],
        }
    }
}

/// The calls `calls` drained the scripts of the entries `hs`, each once, in
/// order.
pub open spec fn drained_in_order(calls: Seq<(int, ScriptCall)>, hs: Seq<int>) -> bool {
    &&& calls.len() == hs.len()
    &&& forall|k: int| 0 <= k < calls.len() ==> (#[trigger] calls[k]).0 == hs[k] && calls[k].1 is Drain
}

/// The receivers among the first entries come first among all receivers.
proof fn lemma_receivers_prefix<R>(es: Seq<ExtensionEntry<R>>, j: int, perm: Seq<char>)
    requires
        0 <= j <= es.len(),
    ensures
        receivers(es.take(j), perm).len() <= receivers(es, perm).len(),
        forall|k: int|
            0 <= k < receivers(es.take(j), perm).len() ==> #[trigger] receivers(es.take(j), perm)[k]
                == receivers(es, perm)[k],
    decreases es.len(),
{
    if j == es.len() {
        assert(es.take(j) =~= es);
    } else {
        assert(es.drop_last().take(j) =~= es.take(j));
        lemma_receivers_prefix(es.drop_last(), j, perm);
    }
}

/// Taking one more entry adds it to the receivers when it receives.
proof fn lemma_receivers_step<R>(es: Seq<ExtensionEntry<R>>, i: int, perm: Seq<char>)
    requires
        0 <= i < es.len(),
    ensures
        receivers(es.take(i + 1), perm) == if receives(es[i], perm) {
            receivers(es.take(i), perm).push(i)
        } else {
            receivers(es.take(i), perm)
        },
        holders(es.take(i + 1)) == if es[i].runtime_loaded() {
            holders(es.take(i)).push(i)
        } else {
            holders(es.take(i))
        },
        count_receivers(es.take(i + 1), perm) == count_receivers(es.take(i), perm) + if receives(es[i], perm) {
            1nat
        } else {
            0nat
        },
{
    assert(es.take(i + 1).drop_last() =~= es.take(i));
    assert(es.take(i + 1).last() == es[i]);
}

/// There are as many receivers as counted.
proof fn lemma_receivers_count<R>(es: Seq<ExtensionEntry<R>>, perm: Seq<char>)
    ensures
        receivers(es, perm).len() == count_receivers(es, perm),
    decreases es.len(),
{
    if es.len() > 0 {
        lemma_receivers_count(es.drop_last(), perm);
    }
}

/// The entries not named `name`.
pub open spec fn named_other<R>(name: Seq<char>) -> spec_fn(ExtensionEntry<R>) -> bool {
    |e: ExtensionEntry<R>| e.manifest.name@ != name
}

/// With no receiver counted, no entry receives.
proof fn lemma_no_receivers<R>(es: Seq<ExtensionEntry<R>>, perm: Seq<char>)
    ensures
        count_receivers(es, perm) == 0 ==> forall|j: int|
            0 <= j < es.len() ==> !receives(#[trigger] es[j], perm),
    decreases es.len(),
{
    if es.len() > 0 {
        lemma_no_receivers(es.drop_last(), perm);
        if count_receivers(es, perm) == 0 {
            assert forall|j: int| 0 <= j < es.len() implies !receives(#[trigger] es[j], perm) by {
                if j < es.len() - 1 {
                    assert(es.drop_last()[j] == es[j]);
                } else {
                    assert(es.last() == es[j]);
                }
            }
        }
    }
}

impl<R: ExtRuntime> ExtensionManager<R> {
    /// An empty manager over the extensions directory `dir`.
    pub fn with_dir(dir: String, vault_root: Option<String>) -> (r: Self)
        ensures
            r.extensions@.len() == 0,
            r.extensions_dir_spec() == dir@,
            r.vault_root_spec() == vault_root,
            r.log@.len() == 0,
    {
        ExtensionManager { extensions: Vec::new(), extensions_dir: dir, vault_root, log: Ghost(Seq::empty()) }
    }

    /// The directory the manager installs into and scans.
    pub open spec fn extensions_dir_spec(&self) -> Seq<char> {
        self.extensions_dir@
    }

    /// The vault the manager belongs to, if any.
    pub open spec fn vault_root_spec(&self) -> Option<String> {
        self.vault_root
    }

    /// The global manager: `sdrx-mimic/extensions` under the user's
    /// configuration directory, no vault.
    pub fn new() -> (r: Self)
        ensures
            r.extensions@.len() == 0,
            exists|base: Seq<char>| r.extensions_dir_spec() == global_extensions_dir_spec(base),
            r.vault_root_spec() is None,
    {
        let base = crate::config::settings::config_base();
        let d = join_path(base.as_str(), "sdrx-mimic");
        let dir = join_path(d.as_str(), "extensions");
        assert(dir@ == global_extensions_dir_spec(base@));
        Self::with_dir(dir, None)
    }

    /// The extensions directory of a vault: `<vault_root>/.mimic/extensions`.
    pub fn vault_extensions_dir(vault_root: &str) -> (r: String)
        ensures
            r@ == vault_extensions_dir_spec(vault_root@),
    {
        let d = join_path(vault_root, ".mimic");
        join_path(d.as_str(), "extensions")
    }

    /// The manager of one vault's extensions.
    pub fn new_for_vault(vault_root: &str) -> (r: Self)
        ensures
            r.extensions@.len() == 0,
            r.extensions_dir_spec() == vault_extensions_dir_spec(vault_root@),
            r.vault_root_spec() matches Some(v) && v@ == vault_root@,
    {
        let dir = Self::vault_extensions_dir(vault_root);
        Self::with_dir(dir, Some(String::from_str(vault_root)))
    }

    /// The directory the manager installs into and scans.
    pub fn extensions_dir(&self) -> (r: &str)
        ensures
            r@ == self.extensions_dir_spec(),
    {
        self.extensions_dir.as_str()
    }

    /// The vault the manager belongs to, if any.
    pub fn vault_root(&self) -> (r: Option<&str>)
        ensures
            crate::paths::opt_view(r) == crate::paths::opt_string_view(self.vault_root_spec()),
    {
        match &self.vault_root {
            Some(v) => Some(v.as_str()),
            None => None,
        }
    }

    /// The position of the first extension called `name`.
    pub fn position(&self, name: &str) -> (r: Option<usize>)
        ensures
            match r {
                Some(i) => i < self.extensions@.len() && self.extensions@[i as int].manifest.name@
                    == name@ && forall|j: int|
                    0 <= j < i ==> #[trigger] self.extensions@[j].manifest.name@ != name@,
                None => forall|j: int|
                    0 <= j < self.extensions@.len() ==> #[trigger] self.extensions@[j].manifest.name@
                        != name@,
            },
    {
        let mut i: usize = 0;
        while i < self.extensions.len()
            invariant
                i <= self.extensions@.len(),
                forall|j: int| 0 <= j < i ==> #[trigger] self.extensions@[j].manifest.name@ != name@,
            decreases self.extensions.len() - i,
        {
            if crate::text::str_eq(self.extensions[i].manifest.name.as_str(), name) {
                return Some(i);
            }
            i = i + 1;
        }
        None
    }

    /// Marks extension `idx` enabled. Returns whether there is such an
    /// extension; starting its script and saving its manifest are up to the
    /// caller.
    pub fn enable(&mut self, idx: usize) -> (r: bool)
        ensures
            r == (idx < old(self).extensions@.len()),
            final(self).extensions@.len() == old(self).extensions@.len(),
            forall|i: int|
                0 <= i < old(self).extensions@.len() && i != idx ==> #[trigger] final(self).extensions@[i] == old(self).extensions@[i],
            r ==> {
                let (a, b) = (old(self).extensions@[idx as int], final(self).extensions@[idx as int]);
                &&& b.manifest == Manifest { enabled: true, ..a.manifest }
                &&& b.dir == a.dir
                &&& b.runtime_spec() == a.runtime_spec()
            },
            final(self).extensions_dir_spec() == old(self).extensions_dir_spec(),
            final(self).vault_root_spec() == old(self).vault_root_spec(),
    {
        if idx < self.extensions.len() {
            let mut e = self.extensions.remove(idx);
            e.manifest.enabled = true;
            self.extensions.insert(idx, e);
            assert(self.extensions@ =~= old(self).extensions@.update(idx as int, e));
            true
        } else {
            false
        }
    }

    /// Marks extension `idx` disabled and stops its script. Returns whether
    /// there is such an extension; saving its manifest is up to the caller.
    pub fn disable(&mut self, idx: usize) -> (r: bool)
        ensures
            r == (idx < old(self).extensions@.len()),
            final(self).extensions@.len() == old(self).extensions@.len(),
            forall|i: int|
                0 <= i < old(self).extensions@.len() && i != idx ==> #[trigger] final(self).extensions@[i] == old(self).extensions@[i],
            r ==> {
                let (a, b) = (old(self).extensions@[idx as int], final(self).extensions@[idx as int]);
                &&& b.manifest == Manifest { enabled: false, ..a.manifest }
                &&& b.dir == a.dir
                &&& !b.runtime_loaded()
            },
            final(self).extensions_dir_spec() == old(self).extensions_dir_spec(),
            final(self).vault_root_spec() == old(self).vault_root_spec(),
    {
        if idx < self.extensions.len() {
            let mut e = self.extensions.remove(idx);
            e.manifest.enabled = false;
            e.runtime = None;
            self.extensions.insert(idx, e);
            assert(self.extensions@ =~= old(self).extensions@.update(idx as int, e));
            true
        } else {
            false
        }
    }

    /// Forgets the extensions named `name` (after their directory was
    /// removed); the others keep their order.
    pub fn forget(&mut self, name: &str)
        ensures
            final(self).extensions@ == old(self).extensions@.filter(named_other(name@)),
            final(self).extensions_dir_spec() == old(self).extensions_dir_spec(),
            final(self).vault_root_spec() == old(self).vault_root_spec(),
    {
        let n = String::from_str(name);
        let mut kept: Vec<ExtensionEntry<R>> = Vec::new();
        let ghost all = self.extensions@;
        let ghost mut k: int = 0;
        while self.extensions.len() > 0
            invariant
                n@ == name@,
                0 <= k <= all.len(),
                all == old(self).extensions@,
                self.extensions@ == all.skip(k),
                kept@ == all.take(k).filter(named_other(name@)),
                self.extensions_dir_spec() == old(self).extensions_dir_spec(),
                self.vault_root_spec() == old(self).vault_root_spec(),
            decreases self.extensions@.len(),
        {
            let e = self.extensions.remove(0);
            proof {
                reveal(Seq::filter);
                assert(all.take(k + 1).drop_last() =~= all.take(k));
                assert(all.take(k + 1).last() == e);
                assert(self.extensions@ =~= all.skip(k + 1));
            }
            if e.manifest.name != n {
                kept.push(e);
            }
            proof {
                k = k + 1;
            }
        }
        assert(all.take(k) =~= all);
        self.extensions = kept;
    }

    /// Delivers `event` to every enabled extension that holds the event's
    /// permission and has a running script, in order, and collects what
    /// they answer: one answer per receiving extension. Each receiving
    /// script is asked once, with `event`; the answers come back in order.
    pub fn fire_hook(&mut self, event: &HookEvent) -> (r: Vec<HookResult>)
        ensures
            r@.len() == count_receivers(old(self).extensions@, hook_permission_spec(*event)),
            final(self).log@ == old(self).log@ + hook_calls(
                receivers(old(self).extensions@, hook_permission_spec(*event)),
                *event,
                r@,
            ),
            hook_effect(old(self).extensions@, final(self).extensions@, hook_permission_spec(*event)),
            final(self).extensions_dir_spec() == old(self).extensions_dir_spec(),
            final(self).vault_root_spec() == old(self).vault_root_spec(),
    {
        let perm = event.required_permission();
        let mut results: Vec<HookResult> = Vec::new();
        let mut i: usize = 0;
        while i < self.extensions.len()
            invariant
                perm@ == hook_permission_spec(*event),
                i <= self.extensions@.len(),
                self.extensions@.len() == old(self).extensions@.len(),
                results@.len() == count_receivers(old(self).extensions@.take(i as int), perm@),
                results@.len() == receivers(old(self).extensions@.take(i as int), perm@).len(),
                self.log@ == old(self).log@ + hook_calls(
                    receivers(old(self).extensions@.take(i as int), perm@),
                    *event,
                    results@,
                ),
                hook_effect(
                    old(self).extensions@.take(i as int),
                    self.extensions@.take(i as int),
                    perm@,
                ),
                forall|j: int|
                    i <= j < self.extensions@.len() ==> #[trigger] self.extensions@[j]
                        == old(self).extensions@[j],
                self.extensions_dir_spec() == old(self).extensions_dir_spec(),
                self.vault_root_spec() == old(self).vault_root_spec(),
            decreases self.extensions@.len() - i,
        {
            let ghost before = self.extensions@;
            let ghost log0 = self.log@;
            let ghost res0 = results@;
            let mut e = self.extensions.remove(i);
            let ghost e0 = e;
            assert(e0 == old(self).extensions@[i as int]);
            proof {
                lemma_receivers_step(old(self).extensions@, i as int, perm@);
            }
            if e.manifest.enabled && e.manifest.has_permission(perm) {
                match e.runtime.take() {
                    Some(mut rt) => {
                        let res = rt.call_hook(event);
                        self.log = Ghost(self.log@.push((i as int, ScriptCall::Hook(*event, res))));
                        results.push(res);
                        e.runtime = Some(rt);
                        proof {
                            let rs = receivers(old(self).extensions@.take(i as int), perm@);
                            assert(hook_calls(rs.push(i as int), *event, results@) =~= hook_calls(rs, *event, res0).push(
                                (i as int, ScriptCall::Hook(*event, res)),
                            ));
                        }
                    },
                    None => {},
                }
            }
            self.extensions.insert(i, e);
            assert(self.extensions@ =~= before.update(i as int, e));
            proof {
                let o = old(self).extensions@;
                assert(o.take(i + 1) =~= o.take(i as int).push(e0));
                assert(self.extensions@.take(i + 1) =~= before.take(i as int).push(e));
                assert(before.take(i as int) =~= self.extensions@.take(i as int));
            }
            i = i + 1;
        }
        assert(old(self).extensions@.take(i as int) =~= old(self).extensions@);
        assert(self.extensions@.take(i as int) =~= self.extensions@);
        results
    }

    /// Offers command `name` to the enabled extensions that hold the
    /// `commands` permission and have a running script, in order, until one
    /// answers, and returns that answer; none when no script answers. Each
    /// script asked gets `name` and `args`. Every script keeps running,
    /// extensions that do not receive commands are left as they were, and so
    /// are those after the one that answered.
    pub fn dispatch_command(&mut self, name: &str, args: &[String]) -> (r: Option<String>)
        ensures
            count_receivers(old(self).extensions@, "commands"@) == 0 ==> r is None,
            final(self).log@.len() >= old(self).log@.len(),
            final(self).log@.take(old(self).log@.len() as int) == old(self).log@,
            asked_in_order(
                final(self).log@.skip(old(self).log@.len() as int),
                receivers(old(self).extensions@, "commands"@),
                name@,
                views(args@),
            ),
            opt_string_view(r) == last_answer(final(self).log@.skip(old(self).log@.len() as int)),
            hook_effect(old(self).extensions@, final(self).extensions@, "commands"@),
            r is Some ==> answered_by(old(self).extensions@, final(self).extensions@, "commands"@),
            final(self).extensions_dir_spec() == old(self).extensions_dir_spec(),
            final(self).vault_root_spec() == old(self).vault_root_spec(),
    {
        proof {
            lemma_no_receivers(old(self).extensions@, "commands"@);
            lemma_receivers_count(old(self).extensions@, "commands"@);
        }
        let ghost oldlen = old(self).log@.len() as int;
        let ghost all_rs = receivers(old(self).extensions@, "commands"@);
        let mut i: usize = 0;
        assert(self.log@.take(oldlen) =~= self.log@);
        while i < self.extensions.len()
            invariant
                i <= self.extensions@.len(),
                self.extensions@.len() == old(self).extensions@.len(),
                oldlen == old(self).log@.len(),
                all_rs == receivers(old(self).extensions@, "commands"@),
                self.log@.len() == oldlen + receivers(old(self).extensions@.take(i as int), "commands"@).len(),
                self.log@.take(oldlen) == old(self).log@,
                forall|k: int|
                    0 <= k < receivers(old(self).extensions@.take(i as int), "commands"@).len() ==> #[trigger] self.log@[oldlen + k]
                        == (
                        receivers(old(self).extensions@.take(i as int), "commands"@)[k],
                        ScriptCall::Command(name@, views(args@), None),
                    ),
                hook_effect(old(self).extensions@.take(i as int), self.extensions@.take(i as int), "commands"@),
                count_receivers(old(self).extensions@, "commands"@) == 0 ==> forall|j: int|
                    0 <= j < old(self).extensions@.len() ==> !receives(
                        #[trigger] old(self).extensions@[j],
                        "commands"@,
                    ),
                forall|j: int|
                    i <= j < self.extensions@.len() ==> #[trigger] self.extensions@[j]
                        == old(self).extensions@[j],
                self.extensions_dir_spec() == old(self).extensions_dir_spec(),
                self.vault_root_spec() == old(self).vault_root_spec(),
            decreases self.extensions@.len() - i,
        {
            let ghost before = self.extensions@;
            let ghost log0 = self.log@;
            let mut e = self.extensions.remove(i);
            let ghost e0 = e;
            assert(e0 == old(self).extensions@[i as int]);
            proof {
                lemma_receivers_step(old(self).extensions@, i as int, "commands"@);
                lemma_receivers_prefix(old(self).extensions@, i + 1, "commands"@);
            }
            let ghost rs_i = receivers(old(self).extensions@.take(i as int), "commands"@);
            let mut answer: Option<String> = None;
            if e.manifest.enabled && e.manifest.has_permission("commands") {
                match e.runtime.take() {
                    Some(mut rt) => {
                        answer = rt.dispatch_command(name, args);
                        self.log = Ghost(
                            self.log@.push((i as int, ScriptCall::Command(name@, views(args@), opt_string_view(answer)))),
                        );
                        e.runtime = Some(rt);
                    },
                    None => {},
                }
            }
            assert(answer is Some ==> receives(e0, "commands"@));
            assert(receives(e0, "commands"@) ==> e.runtime_loaded());
            assert(!receives(e0, "commands"@) ==> e == e0 && self.log@ == log0);
            assert(self.log@.take(oldlen) =~= log0.take(oldlen));
            self.extensions.insert(i, e);
            assert(self.extensions@ =~= before.update(i as int, e));
            proof {
                let o = old(self).extensions@;
                assert(o.take(i + 1) =~= o.take(i as int).push(e0));
                assert(self.extensions@.take(i + 1) =~= before.take(i as int).push(e));
                assert(before.take(i as int) =~= self.extensions@.take(i as int));
            }
            if answer.is_some() {
                proof {
                    let o = old(self).extensions@;
                    let f = self.extensions@;
                    assert forall|k: int| 0 <= k < o.len() implies if receives(#[trigger] o[k], "commands"@) {
                        f[k].runtime_loaded()
                    } else {
                        f[k].runtime_spec() == o[k].runtime_spec()
                    } by {
                        if k <= i {
                            assert(o.take(i + 1)[k] == o[k]);
                            assert(f.take(i + 1)[k] == f[k]);
                        } else {
                            assert(f[k] == o[k]);
                        }
                    }
                    assert forall|k: int| 0 <= k < o.len() implies (#[trigger] o[k]).manifest == f[k].manifest
                        && o[k].dir == f[k].dir by {
                        if k <= i {
                            assert(o.take(i + 1)[k] == o[k]);
                            assert(f.take(i + 1)[k] == f[k]);
                        } else {
                            assert(f[k] == o[k]);
                        }
                    }
                    assert(o[i as int] == e0);
                    assert(forall|k: int| i < k < o.len() ==> #[trigger] f[k] == o[k]);
                    assert(answered_by(o, f, "commands"@));
                    let calls = self.log@.skip(oldlen);
                    let rs1 = rs_i.push(i as int);
                    assert(calls.len() == rs1.len());
                    assert forall|k: int| 0 <= k < calls.len() implies (#[trigger] calls[k]).0 == all_rs[k]
                        && calls[k].1 == ScriptCall::Command(name@, views(args@), command_answer(calls[k].1)) by {
                        assert(rs1[k] == all_rs[k]);
                        if k < rs_i.len() {
                            assert(calls[k] == self.log@[oldlen + k]);
                        }
                    }
                    assert forall|k: int| 0 <= k < calls.len() - 1 implies command_answer(
                        (#[trigger] calls[k]).1,
                    ) is None by {
                        assert(calls[k] == self.log@[oldlen + k]);
                    }
                    assert(asked_in_order(calls, all_rs, name@, views(args@)));
                }
                return answer;
            }
            proof {
                let rs2 = receivers(old(self).extensions@.take(i + 1), "commands"@);
                assert forall|k: int| 0 <= k < rs2.len() implies #[trigger] self.log@[oldlen + k] == (
                    rs2[k],
                    ScriptCall::Command(name@, views(args@), None),
                ) by {
                    if k < rs_i.len() {
                        assert(self.log@[oldlen + k] == log0[oldlen + k]);
                    }
                }
                assert(self.log@.take(oldlen) =~= log0.take(oldlen));
            }
            i = i + 1;
        }
        proof {
            assert(old(self).extensions@.take(i as int) =~= old(self).extensions@);
            assert(self.extensions@.take(i as int) =~= self.extensions@);
            let calls = self.log@.skip(oldlen);
            assert forall|k: int| 0 <= k < calls.len() implies (#[trigger] calls[k]).0 == all_rs[k]
                && calls[k].1 == ScriptCall::Command(name@, views(args@), command_answer(calls[k].1)) by {
                assert(calls[k] == self.log@[oldlen + k]);
            }
            assert forall|k: int| 0 <= k < calls.len() - 1 implies command_answer((#[trigger] calls[k]).1) is None by {
                assert(calls[k] == self.log@[oldlen + k]);
            }
            if calls.len() > 0 {
                let last = calls.len() - 1;
                assert(calls.last() == self.log@[oldlen + last]);
            }
        }
        None
    }

    /// Collects the pending notifications of every running script, in order:
    /// each script is drained once, and what they gave is joined. Every
    /// script keeps running, and extensions without one are left as they
    /// were.
    pub fn drain_notifications(&mut self) -> (r: Vec<String>)
        ensures
            final(self).log@.len() >= old(self).log@.len(),
            final(self).log@.take(old(self).log@.len() as int) == old(self).log@,
            drained_in_order(final(self).log@.skip(old(self).log@.len() as int), holders(old(self).extensions@)),
            views(r@) == drained(final(self).log@.skip(old(self).log@.len() as int)),
            drain_effect(old(self).extensions@, final(self).extensions@),
            final(self).extensions_dir_spec() == old(self).extensions_dir_spec(),
            final(self).vault_root_spec() == old(self).vault_root_spec(),
    {
        let ghost oldlen = old(self).log@.len() as int;
        let mut all: Vec<String> = Vec::new();
        let mut i: usize = 0;
        assert(self.log@.take(oldlen) =~= self.log@);
        assert(self.log@.skip(oldlen) =~= Seq::<(int, ScriptCall)>::empty());
        assert(views(all@) =~= Seq::<Seq<char>>::empty());
        while i < self.extensions.len()
            invariant
                i <= self.extensions@.len(),
                self.extensions@.len() == old(self).extensions@.len(),
                oldlen == old(self).log@.len(),
                self.log@.len() >= oldlen,
                self.log@.take(oldlen) == old(self).log@,
                drained_in_order(self.log@.skip(oldlen), holders(old(self).extensions@.take(i as int))),
                views(all@) == drained(self.log@.skip(oldlen)),
                drain_effect(old(self).extensions@.take(i as int), self.extensions@.take(i as int)),
                forall|j: int|
                    i <= j < self.extensions@.len() ==> #[trigger] self.extensions@[j]
                        == old(self).extensions@[j],
                self.extensions_dir_spec() == old(self).extensions_dir_spec(),
                self.vault_root_spec() == old(self).vault_root_spec(),
            decreases self.extensions@.len() - i,
        {
            let ghost before = self.extensions@;
            let ghost log0 = self.log@;
            let ghost all0 = all@;
            let mut e = self.extensions.remove(i);
            let ghost e0 = e;
            assert(e0 == old(self).extensions@[i as int]);
            proof {
                lemma_receivers_step(old(self).extensions@, i as int, "commands"@);
            }
            match e.runtime.take() {
                Some(mut rt) => {
                    let mut notes = rt.drain_notifications();
                    let ghost nv = views(notes@);
                    self.log = Ghost(self.log@.push((i as int, ScriptCall::Drain(nv))));
                    all.append(&mut notes);
                    e.runtime = Some(rt);
                    proof {
                        let c0 = log0.skip(oldlen);
                        let c1 = self.log@.skip(oldlen);
                        assert(c1 =~= c0.push((i as int, ScriptCall::Drain(nv))));
                        assert(c1.drop_last() =~= c0);
                        assert(views(all@) =~= views(all0) + nv);
                        let hs = holders(old(self).extensions@.take(i as int));
                        assert forall|k: int| 0 <= k < c1.len() implies (#[trigger] c1[k]).0 == hs.push(i as int)[k]
                            && c1[k].1 is Drain by {
                            if k < c0.len() {
                                assert(c1[k] == c0[k]);
                            }
                        }
                        assert(self.log@.take(oldlen) =~= log0.take(oldlen));
                    }
                },
                None => {},
            }
            self.extensions.insert(i, e);
            assert(self.extensions@ =~= before.update(i as int, e));
            proof {
                let o = old(self).extensions@;
                assert(o.take(i + 1) =~= o.take(i as int).push(e0));
                assert(self.extensions@.take(i + 1) =~= before.take(i as int).push(e));
                assert(before.take(i as int) =~= self.extensions@.take(i as int));
            }
            i = i + 1;
        }
        assert(old(self).extensions@.take(i as int) =~= old(self).extensions@);
        assert(self.extensions@.take(i as int) =~= self.extensions@);
        all
    }
}

} // verus!
