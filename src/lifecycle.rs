//! Saving the tabs, checking the entries, and the start / stop / poll
//! decisions around the player processes.
use vstd::prelude::*;

use crate::config::{min_one, models, EntryModel, WallpaperProfileEntry};
use crate::editor::{EditorModel, MonitorTab, TabModel};
use crate::matching::{first_match, is_first, lemma_first_match};
use crate::paths::{absolute_path, normalize_entry_path, user_path, Environment};
use crate::session::{entry_named, tabs_view, EditorSession, StatusBanner, StatusKind};
use crate::text::{decimal, push_decimal};

verus! {

/// The entry a tab saves: its monitor, the path its text stands for, and its
/// settings with the interval raised to at least one second.
pub open spec fn tab_entry(t: TabModel, env: Seq<(String, String)>) -> EntryModel {
    EntryModel {
        monitor: Some(t.monitor.name),
        path: user_path(t.editor.path_text, env),
        enabled: t.editor.enabled,
        scale: t.editor.scale,
        order: t.editor.order,
        interval_seconds: min_one(t.editor.interval_seconds),
    }
}

/// `e` in place of the first entry of its monitor, or appended.
pub open spec fn upsert(s: Seq<EntryModel>, e: EntryModel) -> Seq<EntryModel> {
    let k = first_match(s, entry_named(e.monitor->0));
    if k >= 0 {
        s.update(k, e)
    } else {
        s.push(e)
    }
}

/// The saved entries with every tab's entry merged in, tab by tab.
pub open spec fn merged(
    saved: Seq<EntryModel>,
    tabs: Seq<TabModel>,
    env: Seq<(String, String)>,
) -> Seq<EntryModel>
    decreases tabs.len(),
{
    if tabs.len() == 0 {
        saved
    } else {
        upsert(merged(saved, tabs.drop_last(), env), tab_entry(tabs.last(), env))
    }
}

/// The index of the first tab whose interval text does not parse.
pub open spec fn first_bad_interval(tabs: Seq<TabModel>) -> int {
    first_match(tabs, |t: TabModel| t.editor.interval_error is Some)
}

pub open spec fn no_monitors_text() -> Seq<char> {
    "No monitors available."@
}

pub open spec fn fix_interval_text(name: Seq<char>) -> Seq<char> {
    "Fix the slideshow interval for "@ + name
}

/// What saving the tabs writes, or why it cannot.
pub open spec fn persisted(
    saved: Seq<EntryModel>,
    tabs: Seq<TabModel>,
    env: Seq<(String, String)>,
) -> Result<Seq<EntryModel>, Seq<char>> {
    if tabs.len() == 0 {
        Err(no_monitors_text())
    } else if first_bad_interval(tabs) >= 0 {
        Err(fix_interval_text(tabs[first_bad_interval(tabs)].monitor.name))
    } else {
        Ok(merged(saved, tabs, env))
    }
}

pub open spec fn missing_path_text(monitor: Option<Seq<char>>) -> Seq<char> {
    "Enabled entry for "@ + match monitor {
        Some(m) => m,
        None => "an unassigned monitor"@,
    } + " is missing a file or folder path."@
}

pub open spec fn invalid_path_text(p: Seq<char>) -> Seq<char> {
    "Invalid path or file ("@ + p + ")"@
}

/// How many enabled entries there are, or the first enabled one that has no
/// path or whose path does not exist (`present[i]` tells whether entry
/// `i`'s path exists).
pub open spec fn validation(s: Seq<EntryModel>, present: Seq<bool>, env: Environment) -> Result<
    nat,
    Seq<char>,
>
    decreases s.len(),
{
    if s.len() == 0 {
        Ok(0)
    } else {
        match validation(s.drop_last(), present, env) {
            Err(m) => Err(m),
            Ok(n) => {
                let e = s.last();
                if !e.enabled {
                    Ok(n)
                } else {
                    match e.path {
                        None => Err(missing_path_text(e.monitor)),
                        Some(p) => if present[s.len() - 1] {
                            Ok(n + 1)
                        } else {
                            Err(invalid_path_text(absolute_path(p, env)))
                        },
                    }
                }
            },
        }
    }
}

pub open spec fn nothing_to_start_text() -> Seq<char> {
    "Enable at least one monitor and choose a valid path before starting."@
}

pub open spec fn started_text(n: nat) -> Seq<char> {
    "Wallpaper started for "@ + decimal(n) + " configured entry(ies)."@
}

pub open spec fn launch_failed_text(err: Seq<char>) -> Seq<char> {
    "Failed to launch wallpaper: "@ + err
}

pub open spec fn stopped_text() -> Seq<char> {
    "Wallpaper stopped."@
}

pub open spec fn none_running_text() -> Seq<char> {
    "No running mpvpaper process found."@
}

pub open spec fn pkill_failed_text(err: Seq<char>) -> Seq<char> {
    "Failed to issue pkill: "@ + err
}

pub open spec fn exited_text() -> Seq<char> {
    "Wallpaper exited."@
}

/// How the signal to stop all player instances went.
#[derive(Debug, Clone)]
pub enum StopOutcome {
    /// At least one instance was signalled.
    Stopped,
    /// No instance was found.
    NoneRunning,
    /// The signal could not be sent.
    Failed(String),
}

/// What the liveness check found.
#[derive(Debug, Clone, Copy, PartialEq, Eq, Structural)]
pub enum ProcessProbe {
    Alive,
    Gone,
    /// The check itself failed.
    Unknown,
}

/// Whether a poll finds the player gone, and whether players are then
/// believed running.
pub open spec fn poll_step(running: bool, probe: ProcessProbe) -> (bool, bool) {
    if running && probe == ProcessProbe::Gone {
        (false, true)
    } else {
        (running, false)
    }
}

/// Whether a start goes on to spawn the players, given the validation.
pub open spec fn spawns(validated: Result<usize, String>) -> bool {
    validated matches Ok(n) && n > 0
}

/// Whether players are believed running once a spawn has been tried.
pub open spec fn running_after_spawn(running: bool, spawned: Result<(), String>) -> bool {
    spawned is Ok || running
}

fn tab_to_entry(tab: &MonitorTab, env: &Environment) -> (r: WallpaperProfileEntry)
    ensures
        r@ == tab_entry(tab@, env.vars@),
{
    WallpaperProfileEntry {
        monitor: Some(tab.monitor.name.clone()),
        path: tab.editor.path_buf(env),
        enabled: tab.editor.enabled(),
        scale: tab.editor.scale,
        order: tab.editor.order,
        interval_seconds: if tab.editor.interval_seconds < 1 {
            1
        } else {
            tab.editor.interval_seconds
        },
    }
}

fn upsert_entry(entries: &mut Vec<WallpaperProfileEntry>, e: WallpaperProfileEntry)
    requires
        e.monitor is Some,
    ensures
        models(final(entries)@) == upsert(models(old(entries)@), e@),
{
    let ghost s = models(entries@);
    let name = match &e.monitor {
        Some(n) => n.clone(),
        None => String::new(),
    };
    let ghost p = entry_named(name@);
    proof {
        lemma_first_match(s, p);
    }
    let mut i: usize = 0;
    while i < entries.len()
        invariant
            s == models(entries@),
            s == models(old(entries)@),
            p == entry_named(name@),
            name@ == e@.monitor->0,
            i <= entries@.len(),
            forall|j: int| 0 <= j < i ==> !p(#[trigger] s[j]),
        decreases entries@.len() - i,
    {
        let hit = match &entries[i].monitor {
            Some(m) => *m == name,
            None => false,
        };
        if hit {
            assert(is_first(s, p, i as int));
            assert(entry_named(e@.monitor->0) == p);
            assert(first_match(s, entry_named(e@.monitor->0)) == i);
            let ghost ev = e@;
            assert(upsert(s, ev) == s.update(i as int, ev));
            entries.set(i, e);
            assert(models(entries@) =~= s.update(i as int, ev));
            return;
        }
        i = i + 1;
    }
    assert(entry_named(e@.monitor->0) == p);
    entries.push(e);
    assert(models(entries@) =~= s.push(e@));
}

/// Checks the entries before a start: the number of enabled entries, or a
/// message naming the first enabled one without a path or whose path does
/// not exist.  `present[i]` tells whether entry `i`'s resolved path exists.
pub fn validate_entries(
    entries: &[WallpaperProfileEntry],
    present: &[bool],
    env: &Environment,
) -> (r: Result<usize, String>)
    requires
        present@.len() == entries@.len(),
    ensures
        match validation(models(entries@), present@, *env) {
            Ok(n) => r matches Ok(k) && k == n,
            Err(m) => r matches Err(t) && t@ == m,
        },
{
    let mut valid: usize = 0;
    let mut i: usize = 0;
    while i < entries.len()
        invariant
            present@.len() == entries@.len(),
            i <= entries@.len(),
            valid <= i,
            validation(models(entries@.subrange(0, i as int)), present@, *env) == Ok::<
                nat,
                Seq<char>,
            >(valid as nat),
        decreases entries@.len() - i,
    {
        proof {
            assert(models(entries@.subrange(0, i + 1)).drop_last() =~= models(
                entries@.subrange(0, i as int),
            ));
        }
        let entry = &entries[i];
        if entry.enabled {
            match &entry.path {
                None => {
                    let who = match &entry.monitor {
                        Some(m) => m.clone(),
                        None => "an unassigned monitor".to_owned(),
                    };
                    let msg = "Enabled entry for ".to_owned().concat(who.as_str()).concat(
                        " is missing a file or folder path.",
                    );
                    proof {
                        lemma_validation_prefix(entries@, present@, *env, i as int + 1);
                    }
                    assert(msg@ =~= missing_path_text(entry@.monitor));
                    return Err(msg);
                },
                Some(p) => {
                    if !present[i] {
                        let resolved = normalize_entry_path(p, env);
                        let msg = "Invalid path or file (".to_owned().concat(
                            resolved.as_str(),
                        ).concat(")");
                        proof {
                            lemma_validation_prefix(entries@, present@, *env, i as int + 1);
                        }
                        assert(msg@ =~= invalid_path_text(absolute_path(p@, *env)));
                        return Err(msg);
                    }
                    valid = valid + 1;
                },
            }
        }
        i = i + 1;
    }
    assert(entries@.subrange(0, entries@.len() as int) =~= entries@);
    Ok(valid)
}

/// Once a prefix of the entries fails, the whole list fails the same way.
proof fn lemma_validation_prefix(
    s: Seq<WallpaperProfileEntry>,
    present: Seq<bool>,
    env: Environment,
    i: int,
)
    requires
        0 <= i <= s.len(),
        validation(models(s.subrange(0, i)), present, env) is Err,
    ensures
        validation(models(s), present, env) == validation(models(s.subrange(0, i)), present, env),
    decreases s.len() - i,
{
    if i < s.len() {
        assert(models(s.subrange(0, i + 1)).drop_last() =~= models(s.subrange(0, i)));
        lemma_validation_prefix(s, present, env, i + 1);
    } else {
        assert(s.subrange(0, i) =~= s);
    }
}

impl EditorSession {
    /// The entries that saving the tabs writes: the saved entries with each
    /// tab's entry in place of the one for its monitor (or appended).  Fails
    /// with no tabs, or while a tab's interval text does not parse.
    pub fn persist_entries(&self, env: &Environment) -> (r: Result<
        Vec<WallpaperProfileEntry>,
        String,
    >)
        ensures
            match persisted(models(self.saved_entries@), tabs_view(self.tabs@), env.vars@) {
                Ok(s) => r matches Ok(v) && models(v@) == s,
                Err(m) => r matches Err(t) && t@ == m,
            },
    {
        if self.tabs.len() == 0 {
            return Err("No monitors available.".to_owned());
        }
        let ghost tv = tabs_view(self.tabs@);
        let ghost bad = |t: TabModel| t.editor.interval_error is Some;
        proof {
            lemma_first_match(tv, bad);
        }
        let mut i: usize = 0;
        while i < self.tabs.len()
            invariant
                tv == tabs_view(self.tabs@),
                bad == (|t: TabModel| t.editor.interval_error is Some),
                i <= self.tabs@.len(),
                forall|j: int| 0 <= j < i ==> !bad(#[trigger] tv[j]),
            decreases self.tabs@.len() - i,
        {
            if self.tabs[i].editor.interval_error.is_some() {
                assert(is_first(tv, bad, i as int));
                let msg = "Fix the slideshow interval for ".to_owned().concat(
                    self.tabs[i].monitor.name.as_str(),
                );
                return Err(msg);
            }
            i = i + 1;
        }
        let mut entries: Vec<WallpaperProfileEntry> = Vec::new();
        let mut k: usize = 0;
        while k < self.saved_entries.len()
            invariant
                k <= self.saved_entries@.len(),
                entries@.len() == k,
                forall|j: int|
                    0 <= j < k ==> #[trigger] entries@[j]@ == self.saved_entries@[j]@,
            decreases self.saved_entries@.len() - k,
        {
            entries.push(self.saved_entries[k].copied());
            k = k + 1;
        }
        assert(models(entries@) =~= models(self.saved_entries@));
        let mut t: usize = 0;
        while t < self.tabs.len()
            invariant
                tv == tabs_view(self.tabs@),
                t <= self.tabs@.len(),
                models(entries@) == merged(
                    models(self.saved_entries@),
                    tv.subrange(0, t as int),
                    env.vars@,
                ),
            decreases self.tabs@.len() - t,
        {
            proof {
                assert(tv.subrange(0, t + 1).drop_last() =~= tv.subrange(0, t as int));
            }
            let e = tab_to_entry(&self.tabs[t], env);
            upsert_entry(&mut entries, e);
            t = t + 1;
        }
        assert(tv.subrange(0, tv.len() as int) =~= tv);
        Ok(entries)
    }

    /// Records that `entries` were written: they become the saved entries
    /// and no tab has unsaved edits any more.
    pub fn mark_persisted(&mut self, entries: Vec<WallpaperProfileEntry>)
        ensures
            final(self).saved_entries@ == entries@,
            final(self).tabs@.len() == old(self).tabs@.len(),
            forall|i: int|
                0 <= i < old(self).tabs@.len() ==> #[trigger] final(self).tabs@[i]@ == (TabModel {
                    editor: EditorModel { dirty: false, ..old(self).tabs@[i]@.editor },
                    ..old(self).tabs@[i]@
                }),
            final(self).monitors@ == old(self).monitors@,
            final(self).wallpaper_running == old(self).wallpaper_running,
            final(self).active_tab == old(self).active_tab,
            final(self).status == old(self).status,
    {
        self.saved_entries = entries;
        let mut i: usize = 0;
        while i < self.tabs.len()
            invariant
                i <= self.tabs@.len(),
                self.tabs@.len() == old(self).tabs@.len(),
                self.saved_entries@ == entries@,
                self.monitors@ == old(self).monitors@,
                self.wallpaper_running == old(self).wallpaper_running,
                self.active_tab == old(self).active_tab,
                self.status == old(self).status,
                forall|j: int|
                    0 <= j < i ==> #[trigger] self.tabs@[j]@ == (TabModel {
                        editor: EditorModel { dirty: false, ..old(self).tabs@[j]@.editor },
                        ..old(self).tabs@[j]@
                    }),
                forall|j: int| i <= j < self.tabs@.len() ==> #[trigger] self.tabs@[j] == old(
                    self,
                ).tabs@[j],
            decreases self.tabs@.len() - i,
        {
            self.tabs[i].editor.mark_saved();
            i = i + 1;
        }
    }

    /// Shows `message` as an error.
    pub fn report_error(&mut self, message: String)
        ensures
            final(self).status matches Some(b) && b.kind == StatusKind::Error && b.text@
                == message@,
            final(self).wallpaper_running == old(self).wallpaper_running,
            final(self).tabs@ == old(self).tabs@,
            final(self).saved_entries@ == old(self).saved_entries@,
            final(self).monitors@ == old(self).monitors@,
            final(self).active_tab == old(self).active_tab,
    {
        self.status = Some(StatusBanner::error(message));
    }

    /// Decides whether a start goes on to spawn the players, given the
    /// validation of the saved entries.  An error, or no enabled entry,
    /// is shown and nothing is spawned.
    pub fn begin_start(&mut self, validated: Result<usize, String>) -> (spawn: bool)
        ensures
            spawn == spawns(validated),
            final(self).wallpaper_running == old(self).wallpaper_running,
            match validated {
                Err(m) => final(self).status matches Some(b) && b.kind == StatusKind::Error
                    && b.text@ == m@,
                Ok(n) => if n == 0 {
                    final(self).status matches Some(b) && b.kind == StatusKind::Error && b.text@
                        == nothing_to_start_text()
                } else {
                    final(self).status == old(self).status
                },
            },
            final(self).tabs@ == old(self).tabs@,
            final(self).saved_entries@ == old(self).saved_entries@,
            final(self).monitors@ == old(self).monitors@,
            final(self).active_tab == old(self).active_tab,
    {
        match validated {
            Err(m) => {
                self.status = Some(StatusBanner::error(m));
                false
            },
            Ok(n) => {
                if n == 0 {
                    self.status = Some(
                        StatusBanner::error(
                            "Enable at least one monitor and choose a valid path before starting.".to_owned(),
                        ),
                    );
                    false
                } else {
                    true
                }
            },
        }
    }

    /// Records how spawning the players for `count` entries went.
    pub fn finish_start(&mut self, count: usize, spawned: Result<(), String>)
        ensures
            final(self).wallpaper_running == running_after_spawn(
                old(self).wallpaper_running,
                spawned,
            ),
            match spawned {
                Ok(_) => final(self).status matches Some(b) && b.kind == StatusKind::Success
                    && b.text@ == started_text(count as nat),
                Err(e) => final(self).status matches Some(b) && b.kind == StatusKind::Error
                    && b.text@ == launch_failed_text(e@),
            },
            final(self).tabs@ == old(self).tabs@,
            final(self).saved_entries@ == old(self).saved_entries@,
            final(self).monitors@ == old(self).monitors@,
            final(self).active_tab == old(self).active_tab,
    {
        match spawned {
            Ok(()) => {
                self.wallpaper_running = true;
                let mut text = "Wallpaper started for ".to_owned();
                push_decimal(&mut text, count as u64);
                let text = text.concat(" configured entry(ies).");
                assert(text@ =~= started_text(count as nat));
                self.status = Some(StatusBanner::success(text));
            },
            Err(e) => {
                let text = "Failed to launch wallpaper: ".to_owned().concat(e.as_str());
                self.status = Some(StatusBanner::error(text));
            },
        }
    }

    /// Records how stopping the players went.  Players are believed stopped
    /// unless the signal could not be sent.
    pub fn stop_wallpaper(&mut self, outcome: StopOutcome) -> (r: Result<(), String>)
        ensures
            match outcome {
                StopOutcome::Stopped => r is Ok && !final(self).wallpaper_running
                    && (final(self).status matches Some(b) && b.kind == StatusKind::Info
                    && b.text@ == stopped_text()),
                StopOutcome::NoneRunning => r matches Err(m) && m@ == none_running_text()
                    && !final(self).wallpaper_running && final(self).status == old(self).status,
                StopOutcome::Failed(e) => r matches Err(m) && m@ == pkill_failed_text(e@)
                    && final(self).wallpaper_running == old(self).wallpaper_running
                    && final(self).status == old(self).status,
            },
            final(self).tabs@ == old(self).tabs@,
            final(self).saved_entries@ == old(self).saved_entries@,
            final(self).monitors@ == old(self).monitors@,
            final(self).active_tab == old(self).active_tab,
    {
        match outcome {
            StopOutcome::Stopped => {
                self.wallpaper_running = false;
                self.status = Some(StatusBanner::info("Wallpaper stopped.".to_owned()));
                Ok(())
            },
            StopOutcome::NoneRunning => {
                self.wallpaper_running = false;
                Err("No running mpvpaper process found.".to_owned())
            },
            StopOutcome::Failed(e) => Err("Failed to issue pkill: ".to_owned().concat(e.as_str())),
        }
    }

    /// Whether the periodic liveness check has anything to look at.
    pub fn poll_due(&self) -> (r: bool)
        ensures
            r == self.wallpaper_running,
    {
        self.wallpaper_running
    }

    /// Takes the result of the periodic liveness check: players believed
    /// running that are gone make the session idle, with a notice.  Returns
    /// whether the notice was given.
    pub fn poll_wallpaper(&mut self, probe: ProcessProbe) -> (exited: bool)
        ensures
            (final(self).wallpaper_running, exited) == poll_step(
                old(self).wallpaper_running,
                probe,
            ),
            exited ==> (final(self).status matches Some(b) && b.kind == StatusKind::Info
                && b.text@ == exited_text()),
            !exited ==> final(self).status == old(self).status,
            final(self).tabs@ == old(self).tabs@,
            final(self).saved_entries@ == old(self).saved_entries@,
            final(self).monitors@ == old(self).monitors@,
            final(self).active_tab == old(self).active_tab,
    {
        if !self.wallpaper_running {
            return false;
        }
        match probe {
            ProcessProbe::Gone => {
                self.wallpaper_running = false;
                self.status = Some(StatusBanner::info("Wallpaper exited.".to_owned()));
                true
            },
            _ => false,
        }
    }
}

/// With no enabled entry, validation counts zero entries, so a start spawns
/// nothing (and `begin_start` leaves the players' state as it was).
pub proof fn lemma_nothing_to_start(entries: Seq<EntryModel>, present: Seq<bool>, env: Environment)
    requires
        forall|i: int| 0 <= i < entries.len() ==> !(#[trigger] entries[i]).enabled,
    ensures
        validation(entries, present, env) == Ok::<nat, Seq<char>>(0),
    decreases entries.len(),
{
    if entries.len() > 0 {
        let prefix = entries.drop_last();
        assert forall|i: int| 0 <= i < prefix.len() implies !(#[trigger] prefix[i]).enabled by {
            assert(prefix[i] == entries[i]);
        }
        lemma_nothing_to_start(prefix, present, env);
        assert(!entries[entries.len() - 1].enabled);
    }
}

/// A validation of zero entries does not spawn.
pub proof fn lemma_zero_does_not_spawn()
    ensures
        !spawns(Ok(0)),
{
}

/// After a successful spawn, a poll that finds the players gone makes the
/// session idle and gives the exit notice; any later poll gives none.
pub proof fn lemma_exit_noticed_once(running: bool, later: ProcessProbe)
    ensures
        ({
            let started = running_after_spawn(running, Ok(()));
            let (idle, noticed) = poll_step(started, ProcessProbe::Gone);
            let (_, again) = poll_step(idle, later);
            started && !idle && noticed && !again
        }),
{
}

} // verus!
