//! The editor session: live monitors, their tabs, the saved entries of
//! monitors not connected, and the decisions taken on each event.
use vstd::prelude::*;

use crate::config::{models, placeholder_entry, EntryModel, WallpaperProfileEntry};
use crate::editor::{editor_from, MonitorEditor, MonitorTab, TabModel};
use crate::matching::{first_match, is_first, lemma_first_match};
use crate::monitors::{Monitor, MonitorModel};

verus! {

/// The tone of a status message.
#[derive(Debug, Clone, Copy, PartialEq, Eq, Structural)]
pub enum StatusKind {
    Info,
    Success,
    Error,
}

/// A short status message for the user.
#[derive(Debug, Clone)]
pub struct StatusBanner {
    pub text: String,
    pub kind: StatusKind,
}

impl StatusBanner {
    pub fn info(text: String) -> (r: Self)
        ensures
            r.text@ == text@,
            r.kind == StatusKind::Info,
    {
        StatusBanner { text, kind: StatusKind::Info }
    }

    pub fn success(text: String) -> (r: Self)
        ensures
            r.text@ == text@,
            r.kind == StatusKind::Success,
    {
        StatusBanner { text, kind: StatusKind::Success }
    }

    pub fn error(text: String) -> (r: Self)
        ensures
            r.text@ == text@,
            r.kind == StatusKind::Error,
    {
        StatusBanner { text, kind: StatusKind::Error }
    }
}

pub open spec fn tabs_view(t: Seq<MonitorTab>) -> Seq<TabModel> {
    t.map_values(|x: MonitorTab| x@)
}

pub open spec fn monitors_view(m: Seq<Monitor>) -> Seq<MonitorModel> {
    m.map_values(|x: Monitor| x@)
}

pub open spec fn tab_named(name: Seq<char>) -> spec_fn(TabModel) -> bool {
    |t: TabModel| t.monitor.name == name
}

pub open spec fn entry_named(name: Seq<char>) -> spec_fn(EntryModel) -> bool {
    |e: EntryModel| e.monitor == Some(name)
}

pub open spec fn unassigned() -> spec_fn(EntryModel) -> bool {
    |e: EntryModel| e.monitor is None
}

pub open spec fn entry_opt_view(e: Option<WallpaperProfileEntry>) -> Option<EntryModel> {
    match e {
        Some(x) => Some(x@),
        None => None,
    }
}

/// The state of a reconciliation pass between two monitors.
pub struct Pass {
    /// Tabs of the previous pass not yet matched.
    pub existing: Seq<TabModel>,
    /// Saved entries not yet claimed.
    pub remaining: Seq<EntryModel>,
    /// The unassigned entry, while no monitor has claimed it.
    pub donor: Option<EntryModel>,
    /// The tabs built so far, one per monitor handled.
    pub rebuilt: Seq<TabModel>,
}

/// One monitor's turn: its previous tab if one has its name (refreshed from
/// a saved entry of that name unless it has unsaved edits), else a saved
/// entry of that name, else the donor, else a placeholder.  A matching
/// saved entry is claimed in every case.
pub open spec fn claim_step(st: Pass, m: MonitorModel) -> Pass {
    let t = first_match(st.existing, tab_named(m.name));
    let e = first_match(st.remaining, entry_named(m.name));
    let remaining = if e >= 0 {
        st.remaining.remove(e)
    } else {
        st.remaining
    };
    if t >= 0 {
        let prev = st.existing[t];
        let editor = if e >= 0 && !prev.editor.dirty {
            editor_from(Some(st.remaining[e]))
        } else {
            prev.editor
        };
        Pass {
            existing: st.existing.remove(t),
            remaining,
            donor: st.donor,
            rebuilt: st.rebuilt.push(TabModel { monitor: m, editor }),
        }
    } else if e >= 0 {
        Pass {
            remaining,
            rebuilt: st.rebuilt.push(
                TabModel { monitor: m, editor: editor_from(Some(st.remaining[e])) },
            ),
            ..st
        }
    } else {
        match st.donor {
            Some(d) => Pass {
                donor: None,
                rebuilt: st.rebuilt.push(TabModel { monitor: m, editor: editor_from(Some(d)) }),
                ..st
            },
            None => Pass {
                rebuilt: st.rebuilt.push(
                    TabModel {
                        monitor: m,
                        editor: editor_from(Some(placeholder_entry(Some(m.name)))),
                    },
                ),
                ..st
            },
        }
    }
}

pub open spec fn run_pass(st: Pass, ms: Seq<MonitorModel>) -> Pass
    decreases ms.len(),
{
    if ms.len() == 0 {
        st
    } else {
        claim_step(run_pass(st, ms.drop_last()), ms.last())
    }
}

/// The pass before the first monitor: the first unassigned saved entry is
/// set aside as the donor.
pub open spec fn start_pass(tabs: Seq<TabModel>, saved: Seq<EntryModel>) -> Pass {
    let u = first_match(saved, unassigned());
    Pass {
        existing: tabs,
        remaining: if u >= 0 {
            saved.remove(u)
        } else {
            saved
        },
        donor: if u >= 0 {
            Some(saved[u])
        } else {
            None
        },
        rebuilt: Seq::empty(),
    }
}

/// The tabs after reconciling `tabs` and `saved` with the live `monitors`.
pub open spec fn reconciled_tabs(
    tabs: Seq<TabModel>,
    saved: Seq<EntryModel>,
    monitors: Seq<MonitorModel>,
) -> Seq<TabModel> {
    run_pass(start_pass(tabs, saved), monitors).rebuilt
}

/// The saved entries left after reconciling: those no monitor claimed, with
/// an unclaimed donor put back at the end.
pub open spec fn reconciled_saved(
    tabs: Seq<TabModel>,
    saved: Seq<EntryModel>,
    monitors: Seq<MonitorModel>,
) -> Seq<EntryModel> {
    let p = run_pass(start_pass(tabs, saved), monitors);
    match p.donor {
        Some(d) => p.remaining.push(d),
        None => p.remaining,
    }
}

fn find_tab(tabs: &Vec<MonitorTab>, name: &String) -> (r: Option<usize>)
    ensures
        match r {
            Some(k) => k as int == first_match(tabs_view(tabs@), tab_named(name@)),
            None => first_match(tabs_view(tabs@), tab_named(name@)) == -1,
        },
{
    let ghost s = tabs_view(tabs@);
    let ghost p = tab_named(name@);
    proof {
        lemma_first_match(s, p);
    }
    let mut i: usize = 0;
    while i < tabs.len()
        invariant
            s == tabs_view(tabs@),
            p == tab_named(name@),
            i <= tabs@.len(),
            forall|j: int| 0 <= j < i ==> !p(#[trigger] s[j]),
        decreases tabs@.len() - i,
    {
        if tabs[i].monitor.name == *name {
            assert(is_first(s, p, i as int));
            return Some(i);
        }
        i = i + 1;
    }
    None
}

fn find_entry(entries: &Vec<WallpaperProfileEntry>, name: &String) -> (r: Option<usize>)
    ensures
        match r {
            Some(k) => k as int == first_match(models(entries@), entry_named(name@)),
            None => first_match(models(entries@), entry_named(name@)) == -1,
        },
{
    let ghost s = models(entries@);
    let ghost p = entry_named(name@);
    proof {
        lemma_first_match(s, p);
    }
    let mut i: usize = 0;
    while i < entries.len()
        invariant
            s == models(entries@),
            p == entry_named(name@),
            i <= entries@.len(),
            forall|j: int| 0 <= j < i ==> !p(#[trigger] s[j]),
        decreases entries@.len() - i,
    {
        let hit = match &entries[i].monitor {
            Some(m) => *m == *name,
            None => false,
        };
        if hit {
            assert(is_first(s, p, i as int));
            return Some(i);
        }
        i = i + 1;
    }
    None
}

fn find_unassigned(entries: &Vec<WallpaperProfileEntry>) -> (r: Option<usize>)
    ensures
        match r {
            Some(k) => k as int == first_match(models(entries@), unassigned()),
            None => first_match(models(entries@), unassigned()) == -1,
        },
{
    let ghost s = models(entries@);
    let ghost p = unassigned();
    proof {
        lemma_first_match(s, p);
    }
    let mut i: usize = 0;
    while i < entries.len()
        invariant
            s == models(entries@),
            p == unassigned(),
            i <= entries@.len(),
            forall|j: int| 0 <= j < i ==> !p(#[trigger] s[j]),
        decreases entries@.len() - i,
    {
        if entries[i].monitor.is_none() {
            assert(is_first(s, p, i as int));
            return Some(i);
        }
        i = i + 1;
    }
    None
}

/// Everything the editor holds besides its widgets.
pub struct EditorSession {
    /// The monitors of the last reconciliation, in enumeration order.
    pub monitors: Vec<Monitor>,
    /// Saved entries of monitors that have no tab.
    pub saved_entries: Vec<WallpaperProfileEntry>,
    /// One tab per live monitor.
    pub tabs: Vec<MonitorTab>,
    pub active_tab: usize,
    pub status: Option<StatusBanner>,
    /// Whether player instances are believed to be running.
    pub wallpaper_running: bool,
}

pub open spec fn no_displays_text() -> Seq<char> {
    "No displays detected. Connect a monitor and try again."@
}

pub open spec fn ready_text() -> Seq<char> {
    "Ready. Configure each monitor and press Start when done."@
}

/// The banner a reconciliation leaves: an error when no display is
/// connected, else the ready notice.
pub open spec fn reconcile_status(status: Option<StatusBanner>, tab_count: nat) -> bool {
    status matches Some(b) && if tab_count == 0 {
        b.kind == StatusKind::Error && b.text@ == no_displays_text()
    } else {
        b.kind == StatusKind::Info && b.text@ == ready_text()
    }
}

impl EditorSession {
    /// The session before anything is known: no monitors, no entries, no
    /// players running.
    pub fn new() -> (r: Self)
        ensures
            r.monitors@.len() == 0,
            r.saved_entries@.len() == 0,
            r.tabs@.len() == 0,
            r.active_tab == 0,
            !r.wallpaper_running,
            r.status matches Some(b) && b.kind == StatusKind::Info && b.text@
                == "Gathering monitors..."@,
    {
        EditorSession {
            monitors: Vec::new(),
            saved_entries: Vec::new(),
            tabs: Vec::new(),
            active_tab: 0,
            status: Some(StatusBanner::info("Gathering monitors...".to_owned())),
            wallpaper_running: false,
        }
    }

    /// Rebuilds the tabs for the live `new_monitors`, keeping unsaved edits
    /// and the saved entries of monitors that are not connected.
    pub fn reconcile_monitors(&mut self, new_monitors: Vec<Monitor>)
        ensures
            monitors_view(final(self).monitors@) == monitors_view(new_monitors@),
            tabs_view(final(self).tabs@) == reconciled_tabs(
                tabs_view(old(self).tabs@),
                models(old(self).saved_entries@),
                monitors_view(new_monitors@),
            ),
            models(final(self).saved_entries@) == reconciled_saved(
                tabs_view(old(self).tabs@),
                models(old(self).saved_entries@),
                monitors_view(new_monitors@),
            ),
            final(self).active_tab == old(self).active_tab,
            final(self).wallpaper_running == old(self).wallpaper_running,
            reconcile_status(final(self).status, final(self).tabs@.len()),
    {
        let ghost mv = monitors_view(new_monitors@);
        let ghost start = start_pass(tabs_view(self.tabs@), models(self.saved_entries@));
        let mut remaining: Vec<WallpaperProfileEntry> = Vec::new();
        std::mem::swap(&mut remaining, &mut self.saved_entries);
        let mut fallback: Option<WallpaperProfileEntry> = None;
        proof {
            lemma_first_match(models(remaining@), unassigned());
        }
        match find_unassigned(&remaining) {
            Some(u) => {
                let d = remaining.remove(u);
                fallback = Some(d);
                assert(models(remaining@) =~= start.remaining);
            },
            None => {
                assert(models(remaining@) =~= start.remaining);
            },
        }
        assert(entry_opt_view(fallback) == start.donor);
        let mut existing: Vec<MonitorTab> = Vec::new();
        std::mem::swap(&mut existing, &mut self.tabs);
        let mut rebuilt: Vec<MonitorTab> = Vec::new();
        let mut i: usize = 0;
        assert(mv.subrange(0, 0) =~= Seq::<MonitorModel>::empty());
        assert(tabs_view(rebuilt@) =~= Seq::<TabModel>::empty());
        assert(tabs_view(existing@) == start.existing);
        assert(run_pass(start, mv.subrange(0, 0)) == start);
        while i < new_monitors.len()
            invariant
                mv == monitors_view(new_monitors@),
                i <= new_monitors@.len(),
                (Pass {
                    existing: tabs_view(existing@),
                    remaining: models(remaining@),
                    donor: entry_opt_view(fallback),
                    rebuilt: tabs_view(rebuilt@),
                }) == run_pass(start, mv.subrange(0, i as int)),
            decreases new_monitors@.len() - i,
        {
            let ghost st = run_pass(start, mv.subrange(0, i as int));
            assert(mv.subrange(0, i + 1).drop_last() =~= mv.subrange(0, i as int));
            let m = new_monitors[i].copied();
            proof {
                lemma_first_match(st.existing, tab_named(m.name@));
                lemma_first_match(st.remaining, entry_named(m.name@));
            }
            match find_tab(&existing, &m.name) {
                Some(pos) => {
                    let mut tab = existing.remove(pos);
                    assert(tabs_view(existing@) =~= st.existing.remove(pos as int));
                    match find_entry(&remaining, &m.name) {
                        Some(epos) => {
                            let entry = remaining.remove(epos);
                            assert(models(remaining@) =~= st.remaining.remove(epos as int));
                            if !tab.editor.is_dirty() {
                                tab.editor = MonitorEditor::new(Some(entry));
                            }
                        },
                        None => {},
                    }
                    tab.monitor = m;
                    rebuilt.push(tab);
                },
                None => {
                    match find_entry(&remaining, &m.name) {
                        Some(epos) => {
                            let entry = remaining.remove(epos);
                            assert(models(remaining@) =~= st.remaining.remove(epos as int));
                            rebuilt.push(
                                MonitorTab { monitor: m, editor: MonitorEditor::new(Some(entry)) },
                            );
                        },
                        None => {
                            match fallback.take() {
                                Some(d) => {
                                    rebuilt.push(
                                        MonitorTab {
                                            monitor: m,
                                            editor: MonitorEditor::new(Some(d)),
                                        },
                                    );
                                },
                                None => {
                                    let blank = WallpaperProfileEntry::placeholder(
                                        Some(m.name.clone()),
                                    );
                                    rebuilt.push(
                                        MonitorTab {
                                            monitor: m,
                                            editor: MonitorEditor::new(Some(blank)),
                                        },
                                    );
                                },
                            }
                        },
                    }
                },
            }
            i = i + 1;
            assert(tabs_view(rebuilt@) =~= run_pass(start, mv.subrange(0, i as int)).rebuilt);
        }
        assert(mv.subrange(0, new_monitors@.len() as int) =~= mv);
        match fallback {
            Some(d) => {
                remaining.push(d);
            },
            None => {},
        }
        assert(models(remaining@) =~= reconciled_saved(
            start.existing,
            models(old(self).saved_entries@),
            mv,
        ));
        self.saved_entries = remaining;
        self.monitors = new_monitors;
        let empty = rebuilt.len() == 0;
        self.tabs = rebuilt;
        if empty {
            self.status = Some(
                StatusBanner::error(
                    "No displays detected. Connect a monitor and try again.".to_owned(),
                ),
            );
        } else {
            self.status = Some(
                StatusBanner::info(
                    "Ready. Configure each monitor and press Start when done.".to_owned(),
                ),
            );
        }
    }
}

} // verus!
