//! The tab namer: its state, the events it is handed, and what it answers.
use crate::config::{configured_prefix, prefix_from_config};
use crate::pane::{spec_tab_name, tab_name, PaneInfo, TabPanes};
use std::collections::BTreeMap;
use vstd::prelude::*;

verus! {

/// The single character emitted on render: the host treats an empty render as
/// a failed plugin, and a blank braille cell shows nothing.
pub const PLACEHOLDER: &'static str = "\u{2800}";

/// A request that the host give tab `tab` the name `name`.
pub struct RenameTab {
    pub tab: u32,
    pub name: String,
}

impl View for RenameTab {
    type V = (u32, Seq<char>);

    open spec fn view(&self) -> (u32, Seq<char>) {
        (self.tab, self.name@)
    }
}

/// An event from the host, reduced to what the namer reads.
pub enum Event {
    /// The panes of each tab, one entry per tab.
    PaneUpdate(Vec<TabPanes>),
    /// Any other event; it is ignored.
    Other,
}

/// What handling one event asks of the host.
pub struct UpdateOutcome {
    /// Whether the plugin should be rendered again.
    pub render: bool,
    /// The tabs to rename, in the order they were decided.
    pub renames: Vec<RenameTab>,
}

/// The abstract state of a namer.
pub struct NamerState {
    pub prefix: Seq<char>,
    /// Whether a rename is skipped when the tab already carries that name.
    pub dedup: bool,
    /// The last name requested for each tab.
    pub names: Map<u32, Seq<char>>,
}

/// Keeps tab names in line with the titles of their focused panes.
pub struct TabNamer {
    prefix: String,
    dedup: bool,
    last_tab_names: BTreeMap<u32, String>,
}

impl View for TabNamer {
    type V = NamerState;

    closed spec fn view(&self) -> NamerState {
        NamerState {
            prefix: self.prefix@,
            dedup: self.dedup,
            names: self.last_tab_names@.map_values(|s: String| s@),
        }
    }
}

/// The views of a list of rename requests.
pub open spec fn renames_view(r: Seq<RenameTab>) -> Seq<(u32, Seq<char>)> {
    r.map_values(|x: RenameTab| x@)
}

/// Handling one tab of a snapshot: the new state and the renames it asks for.
pub open spec fn tab_step(s: NamerState, tab: u32, panes: Seq<PaneInfo>) -> (NamerState, Seq<(u32, Seq<char>)>) {
    match spec_tab_name(s.prefix, panes) {
        None => (s, Seq::empty()),
        Some(name) => if s.dedup && s.names.contains_key(tab) && s.names[tab] == name {
            (s, Seq::empty())
        } else {
            (NamerState { names: s.names.insert(tab, name), ..s }, seq![(tab, name)])
        },
    }
}

/// Handling the tabs of a snapshot one after the other, in the order given.
pub open spec fn apply_tabs(s: NamerState, tabs: Seq<TabPanes>) -> (NamerState, Seq<(u32, Seq<char>)>)
    decreases tabs.len(),
{
    if tabs.len() == 0 {
        (s, Seq::empty())
    } else {
        let (s1, r1) = apply_tabs(s, tabs.drop_last());
        let (s2, r2) = tab_step(s1, tabs.last().tab, tabs.last().panes@);
        (s2, r1 + r2)
    }
}

impl TabNamer {
    /// A namer with the given prefix and no tab names recorded yet.
    pub fn new(prefix: String, dedup: bool) -> (r: TabNamer)
        ensures
            r@.prefix == prefix@,
            r@.dedup == dedup,
            r@.names == Map::<u32, Seq<char>>::empty(),
    {
        let r = TabNamer { prefix, dedup, last_tab_names: BTreeMap::new() };
        assert(r@.names =~= Map::<u32, Seq<char>>::empty());
        r
    }

    /// A namer whose prefix comes from the configuration's `prefix` option,
    /// or is the default when the option is absent.
    pub fn load(config: &BTreeMap<String, String>, dedup: bool) -> (r: TabNamer)
        ensures
            r@.prefix == configured_prefix(config.deep_view()),
            r@.dedup == dedup,
            r@.names == Map::<u32, Seq<char>>::empty(),
    {
        TabNamer::new(prefix_from_config(config), dedup)
    }

    /// Handles one host event. A pane update renames each tab whose focused
    /// pane has a non-empty title, unless de-duplication is on and the tab
    /// already carries that name; it always asks for a render. Other events
    /// change nothing and ask for no render.
    pub fn update(&mut self, event: &Event) -> (r: UpdateOutcome)
        ensures
            match event {
                Event::PaneUpdate(tabs) => {
                    &&& final(self)@ == apply_tabs(old(self)@, tabs@).0
                    &&& renames_view(r.renames@) == apply_tabs(old(self)@, tabs@).1
                    &&& r.render
                },
                Event::Other => {
                    &&& final(self)@ == old(self)@
                    &&& r.renames@.len() == 0
                    &&& !r.render
                },
            },
    {
        match event {
            Event::PaneUpdate(tabs) => {
                let ghost s0 = self@;
                let mut renames: Vec<RenameTab> = Vec::new();
                let mut k: usize = 0;
                while k < tabs.len()
                    invariant
                        0 <= k <= tabs.len(),
                        self@ == apply_tabs(s0, tabs@.take(k as int)).0,
                        renames_view(renames@) == apply_tabs(s0, tabs@.take(k as int)).1,
                    decreases tabs.len() - k,
                {
                    let ghost before = self@;
                    let ghost before_renames = renames_view(renames@);
                    assert(tabs@.take(k + 1).drop_last() =~= tabs@.take(k as int));
                    let t = &tabs[k];
                    match tab_name(&self.prefix, &t.panes) {
                        None => {
                            assert(before_renames + Seq::<(u32, Seq<char>)>::empty() =~= before_renames);
                        },
                        Some(name) => {
                            let unchanged = match self.last_tab_names.get(&t.tab) {
                                Some(prev) => self.dedup && *prev == name,
                                None => false,
                            };
                            if unchanged {
                                assert(before_renames + Seq::<(u32, Seq<char>)>::empty() =~= before_renames);
                            } else {
                                renames.push(RenameTab { tab: t.tab, name: name.clone() });
                                self.last_tab_names.insert(t.tab, name);
                                assert(self@.names =~= before.names.insert(t.tab, name@));
                                assert(renames_view(renames@) =~= before_renames + seq![(t.tab, name@)]);
                            }
                        },
                    }
                    k = k + 1;
                }
                assert(tabs@.take(tabs@.len() as int) =~= tabs@);
                UpdateOutcome { render: true, renames }
            },
            Event::Other => UpdateOutcome { render: false, renames: Vec::new() },
        }
    }

    /// The prefix put before each pane title.
    pub fn prefix(&self) -> (r: &str)
        ensures
            r@ == self@.prefix,
    {
        self.prefix.as_str()
    }

    /// Whether renames to the name a tab already has are skipped.
    pub fn dedup(&self) -> (r: bool)
        ensures
            r == self@.dedup,
    {
        self.dedup
    }

    /// The last name requested for tab `tab`, if any.
    pub fn last_name(&self, tab: u32) -> (r: Option<String>)
        ensures
            match r {
                Some(name) => self@.names.contains_key(tab) && self@.names[tab] == name@,
                None => !self@.names.contains_key(tab),
            },
    {
        match self.last_tab_names.get(&tab) {
            Some(name) => Some(name.clone()),
            None => None,
        }
    }

    /// Renders the plugin: one invisible character, whatever the size.
    pub fn render(&self, rows: usize, cols: usize) -> (r: String)
        ensures
            r@ == PLACEHOLDER@,
    {
        String::from_str(PLACEHOLDER)
    }
}

} // verus!
