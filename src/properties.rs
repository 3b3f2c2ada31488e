//! What handling a pane snapshot guarantees, tab by tab.
use crate::namer::{apply_tabs, tab_step, NamerState};
use crate::pane::{first_focused, spec_tab_name, PaneInfo, TabPanes};
use vstd::prelude::*;

verus! {

/// No two entries of a snapshot are for the same tab: the host reports the
/// panes as a map from tab to panes.
pub open spec fn tabs_distinct(tabs: Seq<TabPanes>) -> bool {
    forall|i: int, j: int| 0 <= i < j < tabs.len() ==> tabs[i].tab != tabs[j].tab
}

/// The name stored for tab `tab`, if any.
pub open spec fn stored(names: Map<u32, Seq<char>>, tab: u32) -> Option<Seq<char>> {
    if names.contains_key(tab) {
        Some(names[tab])
    } else {
        None
    }
}

/// The names requested for tab `tab`, in order.
pub open spec fn names_sent_to(reqs: Seq<(u32, Seq<char>)>, tab: u32) -> Seq<Seq<char>>
    decreases reqs.len(),
{
    if reqs.len() == 0 {
        Seq::empty()
    } else {
        let rest = names_sent_to(reqs.drop_last(), tab);
        if reqs.last().0 == tab {
            rest.push(reqs.last().1)
        } else {
            rest
        }
    }
}

proof fn lemma_sent_append(a: Seq<(u32, Seq<char>)>, b: Seq<(u32, Seq<char>)>, tab: u32)
    ensures
        names_sent_to(a + b, tab) == names_sent_to(a, tab) + names_sent_to(b, tab),
    decreases b.len(),
{
    if b.len() == 0 {
        assert(a + b =~= a);
        assert(names_sent_to(a, tab) + names_sent_to(b, tab) =~= names_sent_to(a, tab));
    } else {
        assert((a + b).drop_last() =~= a + b.drop_last());
        lemma_sent_append(a, b.drop_last(), tab);
        let x = names_sent_to(a, tab);
        let y = names_sent_to(b.drop_last(), tab);
        assert((x + y).push(b.last().1) =~= x + y.push(b.last().1));
    }
}

proof fn lemma_sent_one(x: (u32, Seq<char>), tab: u32)
    ensures
        names_sent_to(seq![x], tab) == if x.0 == tab {
            seq![x.1]
        } else {
            Seq::<Seq<char>>::empty()
        },
{
    let one = seq![x];
    assert(one.len() == 1 && one.last() == x);
    assert(one.drop_last() =~= Seq::<(u32, Seq<char>)>::empty());
    assert(names_sent_to(one.drop_last(), tab) == Seq::<Seq<char>>::empty());
    assert(Seq::<Seq<char>>::empty().push(x.1) =~= seq![x.1]);
}

/// One tab's step touches no other tab and keeps prefix and mode.
proof fn lemma_step_elsewhere(s: NamerState, tab: u32, panes: Seq<PaneInfo>, other: u32)
    requires
        other != tab,
    ensures
        ({
            let (s1, r1) = tab_step(s, tab, panes);
            &&& s1.prefix == s.prefix
            &&& s1.dedup == s.dedup
            &&& stored(s1.names, other) == stored(s.names, other)
            &&& names_sent_to(r1, other) == Seq::<Seq<char>>::empty()
        }),
{
    if let Some(name) = spec_tab_name(s.prefix, panes) {
        lemma_sent_one((tab, name), other);
    }
}

proof fn lemma_apply_keeps_settings(s: NamerState, tabs: Seq<TabPanes>)
    ensures
        apply_tabs(s, tabs).0.prefix == s.prefix,
        apply_tabs(s, tabs).0.dedup == s.dedup,
    decreases tabs.len(),
{
    if tabs.len() > 0 {
        lemma_apply_keeps_settings(s, tabs.drop_last());
    }
}

/// A tab that the snapshot does not list is left alone.
proof fn lemma_apply_absent(s: NamerState, tabs: Seq<TabPanes>, tab: u32)
    requires
        forall|i: int| 0 <= i < tabs.len() ==> (#[trigger] tabs[i]).tab != tab,
    ensures
        ({
            let (s2, r2) = apply_tabs(s, tabs);
            &&& stored(s2.names, tab) == stored(s.names, tab)
            &&& names_sent_to(r2, tab) == Seq::<Seq<char>>::empty()
        }),
    decreases tabs.len(),
{
    if tabs.len() > 0 {
        let pre = tabs.drop_last();
        assert forall|i: int| 0 <= i < pre.len() implies (#[trigger] pre[i]).tab != tab by {
            assert(pre[i] == tabs[i]);
        }
        lemma_apply_absent(s, pre, tab);
        let (sp, rp) = apply_tabs(s, pre);
        let last = tabs.last();
        assert(last == tabs[tabs.len() - 1]);
        lemma_step_elsewhere(sp, last.tab, last.panes@, tab);
        let (s2, r2) = tab_step(sp, last.tab, last.panes@);
        lemma_sent_append(rp, r2, tab);
        assert(Seq::<Seq<char>>::empty() + Seq::<Seq<char>>::empty() =~= Seq::<Seq<char>>::empty());
    }
}

/// In a snapshot without repeated tabs, what happens to a listed tab is what
/// its own step would do on the state before the snapshot.
proof fn lemma_apply_member(s: NamerState, tabs: Seq<TabPanes>, i: int)
    requires
        tabs_distinct(tabs),
        0 <= i < tabs.len(),
    ensures
        ({
            let tab = tabs[i].tab;
            let (s2, r2) = apply_tabs(s, tabs);
            let (s1, r1) = tab_step(s, tab, tabs[i].panes@);
            &&& stored(s2.names, tab) == stored(s1.names, tab)
            &&& names_sent_to(r2, tab) == names_sent_to(r1, tab)
        }),
    decreases tabs.len(),
{
    let tab = tabs[i].tab;
    let n = tabs.len() - 1;
    let pre = tabs.drop_last();
    let (sp, rp) = apply_tabs(s, pre);
    let last = tabs.last();
    assert(last == tabs[n]);
    let (s2, r2) = tab_step(sp, last.tab, last.panes@);
    lemma_sent_append(rp, r2, tab);
    if i == n {
        assert forall|j: int| 0 <= j < pre.len() implies (#[trigger] pre[j]).tab != tab by {
            assert(pre[j] == tabs[j]);
        }
        lemma_apply_absent(s, pre, tab);
        lemma_apply_keeps_settings(s, pre);
        assert(Seq::<Seq<char>>::empty() + names_sent_to(r2, tab) =~= names_sent_to(r2, tab));
    } else {
        assert(pre[i] == tabs[i]);
        lemma_apply_member(s, pre, i);
        lemma_step_elsewhere(sp, last.tab, last.panes@, tab);
        assert(names_sent_to(rp, tab) + Seq::<Seq<char>>::empty() =~= names_sent_to(rp, tab));
    }
}

/// A tab none of whose panes is focused gets no rename, and its stored name
/// stays as it was.
pub proof fn lemma_unfocused_tab_untouched(s: NamerState, tabs: Seq<TabPanes>, i: int)
    requires
        tabs_distinct(tabs),
        0 <= i < tabs.len(),
        first_focused(tabs[i].panes@) is None,
    ensures
        ({
            let tab = tabs[i].tab;
            let (s2, r2) = apply_tabs(s, tabs);
            &&& names_sent_to(r2, tab) == Seq::<Seq<char>>::empty()
            &&& stored(s2.names, tab) == stored(s.names, tab)
        }),
{
    lemma_apply_member(s, tabs, i);
}

/// A tab whose focused pane has an empty title gets no rename, and its stored
/// name stays as it was.
pub proof fn lemma_untitled_tab_untouched(s: NamerState, tabs: Seq<TabPanes>, i: int)
    requires
        tabs_distinct(tabs),
        0 <= i < tabs.len(),
        first_focused(tabs[i].panes@) matches Some(p) && p.title@.len() == 0,
    ensures
        ({
            let tab = tabs[i].tab;
            let (s2, r2) = apply_tabs(s, tabs);
            &&& names_sent_to(r2, tab) == Seq::<Seq<char>>::empty()
            &&& stored(s2.names, tab) == stored(s.names, tab)
        }),
{
    lemma_apply_member(s, tabs, i);
}

/// A tab whose focused pane has the non-empty title `T` is named exactly
/// prefix + `T`: that is the one name sent to it, and the name stored for it.
/// Only when de-duplication is on and the tab already has that name is
/// nothing sent.
pub proof fn lemma_focused_tab_named(s: NamerState, tabs: Seq<TabPanes>, i: int)
    requires
        tabs_distinct(tabs),
        0 <= i < tabs.len(),
        first_focused(tabs[i].panes@) matches Some(p) && p.title@.len() > 0,
    ensures
        ({
            let tab = tabs[i].tab;
            let name = s.prefix + first_focused(tabs[i].panes@)->Some_0.title@;
            let (s2, r2) = apply_tabs(s, tabs);
            &&& stored(s2.names, tab) == Some(name)
            &&& names_sent_to(r2, tab) == if s.dedup && stored(s.names, tab) == Some(name) {
                Seq::<Seq<char>>::empty()
            } else {
                seq![name]
            }
        }),
{
    lemma_apply_member(s, tabs, i);
    let tab = tabs[i].tab;
    let name = s.prefix + first_focused(tabs[i].panes@)->Some_0.title@;
    lemma_sent_one((tab, name), tab);
}

/// After a snapshot every listed tab that has a name to take holds it.
proof fn lemma_apply_names_all(s: NamerState, tabs: Seq<TabPanes>)
    requires
        tabs_distinct(tabs),
    ensures
        forall|j: int| 0 <= j < tabs.len() ==> {
            let s2 = apply_tabs(s, tabs).0;
            match spec_tab_name(s.prefix, (#[trigger] tabs[j]).panes@) {
                Some(name) => stored(s2.names, tabs[j].tab) == Some(name),
                None => true,
            }
        },
{
    assert forall|j: int| 0 <= j < tabs.len() implies {
        let s2 = apply_tabs(s, tabs).0;
        match spec_tab_name(s.prefix, (#[trigger] tabs[j]).panes@) {
            Some(name) => stored(s2.names, tabs[j].tab) == Some(name),
            None => true,
        }
    } by {
        lemma_apply_member(s, tabs, j);
    }
}

/// With de-duplication on, a state in which every tab already holds its name
/// is left as it is, and nothing is sent.
proof fn lemma_apply_settled(s: NamerState, tabs: Seq<TabPanes>)
    requires
        s.dedup,
        forall|j: int| 0 <= j < tabs.len() ==> match spec_tab_name(s.prefix, (#[trigger] tabs[j]).panes@) {
            Some(name) => stored(s.names, tabs[j].tab) == Some(name),
            None => true,
        },
    ensures
        apply_tabs(s, tabs).0 == s,
        apply_tabs(s, tabs).1.len() == 0,
    decreases tabs.len(),
{
    if tabs.len() > 0 {
        let pre = tabs.drop_last();
        assert forall|j: int| 0 <= j < pre.len() implies match spec_tab_name(s.prefix, (#[trigger] pre[j]).panes@) {
            Some(name) => stored(s.names, pre[j].tab) == Some(name),
            None => true,
        } by {
            assert(pre[j] == tabs[j]);
        }
        lemma_apply_settled(s, pre);
        assert(tabs.last() == tabs[tabs.len() - 1]);
    }
}

/// With de-duplication on, handing the same snapshot over a second time
/// changes nothing and sends no rename: every name the second pass would
/// request was already requested by the first.
pub proof fn lemma_repeat_snapshot_quiet(s: NamerState, tabs: Seq<TabPanes>)
    requires
        s.dedup,
        tabs_distinct(tabs),
    ensures
        ({
            let s1 = apply_tabs(s, tabs).0;
            &&& apply_tabs(s1, tabs).0 == s1
            &&& apply_tabs(s1, tabs).1 == Seq::<(u32, Seq<char>)>::empty()
        }),
{
    let s1 = apply_tabs(s, tabs).0;
    lemma_apply_keeps_settings(s, tabs);
    lemma_apply_names_all(s, tabs);
    lemma_apply_settled(s1, tabs);
    assert(apply_tabs(s1, tabs).1 =~= Seq::<(u32, Seq<char>)>::empty());
}

} // verus!
