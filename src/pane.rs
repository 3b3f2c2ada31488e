//! What one snapshot of the host's panes says about the name a tab should have.
use vstd::prelude::*;

verus! {

/// One pane of a tab, as the host reports it.
pub struct PaneInfo {
    pub is_focused: bool,
    pub title: String,
}

/// The panes of one tab, in the order the host lists them.
pub struct TabPanes {
    pub tab: u32,
    pub panes: Vec<PaneInfo>,
}

/// The first pane of the list whose focus flag is set.
pub open spec fn first_focused(panes: Seq<PaneInfo>) -> Option<PaneInfo>
    decreases panes.len(),
{
    if panes.len() == 0 {
        None
    } else if panes[0].is_focused {
        Some(panes[0])
    } else {
        first_focused(panes.drop_first())
    }
}

/// The name a tab should carry: the prefix followed by the title of its first
/// focused pane, or nothing when no pane is focused or that title is empty.
pub open spec fn spec_tab_name(prefix: Seq<char>, panes: Seq<PaneInfo>) -> Option<Seq<char>> {
    match first_focused(panes) {
        None => None,
        Some(p) => if p.title@.len() == 0 {
            None
        } else {
            Some(prefix + p.title@)
        },
    }
}

proof fn lemma_first_focused_at(panes: Seq<PaneInfo>, i: int)
    requires
        0 <= i < panes.len(),
        panes[i].is_focused,
        forall|j: int| 0 <= j < i ==> !(#[trigger] panes[j]).is_focused,
    ensures
        first_focused(panes) == Some(panes[i]),
    decreases i,
{
    if i > 0 {
        let rest = panes.drop_first();
        assert forall|j: int| 0 <= j < i - 1 implies !(#[trigger] rest[j]).is_focused by {
            assert(rest[j] == panes[j + 1]);
        }
        lemma_first_focused_at(rest, i - 1);
    }
}

proof fn lemma_first_focused_none(panes: Seq<PaneInfo>)
    requires
        forall|j: int| 0 <= j < panes.len() ==> !(#[trigger] panes[j]).is_focused,
    ensures
        first_focused(panes) is None,
    decreases panes.len(),
{
    if panes.len() > 0 {
        let rest = panes.drop_first();
        assert forall|j: int| 0 <= j < rest.len() implies !(#[trigger] rest[j]).is_focused by {
            assert(rest[j] == panes[j + 1]);
        }
        lemma_first_focused_none(rest);
    }
}

/// Computes the name a tab should carry under the given prefix, if any.
pub fn tab_name(prefix: &String, panes: &Vec<PaneInfo>) -> (r: Option<String>)
    ensures
        match r {
            Some(name) => spec_tab_name(prefix@, panes@) == Some(name@),
            None => spec_tab_name(prefix@, panes@) is None,
        },
{
    let mut i: usize = 0;
    while i < panes.len()
        invariant
            0 <= i <= panes.len(),
            forall|j: int| 0 <= j < i ==> !(#[trigger] panes@[j]).is_focused,
        decreases panes.len() - i,
    {
        let pane = &panes[i];
        if pane.is_focused {
            proof {
                lemma_first_focused_at(panes@, i as int);
            }
            if pane.title.as_str().is_empty() {
                return None;
            }
            let mut name = prefix.clone();
            name.append(pane.title.as_str());
            return Some(name);
        }
        i = i + 1;
    }
    proof {
        lemma_first_focused_none(panes@);
    }
    None
}

} // verus!
