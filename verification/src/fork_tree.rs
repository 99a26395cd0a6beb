//! The fork tree: a rebuildable map from parent session id to the sessions
//! forked from it, one level deep per lookup.

use vstd::prelude::*;
use crate::session::{Session, SessionView};
use crate::catalog::{sort_sessions_by_modified_desc, sorted_by_modified_desc};
use crate::text::str_eq;

verus! {

broadcast use vstd::seq_lib::group_to_multiset_ensures;

/// One parent id and the sessions forked from it.
#[derive(Debug)]
struct ForkEntry {
    parent_id: String,
    children: Vec<Session>,
}

struct ForkEntryView {
    parent_id: Seq<char>,
    children: Seq<SessionView>,
}

impl DeepView for ForkEntry {
    type V = ForkEntryView;

    closed spec fn deep_view(&self) -> ForkEntryView {
        ForkEntryView {
            parent_id: self.parent_id.deep_view(),
            children: self.children.deep_view(),
        }
    }
}

/// Map from parent session id to the list of sessions whose fork parent it
/// is, each child list sorted by modified descending.
#[derive(Debug)]
pub struct ForkTree {
    entries: Vec<ForkEntry>,
}

spec fn lookup_entries(entries: Seq<ForkEntryView>, id: Seq<char>) -> Option<Seq<SessionView>>
    decreases entries.len(),
{
    if entries.len() == 0 {
        None
    } else if entries[0].parent_id == id {
        Some(entries[0].children)
    } else {
        lookup_entries(entries.skip(1), id)
    }
}

proof fn lemma_lookup_push(entries: Seq<ForkEntryView>, e: ForkEntryView, id: Seq<char>)
    ensures
        lookup_entries(entries.push(e), id) == (match lookup_entries(entries, id) {
            Some(ch) => Some(ch),
            None => if e.parent_id == id {
                Some(e.children)
            } else {
                None
            },
        }),
    decreases entries.len(),
{
    if entries.len() == 0 {
        assert(entries.push(e).len() == 1);
        assert(entries.push(e)[0] == e);
        assert(entries.push(e).skip(1) =~= Seq::<ForkEntryView>::empty());
        assert(lookup_entries(entries, id) is None);
        if e.parent_id == id {
            assert(lookup_entries(entries.push(e), id) == Some(e.children));
        } else {
            assert(lookup_entries(entries.push(e).skip(1), id) is None);
            assert(lookup_entries(entries.push(e), id) is None);
        }
    } else {
        assert(entries.push(e)[0] == entries[0]);
        assert(entries.push(e).skip(1) =~= entries.skip(1).push(e));
        lemma_lookup_push(entries.skip(1), e, id);
        if entries[0].parent_id == id {
            assert(lookup_entries(entries, id) == Some(entries[0].children));
            assert(lookup_entries(entries.push(e), id) == Some(entries[0].children));
        } else {
            assert(lookup_entries(entries, id) == lookup_entries(entries.skip(1), id));
            assert(lookup_entries(entries.push(e), id) == lookup_entries(
                entries.skip(1).push(e),
                id,
            ));
        }
    }
}

proof fn lemma_lookup_update(entries: Seq<ForkEntryView>, j: int, e: ForkEntryView, id: Seq<char>)
    requires
        0 <= j < entries.len(),
        entries[j].parent_id == e.parent_id,
        forall|k: int| 0 <= k < j ==> entries[k].parent_id != e.parent_id,
    ensures
        e.parent_id == id ==> lookup_entries(entries.update(j, e), id) == Some(e.children),
        e.parent_id != id ==> lookup_entries(entries.update(j, e), id) == lookup_entries(
            entries,
            id,
        ),
    decreases entries.len(),
{
    if j == 0 {
        assert(entries.update(0, e)[0] == e);
        assert(entries.update(0, e).skip(1) =~= entries.skip(1));
    } else {
        assert(entries.update(j, e)[0] == entries[0]);
        assert(entries.update(j, e).skip(1) =~= entries.skip(1).update(j - 1, e));
        assert(forall|k: int|
            0 <= k < j - 1 ==> entries.skip(1)[k] == entries[k + 1]);
        lemma_lookup_update(entries.skip(1), j - 1, e, id);
    }
}

proof fn lemma_lookup_absent(entries: Seq<ForkEntryView>, id: Seq<char>)
    requires
        forall|k: int| 0 <= k < entries.len() ==> (#[trigger] entries[k]).parent_id != id,
    ensures
        lookup_entries(entries, id) is None,
    decreases entries.len(),
{
    if entries.len() > 0 {
        assert(forall|k: int|
            0 <= k < entries.len() - 1 ==> #[trigger] entries.skip(1)[k] == entries[k + 1]);
        lemma_lookup_absent(entries.skip(1), id);
    }
}

spec fn opt_children(o: Option<Seq<SessionView>>) -> Seq<SessionView> {
    match o {
        Some(c) => c,
        None => Seq::empty(),
    }
}

/// Whether any session was forked from `id`.
pub closed spec fn spec_has_children(t: ForkTree, id: Seq<char>) -> bool {
    lookup_entries(t.entries.deep_view(), id) is Some
}

/// The sessions forked from `id`, empty when there are none.
pub closed spec fn spec_children_of(t: ForkTree, id: Seq<char>) -> Seq<SessionView> {
    match lookup_entries(t.entries.deep_view(), id) {
        Some(ch) => ch,
        None => Seq::empty(),
    }
}

/// The sessions of `ss` whose fork parent is `id`, in order.
pub open spec fn children_filter(ss: Seq<SessionView>, id: Seq<char>) -> Seq<SessionView> {
    ss.filter(|s: SessionView| s.forked_from == Some(id))
}

impl ForkTree {
    /// Whether any session was forked from `parent_id`.
    pub fn contains_key(&self, parent_id: &str) -> (r: bool)
        ensures
            r == spec_has_children(*self, parent_id@),
    {
        let ghost ev = self.entries.deep_view();
        let n = self.entries.len();
        let mut i: usize = 0;
        proof {
            assert(ev.skip(0) =~= ev);
        }
        while i < n
            invariant
                n == self.entries@.len(),
                ev == self.entries.deep_view(),
                ev.len() == n,
                i <= n,
                lookup_entries(ev, parent_id@) == lookup_entries(ev.skip(i as int), parent_id@),
            decreases n - i,
        {
            proof {
                assert(ev.skip(i as int)[0] == ev[i as int]);
                assert(ev.skip(i as int).skip(1) =~= ev.skip(i + 1));
                assert(ev[i as int].parent_id == self.entries@[i as int].parent_id@);
            }
            if str_eq(self.entries[i].parent_id.as_str(), parent_id) {
                return true;
            }
            i = i + 1;
        }
        proof {
            assert(ev.skip(n as int) =~= Seq::<ForkEntryView>::empty());
        }
        false
    }

    /// The sessions forked from `parent_id`, if any.
    pub fn get(&self, parent_id: &str) -> (r: Option<&Vec<Session>>)
        ensures
            r is Some <==> spec_has_children(*self, parent_id@),
            r matches Some(v) ==> v.deep_view() == spec_children_of(*self, parent_id@),
    {
        let ghost ev = self.entries.deep_view();
        let n = self.entries.len();
        let mut i: usize = 0;
        proof {
            assert(ev.skip(0) =~= ev);
        }
        while i < n
            invariant
                n == self.entries@.len(),
                ev == self.entries.deep_view(),
                ev.len() == n,
                i <= n,
                lookup_entries(ev, parent_id@) == lookup_entries(ev.skip(i as int), parent_id@),
            decreases n - i,
        {
            proof {
                assert(ev.skip(i as int)[0] == ev[i as int]);
                assert(ev.skip(i as int).skip(1) =~= ev.skip(i + 1));
                assert(ev[i as int].parent_id == self.entries@[i as int].parent_id@);
            }
            if str_eq(self.entries[i].parent_id.as_str(), parent_id) {
                proof {
                    assert(self.entries@[i as int].children.deep_view()
                        == ev[i as int].children);
                }
                return Some(&self.entries[i].children);
            }
            i = i + 1;
        }
        proof {
            assert(ev.skip(n as int) =~= Seq::<ForkEntryView>::empty());
        }
        None
    }
}

/// Build the map from parent session id to the sessions forked from it:
/// an id has an entry exactly when some session names it as fork parent;
/// each entry holds exactly those sessions, sorted by modified descending.
pub fn build_fork_tree(sessions: &Vec<Session>) -> (r: ForkTree)
    ensures
        forall|id: Seq<char>|
            spec_has_children(r, id) <==> children_filter(
                sessions.deep_view(),
                id,
            ).len() > 0,
        forall|id: Seq<char>|
            #[trigger] spec_children_of(r, id).to_multiset() == children_filter(
                sessions.deep_view(),
                id,
            ).to_multiset(),
        forall|id: Seq<char>| sorted_by_modified_desc(#[trigger] spec_children_of(r, id)),
{
    let ghost sv = sessions.deep_view();
    let n = sessions.len();
    let mut entries: Vec<ForkEntry> = Vec::new();
    let mut i: usize = 0;
    proof {
        assert(entries.deep_view() =~~= Seq::<ForkEntryView>::empty());
        assert forall|id: Seq<char>| #[trigger] children_filter(sv.take(0), id) =~= Seq::empty() by {
            reveal(Seq::filter);
            assert(sv.take(0) =~= Seq::<SessionView>::empty());
        }
    }
    while i < n
        invariant
            n == sessions@.len(),
            sv == sessions.deep_view(),
            sv.len() == n,
            i <= n,
            forall|j: int, k: int|
                0 <= j < k < entries.deep_view().len() ==> entries.deep_view()[j].parent_id
                    != entries.deep_view()[k].parent_id,
            forall|j: int|
                0 <= j < entries.deep_view().len() ==> (#[trigger] entries.deep_view()[j]).children
                    == children_filter(sv.take(i as int), entries.deep_view()[j].parent_id),
            forall|id: Seq<char>|
                lookup_entries(entries.deep_view(), id) is Some <==> #[trigger] children_filter(
                    sv.take(i as int),
                    id,
                ).len() > 0,
        decreases n - i,
    {
        let ghost ev0 = entries.deep_view();
        let s = &sessions[i];
        proof {
            assert(sv[i as int] == sessions@[i as int].deep_view());
            assert(sv.take(i + 1).drop_last() =~= sv.take(i as int));
            assert(sv.take(i + 1).last() == sv[i as int]);
            reveal(Seq::filter);
        }
        match &s.forked_from {
            Some(parent) => {
                let ghost pv = parent@;
                proof {
                    assert(sv[i as int].forked_from == Some(pv));
                    assert forall|id: Seq<char>| id != pv implies #[trigger] children_filter(
                        sv.take(i + 1),
                        id,
                    ) == children_filter(sv.take(i as int), id) by {
                        reveal(Seq::filter);
                    }
                    assert(children_filter(sv.take(i + 1), pv) == children_filter(
                        sv.take(i as int),
                        pv,
                    ).push(sv[i as int])) by {
                        reveal(Seq::filter);
                    }
                }
                // find the entry for this parent, if any
                let m = entries.len();
                let mut j: usize = 0;
                let mut found = false;
                while j < m && !found
                    invariant
                        m == entries@.len(),
                        ev0 == entries.deep_view(),
                        j <= m,
                        !found ==> forall|k: int|
                            0 <= k < j ==> ev0[k].parent_id != pv,
                        found ==> j < m && ev0[j as int].parent_id == pv && forall|k: int|
                            0 <= k < j ==> ev0[k].parent_id != pv,
                        pv == parent@,
                    decreases m - j + (if found { 0int } else { 1int }),
                {
                    proof {
                        assert(ev0[j as int].parent_id == entries@[j as int].parent_id@);
                    }
                    if str_eq(entries[j].parent_id.as_str(), parent.as_str()) {
                        found = true;
                    } else {
                        j = j + 1;
                    }
                }
                if found {
                    let mut entry = entries.remove(j);
                    entry.children.push(s.duplicate());
                    entries.insert(j, entry);
                    proof {
                        let e_new = entries.deep_view()[j as int];
                        assert(entries.deep_view() =~~= ev0.update(j as int, e_new));
                        assert(e_new.parent_id == pv);
                        assert(e_new.children =~= ev0[j as int].children.push(sv[i as int]));
                        lemma_lookup_update(ev0, j as int, e_new, pv);
                        assert forall|id: Seq<char>| id != pv implies lookup_entries(
                            entries.deep_view(),
                            id,
                        ) == lookup_entries(ev0, id) by {
                            lemma_lookup_update(ev0, j as int, e_new, id);
                        }
                    }
                } else {
                    let mut children: Vec<Session> = Vec::new();
                    children.push(s.duplicate());
                    entries.push(ForkEntry { parent_id: parent.clone(), children });
                    proof {
                        let e_new = entries.deep_view()[ev0.len() as int];
                        assert(entries.deep_view() =~~= ev0.push(e_new));
                        assert(e_new.parent_id == pv);
                        assert(e_new.children =~= seq![sv[i as int]]);
                        lemma_lookup_absent(ev0, pv);
                        assert(children_filter(sv.take(i as int), pv).len() == 0);
                        assert(children_filter(sv.take(i + 1), pv) =~= seq![sv[i as int]]);
                        assert forall|id: Seq<char>| true implies lookup_entries(
                            #[trigger] entries.deep_view(),
                            id,
                        ) == (match lookup_entries(ev0, id) {
                            Some(ch) => Some(ch),
                            None => if id == pv {
                                Some(e_new.children)
                            } else {
                                None
                            },
                        }) by {
                            lemma_lookup_push(ev0, e_new, id);
                        }
                    }
                }
            },
            None => {
                proof {
                    assert(sv[i as int].forked_from is None);
                    assert forall|id: Seq<char>| true implies #[trigger] children_filter(
                        sv.take(i + 1),
                        id,
                    ) == children_filter(sv.take(i as int), id) by {
                        reveal(Seq::filter);
                    }
                }
            },
        }
        i = i + 1;
    }
    proof {
        assert(sv.take(n as int) =~= sv);
    }
    // sort each child list by modified, most recent first
    let ghost ev_built = entries.deep_view();
    let m = entries.len();
    let mut rest = entries;
    let mut sorted: Vec<ForkEntry> = Vec::new();
    let mut j: usize = 0;
    proof {
        assert(sorted.deep_view() =~~= Seq::<ForkEntryView>::empty());
        assert(rest.deep_view() =~~= ev_built.subrange(0, m as int));
    }
    while j < m
        invariant
            ev_built.len() == m,
            j <= m,
            rest@.len() == m - j,
            rest.deep_view() == ev_built.subrange(j as int, m as int),
            sorted.deep_view().len() == j,
            forall|k: int|
                0 <= k < j ==> (#[trigger] sorted.deep_view()[k]).parent_id
                    == ev_built[k].parent_id,
            forall|k: int|
                0 <= k < j ==> (#[trigger] sorted.deep_view()[k]).children.to_multiset()
                    == ev_built[k].children.to_multiset(),
            forall|k: int|
                0 <= k < j ==> sorted_by_modified_desc(
                    (#[trigger] sorted.deep_view()[k]).children,
                ),
        decreases m - j,
    {
        let ghost sv0 = sorted.deep_view();
        let ghost rv0 = rest.deep_view();
        proof {
            assert(rv0[0] == rest@[0].deep_view());
        }
        let entry = rest.remove(0);
        proof {
            assert(entry.deep_view() == rv0[0]);
            assert(rv0[0] == ev_built[j as int]);
            assert(rest.deep_view() =~~= rv0.remove(0));
            assert(rest.deep_view() =~~= ev_built.subrange(j + 1, m as int));
        }
        let children = sort_sessions_by_modified_desc(entry.children);
        sorted.push(ForkEntry { parent_id: entry.parent_id, children });
        proof {
            assert(sorted.deep_view() =~~= sv0.push(sorted.deep_view()[j as int]));
        }
        j = j + 1;
    }
    let r = ForkTree { entries: sorted };
    proof {
        let sv_final = r.entries.deep_view();
        lemma_lookup_parallel(ev_built, sv_final, sv);
        assert forall|id: Seq<char>| #[trigger] spec_children_of(r, id).to_multiset()
            == children_filter(sv, id).to_multiset() && sorted_by_modified_desc(
            spec_children_of(r, id),
        ) by {
            if lookup_entries(sv_final, id) is Some {
                lemma_lookup_member(ev_built, id);
            } else {
                assert(spec_children_of(r, id) =~= Seq::<SessionView>::empty());
                assert(children_filter(sv, id).len() == 0);
                assert(children_filter(sv, id) =~= Seq::<SessionView>::empty());
            }
        }
    }
    r
}

proof fn lemma_lookup_member(entries: Seq<ForkEntryView>, id: Seq<char>)
    requires
        lookup_entries(entries, id) is Some,
    ensures
        exists|j: int|
            0 <= j < entries.len() && (#[trigger] entries[j]).parent_id == id
                && lookup_entries(entries, id) == Some(entries[j].children),
    decreases entries.len(),
{
    if entries.len() > 0 && entries[0].parent_id != id {
        lemma_lookup_member(entries.skip(1), id);
        let j0 = choose|j: int|
            0 <= j < entries.skip(1).len() && (#[trigger] entries.skip(1)[j]).parent_id == id
                && lookup_entries(entries.skip(1), id) == Some(entries.skip(1)[j].children);
        assert(entries[j0 + 1].parent_id == id && lookup_entries(entries, id) == Some(
            entries[j0 + 1].children,
        ));
    }
}

proof fn lemma_lookup_parallel(a: Seq<ForkEntryView>, b: Seq<ForkEntryView>, sv: Seq<SessionView>)
    requires
        a.len() == b.len(),
        forall|k: int| 0 <= k < a.len() ==> (#[trigger] b[k]).parent_id == a[k].parent_id,
        forall|k: int|
            0 <= k < a.len() ==> (#[trigger] b[k]).children.to_multiset()
                == a[k].children.to_multiset(),
        forall|k: int| 0 <= k < a.len() ==> sorted_by_modified_desc((#[trigger] b[k]).children),
    ensures
        forall|id: Seq<char>|
            (#[trigger] lookup_entries(b, id) is Some) == (lookup_entries(a, id) is Some),
        forall|id: Seq<char>|
            #[trigger] lookup_entries(b, id) is Some ==> (opt_children(
                lookup_entries(b, id),
            ).to_multiset() == opt_children(lookup_entries(a, id)).to_multiset()
                && sorted_by_modified_desc(opt_children(lookup_entries(b, id)))),
    decreases a.len(),
{
    if a.len() > 0 {
        assert(forall|k: int|
            0 <= k < a.len() - 1 ==> #[trigger] a.skip(1)[k] == a[k + 1]);
        assert(forall|k: int|
            0 <= k < b.len() - 1 ==> #[trigger] b.skip(1)[k] == b[k + 1]);
        lemma_lookup_parallel(a.skip(1), b.skip(1), sv);
        assert forall|id: Seq<char>|
            (#[trigger] lookup_entries(b, id) is Some) == (lookup_entries(a, id) is Some) by {
            if a[0].parent_id != id {
                assert(lookup_entries(a, id) == lookup_entries(a.skip(1), id));
                assert(lookup_entries(b, id) == lookup_entries(b.skip(1), id));
            }
        }
        assert forall|id: Seq<char>| #[trigger] lookup_entries(b, id) is Some implies (
            opt_children(lookup_entries(b, id)).to_multiset() == opt_children(
                lookup_entries(a, id),
            ).to_multiset() && sorted_by_modified_desc(
                opt_children(lookup_entries(b, id)),
            )) by {
            if a[0].parent_id != id {
                assert(lookup_entries(a, id) == lookup_entries(a.skip(1), id));
                assert(lookup_entries(b, id) == lookup_entries(b.skip(1), id));
            }
        }
    }
}

} // verus!

verus! {

// ---------------------------------------------------------------------------
// Visible-set derivation
// ---------------------------------------------------------------------------

/// Whether some id in the list equals `id`.
pub fn ids_contain(ids: &Vec<String>, id: &str) -> (r: bool)
    ensures
        r == ids.deep_view().contains(id@),
{
    let n = ids.len();
    let mut i: usize = 0;
    while i < n
        invariant
            n == ids@.len(),
            i <= n,
            forall|k: int| 0 <= k < i ==> ids.deep_view()[k] != id@,
        decreases n - i,
    {
        proof {
            assert(ids.deep_view()[i as int] == ids@[i as int]@);
        }
        if str_eq(ids[i].as_str(), id) {
            return true;
        }
        i = i + 1;
    }
    false
}

/// The first session carrying the given id.
pub open spec fn spec_find_by_id(ss: Seq<SessionView>, id: Seq<char>) -> Option<SessionView>
    decreases ss.len(),
{
    if ss.len() == 0 {
        None
    } else if ss[0].id == id {
        Some(ss[0])
    } else {
        spec_find_by_id(ss.skip(1), id)
    }
}

/// Resolve an id back to its session.
pub fn find_session_by_id<'a>(sessions: &'a Vec<Session>, id: &str) -> (r: Option<&'a Session>)
    ensures
        r is Some <==> spec_find_by_id(sessions.deep_view(), id@) is Some,
        r matches Some(s) ==> Some(s.deep_view()) == spec_find_by_id(sessions.deep_view(), id@),
{
    let ghost sv = sessions.deep_view();
    let n = sessions.len();
    let mut i: usize = 0;
    proof {
        assert(sv.skip(0) =~= sv);
    }
    while i < n
        invariant
            n == sessions@.len(),
            sv == sessions.deep_view(),
            sv.len() == n,
            i <= n,
            spec_find_by_id(sv, id@) == spec_find_by_id(sv.skip(i as int), id@),
        decreases n - i,
    {
        proof {
            assert(sv.skip(i as int)[0] == sv[i as int]);
            assert(sv.skip(i as int).skip(1) =~= sv.skip(i + 1));
            assert(sv[i as int] == sessions@[i as int].deep_view());
        }
        if str_eq(sessions[i].id.as_str(), id) {
            return Some(&sessions[i]);
        }
        i = i + 1;
    }
    proof {
        assert(sv.skip(n as int) =~= Seq::<SessionView>::empty());
    }
    None
}

/// Whether any session in the list carries the given id.
pub fn any_session_has_id(sessions: &Vec<Session>, id: &str) -> (r: bool)
    ensures
        r == spec_find_by_id(sessions.deep_view(), id@) is Some,
{
    match find_session_by_id(sessions, id) {
        Some(_) => true,
        None => false,
    }
}

/// A session is a navigation root: it has no fork parent, or its parent is
/// absent from the session set (an orphaned fork, promoted to a root).
pub open spec fn spec_is_root(ss: Seq<SessionView>, s: SessionView) -> bool {
    match s.forked_from {
        None => true,
        Some(p) => spec_find_by_id(ss, p) is None,
    }
}

/// The sessions visible to the picker in a navigation state: the matched
/// sessions while a search is active; the focused session and its direct
/// children while drilled in; otherwise every root session.
pub open spec fn spec_visible_sessions(
    ss: Seq<SessionView>,
    st: crate::interactive_state::InteractiveStateView,
    tree: ForkTree,
) -> Seq<SessionView> {
    match st.search_results {
        Some(ids) => ss.filter(|s: SessionView| ids.contains(s.id)),
        None => if st.focus_stack.len() > 0 {
            let focus = st.focus_stack.last();
            let head: Seq<SessionView> = match spec_find_by_id(ss, focus) {
                Some(s) => seq![s],
                None => Seq::empty(),
            };
            head + spec_children_of(tree, focus)
        } else {
            ss.filter(|s: SessionView| spec_is_root(ss, s))
        },
    }
}

/// Derive the sessions the picker should show for the current navigation
/// state.
pub fn visible_sessions(
    sessions: &Vec<Session>,
    state: &crate::interactive_state::InteractiveState,
    tree: &ForkTree,
) -> (r: Vec<Session>)
    ensures
        r.deep_view() == spec_visible_sessions(sessions.deep_view(), state.deep_view(), *tree),
{
    let ghost sv = sessions.deep_view();
    let n = sessions.len();
    match state.search_results() {
        Some(ids) => {
            let ghost idv = ids.deep_view();
            let mut out: Vec<Session> = Vec::new();
            let mut i: usize = 0;
            proof {
                reveal(Seq::filter);
                assert(sv.take(0) =~= Seq::<SessionView>::empty());
                assert(out.deep_view() =~~= sv.take(0).filter(
                    |s: SessionView| idv.contains(s.id),
                ));
            }
            while i < n
                invariant
                    n == sessions@.len(),
                    sv == sessions.deep_view(),
                    sv.len() == n,
                    i <= n,
                    idv == ids.deep_view(),
                    out.deep_view() == sv.take(i as int).filter(
                        |s: SessionView| idv.contains(s.id),
                    ),
                decreases n - i,
            {
                proof {
                    reveal(Seq::filter);
                    assert(sv[i as int] == sessions@[i as int].deep_view());
                    assert(sv.take(i + 1).drop_last() =~= sv.take(i as int));
                    assert(sv.take(i + 1).last() == sv[i as int]);
                }
                let ghost before = out.deep_view();
                if ids_contain(ids, sessions[i].id.as_str()) {
                    out.push(sessions[i].duplicate());
                    proof {
                        assert(out.deep_view() =~~= before.push(sv[i as int]));
                    }
                }
                i = i + 1;
            }
            proof {
                assert(sv.take(n as int) =~= sv);
            }
            out
        },
        None => {
            let focus_opt = state.focus();
            match focus_opt {
                Some(focus) => {
                    let mut out: Vec<Session> = Vec::new();
                    match find_session_by_id(sessions, focus.as_str()) {
                        Some(s) => {
                            out.push(s.duplicate());
                            proof {
                                assert(out.deep_view() =~~= seq![s.deep_view()]);
                            }
                        },
                        None => {},
                    }
                    let ghost head = out.deep_view();
                    match tree.get(focus.as_str()) {
                        Some(children) => {
                            let m = children.len();
                            let mut j: usize = 0;
                            proof {
                                assert(out.deep_view() =~~= head
                                    + children.deep_view().take(0));
                            }
                            while j < m
                                invariant
                                    m == children@.len(),
                                    j <= m,
                                    out.deep_view() == head + children.deep_view().take(
                                        j as int,
                                    ),
                                decreases m - j,
                            {
                                let ghost before = out.deep_view();
                                out.push(children[j].duplicate());
                                j = j + 1;
                                proof {
                                    assert(children.deep_view()[j - 1]
                                        == children@[j - 1].deep_view());
                                    assert(children.deep_view().take(j as int)
                                        =~= children.deep_view().take(j - 1).push(
                                        children.deep_view()[j - 1],
                                    ));
                                    assert(out.deep_view() =~~= before.push(
                                        children.deep_view()[j - 1],
                                    ));
                                }
                            }
                            proof {
                                assert(children.deep_view().take(m as int)
                                    =~= children.deep_view());
                            }
                        },
                        None => {
                            proof {
                                assert(spec_children_of(*tree, focus@)
                                    =~= Seq::<SessionView>::empty());
                            }
                        },
                    }
                    proof {
                        assert(out.deep_view() =~~= spec_visible_sessions(
                            sv,
                            state.deep_view(),
                            *tree,
                        ));
                    }
                    out
                },
                None => {
                    let mut out: Vec<Session> = Vec::new();
                    let mut i: usize = 0;
                    proof {
                        reveal(Seq::filter);
                        assert(sv.take(0) =~= Seq::<SessionView>::empty());
                        assert(out.deep_view() =~~= sv.take(0).filter(
                            |s: SessionView| spec_is_root(sv, s),
                        ));
                    }
                    while i < n
                        invariant
                            n == sessions@.len(),
                            sv == sessions.deep_view(),
                            sv.len() == n,
                            i <= n,
                            out.deep_view() == sv.take(i as int).filter(
                                |s: SessionView| spec_is_root(sv, s),
                            ),
                        decreases n - i,
                    {
                        proof {
                            reveal(Seq::filter);
                            assert(sv[i as int] == sessions@[i as int].deep_view());
                            assert(sv.take(i + 1).drop_last() =~= sv.take(i as int));
                            assert(sv.take(i + 1).last() == sv[i as int]);
                        }
                        let ghost before = out.deep_view();
                        let is_root = match &sessions[i].forked_from {
                            None => true,
                            Some(p) => !any_session_has_id(sessions, p.as_str()),
                        };
                        proof {
                            assert(is_root == spec_is_root(sv, sv[i as int]));
                        }
                        if is_root {
                            out.push(sessions[i].duplicate());
                            proof {
                                assert(out.deep_view() =~~= before.push(sv[i as int]));
                            }
                        }
                        i = i + 1;
                    }
                    proof {
                        assert(sv.take(n as int) =~= sv);
                    }
                    out
                },
            }
        },
    }
}

/// The sessions shown by a flat listing: forks excluded unless asked for.
pub fn filter_forks_for_list(sessions: &Vec<Session>, include_forks: bool) -> (r: Vec<Session>)
    ensures
        include_forks ==> r.deep_view() == sessions.deep_view(),
        !include_forks ==> r.deep_view() == sessions.deep_view().filter(
            |s: SessionView| s.forked_from is None,
        ),
{
    let ghost sv = sessions.deep_view();
    let n = sessions.len();
    let mut out: Vec<Session> = Vec::new();
    let mut i: usize = 0;
    proof {
        reveal(Seq::filter);
        assert(sv.take(0) =~= Seq::<SessionView>::empty());
        assert(out.deep_view() =~~= sv.take(0));
        assert(out.deep_view() =~~= sv.take(0).filter(
            |s: SessionView| s.forked_from is None,
        ));
    }
    while i < n
        invariant
            n == sessions@.len(),
            sv == sessions.deep_view(),
            sv.len() == n,
            i <= n,
            include_forks ==> out.deep_view() == sv.take(i as int),
            !include_forks ==> out.deep_view() == sv.take(i as int).filter(
                |s: SessionView| s.forked_from is None,
            ),
        decreases n - i,
    {
        proof {
            reveal(Seq::filter);
            assert(sv[i as int] == sessions@[i as int].deep_view());
            assert(sv.take(i + 1).drop_last() =~= sv.take(i as int));
            assert(sv.take(i + 1).last() == sv[i as int]);
        }
        let ghost before = out.deep_view();
        let keep = if include_forks {
            true
        } else {
            match &sessions[i].forked_from {
                None => true,
                Some(_) => false,
            }
        };
        if keep {
            out.push(sessions[i].duplicate());
            proof {
                assert(out.deep_view() =~~= before.push(sv[i as int]));
            }
        }
        i = i + 1;
    }
    proof {
        assert(sv.take(n as int) =~= sv);
    }
    out
}

} // verus!
