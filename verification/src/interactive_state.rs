//! The navigation state machine: a pure reducer turning user actions into a
//! new navigation state and a side-effect request. The interactive loop
//! around it performs the effects; the reducer itself does no I/O.

use vstd::prelude::*;
use crate::text::{spec_trim, str_eq, str_to_chars, trim_chars, chars_to_string};

verus! {

/// Navigation state: an optional transcript search (pattern and matched
/// ids) layered over a drill-down focus stack (top = currently drilled-into
/// session).
#[derive(Debug)]
pub struct InteractiveState {
    search_pattern: Option<String>,
    search_results: Option<Vec<String>>,
    focus_stack: Vec<String>,
}

/// Mathematical model of the navigation state.
pub struct InteractiveStateView {
    pub search_pattern: Option<Seq<char>>,
    pub search_results: Option<Seq<Seq<char>>>,
    pub focus_stack: Seq<Seq<char>>,
}

impl DeepView for InteractiveState {
    type V = InteractiveStateView;

    closed spec fn deep_view(&self) -> InteractiveStateView {
        InteractiveStateView {
            search_pattern: self.search_pattern.deep_view(),
            search_results: self.search_results.deep_view(),
            focus_stack: self.focus_stack.deep_view(),
        }
    }
}

/// A user action handed to the reducer.
#[derive(Debug)]
pub enum Action {
    Esc,
    CtrlS { query: String },
    ApplySearchResults { pattern: String, matched_ids: Vec<String> },
    Right { selected_id: Option<String>, has_children: bool },
    Left,
    Enter { selected_id: Option<String> },
}

/// Mathematical model of an action.
pub enum ActionView {
    Esc,
    CtrlS { query: Seq<char> },
    ApplySearchResults { pattern: Seq<char>, matched_ids: Seq<Seq<char>> },
    Right { selected_id: Option<Seq<char>>, has_children: bool },
    Left,
    Enter { selected_id: Option<Seq<char>> },
}

impl DeepView for Action {
    type V = ActionView;

    open spec fn deep_view(&self) -> ActionView {
        match self {
            Action::Esc => ActionView::Esc,
            Action::CtrlS { query } => ActionView::CtrlS { query: query.deep_view() },
            Action::ApplySearchResults { pattern, matched_ids } => ActionView::ApplySearchResults {
                pattern: pattern.deep_view(),
                matched_ids: matched_ids.deep_view(),
            },
            Action::Right { selected_id, has_children } => ActionView::Right {
                selected_id: selected_id.deep_view(),
                has_children: *has_children,
            },
            Action::Left => ActionView::Left,
            Action::Enter { selected_id } => ActionView::Enter {
                selected_id: selected_id.deep_view(),
            },
        }
    }
}

/// What the reducer asks its caller to do next.
#[derive(Debug)]
pub enum Effect {
    Continue,
    Exit,
    RunSearch { pattern: String },
    Select { session_id: String },
}

/// Mathematical model of an effect.
pub enum EffectView {
    Continue,
    Exit,
    RunSearch { pattern: Seq<char> },
    Select { session_id: Seq<char> },
}

impl DeepView for Effect {
    type V = EffectView;

    open spec fn deep_view(&self) -> EffectView {
        match self {
            Effect::Continue => EffectView::Continue,
            Effect::Exit => EffectView::Exit,
            Effect::RunSearch { pattern } => EffectView::RunSearch {
                pattern: pattern.deep_view(),
            },
            Effect::Select { session_id } => EffectView::Select {
                session_id: session_id.deep_view(),
            },
        }
    }
}

impl PartialEq for Effect {
    fn eq(&self, other: &Effect) -> (r: bool) {
        match (self, other) {
            (Effect::Continue, Effect::Continue) => true,
            (Effect::Exit, Effect::Exit) => true,
            (Effect::RunSearch { pattern: a }, Effect::RunSearch { pattern: b }) => str_eq(
                a.as_str(),
                b.as_str(),
            ),
            (Effect::Select { session_id: a }, Effect::Select { session_id: b }) => str_eq(
                a.as_str(),
                b.as_str(),
            ),
            _ => false,
        }
    }
}

impl vstd::std_specs::cmp::PartialEqSpecImpl for Effect {
    open spec fn obeys_eq_spec() -> bool {
        true
    }

    open spec fn eq_spec(&self, other: &Effect) -> bool {
        self.deep_view() == other.deep_view()
    }
}

impl Eq for Effect {

}

/// The reducer: how one action turns a navigation state into its successor
/// and an effect.
///
/// In priority order: Escape clears an active search (focus untouched),
/// else clears a non-empty focus stack, else exits. Committing a search
/// with a blank query is a no-op; otherwise it requests a search run
/// carrying the trimmed query, mutating nothing yet. Applying search
/// results replaces the search state unconditionally. Drilling right pushes
/// the selected id onto the focus stack only when something is selected, it
/// has children, and it is not already the focus top. Drilling left pops
/// the stack if non-empty. Enter requests selection of the selected id, if
/// any.
pub open spec fn spec_apply(s: InteractiveStateView, a: ActionView) -> (InteractiveStateView,
    EffectView) {
    match a {
        ActionView::Esc => if s.search_results is Some {
            (
                InteractiveStateView {
                    search_pattern: None,
                    search_results: None,
                    focus_stack: s.focus_stack,
                },
                EffectView::Continue,
            )
        } else if s.focus_stack.len() > 0 {
            (
                InteractiveStateView { focus_stack: Seq::empty(), ..s },
                EffectView::Continue,
            )
        } else {
            (s, EffectView::Exit)
        },
        ActionView::CtrlS { query } => {
            let q = spec_trim(query);
            if q.len() == 0 {
                (s, EffectView::Continue)
            } else {
                (s, EffectView::RunSearch { pattern: q })
            }
        },
        ActionView::ApplySearchResults { pattern, matched_ids } => (
            InteractiveStateView {
                search_pattern: Some(pattern),
                search_results: Some(matched_ids),
                focus_stack: s.focus_stack,
            },
            EffectView::Continue,
        ),
        ActionView::Right { selected_id, has_children } => match selected_id {
            None => (s, EffectView::Continue),
            Some(id) => {
                let already = s.focus_stack.len() > 0 && s.focus_stack.last() == id;
                if has_children && !already {
                    (
                        InteractiveStateView { focus_stack: s.focus_stack.push(id), ..s },
                        EffectView::Continue,
                    )
                } else {
                    (s, EffectView::Continue)
                }
            },
        },
        ActionView::Left => (
            InteractiveStateView {
                focus_stack: if s.focus_stack.len() > 0 {
                    s.focus_stack.drop_last()
                } else {
                    s.focus_stack
                },
                ..s
            },
            EffectView::Continue,
        ),
        ActionView::Enter { selected_id } => match selected_id {
            None => (s, EffectView::Continue),
            Some(id) => (s, EffectView::Select { session_id: id }),
        },
    }
}

impl Default for InteractiveState {
    /// The initial navigation state: no search, no focus.
    fn default() -> (r: Self)
        ensures
            r.deep_view() == (InteractiveStateView {
                search_pattern: None,
                search_results: None,
                focus_stack: Seq::empty(),
            }),
    {
        let r = InteractiveState {
            search_pattern: None,
            search_results: None,
            focus_stack: Vec::new(),
        };
        proof {
            assert(r.deep_view().focus_stack =~= Seq::<Seq<char>>::empty());
        }
        r
    }
}

impl InteractiveState {
    pub fn search_pattern(&self) -> (r: Option<&String>)
        ensures
            r.deep_view() == self.deep_view().search_pattern,
    {
        match &self.search_pattern {
            Some(p) => Some(p),
            None => None,
        }
    }

    pub fn search_results(&self) -> (r: Option<&Vec<String>>)
        ensures
            r.deep_view() == self.deep_view().search_results,
    {
        match &self.search_results {
            Some(v) => Some(v),
            None => None,
        }
    }

    pub fn focus(&self) -> (r: Option<&String>)
        ensures
            self.deep_view().focus_stack.len() == 0 ==> r is None,
            self.deep_view().focus_stack.len() > 0 ==> (r matches Some(f) && f.deep_view()
                == self.deep_view().focus_stack.last()),
    {
        if self.focus_stack.len() > 0 {
            let f = &self.focus_stack[self.focus_stack.len() - 1];
            proof {
                assert(self.focus_stack.deep_view()[self.focus_stack@.len() - 1]
                    == self.focus_stack@[self.focus_stack@.len() - 1].deep_view());
            }
            Some(f)
        } else {
            None
        }
    }

    pub fn push_focus_for_test(&mut self, id: &str)
        ensures
            final(self).deep_view().focus_stack == old(self).deep_view().focus_stack.push(id@),
            final(self).deep_view().search_pattern == old(self).deep_view().search_pattern,
            final(self).deep_view().search_results == old(self).deep_view().search_results,
    {
        let ghost before = self.focus_stack.deep_view();
        self.focus_stack.push(String::from_str(id));
        proof {
            assert(self.focus_stack.deep_view() =~~= before.push(id@));
        }
    }

    /// Apply one action, yielding the effect the caller must perform.
    pub fn apply(&mut self, action: Action) -> (r: Effect)
        ensures
            final(self).deep_view() == spec_apply(old(self).deep_view(), action.deep_view()).0,
            r.deep_view() == spec_apply(old(self).deep_view(), action.deep_view()).1,
    {
        match action {
            Action::Esc => {
                if self.search_results.is_some() {
                    self.search_results = None;
                    self.search_pattern = None;
                    return Effect::Continue;
                }
                if self.focus_stack.len() > 0 {
                    self.focus_stack = Vec::new();
                    proof {
                        assert(self.deep_view().focus_stack =~= Seq::<Seq<char>>::empty());
                    }
                    return Effect::Continue;
                }
                Effect::Exit
            },
            Action::CtrlS { query } => {
                let chars = str_to_chars(query.as_str());
                let trimmed = trim_chars(chars.as_slice());
                if trimmed.len() == 0 {
                    return Effect::Continue;
                }
                Effect::RunSearch { pattern: chars_to_string(trimmed.as_slice()) }
            },
            Action::ApplySearchResults { pattern, matched_ids } => {
                self.search_pattern = Some(pattern);
                self.search_results = Some(matched_ids);
                Effect::Continue
            },
            Action::Right { selected_id, has_children } => {
                let id = match selected_id {
                    Some(id) => id,
                    None => {
                        return Effect::Continue;
                    },
                };
                let already_focused = if self.focus_stack.len() > 0 {
                    let top = &self.focus_stack[self.focus_stack.len() - 1];
                    proof {
                        assert(self.focus_stack.deep_view()[self.focus_stack@.len() - 1]
                            == self.focus_stack@[self.focus_stack@.len() - 1].deep_view());
                    }
                    str_eq(top.as_str(), id.as_str())
                } else {
                    false
                };
                if has_children && !already_focused {
                    let ghost before = self.focus_stack.deep_view();
                    let ghost idv = id@;
                    self.focus_stack.push(id);
                    proof {
                        assert(self.focus_stack.deep_view() =~~= before.push(idv));
                    }
                }
                Effect::Continue
            },
            Action::Left => {
                if self.focus_stack.len() > 0 {
                    let ghost before = self.focus_stack.deep_view();
                    let _ = self.focus_stack.pop();
                    proof {
                        assert(self.focus_stack.deep_view() =~~= before.drop_last());
                    }
                }
                Effect::Continue
            },
            Action::Enter { selected_id } => {
                match selected_id {
                    Some(session_id) => Effect::Select { session_id },
                    None => Effect::Continue,
                }
            },
        }
    }
}

// ---------------------------------------------------------------------------
// Laws of the reducer
// ---------------------------------------------------------------------------

/// Escape with an active search clears only the search: the focus stack is
/// left untouched and the loop continues.
pub proof fn lemma_esc_clears_search_only(s: InteractiveStateView)
    requires
        s.search_results is Some,
    ensures
        spec_apply(s, ActionView::Esc).0.search_results is None,
        spec_apply(s, ActionView::Esc).0.search_pattern is None,
        spec_apply(s, ActionView::Esc).0.focus_stack == s.focus_stack,
        spec_apply(s, ActionView::Esc).1 == EffectView::Continue,
{
}

/// Escape with no search but a non-empty focus stack clears only the focus
/// stack and the loop continues.
pub proof fn lemma_esc_clears_focus_only(s: InteractiveStateView)
    requires
        s.search_results is None,
        s.focus_stack.len() > 0,
    ensures
        spec_apply(s, ActionView::Esc).0.focus_stack.len() == 0,
        spec_apply(s, ActionView::Esc).0.search_pattern == s.search_pattern,
        spec_apply(s, ActionView::Esc).0.search_results == s.search_results,
        spec_apply(s, ActionView::Esc).1 == EffectView::Continue,
{
}

/// Escape with neither an active search nor a focus exits, leaving the
/// state unchanged.
pub proof fn lemma_esc_exits(s: InteractiveStateView)
    requires
        s.search_results is None,
        s.focus_stack.len() == 0,
    ensures
        spec_apply(s, ActionView::Esc).0 == s,
        spec_apply(s, ActionView::Esc).1 == EffectView::Exit,
{
}

/// Drilling right into a session without children never mutates the state,
/// whatever is selected.
pub proof fn lemma_right_without_children_is_noop(
    s: InteractiveStateView,
    selected_id: Option<Seq<char>>,
)
    ensures
        spec_apply(s, ActionView::Right { selected_id, has_children: false }).0 == s,
        spec_apply(s, ActionView::Right { selected_id, has_children: false }).1
            == EffectView::Continue,
{
}

/// Committing a search whose query is blank after trimming continues
/// without requesting any search effect and without touching the state.
pub proof fn lemma_commit_search_blank_is_noop(s: InteractiveStateView, query: Seq<char>)
    requires
        spec_trim(query).len() == 0,
    ensures
        spec_apply(s, ActionView::CtrlS { query }).0 == s,
        spec_apply(s, ActionView::CtrlS { query }).1 == EffectView::Continue,
{
}

} // verus!
