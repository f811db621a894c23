//! Freeze a turn while any `ask_user` is pending.
//!
//! When a human question is outstanding, the agent must not do any other work
//! beyond waiting. The counter is per session, so the main agent and its
//! subagents asking concurrently all block the same session, and each answer
//! decrements. Every non-ask tool runs [`wait_if_frozen`] before it starts, so
//! siblings in the same batch park instead of running while the question is
//! open.
//!
//! Session attribution, most exact first: the session pinned to the calling
//! task, else the session of the engine's turn, else the registered wrapper
//! sessions. The pin is handed in by the caller; the rest is in
//! [`FreezeState`].
use crate::text::{copy_text, same_text};
use vstd::hash_map::StringHashMap;
use vstd::prelude::*;

verus! {

/// The questions and sessions that a [`FreezeState`] stands for.
#[verifier::ext_equal]
pub struct FreezeView {
    /// How many questions each session waits for; a session without one is absent.
    pub pending: Map<Seq<char>, nat>,
    /// The session of the engine's turn.
    pub current: Option<Seq<char>>,
    /// The registered wrapper sessions.
    pub wrappers: Set<Seq<char>>,
}

/// The one element of a set that has exactly one.
pub open spec fn only(ids: Set<Seq<char>>) -> Option<Seq<char>> {
    if exists|id: Seq<char>| ids =~= set![id] {
        Some(choose|id: Seq<char>| ids =~= set![id])
    } else {
        None
    }
}

impl FreezeView {
    /// No question, no session.
    pub open spec fn idle() -> FreezeView {
        FreezeView { pending: Map::empty(), current: None, wrappers: Set::empty() }
    }

    /// How many questions session `id` waits for.
    pub open spec fn count(self, id: Seq<char>) -> nat {
        if self.pending.contains_key(id) {
            self.pending[id]
        } else {
            0
        }
    }

    pub open spec fn frozen(self, id: Seq<char>) -> bool {
        self.count(id) > 0
    }

    pub open spec fn with_count(self, id: Seq<char>, count: nat) -> FreezeView {
        FreezeView {
            pending: if count == 0 {
                self.pending.remove(id)
            } else {
                self.pending.insert(id, count)
            },
            ..self
        }
    }

    /// After one more question in session `id`. The empty id names no session.
    /// The count wraps at the end of `usize`.
    pub open spec fn asked(self, id: Seq<char>) -> FreezeView {
        if id.len() == 0 {
            self
        } else if self.count(id) < usize::MAX {
            self.with_count(id, self.count(id) + 1)
        } else {
            self.with_count(id, 0)
        }
    }

    /// After one answer in session `id`. An answer without a question changes nothing.
    pub open spec fn answered(self, id: Seq<char>) -> FreezeView {
        if id.len() == 0 || self.count(id) == 0 {
            self
        } else {
            self.with_count(id, (self.count(id) - 1) as nat)
        }
    }

    pub open spec fn with_current(self, current: Option<Seq<char>>) -> FreezeView {
        FreezeView { current, ..self }
    }

    pub open spec fn with_wrapper(self, id: Seq<char>) -> FreezeView {
        if id.len() == 0 {
            self
        } else {
            FreezeView { wrappers: self.wrappers.insert(id), ..self }
        }
    }

    pub open spec fn without_wrapper(self, id: Seq<char>) -> FreezeView {
        FreezeView { wrappers: self.wrappers.remove(id), ..self }
    }

    /// The sessions that a caller with pin `pin` may belong to.
    pub open spec fn candidates(self, pin: Option<Seq<char>>) -> Set<Seq<char>> {
        match (pin, self.current) {
            (Some(id), _) => set![id],
            (None, Some(id)) => set![id],
            (None, None) => self.wrappers,
        }
    }

    /// The session that a caller with pin `pin` belongs to, where that is certain.
    pub open spec fn resolved(self, pin: Option<Seq<char>>) -> Option<Seq<char>> {
        match (pin, self.current) {
            (Some(id), _) => Some(id),
            (None, Some(id)) => Some(id),
            (None, None) => only(self.wrappers),
        }
    }

    /// Some session that a caller with pin `pin` may belong to is frozen.
    pub open spec fn frozen_for(self, pin: Option<Seq<char>>) -> bool {
        exists|id: Seq<char>| self.candidates(pin).contains(id) && self.frozen(id)
    }
}

/// The pending questions of every session, and what is known of the sessions.
pub struct FreezeState {
    counts: StringHashMap<usize>,
    current: Option<String>,
    wrappers: Vec<String>,
}

impl View for FreezeState {
    type V = FreezeView;

    closed spec fn view(&self) -> FreezeView {
        FreezeView {
            pending: Map::new(
                |id: Seq<char>| self.counts@.contains_key(id) && self.counts@[id] > 0,
                |id: Seq<char>| self.counts@[id] as nat,
            ),
            current: crate::text::text_of(self.current),
            wrappers: crate::text::texts(self.wrappers@).to_set(),
        }
    }
}

impl FreezeState {
    /// No counter and no wrapper session has the empty id, and each wrapper
    /// session is held once.
    pub closed spec fn wf(&self) -> bool {
        &&& !self.counts@.contains_key(Seq::empty())
        &&& crate::text::texts(self.wrappers@).no_duplicates()
        &&& !crate::text::texts(self.wrappers@).contains(Seq::empty())
    }

    pub fn new() -> (state: FreezeState)
        ensures
            state.wf(),
            state@ == FreezeView::idle(),
    {
        let state = FreezeState {
            counts: StringHashMap::new(),
            current: None,
            wrappers: Vec::new(),
        };
        assert(state@ =~= FreezeView::idle());
        state
    }
}

/// The counter of a session, made with zero where there is none.
fn state_for(state: &mut FreezeState, session_id: &str) -> (count: usize)
    requires
        old(state).wf(),
        session_id@.len() > 0,
    ensures
        final(state).wf(),
        final(state)@ == old(state)@,
        count == old(state)@.count(session_id@),
{
    match state.counts.get(session_id) {
        Some(count) => *count,
        None => {
            state.counts.insert(session_id.to_owned(), 0);
            assert(state@ =~= old(state)@);
            0
        },
    }
}

/// One more question is pending in the session.
pub fn inc(state: &mut FreezeState, session_id: &str)
    requires
        old(state).wf(),
    ensures
        final(state).wf(),
        final(state)@ == old(state)@.asked(session_id@),
{
    if session_id.is_empty() {
        return;
    }
    let count: usize = state_for(state, session_id);
    state.counts.insert(session_id.to_owned(), count.wrapping_add(1));
    assert(state@ =~= old(state)@.asked(session_id@));
}

/// One question of the session was answered. Returns true when the waiters of
/// the session are to be woken.
pub fn dec(state: &mut FreezeState, session_id: &str) -> (wake: bool)
    requires
        old(state).wf(),
    ensures
        final(state).wf(),
        final(state)@ == old(state)@.answered(session_id@),
        wake == (session_id@.len() > 0),
{
    if session_id.is_empty() {
        return false;
    }
    let prev: usize = state_for(state, session_id);
    let count: usize = if prev <= 1 { 0 } else { prev - 1 };
    state.counts.insert(session_id.to_owned(), count);
    assert(state@ =~= old(state)@.answered(session_id@));
    true
}

/// A question of the session is pending.
pub fn is_frozen(state: &FreezeState, session_id: &str) -> (frozen: bool)
    requires
        state.wf(),
    ensures
        frozen == state@.frozen(session_id@),
{
    if session_id.is_empty() {
        assert(session_id@ =~= Seq::empty());
        return false;
    }
    match state.counts.get(session_id) {
        Some(count) => *count > 0,
        None => false,
    }
}

/// The session pinned to the calling task, if any.
pub fn task_session(pin: &Option<String>) -> (session: Option<String>)
    ensures
        crate::text::text_of(session) == crate::text::text_of(*pin),
{
    copy_text(pin)
}

/// The engine starts a turn of the session.
pub fn set_current_session(state: &mut FreezeState, session_id: &str)
    requires
        old(state).wf(),
    ensures
        final(state).wf(),
        final(state)@ == old(state)@.with_current(Some(session_id@)),
{
    state.current = Some(session_id.to_owned());
}

/// The engine ends its turn.
pub fn clear_current_session(state: &mut FreezeState)
    requires
        old(state).wf(),
    ensures
        final(state).wf(),
        final(state)@ == old(state)@.with_current(None),
{
    state.current = None;
}

/// The session of the engine's turn.
pub fn current_session_id(state: &FreezeState) -> (session: Option<String>)
    ensures
        crate::text::text_of(session) == state@.current,
{
    copy_text(&state.current)
}

/// Where a session stands among the wrapper sessions.
fn wrapper_index(state: &FreezeState, session_id: &str) -> (index: Option<usize>)
    ensures
        match index {
            Some(i) => i < state.wrappers@.len() && state.wrappers@[i as int]@ == session_id@,
            None => !crate::text::texts(state.wrappers@).contains(session_id@),
        },
{
    let mut i: usize = 0;
    while i < state.wrappers.len()
        invariant
            i <= state.wrappers@.len(),
            forall|j: int| 0 <= j < i ==> state.wrappers@[j]@ != session_id@,
        decreases state.wrappers@.len() - i,
    {
        if same_text(session_id, &state.wrappers[i]) {
            return Some(i);
        }
        i = i + 1;
    }
    None
}

/// Remember a wrapper session. A set, not a single slot: with several engines
/// the last writer must not take over every unpinned caller.
pub fn set_wrapper_session(state: &mut FreezeState, session_id: &str)
    requires
        old(state).wf(),
    ensures
        final(state).wf(),
        final(state)@ == old(state)@.with_wrapper(session_id@),
{
    if session_id.is_empty() {
        return;
    }
    let ghost before = crate::text::texts(state.wrappers@);
    match wrapper_index(state, session_id) {
        Some(i) => {
            assert(before[i as int] == session_id@);
            assert(state@.wrappers =~= state@.wrappers.insert(session_id@));
        },
        None => {
            state.wrappers.push(session_id.to_owned());
            let ghost after = crate::text::texts(state.wrappers@);
            assert(after =~= before.push(session_id@));
            assert(after.to_set() =~= before.to_set().insert(session_id@)) by {
                assert(after[before.len() as int] == session_id@);
                assert forall|id: Seq<char>| before.contains(id) implies after.contains(id) by {
                    let k = choose|k: int| 0 <= k < before.len() && before[k] == id;
                    assert(after[k] == id);
                }
            }
        },
    }
}

/// Forget a wrapper session.
pub fn clear_wrapper_session(state: &mut FreezeState, session_id: &str)
    requires
        old(state).wf(),
    ensures
        final(state).wf(),
        final(state)@ == old(state)@.without_wrapper(session_id@),
{
    let ghost before = crate::text::texts(state.wrappers@);
    match wrapper_index(state, session_id) {
        Some(i) => {
            state.wrappers.remove(i);
            let ghost after = crate::text::texts(state.wrappers@);
            assert(after =~= before.remove(i as int));
            assert(before[i as int] == session_id@);
            assert forall|id: Seq<char>| after.contains(id) implies before.contains(id) && id
                != session_id@ by {
                let k = choose|k: int| 0 <= k < after.len() && after[k] == id;
                let j = if k < i { k } else { k + 1 };
                assert(before[j] == id && j != i);
            }
            assert(after.to_set() =~= before.to_set().remove(session_id@)) by {
                assert forall|id: Seq<char>| before.contains(id) && id != session_id@ implies
                    after.contains(id) by {
                    let k = choose|k: int| 0 <= k < before.len() && before[k] == id;
                    assert(after[if k < i { k } else { k - 1 }] == id);
                }
            }
        },
        None => {
            assert(state@.wrappers =~= state@.wrappers.remove(session_id@));
        },
    }
}

/// The registered wrapper sessions, each once.
pub fn wrapper_sessions(state: &FreezeState) -> (sessions: Vec<String>)
    requires
        state.wf(),
    ensures
        crate::text::texts(sessions@).no_duplicates(),
        crate::text::texts(sessions@).to_set() == state@.wrappers,
{
    let mut sessions: Vec<String> = Vec::new();
    let mut i: usize = 0;
    while i < state.wrappers.len()
        invariant
            i <= state.wrappers@.len(),
            crate::text::texts(sessions@) == crate::text::texts(state.wrappers@).take(i as int),
        decreases state.wrappers@.len() - i,
    {
        let ghost before = crate::text::texts(sessions@);
        sessions.push(state.wrappers[i].clone());
        assert(crate::text::texts(sessions@) =~= before.push(state.wrappers@[i as int]@));
        i = i + 1;
        assert(crate::text::texts(sessions@) =~= crate::text::texts(state.wrappers@).take(i as int));
    }
    assert(crate::text::texts(sessions@) =~= crate::text::texts(state.wrappers@));
    sessions
}

proof fn lemma_only(id: Seq<char>)
    ensures
        only(set![id]) == Some(id),
{
    let ids = set![id];
    assert(ids =~= set![id]);
    let one = choose|one: Seq<char>| ids =~= set![one];
    assert(set![one].contains(id));
}

/// Best-effort single-session attribution for the caller, most exact first:
/// the pin, else the engine's turn, else the lone wrapper session. `None` when
/// unattributable (no context at all, or several wrapper sessions with no pin):
/// callers that need a scope should propagate the ambiguity, not guess.
pub fn resolve_session(state: &FreezeState, pin: &Option<String>) -> (session: Option<String>)
    requires
        state.wf(),
    ensures
        crate::text::text_of(session) == state@.resolved(crate::text::text_of(*pin)),
{
    if pin.is_some() {
        return task_session(pin);
    }
    if state.current.is_some() {
        return current_session_id(state);
    }
    let ghost ids = crate::text::texts(state.wrappers@);
    if state.wrappers.len() == 1 {
        proof {
            assert(ids[0] == state.wrappers@[0]@);
            assert(ids.to_set() =~= set![ids[0]]);
            lemma_only(ids[0]);
        }
        return Some(state.wrappers[0].clone());
    }
    proof {
        if exists|id: Seq<char>| ids.to_set() =~= set![id] {
            let id = choose|id: Seq<char>| ids.to_set() =~= set![id];
            assert(ids.to_set().contains(id));
            assert(ids.len() >= 2);
            assert(ids.to_set().contains(ids[0]) && ids.to_set().contains(ids[1]));
        }
    }
    None
}

/// Sessions relevant to the calling tool. A single entry is the exact
/// attribution; several entries mean concurrent turns outside any pin.
pub fn candidate_sessions(state: &FreezeState, pin: &Option<String>) -> (sessions: Vec<String>)
    requires
        state.wf(),
    ensures
        crate::text::texts(sessions@).no_duplicates(),
        crate::text::texts(sessions@).to_set() == state@.candidates(crate::text::text_of(*pin)),
{
    let one: Option<String> = if pin.is_some() {
        task_session(pin)
    } else {
        current_session_id(state)
    };
    match one {
        Some(id) => {
            let ghost text = id@;
            let mut sessions: Vec<String> = Vec::new();
            sessions.push(id);
            proof {
                let ids = crate::text::texts(sessions@);
                assert(ids =~= seq![text]);
                assert(ids[0] == text);
                assert(ids.to_set() =~= set![text]);
            }
            sessions
        },
        None => wrapper_sessions(state),
    }
}

/// A session that the caller may belong to is frozen.
pub fn is_frozen_current(state: &FreezeState, pin: &Option<String>) -> (frozen: bool)
    requires
        state.wf(),
    ensures
        frozen == state@.frozen_for(crate::text::text_of(*pin)),
{
    let sessions: Vec<String> = candidate_sessions(state, pin);
    let ghost ids = crate::text::texts(sessions@);
    let mut i: usize = 0;
    while i < sessions.len()
        invariant
            state.wf(),
            i <= sessions@.len(),
            ids == crate::text::texts(sessions@),
            ids.to_set() == state@.candidates(crate::text::text_of(*pin)),
            forall|j: int| 0 <= j < i ==> !state@.frozen(#[trigger] ids[j]),
        decreases sessions@.len() - i,
    {
        if is_frozen(state, sessions[i].as_str()) {
            proof {
                assert(ids.contains(ids[i as int]));
                assert(ids.to_set().contains(ids[i as int]));
            }
            return true;
        }
        i = i + 1;
    }
    proof {
        if state@.frozen_for(crate::text::text_of(*pin)) {
            let id = choose|id: Seq<char>|
                state@.candidates(crate::text::text_of(*pin)).contains(id) && state@.frozen(id);
            assert(ids.to_set().contains(id));
            let k = choose|k: int| 0 <= k < ids.len() && ids[k] == id;
            assert(!state@.frozen(ids[k]));
        }
    }
    false
}

/// One turn of the wait for a single session: true when the session has no
/// pending question, false when the caller must park until it is woken.
pub fn wait_for_session(state: &mut FreezeState, session_id: &str) -> (ready: bool)
    requires
        old(state).wf(),
    ensures
        final(state).wf(),
        final(state)@ == old(state)@,
        ready == !old(state)@.frozen(session_id@),
{
    if session_id.is_empty() {
        assert(session_id@ =~= Seq::empty());
        return true;
    }
    state_for(state, session_id) == 0
}

/// What a waiting tool does next.
pub enum WaitAction {
    /// Nothing relevant is frozen: run the tool.
    Proceed,
    /// Park until the waiters of this session are woken, then poll again.
    Park { session: String },
}

/// A wait in progress: the sessions that matter to it, in the order in which
/// they are looked at, and the place of the one it is parked on.
pub struct WaitView {
    pub candidates: Seq<Seq<char>>,
    pub parked: Option<int>,
}

impl WaitView {
    pub open spec fn valid(self) -> bool {
        self.parked matches Some(k) ==> 0 <= k < self.candidates.len()
    }

    /// The first frozen candidate at place `from` or later.
    pub open spec fn first_frozen(self, freeze: FreezeView, from: int) -> Option<int>
        decreases self.candidates.len() - from,
    {
        if from >= self.candidates.len() {
            None
        } else if freeze.frozen(self.candidates[from]) {
            Some(from)
        } else {
            self.first_frozen(freeze, from + 1)
        }
    }

    /// Where to park next: on the same session while it is frozen, else on the
    /// first frozen candidate, so that no session's answer is missed while
    /// parked on another one.
    pub open spec fn next(self, freeze: FreezeView) -> Option<int> {
        match self.parked {
            Some(k) if freeze.frozen(self.candidates[k]) => Some(k),
            _ => self.first_frozen(freeze, 0),
        }
    }
}

/// The wait of one tool, see [`wait_if_frozen`].
pub struct FreezeWait {
    candidates: Vec<String>,
    parked: Option<usize>,
}

impl View for FreezeWait {
    type V = WaitView;

    closed spec fn view(&self) -> WaitView {
        WaitView {
            candidates: crate::text::texts(self.candidates@),
            parked: match self.parked {
                Some(k) => Some(k as int),
                None => None,
            },
        }
    }
}

/// Begin to wait until no `ask_user` is pending for the caller's session.
/// Non-ask tools do this at the very start; `ask_user` itself never does (it
/// *is* the freeze source). With several candidate sessions the wait parks
/// while ANY of them is frozen rather than checking the wrong counter.
pub fn wait_if_frozen(state: &FreezeState, pin: &Option<String>) -> (wait: FreezeWait)
    requires
        state.wf(),
    ensures
        wait@.valid(),
        wait@.parked is None,
        wait@.candidates.no_duplicates(),
        wait@.candidates.to_set() == state@.candidates(crate::text::text_of(*pin)),
{
    FreezeWait { candidates: candidate_sessions(state, pin), parked: None }
}

impl FreezeWait {
    /// Decide what to do next. Called once at the start and after every wake-up
    /// until it says to proceed.
    pub fn poll(&mut self, state: &mut FreezeState) -> (action: WaitAction)
        requires
            old(self)@.valid(),
            old(state).wf(),
        ensures
            final(self)@.valid(),
            final(self)@.candidates == old(self)@.candidates,
            final(self)@.parked == old(self)@.next(old(state)@),
            final(state).wf(),
            final(state)@ == old(state)@,
            match action {
                WaitAction::Proceed => old(self)@.next(old(state)@) is None,
                WaitAction::Park { session } => {
                    &&& old(self)@.next(old(state)@) is Some
                    &&& session@ == old(self)@.candidates[old(self)@.next(old(state)@)->0]
                },
            },
    {
        let ghost before = self@;
        let ghost freeze = state@;
        if let Some(k) = self.parked {
            assert(before.candidates[k as int] == self.candidates@[k as int]@);
            if !wait_for_session(state, self.candidates[k].as_str()) {
                return WaitAction::Park { session: self.candidates[k].clone() };
            }
            self.parked = None;
        }
        let mut i: usize = 0;
        while i < self.candidates.len()
            invariant
                state.wf(),
                state@ == freeze,
                before == old(self)@,
                freeze == old(state)@,
                i <= self.candidates@.len(),
                self.parked is None,
                self@.candidates == before.candidates,
                before.candidates == crate::text::texts(self.candidates@),
                before.next(freeze) == before.first_frozen(freeze, 0),
                before.first_frozen(freeze, 0) == before.first_frozen(freeze, i as int),
            decreases self.candidates@.len() - i,
        {
            assert(before.candidates[i as int] == self.candidates@[i as int]@);
            if !wait_for_session(state, self.candidates[i].as_str()) {
                self.parked = Some(i);
                return WaitAction::Park { session: self.candidates[i].clone() };
            }
            i = i + 1;
        }
        WaitAction::Proceed
    }
}

impl FreezeView {
    /// After `n` questions in session `id`.
    pub open spec fn asked_times(self, id: Seq<char>, n: nat) -> FreezeView
        decreases n,
    {
        if n == 0 {
            self
        } else {
            self.asked_times(id, (n - 1) as nat).asked(id)
        }
    }

    /// After `n` answers in session `id`.
    pub open spec fn answered_times(self, id: Seq<char>, n: nat) -> FreezeView
        decreases n,
    {
        if n == 0 {
            self
        } else {
            self.answered_times(id, (n - 1) as nat).answered(id)
        }
    }

    /// What every [`FreezeState`] keeps: counts are positive and fit `usize`,
    /// and the empty id names neither a counter nor a wrapper session.
    pub open spec fn valid(self) -> bool {
        &&& forall|id: Seq<char>| #[trigger]
            self.pending.contains_key(id) ==> id.len() > 0 && 0 < self.pending[id] <= usize::MAX
        &&& !self.wrappers.contains(Seq::empty())
    }
}

/// Every state that satisfies its invariant has a valid view.
pub proof fn law_states_are_valid(state: FreezeState)
    requires
        state.wf(),
    ensures
        state@.valid(),
{
    assert forall|id: Seq<char>| #[trigger] state@.pending.contains_key(id) implies id.len() > 0 by {
        if id.len() == 0 {
            assert(id =~= Seq::empty());
        }
    }
}

/// The empty id names no session: it is never frozen, and asking, answering
/// and registering under it change nothing.
pub proof fn law_empty_id_is_inert(view: FreezeView)
    requires
        view.valid(),
    ensures
        !view.frozen(Seq::empty()),
        view.asked(Seq::empty()) == view,
        view.answered(Seq::empty()) == view,
        view.with_wrapper(Seq::empty()) == view,
        view.without_wrapper(Seq::empty()) == view,
{
    assert(view.without_wrapper(Seq::empty()) =~= view);
}

/// A question or an answer in one session leaves the other sessions, the
/// engine's turn and the wrapper sessions as they were.
pub proof fn law_sessions_are_independent(view: FreezeView, id: Seq<char>, other: Seq<char>)
    requires
        other != id,
    ensures
        view.asked(id).count(other) == view.count(other),
        view.answered(id).count(other) == view.count(other),
        view.asked(id).current == view.current && view.asked(id).wrappers == view.wrappers,
        view.answered(id).current == view.current && view.answered(id).wrappers == view.wrappers,
{
}

/// An answer undoes a question.
pub proof fn law_answer_undoes_question(view: FreezeView, id: Seq<char>)
    requires
        view.valid(),
        view.count(id) < usize::MAX,
    ensures
        view.asked(id).answered(id) == view,
{
    assert(view.asked(id).answered(id) =~= view);
}

/// Surplus answers are ignored: a session that waits for nothing stays unfrozen.
pub proof fn law_surplus_answers_are_ignored(view: FreezeView, id: Seq<char>, n: nat)
    requires
        !view.frozen(id),
    ensures
        view.answered_times(id, n) == view,
    decreases n,
{
    if n > 0 {
        law_surplus_answers_are_ignored(view, id, (n - 1) as nat);
    }
}

/// Each question counts up and each answer counts down: a session in which
/// `asks` more questions come up, of which `answers` are answered, waits for
/// the rest. It stays frozen until the last answer and is unfrozen by it.
pub proof fn law_frozen_until_all_answered(
    view: FreezeView,
    id: Seq<char>,
    asks: nat,
    answers: nat,
)
    requires
        id.len() > 0,
        view.count(id) + asks <= usize::MAX,
        answers <= view.count(id) + asks,
    ensures
        view.asked_times(id, asks).count(id) == view.count(id) + asks,
        view.asked_times(id, asks).answered_times(id, answers).count(id) == view.count(id) + asks
            - answers,
        view.asked_times(id, asks).answered_times(id, answers).frozen(id) <==> answers < view.count(
            id,
        ) + asks,
    decreases asks + answers,
{
    if answers > 0 {
        law_frozen_until_all_answered(view, id, asks, (answers - 1) as nat);
    } else if asks > 0 {
        law_frozen_until_all_answered(view, id, (asks - 1) as nat, 0);
    }
}

/// A pin decides alone: neither the engine's turn nor the wrapper sessions
/// change the attribution of a pinned caller.
pub proof fn law_pin_decides(view: FreezeView, pin: Seq<char>)
    ensures
        view.resolved(Some(pin)) == Some(pin),
        view.candidates(Some(pin)) == set![pin],
        view.frozen_for(Some(pin)) == view.frozen(pin),
{
    assert(view.candidates(Some(pin)).contains(pin));
}

/// Without a pin the engine's turn decides alone.
pub proof fn law_turn_decides_without_pin(view: FreezeView, turn: Seq<char>)
    requires
        view.current == Some(turn),
    ensures
        view.resolved(None) == Some(turn),
        view.candidates(None) == set![turn],
        view.frozen_for(None) == view.frozen(turn),
{
    assert(view.candidates(None).contains(turn));
}

/// A caller is attributed exactly when it has a single candidate session.
pub proof fn law_resolved_iff_single_candidate(
    view: FreezeView,
    pin: Option<Seq<char>>,
    id: Seq<char>,
)
    ensures
        view.resolved(pin) == Some(id) <==> view.candidates(pin) == set![id],
{
    lemma_only(id);
    let ids = view.candidates(pin);
    if view.resolved(pin) == Some(id) && pin is None && view.current is None {
        let one = choose|one: Seq<char>| ids =~= set![one];
        assert(ids == set![one]);
    }
    if ids == set![id] {
        assert(ids.contains(id));
    }
}

/// Registering a session is idempotent, remembers every session registered
/// before, and is undone by forgetting it.
pub proof fn law_wrapper_sessions_are_a_set(view: FreezeView, id: Seq<char>, other: Seq<char>)
    requires
        id.len() > 0,
    ensures
        view.with_wrapper(id).with_wrapper(id) == view.with_wrapper(id),
        view.with_wrapper(id).wrappers.contains(id),
        view.wrappers.contains(other) ==> view.with_wrapper(id).wrappers.contains(other),
        view.with_wrapper(id).with_wrapper(other) == view.with_wrapper(other).with_wrapper(id),
        !view.wrappers.contains(id) ==> view.with_wrapper(id).without_wrapper(id) == view,
        !view.without_wrapper(id).wrappers.contains(id),
        other != id ==> view.without_wrapper(id).wrappers.contains(other) == view.wrappers.contains(
            other,
        ),
{
    assert(view.with_wrapper(id).with_wrapper(id) =~= view.with_wrapper(id));
    assert(view.with_wrapper(id).with_wrapper(other) =~= view.with_wrapper(other).with_wrapper(id));
    if !view.wrappers.contains(id) {
        assert(view.with_wrapper(id).without_wrapper(id) =~= view);
    }
}

proof fn lemma_first_frozen(wait: WaitView, freeze: FreezeView, from: int)
    requires
        0 <= from <= wait.candidates.len(),
    ensures
        match wait.first_frozen(freeze, from) {
            Some(k) => from <= k < wait.candidates.len() && freeze.frozen(wait.candidates[k])
                && forall|i: int| from <= i < k ==> !freeze.frozen(#[trigger] wait.candidates[i]),
            None => forall|i: int|
                from <= i < wait.candidates.len() ==> !freeze.frozen(#[trigger] wait.candidates[i]),
        },
    decreases wait.candidates.len() - from,
{
    if from < wait.candidates.len() && !freeze.frozen(wait.candidates[from]) {
        lemma_first_frozen(wait, freeze, from + 1);
    }
}

/// A wait proceeds exactly when none of its sessions is frozen; until then it
/// is parked on one that is.
pub proof fn law_wait_parks_while_any_is_frozen(wait: WaitView, freeze: FreezeView)
    requires
        wait.valid(),
    ensures
        wait.next(freeze) is None <==> forall|i: int|
            0 <= i < wait.candidates.len() ==> !freeze.frozen(#[trigger] wait.candidates[i]),
        wait.next(freeze) matches Some(k) ==> 0 <= k < wait.candidates.len() && freeze.frozen(
            wait.candidates[k],
        ),
{
    lemma_first_frozen(wait, freeze, 0);
}

/// A new wait proceeds at once exactly when the caller is not frozen.
pub proof fn law_new_wait_parks_iff_frozen(wait: WaitView, freeze: FreezeView, pin: Option<Seq<char>>)
    requires
        wait.parked is None,
        wait.candidates.to_set() == freeze.candidates(pin),
    ensures
        wait.next(freeze) is Some <==> freeze.frozen_for(pin),
{
    law_wait_parks_while_any_is_frozen(wait, freeze);
    if wait.next(freeze) is Some {
        let id = wait.candidates[wait.next(freeze)->0];
        assert(wait.candidates.contains(id));
        assert(freeze.candidates(pin).contains(id) && freeze.frozen(id));
    }
    if freeze.frozen_for(pin) {
        let id = choose|id: Seq<char>| freeze.candidates(pin).contains(id) && freeze.frozen(id);
        assert(wait.candidates.to_set().contains(id));
        let k = choose|k: int| 0 <= k < wait.candidates.len() && wait.candidates[k] == id;
        assert(freeze.frozen(wait.candidates[k]));
    }
}

/// The wait of a pinned caller lasts exactly as long as its session is frozen,
/// however often it is polled and whatever the other sessions do.
pub proof fn law_pinned_wait_lasts_while_frozen(wait: WaitView, freeze: FreezeView, pin: Seq<char>)
    requires
        wait.valid(),
        wait.candidates.to_set() == set![pin],
    ensures
        wait.next(freeze) is Some <==> freeze.frozen(pin),
{
    law_wait_parks_while_any_is_frozen(wait, freeze);
    assert(wait.candidates.to_set().contains(pin));
    let k = choose|k: int| 0 <= k < wait.candidates.len() && wait.candidates[k] == pin;
    assert(wait.candidates[k] == pin);
    assert forall|i: int| 0 <= i < wait.candidates.len() implies #[trigger] wait.candidates[i]
        == pin by {
        assert(wait.candidates.to_set().contains(wait.candidates[i]));
    }
}

/// The last answer releases the wait of a tool with a single session.
pub proof fn law_last_answer_releases(wait: WaitView, freeze: FreezeView, id: Seq<char>)
    requires
        wait.valid(),
        wait.candidates == seq![id],
        freeze.valid(),
        freeze.frozen(id),
    ensures
        wait.next(freeze) == Some(0int),
        wait.next(freeze.answered_times(id, freeze.count(id))) is None,
{
    law_wait_parks_while_any_is_frozen(wait, freeze);
    law_frozen_until_all_answered(freeze, id, 0, freeze.count(id));
    law_wait_parks_while_any_is_frozen(wait, freeze.answered_times(id, freeze.count(id)));
}

/// A question or an answer in a session.
pub enum FreezeEvent {
    Ask(Seq<char>),
    Answer(Seq<char>),
}

impl FreezeView {
    /// After a sequence of questions and answers, in any sessions and order.
    pub open spec fn after(self, events: Seq<FreezeEvent>) -> FreezeView
        decreases events.len(),
    {
        if events.len() == 0 {
            self
        } else {
            let before = self.after(events.drop_last());
            match events.last() {
                FreezeEvent::Ask(id) => before.asked(id),
                FreezeEvent::Answer(id) => before.answered(id),
            }
        }
    }
}

/// How many questions session `id` waits for after a history of questions and
/// answers, having waited for `start` before it: a question adds one, an answer
/// takes one off unless there is none.
pub open spec fn open_questions(start: nat, events: Seq<FreezeEvent>, id: Seq<char>) -> nat
    decreases events.len(),
{
    if events.len() == 0 {
        start
    } else {
        let before = open_questions(start, events.drop_last(), id);
        match events.last() {
            FreezeEvent::Ask(other) if other == id => before + 1,
            FreezeEvent::Answer(other) if other == id && before > 0 => (before - 1) as nat,
            _ => before,
        }
    }
}

/// However questions and answers of all sessions interleave, surplus answers
/// among them, a session waits for its open questions, provided that their
/// number fits `usize` all along.
pub proof fn law_count_is_open_questions(
    view: FreezeView,
    events: Seq<FreezeEvent>,
    id: Seq<char>,
)
    requires
        id.len() > 0,
        forall|k: int|
            0 <= k <= events.len() ==> open_questions(view.count(id), #[trigger] events.take(k), id)
                <= usize::MAX,
    ensures
        view.after(events).count(id) == open_questions(view.count(id), events, id),
    decreases events.len(),
{
    if events.len() > 0 {
        let init = events.drop_last();
        assert forall|k: int| 0 <= k <= init.len() implies open_questions(
            view.count(id),
            #[trigger] init.take(k),
            id,
        ) <= usize::MAX by {
            assert(init.take(k) =~= events.take(k));
        }
        law_count_is_open_questions(view, init, id);
        assert(events.take(events.len() as int) =~= events);
        assert(events.take(init.len() as int) =~= init);
    }
}

/// Questions minus answers of session `id`.
pub open spec fn balance(events: Seq<FreezeEvent>, id: Seq<char>) -> int
    decreases events.len(),
{
    if events.len() == 0 {
        0
    } else {
        let before = balance(events.drop_last(), id);
        match events.last() {
            FreezeEvent::Ask(other) if other == id => before + 1,
            FreezeEvent::Answer(other) if other == id => before - 1,
            _ => before,
        }
    }
}

/// Where no answer comes before its question, the count is the number of
/// questions minus the number of answers.
pub proof fn law_count_is_questions_minus_answers(
    view: FreezeView,
    events: Seq<FreezeEvent>,
    id: Seq<char>,
)
    requires
        id.len() > 0,
        forall|k: int|
            0 <= k <= events.len() ==> 0 <= view.count(id) + balance(#[trigger] events.take(k), id)
                <= usize::MAX,
    ensures
        view.after(events).count(id) == view.count(id) + balance(events, id),
    decreases events.len(),
{
    if events.len() > 0 {
        let init = events.drop_last();
        assert forall|k: int| 0 <= k <= init.len() implies 0 <= view.count(id) + balance(
            #[trigger] init.take(k),
            id,
        ) <= usize::MAX by {
            assert(init.take(k) =~= events.take(k));
        }
        law_count_is_questions_minus_answers(view, init, id);
        assert(events.take(events.len() as int) =~= events);
        assert(events.take(init.len() as int) =~= init);
    }
}

/// With no pin and no engine turn, a caller may belong to every registered
/// wrapper session, however many there are, and to no other session. So a
/// frozen wrapper session freezes every unattributed caller.
pub proof fn law_unattributed_callers_wait_for_every_wrapper(view: FreezeView, id: Seq<char>)
    requires
        view.current is None,
    ensures
        view.candidates(None).contains(id) <==> view.wrappers.contains(id),
        view.wrappers.contains(id) && view.count(id) > 0 ==> view.frozen_for(None),
        view.frozen_for(None) ==> exists|one: Seq<char>|
            #[trigger] view.wrappers.contains(one) && view.count(one) > 0,
{
    if view.wrappers.contains(id) && view.count(id) > 0 {
        assert(view.candidates(None).contains(id) && view.frozen(id));
    }
    if view.frozen_for(None) {
        let one = choose|one: Seq<char>| view.candidates(None).contains(one) && view.frozen(one);
        assert(view.wrappers.contains(one) && view.count(one) > 0);
    }
}

/// A caller is frozen exactly when a session that it may belong to has an open
/// question: any one of them is enough, and no other session counts.
pub proof fn law_any_candidate_freezes(view: FreezeView, pin: Option<Seq<char>>, id: Seq<char>)
    ensures
        view.frozen(id) <==> view.pending.contains_key(id) && view.pending[id] > 0,
        view.candidates(pin).contains(id) && view.frozen(id) ==> view.frozen_for(pin),
        view.frozen_for(pin) ==> exists|one: Seq<char>|
            #[trigger] view.candidates(pin).contains(one) && view.frozen(one),
{
}

/// An idle state has no question, no turn and no wrapper session, so nobody is
/// frozen or attributed without a pin.
pub proof fn law_idle_freezes_nobody(pin: Option<Seq<char>>, id: Seq<char>)
    ensures
        FreezeView::idle().count(id) == 0,
        !FreezeView::idle().frozen_for(pin),
        FreezeView::idle().resolved(pin) == pin,
        FreezeView::idle().current is None,
        !FreezeView::idle().wrappers.contains(id),
{
    if pin is None && FreezeView::idle().resolved(pin) is Some {
        let ids = FreezeView::idle().wrappers;
        let one = choose|one: Seq<char>| ids =~= set![one];
        assert(ids.contains(one));
    }
}

/// One question and one answer: the count goes up by one (and wraps at the end
/// of `usize`), the answer brings it down by one and never below zero.
pub proof fn law_one_question_one_answer(view: FreezeView, id: Seq<char>)
    requires
        view.valid(),
        id.len() > 0,
    ensures
        view.count(id) < usize::MAX ==> view.asked(id).count(id) == view.count(id) + 1,
        view.count(id) == usize::MAX ==> view.asked(id).count(id) == 0,
        view.answered(id).count(id) == if view.count(id) > 0 {
            view.count(id) - 1
        } else {
            0
        },
        view.asked(id).valid(),
        view.answered(id).valid(),
{
}

/// Starting and ending a turn changes the turn and nothing else: a turn takes
/// every unpinned caller, and its end gives them back to the wrapper sessions.
pub proof fn law_turns_take_unpinned_callers(view: FreezeView, id: Seq<char>, other: Seq<char>)
    ensures
        view.with_current(Some(id)).resolved(None) == Some(id),
        view.with_current(Some(id)).candidates(None) == set![id],
        view.with_current(None).candidates(None) == view.wrappers,
        view.with_current(Some(id)).with_current(None) == view.with_current(None),
        view.with_current(view.current) == view,
        view.with_current(Some(id)).count(other) == view.count(other),
        view.with_current(None).count(other) == view.count(other),
        view.with_current(Some(id)).wrappers == view.wrappers,
        view.with_current(None).wrappers == view.wrappers,
{
}

/// After a session is registered the wrapper sessions are those from before and
/// this one; after it is forgotten, those from before without it. Questions and
/// the turn stay as they were.
pub proof fn law_wrapper_membership(view: FreezeView, id: Seq<char>, other: Seq<char>)
    ensures
        view.with_wrapper(id).wrappers.contains(other) <==> view.wrappers.contains(other) || (other
            == id && id.len() > 0),
        view.without_wrapper(id).wrappers.contains(other) <==> view.wrappers.contains(other) && other
            != id,
        view.with_wrapper(id).count(other) == view.count(other),
        view.without_wrapper(id).count(other) == view.count(other),
        view.with_wrapper(id).current == view.current,
        view.without_wrapper(id).current == view.current,
{
}

/// A wait stays parked where it is while that session is frozen; else it parks
/// on the frozen candidate that comes first.
pub proof fn law_wait_parks_on_the_first_frozen(wait: WaitView, freeze: FreezeView, k: int)
    requires
        wait.valid(),
    ensures
        wait.parked == Some(k) && freeze.frozen(wait.candidates[k]) ==> wait.next(freeze) == Some(k),
        (wait.parked matches Some(p) ==> !freeze.frozen(wait.candidates[p])) && wait.next(freeze)
            == Some(k) ==> 0 <= k < wait.candidates.len() && freeze.frozen(wait.candidates[k])
            && forall|i: int| 0 <= i < k ==> !freeze.frozen(#[trigger] wait.candidates[i]),
{
    lemma_first_frozen(wait, freeze, 0);
}

} // verus!
