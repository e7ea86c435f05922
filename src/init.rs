//! Ordered, fail-fast bring-up of device drivers.
//!
//! The drivers' own init operations act on hardware, so they run outside: the
//! sequence says what to do next, the caller does it and reports back.
use vstd::prelude::*;

verus! {

/// What the caller does next during early init.
#[derive(PartialEq, Eq, Structural, Clone, Copy, Debug)]
pub enum InitAction {
    /// Run the init operation of the driver at this index.
    InitDriver(usize),
    /// Every driver succeeded: run the board's post-driver hook.
    RunPostHook,
    /// The driver at this index failed: halt, naming it.
    Halt(usize),
    /// Early init is over: enter the main loop.
    EnterMainLoop,
}

/// The progress of early init.
pub ghost struct InitView {
    /// How many drivers the board has.
    pub count: nat,
    /// The outcome each driver reported so far, in the order they ran.
    pub outcomes: Seq<bool>,
    /// Whether the post-driver hook has run.
    pub hook_done: bool,
}

/// The view at the start of early init.
pub open spec fn init_start(count: nat) -> InitView {
    InitView { count, outcomes: Seq::empty(), hook_done: false }
}

/// The view after the driver that was asked for reports `ok`.
pub open spec fn init_after_outcome(v: InitView, ok: bool) -> InitView {
    InitView { outcomes: v.outcomes.push(ok), ..v }
}

/// The view after the post-driver hook has run.
pub open spec fn init_after_hook(v: InitView) -> InitView {
    InitView { hook_done: true, ..v }
}

/// Whether the last reported outcome is a failure. Nothing is reported after
/// a failure, so this is whether any driver failed.
pub open spec fn has_failure(outcomes: Seq<bool>) -> bool {
    outcomes.len() > 0 && !outcomes.last()
}

/// The action that a view calls for. Drivers run in index order; the first
/// failure halts for good; the hook runs once, after every driver succeeded.
pub open spec fn init_action(v: InitView) -> InitAction {
    if has_failure(v.outcomes) {
        InitAction::Halt((v.outcomes.len() - 1) as usize)
    } else if v.outcomes.len() < v.count {
        InitAction::InitDriver(v.outcomes.len() as usize)
    } else if !v.hook_done {
        InitAction::RunPostHook
    } else {
        InitAction::EnterMainLoop
    }
}

/// A view that early init can reach: no driver beyond the board's, nothing
/// after the first failure, the hook only after every driver succeeded.
pub open spec fn init_reachable(v: InitView) -> bool {
    &&& v.outcomes.len() <= v.count
    &&& v.count <= usize::MAX
    &&& forall|i: int| 0 <= i < v.outcomes.len() - 1 ==> v.outcomes[i]
    &&& v.hook_done ==> v.outcomes.len() == v.count && forall|i: int|
        0 <= i < v.outcomes.len() ==> v.outcomes[i]
}

/// The view after the drivers report `oks` in turn, from the start.
pub open spec fn init_run(count: nat, oks: Seq<bool>) -> InitView
    decreases oks.len(),
{
    if oks.len() == 0 {
        init_start(count)
    } else {
        init_after_outcome(init_run(count, oks.drop_last()), oks.last())
    }
}

/// Outcomes that drivers can report in turn: no more than there are drivers,
/// and none after a failure.
pub open spec fn valid_outcomes(count: nat, oks: Seq<bool>) -> bool {
    &&& oks.len() <= count
    &&& forall|i: int| 0 <= i < oks.len() - 1 ==> oks[i]
}

/// Early init for a board with a fixed number of drivers.
pub struct InitSequence {
    count: usize,
    done: usize,
    failed: bool,
    hook_done: bool,
    outcomes: Ghost<Seq<bool>>,
}

impl View for InitSequence {
    type V = InitView;

    closed spec fn view(&self) -> InitView {
        InitView { count: self.count as nat, outcomes: self.outcomes@, hook_done: self.hook_done }
    }
}

impl InitSequence {
    /// The fields agree with the view, and the view is reachable.
    pub closed spec fn wf(&self) -> bool {
        &&& init_reachable(self@)
        &&& self.done == self.outcomes@.len()
        &&& self.failed == has_failure(self.outcomes@)
    }

    /// Early init for a board with `count` drivers, none run yet.
    pub fn new(count: usize) -> (r: InitSequence)
        ensures
            r.wf(),
            r@ == init_start(count as nat),
    {
        InitSequence { count, done: 0, failed: false, hook_done: false, outcomes: Ghost(Seq::empty()) }
    }

    /// What the caller does next.
    pub fn next_action(&self) -> (r: InitAction)
        requires
            self.wf(),
        ensures
            r == init_action(self@),
    {
        if self.failed {
            InitAction::Halt(self.done - 1)
        } else if self.done < self.count {
            InitAction::InitDriver(self.done)
        } else if !self.hook_done {
            InitAction::RunPostHook
        } else {
            InitAction::EnterMainLoop
        }
    }

    /// The driver that `next_action` named reports its outcome.
    pub fn driver_done(&mut self, ok: bool)
        requires
            old(self).wf(),
            init_action(old(self)@) is InitDriver,
        ensures
            final(self).wf(),
            final(self)@ == init_after_outcome(old(self)@, ok),
    {
        let ghost prev = self.outcomes@;
        self.outcomes = Ghost(self.outcomes@.push(ok));
        self.done = self.done + 1;
        self.failed = !ok;
        proof {
            let s = self.outcomes@;
            if !ok {
                assert(!s[s.len() - 1]);
            } else {
                assert forall|i: int| 0 <= i < s.len() implies s[i] by {
                    if i < prev.len() {
                        assert(prev[i] == s[i]);
                    }
                }
            }
        }
    }

    /// The post-driver hook has run.
    pub fn hook_done(&mut self)
        requires
            old(self).wf(),
            init_action(old(self)@) == InitAction::RunPostHook,
        ensures
            final(self).wf(),
            final(self)@ == init_after_hook(old(self)@),
    {
        self.hook_done = true;
    }
}

/// The view after outcomes `oks` holds exactly those outcomes.
pub proof fn lemma_run_outcomes(count: nat, oks: Seq<bool>)
    ensures
        init_run(count, oks) == (InitView { count, outcomes: oks, hook_done: false }),
    decreases oks.len(),
{
    if oks.len() > 0 {
        lemma_run_outcomes(count, oks.drop_last());
        assert(oks.drop_last().push(oks.last()) == oks);
    } else {
        assert(oks == Seq::<bool>::empty());
    }
}

/// Drivers are initialized in exactly the board's order: while drivers report
/// outcomes `oks` in turn, the `j`-th driver asked for is the one at index `j`.
pub proof fn lemma_init_order(count: nat, oks: Seq<bool>, j: int)
    requires
        count <= usize::MAX,
        valid_outcomes(count, oks),
        0 <= j < oks.len(),
    ensures
        init_action(init_run(count, oks.take(j))) == InitAction::InitDriver(j as usize),
{
    lemma_run_outcomes(count, oks.take(j));
    let t = oks.take(j);
    assert(!has_failure(t)) by {
        assert forall|i: int| 0 <= i < t.len() implies t[i] by {
            assert(t[i] == oks[i]);
        }
    }
}

/// Fail-fast: once the driver at index `i` fails, no later driver is ever
/// asked for; early init halts naming driver `i`, and no report or hook can
/// move it on.
pub proof fn lemma_fail_fast(count: nat, oks: Seq<bool>)
    requires
        count <= usize::MAX,
        valid_outcomes(count, oks),
        oks.len() > 0,
        !oks.last(),
    ensures
        init_action(init_run(count, oks)) == InitAction::Halt((oks.len() - 1) as usize),
        !(init_action(init_run(count, oks)) is InitDriver),
        init_action(init_run(count, oks)) != InitAction::RunPostHook,
        init_action(init_run(count, oks)) != InitAction::EnterMainLoop,
{
    lemma_run_outcomes(count, oks);
    assert(!oks[oks.len() - 1]);
}

/// The post-driver hook is called for exactly when every driver of the board
/// has reported success.
pub proof fn lemma_hook_iff_all_succeeded(count: nat, oks: Seq<bool>)
    requires
        count <= usize::MAX,
        valid_outcomes(count, oks),
    ensures
        init_action(init_run(count, oks)) == InitAction::RunPostHook <==> (oks.len() == count
            && forall|i: int| 0 <= i < oks.len() ==> oks[i]),
{
    lemma_run_outcomes(count, oks);
    if oks.len() == count && forall|i: int| 0 <= i < oks.len() ==> oks[i] {
        assert(!has_failure(oks));
    }
    if init_action(init_run(count, oks)) == InitAction::RunPostHook {
        assert(!has_failure(oks));
    }
}

} // verus!
