//! What holds of every walk, whatever the directory tree and the rules.

use crate::predicate::Role;
use crate::walker::Action;
use crate::walker::Event;
use crate::walker::FileWalkerView;
use crate::walker::WalkState;
use vstd::prelude::*;

verus! {

/// One step of a walk: where it stood, what the caller reported, where it
/// stood next and what it asked for.
pub struct Step<'a, P, E> {
    pub state: WalkState,
    pub event: Event<'a, P, E>,
    pub next: WalkState,
    pub action: Action<'a, P, E>,
}

impl<P, F, C> FileWalkerView<P, F, C> {
    /// No predicate that plays a role has two answers for one path.
    pub open spec fn single_valued(self) -> bool where F: Fn(&P) -> bool {
        forall|role: Role, i: int, p: &P| #[trigger]
            self.plays(role, i) ==> !(#[trigger] self.predicates[i].accepts(p)
                && self.predicates[i].rejects(p))
    }

    /// `steps` are the first steps of a walk that entered its root: each
    /// is allowed, and each starts where the one before it ended. A file
    /// reported while the walk stands at depth `k` lies `k` levels below the root.
    pub open spec fn runs<'a, E>(self, steps: Seq<Step<'a, P, E>>) -> bool where
        F: Fn(&P) -> bool,
     {
        &&& steps.len() > 0 ==> (steps[0].state, Action::<P, E>::Enter(&self.location))
            == self.first::<E>()
        &&& forall|k: int|
            0 <= k < steps.len() ==> self.allows(
                (#[trigger] steps[k]).state,
                steps[k].event,
                steps[k].next,
                steps[k].action,
            )
        &&& forall|j: int, k: int|
            0 <= j && k == j + 1 && k < steps.len() ==> (#[trigger] steps[k]).state == (
            #[trigger] steps[j]).next
    }
}

/// A step that starts below the depth limit ends below it, or ends the walk.
pub proof fn lemma_step_keeps_depth_below_limit<'a, P, F: Fn(&P) -> bool, C, E>(
    cfg: FileWalkerView<P, F, C>,
    state: WalkState,
    event: Event<'a, P, E>,
    next: WalkState,
    action: Action<'a, P, E>,
)
    requires
        state.listing_below(cfg.limit()),
        cfg.allows(state, event, next, action),
    ensures
        next is Finished || next.listing_below(cfg.limit()),
        next is Finished <==> action is Finish,
{
}

/// Every step of a walk starts in a listing below the depth limit.
pub proof fn lemma_run_stays_below_limit<'a, P, F: Fn(&P) -> bool, C, E>(
    cfg: FileWalkerView<P, F, C>,
    steps: Seq<Step<'a, P, E>>,
    i: int,
)
    requires
        cfg.runs(steps),
        0 <= i < steps.len(),
    ensures
        steps[i].state.listing_below(cfg.limit()),
    decreases i,
{
    if i > 0 {
        lemma_run_stays_below_limit(cfg, steps, i - 1);
        let before = steps[i - 1];
        lemma_step_keeps_depth_below_limit(
            cfg,
            before.state,
            before.event,
            before.next,
            before.action,
        );
        assert(steps[i].state == before.next);
        assert(cfg.allows(steps[i].state, steps[i].event, steps[i].next, steps[i].action));
    }
}

/// With a maximum depth of `d`, no file reaches the callbacks from depth
/// `d` or beyond: whenever a walk dispatches, it stands at a depth below `d`.
pub proof fn law_no_dispatch_beyond_max_depth<'a, P, F: Fn(&P) -> bool, C, E>(
    cfg: FileWalkerView<P, F, C>,
    d: usize,
    steps: Seq<Step<'a, P, E>>,
    i: int,
)
    requires
        cfg.max_depth == Some(d),
        cfg.runs(steps),
        0 <= i < steps.len(),
        steps[i].action is Dispatch,
    ensures
        steps[i].state matches WalkState::Listing { depth } && depth < d,
{
    lemma_run_stays_below_limit(cfg, steps, i);
}

/// With a minimum depth of `m`, no file reaches the callbacks from a
/// depth above `m`: whenever a walk dispatches, it stands at depth `m` or deeper.
pub proof fn law_no_dispatch_above_min_depth<'a, P, F: Fn(&P) -> bool, C, E>(
    cfg: FileWalkerView<P, F, C>,
    m: usize,
    steps: Seq<Step<'a, P, E>>,
    i: int,
)
    requires
        cfg.min_depth == Some(m),
        cfg.runs(steps),
        0 <= i < steps.len(),
        steps[i].action is Dispatch,
    ensures
        steps[i].state matches WalkState::Listing { depth } && depth >= m,
{
    lemma_run_stays_below_limit(cfg, steps, i);
}

/// The minimum depth has no say on directories: two walkers that differ
/// in nothing else allow the same steps on a directory.
pub proof fn law_min_depth_spares_directories<'a, P, F: Fn(&P) -> bool, C, E>(
    cfg: FileWalkerView<P, F, C>,
    other: FileWalkerView<P, F, C>,
    state: WalkState,
    path: &'a P,
    next: WalkState,
    action: Action<'a, P, E>,
)
    requires
        other == (FileWalkerView { min_depth: other.min_depth, ..cfg }),
    ensures
        cfg.allows(state, Event::Entry { path, is_dir: true }, next, action) == other.allows(
            state,
            Event::Entry { path, is_dir: true },
            next,
            action,
        ),
{
    assert forall|role: Role, p: &P| cfg.admits(role, p) == other.admits(role, p) by {
        assert forall|i: int| cfg.plays(role, i) == other.plays(role, i) by {}
    }
    assert forall|role: Role, p: &P| cfg.refuses(role, p) == other.refuses(role, p) by {
        assert forall|i: int| cfg.plays(role, i) == other.plays(role, i) by {}
    }
}

/// Where no predicate plays a role, that role admits every path and
/// refuses none.
pub proof fn law_vacant_role_admits<P, F: Fn(&P) -> bool, C>(
    cfg: FileWalkerView<P, F, C>,
    role: Role,
    p: &P,
)
    requires
        forall|i: int| !cfg.plays(role, i),
    ensures
        cfg.admits(role, p),
        !cfg.refuses(role, p),
{
}

/// One predicate that cannot answer `true` on a path is enough for its
/// role not to admit the path.
pub proof fn law_one_failure_denies<P, F: Fn(&P) -> bool, C>(
    cfg: FileWalkerView<P, F, C>,
    role: Role,
    i: int,
    p: &P,
)
    requires
        cfg.plays(role, i),
        !cfg.predicates[i].accepts(p),
    ensures
        !cfg.admits(role, p),
{
}

/// A file that a soft rule or a file rule denies is skipped, and its
/// siblings are still visited: unless a hard rule ends the listing, the
/// walk stays where it stands and asks for the next entry.
pub proof fn law_soft_failure_skips_the_file<'a, P, F: Fn(&P) -> bool, C, E>(
    cfg: FileWalkerView<P, F, C>,
    state: WalkState,
    path: &'a P,
    next: WalkState,
    action: Action<'a, P, E>,
)
    requires
        !cfg.admits(Role::DirSoft, path) || !cfg.admits(Role::File, path),
        cfg.allows(state, Event::Entry { path, is_dir: false }, next, action),
    ensures
        !(action is Dispatch),
        !cfg.refuses(Role::DirHard, path) ==> next == state && action == Action::<P, E>::Advance,
{
}

/// An entry that a hard rule denies ends the listing that holds it: the
/// walk neither enters nor dispatches it nor asks for its siblings, but
/// returns to the directory above, or ends in success at the root.
pub proof fn law_hard_failure_ends_the_listing<'a, P, F: Fn(&P) -> bool, C, E>(
    cfg: FileWalkerView<P, F, C>,
    state: WalkState,
    path: &'a P,
    is_dir: bool,
    next: WalkState,
    action: Action<'a, P, E>,
)
    requires
        !cfg.admits(Role::DirHard, path),
        cfg.allows(state, Event::Entry { path, is_dir }, next, action),
    ensures
        cfg.leaves(state, next, action),
        action == Action::<P, E>::Leave || action == Action::<P, E>::Finish(Ok(())),
{
}

/// With a maximum depth of zero nothing is listed: the walk is over, in
/// success, before it has asked for anything.
pub proof fn law_zero_max_depth_lists_nothing<'a, P, F, C, E>(
    cfg: FileWalkerView<P, F, C>,
    state: WalkState,
    action: Action<'a, P, E>,
)
    requires
        cfg.max_depth == Some(0usize),
        (state, action) == cfg.first::<E>(),
    ensures
        state == WalkState::Finished,
        action == Action::<P, E>::Finish(Ok(())),
{
}

/// The directories of the last listed level are not entered: a walk never
/// asks to enter a directory from a depth that has no listed depth below it.
pub proof fn law_no_descent_from_last_level<'a, P, F: Fn(&P) -> bool, C, E>(
    cfg: FileWalkerView<P, F, C>,
    state: WalkState,
    event: Event<'a, P, E>,
    next: WalkState,
    action: Action<'a, P, E>,
)
    requires
        cfg.allows(state, event, next, action),
        state matches WalkState::Listing { depth } && depth + 1 >= cfg.limit(),
    ensures
        !(action is Enter),
{
}

/// With a maximum depth of one, a walk lists its root and nothing below:
/// after the root, no directory is entered.
pub proof fn law_max_depth_one_stays_in_root<'a, P, F: Fn(&P) -> bool, C, E>(
    cfg: FileWalkerView<P, F, C>,
    steps: Seq<Step<'a, P, E>>,
    i: int,
)
    requires
        cfg.max_depth == Some(1usize),
        cfg.runs(steps),
        0 <= i < steps.len(),
    ensures
        steps[i].state == (WalkState::Listing { depth: 0 }),
        !(steps[i].action is Enter),
{
    lemma_run_stays_below_limit(cfg, steps, i);
}

/// Where no predicate has two answers for one path, a walk has no choice:
/// the state and the event decide the next state and the request.
pub proof fn law_single_valued_rules_decide<'a, P, F: Fn(&P) -> bool, C, E>(
    cfg: FileWalkerView<P, F, C>,
    state: WalkState,
    event: Event<'a, P, E>,
    next1: WalkState,
    action1: Action<'a, P, E>,
    next2: WalkState,
    action2: Action<'a, P, E>,
)
    requires
        cfg.single_valued(),
        cfg.allows(state, event, next1, action1),
        cfg.allows(state, event, next2, action2),
    ensures
        next1 == next2,
        action1 == action2,
{
    assert forall|role: Role, p: &P| !(cfg.admits(role, p) && cfg.refuses(role, p)) by {
        if cfg.admits(role, p) && cfg.refuses(role, p) {
            let i = choose|i: int| #[trigger] cfg.plays(role, i) && cfg.predicates[i].rejects(p);
            assert(cfg.predicates[i].accepts(p));
        }
    }
}

} // verus!
