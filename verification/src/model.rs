//! The walk as a whole.
//!
//! A walker takes one step at a time and leaves the directory reads to its
//! caller. This module says what comes of it in the end: given what each
//! directory read gives, a caller that does what the walker asks for
//! dispatches the files, and ends with the result, of a depth-first descent
//! from the root.

use crate::predicate::Role;
use crate::walker::Action;
use crate::walker::Event;
use crate::walker::FileWalkerView;
use crate::walker::WalkState;
use vstd::prelude::*;

verus! {

/// An entry as a directory read reports it.
pub struct Found<P> {
    pub path: P,
    pub is_dir: bool,
}

/// What reading a directory gives: its entries in the order in which they
/// are reported, each of which may fail to be read, or the error of
/// opening it.
pub type Listing<P, E> = Result<Seq<Result<Found<P>, E>>, E>;

/// What a walk, or a part of one, comes to: the files handed to the
/// callbacks, in order, and how it ended.
pub struct Trace<P, E> {
    pub dispatched: Seq<P>,
    pub outcome: Result<(), E>,
}

impl<P, E> Trace<P, E> {
    /// The trace that dispatches nothing and ends with `outcome`.
    pub open spec fn idle(outcome: Result<(), E>) -> Self {
        Trace { dispatched: Seq::empty(), outcome }
    }

    /// This trace, followed by `rest` unless it ends in an error.
    pub open spec fn followed_by(self, rest: Self) -> Self {
        if self.outcome is Err {
            self
        } else {
            Trace { dispatched: self.dispatched + rest.dispatched, outcome: rest.outcome }
        }
    }
}

/// A directory that a caller holds open: its entries, and how many of
/// them it has reported.
pub struct Frame<P, E> {
    pub entries: Seq<Result<Found<P>, E>>,
    pub cursor: nat,
}

/// A walk under way, between two directory reads, or over.
pub enum Run<P, E> {
    /// The walker stands at `state`, the caller holds `open` open, the
    /// innermost last, and `dispatched` went to the callbacks so far.
    Going { state: WalkState, open: Seq<Frame<P, E>>, dispatched: Seq<P> },
    /// The walk has ended.
    Over { trace: Trace<P, E> },
}

/// What the innermost directory of `open` reports next, and `open` after
/// the report.
pub open spec fn read<'a, P, E>(open: Seq<Frame<P, E>>) -> (Event<'a, P, E>, Seq<Frame<P, E>>)
    recommends
        open.len() > 0,
{
    let top = open.last();
    if top.cursor < top.entries.len() {
        let after = open.update(
            open.len() - 1,
            Frame { entries: top.entries, cursor: top.cursor + 1 },
        );
        match top.entries[top.cursor as int] {
            Ok(found) => (Event::Entry { path: &found.path, is_dir: found.is_dir }, after),
            Err(e) => (Event::Failed(e), after),
        }
    } else {
        (Event::Exhausted, open)
    }
}

impl<P, F, C> FileWalkerView<P, F, C> {
    /// Every predicate that plays a role answers each path, and with one
    /// answer.
    pub open spec fn decisive(self) -> bool where F: Fn(&P) -> bool {
        forall|role: Role, i: int, p: &P| #[trigger]
            self.plays(role, i) ==> (#[trigger] self.predicates[i].accepts(p))
                != self.predicates[i].rejects(p)
    }

    /// The step that a walk takes from `state` on `event`, where a role
    /// holds of a path exactly if all its predicates can answer `true`.
    pub open spec fn next<'a, E>(self, state: WalkState, event: Event<'a, P, E>) -> (
        WalkState,
        Action<'a, P, E>,
    ) where F: Fn(&P) -> bool
        recommends
            state is Listing,
    {
        match state {
            WalkState::Finished => (state, Action::Finish(Ok(()))),
            WalkState::Listing { depth } => match event {
                Event::Failed(e) => (WalkState::Finished, Action::Finish(Err(e))),
                Event::Exhausted => self.left(depth),
                Event::Entry { path, is_dir } => if !self.admits(Role::DirHard, path) {
                    self.left(depth)
                } else if is_dir {
                    if depth + 1 < self.limit() {
                        (WalkState::Listing { depth: (depth + 1) as usize }, Action::Enter(path))
                    } else {
                        (state, Action::Advance)
                    }
                } else if depth >= self.floor() && self.admits(Role::DirSoft, path) && self.admits(
                    Role::File,
                    path,
                ) {
                    (state, Action::Dispatch(path))
                } else {
                    (state, Action::Advance)
                },
            },
        }
    }

    /// What the descent into the directory `location`, `depth` levels
    /// below the root, comes to: nothing at the depth limit; the error of
    /// the read where the directory cannot be opened; else what its
    /// entries come to.
    pub open spec fn walk_dir<E>(
        self,
        fs: spec_fn(P) -> Listing<P, E>,
        location: P,
        depth: nat,
    ) -> Trace<P, E> where F: Fn(&P) -> bool
        decreases self.limit() - depth, 1nat, 0nat,
    {
        if depth >= self.limit() {
            Trace::idle(Ok(()))
        } else {
            match fs(location) {
                Err(e) => Trace::idle(Err(e)),
                Ok(entries) => self.walk_entries(fs, entries, 0, depth),
            }
        }
    }

    /// What the entries of a directory at `depth` come to, from the entry
    /// at index `from` on. An entry that cannot be read ends the walk with
    /// its error. An entry that a hard rule denies ends the listing. A
    /// directory is descended into, and its error, if any, ends the walk.
    /// A file is dispatched where the depth has reached the floor and the
    /// soft and the file rules admit it.
    pub open spec fn walk_entries<E>(
        self,
        fs: spec_fn(P) -> Listing<P, E>,
        entries: Seq<Result<Found<P>, E>>,
        from: nat,
        depth: nat,
    ) -> Trace<P, E> where F: Fn(&P) -> bool
        decreases self.limit() - depth, 0nat, entries.len() - from,
    {
        if depth >= self.limit() || from >= entries.len() {
            Trace::idle(Ok(()))
        } else {
            match entries[from as int] {
                Err(e) => Trace::idle(Err(e)),
                Ok(found) => if !self.admits(Role::DirHard, &found.path) {
                    Trace::idle(Ok(()))
                } else if found.is_dir {
                    self.walk_dir(fs, found.path, depth + 1).followed_by(
                        self.walk_entries(fs, entries, from + 1, depth),
                    )
                } else if depth >= self.floor() && self.admits(Role::DirSoft, &found.path)
                    && self.admits(Role::File, &found.path) {
                    Trace { dispatched: seq![found.path], outcome: Ok(()) }.followed_by(
                        self.walk_entries(fs, entries, from + 1, depth),
                    )
                } else {
                    self.walk_entries(fs, entries, from + 1, depth)
                },
            }
        }
    }

    /// What a whole walk comes to, where each directory read gives what
    /// `fs` says.
    pub open spec fn walk_all<E>(self, fs: spec_fn(P) -> Listing<P, E>) -> Trace<P, E> where
        F: Fn(&P) -> bool,
     {
        self.walk_dir(fs, self.location, 0)
    }

    /// The caller's part in a step: carries out `action`, with the walker
    /// at `state`.
    pub open spec fn perform<'a, E>(
        self,
        fs: spec_fn(P) -> Listing<P, E>,
        state: WalkState,
        action: Action<'a, P, E>,
        open: Seq<Frame<P, E>>,
        dispatched: Seq<P>,
    ) -> Run<P, E> where F: Fn(&P) -> bool {
        match action {
            Action::Finish(outcome) => Run::Over { trace: Trace { dispatched, outcome } },
            Action::Advance => Run::Going { state, open, dispatched },
            Action::Dispatch(path) => Run::Going { state, open, dispatched: dispatched.push(*path) },
            Action::Leave => Run::Going { state, open: open.drop_last(), dispatched },
            Action::Enter(path) => match fs(*path) {
                Ok(entries) => Run::Going {
                    state,
                    open: open.push(Frame { entries, cursor: 0 }),
                    dispatched,
                },
                Err(e) => match self.next(state, Event::<P, E>::Failed(e)).1 {
                    Action::Finish(outcome) => Run::Over { trace: Trace { dispatched, outcome } },
                    _ => arbitrary(),
                },
            },
        }
    }

    /// A walk as it begins: the first request, carried out.
    pub open spec fn start<E>(self, fs: spec_fn(P) -> Listing<P, E>) -> Run<P, E> where
        F: Fn(&P) -> bool,
     {
        let (state, action) = self.first::<E>();
        self.perform(fs, state, action, Seq::empty(), Seq::empty())
    }

    /// One round of a walk: the innermost open directory reports, the
    /// walker takes its step, and the caller carries out what it asks for.
    pub open spec fn round<E>(self, fs: spec_fn(P) -> Listing<P, E>, run: Run<P, E>) -> Run<
        P,
        E,
    > where F: Fn(&P) -> bool {
        match run {
            Run::Over { .. } => run,
            Run::Going { state, open, dispatched } => {
                let (event, after) = read::<P, E>(open);
                let (next, action) = self.next(state, event);
                self.perform(fs, next, action, after, dispatched)
            },
        }
    }

    /// `n` rounds of a walk.
    pub open spec fn rounds<E>(
        self,
        fs: spec_fn(P) -> Listing<P, E>,
        run: Run<P, E>,
        n: nat,
    ) -> Run<P, E> where F: Fn(&P) -> bool
        decreases n,
    {
        if n == 0 {
            run
        } else {
            self.rounds(fs, self.round(fs, run), (n - 1) as nat)
        }
    }

    /// Where a walk stands once the listing at `depth` has come to
    /// `trace`, with `below` open above that listing and `dispatched`
    /// dispatched before it.
    pub open spec fn after_level<E>(
        self,
        below: Seq<Frame<P, E>>,
        depth: nat,
        dispatched: Seq<P>,
        trace: Trace<P, E>,
    ) -> Run<P, E> {
        if trace.outcome is Err || depth == 0 {
            Run::Over {
                trace: Trace {
                    dispatched: dispatched + trace.dispatched,
                    outcome: trace.outcome,
                },
            }
        } else {
            Run::Going {
                state: WalkState::Listing { depth: (depth - 1) as usize },
                open: below,
                dispatched: dispatched + trace.dispatched,
            }
        }
    }
}

/// Where the rules are decisive, a walk takes the step that `next` says,
/// and no other.
pub proof fn law_decisive_rules_step_as_next<'a, P, F: Fn(&P) -> bool, C, E>(
    cfg: FileWalkerView<P, F, C>,
    state: WalkState,
    event: Event<'a, P, E>,
    next: WalkState,
    action: Action<'a, P, E>,
)
    requires
        cfg.decisive(),
        state is Listing,
    ensures
        cfg.allows(state, event, next, action) <==> (next, action) == cfg.next(state, event),
{
    assert forall|role: Role, p: &P| cfg.admits(role, p) != cfg.refuses(role, p) by {
        if cfg.admits(role, p) && cfg.refuses(role, p) {
            let i = choose|i: int| #[trigger] cfg.plays(role, i) && cfg.predicates[i].rejects(p);
            assert(cfg.predicates[i].accepts(p));
        }
        if !cfg.admits(role, p) {
            let i = choose|i: int| #[trigger] cfg.plays(role, i) && !cfg.predicates[i].accepts(p);
            assert(cfg.predicates[i].rejects(p));
        }
    }
}

/// Rounds add up.
pub proof fn lemma_rounds_add<P, F: Fn(&P) -> bool, C, E>(
    cfg: FileWalkerView<P, F, C>,
    fs: spec_fn(P) -> Listing<P, E>,
    run: Run<P, E>,
    a: nat,
    b: nat,
)
    ensures
        cfg.rounds(fs, run, a + b) == cfg.rounds(fs, cfg.rounds(fs, run, a), b),
    decreases a,
{
    if a > 0 {
        lemma_rounds_add(cfg, fs, cfg.round(fs, run), (a - 1) as nat, b);
        assert((a + b - 1) as nat == (a - 1) as nat + b);
    }
}

/// One round is a round.
pub proof fn lemma_one_round<P, F: Fn(&P) -> bool, C, E>(
    cfg: FileWalkerView<P, F, C>,
    fs: spec_fn(P) -> Listing<P, E>,
    run: Run<P, E>,
)
    ensures
        cfg.rounds(fs, run, 1) == cfg.round(fs, run),
{
    assert(cfg.rounds(fs, cfg.round(fs, run), 0) == cfg.round(fs, run));
}

/// A caller that reports the entries of a directory at `depth`, from the
/// entry at index `from` on, and does what the walker asks for, has after
/// `n` rounds dispatched what the descent through these entries
/// dispatches, and stands where that descent ends: in the directory above,
/// or at the end of the walk.
pub proof fn lemma_level_follows_descent<P, F: Fn(&P) -> bool, C, E>(
    cfg: FileWalkerView<P, F, C>,
    fs: spec_fn(P) -> Listing<P, E>,
    below: Seq<Frame<P, E>>,
    entries: Seq<Result<Found<P>, E>>,
    from: nat,
    depth: usize,
    dispatched: Seq<P>,
) -> (n: nat)
    requires
        depth < cfg.limit(),
        from <= entries.len(),
    ensures
        cfg.rounds(
            fs,
            Run::Going {
                state: WalkState::Listing { depth },
                open: below.push(Frame { entries, cursor: from }),
                dispatched,
            },
            n,
        ) == cfg.after_level(
            below,
            depth as nat,
            dispatched,
            cfg.walk_entries(fs, entries, from, depth as nat),
        ),
    decreases cfg.limit() - depth, entries.len() - from,
{
    let state = WalkState::Listing { depth };
    let open = below.push(Frame { entries, cursor: from });
    let run = Run::Going { state, open, dispatched };
    let idle = Seq::<P>::empty();
    lemma_one_round(cfg, fs, run);
    assert(open.last() == Frame { entries, cursor: from });
    assert(open.drop_last() =~= below);
    assert(dispatched + idle =~= dispatched);
    if from == entries.len() {
        1
    } else {
        let after = below.push(Frame { entries, cursor: from + 1 });
        assert(open.update(open.len() - 1, Frame { entries, cursor: from + 1 }) =~= after);
        assert(after.drop_last() =~= below);
        let rest = cfg.walk_entries(fs, entries, from + 1, depth as nat);
        match entries[from as int] {
            Err(e) => 1,
            Ok(found) => {
                assert(cfg.walk_dir(fs, found.path, depth as nat + 1) == (if depth + 1
                    >= cfg.limit() {
                    Trace::<P, E>::idle(Ok(()))
                } else {
                    match fs(found.path) {
                        Err(e) => Trace::idle(Err(e)),
                        Ok(sub) => cfg.walk_entries(fs, sub, 0, depth as nat + 1),
                    }
                }));
                if !cfg.admits(Role::DirHard, &found.path) {
                    1
                } else if found.is_dir && depth + 1 < cfg.limit() {
                    match fs(found.path) {
                        Err(e) => 1,
                        Ok(sub) => {
                            let deeper = (depth + 1) as usize;
                            let inner = cfg.walk_entries(fs, sub, 0, deeper as nat);
                            let n1: nat = lemma_level_follows_descent(
                                cfg,
                                fs,
                                after,
                                sub,
                                0,
                                deeper,
                                dispatched,
                            );
                            lemma_rounds_add(cfg, fs, run, 1, n1);
                            if inner.outcome is Err {
                                1 + n1
                            } else {
                                let n2: nat = lemma_level_follows_descent(
                                    cfg,
                                    fs,
                                    below,
                                    entries,
                                    from + 1,
                                    depth,
                                    dispatched + inner.dispatched,
                                );
                                lemma_rounds_add(cfg, fs, run, 1 + n1, n2);
                                assert((dispatched + inner.dispatched) + rest.dispatched
                                    =~= dispatched + (inner.dispatched + rest.dispatched));
                                1 + n1 + n2
                            }
                        },
                    }
                } else if !found.is_dir && depth >= cfg.floor() && cfg.admits(
                    Role::DirSoft,
                    &found.path,
                ) && cfg.admits(Role::File, &found.path) {
                    let n2: nat = lemma_level_follows_descent(
                        cfg,
                        fs,
                        below,
                        entries,
                        from + 1,
                        depth,
                        dispatched.push(found.path),
                    );
                    lemma_rounds_add(cfg, fs, run, 1, n2);
                    assert(dispatched.push(found.path) + rest.dispatched =~= dispatched + (
                    seq![found.path] + rest.dispatched));
                    1 + n2
                } else {
                    let n2: nat = lemma_level_follows_descent(
                        cfg,
                        fs,
                        below,
                        entries,
                        from + 1,
                        depth,
                        dispatched,
                    );
                    lemma_rounds_add(cfg, fs, run, 1, n2);
                    assert(idle + rest.dispatched =~= rest.dispatched);
                    1 + n2
                }
            },
        }
    }
}

/// A caller that does what the walker asks for, from the beginning of a
/// walk, has after `n` rounds ended the walk, with the files dispatched
/// and the result of the depth-first descent from the root.
pub proof fn theorem_walk_follows_descent<P, F: Fn(&P) -> bool, C, E>(
    cfg: FileWalkerView<P, F, C>,
    fs: spec_fn(P) -> Listing<P, E>,
) -> (n: nat)
    ensures
        cfg.rounds(fs, cfg.start(fs), n) == (Run::Over { trace: cfg.walk_all(fs) }),
{
    let idle = Seq::<P>::empty();
    if 0 < cfg.limit() {
        match fs(cfg.location) {
            Err(e) => 0,
            Ok(entries) => {
                let n: nat = lemma_level_follows_descent(
                    cfg,
                    fs,
                    Seq::empty(),
                    entries,
                    0,
                    0,
                    idle,
                );
                let trace = cfg.walk_entries(fs, entries, 0, 0);
                assert(idle + trace.dispatched =~= trace.dispatched);
                n
            },
        }
    } else {
        0
    }
}

} // verus!
