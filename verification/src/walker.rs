//! The walker: its configuration, and the traversal as a state machine.

use crate::predicate::Predicate;
use crate::predicate::Role;
use vstd::prelude::*;

verus! {

/// Where a walk stands between two requests.
#[derive(Clone, Copy, PartialEq, Eq, Structural, Debug)]
pub enum WalkState {
    /// A directory `depth` levels below the root is being listed; the
    /// directories above it are open and wait for their next entry.
    Listing { depth: usize },
    /// The walk is over.
    Finished,
}

/// What the caller found when it did what the walker asked for.
pub enum Event<'a, P, E> {
    /// The innermost open directory holds this entry next.
    Entry { path: &'a P, is_dir: bool },
    /// The innermost open directory has no further entry.
    Exhausted,
    /// Opening a directory or reading its next entry failed.
    Failed(E),
}

/// What the walker asks its caller to do next.
///
/// Every request but `Finish` is answered with one [`Event`].
pub enum Action<'a, P, E> {
    /// Open this directory as the innermost one and report its first entry.
    Enter(&'a P),
    /// Hand this file to the callbacks, then report the next entry of the
    /// innermost open directory.
    Dispatch(&'a P),
    /// Report the next entry of the innermost open directory.
    Advance,
    /// Close the innermost open directory and report the next entry of the
    /// one above it.
    Leave,
    /// Close whatever is open; the walk ends with this result.
    Finish(Result<(), E>),
}

impl WalkState {
    /// A listing goes on, at a depth below `limit`.
    pub open spec fn listing_below(self, limit: nat) -> bool {
        self matches WalkState::Listing { depth } && depth < limit
    }
}

/// The configuration of a walker, as the contracts see it.
pub struct FileWalkerView<P, F, C> {
    /// The root of the walk.
    pub location: P,
    /// The least depth at which files reach the callbacks, if one was set.
    pub min_depth: Option<usize>,
    /// The depth from which on directories are no longer listed, if one was set.
    pub max_depth: Option<usize>,
    /// The callbacks, in the order of their registration.
    pub callbacks: Seq<C>,
    /// The predicates, in the order of their registration.
    pub predicates: Seq<Predicate<F>>,
}

impl<P, F, C> FileWalkerView<P, F, C> {
    /// Directories at this depth and beyond are not listed.
    pub open spec fn limit(self) -> nat {
        match self.max_depth {
            Some(d) => d as nat,
            None => usize::MAX as nat,
        }
    }

    /// Files above this depth do not reach the callbacks.
    pub open spec fn floor(self) -> nat {
        match self.min_depth {
            Some(d) => d as nat,
            None => 0,
        }
    }

    /// The predicate at index `i` exists and plays `role`.
    pub open spec fn plays(self, role: Role, i: int) -> bool {
        0 <= i < self.predicates.len() && self.predicates[i].role() == Some(role)
    }

    /// Every predicate of `role` can answer `true` on `p`.
    pub open spec fn admits(self, role: Role, p: &P) -> bool where F: Fn(&P) -> bool {
        forall|i: int| #[trigger] self.plays(role, i) ==> self.predicates[i].accepts(p)
    }

    /// Some predicate of `role` can answer `false` on `p`.
    pub open spec fn refuses(self, role: Role, p: &P) -> bool where F: Fn(&P) -> bool {
        exists|i: int| #[trigger] self.plays(role, i) && self.predicates[i].rejects(p)
    }

    /// Every predicate that is set may be called on every path.
    pub open spec fn rules_callable(self) -> bool where F: Fn(&P) -> bool {
        forall|i: int|
            0 <= i < self.predicates.len() ==> (#[trigger] self.predicates[i]).total::<P>()
    }

    /// Every callback may be called on every path.
    pub open spec fn callbacks_callable(self) -> bool where C: Fn(&P) {
        forall|i: int, p: &P|
            0 <= i < self.callbacks.len() ==> #[trigger] call_requires(self.callbacks[i], (p,))
    }

    /// Where a walk stands, and what it asks for, when it begins: the root
    /// is entered at depth 0, unless not even that depth is listed.
    pub open spec fn first<'a, E>(self) -> (WalkState, Action<'a, P, E>) {
        if 0 < self.limit() {
            (WalkState::Listing { depth: 0 }, Action::Enter(&self.location))
        } else {
            (WalkState::Finished, Action::Finish(Ok(())))
        }
    }

    /// Where a walk stands, and what it asks for, once the listing at
    /// `depth` has ended: it returns to the directory above, or ends in
    /// success where the listing was the root's.
    pub open spec fn left<'a, E>(self, depth: usize) -> (WalkState, Action<'a, P, E>) {
        if depth == 0 {
            (WalkState::Finished, Action::Finish(Ok(())))
        } else {
            (WalkState::Listing { depth: (depth - 1) as usize }, Action::Leave)
        }
    }

    /// The listing at hand ends.
    pub open spec fn leaves<'a, E>(
        self,
        state: WalkState,
        next: WalkState,
        action: Action<'a, P, E>,
    ) -> bool {
        state matches WalkState::Listing { depth } && (next, action) == self.left::<E>(depth)
    }

    /// A directory was found: it is entered where its depth is still
    /// listed, and passed over where it is not.
    pub open spec fn descends<'a, E>(
        self,
        state: WalkState,
        path: &'a P,
        next: WalkState,
        action: Action<'a, P, E>,
    ) -> bool {
        match state {
            WalkState::Listing { depth } => if depth + 1 < self.limit() {
                next == (WalkState::Listing { depth: (depth + 1) as usize })
                    && action == Action::<P, E>::Enter(path)
            } else {
                next == state && action == Action::<P, E>::Advance
            },
            WalkState::Finished => false,
        }
    }

    /// A file was found: it is dispatched where its depth has reached the
    /// floor and the soft and the file rules all hold, and skipped otherwise.
    pub open spec fn judges<'a, E>(
        self,
        state: WalkState,
        path: &'a P,
        next: WalkState,
        action: Action<'a, P, E>,
    ) -> bool where F: Fn(&P) -> bool {
        match state {
            WalkState::Listing { depth } => next == state && if depth < self.floor() {
                action == Action::<P, E>::Advance
            } else {
                ||| self.admits(Role::DirSoft, path) && self.admits(Role::File, path) && action
                    == Action::<P, E>::Dispatch(path)
                ||| (self.refuses(Role::DirSoft, path) || self.refuses(Role::File, path))
                    && action == Action::<P, E>::Advance
            },
            WalkState::Finished => false,
        }
    }

    /// The steps that a walk may take: from `state`, on `event`, to `next`
    /// with the request `action`.
    ///
    /// Where each predicate has one answer for each path, exactly one step
    /// is allowed.
    pub open spec fn allows<'a, E>(
        self,
        state: WalkState,
        event: Event<'a, P, E>,
        next: WalkState,
        action: Action<'a, P, E>,
    ) -> bool where F: Fn(&P) -> bool {
        state is Listing && match event {
            Event::Failed(e) => next == WalkState::Finished && action == Action::<P, E>::Finish(
                Err(e),
            ),
            Event::Exhausted => self.leaves(state, next, action),
            Event::Entry { path, is_dir } => {
                ||| self.refuses(Role::DirHard, path) && self.leaves(state, next, action)
                ||| self.admits(Role::DirHard, path) && is_dir && self.descends(
                    state,
                    path,
                    next,
                    action,
                )
                ||| self.admits(Role::DirHard, path) && !is_dir && self.judges(
                    state,
                    path,
                    next,
                    action,
                )
            },
        }
    }
}

/// Walks a directory tree as configured, and hands the files that its
/// predicates admit to its callbacks.
pub struct FileWalker<P, F, C> {
    location: P,
    max_depth: Option<usize>,
    min_depth: Option<usize>,
    callbacks: Vec<C>,
    predicates: Vec<Predicate<F>>,
}

impl<P, F, C> View for FileWalker<P, F, C> {
    type V = FileWalkerView<P, F, C>;

    closed spec fn view(&self) -> FileWalkerView<P, F, C> {
        FileWalkerView {
            location: self.location,
            min_depth: self.min_depth,
            max_depth: self.max_depth,
            callbacks: self.callbacks@,
            predicates: self.predicates@,
        }
    }
}

impl<P, F: Fn(&P) -> bool, C: Fn(&P)> FileWalker<P, F, C> {
    /// A walker rooted at `location`, without depth bounds, callbacks or predicates.
    pub fn new(location: P) -> (w: Self)
        ensures
            w@ == (FileWalkerView::<P, F, C> {
                location,
                min_depth: None,
                max_depth: None,
                callbacks: Seq::empty(),
                predicates: Seq::empty(),
            }),
    {
        FileWalker {
            location,
            max_depth: None,
            min_depth: None,
            callbacks: Vec::new(),
            predicates: Vec::new(),
        }
    }

    fn add_callback(&mut self, callback: C)
        ensures
            final(self)@ == (FileWalkerView {
                callbacks: old(self)@.callbacks.push(callback),
                ..old(self)@
            }),
    {
        self.callbacks.push(callback);
    }

    fn add_predicate(&mut self, predicate: Predicate<F>)
        ensures
            final(self)@ == (FileWalkerView {
                predicates: old(self)@.predicates.push(predicate),
                ..old(self)@
            }),
    {
        self.predicates.push(predicate);
    }

    fn set_max_depth(&mut self, depth: usize)
        ensures
            final(self)@ == (FileWalkerView { max_depth: Some(depth), ..old(self)@ }),
    {
        self.max_depth = Some(depth);
    }

    fn set_min_depth(&mut self, depth: usize)
        ensures
            final(self)@ == (FileWalkerView { min_depth: Some(depth), ..old(self)@ }),
    {
        self.min_depth = Some(depth);
    }

    /// Sets the depth at which listing stops: directories at `depth` levels
    /// below the root, and deeper, are not listed.
    pub fn with_max_depth(self, depth: usize) -> (w: Self)
        ensures
            w@ == (FileWalkerView { max_depth: Some(depth), ..self@ }),
    {
        let mut walker = self;
        walker.set_max_depth(depth);
        walker
    }

    /// Sets the least depth at which files reach the callbacks.
    pub fn with_min_depth(self, depth: usize) -> (w: Self)
        ensures
            w@ == (FileWalkerView { min_depth: Some(depth), ..self@ }),
    {
        let mut walker = self;
        walker.set_min_depth(depth);
        walker
    }

    /// Registers a callback after those registered before.
    pub fn with_callback(self, cb: C) -> (w: Self)
        ensures
            w@ == (FileWalkerView { callbacks: self@.callbacks.push(cb), ..self@ }),
    {
        let mut walker = self;
        walker.add_callback(cb);
        walker
    }

    /// Registers a predicate after those registered before.
    pub fn with_predicate(self, cb: Predicate<F>) -> (w: Self)
        ensures
            w@ == (FileWalkerView { predicates: self@.predicates.push(cb), ..self@ }),
    {
        let mut walker = self;
        walker.add_predicate(cb);
        walker
    }
}

impl<P, F: Fn(&P) -> bool, C: Fn(&P)> FileWalker<P, F, C> {
    /// Calls every callback on `path`, in the order of registration.
    pub fn call_callbacks(&self, path: &P)
        requires
            self@.callbacks_callable(),
        ensures
            forall|i: int|
                0 <= i < self@.callbacks.len() ==> call_ensures(
                    #[trigger] self@.callbacks[i],
                    (path,),
                    (),
                ),
    {
        let mut i: usize = 0;
        while i < self.callbacks.len()
            invariant
                self@.callbacks_callable(),
                i <= self.callbacks@.len(),
                forall|j: int|
                    0 <= j < i ==> call_ensures(#[trigger] self.callbacks@[j], (path,), ()),
            decreases self.callbacks@.len() - i,
        {
            let cb = &self.callbacks[i];
            assert(call_requires(self@.callbacks[i as int], (path,)));
            cb(path);
            i += 1;
        }
    }

    /// Consults every predicate of `role` on `pth`, in the order of
    /// registration, and tells whether all of them held. None is left out
    /// once one has failed.
    pub fn call_predicates(&self, pth: &P, role: Role) -> (ok: bool)
        requires
            self@.rules_callable(),
        ensures
            ok ==> self@.admits(role, pth),
            !ok ==> self@.refuses(role, pth),
            (forall|i: int| !self@.plays(role, i)) ==> ok,
            forall|i: int| #[trigger]
                self@.plays(role, i) ==> self@.predicates[i].accepts(pth)
                    || self@.predicates[i].rejects(pth),
    {
        let mut ok = true;
        let ghost mut culprit: int = 0;
        let mut i: usize = 0;
        while i < self.predicates.len()
            invariant
                self@.rules_callable(),
                i <= self.predicates@.len(),
                ok ==> forall|j: int|
                    j < i && #[trigger] self@.plays(role, j) ==> self@.predicates[j].accepts(pth),
                !ok ==> self@.plays(role, culprit) && self@.predicates[culprit].rejects(pth),
                forall|j: int|
                    j < i && #[trigger] self@.plays(role, j) ==> self@.predicates[j].accepts(pth)
                        || self@.predicates[j].rejects(pth),
            decreases self.predicates@.len() - i,
        {
            let predicate = &self.predicates[i];
            if predicate.has_role(role) {
                assert(self@.predicates[i as int].total::<P>());
                if !predicate.call(pth) {
                    ok = false;
                    proof {
                        culprit = i as int;
                    }
                }
            }
            i += 1;
        }
        ok
    }

    /// Whether all hard directory rules hold of `pth`.
    pub fn call_pred_dirh(&self, pth: &P) -> (ok: bool)
        requires
            self@.rules_callable(),
        ensures
            ok ==> self@.admits(Role::DirHard, pth),
            !ok ==> self@.refuses(Role::DirHard, pth),
    {
        self.call_predicates(pth, Role::DirHard)
    }

    /// Whether all soft directory rules hold of `pth`.
    pub fn call_pred_dirs(&self, pth: &P) -> (ok: bool)
        requires
            self@.rules_callable(),
        ensures
            ok ==> self@.admits(Role::DirSoft, pth),
            !ok ==> self@.refuses(Role::DirSoft, pth),
    {
        self.call_predicates(pth, Role::DirSoft)
    }

    /// Whether all file rules hold of `pth`.
    pub fn call_pred_file(&self, pth: &P) -> (ok: bool)
        requires
            self@.rules_callable(),
        ensures
            ok ==> self@.admits(Role::File, pth),
            !ok ==> self@.refuses(Role::File, pth),
    {
        self.call_predicates(pth, Role::File)
    }

    /// Whether all directory rules hold of `pth`, the hard ones and the
    /// soft ones. The soft rules are consulted only where the hard ones held.
    pub fn call_pred_dir(&self, pth: &P) -> (ok: bool)
        requires
            self@.rules_callable(),
        ensures
            ok ==> self@.admits(Role::DirHard, pth) && self@.admits(Role::DirSoft, pth),
            !ok ==> self@.refuses(Role::DirHard, pth) || self@.refuses(Role::DirSoft, pth),
    {
        self.call_pred_dirh(pth) && self.call_pred_dirs(pth)
    }

    /// Begins a walk at the root, at depth 0: tells where the walk stands
    /// and what it asks for first.
    pub fn walk<'a, E>(&'a self) -> (start: (WalkState, Action<'a, P, E>))
        ensures
            start == self@.first::<E>(),
    {
        let max_depth: usize = self.max_depth.unwrap_or(usize::MAX);
        if 0 < max_depth {
            (WalkState::Listing { depth: 0 }, Action::Enter(&self.location))
        } else {
            (WalkState::Finished, Action::Finish(Ok(())))
        }
    }

    /// Ends the listing at hand.
    fn leave<'a, E>(&self, state: &mut WalkState) -> (action: Action<'a, P, E>)
        requires
            *old(state) is Listing,
        ensures
            self@.leaves(*old(state), *final(state), action),
    {
        match *state {
            WalkState::Listing { depth } if depth > 0 => {
                *state = WalkState::Listing { depth: depth - 1 };
                Action::Leave
            },
            _ => {
                *state = WalkState::Finished;
                Action::Finish(Ok(()))
            },
        }
    }

    /// Enters the directory `path`, or passes it over where its depth is
    /// not listed.
    fn descend<'a, E>(&self, state: &mut WalkState, path: &'a P) -> (action: Action<'a, P, E>)
        requires
            old(state).listing_below(self@.limit()),
        ensures
            self@.descends(*old(state), path, *final(state), action),
            final(state).listing_below(self@.limit()),
    {
        let max_depth: usize = self.max_depth.unwrap_or(usize::MAX);
        match *state {
            WalkState::Listing { depth } if depth + 1 < max_depth => {
                *state = WalkState::Listing { depth: depth + 1 };
                Action::Enter(path)
            },
            _ => Action::Advance,
        }
    }

    /// Takes the walk one step further: given where it stands and what the
    /// caller found, tells where it stands next and what it asks for.
    pub fn walk_at<'a, E>(&self, state: &mut WalkState, event: Event<'a, P, E>) -> (action: Action<
        'a,
        P,
        E,
    >)
        requires
            self@.rules_callable(),
            old(state).listing_below(self@.limit()),
        ensures
            self@.allows(*old(state), event, *final(state), action),
            !(action is Finish) ==> final(state).listing_below(self@.limit()),
            action is Finish <==> *final(state) is Finished,
    {
        match event {
            Event::Failed(e) => {
                *state = WalkState::Finished;
                Action::Finish(Err(e))
            },
            Event::Exhausted => self.leave(state),
            Event::Entry { path, is_dir } => {
                if !self.call_pred_dirh(path) {
                    return self.leave(state);
                }
                if is_dir {
                    return self.descend(state, path);
                }
                let min_depth: usize = self.min_depth.unwrap_or(0);
                let depth: usize = match *state {
                    WalkState::Listing { depth } => depth,
                    WalkState::Finished => unreached(),
                };
                if depth < min_depth {
                    return Action::Advance;
                }
                let dirs_valid = self.call_pred_dirs(path);
                let file_valid = self.call_pred_file(path);
                if dirs_valid && file_valid {
                    Action::Dispatch(path)
                } else {
                    Action::Advance
                }
            },
        }
    }
}

} // verus!
