//! Role-tagged boolean rules over paths.

use vstd::prelude::*;

verus! {

/// When a rule is consulted during a walk, and what its failure means.
#[derive(Clone, Copy, PartialEq, Eq, Structural, Debug)]
pub enum Role {
    /// Consulted for every entry; a failure ends the listing that holds the entry.
    DirHard,
    /// Consulted for files that are eligible for dispatch; a failure skips the file.
    DirSoft,
    /// Consulted for files that are eligible for dispatch; a failure skips the file.
    File,
}

/// A boolean rule over paths, tagged with the role it plays during a walk.
///
/// `F` is the type of the wrapped function. A walker holds predicates of one
/// function type; callers that mix closures box them.
pub enum Predicate<F> {
    /// A directory rule whose failure excludes only the file at hand.
    DirSoft(F),
    /// A directory rule whose failure ends the listing that holds the entry.
    DirHard(F),
    /// A rule on files, deciding whether the callbacks see them.
    File(F),
    /// No rule at all. It has no role and must not be called.
    Unset,
}

impl<F> Predicate<F> {
    /// The role of this predicate; an unset predicate has none.
    pub open spec fn role(self) -> Option<Role> {
        match self {
            Predicate::DirSoft(_) => Some(Role::DirSoft),
            Predicate::DirHard(_) => Some(Role::DirHard),
            Predicate::File(_) => Some(Role::File),
            Predicate::Unset => None,
        }
    }

    /// The wrapped function. Meaningless for an unset predicate.
    pub open spec fn func(self) -> F
        recommends
            !(self is Unset),
    {
        match self {
            Predicate::DirSoft(f) => f,
            Predicate::DirHard(f) => f,
            Predicate::File(f) => f,
            Predicate::Unset => arbitrary(),
        }
    }

    /// The wrapped function may be called on every path.
    pub open spec fn total<P>(self) -> bool where F: Fn(&P) -> bool {
        !(self is Unset) ==> forall|p: &P| call_requires(self.func(), (p,))
    }

    /// The wrapped function can answer `true` on `p`.
    pub open spec fn accepts<P>(self, p: &P) -> bool where F: Fn(&P) -> bool {
        call_ensures(self.func(), (p,), true)
    }

    /// The wrapped function can answer `false` on `p`.
    pub open spec fn rejects<P>(self, p: &P) -> bool where F: Fn(&P) -> bool {
        call_ensures(self.func(), (p,), false)
    }

    /// Applies the wrapped function to `pth`. An unset predicate has no
    /// function to apply, and must not be called.
    pub fn call<P>(&self, pth: &P) -> (verdict: bool) where F: Fn(&P) -> bool
        requires
            !(self is Unset),
            call_requires(self.func(), (pth,)),
        ensures
            call_ensures(self.func(), (pth,), verdict),
            verdict ==> self.accepts(pth),
            !verdict ==> self.rejects(pth),
    {
        match self {
            Predicate::DirHard(func) => func(pth),
            Predicate::DirSoft(func) => func(pth),
            Predicate::File(func) => func(pth),
            Predicate::Unset => unreached(),
        }
    }

    /// Whether this is a directory rule, hard or soft.
    pub fn is_dir(&self) -> (b: bool)
        ensures
            b == (self is DirHard || self is DirSoft),
            b == (self.role() == Some(Role::DirHard) || self.role() == Some(Role::DirSoft)),
    {
        self.is_dir_hard() || self.is_dir_soft()
    }

    /// Whether this is a hard directory rule.
    pub fn is_dir_hard(&self) -> (b: bool)
        ensures
            b == (self is DirHard),
            b == (self.role() == Some(Role::DirHard)),
    {
        matches!(self, Predicate::DirHard(..))
    }

    /// Whether this is a soft directory rule.
    pub fn is_dir_soft(&self) -> (b: bool)
        ensures
            b == (self is DirSoft),
            b == (self.role() == Some(Role::DirSoft)),
    {
        matches!(self, Predicate::DirSoft(..))
    }

    /// Whether this is a file rule.
    pub fn is_file(&self) -> (b: bool)
        ensures
            b == (self is File),
            b == (self.role() == Some(Role::File)),
    {
        matches!(self, Predicate::File(..))
    }

    /// Whether this predicate plays `role`.
    pub fn has_role(&self, role: Role) -> (b: bool)
        ensures
            b == (self.role() == Some(role)),
    {
        match role {
            Role::DirHard => self.is_dir_hard(),
            Role::DirSoft => self.is_dir_soft(),
            Role::File => self.is_file(),
        }
    }
}

} // verus!
