use vstd::prelude::*;
use vstd::std_specs::cmp::PartialEqSpec;

verus! {

/// A fact about the repository. Each is looked up in the version-control
/// engine at most once, and only when something asks for it.
#[derive(Clone, Copy, Debug, PartialEq, Eq, Structural)]
pub enum Fact {
    /// The handle of the workspace.
    Workspace,
    /// The handle of the repository that the workspace belongs to.
    Repo,
    /// The identifier of the working-copy commit.
    CommitId,
    /// The working-copy commit.
    Commit,
    /// The parents of the working-copy commit.
    ParentCommits,
    /// The tree of the working-copy commit.
    Tree,
    /// The tree that the working-copy commit was made from.
    ParentTree,
}

/// What the cache holds. A slot is `None` while its fact was not looked
/// up. A fact that may be absent has a slot of two levels: `Some(None)`
/// says that it was looked up and there is none.
pub struct Slots<W, R, I, C, T> {
    pub snapshot: bool,
    pub workspace: Option<W>,
    pub repo: Option<R>,
    pub commit_id: Option<Option<I>>,
    pub commit: Option<Option<C>>,
    pub parent_commits: Option<Seq<C>>,
    pub tree: Option<Option<T>>,
    pub parent_tree: Option<Option<T>>,
}

impl<W, R, I, C, T> Slots<W, R, I, C, T> {
    /// Whether `fact` was looked up.
    pub open spec fn has(self, fact: Fact) -> bool {
        match fact {
            Fact::Workspace => self.workspace is Some,
            Fact::Repo => self.repo is Some,
            Fact::CommitId => self.commit_id is Some,
            Fact::Commit => self.commit is Some,
            Fact::ParentCommits => self.parent_commits is Some,
            Fact::Tree => self.tree is Some,
            Fact::ParentTree => self.parent_tree is Some,
        }
    }

    /// Whether the workspace is known to have no working-copy commit.
    pub open spec fn no_commit(self) -> bool {
        self.commit_id == Some(None::<I>)
    }

    /// Nothing is in the cache before what it rests on, and where the
    /// workspace has no working-copy commit, there is no commit, no parent
    /// and no tree: the workspace comes first, then the repository, then
    /// the identifier of the commit, then the commit, then its parents and
    /// trees. Every cache is so.
    pub open spec fn consistent(self) -> bool {
        &&& self.repo is Some ==> self.workspace is Some
        &&& self.commit_id is Some ==> self.repo is Some
        &&& self.commit matches Some(commit) ==> self.commit_id is Some && (commit is None
            <==> self.no_commit())
        &&& self.parent_commits matches Some(parents) ==> self.commit is Some && (self.no_commit()
            ==> parents.len() == 0)
        &&& self.tree matches Some(tree) ==> self.commit is Some && (tree is None
            <==> self.no_commit())
        &&& self.parent_tree matches Some(tree) ==> self.commit is Some && (tree is None
            <==> self.no_commit())
    }

    /// Whether the cache holds all that `earlier` held, unchanged: a fact
    /// that is in the cache stays as it is.
    pub open spec fn extends(self, earlier: Self) -> bool {
        &&& self.snapshot == earlier.snapshot
        &&& earlier.workspace is Some ==> self.workspace == earlier.workspace
        &&& earlier.repo is Some ==> self.repo == earlier.repo
        &&& earlier.commit_id is Some ==> self.commit_id == earlier.commit_id
        &&& earlier.commit is Some ==> self.commit == earlier.commit
        &&& earlier.parent_commits is Some ==> self.parent_commits == earlier.parent_commits
        &&& earlier.tree is Some ==> self.tree == earlier.tree
        &&& earlier.parent_tree is Some ==> self.parent_tree == earlier.parent_tree
    }

    /// Whether `fact` is a fact about the working-copy commit itself.
    pub open spec fn about_commit(fact: Fact) -> bool {
        fact == Fact::Commit || fact == Fact::ParentCommits || fact == Fact::Tree || fact
            == Fact::ParentTree
    }

    /// The cache with the slot of `fact` filled as it is for a workspace
    /// without a working-copy commit: no commit, no parents, no tree.
    pub open spec fn without(self, fact: Fact) -> Self {
        match fact {
            Fact::Commit if self.commit is None => Slots { commit: Some(None), ..self },
            Fact::ParentCommits if self.parent_commits is None => Slots {
                parent_commits: Some(Seq::empty()),
                ..self
            },
            Fact::Tree if self.tree is None => Slots { tree: Some(None), ..self },
            Fact::ParentTree if self.parent_tree is None => Slots {
                parent_tree: Some(None),
                ..self
            },
            _ => self,
        }
    }

    /// The cache once everything that `goal` rests on, and that needs no
    /// look-up, is filled in: where there is no working-copy commit, no
    /// fact about that commit is looked up.
    pub open spec fn settled(self, goal: Fact) -> Self {
        if Self::about_commit(goal) && self.no_commit() {
            self.without(Fact::Commit).without(goal)
        } else {
            self
        }
    }

    /// The fact that has to be looked up next for `goal`: the first one
    /// that `goal` rests on and that is not in the cache, `goal` itself when
    /// all of them are, and none when `goal` is in the cache or there is no
    /// working-copy commit for it to be about.
    pub open spec fn needed(self, goal: Fact) -> Option<Fact> {
        if self.has(goal) {
            None
        } else if self.workspace is None {
            Some(Fact::Workspace)
        } else if self.repo is None {
            Some(Fact::Repo)
        } else if self.commit_id is None {
            Some(Fact::CommitId)
        } else if self.no_commit() {
            None
        } else if self.commit is None {
            Some(Fact::Commit)
        } else {
            Some(goal)
        }
    }
}

/// The cache of what was looked up in the repository. It owns the handles
/// of the engine; their types are the engine's and nothing is read from
/// them here: `W` is the workspace, `R` the repository, `I` the identifier of
/// a commit, `C` a commit and `T` a tree.
pub struct State<W, R, I, C, T> {
    snapshot: bool,
    workspace_helper: Option<W>,
    repo: Option<R>,
    commit_id: Option<Option<I>>,
    commit: Option<Option<C>>,
    parent_commits: Option<Vec<C>>,
    tree: Option<Option<T>>,
    parent_tree: Option<Option<T>>,
}

impl<W, R, I, C, T> View for State<W, R, I, C, T> {
    type V = Slots<W, R, I, C, T>;

    closed spec fn view(&self) -> Slots<W, R, I, C, T> {
        Slots {
            snapshot: self.snapshot,
            workspace: self.workspace_helper,
            repo: self.repo,
            commit_id: self.commit_id,
            commit: self.commit,
            parent_commits: match self.parent_commits {
                Some(parents) => Some(parents@),
                None => None,
            },
            tree: self.tree,
            parent_tree: self.parent_tree,
        }
    }
}

impl<W, R, I, C, T> State<W, R, I, C, T> {
    #[verifier::type_invariant]
    spec fn kept(self) -> bool {
        self@.consistent()
    }

    /// The cache with nothing looked up yet. `snapshot` says whether the
    /// working copy is to be snapshotted when the workspace is loaded.
    pub fn new(snapshot: bool) -> (state: Self)
        ensures
            state@.consistent(),
            state@ == (Slots::<W, R, I, C, T> {
                snapshot,
                workspace: None,
                repo: None,
                commit_id: None,
                commit: None,
                parent_commits: None,
                tree: None,
                parent_tree: None,
            }),
    {
        State {
            snapshot,
            workspace_helper: None,
            repo: None,
            commit_id: None,
            commit: None,
            parent_commits: None,
            tree: None,
            parent_tree: None,
        }
    }

    /// Whether the working copy is snapshotted when the workspace is loaded.
    pub fn snapshot(&self) -> (snapshot: bool)
        ensures
            snapshot == self@.snapshot,
    {
        self.snapshot
    }

    /// Whether `fact` was looked up.
    pub fn has(&self, fact: Fact) -> (known: bool)
        ensures
            known == self@.has(fact),
            self@.consistent(),
    {
        proof {
            use_type_invariant(self);
        }
        match fact {
            Fact::Workspace => self.workspace_helper.is_some(),
            Fact::Repo => self.repo.is_some(),
            Fact::CommitId => self.commit_id.is_some(),
            Fact::Commit => self.commit.is_some(),
            Fact::ParentCommits => self.parent_commits.is_some(),
            Fact::Tree => self.tree.is_some(),
            Fact::ParentTree => self.parent_tree.is_some(),
        }
    }

    fn no_commit(&self) -> (none: bool)
        ensures
            none == self@.no_commit(),
    {
        match &self.commit_id {
            Some(None) => true,
            _ => false,
        }
    }

    fn fill_without(&mut self, fact: Fact)
        requires
            old(self)@.no_commit(),
            fact != Fact::Commit ==> old(self)@.commit is Some,
        ensures
            final(self)@ == old(self)@.without(fact),
    {
        proof {
            use_type_invariant(&*self);
        }
        match fact {
            Fact::Commit => {
                if self.commit.is_none() {
                    self.commit = Some(None);
                }
            },
            Fact::ParentCommits => {
                if self.parent_commits.is_none() {
                    self.parent_commits = Some(Vec::new());
                }
            },
            Fact::Tree => {
                if self.tree.is_none() {
                    self.tree = Some(None);
                }
            },
            Fact::ParentTree => {
                if self.parent_tree.is_none() {
                    self.parent_tree = Some(None);
                }
            },
            _ => {},
        }
    }

    /// Says which fact the engine has to be asked for next so that `goal`
    /// gets into the cache, and fills in before what needs no asking. When
    /// nothing is named, `goal` is in the cache.
    pub fn next_load(&mut self, goal: Fact) -> (next: Option<Fact>)
        ensures
            final(self)@ == old(self)@.settled(goal),
            final(self)@.consistent(),
            final(self)@.extends(old(self)@),
            next == final(self)@.needed(goal),
            next is None <==> final(self)@.has(goal),
    {
        proof {
            use_type_invariant(&*self);
        }
        let about_commit = match goal {
            Fact::Commit | Fact::ParentCommits | Fact::Tree | Fact::ParentTree => true,
            _ => false,
        };
        if about_commit && self.no_commit() {
            self.fill_without(Fact::Commit);
            self.fill_without(goal);
        }
        if self.has(goal) {
            None
        } else if self.workspace_helper.is_none() {
            Some(Fact::Workspace)
        } else if self.repo.is_none() {
            Some(Fact::Repo)
        } else if self.commit_id.is_none() {
            Some(Fact::CommitId)
        } else if self.no_commit() {
            None
        } else if self.commit.is_none() {
            Some(Fact::Commit)
        } else {
            Some(goal)
        }
    }
}

impl<W, R, I, C, T> State<W, R, I, C, T> {
    /// Takes what came of loading the workspace. A workspace is put into
    /// the cache, unless the cache holds one already: then that one stays.
    /// A failure is handed back as it is, and the cache stays as it was.
    pub fn load_workspace<E>(&mut self, loaded: Result<W, E>) -> (outcome: Result<(), E>)
        ensures
            final(self)@.consistent(),
            final(self)@.extends(old(self)@),
            match loaded {
                Ok(workspace) => outcome is Ok && final(self)@ == if old(self)@.needed(
                    Fact::Workspace,
                ) == Some(Fact::Workspace) {
                    Slots { workspace: Some(workspace), ..old(self)@ }
                } else {
                    old(self)@
                },
                Err(error) => outcome == Err::<(), E>(error) && final(self)@ == old(self)@,
            },
    {
        proof {
            use_type_invariant(&*self);
        }
        let workspace = match loaded {
            Ok(workspace) => workspace,
            Err(error) => {
                return Err(error);
            },
        };
        if self.workspace_helper.is_none() {
            self.workspace_helper = Some(workspace);
        }
        Ok(())
    }

    /// The workspace, once it was loaded.
    pub fn workspace_helper(&self) -> (workspace: Option<&W>)
        ensures
            workspace == match self@.workspace {
                Some(workspace) => Some(&workspace),
                None => None,
            },
    {
        self.workspace_helper.as_ref()
    }

    /// Puts the repository of the workspace into the cache, if the workspace
    /// is there and the repository is not.
    pub fn load_repo(&mut self, repo: R)
        ensures
            final(self)@.consistent(),
            final(self)@.extends(old(self)@),
            final(self)@ == if old(self)@.needed(Fact::Repo) == Some(Fact::Repo) {
                Slots { repo: Some(repo), ..old(self)@ }
            } else {
                old(self)@
            },
    {
        proof {
            use_type_invariant(&*self);
        }
        if self.workspace_helper.is_some() && self.repo.is_none() {
            self.repo = Some(repo);
        }
    }

    /// The repository, once it was loaded.
    pub fn repo(&self) -> (repo: Option<&R>)
        ensures
            repo == match self@.repo {
                Some(repo) => Some(&repo),
                None => None,
            },
    {
        self.repo.as_ref()
    }

    /// Puts the identifier of the working-copy commit into the cache, or
    /// that the workspace has none, if the repository is there and no
    /// answer is yet.
    pub fn load_commit_id(&mut self, commit_id: Option<I>)
        ensures
            final(self)@.consistent(),
            final(self)@.extends(old(self)@),
            final(self)@ == if old(self)@.needed(Fact::CommitId) == Some(Fact::CommitId) {
                Slots { commit_id: Some(commit_id), ..old(self)@ }
            } else {
                old(self)@
            },
    {
        proof {
            use_type_invariant(&*self);
        }
        if self.workspace_helper.is_some() && self.repo.is_some() && self.commit_id.is_none() {
            self.commit_id = Some(commit_id);
        }
    }

    /// The identifier of the working-copy commit, once it was looked up:
    /// `Some(None)` where the workspace has no such commit.
    pub fn commit_id(&self) -> (commit_id: Option<&Option<I>>)
        ensures
            commit_id == match self@.commit_id {
                Some(commit_id) => Some(&commit_id),
                None => None,
            },
    {
        self.commit_id.as_ref()
    }

    fn ready_for_commit(&self) -> (ready: bool)
        ensures
            ready == (self@.workspace is Some && self@.repo is Some && self@.commit_id is Some
                && !self@.no_commit()),
    {
        self.workspace_helper.is_some() && self.repo.is_some() && self.commit_id.is_some()
            && !self.no_commit()
    }

    /// Takes what came of fetching the working-copy commit. A commit is
    /// put into the cache, if its identifier is there and the commit is
    /// not. A failure is handed back as it is, and the cache stays as it was.
    pub fn load_commit<E>(&mut self, loaded: Result<C, E>) -> (outcome: Result<(), E>)
        ensures
            final(self)@.consistent(),
            final(self)@.extends(old(self)@),
            match loaded {
                Ok(commit) => outcome is Ok && final(self)@ == if old(self)@.needed(Fact::Commit)
                    == Some(Fact::Commit) {
                    Slots { commit: Some(Some(commit)), ..old(self)@ }
                } else {
                    old(self)@
                },
                Err(error) => outcome == Err::<(), E>(error) && final(self)@ == old(self)@,
            },
    {
        proof {
            use_type_invariant(&*self);
        }
        let commit = match loaded {
            Ok(commit) => commit,
            Err(error) => {
                return Err(error);
            },
        };
        if self.ready_for_commit() && self.commit.is_none() {
            self.commit = Some(Some(commit));
        }
        Ok(())
    }

    /// The working-copy commit, once it was looked up: `Some(None)` where
    /// the workspace has no such commit.
    pub fn commit(&self) -> (commit: Option<&Option<C>>)
        ensures
            commit == match self@.commit {
                Some(commit) => Some(&commit),
                None => None,
            },
    {
        self.commit.as_ref()
    }

    /// Takes what came of fetching the parents of the working-copy commit.
    /// The parents are put into the cache, if the commit is there and its
    /// parents are not. A failure is handed back as it is, and the cache
    /// stays as it was.
    pub fn load_parent_commits<E>(&mut self, loaded: Result<Vec<C>, E>) -> (outcome: Result<(), E>)
        ensures
            final(self)@.consistent(),
            final(self)@.extends(old(self)@),
            match loaded {
                Ok(parents) => outcome is Ok && final(self)@ == if old(self)@.needed(
                    Fact::ParentCommits,
                ) == Some(Fact::ParentCommits) {
                    Slots { parent_commits: Some(parents@), ..old(self)@ }
                } else {
                    old(self)@
                },
                Err(error) => outcome == Err::<(), E>(error) && final(self)@ == old(self)@,
            },
    {
        proof {
            use_type_invariant(&*self);
        }
        let parents = match loaded {
            Ok(parents) => parents,
            Err(error) => {
                return Err(error);
            },
        };
        if self.ready_for_commit() && self.commit.is_some() && self.parent_commits.is_none() {
            self.parent_commits = Some(parents);
        }
        Ok(())
    }

    /// The parents of the working-copy commit, once they were looked up:
    /// none where the workspace has no such commit.
    pub fn parent_commits(&self) -> (parents: Option<&Vec<C>>)
        ensures
            match parents {
                Some(parents) => self@.parent_commits == Some(parents@),
                None => self@.parent_commits is None,
            },
    {
        self.parent_commits.as_ref()
    }

    /// Takes what came of fetching the tree that the working-copy commit
    /// was made from. The tree is put into the cache, if the commit is
    /// there and that tree is not. A failure is handed back as it is, and
    /// the cache stays as it was.
    pub fn load_parent_tree<E>(&mut self, loaded: Result<T, E>) -> (outcome: Result<(), E>)
        ensures
            final(self)@.consistent(),
            final(self)@.extends(old(self)@),
            match loaded {
                Ok(tree) => outcome is Ok && final(self)@ == if old(self)@.needed(
                    Fact::ParentTree,
                ) == Some(Fact::ParentTree) {
                    Slots { parent_tree: Some(Some(tree)), ..old(self)@ }
                } else {
                    old(self)@
                },
                Err(error) => outcome == Err::<(), E>(error) && final(self)@ == old(self)@,
            },
    {
        proof {
            use_type_invariant(&*self);
        }
        let tree = match loaded {
            Ok(tree) => tree,
            Err(error) => {
                return Err(error);
            },
        };
        if self.ready_for_commit() && self.commit.is_some() && self.parent_tree.is_none() {
            self.parent_tree = Some(Some(tree));
        }
        Ok(())
    }

    /// The tree that the working-copy commit was made from, once it was
    /// looked up: `Some(None)` where the workspace has no such commit.
    pub fn parent_tree(&self) -> (tree: Option<&Option<T>>)
        ensures
            tree == match self@.parent_tree {
                Some(tree) => Some(&tree),
                None => None,
            },
    {
        self.parent_tree.as_ref()
    }

    /// Takes what came of fetching the tree of the working-copy commit.
    /// The tree is put into the cache, if the commit is there and its tree
    /// is not. A failure is handed back as it is, and the cache stays as
    /// it was.
    pub fn load_tree<E>(&mut self, loaded: Result<T, E>) -> (outcome: Result<(), E>)
        ensures
            final(self)@.consistent(),
            final(self)@.extends(old(self)@),
            match loaded {
                Ok(tree) => outcome is Ok && final(self)@ == if old(self)@.needed(Fact::Tree)
                    == Some(Fact::Tree) {
                    Slots { tree: Some(Some(tree)), ..old(self)@ }
                } else {
                    old(self)@
                },
                Err(error) => outcome == Err::<(), E>(error) && final(self)@ == old(self)@,
            },
    {
        proof {
            use_type_invariant(&*self);
        }
        let tree = match loaded {
            Ok(tree) => tree,
            Err(error) => {
                return Err(error);
            },
        };
        if self.ready_for_commit() && self.commit.is_some() && self.tree.is_none() {
            self.tree = Some(Some(tree));
        }
        Ok(())
    }

    /// The tree of the working-copy commit, once it was looked up:
    /// `Some(None)` where the workspace has no such commit.
    pub fn tree(&self) -> (tree: Option<&Option<T>>)
        ensures
            tree == match self@.tree {
                Some(tree) => Some(&tree),
                None => None,
            },
    {
        self.tree.as_ref()
    }

    /// What the engine computes the change counters from: the commit, the
    /// tree it was made from and its own tree, in this order. There is
    /// nothing to compute unless all three are in the cache and present.
    pub fn diff_stats(&self) -> (inputs: Option<(&C, &T, &T)>)
        ensures
            inputs == match (self@.commit, self@.parent_tree, self@.tree) {
                (Some(Some(commit)), Some(Some(parent_tree)), Some(Some(tree))) => Some(
                    (&commit, &parent_tree, &tree),
                ),
                _ => None,
            },
    {
        match (&self.commit, &self.parent_tree, &self.tree) {
            (Some(Some(commit)), Some(Some(parent_tree)), Some(Some(tree))) => Some(
                (commit, parent_tree, tree),
            ),
            _ => None,
        }
    }
}

impl<W, R, I, C, T: PartialEq> State<W, R, I, C, T> {
    /// Whether the working-copy commit changes nothing: its tree equals
    /// the tree it was made from. Unknown unless both trees are in the
    /// cache and present.
    pub fn commit_is_empty(&self) -> (empty: Option<bool>)
        ensures
            match (self@.tree, self@.parent_tree) {
                (Some(Some(tree)), Some(Some(parent_tree))) => empty is Some && (
                T::obeys_eq_spec() ==> empty == Some(tree.eq_spec(&parent_tree))),
                _ => empty is None,
            },
    {
        match (&self.tree, &self.parent_tree) {
            (Some(Some(tree)), Some(Some(parent_tree))) => Some(tree == parent_tree),
            _ => None,
        }
    }
}

/// A fact that is asked for is missing, and everything that it rests on is
/// in the cache: the workspace before the repository, the repository before
/// the commit's identifier, the identifier before the commit, the commit
/// before its parents and trees.
pub proof fn lemma_needed_is_ready<W, R, I, C, T>(slots: Slots<W, R, I, C, T>, goal: Fact)
    requires
        slots.consistent(),
        slots.needed(goal) is Some,
    ensures
        !slots.has(slots.needed(goal)->0),
        slots.needed(slots.needed(goal)->0) == slots.needed(goal),
        slots.needed(goal)->0 != Fact::Workspace ==> slots.workspace is Some,
        slots.needed(goal)->0 != Fact::Workspace && slots.needed(goal)->0 != Fact::Repo
            ==> slots.repo is Some,
        Slots::<W, R, I, C, T>::about_commit(slots.needed(goal)->0) ==> slots.commit_id matches Some(
            Some(_),
        ),
        Slots::<W, R, I, C, T>::about_commit(slots.needed(goal)->0) && slots.needed(goal)->0
            != Fact::Commit ==> slots.commit matches Some(Some(_)),
{
}

/// A fact that is in the cache is not looked up again: asking for it names
/// no look-up and leaves the cache as it is.
pub proof fn lemma_cached_stays<W, R, I, C, T>(slots: Slots<W, R, I, C, T>, goal: Fact)
    requires
        slots.consistent(),
        slots.has(goal),
    ensures
        slots.needed(goal) is None,
        slots.settled(goal) == slots,
{
}

/// Where the workspace has no working-copy commit, no fact about that
/// commit is looked up: asking for one names no look-up and finds that
/// there is no commit, no parent and no tree.
pub proof fn lemma_no_commit_no_lookup<W, R, I, C, T>(slots: Slots<W, R, I, C, T>, goal: Fact)
    requires
        slots.consistent(),
        slots.no_commit(),
        Slots::<W, R, I, C, T>::about_commit(goal),
    ensures
        slots.settled(goal).consistent(),
        slots.settled(goal).extends(slots),
        slots.settled(goal).needed(goal) is None,
        slots.settled(goal).commit == Some(None::<C>),
        goal == Fact::ParentCommits ==> slots.settled(goal).parent_commits == Some(
            Seq::<C>::empty(),
        ),
        goal == Fact::Tree ==> slots.settled(goal).tree == Some(None::<T>),
        goal == Fact::ParentTree ==> slots.settled(goal).parent_tree == Some(None::<T>),
{
    if slots.parent_commits is Some {
        assert(slots.parent_commits->0 =~= Seq::<C>::empty());
    }
}

impl<W, R, I, C, T> Slots<W, R, I, C, T> {
    /// The most look-ups that `goal` may still take: one for each fact
    /// that it rests on and that is not in the cache, and one for itself.
    pub open spec fn pending(self, goal: Fact) -> nat {
        if self.needed(goal) is None {
            0
        } else {
            let rests_on_repo = goal != Fact::Workspace;
            let rests_on_commit_id = rests_on_repo && goal != Fact::Repo;
            let rests_on_commit = Self::about_commit(goal) && goal != Fact::Commit;
            1 + (if self.workspace is None && rests_on_repo {
                1nat
            } else {
                0nat
            }) + (if self.repo is None && rests_on_commit_id {
                1nat
            } else {
                0nat
            }) + (if self.commit_id is None && Self::about_commit(goal) {
                1nat
            } else {
                0nat
            }) + (if self.commit is None && rests_on_commit {
                1nat
            } else {
                0nat
            })
        }
    }
}

/// Each look-up brings the goal nearer: once the fact that is asked for is
/// in the cache, and the cache holds what it held, fewer look-ups are left,
/// and none is left exactly when nothing more is asked for. No goal takes
/// more than five.
pub proof fn lemma_lookups_end<W, R, I, C, T>(
    before: Slots<W, R, I, C, T>,
    after: Slots<W, R, I, C, T>,
    goal: Fact,
)
    requires
        before.consistent(),
        after.consistent(),
        after.extends(before),
        before.needed(goal) matches Some(fact) && after.has(fact),
    ensures
        after.pending(goal) < before.pending(goal),
        before.pending(goal) <= 5,
        after.pending(goal) == 0 <==> after.needed(goal) is None,
{
}

} // verus!
