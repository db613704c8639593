use vstd::prelude::*;

use crate::config::util::glob_matches;
use crate::config::util::Glob;
use crate::config::BookmarkConfig;
use crate::data::BookmarkList;
use crate::text::decimal;
use crate::text::hex;
use crate::text::push_decimal;
use crate::text::push_hex;

verus! {

/// A bookmark of a remote, with the commits that its target adds.
#[derive(Clone, Debug)]
pub struct RemoteBookmark {
    /// The bare name of the bookmark.
    pub name: String,
    /// The remote that the bookmark belongs to.
    pub remote: String,
    /// The identifiers of the commits that the bookmark points at.
    pub targets: Vec<Vec<u8>>,
}

/// Whether one of the patterns of `exclude` matches `name`.
pub open spec fn is_excluded(name: Seq<char>, exclude: Seq<Glob>) -> bool {
    exists|k: int| 0 <= k < exclude.len() && glob_matches((#[trigger] exclude[k])@, name)
}

/// The name under which a remote bookmark is shown: `name@remote`.
pub open spec fn remote_label(name: Seq<char>, remote: Seq<char>) -> Seq<char> {
    name + seq!['@'] + remote
}

/// Whether one of `targets` is the commit `commit_id`.
pub open spec fn points_at(targets: Seq<Vec<u8>>, commit_id: Seq<u8>) -> bool {
    exists|t: int| 0 <= t < targets.len() && (#[trigger] targets[t])@ == commit_id
}

/// Whether one of the first `upto` local bookmarks has the name `name` and is not excluded.
pub open spec fn local_found(
    local: Seq<String>,
    exclude: Seq<Glob>,
    upto: int,
    name: Seq<char>,
) -> bool {
    !is_excluded(name, exclude) && exists|i: int| 0 <= i < upto && (#[trigger] local[i])@ == name
}

/// Whether the remote bookmark `bookmark` is taken: it points at the
/// commit, no bookmark of `shadow` has its bare name, and its label is not
/// excluded.
pub open spec fn remote_taken(
    bookmark: RemoteBookmark,
    commit_id: Seq<u8>,
    shadow: Set<Seq<char>>,
    exclude: Seq<Glob>,
) -> bool {
    &&& points_at(bookmark.targets@, commit_id)
    &&& !shadow.contains(bookmark.name@)
    &&& !is_excluded(remote_label(bookmark.name@, bookmark.remote@), exclude)
}

/// Whether one of the first `upto` remote bookmarks is taken and is shown as `label`.
pub open spec fn remote_found(
    remote: Seq<RemoteBookmark>,
    commit_id: Seq<u8>,
    shadow: Set<Seq<char>>,
    exclude: Seq<Glob>,
    upto: int,
    label: Seq<char>,
) -> bool {
    exists|j: int|
        0 <= j < upto && remote_taken(#[trigger] remote[j], commit_id, shadow, exclude)
            && remote_label(remote[j].name@, remote[j].remote@) == label
}

/// `found` with each of the first `upto` local bookmarks that is not
/// excluded put at `distance`.
pub open spec fn with_local(
    found: Map<Seq<char>, usize>,
    local: Seq<String>,
    exclude: Seq<Glob>,
    distance: usize,
    upto: int,
) -> Map<Seq<char>, usize> {
    Map::new(
        |name: Seq<char>| found.dom().contains(name) || local_found(local, exclude, upto, name),
        |name: Seq<char>|
            if local_found(local, exclude, upto, name) {
                distance
            } else {
                found[name]
            },
    )
}

/// `found` with each of the first `upto` remote bookmarks that is taken
/// put at `distance` under its label. The names of `shadow` hide the remote
/// bookmarks of the same bare name.
pub open spec fn with_remote(
    found: Map<Seq<char>, usize>,
    remote: Seq<RemoteBookmark>,
    commit_id: Seq<u8>,
    shadow: Set<Seq<char>>,
    exclude: Seq<Glob>,
    distance: usize,
    upto: int,
) -> Map<Seq<char>, usize> {
    Map::new(
        |name: Seq<char>|
            found.dom().contains(name) || remote_found(
                remote,
                commit_id,
                shadow,
                exclude,
                upto,
                name,
            ),
        |name: Seq<char>|
            if remote_found(remote, commit_id, shadow, exclude, upto, name) {
                distance
            } else {
                found[name]
            },
    )
}

/// Whether one of the first `upto` labels is `name`.
spec fn listed(labels: Seq<String>, upto: int, name: Seq<char>) -> bool {
    exists|t: int| 0 <= t < upto && (#[trigger] labels[t])@ == name
}

/// `found` with each of the first `upto` labels put at `distance`.
spec fn with_labels(
    found: Map<Seq<char>, usize>,
    labels: Seq<String>,
    distance: usize,
    upto: int,
) -> Map<Seq<char>, usize> {
    Map::new(
        |name: Seq<char>| found.dom().contains(name) || listed(labels, upto, name),
        |name: Seq<char>|
            if listed(labels, upto, name) {
                distance
            } else {
                found[name]
            },
    )
}

/// The bookmarks after those of one commit were collected: first the local
/// ones, then the remote ones that no name collected so far shadows.
pub open spec fn collected(
    found: Map<Seq<char>, usize>,
    commit_id: Seq<u8>,
    local: Seq<String>,
    remote: Seq<RemoteBookmark>,
    exclude: Seq<Glob>,
    distance: usize,
) -> Map<Seq<char>, usize> {
    let locals = with_local(found, local, exclude, distance, local.len() as int);
    with_remote(locals, remote, commit_id, locals.dom(), exclude, distance, remote.len() as int)
}

/// Whether collecting the bookmarks of one commit adds any.
pub open spec fn collects_any(
    found: Map<Seq<char>, usize>,
    commit_id: Seq<u8>,
    local: Seq<String>,
    remote: Seq<RemoteBookmark>,
    exclude: Seq<Glob>,
    distance: usize,
) -> bool {
    ||| exists|i: int| 0 <= i < local.len() && !is_excluded((#[trigger] local[i])@, exclude)
    ||| exists|j: int|
        0 <= j < remote.len() && remote_taken(
            #[trigger] remote[j],
            commit_id,
            with_local(found, local, exclude, distance, local.len() as int).dom(),
            exclude,
        )
}

/// Whether one of the patterns of `exclude` matches `name`.
pub fn excluded(name: &str, exclude: &Vec<Glob>) -> (hit: bool)
    ensures
        hit == is_excluded(name@, exclude@),
{
    let mut at: usize = 0;
    while at < exclude.len()
        invariant
            at <= exclude.len(),
            forall|k: int| 0 <= k < at ==> !glob_matches((#[trigger] exclude@[k])@, name@),
        decreases exclude.len() - at,
    {
        if exclude[at].matches(name) {
            return true;
        }
        at += 1;
    }
    false
}

fn same_bytes(a: &Vec<u8>, b: &Vec<u8>) -> (same: bool)
    ensures
        same == (a@ == b@),
{
    if a.len() != b.len() {
        return false;
    }
    let mut at: usize = 0;
    while at < a.len()
        invariant
            at <= a.len(),
            a.len() == b.len(),
            forall|i: int| 0 <= i < at ==> a@[i] == b@[i],
        decreases a.len() - at,
    {
        if a[at] != b[at] {
            return false;
        }
        at += 1;
    }
    assert(a@ =~= b@);
    true
}

/// Whether one of `targets` is the commit `commit_id`.
pub fn is_target(targets: &Vec<Vec<u8>>, commit_id: &Vec<u8>) -> (hit: bool)
    ensures
        hit == points_at(targets@, commit_id@),
{
    let mut at: usize = 0;
    while at < targets.len()
        invariant
            at <= targets.len(),
            forall|t: int| 0 <= t < at ==> (#[trigger] targets@[t])@ != commit_id@,
        decreases targets.len() - at,
    {
        if same_bytes(&targets[at], commit_id) {
            return true;
        }
        at += 1;
    }
    false
}

/// The label `name@remote` of a remote bookmark.
pub fn label_of(name: &str, remote: &str) -> (label: String)
    ensures
        label@ == remote_label(name@, remote@),
{
    let mut label = name.to_string();
    label.push('@');
    label.append(remote);
    label
}

/// Collects the bookmarks of the commit `commit_id` into `bookmarks`, each
/// at `distance`: the local bookmarks `local` of the commit, then those of
/// `remote` that point at the commit and whose bare name no collected
/// bookmark has, under the label `name@remote`. A name that a pattern of
/// `config.exclude` matches is left out. Says whether any was collected.
pub fn collect_bookmarks_for_commit(
    commit_id: &Vec<u8>,
    local: &Vec<String>,
    remote: &Vec<RemoteBookmark>,
    config: &BookmarkConfig,
    bookmarks: &mut BookmarkList,
    distance: usize,
) -> (found: bool)
    ensures
        final(bookmarks)@ == collected(
            old(bookmarks)@,
            commit_id@,
            local@,
            remote@,
            config.exclude@,
            distance,
        ),
        found == collects_any(
            old(bookmarks)@,
            commit_id@,
            local@,
            remote@,
            config.exclude@,
            distance,
        ),
{
    let mut found = false;
    let ghost before = bookmarks@;
    let ghost exclude = config.exclude@;
    let mut i: usize = 0;
    assert(bookmarks@ =~= with_local(before, local@, exclude, distance, 0));
    while i < local.len()
        invariant
            i <= local.len(),
            exclude == config.exclude@,
            bookmarks@ == with_local(before, local@, exclude, distance, i as int),
            found == exists|k: int| 0 <= k < i && !is_excluded((#[trigger] local@[k])@, exclude),
        decreases local.len() - i,
    {
        let name = &local[i];
        if !excluded(name.as_str(), &config.exclude) {
            bookmarks.insert(name.clone(), distance);
            found = true;
            assert(!is_excluded(local@[i as int]@, exclude));
        }
        i += 1;
        assert(bookmarks@ =~= with_local(before, local@, exclude, distance, i as int)) by {
            assert forall|n: Seq<char>|
                local_found(local@, exclude, i as int, n) <==> (local_found(
                    local@,
                    exclude,
                    i - 1,
                    n,
                ) || (local@[i - 1]@ == n && !is_excluded(n, exclude))) by {
                if local_found(local@, exclude, i - 1, n) {
                    let k = choose|k: int| 0 <= k < i - 1 && (#[trigger] local@[k])@ == n;
                    assert(0 <= k < i && local@[k]@ == n);
                }
            }
        }
    }
    // Which remote bookmarks are taken is settled against the names that
    // are collected by now, before any of their labels is put in.
    let ghost locals = bookmarks@;
    let ghost shadow = locals.dom();
    let mut labels: Vec<String> = Vec::new();
    let mut j: usize = 0;
    while j < remote.len()
        invariant
            j <= remote.len(),
            exclude == config.exclude@,
            bookmarks@ == locals,
            shadow == locals.dom(),
            forall|n: Seq<char>|
                listed(labels@, labels@.len() as int, n) <==> remote_found(
                    remote@,
                    commit_id@,
                    shadow,
                    exclude,
                    j as int,
                    n,
                ),
            labels@.len() > 0 <==> exists|k: int|
                0 <= k < j && remote_taken(#[trigger] remote@[k], commit_id@, shadow, exclude),
        decreases remote.len() - j,
    {
        let candidate = &remote[j];
        let ghost listed_before = labels@;
        let mut taken = false;
        if is_target(&candidate.targets, commit_id) && !bookmarks.contains(
            candidate.name.as_str(),
        ) {
            let label = label_of(candidate.name.as_str(), candidate.remote.as_str());
            if !excluded(label.as_str(), &config.exclude) {
                labels.push(label);
                taken = true;
            }
        }
        j += 1;
        proof {
            let this = remote@[j - 1];
            let this_label = remote_label(this.name@, this.remote@);
            assert(taken == remote_taken(this, commit_id@, shadow, exclude));
            assert forall|n: Seq<char>|
                listed(labels@, labels@.len() as int, n) <==> remote_found(
                    remote@,
                    commit_id@,
                    shadow,
                    exclude,
                    j as int,
                    n,
                ) by {
                let was = remote_found(remote@, commit_id@, shadow, exclude, j - 1, n);
                assert(was == listed(listed_before, listed_before.len() as int, n));
                if listed(listed_before, listed_before.len() as int, n) {
                    let t = choose|t: int|
                        0 <= t < listed_before.len() && (#[trigger] listed_before[t])@ == n;
                    assert(labels@[t]@ == n);
                }
                if was {
                    let k = choose|k: int|
                        0 <= k < j - 1 && remote_taken(
                            #[trigger] remote@[k],
                            commit_id@,
                            shadow,
                            exclude,
                        ) && remote_label(remote@[k].name@, remote@[k].remote@) == n;
                    assert(0 <= k < j);
                }
                if taken && n == this_label {
                    assert(labels@[labels@.len() - 1]@ == n);
                    assert(remote_taken(remote@[j - 1], commit_id@, shadow, exclude));
                }
                if listed(labels@, labels@.len() as int, n) {
                    let t = choose|t: int| 0 <= t < labels@.len() && (#[trigger] labels@[t])@ == n;
                    if t < listed_before.len() {
                        assert(listed_before[t]@ == n);
                    } else {
                        assert(taken && n == this_label);
                    }
                }
                if remote_found(remote@, commit_id@, shadow, exclude, j as int, n) {
                    let k = choose|k: int|
                        0 <= k < j && remote_taken(
                            #[trigger] remote@[k],
                            commit_id@,
                            shadow,
                            exclude,
                        ) && remote_label(remote@[k].name@, remote@[k].remote@) == n;
                    if k < j - 1 {
                        assert(was);
                    } else {
                        assert(taken && n == this_label);
                    }
                }
            }
            if taken {
                assert(remote_taken(remote@[j - 1], commit_id@, shadow, exclude));
            }
        }
    }
    let taken_any = labels.len() > 0;
    // The labels go in from the last to the first: all get the same
    // distance, so their order makes no difference.
    assert(bookmarks@ =~= with_labels(locals, labels@, distance, 0));
    let mut at: usize = labels.len();
    let ghost all_labels = labels@;
    while at > 0
        invariant
            at <= all_labels.len(),
            labels@ == all_labels.take(at as int),
            bookmarks@ == with_labels(
                locals,
                all_labels.skip(at as int),
                distance,
                all_labels.len() - at,
            ),
        decreases at,
    {
        let label = labels.pop().unwrap();
        bookmarks.insert(label, distance);
        at -= 1;
        proof {
            let rest = all_labels.skip(at as int);
            let earlier = all_labels.skip(at + 1);
            assert(label@ == all_labels[at as int]@);
            assert(labels@ =~= all_labels.take(at as int));
            assert forall|n: Seq<char>|
                listed(rest, rest.len() as int, n) <==> (listed(earlier, earlier.len() as int, n)
                    || n == label@) by {
                if listed(earlier, earlier.len() as int, n) {
                    let t = choose|t: int| 0 <= t < earlier.len() && (#[trigger] earlier[t])@ == n;
                    assert(rest[t + 1]@ == n);
                }
                if n == label@ {
                    assert(rest[0]@ == n);
                }
                if listed(rest, rest.len() as int, n) {
                    let t = choose|t: int| 0 <= t < rest.len() && (#[trigger] rest[t])@ == n;
                    if t > 0 {
                        assert(earlier[t - 1]@ == n);
                    }
                }
            }
            assert(bookmarks@ =~= with_labels(locals, rest, distance, rest.len() as int));
        }
    }
    proof {
        assert(all_labels.skip(0) =~= all_labels);
        assert(bookmarks@ =~= with_remote(
            locals,
            remote@,
            commit_id@,
            shadow,
            exclude,
            distance,
            remote@.len() as int,
        ));
    }
    found || taken_any
}

/// What the search asks of the version-control engine.
#[derive(Clone, Debug)]
pub enum Request {
    /// The identifiers of the commits that the revset selects, in the engine's order.
    Resolve(String),
    /// The local bookmarks on the commit, and every remote bookmark with its targets.
    Bookmarks(Vec<u8>),
}

/// What the engine answered.
#[derive(Clone, Debug)]
pub enum Reply {
    /// The commits that a revset selects.
    CommitIds(Vec<Vec<u8>>),
    /// The local bookmarks on a commit, and every remote bookmark.
    Bookmarks(Vec<String>, Vec<RemoteBookmark>),
}

/// Where the search for the nearest bookmarks stands: the question that
/// the engine was asked last.
#[derive(Clone, Debug)]
pub enum Search {
    /// Which commit is the working copy?
    WorkingCopy,
    /// Which bookmarks are on the working-copy commit?
    OnWorkingCopy(Vec<u8>),
    /// Which ancestor within the search depth was the last to get a bookmark?
    Nearest,
    /// Which commits lie from that ancestor up to the working copy?
    Range(Vec<u8>),
    /// Which bookmarks are on that ancestor, so many steps back?
    OnTarget(Vec<u8>, usize),
    /// Nothing more: the search is over.
    Done,
}

/// A stage of the search, with commit identifiers as sequences of bytes.
pub enum Stage {
    WorkingCopy,
    OnWorkingCopy(Seq<u8>),
    Nearest,
    Range(Seq<u8>),
    OnTarget(Seq<u8>, usize),
    Done,
}

/// A request, with its text or commit identifier as a sequence.
pub enum Asked {
    Resolve(Seq<char>),
    Bookmarks(Seq<u8>),
}

impl View for Search {
    type V = Stage;

    open spec fn view(&self) -> Stage {
        match *self {
            Search::WorkingCopy => Stage::WorkingCopy,
            Search::OnWorkingCopy(id) => Stage::OnWorkingCopy(id@),
            Search::Nearest => Stage::Nearest,
            Search::Range(target) => Stage::Range(target@),
            Search::OnTarget(target, distance) => Stage::OnTarget(target@, distance),
            Search::Done => Stage::Done,
        }
    }
}

impl View for Request {
    type V = Asked;

    open spec fn view(&self) -> Asked {
        match *self {
            Request::Resolve(revset) => Asked::Resolve(revset@),
            Request::Bookmarks(id) => Asked::Bookmarks(id@),
        }
    }
}

/// The revset of the working-copy commit.
pub open spec fn working_copy_revset() -> Seq<char> {
    "@"@
}

/// The revset of the ancestor that was the last to get a bookmark, among
/// the ancestors of the working copy that are at most `depth` steps back.
pub open spec fn nearest_revset(depth: usize) -> Seq<char> {
    "latest((heads(ancestors(@-, "@ + decimal(depth as nat) + ") & bookmarks())))"@
}

/// The revset of the commits from `target` up to the working copy, both included.
pub open spec fn range_revset(target: Seq<u8>) -> Seq<char> {
    hex(target) + "::@"@
}

/// The number of steps from the first commit of a range of `count`
/// commits to its last: one less than the commits, and 0 for an empty range.
pub open spec fn steps_of_range(count: nat) -> nat {
    if count == 0 {
        0
    } else {
        (count - 1) as nat
    }
}

/// What is asked of the engine at `stage`; nothing when the search is over.
pub open spec fn asked_at(stage: Stage, depth: usize) -> Option<Asked> {
    match stage {
        Stage::WorkingCopy => Some(Asked::Resolve(working_copy_revset())),
        Stage::OnWorkingCopy(id) => Some(Asked::Bookmarks(id)),
        Stage::Nearest => Some(Asked::Resolve(nearest_revset(depth))),
        Stage::Range(target) => Some(Asked::Resolve(range_revset(target))),
        Stage::OnTarget(target, _) => Some(Asked::Bookmarks(target)),
        Stage::Done => None,
    }
}

/// The stage that follows `stage` on `reply`, where `found` are the
/// bookmarks collected so far. A reply that does not answer the question of
/// the stage changes nothing.
pub open spec fn stage_after(
    stage: Stage,
    found: Map<Seq<char>, usize>,
    reply: Reply,
    exclude: Seq<Glob>,
) -> Stage {
    match (stage, reply) {
        (Stage::WorkingCopy, Reply::CommitIds(ids)) => if ids@.len() > 0 {
            Stage::OnWorkingCopy(ids@[0]@)
        } else {
            Stage::Nearest
        },
        (Stage::OnWorkingCopy(id), Reply::Bookmarks(local, remote)) => if collects_any(
            found,
            id,
            local@,
            remote@,
            exclude,
            0,
        ) {
            Stage::Done
        } else {
            Stage::Nearest
        },
        (Stage::Nearest, Reply::CommitIds(ids)) => if ids@.len() > 0 {
            Stage::Range(ids@[0]@)
        } else {
            Stage::Done
        },
        (Stage::Range(target), Reply::CommitIds(ids)) => Stage::OnTarget(
            target,
            steps_of_range(ids@.len()) as usize,
        ),
        (Stage::OnTarget(_, _), Reply::Bookmarks(_, _)) => Stage::Done,
        _ => stage,
    }
}

/// The bookmarks that are collected once `reply` has come at `stage`.
pub open spec fn found_after(
    stage: Stage,
    found: Map<Seq<char>, usize>,
    reply: Reply,
    exclude: Seq<Glob>,
) -> Map<Seq<char>, usize> {
    match (stage, reply) {
        (Stage::OnWorkingCopy(id), Reply::Bookmarks(local, remote)) => collected(
            found,
            id,
            local@,
            remote@,
            exclude,
            0,
        ),
        (Stage::OnTarget(target, distance), Reply::Bookmarks(local, remote)) => collected(
            found,
            target,
            local@,
            remote@,
            exclude,
            distance,
        ),
        _ => found,
    }
}

impl Search {
    /// The search before its first question.
    pub fn new() -> (search: Self)
        ensures
            search@ == Stage::WorkingCopy,
    {
        Search::WorkingCopy
    }

    /// Whether the search is over.
    pub fn is_done(&self) -> (done: bool)
        ensures
            done == (self@ == Stage::Done),
    {
        match self {
            Search::Done => true,
            _ => false,
        }
    }

    /// What the engine is to be asked now; nothing once the search is over.
    pub fn request(&self, config: &BookmarkConfig) -> (request: Option<Request>)
        ensures
            match request {
                Some(request) => asked_at(self@, config.search_depth) == Some(request@),
                None => asked_at(self@, config.search_depth) is None,
            },
    {
        match self {
            Search::WorkingCopy => Some(Request::Resolve("@".to_string())),
            Search::OnWorkingCopy(id) => Some(Request::Bookmarks(copy_bytes(id))),
            Search::Nearest => {
                let mut revset = "latest((heads(ancestors(@-, ".to_string();
                push_decimal(&mut revset, config.search_depth);
                revset.append(") & bookmarks())))");
                Some(Request::Resolve(revset))
            },
            Search::Range(target) => {
                let mut revset = String::new();
                push_hex(&mut revset, target);
                revset.append("::@");
                assert(revset@ =~= range_revset(target@));
                Some(Request::Resolve(revset))
            },
            Search::OnTarget(target, _) => Some(Request::Bookmarks(copy_bytes(target))),
            Search::Done => None,
        }
    }

    /// Takes the engine's reply to the last request: collects the bookmarks
    /// that it names into `bookmarks` and moves to the next stage.
    pub fn advance(&mut self, reply: &Reply, config: &BookmarkConfig, bookmarks: &mut BookmarkList)
        ensures
            final(self)@ == stage_after(old(self)@, old(bookmarks)@, *reply, config.exclude@),
            final(bookmarks)@ == found_after(old(self)@, old(bookmarks)@, *reply, config.exclude@),
    {
        let next = match (&*self, reply) {
            (Search::WorkingCopy, Reply::CommitIds(ids)) => {
                if ids.len() > 0 {
                    Search::OnWorkingCopy(copy_bytes(&ids[0]))
                } else {
                    Search::Nearest
                }
            },
            (Search::OnWorkingCopy(id), Reply::Bookmarks(local, remote)) => {
                if collect_bookmarks_for_commit(id, local, remote, config, bookmarks, 0) {
                    Search::Done
                } else {
                    Search::Nearest
                }
            },
            (Search::Nearest, Reply::CommitIds(ids)) => {
                if ids.len() > 0 {
                    Search::Range(copy_bytes(&ids[0]))
                } else {
                    Search::Done
                }
            },
            (Search::Range(target), Reply::CommitIds(ids)) => {
                let distance = if ids.len() == 0 {
                    0
                } else {
                    ids.len() - 1
                };
                Search::OnTarget(copy_bytes(target), distance)
            },
            (Search::OnTarget(target, distance), Reply::Bookmarks(local, remote)) => {
                collect_bookmarks_for_commit(target, local, remote, config, bookmarks, *distance);
                Search::Done
            },
            _ => return ,
        };
        *self = next;
    }
}

fn copy_bytes(bytes: &Vec<u8>) -> (copy: Vec<u8>)
    ensures
        copy@ == bytes@,
{
    let mut copy: Vec<u8> = Vec::new();
    let mut at: usize = 0;
    while at < bytes.len()
        invariant
            at <= bytes.len(),
            copy@ == bytes@.take(at as int),
        decreases bytes.len() - at,
    {
        copy.push(bytes[at]);
        at += 1;
        assert(bytes@.take(at as int) =~= bytes@.take(at - 1).push(bytes@[at - 1]));
    }
    assert(bytes@.take(at as int) =~= bytes@);
    copy
}

/// One step of the search for the bookmarks nearest to the working copy.
/// With the engine's reply to the request given last, collects what it
/// names into `bookmarks` and says what to ask next; without a reply,
/// says what to ask at the stage where the search stands. The search is
/// over when nothing is asked.
pub fn find_parent_bookmarks(
    search: &mut Search,
    reply: Option<&Reply>,
    config: &BookmarkConfig,
    bookmarks: &mut BookmarkList,
) -> (request: Option<Request>)
    ensures
        match reply {
            Some(reply) => {
                &&& final(search)@ == stage_after(
                    old(search)@,
                    old(bookmarks)@,
                    *reply,
                    config.exclude@,
                )
                &&& final(bookmarks)@ == found_after(
                    old(search)@,
                    old(bookmarks)@,
                    *reply,
                    config.exclude@,
                )
            },
            None => final(search)@ == old(search)@ && final(bookmarks)@ == old(bookmarks)@,
        },
        match request {
            Some(request) => asked_at(final(search)@, config.search_depth) == Some(request@),
            None => final(search)@ == Stage::Done,
        },
{
    if let Some(reply) = reply {
        search.advance(reply, config, bookmarks);
    }
    search.request(config)
}

/// The stage and the bookmarks after the replies `replies` have come one
/// after the other, from `stage` with the bookmarks `found`.
pub open spec fn search_after(
    stage: Stage,
    found: Map<Seq<char>, usize>,
    replies: Seq<Reply>,
    exclude: Seq<Glob>,
) -> (Stage, Map<Seq<char>, usize>)
    decreases replies.len(),
{
    if replies.len() == 0 {
        (stage, found)
    } else {
        search_after(
            stage_after(stage, found, replies[0], exclude),
            found_after(stage, found, replies[0], exclude),
            replies.drop_first(),
            exclude,
        )
    }
}

/// Collecting puts every bookmark that it adds at the given distance and
/// leaves the others as they were; where it adds none, nothing changes.
pub proof fn lemma_collected(
    found: Map<Seq<char>, usize>,
    commit_id: Seq<u8>,
    local: Seq<String>,
    remote: Seq<RemoteBookmark>,
    exclude: Seq<Glob>,
    distance: usize,
)
    ensures
        forall|name: Seq<char>| #[trigger]
            found.dom().contains(name) ==> collected(
                found,
                commit_id,
                local,
                remote,
                exclude,
                distance,
            ).dom().contains(name),
        forall|name: Seq<char>|
            #![trigger collected(found, commit_id, local, remote, exclude, distance)[name]]
            collected(found, commit_id, local, remote, exclude, distance).dom().contains(name) ==> {
                ||| collected(found, commit_id, local, remote, exclude, distance)[name] == distance
                ||| found.dom().contains(name) && collected(
                    found,
                    commit_id,
                    local,
                    remote,
                    exclude,
                    distance,
                )[name] == found[name]
            },
        !collects_any(found, commit_id, local, remote, exclude, distance) ==> collected(
            found,
            commit_id,
            local,
            remote,
            exclude,
            distance,
        ) == found,
{
    let locals = with_local(found, local, exclude, distance, local.len() as int);
    let all = collected(found, commit_id, local, remote, exclude, distance);
    if !collects_any(found, commit_id, local, remote, exclude, distance) {
        assert forall|name: Seq<char>| !local_found(local, exclude, local.len() as int, name) by {
            if local_found(local, exclude, local.len() as int, name) {
                let i = choose|i: int| 0 <= i < local.len() && (#[trigger] local[i])@ == name;
                assert(!is_excluded(local[i]@, exclude));
            }
        }
        assert(locals =~= found);
        assert forall|name: Seq<char>|
            !remote_found(remote, commit_id, locals.dom(), exclude, remote.len() as int, name) by {
            if remote_found(remote, commit_id, locals.dom(), exclude, remote.len() as int, name) {
                let j = choose|j: int|
                    0 <= j < remote.len() && remote_taken(
                        #[trigger] remote[j],
                        commit_id,
                        locals.dom(),
                        exclude,
                    ) && remote_label(remote[j].name@, remote[j].remote@) == name;
                assert(remote_taken(remote[j], commit_id, locals.dom(), exclude));
            }
        }
        assert(all =~= found);
    }
}

/// Where the working-copy commit bears no bookmark that is shown, and no
/// ancestor within the search depth bears one, the search ends with the
/// bookmarks it began with: none, where it began with none. `at_commit`
/// tells the bookmarks on the working-copy commit; it is not asked for
/// where the workspace has no such commit.
pub proof fn lemma_nothing_in_reach(
    found: Map<Seq<char>, usize>,
    working_copy: Reply,
    at_commit: Reply,
    nearest: Reply,
    exclude: Seq<Glob>,
)
    requires
        working_copy is CommitIds,
        at_commit matches Reply::Bookmarks(local, remote) && (working_copy->CommitIds_0@.len() > 0
            ==> !collects_any(found, working_copy->CommitIds_0@[0]@, local@, remote@, exclude, 0)),
        nearest matches Reply::CommitIds(ids) && ids@.len() == 0,
    ensures
        working_copy->CommitIds_0@.len() > 0 ==> search_after(
            Stage::WorkingCopy,
            found,
            seq![working_copy, at_commit, nearest],
            exclude,
        ) == (Stage::Done, found),
        working_copy->CommitIds_0@.len() == 0 ==> search_after(
            Stage::WorkingCopy,
            found,
            seq![working_copy, nearest],
            exclude,
        ) == (Stage::Done, found),
{
    reveal_with_fuel(search_after, 4);
    if working_copy->CommitIds_0@.len() > 0 {
        lemma_collected(
            found,
            working_copy->CommitIds_0@[0]@,
            at_commit->Bookmarks_0@,
            at_commit->Bookmarks_1@,
            exclude,
            0,
        );
        let replies = seq![working_copy, at_commit, nearest];
        assert(replies.drop_first() =~= seq![at_commit, nearest]);
        assert(replies.drop_first().drop_first() =~= seq![nearest]);
        assert(replies.drop_first().drop_first().drop_first() =~= Seq::<Reply>::empty());
    } else {
        let replies = seq![working_copy, nearest];
        assert(replies.drop_first() =~= seq![nearest]);
        assert(replies.drop_first().drop_first() =~= Seq::<Reply>::empty());
    }
}

/// A bookmark that is found on the working-copy commit is at distance 0.
pub proof fn lemma_distance_on_working_copy(
    working_copy: Seq<u8>,
    reply: Reply,
    exclude: Seq<Glob>,
    name: Seq<char>,
)
    requires
        reply is Bookmarks,
        found_after(Stage::OnWorkingCopy(working_copy), Map::empty(), reply, exclude).dom().contains(
            name,
        ),
    ensures
        found_after(Stage::OnWorkingCopy(working_copy), Map::empty(), reply, exclude)[name] == 0,
{
    lemma_collected(
        Map::empty(),
        working_copy,
        reply->Bookmarks_0@,
        reply->Bookmarks_1@,
        exclude,
        0,
    );
}

/// A bookmark that is found on the direct parent of the working copy is
/// at distance 1: the range from the parent up to the working copy holds
/// the two of them.
pub proof fn lemma_distance_on_parent(
    parent: Seq<u8>,
    range: Reply,
    reply: Reply,
    exclude: Seq<Glob>,
    name: Seq<char>,
)
    requires
        range matches Reply::CommitIds(ids) && ids@.len() == 2,
        reply is Bookmarks,
        found_after(
            stage_after(Stage::Range(parent), Map::empty(), range, exclude),
            Map::empty(),
            reply,
            exclude,
        ).dom().contains(name),
    ensures
        stage_after(Stage::Range(parent), Map::empty(), range, exclude) == Stage::OnTarget(
            parent,
            1,
        ),
        found_after(Stage::OnTarget(parent, 1), Map::empty(), reply, exclude)[name] == 1,
{
    lemma_collected(Map::empty(), parent, reply->Bookmarks_0@, reply->Bookmarks_1@, exclude, 1);
}

/// A remote bookmark is not shown beside a local bookmark of its bare
/// name: once the local one is collected, the remote one is not taken.
pub proof fn lemma_local_shadows_remote(
    found: Map<Seq<char>, usize>,
    local: Seq<String>,
    exclude: Seq<Glob>,
    distance: usize,
    bookmark: RemoteBookmark,
    commit_id: Seq<u8>,
)
    requires
        local_found(local, exclude, local.len() as int, bookmark.name@),
    ensures
        !remote_taken(
            bookmark,
            commit_id,
            with_local(found, local, exclude, distance, local.len() as int).dom(),
            exclude,
        ),
{
}

/// How far the search has come: the number of the stage in the order in
/// which the stages follow one another.
pub open spec fn progress(stage: Stage) -> nat {
    match stage {
        Stage::WorkingCopy => 0,
        Stage::OnWorkingCopy(_) => 1,
        Stage::Nearest => 2,
        Stage::Range(_) => 3,
        Stage::OnTarget(_, _) => 4,
        Stage::Done => 5,
    }
}

/// The search never goes back, and every reply that answers its question
/// takes it on: it is over after five replies at the most.
pub proof fn lemma_search_ends(
    stage: Stage,
    found: Map<Seq<char>, usize>,
    reply: Reply,
    exclude: Seq<Glob>,
)
    ensures
        progress(stage) <= progress(stage_after(stage, found, reply, exclude)) <= 5,
        asked_at(stage, 0) matches Some(asked) && (asked is Resolve <==> reply is CommitIds)
            ==> progress(stage) < progress(stage_after(stage, found, reply, exclude)),
        progress(stage) == 5 <==> stage == Stage::Done,
{
}

} // verus!
