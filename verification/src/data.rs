use vstd::prelude::*;

use crate::text::compare_names;
use crate::text::lemma_name_lt_irreflexive;
use crate::text::lemma_name_lt_total;
use crate::text::lemma_name_lt_transitive;
use crate::text::name_lt;
use crate::text::NameOrder;

verus! {

/// A bookmark as it is shown: its name, and how many steps behind the
/// working-copy commit it is.
#[verifier::ext_equal]
pub struct Shown {
    pub name: Seq<char>,
    pub distance: usize,
}

/// The order in which bookmarks are shown: by distance, and by name where
/// the distance is the same.
pub open spec fn shown_before(a: Shown, b: Shown) -> bool {
    a.distance < b.distance || (a.distance == b.distance && name_lt(a.name, b.name))
}

/// Every bookmark of `order` stands before all that follow it.
pub open spec fn in_display_order(order: Seq<Shown>) -> bool {
    forall|i: int, j: int|
        0 <= i < j < order.len() ==> shown_before(#[trigger] order[i], #[trigger] order[j])
}

/// No name occurs twice in `order`.
pub open spec fn names_distinct(order: Seq<Shown>) -> bool {
    forall|i: int, j: int|
        0 <= i < j < order.len() ==> (#[trigger] order[i]).name != (#[trigger] order[j]).name
}

/// Whether `order` holds a bookmark of the name `name`.
pub open spec fn has_name(order: Seq<Shown>, name: Seq<char>) -> bool {
    exists|i: int| 0 <= i < order.len() && (#[trigger] order[i]).name == name
}

/// The place of a bookmark of the name `name` in `order`.
pub open spec fn place_of(order: Seq<Shown>, name: Seq<char>) -> int {
    choose|i: int| 0 <= i < order.len() && (#[trigger] order[i]).name == name
}

/// The distances of the bookmarks of `order`, by name.
pub open spec fn distances(order: Seq<Shown>) -> Map<Seq<char>, usize> {
    Map::new(
        |name: Seq<char>| has_name(order, name),
        |name: Seq<char>| order[place_of(order, name)].distance,
    )
}

/// The order of showing is transitive.
pub proof fn lemma_shown_before_transitive(a: Shown, b: Shown, c: Shown)
    requires
        shown_before(a, b),
        shown_before(b, c),
    ensures
        shown_before(a, c),
{
    if a.distance == b.distance && b.distance == c.distance {
        lemma_name_lt_transitive(a.name, b.name, c.name);
    }
}

/// Where no name occurs twice, each bookmark of `order` is the one that
/// `distances` holds under its name.
pub proof fn lemma_distances_at(order: Seq<Shown>, i: int)
    requires
        names_distinct(order),
        0 <= i < order.len(),
    ensures
        distances(order).dom().contains(order[i].name),
        distances(order)[order[i].name] == order[i].distance,
{
    let name = order[i].name;
    assert(has_name(order, name));
    let found = place_of(order, name);
    assert(found == i) by {
        if found < i {
            assert(order[found].name != order[i].name);
        } else if i < found {
            assert(order[i].name != order[found].name);
        }
    }
}

/// Taking one bookmark out keeps the order and takes its name out of the distances.
proof fn lemma_remove_shown(order: Seq<Shown>, at: int)
    requires
        in_display_order(order),
        names_distinct(order),
        0 <= at < order.len(),
    ensures
        in_display_order(order.remove(at)),
        names_distinct(order.remove(at)),
        distances(order.remove(at)) == distances(order).remove(order[at].name),
        !has_name(order.remove(at), order[at].name),
{
    let rest = order.remove(at);
    assert forall|i: int| 0 <= i < rest.len() implies #[trigger] rest[i] == order[if i < at {
        i
    } else {
        i + 1
    }] by {}
    assert forall|i: int, j: int| 0 <= i < j < rest.len() implies shown_before(
        #[trigger] rest[i],
        #[trigger] rest[j],
    ) && rest[i].name != rest[j].name by {
        let from_i = if i < at { i } else { i + 1 };
        let from_j = if j < at { j } else { j + 1 };
        assert(shown_before(order[from_i], order[from_j]));
        assert(order[from_i].name != order[from_j].name);
    }
    assert(!has_name(rest, order[at].name)) by {
        if has_name(rest, order[at].name) {
            let i = place_of(rest, order[at].name);
            let from_i = if i < at { i } else { i + 1 };
            if from_i < at {
                assert(order[from_i].name != order[at].name);
            } else {
                assert(order[at].name != order[from_i].name);
            }
        }
    }
    assert forall|name: Seq<char>| has_name(rest, name) <==> (has_name(order, name) && name
        != order[at].name) by {
        if has_name(rest, name) {
            let i = place_of(rest, name);
            let from_i = if i < at { i } else { i + 1 };
            assert(order[from_i].name == name);
        }
        if has_name(order, name) && name != order[at].name {
            let k = place_of(order, name);
            let to = if k < at { k } else { k - 1 };
            assert(rest[to].name == name);
        }
    }
    assert forall|name: Seq<char>| has_name(rest, name) implies #[trigger] distances(rest)[name]
        == distances(order)[name] by {
        let i = place_of(rest, name);
        let from_i = if i < at { i } else { i + 1 };
        lemma_distances_at(rest, i);
        lemma_distances_at(order, from_i);
    }
    assert(distances(rest) =~= distances(order).remove(order[at].name));
}

/// Putting a bookmark of a new name in at its place keeps the order and
/// adds it to the distances.
proof fn lemma_insert_shown(order: Seq<Shown>, at: int, shown: Shown)
    requires
        in_display_order(order),
        names_distinct(order),
        !has_name(order, shown.name),
        0 <= at <= order.len(),
        forall|i: int| 0 <= i < at ==> shown_before(#[trigger] order[i], shown),
        at < order.len() ==> shown_before(shown, order[at]),
    ensures
        in_display_order(order.insert(at, shown)),
        names_distinct(order.insert(at, shown)),
        distances(order.insert(at, shown)) == distances(order).insert(shown.name, shown.distance),
{
    let more = order.insert(at, shown);
    assert forall|i: int| 0 <= i < more.len() implies #[trigger] more[i] == (if i < at {
        order[i]
    } else if i == at {
        shown
    } else {
        order[i - 1]
    }) by {}
    assert forall|j: int| at <= j < order.len() implies shown_before(shown, #[trigger] order[j]) by {
        if at < j {
            assert(shown_before(order[at], order[j]));
            lemma_shown_before_transitive(shown, order[at], order[j]);
        }
    }
    assert forall|i: int| 0 <= i < order.len() implies (#[trigger] order[i]).name != shown.name by {
        if order[i].name == shown.name {
            assert(has_name(order, shown.name));
        }
    }
    assert forall|i: int, j: int| 0 <= i < j < more.len() implies shown_before(
        #[trigger] more[i],
        #[trigger] more[j],
    ) && more[i].name != more[j].name by {
        let from_i = if i < at { i } else { i - 1 };
        let from_j = if j < at { j } else { j - 1 };
        if i != at && j != at {
            assert(shown_before(order[from_i], order[from_j]));
            assert(order[from_i].name != order[from_j].name);
        } else if i == at {
            assert(shown_before(shown, order[from_j]));
            assert(order[from_j].name != shown.name);
        } else {
            assert(shown_before(order[from_i], shown));
            assert(order[from_i].name != shown.name);
        }
    }
    assert(more[at] == shown);
    assert forall|name: Seq<char>| has_name(more, name) <==> (has_name(order, name) || name
        == shown.name) by {
        if has_name(more, name) {
            let i = place_of(more, name);
            if i != at {
                let from_i = if i < at { i } else { i - 1 };
                assert(order[from_i].name == name);
            }
        }
        if has_name(order, name) {
            let k = place_of(order, name);
            let to = if k < at { k } else { k + 1 };
            assert(more[to].name == name);
        }
        if name == shown.name {
            assert(more[at].name == name);
        }
    }
    assert forall|name: Seq<char>| has_name(more, name) implies #[trigger] distances(more)[name]
        == distances(order).insert(shown.name, shown.distance)[name] by {
        let i = place_of(more, name);
        lemma_distances_at(more, i);
        if i != at {
            let from_i = if i < at { i } else { i - 1 };
            lemma_distances_at(order, from_i);
        }
    }
    assert(distances(more) =~= distances(order).insert(shown.name, shown.distance));
}

/// The display order is settled by what is shown: two orders of the same
/// bookmarks at the same distances are the same order.
pub proof fn lemma_display_order_is_unique(first: Seq<Shown>, second: Seq<Shown>)
    requires
        in_display_order(first),
        names_distinct(first),
        in_display_order(second),
        names_distinct(second),
        distances(first) == distances(second),
    ensures
        first == second,
    decreases first.len(),
{
    if first.len() == 0 || second.len() == 0 {
        if first.len() > 0 {
            lemma_distances_at(first, 0);
            assert(has_name(second, first[0].name));
        }
        if second.len() > 0 {
            lemma_distances_at(second, 0);
            assert(has_name(first, second[0].name));
        }
        assert(first =~= second);
    } else {
        lemma_distances_at(first, 0);
        lemma_distances_at(second, 0);
        let in_second = place_of(second, first[0].name);
        let in_first = place_of(first, second[0].name);
        assert(has_name(second, first[0].name));
        assert(has_name(first, second[0].name));
        lemma_distances_at(second, in_second);
        lemma_distances_at(first, in_first);
        assert(second[in_second] == first[0]);
        assert(first[in_first] == second[0]);
        if in_second > 0 {
            assert(shown_before(second[0], second[in_second]));
            assert(in_first > 0);
            assert(shown_before(first[0], first[in_first]));
            lemma_shown_before_transitive(first[0], second[0], first[0]);
            lemma_name_lt_irreflexive(first[0].name);
        }
        lemma_remove_shown(first, 0);
        lemma_remove_shown(second, 0);
        lemma_display_order_is_unique(first.remove(0), second.remove(0));
        assert(first =~= seq![first[0]] + first.remove(0));
        assert(second =~= seq![second[0]] + second.remove(0));
    }
}

/// A bookmark near the working-copy commit.
#[derive(Clone, Debug)]
pub struct Bookmark {
    /// The name that is shown; a remote bookmark carries its remote behind an `@`.
    pub name: String,
    /// The number of steps from the working-copy commit back to the
    /// commit that bears the bookmark.
    pub distance: usize,
}

impl View for Bookmark {
    type V = Shown;

    open spec fn view(&self) -> Shown {
        Shown { name: self.name@, distance: self.distance }
    }
}

/// The bookmarks `entries` as they are shown.
spec fn shown_of(entries: Seq<Bookmark>) -> Seq<Shown> {
    entries.map_values(|bookmark: Bookmark| bookmark@)
}

fn position(entries: &Vec<Bookmark>, name: &str) -> (found: Option<usize>)
    ensures
        found matches Some(at) ==> at < entries@.len() && shown_of(entries@)[at as int].name
            == name@,
        found is None ==> !has_name(shown_of(entries@), name@),
{
    let mut at: usize = 0;
    while at < entries.len()
        invariant
            at <= entries.len(),
            forall|i: int| 0 <= i < at ==> (#[trigger] shown_of(entries@)[i]).name != name@,
        decreases entries.len() - at,
    {
        if compare_names(entries[at].name.as_str(), name) == NameOrder::Same {
            return Some(at);
        }
        at += 1;
    }
    None
}

fn stands_before(bookmark: &Bookmark, name: &str, distance: usize) -> (before: bool)
    ensures
        before == shown_before(bookmark@, Shown { name: name@, distance }),
{
    if bookmark.distance != distance {
        bookmark.distance < distance
    } else {
        compare_names(bookmark.name.as_str(), name) == NameOrder::Before
    }
}

/// The bookmarks that were found, each name once, kept in the order in
/// which they are shown.
#[derive(Debug)]
pub struct BookmarkList {
    entries: Vec<Bookmark>,
}

impl View for BookmarkList {
    type V = Map<Seq<char>, usize>;

    /// The distance of each bookmark, by its name.
    open spec fn view(&self) -> Map<Seq<char>, usize> {
        distances(self.order())
    }
}

impl BookmarkList {
    /// The bookmarks in the order in which they are shown.
    pub closed spec fn order(&self) -> Seq<Shown> {
        shown_of(self.entries@)
    }

    /// The list is in display order and holds no name twice. Every list
    /// is: `new` makes such a list and `insert` keeps it so.
    pub open spec fn wf(&self) -> bool {
        in_display_order(self.order()) && names_distinct(self.order())
    }

    #[verifier::type_invariant]
    spec fn kept(self) -> bool {
        self.wf()
    }

    /// The list without any bookmark.
    pub fn new() -> (list: Self)
        ensures
            list.wf(),
            list.order() == Seq::<Shown>::empty(),
            list@ == Map::<Seq<char>, usize>::empty(),
    {
        let list = BookmarkList { entries: Vec::new() };
        assert(list.order() =~= Seq::<Shown>::empty());
        assert(list@ =~= Map::<Seq<char>, usize>::empty());
        list
    }

    /// The number of bookmarks.
    pub fn len(&self) -> (count: usize)
        ensures
            count == self.order().len(),
            self.wf(),
    {
        proof {
            use_type_invariant(self);
        }
        self.entries.len()
    }

    /// Whether there is no bookmark.
    pub fn is_empty(&self) -> (empty: bool)
        ensures
            empty == (self.order().len() == 0),
    {
        self.entries.len() == 0
    }

    /// The bookmark at place `index` of the display order.
    pub fn get(&self, index: usize) -> (bookmark: &Bookmark)
        requires
            index < self.order().len(),
        ensures
            bookmark@ == self.order()[index as int],
    {
        &self.entries[index]
    }

    /// Whether a bookmark of the name `name` is in the list.
    pub fn contains(&self, name: &str) -> (found: bool)
        ensures
            found == self@.dom().contains(name@),
    {
        position(&self.entries, name).is_some()
    }

    /// The distance of the bookmark of the name `name`, where there is one.
    pub fn distance_of(&self, name: &str) -> (distance: Option<usize>)
        ensures
            distance == if self@.dom().contains(name@) {
                Some(self@[name@])
            } else {
                None
            },
    {
        proof {
            use_type_invariant(self);
        }
        match position(&self.entries, name) {
            Some(at) => {
                proof {
                    lemma_distances_at(self.order(), at as int);
                }
                Some(self.entries[at].distance)
            },
            None => None,
        }
    }

    /// Puts the bookmark `name` at `distance` into the list. A bookmark of
    /// that name that is in the list already gets the new distance.
    pub fn insert(&mut self, name: String, distance: usize)
        ensures
            final(self).wf(),
            final(self)@ == old(self)@.insert(name@, distance),
    {
        proof {
            use_type_invariant(&*self);
        }
        let ghost before = self.order();
        let mut entries: Vec<Bookmark> = Vec::new();
        assert(shown_of(entries@) =~= Seq::<Shown>::empty());
        core::mem::swap(&mut entries, &mut self.entries);
        if let Some(at) = position(&entries, name.as_str()) {
            entries.remove(at);
            proof {
                lemma_remove_shown(before, at as int);
                assert(shown_of(entries@) =~= before.remove(at as int));
            }
        }
        let ghost rest = shown_of(entries@);
        let ghost shown = Shown { name: name@, distance };
        let mut at: usize = 0;
        while at < entries.len() && stands_before(&entries[at], name.as_str(), distance)
            invariant
                at <= entries.len(),
                shown_of(entries@) == rest,
                shown == (Shown { name: name@, distance }),
                forall|i: int| 0 <= i < at ==> shown_before(#[trigger] rest[i], shown),
            decreases entries.len() - at,
        {
            at += 1;
        }
        proof {
            if at < rest.len() {
                assert(rest[at as int].name != shown.name);
                lemma_name_lt_total(rest[at as int].name, shown.name);
            }
            lemma_insert_shown(rest, at as int, shown);
        }
        entries.insert(at, Bookmark { name, distance });
        proof {
            assert(shown_of(entries@) =~= rest.insert(at as int, shown));
            assert(distances(before).remove(name@).insert(name@, distance) =~= distances(
                before,
            ).insert(name@, distance));
        }
        self.entries = entries;
    }

    /// Of two bookmarks of the list the one that is shown first is nearer
    /// to the working copy, or as near and first by name. No two have the
    /// same name.
    pub proof fn lemma_display_order(&self, first: int, second: int)
        requires
            self.wf(),
            0 <= first < second < self.order().len(),
        ensures
            self.order()[first].distance <= self.order()[second].distance,
            self.order()[first].distance == self.order()[second].distance ==> name_lt(
                self.order()[first].name,
                self.order()[second].name,
            ),
            self.order()[first].name != self.order()[second].name,
    {
    }

    /// Two lists that hold the same bookmarks at the same distances show
    /// them in the same order.
    pub proof fn lemma_order_is_settled(&self, other: &BookmarkList)
        requires
            self.wf(),
            other.wf(),
            self@ == other@,
        ensures
            self.order() == other.order(),
    {
        lemma_display_order_is_unique(self.order(), other.order());
    }

    /// What is shown is what the list holds: each bookmark of the display
    /// order is in the list at its distance, and each name of the list is
    /// shown.
    pub proof fn lemma_order_shows_all(&self)
        requires
            self.wf(),
        ensures
            forall|i: int|
                0 <= i < self.order().len() ==> self@.dom().contains(
                    (#[trigger] self.order()[i]).name,
                ) && self@[self.order()[i].name] == self.order()[i].distance,
            forall|name: Seq<char>| #[trigger]
                self@.dom().contains(name) ==> has_name(self.order(), name),
    {
        assert forall|i: int| 0 <= i < self.order().len() implies self@.dom().contains(
            (#[trigger] self.order()[i]).name,
        ) && self@[self.order()[i].name] == self.order()[i].distance by {
            lemma_distances_at(self.order(), i);
        }
    }
}

/// The bookmarks near the working copy, once they were searched for.
#[derive(Debug)]
pub struct BookmarkData {
    pub bookmarks: Option<BookmarkList>,
}

/// What may be wrong with the working-copy commit, as far as it is known.
#[derive(Clone, Copy, Debug, PartialEq, Eq, Structural)]
pub struct CommitWarnings {
    pub hidden: Option<bool>,
    pub conflict: Option<bool>,
    pub divergent: Option<bool>,
    pub immutable: Option<bool>,
    pub empty: Option<bool>,
}

/// What changed in one file.
#[derive(Clone, Copy, Debug, PartialEq, Eq, Structural)]
pub enum FileChange {
    /// A file of text: the lines that it gained and lost.
    Text { added: usize, removed: usize },
    /// A binary file: no lines are counted.
    Binary,
}

/// Counters derived from the difference between a commit and its parent.
#[derive(Clone, Copy, Debug, PartialEq, Eq, Structural)]
pub struct CommitDiff {
    pub files_changed: usize,
    pub lines_added: usize,
    pub lines_removed: usize,
}

/// What is shown of the working-copy commit.
#[derive(Debug)]
pub struct CommitData {
    /// The description that is shown, once it was looked up.
    pub desc: Option<String>,
    pub warnings: CommitWarnings,
    pub diff: Option<CommitDiff>,
    /// Whether the description is that of the parent.
    pub ahead: bool,
    /// The commit's identifier and the length of its shortest unique prefix.
    pub commit_id: Option<(Vec<u8>, usize)>,
    /// The change's identifier and the length of its shortest unique prefix.
    pub change_id: Option<(Vec<u8>, usize)>,
}

/// Everything that the modules show, as far as it was looked up.
#[derive(Debug)]
pub struct JJData {
    pub bookmarks: BookmarkData,
    pub commit: CommitData,
}

/// What the engine has answered and no module has taken up yet. A fact is
/// `None` while the engine was not asked for it.
#[derive(Debug)]
pub struct Facts {
    /// The bookmarks that the search found.
    pub bookmarks: Option<BookmarkList>,
    /// The description of the working-copy commit, or that the workspace has no such commit.
    pub description: Option<Option<String>>,
    /// The descriptions of the parents of the working-copy commit.
    pub parents: Option<Vec<String>>,
}

/// What a module lacks before it can be shown.
#[derive(Clone, Copy, Debug, PartialEq, Eq, Structural)]
pub enum Need {
    /// Nothing: the module can be shown.
    Nothing,
    /// The bookmarks near the working copy.
    Bookmarks,
    /// The description of the working-copy commit.
    Description,
    /// The descriptions of the parents of the working-copy commit.
    Parents,
}

impl Default for BookmarkData {
    fn default() -> (data: Self)
        ensures
            data.bookmarks is None,
    {
        BookmarkData { bookmarks: None }
    }
}

impl CommitWarnings {
    /// The warnings of which nothing is known yet.
    pub open spec fn unknown() -> CommitWarnings {
        CommitWarnings {
            hidden: None,
            conflict: None,
            divergent: None,
            immutable: None,
            empty: None,
        }
    }
}

impl Default for CommitWarnings {
    fn default() -> (warnings: Self)
        ensures
            warnings == CommitWarnings::unknown(),
    {
        CommitWarnings {
            hidden: None,
            conflict: None,
            divergent: None,
            immutable: None,
            empty: None,
        }
    }
}

impl Default for CommitDiff {
    fn default() -> (diff: Self)
        ensures
            diff == (CommitDiff { files_changed: 0, lines_added: 0, lines_removed: 0 }),
    {
        CommitDiff { files_changed: 0, lines_added: 0, lines_removed: 0 }
    }
}

impl CommitData {
    /// Whether nothing was looked up of the commit yet.
    pub open spec fn is_blank(&self) -> bool {
        &&& self.desc is None
        &&& self.warnings == CommitWarnings::unknown()
        &&& self.diff is None
        &&& !self.ahead
        &&& self.commit_id is None
        &&& self.change_id is None
    }
}

impl Default for CommitData {
    fn default() -> (data: Self)
        ensures
            data.is_blank(),
    {
        CommitData {
            desc: None,
            warnings: CommitWarnings::default(),
            diff: None,
            ahead: false,
            commit_id: None,
            change_id: None,
        }
    }
}

impl Default for JJData {
    fn default() -> (data: Self)
        ensures
            data.bookmarks.bookmarks is None,
            data.commit.is_blank(),
    {
        JJData { bookmarks: BookmarkData::default(), commit: CommitData::default() }
    }
}

impl Default for Facts {
    fn default() -> (facts: Self)
        ensures
            facts.bookmarks is None,
            facts.description is None,
            facts.parents is None,
    {
        Facts { bookmarks: None, description: None, parents: None }
    }
}

/// The lines that the first `upto` files gained, binary files left out.
pub open spec fn lines_added(changes: Seq<FileChange>, upto: int) -> int
    decreases upto,
{
    if upto <= 0 {
        0
    } else {
        lines_added(changes, upto - 1) + match changes[upto - 1] {
            FileChange::Text { added, removed } => added as int,
            FileChange::Binary => 0,
        }
    }
}

/// The lines that the first `upto` files lost, binary files left out.
pub open spec fn lines_removed(changes: Seq<FileChange>, upto: int) -> int
    decreases upto,
{
    if upto <= 0 {
        0
    } else {
        lines_removed(changes, upto - 1) + match changes[upto - 1] {
            FileChange::Text { added, removed } => removed as int,
            FileChange::Binary => 0,
        }
    }
}

impl CommitDiff {
    pub open spec fn spec_is_empty(&self) -> bool {
        self.files_changed == 0 && self.lines_added == 0 && self.lines_removed == 0
    }

    /// True when no file and no line changed.
    #[verifier::when_used_as_spec(spec_is_empty)]
    pub fn is_empty(&self) -> (empty: bool)
        ensures
            empty == self.spec_is_empty(),
    {
        self.files_changed == 0 && self.lines_added == 0 && self.lines_removed == 0
    }

    /// The counters of a difference that changes the files `changes`: how
    /// many files there are, and how many lines they gained and lost in
    /// all. There are no counters where a total does not fit the machine's
    /// word.
    pub fn summarize(changes: &Vec<FileChange>) -> (diff: Option<CommitDiff>)
        ensures
            diff is Some <==> lines_added(changes@, changes@.len() as int) <= usize::MAX
                && lines_removed(changes@, changes@.len() as int) <= usize::MAX,
            diff matches Some(diff) ==> {
                &&& diff.files_changed == changes@.len()
                &&& diff.lines_added == lines_added(changes@, changes@.len() as int)
                &&& diff.lines_removed == lines_removed(changes@, changes@.len() as int)
            },
    {
        let mut added: usize = 0;
        let mut removed: usize = 0;
        let mut at: usize = 0;
        while at < changes.len()
            invariant
                at <= changes.len(),
                added == lines_added(changes@, at as int),
                removed == lines_removed(changes@, at as int),
            decreases changes.len() - at,
        {
            if let FileChange::Text { added: more, removed: fewer } = changes[at] {
                let sum = added.checked_add(more);
                let difference = removed.checked_add(fewer);
                match (sum, difference) {
                    (Some(sum), Some(difference)) => {
                        added = sum;
                        removed = difference;
                    },
                    _ => {
                        proof {
                            lemma_lines_grow(changes@, at + 1, changes@.len() as int);
                        }
                        return None;
                    },
                }
            }
            at += 1;
        }
        Some(
            CommitDiff { files_changed: changes.len(), lines_added: added, lines_removed: removed },
        )
    }
}

/// The totals never shrink as more files are counted.
proof fn lemma_lines_grow(changes: Seq<FileChange>, fewer: int, more: int)
    requires
        fewer <= more,
    ensures
        lines_added(changes, fewer) <= lines_added(changes, more),
        lines_removed(changes, fewer) <= lines_removed(changes, more),
        0 <= lines_added(changes, fewer),
        0 <= lines_removed(changes, fewer),
    decreases more - fewer, more,
{
    if fewer < more {
        lemma_lines_grow(changes, fewer, more - 1);
    } else if fewer > 0 {
        lemma_lines_grow(changes, fewer - 1, fewer - 1);
    }
}

} // verus!
