//! The group tree: the groups below a group, the connections they hold,
//! the root above a group, and the choices of the new-group dialog.
use vstd::prelude::*;
use crate::credentials::{PasswordSourceKind, SecretBackend};
use crate::order::{is_permutation, sorted_by, stable_by, stable_sort_indices};
use crate::text::{
    chars_of, concat_chars, replace_char_exec, replace_char_spec, str_to_lowercase, str_views,
    string_of, trim_exec, trim_spec, unicode_lowercase, views,
};

verus! {

/// What the tree logic reads of a stored group.
#[derive(Clone, Debug)]
pub struct GroupRecord {
    pub id: u128,
    pub parent_id: Option<u128>,
    pub name: String,
    /// The group synchronises by importing (read-only synced fields).
    pub import_sync: bool,
}

/// `c` is the identifier of a group whose parent is `p`.
pub open spec fn is_child(groups: Seq<GroupRecord>, p: u128, c: u128) -> bool {
    exists|i: int| 0 <= i < groups.len() && #[trigger] groups[i].id == c && groups[i].parent_id == Some(p)
}

/// `path` runs from `root` down the tree, each entry a child of the one
/// before.
pub open spec fn is_path(groups: Seq<GroupRecord>, root: u128, path: Seq<u128>) -> bool {
    &&& path.len() > 0
    &&& path[0] == root
    &&& forall|i: int| 0 <= i < path.len() - 1 ==> #[trigger] is_child(groups, path[i], path[i + 1])
}

/// `x` is `root` or a group below it.
pub open spec fn in_subtree(groups: Seq<GroupRecord>, root: u128, x: u128) -> bool {
    exists|path: Seq<u128>| #[trigger] is_path(groups, root, path) && path.last() == x
}

/// No identifier occurs twice.
pub open spec fn distinct(v: Seq<u128>) -> bool {
    forall|i: int, j: int| 0 <= i < j < v.len() ==> v[i] != v[j]
}

/// Whether `v` holds `x`.
fn contains_id(v: &Vec<u128>, x: u128) -> (r: bool)
    ensures
        r == v@.contains(x),
{
    let mut i: usize = 0;
    while i < v.len()
        invariant
            i <= v.len(),
            forall|j: int| 0 <= j < i ==> v@[j] != x,
        decreases v.len() - i,
    {
        if v[i] == x {
            assert(v@[i as int] == x);
            return true;
        }
        i = i + 1;
    }
    false
}

/// Every member of `s` is in the subtree.
pub open spec fn all_in_subtree(groups: Seq<GroupRecord>, root: u128, s: Seq<u128>) -> bool {
    forall|j: int| 0 <= j < s.len() ==> #[trigger] in_subtree(groups, root, s[j])
}

/// Members of `s` are `root` or identifiers of groups.
pub open spec fn known_ids(groups: Seq<GroupRecord>, root: u128, s: Seq<u128>) -> bool {
    forall|j: int| 0 <= j < s.len() ==> s[j] == root
        || exists|i: int| 0 <= i < groups.len() && #[trigger] groups[i].id == s[j]
}

/// The distinct identifiers of `groups` plus `root` number at most
/// `groups.len() + 1`.
proof fn lemma_distinct_known_bound(groups: Seq<GroupRecord>, root: u128, s: Seq<u128>)
    requires
        distinct(s),
        known_ids(groups, root, s),
    ensures
        s.len() <= groups.len() + 1,
{
    let ids = groups.map_values(|g: GroupRecord| g.id).push(root);
    let sset = s.to_set();
    let iset = ids.to_set();
    assert(sset.subset_of(iset)) by {
        assert forall|x: u128| sset.contains(x) implies iset.contains(x) by {
            let j = choose|j: int| 0 <= j < s.len() && s[j] == x;
            if x == root {
                assert(ids[ids.len() - 1] == root);
            } else {
                let i = choose|i: int| 0 <= i < groups.len() && #[trigger] groups[i].id == s[j];
                assert(ids[i] == groups[i].id);
            }
        }
    }
    s.unique_seq_to_set();
    ids.lemma_cardinality_of_set();
    vstd::set_lib::lemma_len_subset(sset, iset);
}

/// A member of the subtree one step below a member.
proof fn lemma_child_in_subtree(groups: Seq<GroupRecord>, root: u128, p: u128, c: u128)
    requires
        in_subtree(groups, root, p),
        is_child(groups, p, c),
    ensures
        in_subtree(groups, root, c),
{
    let path = choose|path: Seq<u128>| #[trigger] is_path(groups, root, path) && path.last() == p;
    let longer = path.push(c);
    assert forall|i: int| 0 <= i < longer.len() - 1 implies #[trigger] is_child(groups, longer[i], longer[i + 1]) by {
        if i < path.len() - 1 {
            assert(longer[i] == path[i] && longer[i + 1] == path[i + 1]);
        } else {
            assert(longer[i] == p && longer[i + 1] == c);
        }
    }
    assert(is_path(groups, root, longer));
}

/// A set that holds `root` and is closed under children holds the whole
/// subtree.
proof fn lemma_closed_covers(groups: Seq<GroupRecord>, root: u128, s: Seq<u128>, path: Seq<u128>)
    requires
        s.contains(root),
        forall|p: u128, c: u128| s.contains(p) && #[trigger] is_child(groups, p, c) ==> s.contains(c),
        is_path(groups, root, path),
    ensures
        s.contains(path.last()),
    decreases path.len(),
{
    if path.len() > 1 {
        let shorter = path.drop_last();
        assert forall|i: int| 0 <= i < shorter.len() - 1 implies #[trigger] is_child(groups, shorter[i], shorter[i + 1]) by {
            assert(shorter[i] == path[i] && shorter[i + 1] == path[i + 1]);
        }
        lemma_closed_covers(groups, root, s, shorter);
        let i: int = path.len() - 2;
        assert(is_child(groups, path[i], path[i + 1]));
        assert(path[i] == shorter.last());
    }
}

/// The identifiers of `root` and of every group below it, each once.
pub fn subtree_ids(groups: &[GroupRecord], root: u128) -> (r: Vec<u128>)
    ensures
        distinct(r@),
        forall|x: u128| r@.contains(x) <==> in_subtree(groups@, root, x),
{
    let ghost g = groups@;
    let mut visited: Vec<u128> = Vec::new();
    visited.push(root);
    let mut work: Vec<u128> = Vec::new();
    work.push(root);
    assert(is_path(g, root, seq![root]));
    proof {
        assert(visited@ =~= seq![root]);
        assert(visited@[0] == root);
        assert(work@[0] == root);
    }
    while work.len() > 0
        invariant
            g == groups@,
            distinct(visited@),
            visited@.contains(root),
            known_ids(g, root, visited@),
            all_in_subtree(g, root, visited@),
            forall|j: int| 0 <= j < work.len() ==> visited@.contains(#[trigger] work@[j]),
            // every visited id that is no longer waiting has all its children visited
            forall|p: u128, c: u128|
                visited@.contains(p) && !work@.contains(p) && #[trigger] is_child(g, p, c) ==> visited@.contains(c),
            work.len() <= visited.len(),
        decreases 2 * (groups.len() + 1 - visited.len()) + work.len(),
    {
        proof {
            lemma_distinct_known_bound(g, root, visited@);
        }
        let ghost work_before = work@;
        let current = work.pop().unwrap();
        let ghost work_after_pop = work@;
        assert(work_before == work_after_pop.push(current));
        let ghost visited_before = visited@;
        assert(forall|p: u128, c: u128|
            visited_before.contains(p) && !work_before.contains(p) && #[trigger] is_child(g, p, c) ==> visited_before.contains(c));
        let mut i: usize = 0;
        while i < groups.len()
            invariant
                g == groups@,
                i <= groups.len(),
                distinct(visited@),
                visited@.contains(root),
                visited@.contains(current),
                known_ids(g, root, visited@),
                all_in_subtree(g, root, visited@),
                in_subtree(g, root, current),
                visited_before.len() <= visited@.len(),
                visited@.len() - visited_before.len() == work@.len() - work_after_pop.len(),
                work_after_pop.len() <= work@.len(),
                work@.subrange(0, work_after_pop.len() as int) == work_after_pop,
                forall|j: int| 0 <= j < work.len() ==> visited@.contains(#[trigger] work@[j]),
                forall|x: u128| visited_before.contains(x) ==> visited@.contains(x),
                forall|x: u128| visited@.contains(x) && !visited_before.contains(x) ==> work@.contains(x),
                forall|j: int| 0 <= j < i ==> (groups@[j].parent_id == Some(current) ==> visited@.contains(#[trigger] groups@[j].id)),
                work_after_pop.len() + 1 <= visited_before.len(),
                forall|p: u128, c: u128|
                    visited_before.contains(p) && !work_before.contains(p) && #[trigger] is_child(g, p, c) ==> visited_before.contains(c),
                work_before == work_after_pop.push(current),
            decreases groups.len() - i,
        {
            let gi = &groups[i];
            if gi.parent_id == Some(current) {
                if !contains_id(&visited, gi.id) {
                    proof {
                        assert(is_child(g, current, gi.id)) by {
                            assert(g[i as int].id == gi.id);
                        }
                        lemma_child_in_subtree(g, root, current, gi.id);
                    }
                    let ghost vb = visited@;
                    let ghost wb = work@;
                    visited.push(gi.id);
                    work.push(gi.id);
                    proof {
                        assert forall|a: int, b: int| 0 <= a < b < visited@.len() implies visited@[a] != visited@[b] by {
                            if b == visited@.len() - 1 {
                                assert(vb.contains(visited@[a]));
                            }
                        }
                        assert forall|j: int| 0 <= j < visited@.len() implies visited@[j] == root
                            || exists|k: int| 0 <= k < g.len() && #[trigger] g[k].id == visited@[j] by {
                            if j == visited@.len() - 1 {
                                assert(g[i as int].id == visited@[j]);
                            } else {
                                assert(visited@[j] == vb[j]);
                            }
                        }
                        assert forall|j: int| 0 <= j < visited@.len() implies #[trigger] in_subtree(g, root, visited@[j]) by {
                            if j < vb.len() {
                                assert(visited@[j] == vb[j]);
                            }
                        }
                        assert(work@.subrange(0, work_after_pop.len() as int) =~= wb.subrange(0, work_after_pop.len() as int));
                        assert forall|x: u128| visited@.contains(x) && !visited_before.contains(x) implies work@.contains(x) by {
                            if x == gi.id {
                                assert(work@[work@.len() - 1] == x);
                            } else {
                                let j = choose|j: int| 0 <= j < visited@.len() && visited@[j] == x;
                                assert(vb[j] == x);
                                let k = choose|k: int| 0 <= k < wb.len() && wb[k] == x;
                                assert(work@[k] == x);
                            }
                        }
                        assert forall|x: u128| visited_before.contains(x) implies visited@.contains(x) by {
                            let j = choose|j: int| 0 <= j < vb.len() && vb[j] == x;
                            assert(visited@[j] == x);
                        }
                        assert forall|j: int| 0 <= j < work.len() implies visited@.contains(#[trigger] work@[j]) by {
                            if j == work.len() - 1 {
                                assert(visited@[visited@.len() - 1] == work@[j]);
                            } else {
                                assert(work@[j] == wb[j]);
                                let k = choose|k: int| 0 <= k < vb.len() && vb[k] == wb[j];
                                assert(visited@[k] == wb[j]);
                            }
                        }
                        assert(visited@.contains(root)) by {
                            let k = choose|k: int| 0 <= k < vb.len() && vb[k] == root;
                            assert(visited@[k] == root);
                        }
                        assert(visited@.contains(current)) by {
                            let k = choose|k: int| 0 <= k < vb.len() && vb[k] == current;
                            assert(visited@[k] == current);
                        }
                        assert forall|j: int| 0 <= j < i + 1 && groups@[j].parent_id == Some(current)
                            implies visited@.contains(#[trigger] groups@[j].id) by {
                            if j < i {
                                let k = choose|k: int| 0 <= k < vb.len() && vb[k] == groups@[j].id;
                                assert(visited@[k] == groups@[j].id);
                            } else if j == i {
                                assert(visited@[visited@.len() - 1] == groups@[j].id);
                            }
                        }
                    }
                }
            }
            i = i + 1;
        }
        proof {
            lemma_distinct_known_bound(g, root, visited@);
            assert forall|p: u128, c: u128|
                visited@.contains(p) && !work@.contains(p) && #[trigger] is_child(g, p, c) implies visited@.contains(c) by {
                let k = choose|k: int| 0 <= k < g.len() && #[trigger] g[k].id == c && g[k].parent_id == Some(p);
                if p == current {
                    assert(groups@[k].parent_id == Some(current));
                    assert(visited@.contains(groups@[k].id));
                } else if visited_before.contains(p) {
                    assert(!work_after_pop.contains(p)) by {
                        if work_after_pop.contains(p) {
                            let j = choose|j: int| 0 <= j < work_after_pop.len() && work_after_pop[j] == p;
                            assert(work@.subrange(0, work_after_pop.len() as int)[j] == p);
                            assert(work@[j] == p);
                        }
                    }
                    assert(!work_before.contains(p)) by {
                        if work_before.contains(p) {
                            let j = choose|j: int| 0 <= j < work_before.len() && work_before[j] == p;
                            if j < work_after_pop.len() {
                                assert(work_after_pop[j] == p);
                            }
                        }
                    }
                    assert(visited_before.contains(c));
                } else {
                    assert(work@.contains(p));
                }
            }
        }
    }
    proof {
        assert forall|x: u128| in_subtree(groups@, root, x) implies visited@.contains(x) by {
            let path = choose|path: Seq<u128>| #[trigger] is_path(groups@, root, path) && path.last() == x;
            lemma_closed_covers(groups@, root, visited@, path);
        }
        assert forall|x: u128| visited@.contains(x) implies in_subtree(groups@, root, x) by {
            let j = choose|j: int| 0 <= j < visited@.len() && visited@[j] == x;
        }
    }
    visited
}


/// Where a connection sits.
#[derive(Clone, Copy, Debug)]
pub struct Placement {
    pub connection_id: u128,
    pub group_id: Option<u128>,
}

/// The connections of `conns` whose group lies in `subtree`, in order.
pub open spec fn placed_in(conns: Seq<Placement>, subtree: Seq<u128>) -> Seq<u128>
    decreases conns.len(),
{
    if conns.len() == 0 {
        Seq::empty()
    } else {
        let rest = placed_in(conns.drop_last(), subtree);
        match conns.last().group_id {
            Some(g) => if subtree.contains(g) {
                rest.push(conns.last().connection_id)
            } else {
                rest
            },
            None => rest,
        }
    }
}

/// The connections in `root` or any group below it, in list order.
pub fn connections_in_subtree(groups: &[GroupRecord], conns: &[Placement], root: u128) -> (r: Vec<u128>)
    ensures
        exists|sub: Seq<u128>| (forall|x: u128| sub.contains(x) <==> in_subtree(groups@, root, x))
            && r@ == placed_in(conns@, sub),
{
    let sub = subtree_ids(groups, root);
    let mut out: Vec<u128> = Vec::new();
    let mut i: usize = 0;
    while i < conns.len()
        invariant
            i <= conns.len(),
            out@ == placed_in(conns@.take(i as int), sub@),
        decreases conns.len() - i,
    {
        assert(conns@.take(i + 1).drop_last() =~= conns@.take(i as int));
        match conns[i].group_id {
            Some(g) => {
                if contains_id(&sub, g) {
                    out.push(conns[i].connection_id);
                }
            },
            None => {},
        }
        i = i + 1;
    }
    assert(conns@.take(conns.len() as int) =~= conns@);
    out
}

/// The first group of `groups` with identifier `id`.
pub open spec fn find_group(groups: Seq<GroupRecord>, id: u128) -> Option<GroupRecord>
    decreases groups.len(),
{
    if groups.len() == 0 {
        None
    } else if groups[0].id == id {
        Some(groups[0])
    } else {
        find_group(groups.drop_first(), id)
    }
}

/// The index of the first group with identifier `id`.
pub fn lookup_group(groups: &[GroupRecord], id: u128) -> (r: Option<usize>)
    ensures
        r is None ==> find_group(groups@, id) is None,
        r matches Some(i) ==> i < groups.len() && find_group(groups@, id) == Some(groups@[i as int]),
{
    let mut i: usize = 0;
    assert(groups@.subrange(0, groups.len() as int) =~= groups@);
    while i < groups.len()
        invariant
            i <= groups.len(),
            find_group(groups@, id) == find_group(groups@.subrange(i as int, groups.len() as int), id),
        decreases groups.len() - i,
    {
        let ghost rest = groups@.subrange(i as int, groups.len() as int);
        assert(rest.drop_first() =~= groups@.subrange(i + 1, groups.len() as int));
        if groups[i].id == id {
            return Some(i);
        }
        i = i + 1;
    }
    None
}

/// Where following parents from a group ends.
#[derive(Clone, Copy, Debug, PartialEq, Eq, Structural)]
pub enum RootWalk {
    /// At a root group (one without parent): its identifier and whether
    /// it is import-synced.
    Root { id: u128, import_sync: bool },
    /// At an identifier that names no group.
    Missing,
    /// Not within the steps allowed (the parents form a cycle).
    Unfinished,
}

/// Follows parents from `current` for at most `fuel` groups.
pub open spec fn root_walk(groups: Seq<GroupRecord>, current: u128, fuel: nat) -> RootWalk
    decreases fuel,
{
    if fuel == 0 {
        RootWalk::Unfinished
    } else {
        match find_group(groups, current) {
            None => RootWalk::Missing,
            Some(g) => match g.parent_id {
                None => RootWalk::Root { id: g.id, import_sync: g.import_sync },
                Some(p) => root_walk(groups, p, (fuel - 1) as nat),
            },
        }
    }
}

/// The walk from `start` ends within one step per group: it reaches a root
/// or a missing group instead of going round a cycle of parents.
pub open spec fn walk_ends(groups: Seq<GroupRecord>, start: u128) -> bool {
    !(root_walk(groups, start, (groups.len() + 1) as nat) is Unfinished)
}

/// Follows parents from `start` for at most one step per group (and one
/// more).
pub fn walk_to_root(groups: &[GroupRecord], start: u128) -> (r: RootWalk)
    requires
        groups.len() < usize::MAX,
    ensures
        r == root_walk(groups@, start, (groups.len() + 1) as nat),
{
    let mut current = start;
    let mut fuel: usize = groups.len() + 1;
    while fuel > 0
        invariant
            fuel <= groups.len() + 1,
            root_walk(groups@, current, fuel as nat) == root_walk(groups@, start, (groups.len() + 1) as nat),
        decreases fuel,
    {
        match lookup_group(groups, current) {
            None => {
                return RootWalk::Missing;
            },
            Some(i) => match groups[i].parent_id {
                None => {
                    return RootWalk::Root { id: groups[i].id, import_sync: groups[i].import_sync };
                },
                Some(p) => {
                    current = p;
                    fuel = fuel - 1;
                },
            },
        }
    }
    RootWalk::Unfinished
}

/// Whether following parents from `start` ends (no cycle on the way).
pub fn root_walk_ends(groups: &[GroupRecord], start: u128) -> (r: bool)
    requires
        groups.len() < usize::MAX,
    ensures
        r == walk_ends(groups@, start),
{
    match walk_to_root(groups, start) {
        RootWalk::Unfinished => false,
        _ => true,
    }
}

/// The group that "sync now" acts on: the root above the selected group, or
/// the selected group itself when a group on the way is missing.
pub fn sync_root(groups: &[GroupRecord], group_id: u128) -> (r: u128)
    requires
        groups.len() < usize::MAX,
        walk_ends(groups@, group_id),
    ensures
        r == (match root_walk(groups@, group_id, (groups.len() + 1) as nat) {
            RootWalk::Root { id, .. } => id,
            _ => group_id,
        }),
{
    match walk_to_root(groups, group_id) {
        RootWalk::Root { id, .. } => id,
        _ => group_id,
    }
}

/// Whether a connection in `group_id` (if any) lies under an import-synced
/// root, which makes its synced fields read-only.
pub fn under_import_root(groups: &[GroupRecord], group_id: Option<u128>) -> (r: bool)
    requires
        groups.len() < usize::MAX,
        group_id matches Some(g) ==> walk_ends(groups@, g),
    ensures
        r == (match group_id {
            Some(g) => match root_walk(groups@, g, (groups.len() + 1) as nat) {
                RootWalk::Root { import_sync, .. } => import_sync,
                _ => false,
            },
            None => false,
        }),
{
    match group_id {
        Some(g) => match walk_to_root(groups, g) {
            RootWalk::Root { import_sync, .. } => import_sync,
            _ => false,
        },
        None => false,
    }
}

// ---------------------------------------------------------------------------
// The new-group dialog
// ---------------------------------------------------------------------------

/// A group with the full path shown for it.
#[derive(Clone, Debug)]
pub struct GroupPath {
    pub id: u128,
    pub path: String,
}

/// The parent choices of the new-group dialog: the root level first, then
/// every group by its path, sorted by lowercase path.
#[derive(Clone, Debug)]
pub struct ParentChoices {
    pub labels: Vec<String>,
    pub ids: Vec<Option<u128>>,
    /// The choice selected at first.
    pub selected: u32,
}

/// The lowercase paths of the groups.
pub open spec fn lower_paths(groups: Seq<GroupPath>) -> Seq<Seq<char>> {
    groups.map_values(|g: GroupPath| unicode_lowercase(g.path@))
}

/// The last index `k` (counting the root choice as 0) whose group is
/// `target`; 0 when none is.
pub open spec fn preselect_spec(ids: Seq<Option<u128>>, target: Option<u128>) -> int
    decreases ids.len(),
{
    if ids.len() <= 1 {
        0
    } else if target is Some && ids.last() == target {
        ids.len() - 1
    } else {
        preselect_spec(ids.drop_last(), target)
    }
}

/// The parent choices for a new group; `preselected` is the parent chosen
/// in advance, if any.
pub fn parent_choices(groups: &[GroupPath], root_label: &str, preselected: Option<u128>) -> (r: ParentChoices)
    requires
        groups.len() < u32::MAX,
    ensures
        exists|order: Seq<usize>| {
            &&& is_permutation(order, groups.len() as nat)
            &&& sorted_by(lower_paths(groups@), order)
            &&& stable_by(lower_paths(groups@), order)
            &&& str_views(r.labels@) == seq![root_label@] + order.map_values(|i: usize| groups@[i as int].path@)
            &&& r.ids@ == seq![None::<u128>] + order.map_values(|i: usize| Some(groups@[i as int].id))
        },
        r.selected as int == preselect_spec(r.ids@, preselected),
{
    let mut keys: Vec<Vec<char>> = Vec::new();
    let mut i: usize = 0;
    while i < groups.len()
        invariant
            i <= groups.len(),
            views(keys@) == lower_paths(groups@).take(i as int),
        decreases groups.len() - i,
    {
        let l = str_to_lowercase(groups[i].path.as_str());
        let ghost before = keys@;
        keys.push(chars_of(l.as_str()));
        assert(views(keys@) =~= views(before).push(unicode_lowercase(groups@[i as int].path@)));
        assert(lower_paths(groups@).take(i + 1) =~= lower_paths(groups@).take(i as int).push(unicode_lowercase(groups@[i as int].path@)));
        i = i + 1;
    }
    assert(lower_paths(groups@).take(groups.len() as int) =~= lower_paths(groups@));
    let order = stable_sort_indices(&keys);
    let mut labels: Vec<String> = Vec::new();
    let mut ids: Vec<Option<u128>> = Vec::new();
    labels.push(string_of(&chars_of(root_label)));
    ids.push(None);
    let mut selected: u32 = 0;
    let mut k: usize = 0;
    while k < order.len()
        invariant
            k <= order.len(),
            order.len() == groups.len(),
            groups.len() < u32::MAX,
            is_permutation(order@, groups.len() as nat),
            str_views(labels@) == seq![root_label@] + order@.take(k as int).map_values(|i: usize| groups@[i as int].path@),
            ids@ == seq![None::<u128>] + order@.take(k as int).map_values(|i: usize| Some(groups@[i as int].id)),
            selected as int == preselect_spec(ids@, preselected),
        decreases order.len() - k,
    {
        let gi = order[k];
        assert((order@[k as int] as int) < groups.len());
        let ghost lb = labels@;
        let ghost ib = ids@;
        labels.push(string_of(&chars_of(groups[gi].path.as_str())));
        ids.push(Some(groups[gi].id));
        assert(order@.take(k + 1) =~= order@.take(k as int).push(order@[k as int]));
        assert(str_views(labels@) =~= str_views(lb).push(groups@[gi as int].path@));
        assert(ids@.drop_last() =~= ib);
        if preselected == Some(groups[gi].id) {
            selected = (ids.len() - 1) as u32;
        }
        k = k + 1;
    }
    assert(order@.take(order.len() as int) =~= order@);
    ParentChoices { labels, ids, selected }
}

/// The group a connection created from the sidebar's context menu goes to:
/// a selected group itself, a selected connection's group, or none when no
/// item (with a readable identifier) is selected.
pub fn context_group(selected_id: Option<u128>, selected_is_group: bool, connection_group: Option<u128>) -> (r: Option<u128>)
    ensures
        r == (match selected_id {
            Some(id) => if selected_is_group { Some(id) } else { connection_group },
            None => None,
        }),
{
    match selected_id {
        Some(id) => if selected_is_group {
            Some(id)
        } else {
            connection_group
        },
        None => None,
    }
}

/// The parent chosen at dropdown index `selected`; the root level for an
/// index past the end.
pub fn parent_for_selection(ids: &[Option<u128>], selected: u32) -> (r: Option<u128>)
    ensures
        (selected as int) < ids.len() ==> r == ids@[selected as int],
        (selected as int) >= ids.len() ==> r is None,
{
    let i: usize = selected as usize;
    if i < ids.len() {
        ids[i]
    } else {
        None
    }
}

/// The password source at an index of the dialog's list: prompt, vault,
/// variable, inherit; anything else is no password.
pub open spec fn password_source_at_spec(index: u32) -> PasswordSourceKind {
    if index == 0 {
        PasswordSourceKind::Prompt
    } else if index == 1 {
        PasswordSourceKind::Vault
    } else if index == 2 {
        PasswordSourceKind::Variable
    } else if index == 3 {
        PasswordSourceKind::Inherit
    } else {
        PasswordSourceKind::NoPassword
    }
}

/// The password source chosen in the dialog's list.
pub fn password_source_at(index: u32) -> (r: PasswordSourceKind)
    ensures
        r == password_source_at_spec(index),
{
    if index == 0 {
        PasswordSourceKind::Prompt
    } else if index == 1 {
        PasswordSourceKind::Vault
    } else if index == 2 {
        PasswordSourceKind::Variable
    } else if index == 3 {
        PasswordSourceKind::Inherit
    } else {
        PasswordSourceKind::NoPassword
    }
}

/// The password value row shows only for the vault.
pub fn password_value_visible(index: u32) -> (r: bool)
    ensures
        r == (index == 1),
{
    index == 1
}

/// The vault key of a group's password: `group:` and the name with every
/// `/` written as `-`.
pub fn group_lookup_key(name: &str) -> (r: String)
    ensures
        r@ == "group:"@ + replace_char_spec(name@, '/', "-"@),
{
    let body = replace_char_exec(&chars_of(name), '/', &chars_of("-"));
    string_of(&concat_chars(&chars_of("group:"), &body))
}

/// Where a group's password is looked up when the user asks to load it.
#[derive(Clone, Debug)]
pub enum GroupPasswordLoad {
    /// The group name is still blank.
    NeedName,
    /// The password source is not the vault.
    SelectVault,
    /// KeePass is the backend but no database is configured.
    VaultNotConfigured,
    /// The KeePass entry of that name.
    KeePass { entry_name: String },
    /// The configured backend, under that key.
    Backend { lookup_key: String },
}

/// Decides where the new group's password is loaded from.
pub fn group_password_load(
    name: &str,
    source_index: u32,
    kdbx_enabled: bool,
    backend: SecretBackend,
    kdbx_path_set: bool,
) -> (r: GroupPasswordLoad)
    ensures
        match r {
            GroupPasswordLoad::NeedName => trim_spec(name@).len() == 0,
            GroupPasswordLoad::SelectVault => trim_spec(name@).len() > 0 && source_index != 1,
            GroupPasswordLoad::VaultNotConfigured => trim_spec(name@).len() > 0 && source_index == 1
                && kdbx_enabled && (backend == SecretBackend::KeePassXc || backend == SecretBackend::KdbxFile)
                && !kdbx_path_set,
            GroupPasswordLoad::KeePass { entry_name } => trim_spec(name@).len() > 0 && source_index == 1
                && kdbx_enabled && (backend == SecretBackend::KeePassXc || backend == SecretBackend::KdbxFile)
                && kdbx_path_set && entry_name@ == "RustConn/Groups/"@ + name@,
            GroupPasswordLoad::Backend { lookup_key } => trim_spec(name@).len() > 0 && source_index == 1
                && !(kdbx_enabled && (backend == SecretBackend::KeePassXc || backend == SecretBackend::KdbxFile))
                && lookup_key@ == "group:"@ + replace_char_spec(name@, '/', "-"@),
        },
{
    if trim_exec(&chars_of(name)).len() == 0 {
        return GroupPasswordLoad::NeedName;
    }
    if source_index != 1 {
        return GroupPasswordLoad::SelectVault;
    }
    let keepass = match backend {
        SecretBackend::KeePassXc | SecretBackend::KdbxFile => true,
        _ => false,
    };
    if kdbx_enabled && keepass {
        if !kdbx_path_set {
            GroupPasswordLoad::VaultNotConfigured
        } else {
            GroupPasswordLoad::KeePass {
                entry_name: string_of(&concat_chars(&chars_of("RustConn/Groups/"), &chars_of(name))),
            }
        }
    } else {
        GroupPasswordLoad::Backend { lookup_key: group_lookup_key(name) }
    }
}

/// What the new-group form holds when the user presses Create.
#[derive(Clone, Debug)]
pub struct GroupForm {
    pub name: String,
    pub username: String,
    pub password: String,
    pub password_source_index: u32,
    pub domain: String,
    pub description: String,
    pub icon: String,
}

/// The group to create from the form.
#[derive(Clone, Debug)]
pub struct GroupPlan {
    pub name: String,
    pub username: Option<String>,
    pub domain: Option<String>,
    pub description: Option<String>,
    /// The icon, trimmed; it still has to pass the icon check.
    pub icon: Option<String>,
    pub password_source: PasswordSourceKind,
    /// The created group gets the credentials, description, icon and
    /// password source above.
    pub update_group: bool,
    /// The password is stored in the vault.
    pub save_password: bool,
}

/// A text that is not blank, kept as typed.
pub open spec fn kept_if_filled(s: Seq<char>) -> Option<Seq<char>> {
    if trim_spec(s).len() > 0 {
        Some(s)
    } else {
        None
    }
}

/// The characters of an optional string.
pub open spec fn opt_chars(o: Option<String>) -> Option<Seq<char>> {
    crate::text::opt_string_view(o)
}

/// Whether a text is blank.
fn is_blank(s: &str) -> (r: bool)
    ensures
        r == (trim_spec(s@).len() == 0),
{
    trim_exec(&chars_of(s)).len() == 0
}

/// Why the new-group form is refused.
#[derive(Clone, Copy, Debug, PartialEq, Eq, Structural)]
pub enum GroupFormError {
    /// The name is blank.
    BlankName,
    /// The icon is not blank and fails the icon check.
    InvalidIcon,
}

/// Turns the new-group form into the group to create. A blank name is
/// refused, then an icon that is not blank and fails the icon check
/// (`icon_valid` is that check's verdict on the trimmed icon; it is not
/// read for a blank icon). Credentials, description and icon count when not
/// blank; the password counts only for the vault.
pub fn plan_new_group(form: &GroupForm, icon_valid: bool) -> (r: Result<GroupPlan, GroupFormError>)
    ensures
        r == Err::<GroupPlan, GroupFormError>(GroupFormError::BlankName) <==> trim_spec(form.name@).len() == 0,
        r == Err::<GroupPlan, GroupFormError>(GroupFormError::InvalidIcon) <==> (trim_spec(form.name@).len() > 0
            && trim_spec(form.icon@).len() > 0 && !icon_valid),
        r is Ok <==> (trim_spec(form.name@).len() > 0 && (trim_spec(form.icon@).len() == 0 || icon_valid)),
        r matches Ok(p) ==> {
            &&& p.name@ == form.name@
            &&& opt_chars(p.username) == kept_if_filled(form.username@)
            &&& opt_chars(p.domain) == kept_if_filled(form.domain@)
            &&& opt_chars(p.description) == kept_if_filled(form.description@)
            &&& opt_chars(p.icon) == (if trim_spec(form.icon@).len() > 0 {
                Some(trim_spec(form.icon@))
            } else {
                None
            })
            &&& p.password_source == password_source_at_spec(form.password_source_index)
            &&& p.save_password == (form.password@.len() > 0 && form.password_source_index == 1)
            &&& p.update_group == (p.username is Some || p.domain is Some || p.save_password
                || p.description is Some || p.icon is Some
                || p.password_source != PasswordSourceKind::NoPassword)
        },
{
    if is_blank(form.name.as_str()) {
        return Err(GroupFormError::BlankName);
    }
    let icon_t = trim_exec(&chars_of(form.icon.as_str()));
    if icon_t.len() > 0 && !icon_valid {
        return Err(GroupFormError::InvalidIcon);
    }
    let username = if is_blank(form.username.as_str()) {
        None
    } else {
        Some(string_of(&chars_of(form.username.as_str())))
    };
    let domain = if is_blank(form.domain.as_str()) {
        None
    } else {
        Some(string_of(&chars_of(form.domain.as_str())))
    };
    let description = if is_blank(form.description.as_str()) {
        None
    } else {
        Some(string_of(&chars_of(form.description.as_str())))
    };
    let icon = if icon_t.len() > 0 {
        Some(string_of(&icon_t))
    } else {
        None
    };
    let source = password_source_at(form.password_source_index);
    let save_password = chars_of(form.password.as_str()).len() > 0 && form.password_source_index == 1;
    let update_group = username.is_some() || domain.is_some() || save_password || description.is_some()
        || icon.is_some() || source != PasswordSourceKind::NoPassword;
    Ok(GroupPlan {
        name: string_of(&chars_of(form.name.as_str())),
        username,
        domain,
        description,
        icon,
        password_source: source,
        update_group,
        save_password,
    })
}

/// What renaming a connection or group leads to.
#[derive(Clone, Debug)]
pub enum RenameOutcome {
    EmptyName,
    /// The name did not change; the dialog just closes.
    Unchanged,
    /// Another group already has the name.
    NameTaken,
    /// Rename to this (trimmed) name.
    Rename(String),
}

/// Decides a rename: the entered name is trimmed; blank is refused, the same
/// name closes the dialog, a group name already in use is refused.
/// `group_name_taken` says whether a group of the trimmed name exists.
pub fn rename_outcome(entered: &str, current: &str, is_group: bool, group_name_taken: bool) -> (r: RenameOutcome)
    ensures
        match r {
            RenameOutcome::EmptyName => trim_spec(entered@).len() == 0,
            RenameOutcome::Unchanged => trim_spec(entered@).len() > 0 && trim_spec(entered@) == current@,
            RenameOutcome::NameTaken => trim_spec(entered@).len() > 0 && trim_spec(entered@) != current@
                && is_group && group_name_taken,
            RenameOutcome::Rename(n) => trim_spec(entered@).len() > 0 && trim_spec(entered@) != current@
                && !(is_group && group_name_taken) && n@ == trim_spec(entered@),
        },
{
    let t = trim_exec(&chars_of(entered));
    if t.len() == 0 {
        return RenameOutcome::EmptyName;
    }
    if crate::text::seq_eq(&t, &chars_of(current)) {
        return RenameOutcome::Unchanged;
    }
    if is_group && group_name_taken {
        return RenameOutcome::NameTaken;
    }
    RenameOutcome::Rename(string_of(&t))
}

// ---------------------------------------------------------------------------
// Import duplicates
// ---------------------------------------------------------------------------

/// The lowercase names of the imported connections that already exist.
pub open spec fn duplicate_name(names: Seq<Seq<char>>, exists_flags: Seq<bool>, lower: Seq<char>) -> bool {
    exists|i: int| 0 <= i < names.len() && i < exists_flags.len() && exists_flags[i]
        && #[trigger] unicode_lowercase(names[i]) == lower
}

/// Which imported connections are duplicates, by lowercase name.
#[derive(Clone, Debug)]
pub struct ImportDuplicates {
    /// For each imported connection, whether its lowercase name is that of
    /// one that already exists.
    pub is_duplicate: Vec<bool>,
    /// How many are.
    pub count: usize,
    /// The indices kept when duplicates are skipped, in order.
    pub kept: Vec<usize>,
}

/// The indices of `flags` that are false, in order.
pub open spec fn false_indices(flags: Seq<bool>) -> Seq<int>
    decreases flags.len(),
{
    if flags.len() == 0 {
        Seq::empty()
    } else if flags.last() {
        false_indices(flags.drop_last())
    } else {
        false_indices(flags.drop_last()).push(flags.len() - 1)
    }
}

/// How many of `flags` are true.
pub open spec fn count_true(flags: Seq<bool>) -> nat
    decreases flags.len(),
{
    if flags.len() == 0 {
        0
    } else {
        count_true(flags.drop_last()) + if flags.last() { 1nat } else { 0nat }
    }
}

/// Finds the duplicates among imported connections. `exists[i]` says
/// whether a connection named like `names[i]` already exists.
pub fn import_duplicates(names: &[String], exists: &[bool]) -> (r: ImportDuplicates)
    requires
        names.len() == exists.len(),
    ensures
        r.is_duplicate.len() == names.len(),
        forall|i: int| 0 <= i < names.len() ==> #[trigger] r.is_duplicate@[i] == duplicate_name(
            str_views(names@),
            exists@,
            unicode_lowercase(names@[i]@),
        ),
        r.count == count_true(r.is_duplicate@),
        r.kept@.map_values(|i: usize| i as int) == false_indices(r.is_duplicate@),
{
    let ghost nv = str_views(names@);
    let mut lowers: Vec<Vec<char>> = Vec::new();
    let mut i: usize = 0;
    while i < names.len()
        invariant
            i <= names.len(),
            nv == str_views(names@),
            lowers.len() == i,
            forall|j: int| 0 <= j < i ==> (#[trigger] lowers@[j])@ == unicode_lowercase(nv[j]),
        decreases names.len() - i,
    {
        let l = str_to_lowercase(names[i].as_str());
        lowers.push(chars_of(l.as_str()));
        i = i + 1;
    }
    let mut flags: Vec<bool> = Vec::new();
    let mut count: usize = 0;
    let mut kept: Vec<usize> = Vec::new();
    let mut k: usize = 0;
    while k < names.len()
        invariant
            k <= names.len(),
            names.len() == exists.len(),
            nv == str_views(names@),
            lowers.len() == names.len(),
            forall|j: int| 0 <= j < names.len() ==> (#[trigger] lowers@[j])@ == unicode_lowercase(nv[j]),
            flags.len() == k,
            forall|j: int| 0 <= j < k ==> #[trigger] flags@[j] == duplicate_name(nv, exists@, unicode_lowercase(nv[j])),
            count == count_true(flags@),
            count <= k,
            kept@.map_values(|x: usize| x as int) == false_indices(flags@),
        decreases names.len() - k,
    {
        let mut dup = false;
        let mut m: usize = 0;
        while m < names.len()
            invariant
                m <= names.len(),
                k < names.len(),
                names.len() == exists.len(),
                lowers.len() == names.len(),
                forall|j: int| 0 <= j < names.len() ==> (#[trigger] lowers@[j])@ == unicode_lowercase(nv[j]),
                dup == exists|j: int| 0 <= j < m && exists@[j] && #[trigger] unicode_lowercase(nv[j]) == unicode_lowercase(nv[k as int]),
            decreases names.len() - m,
        {
            if exists[m] && crate::text::seq_eq(&lowers[m], &lowers[k]) {
                assert(lowers@[m as int]@ == unicode_lowercase(nv[m as int]));
                dup = true;
            }
            m = m + 1;
        }
        assert(dup == duplicate_name(nv, exists@, unicode_lowercase(nv[k as int])));
        let ghost fb = flags@;
        let ghost kb = kept@;
        flags.push(dup);
        assert(flags@.drop_last() =~= fb);
        if dup {
            count = count + 1;
        } else {
            kept.push(k);
            assert(kept@.map_values(|x: usize| x as int) =~= kb.map_values(|x: usize| x as int).push(k as int));
        }
        k = k + 1;
    }
    ImportDuplicates { is_duplicate: flags, count, kept }
}
} // verus!
