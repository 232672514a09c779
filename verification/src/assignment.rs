//! Assigning sections to crates: configured crates get their section, their
//! dependencies follow unless disabled, the lower priority number wins a conflict,
//! and a default section takes whatever is left.
use vstd::prelude::*;

use crate::config::{find_section, section_index, Config, CratePlacement, Section};
use crate::deps::{
    crate_index, crate_index_from, crate_named, crate_named_from, find_crate, find_crate_named, lemma_crate_index,
    lemma_crate_named_from, Crate, Dep, DepKind, DepTree, SectionAssignment,
};

verus! {

/// Errors when assigning sections.
#[derive(Debug, Clone)]
pub enum AssignmentError {
    CrateNotFound(String),
    SectionMissing { crate_name: String, section_name: String },
}

/// The assignment a crate ends up with when section `name` with `priority` is
/// offered to it: an unassigned crate takes it; an assigned crate takes it only for
/// a strictly lower priority number, and then no longer counts as user-assigned.
pub open spec fn offer(a: Option<SectionAssignment>, name: String, priority: u32, user: bool) -> Option<
    SectionAssignment,
> {
    match a {
        Some(x) => if x.priority > priority {
            Some(SectionAssignment { name, priority, user_assigned: false })
        } else {
            Some(x)
        },
        None => Some(SectionAssignment { name, priority, user_assigned: user }),
    }
}

/// Among `deps` is a normal (non-development) dependency on package `id`.
pub open spec fn normal_dep_to(deps: Seq<Dep>, id: Seq<char>) -> bool {
    exists|j: int| 0 <= j < deps.len() && (#[trigger] deps[j]).kind == DepKind::Normal && deps[j].id@ == id
}

/// The crate with package id `from` has a normal dependency on package `to`.
pub open spec fn dep_edge(crates: Seq<(String, Crate)>, from: Seq<char>, to: Seq<char>) -> bool {
    match crate_index(crates, from) {
        Some(i) => normal_dep_to(crates[i].1.dependencies@, to),
        None => false,
    }
}

/// `path` is a chain of package ids that starts at a normal dependency among `start`
/// and follows normal dependencies of crates in `crates`.
pub open spec fn is_dep_path(crates: Seq<(String, Crate)>, start: Seq<Dep>, path: Seq<Seq<char>>) -> bool {
    &&& path.len() > 0
    &&& normal_dep_to(start, path[0])
    &&& forall|k: int| 0 <= k < path.len() - 1 ==> dep_edge(crates, #[trigger] path[k], path[k + 1])
}

/// Package `id` is reached from `start` along normal dependencies.
pub open spec fn reaches(crates: Seq<(String, Crate)>, start: Seq<Dep>, id: Seq<char>) -> bool {
    exists|path: Seq<Seq<char>>| #[trigger] is_dep_path(crates, start, path) && path.last() == id
}

/// Crate `i` is the crate of a package reached from `start`.
pub open spec fn covered(crates: Seq<(String, Crate)>, start: Seq<Dep>, i: int) -> bool {
    crate_index(crates, crates[i].0@) == Some(i) && reaches(crates, start, crates[i].0@)
}

/// Some package reached from `start` has no crate.
pub open spec fn missing_reachable(crates: Seq<(String, Crate)>, start: Seq<Dep>) -> bool {
    exists|id: Seq<char>| #[trigger] reaches(crates, start, id) && crate_index(crates, id) is None
}

/// The crates after section `name` with `priority` is offered to every crate reached
/// from `start`.
pub open spec fn subtree_result(
    crates: Seq<(String, Crate)>,
    start: Seq<Dep>,
    name: String,
    priority: u32,
) -> Seq<(String, Crate)> {
    Seq::new(
        crates.len(),
        |i: int|
            (
                crates[i].0,
                Crate {
                    assignment: if covered(crates, start, i) {
                        offer(crates[i].1.assignment, name, priority, false)
                    } else {
                        crates[i].1.assignment
                    },
                    ..crates[i].1
                },
            ),
    )
}

/// Offers a section to one crate.
fn try_assign(crate_dep: &mut Crate, name: String, priority: u32, user_assigned: bool)
    ensures
        *final(crate_dep) == (Crate {
            assignment: offer(old(crate_dep).assignment, name, priority, user_assigned),
            ..*old(crate_dep)
        }),
{
    let replace = match &crate_dep.assignment {
        Some(a) => a.priority > priority,
        None => true,
    };
    if replace {
        let user = match &crate_dep.assignment {
            Some(_) => false,
            None => user_assigned,
        };
        crate_dep.assignment = Some(SectionAssignment { name, priority, user_assigned: user });
    }
}

/// How many entries of `s` are false.
pub open spec fn count_false(s: Seq<bool>) -> nat
    decreases s.len(),
{
    if s.len() == 0 {
        0
    } else {
        count_false(s.drop_last()) + if s.last() {
            0nat
        } else {
            1nat
        }
    }
}

proof fn lemma_count_false_set(s: Seq<bool>, k: int)
    requires
        0 <= k < s.len(),
        !s[k],
    ensures
        count_false(s.update(k, true)) + 1 == count_false(s),
    decreases s.len(),
{
    let t = s.update(k, true);
    if k == s.len() - 1 {
        assert(t.drop_last() =~= s.drop_last());
    } else {
        assert(t.drop_last() =~= s.drop_last().update(k, true));
        lemma_count_false_set(s.drop_last(), k);
    }
}

/// The dependency an entry of the walk's stack stands for: dependency `j` of the
/// start list, or dependency `j` of crate `src`.
pub open spec fn item_dep(start: Seq<Dep>, crates: Seq<(String, Crate)>, item: (bool, usize, usize)) -> Dep {
    if item.0 {
        start[item.2 as int]
    } else {
        crates[item.1 as int].1.dependencies@[item.2 as int]
    }
}

/// The first package without a crate that the walk from `stack` meets. The walk
/// takes the entry on top of the stack; it passes over a development dependency
/// and a crate it has visited, and otherwise visits the crate and puts that
/// crate's dependencies on the stack, in their order.
pub open spec fn walk_missing(
    crates: Seq<(String, Crate)>,
    start: Seq<Dep>,
    visited: Seq<bool>,
    stack: Seq<(bool, usize, usize)>,
) -> Option<Seq<char>>
    decreases count_false(visited), stack.len(),
    via walk_missing_decreases
{
    if stack.len() == 0 {
        None
    } else {
        let rest = stack.drop_last();
        let d = item_dep(start, crates, stack.last());
        if d.kind == DepKind::Dev {
            walk_missing(crates, start, visited, rest)
        } else {
            match crate_index(crates, d.id@) {
                None => Some(d.id@),
                Some(k) => if 0 <= k < visited.len() && !visited[k] {
                    walk_missing(
                        crates,
                        start,
                        visited.update(k, true),
                        rest + Seq::new(
                            crates[k].1.dependencies@.len(),
                            |t: int| (false, k as usize, t as usize),
                        ),
                    )
                } else {
                    walk_missing(crates, start, visited, rest)
                },
            }
        }
    }
}

#[via_fn]
proof fn walk_missing_decreases(
    crates: Seq<(String, Crate)>,
    start: Seq<Dep>,
    visited: Seq<bool>,
    stack: Seq<(bool, usize, usize)>,
) {
    if stack.len() > 0 {
        let d = item_dep(start, crates, stack.last());
        if let Some(k) = crate_index(crates, d.id@) {
            if 0 <= k < visited.len() && !visited[k] {
                lemma_count_false_set(visited, k);
            }
        }
    }
}

/// The package without a crate that a depth-first walk from `start` meets first,
/// where each list of dependencies is taken from its end, as from a stack.
pub open spec fn first_missing(crates: Seq<(String, Crate)>, start: Seq<Dep>) -> Option<Seq<char>> {
    walk_missing(
        crates,
        start,
        Seq::new(crates.len(), |i: int| false),
        Seq::new(start.len(), |t: int| (true, 0usize, t as usize)),
    )
}

/// The walk is done with dependency `d`: it is a development dependency, or its
/// crate has been visited.
spec fn edge_done(crates: Seq<(String, Crate)>, visited: Seq<bool>, d: Dep) -> bool {
    d.kind == DepKind::Dev || (crate_index(crates, d.id@) matches Some(k) && visited[k])
}

/// Every dependency of the start list, and of each visited crate, is on the stack
/// or done.
spec fn walk_complete(
    crates: Seq<(String, Crate)>,
    start: Seq<Dep>,
    visited: Seq<bool>,
    stack: Seq<(bool, usize, usize)>,
) -> bool {
    &&& forall|jj: int|
        0 <= jj < start.len() ==> stack.contains((true, 0usize, jj as usize)) || edge_done(
            crates,
            visited,
            #[trigger] start[jj],
        )
    &&& forall|i: int, jj: int|
        0 <= i < crates.len() && visited[i] && 0 <= jj < crates[i].1.dependencies@.len()
            ==> stack.contains((false, i as usize, jj as usize)) || edge_done(
            crates,
            visited,
            #[trigger] crates[i].1.dependencies@[jj],
        )
}

/// Dependency lists of crates fit in memory.
spec fn dep_lens_fit(crates: Seq<(String, Crate)>) -> bool {
    forall|i: int| 0 <= i < crates.len() ==> (#[trigger] crates[i]).1.dependencies@.len() <= usize::MAX
}

proof fn lemma_dep_lens_fit(crates: Seq<(String, Crate)>)
    ensures
        dep_lens_fit(crates),
{
    assert forall|i: int| 0 <= i < crates.len() implies (#[trigger] crates[i]).1.dependencies@.len()
        <= usize::MAX by {
        vstd::std_specs::vec::axiom_spec_len(&crates[i].1.dependencies);
    }
}

/// Popping an entry whose dependency is done keeps the walk complete.
proof fn lemma_pop_done(
    crates: Seq<(String, Crate)>,
    start: Seq<Dep>,
    visited: Seq<bool>,
    before: Seq<(bool, usize, usize)>,
    item: (bool, usize, usize),
)
    requires
        start.len() <= usize::MAX,
        crates.len() <= usize::MAX,
        dep_lens_fit(crates),
        before.len() > 0,
        before.last() == item,
        item.0 ==> item.2 < start.len(),
        !item.0 ==> item.1 < crates.len() && item.2 < crates[item.1 as int].1.dependencies@.len(),
        item.0 ==> item.1 == 0,
        edge_done(crates, visited, item_dep(start, crates, item)),
        walk_complete(crates, start, visited, before),
    ensures
        walk_complete(crates, start, visited, before.drop_last()),
{
    let after = before.drop_last();
    assert forall|x: (bool, usize, usize)| before.contains(x) && x != item implies after.contains(x) by {
        let t = choose|t: int| 0 <= t < before.len() && before[t] == x;
        assert(after[t] == x);
    }
    assert forall|jj: int|
        0 <= jj < start.len() implies after.contains((true, 0usize, jj as usize)) || edge_done(
        crates,
        visited,
        #[trigger] start[jj],
    ) by {
        if (true, 0usize, jj as usize) == item {
            assert(item_dep(start, crates, item) == start[jj]);
        }
    }
    assert forall|i: int, jj: int|
        0 <= i < crates.len() && visited[i] && 0 <= jj < crates[i].1.dependencies@.len()
            implies after.contains((false, i as usize, jj as usize)) || edge_done(
        crates,
        visited,
        #[trigger] crates[i].1.dependencies@[jj],
    ) by {
        assert(crates[i].1.dependencies@.len() <= usize::MAX);
        if (false, i as usize, jj as usize) == item {
            assert(item_dep(start, crates, item) == crates[i].1.dependencies@[jj]);
        }
    }
}

/// Stack entries name a dependency of the start list, or of a visited crate.
spec fn stack_wf(
    crates: Seq<(String, Crate)>,
    start: Seq<Dep>,
    visited: Seq<bool>,
    stack: Seq<(bool, usize, usize)>,
) -> bool {
    forall|t: int|
        0 <= t < stack.len() ==> {
            let item = #[trigger] stack[t];
            &&& item.0 ==> item.2 < start.len() && item.1 == 0
            &&& !item.0 ==> item.1 < crates.len() && visited[item.1 as int] && item.2
                < crates[item.1 as int].1.dependencies@.len()
        }
}

/// Visiting crate `k` for the popped entry, and pushing all of `k`'s dependencies,
/// keeps the walk complete.
proof fn lemma_visit(
    crates: Seq<(String, Crate)>,
    start: Seq<Dep>,
    vbefore: Seq<bool>,
    before: Seq<(bool, usize, usize)>,
    item: (bool, usize, usize),
    k: int,
    after: Seq<(bool, usize, usize)>,
)
    requires
        start.len() <= usize::MAX,
        crates.len() <= usize::MAX,
        dep_lens_fit(crates),
        vbefore.len() == crates.len(),
        0 <= k < crates.len(),
        before.len() > 0,
        before.last() == item,
        stack_wf(crates, start, vbefore, before),
        crate_index(crates, item_dep(start, crates, item).id@) == Some(k),
        item_dep(start, crates, item).kind == DepKind::Normal,
        after == before.drop_last() + Seq::new(
            crates[k].1.dependencies@.len(),
            |t: int| (false, k as usize, t as usize),
        ),
        walk_complete(crates, start, vbefore, before),
    ensures
        walk_complete(crates, start, vbefore.update(k, true), after),
        stack_wf(crates, start, vbefore.update(k, true), after),
{
    let visited = vbefore.update(k, true);
    let base = before.drop_last();
    assert forall|x: (bool, usize, usize)| before.contains(x) && x != item implies after.contains(x) by {
        let t = choose|t: int| 0 <= t < before.len() && before[t] == x;
        assert(after[t] == x);
    }
    assert forall|d: Dep| edge_done(crates, vbefore, d) implies edge_done(crates, visited, d) by {
        lemma_crate_index(crates, d.id@);
    }
    assert(edge_done(crates, visited, item_dep(start, crates, item)));
    assert forall|jj: int|
        0 <= jj < start.len() implies after.contains((true, 0usize, jj as usize)) || edge_done(
        crates,
        visited,
        #[trigger] start[jj],
    ) by {
        if (true, 0usize, jj as usize) == item {
            assert(item_dep(start, crates, item) == start[jj]);
        }
    }
    assert forall|i: int, jj: int|
        0 <= i < crates.len() && visited[i] && 0 <= jj < crates[i].1.dependencies@.len()
            implies after.contains((false, i as usize, jj as usize)) || edge_done(
        crates,
        visited,
        #[trigger] crates[i].1.dependencies@[jj],
    ) by {
        assert(crates[i].1.dependencies@.len() <= usize::MAX);
        if i == k {
            assert(after[base.len() + jj] == (false, k as usize, jj as usize));
        } else if (false, i as usize, jj as usize) == item {
            assert(item_dep(start, crates, item) == crates[i].1.dependencies@[jj]);
        }
    }
    assert forall|t: int| 0 <= t < after.len() implies {
        let it = #[trigger] after[t];
        &&& it.0 ==> it.2 < start.len() && it.1 == 0
        &&& !it.0 ==> it.1 < crates.len() && visited[it.1 as int] && it.2
            < crates[it.1 as int].1.dependencies@.len()
    } by {
        if t < base.len() {
            assert(after[t] == before[t]);
        }
    }
}

proof fn lemma_path_extend(
    crates: Seq<(String, Crate)>,
    start: Seq<Dep>,
    path: Seq<Seq<char>>,
    next: Seq<char>,
)
    requires
        is_dep_path(crates, start, path),
        dep_edge(crates, path.last(), next),
    ensures
        is_dep_path(crates, start, path.push(next)),
        path.push(next).last() == next,
{
    let p2 = path.push(next);
    assert(p2[0] == path[0]);
    assert forall|k: int| 0 <= k < p2.len() - 1 implies dep_edge(crates, #[trigger] p2[k], p2[k + 1]) by {
        if k < path.len() - 1 {
            assert(p2[k] == path[k] && p2[k + 1] == path[k + 1]);
        } else {
            assert(p2[k] == path.last());
        }
    }
}

/// Every package on a path from `start` has a visited crate, once no entry is
/// left on the stack and every dependency of the start list and of a visited crate
/// is done.
proof fn lemma_path_visited(
    crates: Seq<(String, Crate)>,
    start: Seq<Dep>,
    visited: Seq<bool>,
    path: Seq<Seq<char>>,
    m: int,
)
    requires
        visited.len() == crates.len(),
        is_dep_path(crates, start, path),
        0 <= m < path.len(),
        forall|j: int| 0 <= j < start.len() ==> edge_done(crates, visited, #[trigger] start[j]),
        forall|i: int, j: int|
            0 <= i < crates.len() && visited[i] && 0 <= j < crates[i].1.dependencies@.len()
                ==> edge_done(crates, visited, #[trigger] crates[i].1.dependencies@[j]),
    ensures
        crate_index(crates, path[m]) matches Some(k) && visited[k],
    decreases m,
{
    if m == 0 {
        let j = choose|j: int|
            0 <= j < start.len() && (#[trigger] start[j]).kind == DepKind::Normal && start[j].id@
                == path[0];
        assert(edge_done(crates, visited, start[j]));
    } else {
        lemma_path_visited(crates, start, visited, path, m - 1);
        assert(dep_edge(crates, path[m - 1], path[m]));
        let i = crate_index(crates, path[m - 1])->0;
        lemma_crate_index(crates, path[m - 1]);
        let deps = crates[i].1.dependencies@;
        let j = choose|j: int|
            0 <= j < deps.len() && (#[trigger] deps[j]).kind == DepKind::Normal && deps[j].id@
                == path[m];
        assert(edge_done(crates, visited, crates[i].1.dependencies@[j]));
    }
}

/// Offers section `section_name` with `priority` to every crate reached from
/// `start` along normal dependencies. Fails with a package reached from `start`
/// that has no crate, if there is one.
fn assign_subtree(section_name: &String, priority: u32, start: &Vec<Dep>, deps: &mut DepTree) -> (r:
    Result<(), AssignmentError>)
    ensures
        r is Ok <==> !missing_reachable(old(deps).crates@, start@),
        r is Ok ==> final(deps).crates@ == subtree_result(
            old(deps).crates@,
            start@,
            *section_name,
            priority,
        ),
        r matches Err(e) ==> e matches AssignmentError::CrateNotFound(id) && reaches(
            old(deps).crates@,
            start@,
            id@,
        ) && crate_index(old(deps).crates@, id@) is None && first_missing(old(deps).crates@, start@)
            == Some(id@),
        final(deps).root == old(deps).root,
        final(deps).display_unspecified == old(deps).display_unspecified,
        final(deps).no_dedupe == old(deps).no_dedupe,
        final(deps).inverted == old(deps).inverted,
{
    let ghost orig = deps.crates@;
    let n = deps.crates.len();
    let slen = start.len();
    proof {
        lemma_dep_lens_fit(orig);
    }
    let mut visited: Vec<bool> = Vec::new();
    while visited.len() < n
        invariant
            visited@.len() <= n,
            forall|i: int| 0 <= i < visited@.len() ==> !visited@[i],
        decreases n - visited.len(),
    {
        visited.push(false);
    }
    let mut stack: Vec<(bool, usize, usize)> = Vec::new();
    let mut j: usize = 0;
    while j < start.len()
        invariant
            j <= start@.len(),
            stack@ == Seq::new(j as nat, |t: int| (true, 0usize, t as usize)),
        decreases start.len() - j,
    {
        stack.push((true, 0, j));
        j = j + 1;
    }
    proof {
        assert forall|jj: int| 0 <= jj < start@.len() implies stack@.contains(
            (true, 0usize, jj as usize),
        ) || edge_done(orig, visited@, #[trigger] start@[jj]) by {
            assert(stack@[jj] == (true, 0usize, jj as usize));
        }
        assert(walk_complete(orig, start@, visited@, stack@));
        assert(visited@ =~= Seq::new(orig.len(), |i: int| false));
        assert(stack@ =~= Seq::new(start@.len(), |t: int| (true, 0usize, t as usize)));
        assert(deps.crates@ =~= Seq::new(
            n as nat,
            |i: int|
                (
                    orig[i].0,
                    Crate {
                        assignment: if visited@[i] {
                            offer(orig[i].1.assignment, *section_name, priority, false)
                        } else {
                            orig[i].1.assignment
                        },
                        ..orig[i].1
                    },
                ),
        ));
    }
    while stack.len() > 0
        invariant
            n == orig.len(),
            slen == start@.len(),
            dep_lens_fit(orig),
            visited@.len() == n,
            deps.root == old(deps).root,
            deps.display_unspecified == old(deps).display_unspecified,
            deps.no_dedupe == old(deps).no_dedupe,
            deps.inverted == old(deps).inverted,
            orig == old(deps).crates@,
            deps.crates@ == Seq::new(
                n as nat,
                |i: int|
                    (
                        orig[i].0,
                        Crate {
                            assignment: if visited@[i] {
                                offer(orig[i].1.assignment, *section_name, priority, false)
                            } else {
                                orig[i].1.assignment
                            },
                            ..orig[i].1
                        },
                    ),
            ),
            forall|i: int| 0 <= i < n && #[trigger] visited@[i] ==> covered(orig, start@, i),
            stack_wf(orig, start@, visited@, stack@),
            walk_complete(orig, start@, visited@, stack@),
            walk_missing(orig, start@, visited@, stack@) == first_missing(orig, start@),
        decreases count_false(visited@), stack@.len(),
    {
        let ghost before = stack@;
        let ghost vbefore = visited@;
        let item = stack.pop().unwrap();
        let (from_start, src, j) = item;
        proof {
            assert(before[before.len() - 1] == item);
            assert(stack_wf(orig, start@, visited@, stack@)) by {
                assert forall|t: int| 0 <= t < stack@.len() implies stack@[t] == before[t] by {}
            }
            assert(before[before.len() - 1] == before[before.len() - 1]);
            assert(stack@ =~= before.drop_last());
        }
        let d: &Dep = if from_start {
            &start[j]
        } else {
            &deps.crates[src].1.dependencies[j]
        };
        assert(*d == item_dep(start@, orig, item));
        let ghost dv = *d;
        proof {
            // a normal dependency on the stack is reached from `start`
            if dv.kind == DepKind::Normal {
                if from_start {
                    let p = seq![dv.id@];
                    assert(normal_dep_to(start@, p[0]));
                    assert(is_dep_path(orig, start@, p));
                    assert(p.last() == dv.id@);
                } else {
                    assert(covered(orig, start@, src as int));
                    let p = choose|p: Seq<Seq<char>>|
                        #[trigger] is_dep_path(orig, start@, p) && p.last() == orig[src as int].0@;
                    assert(normal_dep_to(orig[src as int].1.dependencies@, dv.id@)) by {
                        assert(orig[src as int].1.dependencies@[j as int] == dv);
                    }
                    lemma_path_extend(orig, start@, p, dv.id@);
                }
                assert(reaches(orig, start@, dv.id@));
            }
        }
        if d.kind == DepKind::Dev {
            proof {
                assert(edge_done(orig, visited@, dv));
                lemma_pop_done(orig, start@, visited@, before, item);
            }
            continue ;
        }
        match find_crate(&deps.crates, &d.id) {
            None => {
                proof {
                    assert(deps.crates@.len() == orig.len());
                    assert forall|i: int| 0 <= i < n implies deps.crates@[i].0 == (
                    #[trigger] orig[i]).0 by {}
                    lemma_crate_index(deps.crates@, dv.id@);
                    lemma_crate_index(orig, dv.id@);
                    assert(crate_index(orig, dv.id@) is None);
                }
                return Err(AssignmentError::CrateNotFound(d.id.clone()));
            },
            Some(k) => {
                proof {
                    lemma_crate_index(deps.crates@, dv.id@);
                    lemma_crate_index(orig, dv.id@);
                    assert forall|i: int| 0 <= i < n implies deps.crates@[i].0 == (
                    #[trigger] orig[i]).0 by {}
                    assert(crate_index(orig, dv.id@) == Some(k as int));
                }
                if !visited[k] {
                    proof {
                        lemma_count_false_set(visited@, k as int);
                        assert(orig[k as int].0@ == dv.id@);
                    }
                    visited.set(k, true);
                    try_assign(&mut deps.crates[k].1, section_name.clone(), priority, false);
                    assert(deps.crates@ =~= Seq::new(
                        n as nat,
                        |i: int|
                            (
                                orig[i].0,
                                Crate {
                                    assignment: if visited@[i] {
                                        offer(orig[i].1.assignment, *section_name, priority, false)
                                    } else {
                                        orig[i].1.assignment
                                    },
                                    ..orig[i].1
                                },
                            ),
                    ));
                    let ndeps = deps.crates[k].1.dependencies.len();
                    let ghost base = stack@;
                    let mut jj: usize = 0;
                    while jj < ndeps
                        invariant
                            jj <= ndeps,
                            ndeps == orig[k as int].1.dependencies@.len(),
                            k < n,
                            stack@ == base + Seq::new(jj as nat, |t: int| (false, k, t as usize)),
                        decreases ndeps - jj,
                    {
                        stack.push((false, k, jj));
                        jj = jj + 1;
                    }
                    proof {
                        assert(stack@ =~= before.drop_last() + Seq::new(
                            orig[k as int].1.dependencies@.len(),
                            |t: int| (false, k as int as usize, t as usize),
                        ));
                        assert(visited@ =~= vbefore.update(k as int, true));
                        lemma_visit(orig, start@, vbefore, before, item, k as int, stack@);
                    }
                } else {
                    proof {
                        assert(edge_done(orig, visited@, dv));
                        lemma_pop_done(orig, start@, visited@, before, item);
                    }
                }
            },
        }
    }
    proof {
        assert forall|jj: int| 0 <= jj < start@.len() implies edge_done(orig, visited@, #[trigger] start@[jj]) by {
            assert(walk_complete(orig, start@, visited@, stack@));
            assert(!stack@.contains((true, 0usize, jj as usize)));
        }
        assert forall|i: int, jj: int|
            0 <= i < orig.len() && visited@[i] && 0 <= jj < orig[i].1.dependencies@.len()
                implies edge_done(orig, visited@, #[trigger] orig[i].1.dependencies@[jj]) by {
            assert(walk_complete(orig, start@, visited@, stack@));
            assert(!stack@.contains((false, i as usize, jj as usize)));
        }
        assert forall|id: Seq<char>| #[trigger] reaches(orig, start@, id) implies crate_index(orig, id) matches Some(k) && visited@[k] by {
            let p = choose|p: Seq<Seq<char>>| #[trigger] is_dep_path(orig, start@, p) && p.last() == id;
            lemma_path_visited(orig, start@, visited@, p, p.len() - 1);
        }
        assert forall|i: int| 0 <= i < n implies visited@[i] == covered(orig, start@, i) by {
            if covered(orig, start@, i) {
                assert(reaches(orig, start@, orig[i].0@));
            }
        }
        assert(deps.crates@ =~= subtree_result(orig, start@, *section_name, priority));
    }
    Ok(())
}

/// Index of the first section, from `k` on, marked as the default.
pub open spec fn default_section_from(secs: Seq<(String, Section)>, k: int) -> Option<int>
    decreases secs.len() - k,
{
    if k < 0 || k >= secs.len() {
        None
    } else if secs[k].1.default {
        Some(k)
    } else {
        default_section_from(secs, k + 1)
    }
}

/// The crates once every crate without an assignment is given the default section,
/// if there is one.
pub open spec fn with_default(crates: Seq<(String, Crate)>, secs: Seq<(String, Section)>) -> Seq<
    (String, Crate),
> {
    match default_section_from(secs, 0) {
        None => crates,
        Some(d) => Seq::new(
            crates.len(),
            |i: int|
                (
                    crates[i].0,
                    Crate {
                        assignment: if crates[i].1.assignment is None {
                            Some(
                                SectionAssignment {
                                    name: secs[d].0,
                                    priority: secs[d].1.priority,
                                    user_assigned: false,
                                },
                            )
                        } else {
                            crates[i].1.assignment
                        },
                        ..crates[i].1
                    },
                ),
        ),
    }
}

pub proof fn lemma_default_section_from(secs: Seq<(String, Section)>, k: int)
    requires
        0 <= k <= secs.len(),
    ensures
        match default_section_from(secs, k) {
            Some(d) => k <= d < secs.len() && secs[d].1.default,
            None => forall|j: int| k <= j < secs.len() ==> !(#[trigger] secs[j]).1.default,
        },
    decreases secs.len() - k,
{
    if k < secs.len() {
        lemma_default_section_from(secs, k + 1);
    }
}

/// Gives every crate without an assignment the default section, if one is marked.
fn apply_default(config: &Config, deps: &mut DepTree)
    ensures
        final(deps).crates@ == with_default(old(deps).crates@, config.sections@),
        final(deps).root == old(deps).root,
        final(deps).display_unspecified == old(deps).display_unspecified,
        final(deps).no_dedupe == old(deps).no_dedupe,
        final(deps).inverted == old(deps).inverted,
{
    let ghost secs = config.sections@;
    let mut d: usize = 0;
    while d < config.sections.len() && !config.sections[d].1.default
        invariant
            d <= secs.len(),
            secs == config.sections@,
            default_section_from(secs, 0) == default_section_from(secs, d as int),
        decreases config.sections.len() - d,
    {
        d = d + 1;
    }
    if d == config.sections.len() {
        return;
    }
    let name = &config.sections[d].0;
    let priority = config.sections[d].1.priority;
    let ghost orig = deps.crates@;
    let n = deps.crates.len();
    let mut i: usize = 0;
    while i < n
        invariant
            n == orig.len(),
            i <= n,
            orig == old(deps).crates@,
            default_section_from(secs, 0) == Some(d as int),
            secs == config.sections@,
            d < secs.len(),
            *name == secs[d as int].0,
            priority == secs[d as int].1.priority,
            deps.root == old(deps).root,
            deps.display_unspecified == old(deps).display_unspecified,
            deps.no_dedupe == old(deps).no_dedupe,
            deps.inverted == old(deps).inverted,
            deps.crates@.len() == n,
            forall|j: int| 0 <= j < i ==> #[trigger] deps.crates@[j] == with_default(orig, secs)[j],
            forall|j: int| i <= j < n ==> #[trigger] deps.crates@[j] == orig[j],
        decreases n - i,
    {
        if deps.crates[i].1.assignment.is_none() {
            deps.crates[i].1.assignment = Some(
                SectionAssignment { name: name.clone(), priority, user_assigned: false },
            );
        }
        i = i + 1;
    }
    assert(deps.crates@ =~= with_default(orig, secs));
}

/// The outcome of assigning sections along the configured crates.
pub enum AssignRun {
    /// Every configured crate was placed; the crates before defaults are applied.
    Done(Seq<(String, Crate)>),
    /// No crate has this configured name.
    NameMissing(String),
    /// The configured crate names a section that does not exist.
    SectionMissing(String, String),
    /// A package reached from these dependencies, in these crates, has no crate;
    /// the error names the first that the walk meets.
    SubtreeMissing(Seq<(String, Crate)>, Seq<Dep>),
}

/// One configured crate: find the first crate with its name, take it out, offer
/// it its section (as a user assignment), offer the section to everything its
/// dependencies reach if requested, and put it back in its place.
pub open spec fn assign_step(
    secs: Seq<(String, Section)>,
    entry: (String, CratePlacement),
    st: Seq<(String, Crate)>,
) -> AssignRun {
    match crate_named(st, entry.0@) {
        None => AssignRun::NameMissing(entry.0),
        Some(k) => {
            let rest = st.remove(k);
            match section_index(secs, entry.1.section@) {
                None => AssignRun::SectionMissing(entry.0, entry.1.section),
                Some(s) => {
                    let priority = secs[s].1.priority;
                    let c = st[k].1;
                    let placed = (
                        st[k].0,
                        Crate {
                            assignment: offer(c.assignment, entry.1.section, priority, true),
                            ..c
                        },
                    );
                    if entry.1.include_dependencies {
                        if missing_reachable(rest, c.dependencies@) {
                            AssignRun::SubtreeMissing(rest, c.dependencies@)
                        } else {
                            AssignRun::Done(
                                subtree_result(
                                    rest,
                                    c.dependencies@,
                                    entry.1.section,
                                    priority,
                                ).insert(k, placed),
                            )
                        }
                    } else {
                        AssignRun::Done(rest.insert(k, placed))
                    }
                },
            }
        },
    }
}

/// The configured crates from index `i` on, one after the other.
pub open spec fn assign_run(
    secs: Seq<(String, Section)>,
    entries: Seq<(String, CratePlacement)>,
    st: Seq<(String, Crate)>,
    i: int,
) -> AssignRun
    decreases entries.len() - i,
{
    if i < 0 || i >= entries.len() {
        AssignRun::Done(st)
    } else {
        match assign_step(secs, entries[i], st) {
            AssignRun::Done(st2) => assign_run(secs, entries, st2, i + 1),
            other => other,
        }
    }
}

/// What a successful assignment makes of `before`: the crates are those the run
/// over `[crates]` leaves (all of them as they were, without `[crates]`), with the
/// default section given to those left without one.
pub open spec fn assign_outcome_ok(config: Config, before: DepTree, after: DepTree) -> bool {
    &&& after.root == before.root
    &&& after.display_unspecified == before.display_unspecified
    &&& after.no_dedupe == before.no_dedupe
    &&& after.inverted == before.inverted
    &&& match config.crates {
        None => after.crates@ == with_default(before.crates@, config.sections@),
        Some(crates) => assign_run(config.sections@, crates@, before.crates@, 0) matches AssignRun::Done(
            st,
        ) && after.crates@ == with_default(st, config.sections@),
    }
}

/// Whether `e` is the error that assigning `config` to crates `before` meets: a
/// crate of `[crates]` that is missing, a section that is missing, or a missing
/// crate that the assigned crates depend on.
pub open spec fn assign_outcome_err(config: Config, before: Seq<(String, Crate)>, e: AssignmentError) -> bool {
    match config.crates {
        None => false,
        Some(crates) => match assign_run(config.sections@, crates@, before, 0) {
            AssignRun::Done(_) => false,
            AssignRun::NameMissing(n) => e == AssignmentError::CrateNotFound(n),
            AssignRun::SectionMissing(c, s) => e == (AssignmentError::SectionMissing {
                crate_name: c,
                section_name: s,
            }),
            AssignRun::SubtreeMissing(st, start) => e matches AssignmentError::CrateNotFound(id)
                && first_missing(st, start) == Some(id@) && reaches(st, start, id@) && crate_index(
                st,
                id@,
            ) is None,
        },
    }
}

/// Assigns sections to the crates of `deps` as `config` says, then the default
/// section to every crate left without one.
pub fn assign(config: &Config, deps: &mut DepTree) -> (r: Result<(), AssignmentError>)
    ensures
        match r {
            Ok(_) => assign_outcome_ok(*config, *old(deps), *final(deps)),
            Err(e) => assign_outcome_err(*config, old(deps).crates@, e),
        },
        final(deps).root == old(deps).root,
        final(deps).display_unspecified == old(deps).display_unspecified,
        final(deps).no_dedupe == old(deps).no_dedupe,
        final(deps).inverted == old(deps).inverted,
{
    let crates = match &config.crates {
        Some(crates) => crates,
        None => {
            apply_default(config, deps);
            return Ok(());
        },
    };
    let ghost secs = config.sections@;
    let ghost entries = crates@;
    let mut i: usize = 0;
    while i < crates.len()
        invariant
            i <= entries.len(),
            entries == crates@,
            secs == config.sections@,
            config.crates == Some(*crates),
            assign_run(secs, entries, old(deps).crates@, 0) == assign_run(
                secs,
                entries,
                deps.crates@,
                i as int,
            ),
            deps.root == old(deps).root,
            deps.display_unspecified == old(deps).display_unspecified,
            deps.no_dedupe == old(deps).no_dedupe,
            deps.inverted == old(deps).inverted,
        decreases crates.len() - i,
    {
        let (name, crate_config) = &crates[i];
        let ghost st = deps.crates@;
        assert(entries[i as int] == (*name, *crate_config));
        let k = match find_crate_named(&deps.crates, name) {
            Some(k) => k,
            None => {
                return Err(AssignmentError::CrateNotFound(name.clone()));
            },
        };
        proof {
            lemma_crate_named_from(st, name@, 0);
        }
        let (dep_id, mut dep) = deps.crates.remove(k);
        let s = match find_section(&config.sections, &crate_config.section) {
            Some(s) => s,
            None => {
                return Err(
                    AssignmentError::SectionMissing {
                        crate_name: name.clone(),
                        section_name: crate_config.section.clone(),
                    },
                );
            },
        };
        let priority = config.sections[s].1.priority;
        try_assign(&mut dep, crate_config.section.clone(), priority, true);
        if crate_config.include_dependencies {
            assign_subtree(&crate_config.section, priority, &dep.dependencies, deps)?;
        }
        deps.crates.insert(k, (dep_id, dep));
        i = i + 1;
    }
    apply_default(config, deps);
    Ok(())
}

/// `new` holds the same crates as `old`, at the same places, with the same package
/// ids, names, versions and dependencies; every crate that had an assignment still
/// has one, with a priority number no higher than before.
pub open spec fn keeps_and_improves(old: Seq<(String, Crate)>, new: Seq<(String, Crate)>) -> bool {
    &&& new.len() == old.len()
    &&& forall|i: int|
        0 <= i < old.len() ==> {
            &&& (#[trigger] new[i]).0 == old[i].0
            &&& new[i].1.name == old[i].1.name
            &&& new[i].1.version == old[i].1.version
            &&& new[i].1.dependencies == old[i].1.dependencies
            &&& old[i].1.assignment matches Some(a) ==> (new[i].1.assignment matches Some(b)
                && b.priority <= a.priority)
        }
}

proof fn lemma_keeps_trans(a: Seq<(String, Crate)>, b: Seq<(String, Crate)>, c: Seq<(String, Crate)>)
    requires
        keeps_and_improves(a, b),
        keeps_and_improves(b, c),
    ensures
        keeps_and_improves(a, c),
{
    assert forall|i: int| 0 <= i < a.len() implies {
        &&& (#[trigger] c[i]).0 == a[i].0
        &&& c[i].1.name == a[i].1.name
        &&& c[i].1.version == a[i].1.version
        &&& c[i].1.dependencies == a[i].1.dependencies
        &&& a[i].1.assignment matches Some(x) ==> (c[i].1.assignment matches Some(y) && y.priority
            <= x.priority)
    } by {
        assert(b[i].0 == a[i].0);
        assert(c[i].0 == b[i].0);
    }
}

proof fn lemma_subtree_keeps(crates: Seq<(String, Crate)>, start: Seq<Dep>, name: String, priority: u32)
    ensures
        keeps_and_improves(crates, subtree_result(crates, start, name, priority)),
        forall|i: int|
            0 <= i < crates.len() && covered(crates, start, i) ==> ((#[trigger] subtree_result(
                crates,
                start,
                name,
                priority,
            )[i]).1.assignment matches Some(b) && b.priority <= priority),
{
}

/// A successful step keeps every crate in its place and never raises a priority
/// number.
proof fn lemma_step_keeps(
    secs: Seq<(String, Section)>,
    entry: (String, CratePlacement),
    st: Seq<(String, Crate)>,
)
    requires
        assign_step(secs, entry, st) is Done,
    ensures
        keeps_and_improves(st, assign_step(secs, entry, st)->Done_0),
{
    let k = crate_named(st, entry.0@)->0;
    lemma_crate_named_from(st, entry.0@, 0);
    let rest = st.remove(k);
    let s = section_index(secs, entry.1.section@)->0;
    let priority = secs[s].1.priority;
    let st2 = assign_step(secs, entry, st)->Done_0;
    let mid = if entry.1.include_dependencies {
        subtree_result(rest, st[k].1.dependencies@, entry.1.section, priority)
    } else {
        rest
    };
    lemma_subtree_keeps(rest, st[k].1.dependencies@, entry.1.section, priority);
    assert(keeps_and_improves(rest, mid));
    assert forall|i: int| 0 <= i < st.len() implies {
        &&& (#[trigger] st2[i]).0 == st[i].0
        &&& st2[i].1.name == st[i].1.name
        &&& st2[i].1.version == st[i].1.version
        &&& st2[i].1.dependencies == st[i].1.dependencies
        &&& st[i].1.assignment matches Some(x) ==> (st2[i].1.assignment matches Some(y) && y.priority
            <= x.priority)
    } by {
        if i < k {
            assert(st2[i] == mid[i]);
            assert(rest[i] == st[i]);
        } else if i > k {
            assert(st2[i] == mid[i - 1]);
            assert(rest[i - 1] == st[i]);
        }
    }
}

/// A successful run keeps every crate in its place and never raises a priority
/// number.
proof fn lemma_run_keeps(
    secs: Seq<(String, Section)>,
    entries: Seq<(String, CratePlacement)>,
    st: Seq<(String, Crate)>,
    i: int,
)
    requires
        assign_run(secs, entries, st, i) is Done,
    ensures
        keeps_and_improves(st, assign_run(secs, entries, st, i)->Done_0),
    decreases entries.len() - i,
{
    if 0 <= i < entries.len() {
        lemma_step_keeps(secs, entries[i], st);
        let st2 = assign_step(secs, entries[i], st)->Done_0;
        lemma_run_keeps(secs, entries, st2, i + 1);
        lemma_keeps_trans(st, st2, assign_run(secs, entries, st2, i + 1)->Done_0);
    }
}

/// Sequences with the same package ids and dependencies at each place.
spec fn same_graph(a: Seq<(String, Crate)>, b: Seq<(String, Crate)>) -> bool {
    &&& a.len() == b.len()
    &&& forall|i: int|
        0 <= i < a.len() ==> (#[trigger] a[i]).0 == b[i].0 && a[i].1.dependencies
            == b[i].1.dependencies
}

proof fn lemma_same_graph_index(a: Seq<(String, Crate)>, b: Seq<(String, Crate)>, id: Seq<char>, k: int)
    requires
        same_graph(a, b),
        0 <= k <= a.len(),
    ensures
        crate_index_from(a, id, k) == crate_index_from(b, id, k),
    decreases a.len() - k,
{
    if k < a.len() {
        assert(a[k].0 == b[k].0);
        lemma_same_graph_index(a, b, id, k + 1);
    }
}

proof fn lemma_same_graph_covered(a: Seq<(String, Crate)>, b: Seq<(String, Crate)>, start: Seq<Dep>)
    requires
        same_graph(a, b),
    ensures
        forall|i: int| 0 <= i < a.len() ==> covered(a, start, i) == covered(b, start, i),
{
    assert forall|id: Seq<char>| crate_index(a, id) == crate_index(b, id) by {
        lemma_same_graph_index(a, b, id, 0);
    }
    assert forall|x: Seq<char>, y: Seq<char>| dep_edge(a, x, y) == dep_edge(b, x, y) by {
        lemma_crate_index(a, x);
        if let Some(i) = crate_index(a, x) {
            assert(a[i].1.dependencies == b[i].1.dependencies);
        }
    }
    assert forall|p: Seq<Seq<char>>| is_dep_path(a, start, p) == is_dep_path(b, start, p) by {
        if is_dep_path(a, start, p) {
            assert forall|k: int| 0 <= k < p.len() - 1 implies dep_edge(b, #[trigger] p[k], p[k + 1]) by {
                assert(dep_edge(a, p[k], p[k + 1]));
            }
        }
        if is_dep_path(b, start, p) {
            assert forall|k: int| 0 <= k < p.len() - 1 implies dep_edge(a, #[trigger] p[k], p[k + 1]) by {
                assert(dep_edge(b, p[k], p[k + 1]));
            }
        }
    }
    assert forall|id: Seq<char>| reaches(a, start, id) == reaches(b, start, id) by {
        if reaches(a, start, id) {
            let p = choose|p: Seq<Seq<char>>| #[trigger] is_dep_path(a, start, p) && p.last() == id;
            assert(is_dep_path(b, start, p));
        }
        if reaches(b, start, id) {
            let p = choose|p: Seq<Seq<char>>| #[trigger] is_dep_path(b, start, p) && p.last() == id;
            assert(is_dep_path(a, start, p));
        }
    }
    assert forall|i: int| 0 <= i < a.len() implies covered(a, start, i) == covered(b, start, i) by {
        assert(a[i].0 == b[i].0);
    }
}

/// The place crate `i` of a tree has once crate `k` is taken out.
pub open spec fn index_without(i: int, k: int) -> int {
    if i < k {
        i
    } else {
        i - 1
    }
}

/// What configured crate `m` asks of the crates once the run ends: the crate
/// itself, and (where dependencies are included) every crate that its dependencies
/// reach without passing through it, hold an assignment whose priority number is at
/// most that of its section.
pub open spec fn entry_honoured(
    secs: Seq<(String, Section)>,
    entry: (String, CratePlacement),
    tree: Seq<(String, Crate)>,
    fin: Seq<(String, Crate)>,
) -> bool {
    crate_named(tree, entry.0@) matches Some(k) && section_index(secs, entry.1.section@) matches Some(s)
        && {
        let priority = secs[s].1.priority;
        &&& fin[k].1.assignment matches Some(b) && b.priority <= priority
        &&& entry.1.include_dependencies ==> forall|i: int|
            0 <= i < tree.len() && i != k && covered(
                tree.remove(k),
                tree[k].1.dependencies@,
                index_without(i, k),
            ) ==> ((#[trigger] fin[i]).1.assignment matches Some(b) && b.priority <= priority)
    }
}

proof fn lemma_same_names_named(a: Seq<(String, Crate)>, b: Seq<(String, Crate)>, name: Seq<char>, k: int)
    requires
        keeps_and_improves(a, b),
        0 <= k <= a.len(),
    ensures
        crate_named_from(a, name, k) == crate_named_from(b, name, k),
    decreases a.len() - k,
{
    if k < a.len() {
        assert(b[k].1.name == a[k].1.name);
        lemma_same_names_named(a, b, name, k + 1);
    }
}

proof fn lemma_honoured_transfer(
    secs: Seq<(String, Section)>,
    entry: (String, CratePlacement),
    a: Seq<(String, Crate)>,
    b: Seq<(String, Crate)>,
    fin1: Seq<(String, Crate)>,
    fin2: Seq<(String, Crate)>,
)
    requires
        keeps_and_improves(a, b),
        keeps_and_improves(fin1, fin2),
        fin1.len() == b.len(),
        entry_honoured(secs, entry, b, fin1),
    ensures
        entry_honoured(secs, entry, a, fin2),
{
    lemma_same_names_named(a, b, entry.0@, 0);
    let k = crate_named(b, entry.0@)->0;
    lemma_crate_named_from(b, entry.0@, 0);
    let ra = a.remove(k);
    let rb = b.remove(k);
    assert(same_graph(ra, rb)) by {
        assert forall|i: int| 0 <= i < ra.len() implies (#[trigger] ra[i]).0 == rb[i].0
            && ra[i].1.dependencies == rb[i].1.dependencies by {
            if i < k {
                assert(ra[i] == a[i] && rb[i] == b[i]);
            } else {
                assert(ra[i] == a[i + 1] && rb[i] == b[i + 1]);
            }
        }
    }
    lemma_same_graph_covered(ra, rb, a[k].1.dependencies@);
    assert(a[k].1.dependencies == b[k].1.dependencies);
    assert(fin1[k] == fin1[k]);
    if entry.1.include_dependencies {
        let priority = secs[section_index(secs, entry.1.section@)->0].1.priority;
        assert forall|i: int|
            0 <= i < a.len() && i != k && covered(ra, a[k].1.dependencies@, index_without(i, k))
                implies ((#[trigger] fin2[i]).1.assignment matches Some(bb) && bb.priority
            <= priority) by {
            assert(covered(rb, b[k].1.dependencies@, index_without(i, k)));
            assert(fin1[i].1.assignment matches Some(bb) && bb.priority <= priority);
        }
    }
}

proof fn lemma_run_honours(
    secs: Seq<(String, Section)>,
    entries: Seq<(String, CratePlacement)>,
    st: Seq<(String, Crate)>,
    i: int,
    m: int,
)
    requires
        0 <= i <= m < entries.len(),
        assign_run(secs, entries, st, i) is Done,
    ensures
        entry_honoured(secs, entries[m], st, assign_run(secs, entries, st, i)->Done_0),
    decreases m - i,
{
    let step = assign_step(secs, entries[i], st);
    let st2 = step->Done_0;
    let fin = assign_run(secs, entries, st2, i + 1)->Done_0;
    lemma_run_keeps(secs, entries, st2, i + 1);
    if i == m {
        let entry = entries[m];
        let k = crate_named(st, entry.0@)->0;
        lemma_crate_named_from(st, entry.0@, 0);
        let rest = st.remove(k);
        let s = section_index(secs, entry.1.section@)->0;
        let priority = secs[s].1.priority;
        lemma_subtree_keeps(rest, st[k].1.dependencies@, entry.1.section, priority);
        assert(entry_honoured(secs, entry, st, st2)) by {
            assert(st2[k].1.assignment matches Some(b) && b.priority <= priority);
            if entry.1.include_dependencies {
                let sub = subtree_result(rest, st[k].1.dependencies@, entry.1.section, priority);
                assert forall|j: int|
                    0 <= j < st.len() && j != k && covered(
                        rest,
                        st[k].1.dependencies@,
                        index_without(j, k),
                    ) implies ((#[trigger] st2[j]).1.assignment matches Some(b) && b.priority
                    <= priority) by {
                    assert(st2[j] == sub[index_without(j, k)]);
                }
            }
        }
        assert(keeps_and_improves(st, st)) by {
            assert forall|j: int| 0 <= j < st.len() implies (#[trigger] st[j]).0 == st[j].0 by {}
        }
        lemma_honoured_transfer(secs, entry, st, st, st2, fin);
    } else {
        lemma_step_keeps(secs, entries[i], st);
        lemma_run_honours(secs, entries, st2, i + 1, m);
        assert(keeps_and_improves(fin, fin)) by {
            assert forall|j: int| 0 <= j < fin.len() implies (#[trigger] fin[j]).0 == fin[j].0 by {}
        }
        lemma_honoured_transfer(secs, entries[m], st, st2, fin, fin);
    }
}

proof fn lemma_default_keeps(crates: Seq<(String, Crate)>, secs: Seq<(String, Section)>)
    ensures
        keeps_and_improves(crates, with_default(crates, secs)),
{
}

/// Assignment never moves a crate nor changes its package id, name, version or
/// dependencies, and never raises the priority number of a crate that was already
/// assigned.
pub proof fn lemma_assign_keeps_and_improves(config: Config, tree: Seq<(String, Crate)>)
    requires
        config.crates matches Some(entries) && assign_run(config.sections@, entries@, tree, 0) is Done,
    ensures
        keeps_and_improves(
            tree,
            with_default(
                assign_run(config.sections@, config.crates->0@, tree, 0)->Done_0,
                config.sections@,
            ),
        ),
{
    let entries = config.crates->0@;
    let fin = assign_run(config.sections@, entries, tree, 0)->Done_0;
    lemma_run_keeps(config.sections@, entries, tree, 0);
    lemma_default_keeps(fin, config.sections@);
    lemma_keeps_trans(tree, fin, with_default(fin, config.sections@));
}

/// Every configured crate is placed at its section's priority or better, and so is
/// every crate its dependencies reach (where dependencies are included): of two
/// sections that claim a crate, the lower priority number wins.
pub proof fn lemma_assign_honours_entries(config: Config, tree: Seq<(String, Crate)>, m: int)
    requires
        config.crates matches Some(entries) && assign_run(config.sections@, entries@, tree, 0) is Done,
        0 <= m < config.crates->0@.len(),
    ensures
        entry_honoured(
            config.sections@,
            config.crates->0@[m],
            tree,
            with_default(
                assign_run(config.sections@, config.crates->0@, tree, 0)->Done_0,
                config.sections@,
            ),
        ),
{
    let entries = config.crates->0@;
    let fin = assign_run(config.sections@, entries, tree, 0)->Done_0;
    lemma_run_honours(config.sections@, entries, tree, 0, m);
    lemma_run_keeps(config.sections@, entries, tree, 0);
    lemma_default_keeps(fin, config.sections@);
    assert(keeps_and_improves(tree, tree)) by {
        assert forall|j: int| 0 <= j < tree.len() implies (#[trigger] tree[j]).0 == tree[j].0 by {}
    }
    lemma_honoured_transfer(
        config.sections@,
        entries[m],
        tree,
        tree,
        fin,
        with_default(fin, config.sections@),
    );
}

/// The crates once the configured ones are placed, before the default section is
/// given: all of them where there is no `[crates]` table.
pub open spec fn placed_before_default(config: Config, tree: Seq<(String, Crate)>) -> Option<
    Seq<(String, Crate)>,
> {
    match config.crates {
        None => Some(tree),
        Some(entries) => match assign_run(config.sections@, entries@, tree, 0) {
            AssignRun::Done(st) => Some(st),
            _ => None,
        },
    }
}

/// With a default section, every crate ends up assigned, with or without a
/// `[crates]` table.
pub proof fn lemma_default_assigns_all(config: Config, tree: Seq<(String, Crate)>)
    requires
        placed_before_default(config, tree) is Some,
        exists|i: int| 0 <= i < config.sections@.len() && (#[trigger] config.sections@[i]).1.default,
    ensures
        with_default(placed_before_default(config, tree)->0, config.sections@).len() == tree.len(),
        forall|i: int|
            0 <= i < tree.len() ==> (#[trigger] with_default(
                placed_before_default(config, tree)->0,
                config.sections@,
            )[i]).1.assignment is Some,
{
    if let Some(entries) = config.crates {
        lemma_run_keeps(config.sections@, entries@, tree, 0);
    }
    lemma_default_section_from(config.sections@, 0);
}

} // verus!
