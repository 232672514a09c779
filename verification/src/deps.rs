//! The dependency tree of a project: crates by package id, the edges between them,
//! and the section each crate is assigned to.
use vstd::prelude::*;
use vstd::string::*;

use crate::text::{chars_of, dec_text, push_chars, push_decimal, push_str, string_from_chars};

verus! {

/// The section a crate is placed in, with the priority it was placed with.
#[derive(Clone, Debug)]
pub struct SectionAssignment {
    pub name: String,
    pub priority: u32,
    pub user_assigned: bool,
}

/// Whether a dependency ends up in the binary (`Normal`) or only serves the build
/// (`Dev`: development and build dependencies, and procedural macros).
#[derive(Clone, Copy, Debug, PartialEq, Eq, PartialOrd, Ord, Default, Structural)]
pub enum DepKind {
    #[default]
    Normal,
    Dev,
}

/// An edge of the dependency tree: the package id depended on, and how.
#[derive(Clone, Debug)]
pub struct Dep {
    pub id: String,
    pub kind: DepKind,
}

/// The version of a crate.
#[derive(Clone, Copy, Debug, PartialEq, Eq, Structural)]
pub struct CrateVersion {
    pub major: u64,
    pub minor: u64,
    pub patch: u64,
}

/// A crate of the dependency tree.
#[derive(Clone, Debug)]
pub struct Crate {
    pub name: String,
    pub version: CrateVersion,
    pub dependencies: Vec<Dep>,
    pub assignment: Option<SectionAssignment>,
}

/// Whether the tree is shown from the root down or from one crate up to its
/// dependents.
#[derive(Clone, Debug)]
pub enum Inverted {
    Not,
    Inverted(String),
}

/// Errors when retrieving the dependencies of a project.
#[derive(Debug)]
pub enum DepsError {
    CargoError(cargo_metadata::Error),
    NoDeps,
    Noroot,
    CrateNotFound(String),
}

/// The dependency tree: the root package id and every crate under its package id,
/// in the order of their ids.
#[derive(Debug, Clone)]
pub struct DepTree {
    pub display_unspecified: bool,
    pub no_dedupe: bool,
    pub inverted: Inverted,
    pub root: String,
    pub crates: Vec<(String, Crate)>,
}

/// Index of the first crate, from `k` on, whose package id is `id`.
pub open spec fn crate_index_from(crates: Seq<(String, Crate)>, id: Seq<char>, k: int) -> Option<
    int,
>
    decreases crates.len() - k,
{
    if k < 0 || k >= crates.len() {
        None
    } else if crates[k].0@ == id {
        Some(k)
    } else {
        crate_index_from(crates, id, k + 1)
    }
}

/// Index of the crate whose package id is `id`.
pub open spec fn crate_index(crates: Seq<(String, Crate)>, id: Seq<char>) -> Option<int> {
    crate_index_from(crates, id, 0)
}

pub proof fn lemma_crate_index_from(crates: Seq<(String, Crate)>, id: Seq<char>, k: int)
    requires
        0 <= k <= crates.len(),
    ensures
        match crate_index_from(crates, id, k) {
            Some(i) => k <= i < crates.len() && crates[i].0@ == id && forall|j: int|
                k <= j < i ==> (#[trigger] crates[j]).0@ != id,
            None => forall|j: int| k <= j < crates.len() ==> (#[trigger] crates[j]).0@ != id,
        },
    decreases crates.len() - k,
{
    if k < crates.len() {
        lemma_crate_index_from(crates, id, k + 1);
    }
}

pub proof fn lemma_crate_index(crates: Seq<(String, Crate)>, id: Seq<char>)
    ensures
        match crate_index(crates, id) {
            Some(i) => 0 <= i < crates.len() && crates[i].0@ == id && forall|j: int|
                0 <= j < i ==> (#[trigger] crates[j]).0@ != id,
            None => forall|j: int| 0 <= j < crates.len() ==> (#[trigger] crates[j]).0@ != id,
        },
{
    lemma_crate_index_from(crates, id, 0);
}

/// Index of the crate with package id `id`.
pub fn find_crate(crates: &Vec<(String, Crate)>, id: &String) -> (r: Option<usize>)
    ensures
        match r {
            Some(i) => crate_index(crates@, id@) == Some(i as int),
            None => crate_index(crates@, id@) is None,
        },
{
    let mut i: usize = 0;
    while i < crates.len()
        invariant
            i <= crates@.len(),
            crate_index(crates@, id@) == crate_index_from(crates@, id@, i as int),
        decreases crates.len() - i,
    {
        if crates[i].0 == *id {
            return Some(i);
        }
        i = i + 1;
    }
    None
}

/// Index of the first crate, from `k` on, whose name is `name`.
pub open spec fn crate_named_from(crates: Seq<(String, Crate)>, name: Seq<char>, k: int) -> Option<
    int,
>
    decreases crates.len() - k,
{
    if k < 0 || k >= crates.len() {
        None
    } else if crates[k].1.name@ == name {
        Some(k)
    } else {
        crate_named_from(crates, name, k + 1)
    }
}

/// Index of the first crate named `name`.
pub open spec fn crate_named(crates: Seq<(String, Crate)>, name: Seq<char>) -> Option<int> {
    crate_named_from(crates, name, 0)
}

pub proof fn lemma_crate_named_from(crates: Seq<(String, Crate)>, name: Seq<char>, k: int)
    requires
        0 <= k <= crates.len(),
    ensures
        match crate_named_from(crates, name, k) {
            Some(i) => k <= i < crates.len() && crates[i].1.name@ == name && forall|j: int|
                k <= j < i ==> (#[trigger] crates[j]).1.name@ != name,
            None => forall|j: int| k <= j < crates.len() ==> (#[trigger] crates[j]).1.name@ != name,
        },
    decreases crates.len() - k,
{
    if k < crates.len() {
        lemma_crate_named_from(crates, name, k + 1);
    }
}

/// Index of the first crate named `name`.
pub fn find_crate_named(crates: &Vec<(String, Crate)>, name: &String) -> (r: Option<usize>)
    ensures
        match r {
            Some(i) => crate_named(crates@, name@) == Some(i as int),
            None => crate_named(crates@, name@) is None,
        },
{
    let mut i: usize = 0;
    while i < crates.len()
        invariant
            i <= crates@.len(),
            crate_named(crates@, name@) == crate_named_from(crates@, name@, i as int),
        decreases crates.len() - i,
    {
        if crates[i].1.name == *name {
            return Some(i);
        }
        i = i + 1;
    }
    None
}

impl DepTree {
    /// A tree with the given root and crates, shown from the root down, deduplicated,
    /// with unassigned crates hidden.
    pub fn new(root: String, crates: Vec<(String, Crate)>) -> (r: DepTree)
        ensures
            r.root == root,
            r.crates == crates,
            !r.display_unspecified,
            !r.no_dedupe,
            r.inverted is Not,
    {
        DepTree { display_unspecified: false, no_dedupe: false, inverted: Inverted::Not, root, crates }
    }

    /// Removes the first crate named `name` and returns it with its package id.
    pub fn take_dep_by_name(&mut self, name: &str) -> (r: Option<(String, Crate)>)
        ensures
            match crate_named(old(self).crates@, name@) {
                Some(i) => r == Some(old(self).crates@[i]) && final(self).crates@ == old(
                    self,
                ).crates@.remove(i),
                None => r is None && final(self).crates@ == old(self).crates@,
            },
            final(self).root == old(self).root,
            final(self).display_unspecified == old(self).display_unspecified,
            final(self).no_dedupe == old(self).no_dedupe,
            final(self).inverted == old(self).inverted,
    {
        let wanted = String::from_str(name);
        proof {
            lemma_crate_named_from(self.crates@, name@, 0);
        }
        match find_crate_named(&self.crates, &wanted) {
            Some(i) => Some(self.crates.remove(i)),
            None => None,
        }
    }

    /// The package id of the root crate.
    pub fn get_root(&self) -> (r: &str)
        ensures
            r@ == self.root@,
    {
        self.root.as_str()
    }

    /// Whether crates without an assignment are shown.
    pub fn display_unspecified(&mut self, display_unspecified: bool)
        ensures
            *final(self) == (DepTree { display_unspecified, ..*old(self) }),
    {
        self.display_unspecified = display_unspecified;
    }

    /// Whether every occurrence of a crate shows its dependencies again.
    pub fn no_dedupe(&mut self, dedupe: bool)
        ensures
            *final(self) == (DepTree { no_dedupe: dedupe, ..*old(self) }),
    {
        self.no_dedupe = dedupe;
    }

    /// Whether the tree is shown inverted, and from which crate.
    pub fn inverted(&mut self, inverted: Inverted)
        ensures
            *final(self) == (DepTree { inverted, ..*old(self) }),
    {
        self.inverted = inverted;
    }

    /// The crates by package id.
    pub fn get_crates(&self) -> (r: &Vec<(String, Crate)>)
        ensures
            r == &self.crates,
    {
        &self.crates
    }
}

/// A dependency as a package's manifest declares it: its name, and whether it is
/// a development or build dependency.
#[derive(Clone, Debug)]
pub struct PackageDependency {
    pub name: String,
    pub dev_or_build: bool,
}

/// A package of the project's metadata: its id, name and version, the
/// dependencies its manifest declares, and whether one of its targets is a
/// procedural macro.
#[derive(Clone, Debug)]
pub struct PackageInfo {
    pub id: String,
    pub name: String,
    pub version: CrateVersion,
    pub dependencies: Vec<PackageDependency>,
    pub proc_macro: bool,
}

/// An edge of the resolved dependency graph: the name the dependency is used
/// under, and the id of the package it resolved to.
#[derive(Clone, Debug)]
pub struct NodeDep {
    pub name: String,
    pub pkg: String,
}

/// A node of the resolved dependency graph: a package id and its edges.
#[derive(Clone, Debug)]
pub struct ResolveNode {
    pub id: String,
    pub deps: Vec<NodeDep>,
}

/// What the dependency tree is built from: the id of the root package (if there
/// is one), the packages, and the resolved graph (if there is one).
#[derive(Clone, Debug)]
pub struct Metadata {
    pub root: Option<String>,
    pub packages: Vec<PackageInfo>,
    pub resolve: Option<Vec<ResolveNode>>,
}

/// Index of the first declared dependency, from `k` on, named `name`.
pub open spec fn declared_from(ds: Seq<PackageDependency>, name: Seq<char>, k: int) -> Option<int>
    decreases ds.len() - k,
{
    if k < 0 || k >= ds.len() {
        None
    } else if ds[k].name@ == name {
        Some(k)
    } else {
        declared_from(ds, name, k + 1)
    }
}

/// Index of the first package, from `k` on, with id `id`.
pub open spec fn package_from(ps: Seq<PackageInfo>, id: Seq<char>, k: int) -> Option<int>
    decreases ps.len() - k,
{
    if k < 0 || k >= ps.len() {
        None
    } else if ps[k].id@ == id {
        Some(k)
    } else {
        package_from(ps, id, k + 1)
    }
}

/// How a package depends on `dep`: only for the build or development if the
/// first dependency of that name that its manifest declares is a build or
/// development one, or if the package depended on is a procedural macro.
pub open spec fn dep_kind_of(dep: NodeDep, packages: Seq<PackageInfo>, package: PackageInfo) -> DepKind {
    let declared = declared_from(package.dependencies@, dep.name@, 0);
    let target = package_from(packages, dep.pkg@, 0);
    if declared matches Some(i) && package.dependencies@[i].dev_or_build {
        DepKind::Dev
    } else if target matches Some(j) && packages[j].proc_macro {
        DepKind::Dev
    } else {
        DepKind::Normal
    }
}

/// How `package` depends on `dep`.
pub fn get_depkind(dep: &NodeDep, packages: &Vec<PackageInfo>, package: &PackageInfo) -> (r: DepKind)
    ensures
        r == dep_kind_of(*dep, packages@, *package),
{
    if declared_dev(&package.dependencies, &dep.name) {
        return DepKind::Dev;
    }
    match find_package(packages, &dep.pkg) {
        Some(j) => {
            if packages[j].proc_macro {
                DepKind::Dev
            } else {
                DepKind::Normal
            }
        },
        None => DepKind::Normal,
    }
}

/// Whether the first dependency named `name` among `ds` is a build or
/// development one.
fn declared_dev(ds: &Vec<PackageDependency>, name: &String) -> (r: bool)
    ensures
        r == (declared_from(ds@, name@, 0) matches Some(i) && ds@[i].dev_or_build),
{
    let mut i: usize = 0;
    while i < ds.len()
        invariant
            i <= ds@.len(),
            declared_from(ds@, name@, 0) == declared_from(ds@, name@, i as int),
        decreases ds.len() - i,
    {
        if ds[i].name == *name {
            return ds[i].dev_or_build;
        }
        i = i + 1;
    }
    false
}

/// Index of the first package with id `id`.
fn find_package(packages: &Vec<PackageInfo>, id: &String) -> (r: Option<usize>)
    ensures
        match r {
            Some(j) => package_from(packages@, id@, 0) == Some(j as int) && j < packages@.len(),
            None => package_from(packages@, id@, 0) is None,
        },
{
    let mut j: usize = 0;
    while j < packages.len()
        invariant
            j <= packages@.len(),
            package_from(packages@, id@, 0) == package_from(packages@, id@, j as int),
        decreases packages.len() - j,
    {
        if packages[j].id == *id {
            return Some(j);
        }
        j = j + 1;
    }
    None
}

/// A crate of the tree by value: its package id, name, version and edges.
pub struct CrateEntry {
    pub id: Seq<char>,
    pub name: Seq<char>,
    pub version: CrateVersion,
    pub deps: Seq<(Seq<char>, DepKind)>,
}

/// A crate of the tree by value.
pub open spec fn entry_of(e: (String, Crate)) -> CrateEntry {
    CrateEntry {
        id: e.0@,
        name: e.1.name@,
        version: e.1.version,
        deps: e.1.dependencies@.map_values(|d: Dep| (d.id@, d.kind)),
    }
}

/// The crates of a tree by value, in order.
pub open spec fn entries(s: Seq<(String, Crate)>) -> Seq<CrateEntry> {
    s.map_values(|e: (String, Crate)| entry_of(e))
}

/// Whether `a` comes before `b`, comparing from position `i` on, character by
/// character; a proper prefix comes first.
pub open spec fn text_less_at(a: Seq<char>, b: Seq<char>, i: int) -> bool
    decreases b.len() - i,
{
    if i < 0 || i >= b.len() {
        false
    } else if i >= a.len() {
        true
    } else if a[i] != b[i] {
        (a[i] as int) < (b[i] as int)
    } else {
        text_less_at(a, b, i + 1)
    }
}

/// Whether `a` comes before `b` in the order of texts.
pub open spec fn text_less(a: Seq<char>, b: Seq<char>) -> bool {
    text_less_at(a, b, 0)
}

/// Whether `a` comes before `b` in the order of texts.
pub fn text_lt(a: &String, b: &String) -> (r: bool)
    ensures
        r == text_less(a@, b@),
{
    let x = chars_of(a.as_str());
    let y = chars_of(b.as_str());
    let mut i: usize = 0;
    while i < x.len() && i < y.len() && x[i] == y[i]
        invariant
            i <= x@.len(),
            i <= y@.len(),
            x@ == a@,
            y@ == b@,
            text_less_at(x@, y@, 0) == text_less_at(x@, y@, i as int),
        decreases x.len() - i,
    {
        i = i + 1;
    }
    if i >= y.len() {
        false
    } else if i >= x.len() {
        true
    } else {
        x[i] < y[i]
    }
}

/// The first position, from `k` on, whose id does not come before `id`.
pub open spec fn insert_pos_from(s: Seq<CrateEntry>, id: Seq<char>, k: int) -> int
    decreases s.len() - k,
{
    if k < 0 || k >= s.len() {
        s.len() as int
    } else if !text_less(s[k].id, id) {
        k
    } else {
        insert_pos_from(s, id, k + 1)
    }
}

/// The crates with `e` put in its place by id, replacing a crate of the same id.
pub open spec fn insert_entry(s: Seq<CrateEntry>, e: CrateEntry) -> Seq<CrateEntry> {
    let i = insert_pos_from(s, e.id, 0);
    if i < s.len() && s[i].id == e.id {
        s.update(i, e)
    } else {
        s.insert(i, e)
    }
}

pub proof fn lemma_insert_pos_from(s: Seq<CrateEntry>, id: Seq<char>, k: int)
    requires
        0 <= k <= s.len(),
    ensures
        k <= insert_pos_from(s, id, k) <= s.len(),
    decreases s.len() - k,
{
    if k < s.len() {
        lemma_insert_pos_from(s, id, k + 1);
    }
}

/// Puts a crate in its place by id, replacing a crate of the same id.
fn insert_crate(crates: &mut Vec<(String, Crate)>, id: String, c: Crate)
    ensures
        entries(final(crates)@) == insert_entry(entries(old(crates)@), entry_of((id, c))),
        (forall|i: int| 0 <= i < old(crates)@.len() ==> (#[trigger] old(crates)@[i]).1.assignment is None)
            && c.assignment is None ==> forall|i: int|
            0 <= i < final(crates)@.len() ==> (#[trigger] final(crates)@[i]).1.assignment is None,
{
    let ghost es = entries(crates@);
    let mut i: usize = 0;
    proof {
        lemma_insert_pos_from(es, id@, 0);
    }
    while i < crates.len() && text_lt(&crates[i].0, &id)
        invariant
            i <= crates@.len(),
            crates@ == old(crates)@,
            es == entries(crates@),
            insert_pos_from(es, id@, 0) == insert_pos_from(es, id@, i as int),
        decreases crates.len() - i,
    {
        i = i + 1;
    }
    let ghost e = entry_of((id, c));
    if i < crates.len() && crates[i].0 == id {
        let (k, _) = crates.remove(i);
        crates.insert(i, (k, c));
        assert(entries(crates@) =~= es.update(i as int, e));
    } else {
        crates.insert(i, (id, c));
        assert(entries(crates@) =~= es.insert(i as int, e));
    }
}

/// The crate a node of the resolved graph stands for, given its package.
pub open spec fn node_entry(node: ResolveNode, packages: Seq<PackageInfo>, p: PackageInfo) -> CrateEntry {
    CrateEntry {
        id: node.id@,
        name: p.name@,
        version: p.version,
        deps: node.deps@.map_values(|d: NodeDep| (d.pkg@, dep_kind_of(d, packages, p))),
    }
}

/// The crates of the first `n` nodes, in the order of their ids; the id of the
/// first node without a package where there is one.
pub open spec fn node_entries(nodes: Seq<ResolveNode>, packages: Seq<PackageInfo>, n: nat) -> Result<
    Seq<CrateEntry>,
    Seq<char>,
>
    decreases n,
{
    if n == 0 || n > nodes.len() {
        Ok(Seq::empty())
    } else {
        match node_entries(nodes, packages, (n - 1) as nat) {
            Err(id) => Err(id),
            Ok(es) => {
                let node = nodes[n - 1];
                match package_from(packages, node.id@, 0) {
                    None => Err(node.id@),
                    Some(j) => Ok(insert_entry(es, node_entry(node, packages, packages[j]))),
                }
            },
        }
    }
}

pub proof fn lemma_node_entries_err(nodes: Seq<ResolveNode>, packages: Seq<PackageInfo>, n: nat, m: nat)
    requires
        n <= m <= nodes.len(),
        node_entries(nodes, packages, n) is Err,
    ensures
        node_entries(nodes, packages, m) == node_entries(nodes, packages, n),
    decreases m - n,
{
    if m > n {
        lemma_node_entries_err(nodes, packages, n, (m - 1) as nat);
    }
}

/// Errors when retrieving the dependencies, by kind.
pub enum DepsProblem {
    Cargo,
    NoDeps,
    Noroot,
    CrateNotFound(Seq<char>),
}

impl View for DepsError {
    type V = DepsProblem;

    open spec fn view(&self) -> DepsProblem {
        match self {
            DepsError::CargoError(_) => DepsProblem::Cargo,
            DepsError::NoDeps => DepsProblem::NoDeps,
            DepsError::Noroot => DepsProblem::Noroot,
            DepsError::CrateNotFound(id) => DepsProblem::CrateNotFound(id@),
        }
    }
}

/// The root package id and the crates the metadata gives, or why there are none:
/// there must be a root package and a resolved graph, and every node of the graph
/// must have its package.
pub open spec fn deps_outcome(meta: Metadata) -> Result<(Seq<char>, Seq<CrateEntry>), DepsProblem> {
    match meta.root {
        None => Err(DepsProblem::Noroot),
        Some(root) => match meta.resolve {
            None => Err(DepsProblem::NoDeps),
            Some(nodes) => match node_entries(nodes@, meta.packages@, nodes@.len()) {
                Err(id) => Err(DepsProblem::CrateNotFound(id)),
                Ok(es) => Ok((root@, es)),
            },
        },
    }
}

/// The crate a node of the resolved graph stands for.
fn node_crate(node: &ResolveNode, packages: &Vec<PackageInfo>, package: &PackageInfo) -> (r: Crate)
    ensures
        entry_of((node.id, r)) == node_entry(*node, packages@, *package),
        r.assignment is None,
{
    let mut dependencies: Vec<Dep> = Vec::new();
    let mut k: usize = 0;
    while k < node.deps.len()
        invariant
            k <= node.deps@.len(),
            dependencies@.len() == k,
            forall|i: int|
                0 <= i < k ==> (#[trigger] dependencies@[i]).id@ == node.deps@[i].pkg@
                    && dependencies@[i].kind == dep_kind_of(node.deps@[i], packages@, *package),
        decreases node.deps.len() - k,
    {
        let dep = &node.deps[k];
        let kind = get_depkind(dep, packages, package);
        dependencies.push(Dep { id: dep.pkg.clone(), kind });
        k = k + 1;
    }
    assert(dependencies@.map_values(|d: Dep| (d.id@, d.kind)) =~= node.deps@.map_values(
        |d: NodeDep| (d.pkg@, dep_kind_of(d, packages@, *package)),
    ));
    Crate {
        name: package.name.clone(),
        version: package.version,
        dependencies,
        assignment: None,
    }
}

/// The dependency tree of a project, from its metadata: the root package and a
/// crate per node of the resolved graph, none of them assigned yet.
pub fn get_deps(meta: &Metadata) -> (r: Result<DepTree, DepsError>)
    ensures
        match r {
            Ok(t) => deps_outcome(*meta) == Ok::<(Seq<char>, Seq<CrateEntry>), DepsProblem>(
                (t.root@, entries(t.crates@)),
            ) && (forall|i: int| 0 <= i < t.crates@.len() ==> (#[trigger] t.crates@[i]).1.assignment is None)
                && !t.display_unspecified && !t.no_dedupe && t.inverted is Not && sorted_by_id(
                entries(t.crates@),
            ),
            Err(e) => deps_outcome(*meta) == Err::<(Seq<char>, Seq<CrateEntry>), DepsProblem>(e@),
        },
{
    let root = match &meta.root {
        Some(root) => root,
        None => {
            return Err(DepsError::Noroot);
        },
    };
    let nodes = match &meta.resolve {
        Some(nodes) => nodes,
        None => {
            return Err(DepsError::NoDeps);
        },
    };
    let mut crates: Vec<(String, Crate)> = Vec::new();
    assert(entries(crates@) =~= Seq::empty());
    let mut n: usize = 0;
    while n < nodes.len()
        invariant
            n <= nodes@.len(),
            meta.resolve == Some(*nodes),
            meta.root == Some(*root),
            node_entries(nodes@, meta.packages@, n as nat) == Ok::<Seq<CrateEntry>, Seq<char>>(
                entries(crates@),
            ),
            forall|i: int| 0 <= i < crates@.len() ==> (#[trigger] crates@[i]).1.assignment is None,
        decreases nodes.len() - n,
    {
        let node = &nodes[n];
        let j = match find_package(&meta.packages, &node.id) {
            Some(j) => j,
            None => {
                proof {
                    lemma_node_entries_err(nodes@, meta.packages@, (n + 1) as nat, nodes@.len());
                }
                return Err(DepsError::CrateNotFound(node.id.clone()));
            },
        };
        let c = node_crate(node, &meta.packages, &meta.packages[j]);
        insert_crate(&mut crates, node.id.clone(), c);
        n = n + 1;
    }
    proof {
        lemma_node_entries_sorted(nodes@, meta.packages@, nodes@.len());
    }
    Ok(
        DepTree {
            display_unspecified: false,
            no_dedupe: false,
            inverted: Inverted::Not,
            root: root.clone(),
            crates,
        },
    )
}

/// The escape texts a rendered tree is styled with: for dimmed text, for the
/// mark of a crate shown before, for assignments a user made, and for bold text,
/// each with the text that ends it.
#[derive(Clone, Debug)]
pub struct TreeStyles {
    pub dim: String,
    pub dim_end: String,
    pub star: String,
    pub star_end: String,
    pub assign: String,
    pub assign_end: String,
    pub bold: String,
    pub bold_end: String,
}

/// The name and version of a crate as its line shows them.
pub open spec fn dep_head(dep: Crate) -> Seq<char> {
    dep.name@ + " v"@ + dec_text(dep.version.major as nat) + "."@ + dec_text(dep.version.minor as nat)
        + "."@ + dec_text(dep.version.patch as nat)
}

/// The mark of a crate shown before.
pub open spec fn dep_mark(star: bool, s: TreeStyles) -> Seq<char> {
    if star {
        " "@ + s.star@ + "(*)"@ + s.star_end@
    } else {
        Seq::empty()
    }
}

/// The section of a crate as its line shows it, with the line's end.
pub open spec fn dep_tail(dep: Crate, s: TreeStyles) -> Seq<char> {
    match dep.assignment {
        Some(a) => if a.user_assigned {
            " "@ + s.assign@ + s.bold@ + a.name@ + s.bold_end@ + " "@ + s.assign@ + "prio:"@
                + dec_text(a.priority as nat) + s.assign_end@ + " \n"@
        } else {
            " "@ + s.bold@ + a.name@ + s.bold_end@ + "\n"@
        },
        None => " "@ + s.dim@ + "unspecified"@ + s.dim_end@ + "\n"@,
    }
}

/// The line of a crate: its name and version, a mark if it was shown before, and
/// its section (with its priority where a user assigned it).
pub open spec fn dep_line(dep: Crate, star: bool, s: TreeStyles) -> Seq<char> {
    dep_head(dep) + dep_mark(star, s) + " →"@ + dep_tail(dep, s)
}

/// Writes the line of a crate.
fn fmt_dep(out: &mut Vec<char>, dep: &Crate, star: bool, s: &TreeStyles)
    ensures
        final(out)@ == old(out)@ + dep_line(*dep, star, *s),
{
    let mut line: Vec<char> = Vec::new();
    push_str(&mut line, dep.name.as_str());
    push_str(&mut line, " v");
    push_decimal(&mut line, dep.version.major);
    push_str(&mut line, ".");
    push_decimal(&mut line, dep.version.minor);
    push_str(&mut line, ".");
    push_decimal(&mut line, dep.version.patch);
    assert(line@ =~= dep_head(*dep));
    let mut mark: Vec<char> = Vec::new();
    if star {
        push_str(&mut mark, " ");
        push_str(&mut mark, s.star.as_str());
        push_str(&mut mark, "(*)");
        push_str(&mut mark, s.star_end.as_str());
    }
    assert(mark@ =~= dep_mark(star, *s));
    let mut tail: Vec<char> = Vec::new();
    match &dep.assignment {
        Some(a) => {
            if a.user_assigned {
                push_str(&mut tail, " ");
                push_str(&mut tail, s.assign.as_str());
                push_str(&mut tail, s.bold.as_str());
                push_str(&mut tail, a.name.as_str());
                push_str(&mut tail, s.bold_end.as_str());
                push_str(&mut tail, " ");
                push_str(&mut tail, s.assign.as_str());
                push_str(&mut tail, "prio:");
                push_decimal(&mut tail, a.priority as u64);
                push_str(&mut tail, s.assign_end.as_str());
                push_str(&mut tail, " \n");
            } else {
                push_str(&mut tail, " ");
                push_str(&mut tail, s.bold.as_str());
                push_str(&mut tail, a.name.as_str());
                push_str(&mut tail, s.bold_end.as_str());
                push_str(&mut tail, "\n");
            }
        },
        None => {
            push_str(&mut tail, " ");
            push_str(&mut tail, s.dim.as_str());
            push_str(&mut tail, "unspecified");
            push_str(&mut tail, s.dim_end.as_str());
            push_str(&mut tail, "\n");
        },
    }
    assert(tail@ =~= dep_tail(*dep, *s));
    push_chars(out, &line);
    push_chars(out, &mark);
    push_str(out, " →");
    push_chars(out, &tail);
    assert(out@ =~= old(out)@ + dep_line(*dep, star, *s));
}

/// The columns before a line, for the levels above its own: a bar where more
/// crates follow at that level.
pub open spec fn columns_text(lines: Seq<bool>, s: TreeStyles) -> Seq<char>
    decreases lines.len(),
{
    if lines.len() == 0 {
        Seq::empty()
    } else {
        columns_text(lines.drop_last(), s) + if lines.last() {
            s.dim@ + "│   "@ + s.dim_end@
        } else {
            "    "@
        }
    }
}

/// What stands before a line at the depth that `lines` gives: the columns above,
/// then a branch that goes on where more crates follow at this level.
pub open spec fn lines_text(lines: Seq<bool>, s: TreeStyles) -> Seq<char> {
    if lines.len() == 0 {
        Seq::empty()
    } else {
        columns_text(lines.drop_last(), s) + if lines.last() {
            s.dim@ + "├── "@ + s.dim_end@
        } else {
            s.dim@ + "└── "@ + s.dim_end@
        }
    }
}

/// Writes what stands before a line.
fn fmt_lines(out: &mut Vec<char>, lines: &Vec<bool>, s: &TreeStyles)
    ensures
        final(out)@ == old(out)@ + lines_text(lines@, *s),
{
    if lines.len() == 0 {
        return ;
    }
    let len = lines.len();
    let mut i: usize = 0;
    while i < len - 1
        invariant
            len == lines@.len(),
            len > 0,
            i <= len - 1,
            out@ == old(out)@ + columns_text(lines@.subrange(0, i as int), *s),
        decreases len - 1 - i,
    {
        assert(lines@.subrange(0, i + 1).drop_last() =~= lines@.subrange(0, i as int));
        if lines[i] {
            push_str(out, s.dim.as_str());
            push_str(out, "│   ");
            push_str(out, s.dim_end.as_str());
        } else {
            push_str(out, "    ");
        }
        i = i + 1;
        assert(out@ =~= old(out)@ + columns_text(lines@.subrange(0, i as int), *s));
    }
    assert(lines@.subrange(0, len - 1) =~= lines@.drop_last());
    if lines[len - 1] {
        push_str(out, s.dim.as_str());
        push_str(out, "├── ");
        push_str(out, s.dim_end.as_str());
    } else {
        push_str(out, s.dim.as_str());
        push_str(out, "└── ");
        push_str(out, s.dim_end.as_str());
    }
    assert(out@ =~= old(out)@ + lines_text(lines@, *s));
}

/// Whether the tree shows the crate with id `id`: every crate where unassigned
/// ones are shown, else those with an assignment.
pub open spec fn shown(t: DepTree, id: Seq<char>) -> bool {
    t.display_unspecified || (crate_index(t.crates@, id) matches Some(i) && t.crates@[i].1.assignment
        is Some)
}

/// Whether crate `c` has an edge to `id`.
pub open spec fn depends_on(c: Crate, id: Seq<char>) -> bool {
    exists|j: int| 0 <= j < c.dependencies@.len() && (#[trigger] c.dependencies@[j]).id@ == id
}

/// The ids of the crates, among the first `n`, that have an edge to `id`.
pub open spec fn dependents_upto(crates: Seq<(String, Crate)>, id: Seq<char>, n: nat) -> Seq<Seq<char>>
    decreases n,
{
    if n == 0 || n > crates.len() {
        Seq::empty()
    } else {
        let prev = dependents_upto(crates, id, (n - 1) as nat);
        if depends_on(crates[n - 1].1, id) {
            prev.push(crates[n - 1].0@)
        } else {
            prev
        }
    }
}

/// The ids among the first `n` of `ids` that the tree shows.
pub open spec fn shown_upto(t: DepTree, ids: Seq<Seq<char>>, n: nat) -> Seq<Seq<char>>
    decreases n,
{
    if n == 0 || n > ids.len() {
        Seq::empty()
    } else {
        let prev = shown_upto(t, ids, (n - 1) as nat);
        if shown(t, ids[n - 1]) {
            prev.push(ids[n - 1])
        } else {
            prev
        }
    }
}

/// The crates shown below crate `c` (with id `id`): its dependencies, or, in an
/// inverted tree, the crates that depend on it.
pub open spec fn children(t: DepTree, id: Seq<char>, c: Crate, inverted: bool) -> Seq<Seq<char>> {
    let all = if inverted {
        dependents_upto(t.crates@, id, t.crates@.len())
    } else {
        c.dependencies@.map_values(|d: Dep| d.id@)
    };
    shown_upto(t, all, all.len())
}

/// Texts taken as character sequences.
pub open spec fn strs(v: Seq<String>) -> Seq<Seq<char>> {
    v.map_values(|x: String| x@)
}

/// The tree below crate `id` at the depth `lines` gives, with the crates already
/// drawn in full; what was written and the crates then drawn in full. A crate
/// drawn before is written again with a mark, without what is below it, unless
/// every occurrence is to be expanded. `None` where a crate is missing, or the
/// tree is deeper than `fuel`.
pub open spec fn render_node(
    t: DepTree,
    s: TreeStyles,
    inv: bool,
    id: Seq<char>,
    drawn: Seq<Seq<char>>,
    lines: Seq<bool>,
    fuel: nat,
) -> Option<(Seq<char>, Seq<Seq<char>>)>
    decreases fuel, 0int, 0int,
{
    if fuel == 0 {
        None
    } else {
        match crate_index(t.crates@, id) {
            None => None,
            Some(i) => {
                let c = t.crates@[i].1;
                let prefix = lines_text(lines, s);
                if !drawn.contains(id) || t.no_dedupe {
                    let kids = children(t, id, c, inv);
                    match render_kids(t, s, inv, kids, 0, drawn, lines, (fuel - 1) as nat) {
                        None => None,
                        Some((text, d)) => Some((prefix + dep_line(c, false, s) + text, d.push(id))),
                    }
                } else {
                    Some((prefix + dep_line(c, true, s), drawn))
                }
            },
        }
    }
}

/// The trees below `kids[k..]`, one after the other, each a level deeper than
/// `lines`.
pub open spec fn render_kids(
    t: DepTree,
    s: TreeStyles,
    inv: bool,
    kids: Seq<Seq<char>>,
    k: int,
    drawn: Seq<Seq<char>>,
    lines: Seq<bool>,
    fuel: nat,
) -> Option<(Seq<char>, Seq<Seq<char>>)>
    decreases fuel, 1int, kids.len() - k,
{
    if k < 0 || k >= kids.len() {
        Some((Seq::empty(), drawn))
    } else {
        match render_node(t, s, inv, kids[k], drawn, lines.push(k + 1 < kids.len()), fuel) {
            None => None,
            Some((text, d)) => match render_kids(t, s, inv, kids, k + 1, d, lines, fuel) {
                None => None,
                Some((rest, d2)) => Some((text + rest, d2)),
            },
        }
    }
}

/// The tree as text: from the root down, or, inverted, from the chosen crate up
/// to the crates that depend on it; `None` where a crate is missing or the tree is
/// deeper than it has crates (which only a cycle makes it).
pub open spec fn tree_text(t: DepTree, s: TreeStyles) -> Option<Seq<char>> {
    let fuel = t.crates@.len();
    let r = match t.inverted {
        Inverted::Not => render_node(t, s, false, t.root@, Seq::empty(), Seq::empty(), fuel),
        Inverted::Inverted(from) => render_node(t, s, true, from@, Seq::empty(), Seq::empty(), fuel),
    };
    match r {
        Some((text, _)) => Some(text),
        None => None,
    }
}

/// Whether `id` is among `drawn`.
fn is_drawn(drawn: &Vec<String>, id: &String) -> (r: bool)
    ensures
        r == strs(drawn@).contains(id@),
{
    let mut j: usize = 0;
    while j < drawn.len()
        invariant
            j <= drawn@.len(),
            forall|k: int| 0 <= k < j ==> (#[trigger] drawn@[k])@ != id@,
        decreases drawn.len() - j,
    {
        if drawn[j] == *id {
            assert(strs(drawn@)[j as int] == id@);
            return true;
        }
        j = j + 1;
    }
    assert forall|k: int| 0 <= k < strs(drawn@).len() implies strs(drawn@)[k] != id@ by {
        assert(drawn@[k]@ != id@);
    }
    false
}

/// Whether crate `c` has an edge to `id`.
fn has_edge_to(c: &Crate, id: &String) -> (r: bool)
    ensures
        r == depends_on(*c, id@),
{
    let mut j: usize = 0;
    while j < c.dependencies.len()
        invariant
            j <= c.dependencies@.len(),
            forall|k: int| 0 <= k < j ==> (#[trigger] c.dependencies@[k]).id@ != id@,
        decreases c.dependencies.len() - j,
    {
        if c.dependencies[j].id == *id {
            return true;
        }
        j = j + 1;
    }
    false
}

impl DepTree {
    /// The ids of the crates that have an edge to `id`, in order.
    fn find_dependents(&self, id: &String) -> (r: Vec<String>)
        ensures
            strs(r@) == dependents_upto(self.crates@, id@, self.crates@.len()),
    {
        let mut res: Vec<String> = Vec::new();
        let mut i: usize = 0;
        assert(strs(res@) =~= Seq::empty());
        while i < self.crates.len()
            invariant
                i <= self.crates@.len(),
                strs(res@) == dependents_upto(self.crates@, id@, i as nat),
            decreases self.crates.len() - i,
        {
            if has_edge_to(&self.crates[i].1, id) {
                res.push(self.crates[i].0.clone());
                assert(strs(res@) =~= dependents_upto(self.crates@, id@, i as nat).push(
                    self.crates@[i as int].0@,
                ));
            }
            i = i + 1;
        }
        res
    }

    /// Whether the tree shows the crate with id `id`.
    fn is_shown(&self, id: &String) -> (r: bool)
        ensures
            r == shown(*self, id@),
    {
        if self.display_unspecified {
            return true;
        }
        proof {
            lemma_crate_index(self.crates@, id@);
        }
        match find_crate(&self.crates, id) {
            Some(i) => self.crates[i].1.assignment.is_some(),
            None => false,
        }
    }

    /// The crates shown below crate `c` (with id `id`).
    fn children_of(&self, id: &String, c: &Crate, inv: bool) -> (r: Vec<String>)
        ensures
            strs(r@) == children(*self, id@, *c, inv),
    {
        let all: Vec<String> = if inv {
            self.find_dependents(id)
        } else {
            let mut ids: Vec<String> = Vec::new();
            let mut j: usize = 0;
            while j < c.dependencies.len()
                invariant
                    j <= c.dependencies@.len(),
                    ids@.len() == j,
                    forall|k: int| 0 <= k < j ==> (#[trigger] ids@[k])@ == c.dependencies@[k].id@,
                decreases c.dependencies.len() - j,
            {
                ids.push(c.dependencies[j].id.clone());
                j = j + 1;
            }
            assert(strs(ids@) =~= c.dependencies@.map_values(|d: Dep| d.id@));
            ids
        };
        let ghost alls = strs(all@);
        let mut res: Vec<String> = Vec::new();
        let mut k: usize = 0;
        assert(strs(res@) =~= Seq::empty());
        while k < all.len()
            invariant
                k <= all@.len(),
                alls == strs(all@),
                strs(res@) == shown_upto(*self, alls, k as nat),
            decreases all.len() - k,
        {
            if self.is_shown(&all[k]) {
                res.push(all[k].clone());
                assert(strs(res@) =~= shown_upto(*self, alls, k as nat).push(alls[k as int]));
            }
            k = k + 1;
        }
        res
    }
}

impl DepTree {
    /// Writes the tree below crate `id`.
    fn fmt_deptree(
        &self,
        s: &TreeStyles,
        inv: bool,
        id: &String,
        drawn: &mut Vec<String>,
        lines: &mut Vec<bool>,
        out: &mut Vec<char>,
        fuel: usize,
    ) -> (ok: bool)
        ensures
            final(lines)@ == old(lines)@,
            match render_node(*self, *s, inv, id@, strs(old(drawn)@), old(lines)@, fuel as nat) {
                Some((text, d)) => ok && final(out)@ == old(out)@ + text && strs(final(drawn)@) == d,
                None => !ok,
            },
        decreases fuel, 0int, 0int,
    {
        if fuel == 0 {
            return false;
        }
        proof {
            lemma_crate_index(self.crates@, id@);
        }
        let i = match find_crate(&self.crates, id) {
            Some(i) => i,
            None => {
                return false;
            },
        };
        let c = &self.crates[i].1;
        fmt_lines(out, lines, s);
        if !is_drawn(drawn, id) || self.no_dedupe {
            fmt_dep(out, c, false, s);
            let kids = self.children_of(id, c, inv);
            let ghost before = out@;
            let ok = self.fmt_kids(s, inv, &kids, 0, drawn, lines, out, fuel - 1);
            if !ok {
                return false;
            }
            let ghost d = strs(drawn@);
            drawn.push(id.clone());
            assert(strs(drawn@) =~= d.push(id@));
            assert(out@ =~= old(out)@ + (lines_text(old(lines)@, *s) + dep_line(*c, false, *s) + (out@.subrange(before.len() as int, out@.len() as int))));
            true
        } else {
            fmt_dep(out, c, true, s);
            assert(out@ =~= old(out)@ + (lines_text(old(lines)@, *s) + dep_line(*c, true, *s)));
            true
        }
    }

    /// Writes the trees below `kids[k..]`.
    #[verifier::rlimit(40)]
    fn fmt_kids(
        &self,
        s: &TreeStyles,
        inv: bool,
        kids: &Vec<String>,
        k: usize,
        drawn: &mut Vec<String>,
        lines: &mut Vec<bool>,
        out: &mut Vec<char>,
        fuel: usize,
    ) -> (ok: bool)
        requires
            k <= kids@.len(),
        ensures
            final(lines)@ == old(lines)@,
            match render_kids(*self, *s, inv, strs(kids@), k as int, strs(old(drawn)@), old(lines)@, fuel as nat) {
                Some((text, d)) => ok && final(out)@ == old(out)@ + text && strs(final(drawn)@) == d,
                None => !ok,
            },
        decreases fuel, 1int, kids@.len() - k,
    {
        if k >= kids.len() {
            assert(old(out)@ + Seq::<char>::empty() =~= old(out)@);
            return true;
        }
        lines.push(k + 1 < kids.len());
        let ok = self.fmt_deptree(s, inv, &kids[k], drawn, lines, out, fuel);
        lines.pop();
        assert(lines@ =~= old(lines)@);
        if !ok {
            return false;
        }
        let ghost mid = out@;
        let ok2 = self.fmt_kids(s, inv, kids, k + 1, drawn, lines, out, fuel);
        proof {
            if ok2 {
                assert(out@ =~= old(out)@ + (mid.subrange(old(out)@.len() as int, mid.len() as int)
                    + out@.subrange(mid.len() as int, out@.len() as int)));
            }
        }
        ok2
    }

    /// The tree as text, styled with `styles`: from the root down, or, inverted,
    /// from the chosen crate up to the crates that depend on it. `None` where a
    /// crate is missing, or the tree is deeper than it has crates.
    pub fn render(&self, styles: &TreeStyles) -> (r: Option<String>)
        ensures
            match tree_text(*self, *styles) {
                Some(t) => r matches Some(x) && x@ == t,
                None => r is None,
            },
    {
        let mut out: Vec<char> = Vec::new();
        let mut drawn: Vec<String> = Vec::new();
        let mut lines: Vec<bool> = Vec::new();
        assert(strs(drawn@) =~= Seq::empty());
        assert(lines@ =~= Seq::<bool>::empty());
        let fuel = self.crates.len();
        let ok = match &self.inverted {
            Inverted::Not => self.fmt_deptree(styles, false, &self.root, &mut drawn, &mut lines, &mut out, fuel),
            Inverted::Inverted(from) => self.fmt_deptree(styles, true, from, &mut drawn, &mut lines, &mut out, fuel),
        };
        if ok {
            assert(Seq::<char>::empty() + out@ =~= out@);
            Some(string_from_chars(&out))
        } else {
            None
        }
    }
}

/// No text comes before itself.
pub proof fn lemma_text_less_irreflexive(a: Seq<char>, i: int)
    requires
        0 <= i,
    ensures
        !text_less_at(a, a, i),
    decreases a.len() - i,
{
    if i < a.len() {
        lemma_text_less_irreflexive(a, i + 1);
    }
}

/// The order of texts is transitive.
pub proof fn lemma_text_less_transitive(a: Seq<char>, b: Seq<char>, c: Seq<char>, i: int)
    requires
        0 <= i,
        text_less_at(a, b, i),
        text_less_at(b, c, i),
    ensures
        text_less_at(a, c, i),
    decreases b.len() - i,
{
    if i < a.len() && a[i] == b[i] && b[i] == c[i] {
        lemma_text_less_transitive(a, b, c, i + 1);
    }
}

/// Of two texts that agree before position `i` and differ, one comes before the
/// other.
pub proof fn lemma_text_less_total(a: Seq<char>, b: Seq<char>, i: int)
    requires
        0 <= i <= a.len(),
        i <= b.len(),
        a != b,
        forall|j: int| 0 <= j < i ==> a[j] == b[j],
    ensures
        text_less_at(a, b, i) || text_less_at(b, a, i),
    decreases a.len() - i,
{
    if i == a.len() && i == b.len() {
        assert(a =~= b);
    } else if i < a.len() && i < b.len() && a[i] == b[i] {
        lemma_text_less_total(a, b, i + 1);
    }
}

/// Crates in strictly increasing order of their ids, so each id occurs once.
pub open spec fn sorted_by_id(es: Seq<CrateEntry>) -> bool {
    forall|i: int, j: int| 0 <= i < j < es.len() ==> text_less(es[i].id, es[j].id)
}

pub proof fn lemma_insert_pos_before(s: Seq<CrateEntry>, id: Seq<char>, k: int)
    requires
        0 <= k <= s.len(),
        forall|i: int| 0 <= i < k ==> text_less(#[trigger] s[i].id, id),
    ensures
        forall|i: int| 0 <= i < insert_pos_from(s, id, k) ==> text_less(#[trigger] s[i].id, id),
        insert_pos_from(s, id, k) < s.len() ==> !text_less(s[insert_pos_from(s, id, k)].id, id),
        k <= insert_pos_from(s, id, k) <= s.len(),
    decreases s.len() - k,
{
    if k < s.len() && text_less(s[k].id, id) {
        lemma_insert_pos_before(s, id, k + 1);
    }
}

/// Putting a crate in its place keeps the crates in order of their ids.
pub proof fn lemma_insert_entry_sorted(s: Seq<CrateEntry>, e: CrateEntry)
    requires
        sorted_by_id(s),
    ensures
        sorted_by_id(insert_entry(s, e)),
{
    lemma_insert_pos_before(s, e.id, 0);
    let p = insert_pos_from(s, e.id, 0);
    let r = insert_entry(s, e);
    if p < s.len() && s[p].id == e.id {
        assert forall|i: int, j: int| 0 <= i < j < r.len() implies text_less(r[i].id, r[j].id) by {
            assert(r[i].id == s[i].id && r[j].id == s[j].id);
        }
    } else {
        if p < s.len() {
            lemma_text_less_total(e.id, s[p].id, 0);
            assert(text_less(e.id, s[p].id));
        }
        assert forall|i: int, j: int| 0 <= i < j < r.len() implies text_less(r[i].id, r[j].id) by {
            if j < p {
                assert(r[i] == s[i] && r[j] == s[j]);
            } else if j == p {
                assert(r[j] == e && r[i] == s[i]);
            } else if i == p {
                assert(r[i] == e && r[j] == s[j - 1]);
                if j - 1 > p {
                    assert(text_less(s[p].id, s[j - 1].id));
                    lemma_text_less_transitive(e.id, s[p].id, s[j - 1].id, 0);
                }
            } else if i < p {
                assert(r[i] == s[i] && r[j] == s[j - 1]);
                assert(text_less(s[i].id, s[j - 1].id));
            } else {
                assert(r[i] == s[i - 1] && r[j] == s[j - 1]);
            }
        }
    }
}

/// The crates that the metadata gives are in strictly increasing order of their
/// ids, each id once.
pub proof fn lemma_node_entries_sorted(nodes: Seq<ResolveNode>, packages: Seq<PackageInfo>, n: nat)
    requires
        n <= nodes.len(),
    ensures
        node_entries(nodes, packages, n) matches Ok(es) ==> sorted_by_id(es),
    decreases n,
{
    if n > 0 {
        lemma_node_entries_sorted(nodes, packages, (n - 1) as nat);
        match node_entries(nodes, packages, (n - 1) as nat) {
            Ok(es) => {
                let node = nodes[n - 1];
                match package_from(packages, node.id@, 0) {
                    Some(j) => {
                        lemma_insert_entry_sorted(es, node_entry(node, packages, packages[j]));
                    },
                    None => {},
                }
            },
            Err(_) => {},
        }
    }
}

/// The tree has a crate with id `id`, and that crate has an assignment.
pub open spec fn has_assigned_crate(t: DepTree, id: Seq<char>) -> bool {
    crate_index(t.crates@, id) matches Some(i) && t.crates@[i].1.assignment is Some
}

proof fn lemma_shown_upto_assigned(t: DepTree, ids: Seq<Seq<char>>, n: nat)
    requires
        !t.display_unspecified,
    ensures
        forall|j: int|
            0 <= j < shown_upto(t, ids, n).len() ==> has_assigned_crate(t, #[trigger] shown_upto(t, ids, n)[j]),
    decreases n,
{
    if n > 0 && n <= ids.len() {
        lemma_shown_upto_assigned(t, ids, (n - 1) as nat);
        let prev = shown_upto(t, ids, (n - 1) as nat);
        let cur = shown_upto(t, ids, n);
        assert forall|j: int| 0 <= j < cur.len() implies has_assigned_crate(t, #[trigger] cur[j]) by {
            if j < prev.len() {
                assert(cur[j] == prev[j]);
            }
        }
    }
}

/// Where unassigned crates are hidden, the crates shown below a crate all have an
/// assignment, whether the tree is inverted or not.
pub proof fn lemma_children_assigned(t: DepTree, id: Seq<char>, c: Crate, inverted: bool)
    requires
        !t.display_unspecified,
    ensures
        forall|j: int|
            0 <= j < children(t, id, c, inverted).len() ==> has_assigned_crate(
                t,
                #[trigger] children(t, id, c, inverted)[j],
            ),
{
    let all = if inverted {
        dependents_upto(t.crates@, id, t.crates@.len())
    } else {
        c.dependencies@.map_values(|d: Dep| d.id@)
    };
    lemma_shown_upto_assigned(t, all, all.len());
}

proof fn lemma_render_node_drawn(
    t: DepTree,
    s: TreeStyles,
    inv: bool,
    id: Seq<char>,
    drawn: Seq<Seq<char>>,
    lines: Seq<bool>,
    fuel: nat,
)
    requires
        !t.display_unspecified,
    ensures
        render_node(t, s, inv, id, drawn, lines, fuel) matches Some((text, d)) ==> forall|x: Seq<char>|
            #[trigger] d.contains(x) ==> drawn.contains(x) || x == id || has_assigned_crate(t, x),
    decreases fuel, 0int, 0int,
{
    if fuel > 0 {
        if let Some(i) = crate_index(t.crates@, id) {
            let c = t.crates@[i].1;
            if !drawn.contains(id) || t.no_dedupe {
                let kids = children(t, id, c, inv);
                lemma_children_assigned(t, id, c, inv);
                lemma_render_kids_drawn(t, s, inv, kids, 0, drawn, lines, (fuel - 1) as nat);
                if let Some((text, d)) = render_kids(t, s, inv, kids, 0, drawn, lines, (fuel - 1) as nat) {
                    assert forall|x: Seq<char>| #[trigger] d.push(id).contains(x) implies drawn.contains(x)
                        || x == id || has_assigned_crate(t, x) by {
                        if x != id {
                            let j = choose|j: int| 0 <= j < d.push(id).len() && d.push(id)[j] == x;
                            assert(d[j] == x);
                            assert(d.contains(x));
                        }
                    }
                }
            }
        }
    }
}

proof fn lemma_render_kids_drawn(
    t: DepTree,
    s: TreeStyles,
    inv: bool,
    kids: Seq<Seq<char>>,
    k: int,
    drawn: Seq<Seq<char>>,
    lines: Seq<bool>,
    fuel: nat,
)
    requires
        !t.display_unspecified,
        forall|j: int| 0 <= j < kids.len() ==> has_assigned_crate(t, #[trigger] kids[j]),
    ensures
        render_kids(t, s, inv, kids, k, drawn, lines, fuel) matches Some((text, d)) ==> forall|x: Seq<char>|
            #[trigger] d.contains(x) ==> drawn.contains(x) || has_assigned_crate(t, x),
    decreases fuel, 1int, kids.len() - k,
{
    if 0 <= k < kids.len() {
        let ls = lines.push(k + 1 < kids.len());
        lemma_render_node_drawn(t, s, inv, kids[k], drawn, ls, fuel);
        if let Some((text, d)) = render_node(t, s, inv, kids[k], drawn, ls, fuel) {
            lemma_render_kids_drawn(t, s, inv, kids, k + 1, d, lines, fuel);
        }
    }
}

/// Where unassigned crates are not to be shown, every crate that the tree draws
/// below the crate it starts from has an assignment, whether the tree is inverted
/// or not; a crate drawn again is marked as drawn before and is one of these.
pub proof fn lemma_tree_hides_unassigned(t: DepTree, s: TreeStyles, inv: bool, start: Seq<char>, fuel: nat)
    requires
        !t.display_unspecified,
    ensures
        render_node(t, s, inv, start, Seq::empty(), Seq::empty(), fuel) matches Some((text, d))
            ==> forall|x: Seq<char>| #[trigger] d.contains(x) && x != start ==> has_assigned_crate(t, x),
{
    lemma_render_node_drawn(t, s, inv, start, Seq::empty(), Seq::empty(), fuel);
}

proof fn lemma_shown_upto_all(t: DepTree, ids: Seq<Seq<char>>, n: nat)
    requires
        t.display_unspecified,
        n <= ids.len(),
    ensures
        shown_upto(t, ids, n) == ids.subrange(0, n as int),
    decreases n,
{
    if n == 0 {
        assert(ids.subrange(0, 0) =~= Seq::<Seq<char>>::empty());
    } else {
        lemma_shown_upto_all(t, ids, (n - 1) as nat);
        assert(ids.subrange(0, (n - 1) as int).push(ids[n - 1]) =~= ids.subrange(0, n as int));
    }
}

/// Where unassigned crates are shown, every dependency of a crate is shown below
/// it, in order; inverted, every crate that depends on it.
pub proof fn lemma_all_children_shown(t: DepTree, id: Seq<char>, c: Crate)
    requires
        t.display_unspecified,
    ensures
        children(t, id, c, false) == c.dependencies@.map_values(|d: Dep| d.id@),
        children(t, id, c, true) == dependents_upto(t.crates@, id, t.crates@.len()),
{
    let deps = c.dependencies@.map_values(|d: Dep| d.id@);
    lemma_shown_upto_all(t, deps, deps.len());
    assert(deps.subrange(0, deps.len() as int) =~= deps);
    let up = dependents_upto(t.crates@, id, t.crates@.len());
    lemma_shown_upto_all(t, up, up.len());
    assert(up.subrange(0, up.len() as int) =~= up);
}

} // verus!
