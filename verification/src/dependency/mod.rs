//! The file dependency graph and the change-impact queries on it.
//!
//! An edge runs from a file to a file that it imports. The graph keeps each
//! edge twice, under its source and under its target, and a query walks the
//! edges backwards: from a changed file to the files that depend on it.
pub mod lemmas;

use crate::collections::{relates, relation_add, PathRelation, PathSet, StringMap};
use crate::package_deps::models::ScannedFile;
use crate::package_deps::{
    affected_by_manifest, empty_index, is_manifest_name, with_files, IndexView,
    PackageDependencyManager,
};
use crate::paths::{
    is_python_path, is_same_place, is_under, join, join_paths, path_is_under, same_place,
};
use crate::service::models::DetectedService;
use crate::text::{
    append_chars, from_chars, lines, lines_of, replace_char, replace_chars, split_whitespace,
    split_whitespace_chars, starts_with, to_chars, views,
};
use crate::utils::is_python_file;
use vstd::prelude::*;

verus! {

/// The edges of a graph, under their sources and under their targets.
pub struct LinksView {
    /// Under each file the files that it imports.
    pub forward: Map<Seq<char>, Set<Seq<char>>>,
    /// Under each file the files that import it.
    pub reverse: Map<Seq<char>, Set<Seq<char>>>,
}

/// What a graph holds.
pub struct GraphView {
    pub links: LinksView,
    /// The package usage index and the manifest registry.
    pub index: IndexView,
    /// The name and the root of each service, in the order of the registry.
    pub services: Seq<(Seq<char>, Seq<char>)>,
}

/// The two sides hold the same edges.
pub open spec fn mutual(links: LinksView) -> bool {
    forall|a: Seq<char>, b: Seq<char>| #[trigger]
        relates(links.forward, a, b) <==> relates(links.reverse, b, a)
}

/// `links` with the edge from `from` to `to` on both sides.
pub open spec fn add_edge(links: LinksView, from: Seq<char>, to: Seq<char>) -> LinksView {
    LinksView {
        forward: relation_add(links.forward, from, to),
        reverse: relation_add(links.reverse, to, from),
    }
}

/// Whether one walk along the edges backwards passes through the files of
/// `chain` in order.
pub open spec fn is_chain(reverse: Map<Seq<char>, Set<Seq<char>>>, chain: Seq<Seq<char>>) -> bool {
    chain.len() > 0 && forall|i: int|
        0 <= i < chain.len() - 1 ==> relates(reverse, #[trigger] chain[i], chain[i + 1])
}

/// Whether `file` depends on `start`, directly or through other files, or
/// is `start` itself.
pub open spec fn reaches(
    reverse: Map<Seq<char>, Set<Seq<char>>>,
    start: Seq<char>,
    file: Seq<char>,
) -> bool {
    exists|chain: Seq<Seq<char>>|
        #[trigger] is_chain(reverse, chain) && chain.first() == start && chain.last() == file
}

/// `start` and every file that depends on it, directly or through other
/// files.
pub open spec fn reachable_from(reverse: Map<Seq<char>, Set<Seq<char>>>, start: Seq<char>) -> Set<
    Seq<char>,
> {
    Set::new(|file: Seq<char>| reaches(reverse, start, file))
}

/// The files that a change of `changed` affects: the files that import a
/// package that `changed` declares, where it is a manifest, together with
/// `changed` and every file that depends on it.
pub open spec fn affected_files(graph: GraphView, changed: Seq<char>) -> Set<Seq<char>> {
    (if is_manifest_name(changed) {
        affected_by_manifest(graph.index, changed)
    } else {
        Set::empty()
    }).union(reachable_from(graph.links.reverse, changed))
}

/// The first service, in the order of the registry, under whose root `file`
/// lies.
pub open spec fn owner(services: Seq<(Seq<char>, Seq<char>)>, file: Seq<char>) -> Option<
    (Seq<char>, Seq<char>),
>
    decreases services.len(),
{
    if services.len() == 0 {
        None
    } else if is_under(file, services[0].1) {
        Some(services[0])
    } else {
        owner(services.drop_first(), file)
    }
}

/// The services that own an affected file.
pub open spec fn affected_services(graph: GraphView, changed: Seq<char>) -> Set<
    (Seq<char>, Seq<char>),
> {
    Set::new(
        |service: (Seq<char>, Seq<char>)|
            exists|file: Seq<char>|
                affected_files(graph, changed).contains(file) && #[trigger] owner(
                    graph.services,
                    file,
                ) == Some(service),
    )
}

/// Whether a line of a source file begins an import.
pub open spec fn begins_import_line(line: Seq<char>) -> bool {
    "from "@.is_prefix_of(line) || "import "@.is_prefix_of(line)
}

/// The path that an import line points to: the second word of the line,
/// with `/` for each `.` and with `.py` behind it, seen from `dir`.
pub open spec fn import_target(dir: Seq<char>, line: Seq<char>) -> Option<Seq<char>> {
    let words = split_whitespace(line);
    if begins_import_line(line) && words.len() >= 2 {
        Some(join(dir, replace_char(words[1], '.', '/') + ".py"@))
    } else {
        None
    }
}

/// Whether the listing holds a file at `path`.
pub open spec fn listed(files: Seq<ScannedFile>, path: Seq<char>) -> bool {
    exists|i: int| 0 <= i < files.len() && (#[trigger] files[i]).path@ == path
}

/// The path under which the listing holds the file at `path`: that of its
/// first file that names the same place.
pub open spec fn listed_at(files: Seq<ScannedFile>, path: Seq<char>) -> Option<Seq<char>>
    decreases files.len(),
{
    if files.len() == 0 {
        None
    } else if same_place(files[0].path@, path) {
        Some(files[0].path@)
    } else {
        listed_at(files.drop_first(), path)
    }
}

/// `links` with the edges of the given lines of the file `from`: one for
/// each import line whose target is in the listing, to the path under which
/// the listing holds it.
pub open spec fn with_lines(
    links: LinksView,
    dir: Seq<char>,
    from: Seq<char>,
    lines: Seq<Seq<char>>,
    files: Seq<ScannedFile>,
) -> LinksView
    decreases lines.len(),
{
    if lines.len() == 0 {
        links
    } else {
        let before = with_lines(links, dir, from, lines.drop_last(), files);
        match import_target(dir, lines.last()) {
            Some(target) => match listed_at(files, target) {
                Some(found) => add_edge(before, from, found),
                None => before,
            },
            None => before,
        }
    }
}

/// `links` with the edges of the first `n` files of the listing. Only a
/// Python source file whose text is given has edges.
pub open spec fn with_sources(
    links: LinksView,
    dir: Seq<char>,
    files: Seq<ScannedFile>,
    n: int,
) -> LinksView
    decreases n,
{
    if n <= 0 || n > files.len() {
        links
    } else {
        let before = with_sources(links, dir, files, n - 1);
        let file = files[n - 1];
        match file.content {
            Some(text) if is_python_path(file.path@) => with_lines(
                before,
                dir,
                file.path@,
                lines(text@),
                files,
            ),
            _ => before,
        }
    }
}

/// The graph after the files of a listing were taken in: the indices have
/// visited them, and each import line of a Python source file whose target
/// is in the listing has given an edge.
pub open spec fn scanned(graph: GraphView, dir: Seq<char>, files: Seq<ScannedFile>) -> GraphView {
    GraphView {
        links: with_sources(graph.links, dir, files, files.len() as int),
        index: with_files(graph.index, files),
        services: graph.services,
    }
}

/// A graph without edges and index entries, with the given services.
pub open spec fn fresh_graph(services: Seq<(Seq<char>, Seq<char>)>) -> GraphView {
    GraphView {
        links: LinksView { forward: Map::empty(), reverse: Map::empty() },
        index: empty_index(),
        services,
    }
}

/// The name and the root of each service of a registry, in its order.
pub open spec fn service_roots(services: StringMap<DetectedService>) -> Seq<
    (Seq<char>, Seq<char>),
> {
    Seq::new(
        services.key_order().len(),
        |i: int| (services.key_order()[i], services@[services.key_order()[i]].root_path@),
    )
}

/// A file depends on itself.
pub proof fn lemma_reaches_itself(reverse: Map<Seq<char>, Set<Seq<char>>>, start: Seq<char>)
    ensures
        reaches(reverse, start, start),
{
    let chain = seq![start];
    assert(is_chain(reverse, chain));
}

/// What depends on a file that depends on `start` depends on `start`.
pub proof fn lemma_reaches_step(
    reverse: Map<Seq<char>, Set<Seq<char>>>,
    start: Seq<char>,
    file: Seq<char>,
    dependent: Seq<char>,
)
    requires
        reaches(reverse, start, file),
        relates(reverse, file, dependent),
    ensures
        reaches(reverse, start, dependent),
{
    let chain = choose|chain: Seq<Seq<char>>|
        #[trigger] is_chain(reverse, chain) && chain.first() == start && chain.last() == file;
    let longer = chain.push(dependent);
    assert(is_chain(reverse, longer));
}

/// A set that holds the first file of a chain and, with each file, all that
/// depend on it directly, holds every file of the chain.
proof fn lemma_closed_holds_chain(
    reverse: Map<Seq<char>, Set<Seq<char>>>,
    closed: Set<Seq<char>>,
    chain: Seq<Seq<char>>,
    i: int,
)
    requires
        is_chain(reverse, chain),
        closed.contains(chain[0]),
        forall|f: Seq<char>, d: Seq<char>|
            closed.contains(f) && #[trigger] relates(reverse, f, d) ==> closed.contains(d),
        0 <= i < chain.len(),
    ensures
        closed.contains(chain[i]),
    decreases i,
{
    if i > 0 {
        lemma_closed_holds_chain(reverse, closed, chain, i - 1);
    }
}

/// The owner of a file is a service of the registry under whose root the
/// file lies.
pub proof fn lemma_owner(services: Seq<(Seq<char>, Seq<char>)>, file: Seq<char>)
    ensures
        match owner(services, file) {
            Some(service) => services.contains(service) && is_under(file, service.1),
            None => forall|i: int| 0 <= i < services.len() ==> !is_under(file, services[i].1),
        },
    decreases services.len(),
{
    if services.len() > 0 && !is_under(file, services[0].1) {
        let rest = services.drop_first();
        lemma_owner(rest, file);
        if owner(rest, file) is None {
            assert forall|i: int| 0 <= i < services.len() implies !is_under(
                file,
                services[i].1,
            ) by {
                if i > 0 {
                    assert(rest[i - 1] == services[i]);
                }
            }
        }
    }
}

/// The file dependency graph, with the indices and the service registry that
/// its queries draw on.
#[derive(Debug)]
pub struct DependencyGraph {
    // Under each file the files that it imports
    deps: PathRelation,
    // Under each file the files that import it
    reverse_deps: PathRelation,
    // Package dependencies
    package_deps: PackageDependencyManager,
    // Services
    services: StringMap<DetectedService>,
}

impl View for DependencyGraph {
    type V = GraphView;

    closed spec fn view(&self) -> GraphView {
        GraphView {
            links: LinksView { forward: self.deps@, reverse: self.reverse_deps@ },
            index: self.package_deps@,
            services: service_roots(self.services),
        }
    }
}

impl Default for DependencyGraph {
    fn default() -> (graph: Self)
        ensures
            graph.wf(),
            graph@.links.forward == Map::<Seq<char>, Set<Seq<char>>>::empty(),
            graph@.links.reverse == Map::<Seq<char>, Set<Seq<char>>>::empty(),
            graph@.index == empty_index(),
            graph@.services == Seq::<(Seq<char>, Seq<char>)>::empty(),
    {
        Self::new()
    }
}

/// The path under which the listing holds the file at `path`.
fn find_in_listing(files: &Vec<ScannedFile>, path: &String) -> (r: Option<String>)
    ensures
        match r {
            Some(found) => listed_at(files@, path@) == Some(found@),
            None => listed_at(files@, path@) is None,
        },
{
    let mut i: usize = 0;
    proof {
        assert(files@.skip(0) == files@);
    }
    while i < files.len()
        invariant
            i <= files.len(),
            listed_at(files@, path@) == listed_at(files@.skip(i as int), path@),
        decreases files.len() - i,
    {
        proof {
            assert(files@.skip(i as int).drop_first() == files@.skip(i + 1));
        }
        if is_same_place(files[i].path.as_str(), path.as_str()) {
            return Some(files[i].path.clone());
        }
        i += 1;
    }
    None
}

/// The file that an import line points to.
fn target_of(dir: &str, line: &Vec<char>) -> (r: Option<String>)
    ensures
        match r {
            Some(target) => import_target(dir@, line@) == Some(target@),
            None => import_target(dir@, line@) is None,
        },
{
    let from = to_chars("from ");
    let import = to_chars("import ");
    if !(starts_with(line, &from) || starts_with(line, &import)) {
        return None;
    }
    let words = split_whitespace_chars(line);
    if words.len() < 2 {
        return None;
    }
    let mut relative = replace_chars(&words[1], '.', '/');
    let extension = to_chars(".py");
    append_chars(&mut relative, &extension);
    let relative = from_chars(&relative);
    Some(join_paths(dir, relative.as_str()))
}

/// Whether one of the services has the given name.
fn has_name(services: &Vec<(String, String)>, name: &String) -> (r: bool)
    ensures
        r == exists|q: int| 0 <= q < services.len() && (#[trigger] services@[q]).0@ == name@,
{
    let mut i: usize = 0;
    while i < services.len()
        invariant
            i <= services.len(),
            forall|q: int| 0 <= q < i ==> (#[trigger] services@[q]).0@ != name@,
        decreases services.len() - i,
    {
        if services[i].0 == *name {
            return true;
        }
        i += 1;
    }
    false
}

/// The name and the root of each service, as text.
pub open spec fn pair_views(services: Seq<(String, String)>) -> Seq<(Seq<char>, Seq<char>)> {
    Seq::new(services.len(), |i: int| (services[i].0@, services[i].1@))
}

impl DependencyGraph {
    /// Both sides of the graph hold the same edges, and no index holds a
    /// key twice.
    pub closed spec fn wf(&self) -> bool {
        &&& self.deps.wf()
        &&& self.reverse_deps.wf()
        &&& self.package_deps.wf()
        &&& self.services.wf()
        &&& mutual(LinksView { forward: self.deps@, reverse: self.reverse_deps@ })
    }

    /// In a graph both sides hold the same edges.
    pub proof fn lemma_mutual(&self)
        requires
            self.wf(),
        ensures
            mutual(self@.links),
    {
    }

    /// No two services of the registry have the same name.
    pub proof fn lemma_service_names(&self)
        requires
            self.wf(),
        ensures
            forall|i: int, j: int|
                0 <= i < j < self@.services.len() ==> self@.services[i].0 != self@.services[j].0,
    {
        self.services.lemma_key_order();
    }

    /// A graph without edges, index entries and services.
    pub fn new() -> (graph: Self)
        ensures
            graph.wf(),
            graph@.links.forward == Map::<Seq<char>, Set<Seq<char>>>::empty(),
            graph@.links.reverse == Map::<Seq<char>, Set<Seq<char>>>::empty(),
            graph@.index == empty_index(),
            graph@.services == Seq::<(Seq<char>, Seq<char>)>::empty(),
    {
        DependencyGraph {
            deps: PathRelation::new(),
            reverse_deps: PathRelation::new(),
            package_deps: PackageDependencyManager::new(),
            services: StringMap::new(),
        }
    }

    /// Adds the edge from `from` to `to`, on both sides.
    pub fn add_dependency(&mut self, from: String, to: String)
        requires
            old(self).wf(),
        ensures
            final(self).wf(),
            final(self)@.links == add_edge(old(self)@.links, from@, to@),
            final(self)@.index == old(self)@.index,
            final(self)@.services == old(self)@.services,
    {
        // Add direct dependency
        self.deps.add(from.clone(), to.clone());
        // Add reverse dependency
        self.reverse_deps.add(to, from);
        proof {
            let before = old(self)@.links;
            let after = LinksView { forward: self.deps@, reverse: self.reverse_deps@ };
            assert forall|a: Seq<char>, b: Seq<char>| #[trigger]
                relates(after.forward, a, b) <==> relates(after.reverse, b, a) by {
                assert(relates(before.forward, a, b) <==> relates(before.reverse, b, a));
            }
        }
    }

    /// The files that a change of `changed_file` affects.
    pub fn get_affected_files(&self, changed_file: &str) -> (affected: PathSet)
        requires
            self.wf(),
        ensures
            affected.wf(),
            affected@ == affected_files(self@, changed_file@),
            affected@.contains(changed_file@),
    {
        let mut affected = PathSet::new();
        // Check if it's a dependency file
        if self.package_deps.is_dependency_file(changed_file) {
            let users = self.package_deps.get_affected_by_dependency_change(changed_file);
            affected.extend(&users);
        }
        // Get regular file dependencies
        let dependents = self.collect_affected_files(changed_file);
        affected.extend(&dependents);
        proof {
            lemma_reaches_itself(self@.links.reverse, changed_file@);
        }
        affected
    }

    /// `file` and every file that depends on it, directly or through other
    /// files.
    pub fn collect_affected_files(&self, file: &str) -> (found: PathSet)
        requires
            self.wf(),
        ensures
            found.wf(),
            found@ == reachable_from(self@.links.reverse, file@),
    {
        let ghost reverse = self.reverse_deps@;
        let ghost start = file@;
        let ghost universe = self.reverse_deps.members().insert(start);
        let mut found = PathSet::new();
        found.insert(file.to_owned());
        let mut stack: Vec<String> = Vec::new();
        stack.push(file.to_owned());
        proof {
            self.reverse_deps.lemma_members();
            lemma_reaches_itself(reverse, start);
            assert(views(stack@)[0] == start);
        }
        while stack.len() > 0
            invariant
                self.wf(),
                reverse == self.reverse_deps@,
                universe.finite(),
                forall|k: Seq<char>, m: Seq<char>| #[trigger]
                    relates(reverse, k, m) ==> universe.contains(m),
                found.wf(),
                found@.contains(start),
                found@.subset_of(universe),
                found.order().len() <= universe.len(),
                forall|f: Seq<char>| found@.contains(f) ==> reaches(reverse, start, f),
                forall|i: int| 0 <= i < stack.len() ==> found@.contains(#[trigger] stack@[i]@),
                forall|f: Seq<char>, d: Seq<char>|
                    found@.contains(f) && #[trigger] relates(reverse, f, d) ==> found@.contains(d)
                        || views(stack@).contains(f),
            decreases universe.len() - found.order().len(), stack.len(),
        {
            let ghost stack_before = views(stack@);
            let node = stack.pop().unwrap();
            let ghost rest = views(stack@);
            let ghost found_before = found.order().len();
            proof {
                assert forall|f: Seq<char>| stack_before.contains(f) implies rest.contains(f) || f
                    == node@ by {
                    let k = stack_before.index_of(f);
                    if k < rest.len() {
                        assert(rest[k] == f);
                    }
                }
            }
            match self.reverse_deps.get(node.as_str()) {
                Some(dependents) => {
                    let items = dependents.items();
                    proof {
                        dependents.lemma_order();
                    }
                    let mut j: usize = 0;
                    while j < items.len()
                        invariant
                            j <= items.len(),
                            views(items@) == dependents.order(),
                            dependents.order().to_set() == reverse[node@],
                            reverse.contains_key(node@),
                            universe.finite(),
                            forall|k: Seq<char>, m: Seq<char>| #[trigger]
                                relates(reverse, k, m) ==> universe.contains(m),
                            found.wf(),
                            found@.contains(start),
                            found@.contains(node@),
                            found@.subset_of(universe),
                            found.order().len() <= universe.len(),
                            forall|f: Seq<char>| found@.contains(f) ==> reaches(reverse, start, f),
                            forall|i: int|
                                0 <= i < stack.len() ==> found@.contains(#[trigger] stack@[i]@),
                            forall|f: Seq<char>, d: Seq<char>|
                                found@.contains(f) && #[trigger] relates(reverse, f, d)
                                    ==> found@.contains(d) || views(stack@).contains(f) || f
                                    == node@,
                            forall|k: int|
                                0 <= k < j ==> found@.contains(#[trigger] views(items@)[k]),
                            stack.len() - rest.len() == found.order().len() - found_before,
                            found.order().len() >= found_before,
                        decreases items.len() - j,
                    {
                        let ghost dependent = items@[j as int]@;
                        let ghost stack_views = views(stack@);
                        proof {
                            assert(views(items@)[j as int] == dependent);
                            assert(relates(reverse, node@, dependent));
                            lemma_reaches_step(reverse, start, node@, dependent);
                        }
                        if found.insert(items[j].clone()) {
                            stack.push(items[j].clone());
                            proof {
                                assert forall|f: Seq<char>| stack_views.contains(f) implies views(
                                    stack@,
                                ).contains(f) by {
                                    let k = stack_views.index_of(f);
                                    assert(views(stack@)[k] == f);
                                }
                                assert(views(stack@)[stack_views.len() as int] == dependent);
                                found.lemma_order();
                                vstd::set_lib::lemma_len_subset(found@, universe);
                            }
                        }
                        j += 1;
                    }
                },
                None => {},
            }
        }
        proof {
            assert forall|f: Seq<char>| reaches(reverse, start, f) implies found@.contains(f) by {
                let chain = choose|chain: Seq<Seq<char>>|
                    #[trigger] is_chain(reverse, chain) && chain.first() == start && chain.last()
                        == f;
                lemma_closed_holds_chain(reverse, found@, chain, chain.len() - 1);
            }
        }
        found
    }

    /// The services that own an affected file, each once, by name and root.
    pub fn get_affected_services(&self, changed_file: &str) -> (affected: Vec<(String, String)>)
        requires
            self.wf(),
        ensures
            pair_views(affected@).no_duplicates(),
            pair_views(affected@).to_set() == affected_services(self@, changed_file@),
            forall|i: int, j: int|
                0 <= i < j < affected.len() ==> affected@[i].0@ != affected@[j].0@,
    {
        let changed = self.get_affected_files(changed_file);
        let files = changed.items();
        let ghost services = self@.services;
        let ghost order = changed.order();
        let mut affected: Vec<(String, String)> = Vec::new();
        proof {
            changed.lemma_order();
            self.lemma_service_names();
        }
        let mut i: usize = 0;
        while i < files.len()
            invariant
                i <= files.len(),
                self.wf(),
                services == self@.services,
                order == views(files@),
                forall|a: int, b: int|
                    0 <= a < b < services.len() ==> services[a].0 != services[b].0,
                forall|q: int|
                    0 <= q < affected.len() ==> services.contains(
                        #[trigger] pair_views(affected@)[q],
                    ),
                forall|a: int, b: int|
                    0 <= a < b < affected.len() ==> affected@[a].0@ != affected@[b].0@,
                forall|s: (Seq<char>, Seq<char>)|
                    pair_views(affected@).contains(s) <==> exists|k: int|
                        0 <= k < i && #[trigger] owner(services, order[k]) == Some(s),
            decreases files.len() - i,
        {
            let ghost before = pair_views(affected@);
            proof {
                assert(order[i as int] == files@[i as int]@);
            }
            match self.owner_of(files[i].as_str()) {
                Some(k) => {
                    let name = self.services.key_at(k).clone();
                    let root = self.services.value_at(k).root_path.clone();
                    let ghost service = (name@, root@);
                    if !has_name(&affected, &name) {
                        affected.push((name, root));
                        proof {
                            let after = pair_views(affected@);
                            assert(after == before.push(service));
                            assert forall|s: (Seq<char>, Seq<char>)|
                                after.contains(s) <==> exists|k: int|
                                    0 <= k < i + 1 && #[trigger] owner(services, order[k]) == Some(
                                        s,
                                    ) by {
                                if after.contains(s) {
                                    let q = after.index_of(s);
                                    if q < before.len() {
                                        assert(before.contains(s));
                                    }
                                }
                                if exists|k: int|
                                    0 <= k < i + 1 && #[trigger] owner(services, order[k]) == Some(
                                        s,
                                    ) {
                                    let k = choose|k: int|
                                        0 <= k < i + 1 && #[trigger] owner(services, order[k])
                                            == Some(s);
                                    if k < i {
                                        assert(before.contains(s));
                                        let q = before.index_of(s);
                                        assert(after[q] == s);
                                    } else {
                                        assert(after[before.len() as int] == s);
                                    }
                                }
                            }
                        }
                    } else {
                        proof {
                            let q = choose|q: int|
                                0 <= q < affected.len() && (#[trigger] affected@[q]).0@ == name@;
                            assert(services.contains(before[q]));
                        }
                    }
                },
                None => {},
            }
            i += 1;
        }
        affected
    }

    /// The position, in the registry, of the service that owns `file`.
    fn owner_of(&self, file: &str) -> (r: Option<usize>)
        requires
            self.wf(),
        ensures
            match r {
                Some(k) => k < self@.services.len() && owner(self@.services, file@) == Some(
                    self@.services[k as int],
                ),
                None => owner(self@.services, file@) is None,
            },
    {
        let ghost services = self@.services;
        let mut k: usize = 0;
        proof {
            assert(services.skip(0) == services);
        }
        let n = self.services.len();
        while k < n
            invariant
                k <= n,
                n == services.len(),
                self.wf(),
                services == self@.services,
                owner(services, file@) == owner(services.skip(k as int), file@),
            decreases n - k,
        {
            proof {
                assert(services.skip(k as int).drop_first() == services.skip(k + 1));
            }
            if path_is_under(file, self.services.value_at(k).root_path.as_str()) {
                return Some(k);
            }
            k += 1;
        }
        None
    }

    /// Builds the graph anew from the files of a directory listing and the
    /// given registry of services. Nothing of what the graph held before
    /// stays: no edge, no index entry and no service.
    pub fn build_from_directory(
        &mut self,
        dir: &str,
        files: &Vec<ScannedFile>,
        services: StringMap<DetectedService>,
    )
        requires
            services.wf(),
        ensures
            final(self).wf(),
            final(self)@ == scanned(fresh_graph(service_roots(services)), dir@, files@),
    {
        *self = DependencyGraph::new();
        self.set_services(services);
        self.scan_listing(dir, files);
    }

    /// Keeps the given registry of services in place of the one it had.
    pub fn set_services(&mut self, services: StringMap<DetectedService>)
        requires
            old(self).wf(),
            services.wf(),
        ensures
            final(self).wf(),
            final(self)@.links == old(self)@.links,
            final(self)@.index == old(self)@.index,
            final(self)@.services == service_roots(services),
    {
        self.services = services;
    }

    /// Takes in the files of a further directory listing: the indices visit
    /// them, and each import line of a Python source file whose target is in
    /// the listing gives an edge. What the graph held before stays.
    pub fn scan_listing(&mut self, dir: &str, files: &Vec<ScannedFile>)
        requires
            old(self).wf(),
        ensures
            final(self).wf(),
            final(self)@ == scanned(old(self)@, dir@, files@),
    {
        self.package_deps.scan_directory(files);
        let ghost index = self@.index;
        let ghost roots = self@.services;
        let mut i: usize = 0;
        while i < files.len()
            invariant
                i <= files.len(),
                self.wf(),
                self@.index == index,
                self@.services == roots,
                self@.links == with_sources(old(self)@.links, dir@, files@, i as int),
            decreases files.len() - i,
        {
            let file = &files[i];
            match &file.content {
                Some(content) => {
                    if is_python_file(file.path.as_str()) {
                        self.add_import_edges(dir, &file.path, content.as_str(), files);
                    }
                },
                None => {},
            }
            i += 1;
        }
    }

    /// Adds an edge from the source file at `path` for each import line of
    /// its text whose target is in the listing.
    pub fn add_import_edges(
        &mut self,
        dir: &str,
        path: &String,
        content: &str,
        files: &Vec<ScannedFile>,
    )
        requires
            old(self).wf(),
        ensures
            final(self).wf(),
            final(self)@.index == old(self)@.index,
            final(self)@.services == old(self)@.services,
            final(self)@.links == with_lines(
                old(self)@.links,
                dir@,
                path@,
                lines(content@),
                files@,
            ),
    {
        let chars = to_chars(content);
        let all = lines_of(&chars);
        let mut k: usize = 0;
        while k < all.len()
            invariant
                k <= all.len(),
                self.wf(),
                self@.index == old(self)@.index,
                self@.services == old(self)@.services,
                self@.links == with_lines(
                    old(self)@.links,
                    dir@,
                    path@,
                    views(all@).take(k as int),
                    files@,
                ),
            decreases all.len() - k,
        {
            proof {
                assert(views(all@).take(k + 1).drop_last() == views(all@).take(k as int));
            }
            match target_of(dir, &all[k]) {
                Some(target) => match find_in_listing(files, &target) {
                    Some(found) => {
                        self.add_dependency(path.clone(), found);
                    },
                    None => {},
                },
                None => {},
            }
            k += 1;
        }
        proof {
            assert(views(all@).take(all.len() as int) == views(all@));
        }
    }
}

} // verus!
