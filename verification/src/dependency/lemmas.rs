//! What holds of every graph and of every change-impact query.
use crate::collections::{lemma_relation_add, relates};
use crate::dependency::{
    add_edge, affected_files, import_target, is_chain, lemma_reaches_itself, listed, listed_at,
    mutual, reachable_from, reaches, with_lines, with_sources, GraphView, LinksView,
};
use crate::package_deps::models::ScannedFile;
use crate::package_deps::is_manifest_name;
use crate::paths::same_place;
use vstd::prelude::*;

verus! {

/// An added edge stands on both sides: its target under its source, its
/// source under its target, whether or not the two are the same file. The
/// source then depends on the target, and the two sides still hold the same
/// edges.
pub proof fn lemma_added_edge_stands_on_both_sides(
    links: LinksView,
    from: Seq<char>,
    to: Seq<char>,
)
    requires
        mutual(links),
    ensures
        relates(add_edge(links, from, to).forward, from, to),
        relates(add_edge(links, from, to).reverse, to, from),
        reaches(add_edge(links, from, to).reverse, to, from),
        mutual(add_edge(links, from, to)),
{
    let after = add_edge(links, from, to);
    lemma_relation_add(links.forward, from, to);
    let chain = seq![to, from];
    assert(is_chain(after.reverse, chain));
}

/// Adding the edges of some lines keeps the two sides alike.
pub proof fn lemma_lines_keep_sides_alike(
    links: LinksView,
    dir: Seq<char>,
    from: Seq<char>,
    lines: Seq<Seq<char>>,
    files: Seq<ScannedFile>,
)
    requires
        mutual(links),
    ensures
        mutual(with_lines(links, dir, from, lines, files)),
    decreases lines.len(),
{
    if lines.len() > 0 {
        let before = with_lines(links, dir, from, lines.drop_last(), files);
        lemma_lines_keep_sides_alike(links, dir, from, lines.drop_last(), files);
        match import_target(dir, lines.last()) {
            Some(target) => match listed_at(files, target) {
                Some(found) => {
                    lemma_added_edge_stands_on_both_sides(before, from, found);
                },
                None => {},
            },
            None => {},
        }
    }
}

/// Adding the edges of a listing keeps the two sides alike.
pub proof fn lemma_sources_keep_sides_alike(
    links: LinksView,
    dir: Seq<char>,
    files: Seq<ScannedFile>,
    n: int,
)
    requires
        mutual(links),
    ensures
        mutual(with_sources(links, dir, files, n)),
    decreases n,
{
    if 0 < n <= files.len() {
        lemma_sources_keep_sides_alike(links, dir, files, n - 1);
        let before = with_sources(links, dir, files, n - 1);
        let file = files[n - 1];
        match file.content {
            Some(text) => {
                lemma_lines_keep_sides_alike(
                    before,
                    dir,
                    file.path@,
                    crate::text::lines(text@),
                    files,
                );
            },
            None => {},
        }
    }
}

/// The path under which the listing holds a file is a path of the listing
/// and names the place that was asked for.
pub proof fn lemma_listed_at(files: Seq<ScannedFile>, path: Seq<char>)
    ensures
        match listed_at(files, path) {
            Some(found) => listed(files, found) && same_place(found, path),
            None => forall|i: int|
                0 <= i < files.len() ==> !same_place((#[trigger] files[i]).path@, path),
        },
    decreases files.len(),
{
    if files.len() > 0 {
        if same_place(files[0].path@, path) {
            assert(files[0].path@ == files[0].path@);
        } else {
            let rest = files.drop_first();
            lemma_listed_at(rest, path);
            match listed_at(rest, path) {
                Some(found) => {
                    let i = choose|i: int| 0 <= i < rest.len() && (#[trigger] rest[i]).path@ == found;
                    assert(files[i + 1].path@ == found);
                },
                None => {
                    assert forall|i: int| 0 <= i < files.len() implies !same_place(
                        (#[trigger] files[i]).path@,
                        path,
                    ) by {
                        if i > 0 {
                            assert(rest[i - 1] == files[i]);
                        }
                    }
                },
            }
        }
    }
}

/// The edges that some lines add all start at the file of the lines and end
/// at a file of the listing: none points to a path that the listing does not
/// hold.
pub proof fn lemma_lines_add_listed_targets(
    links: LinksView,
    dir: Seq<char>,
    from: Seq<char>,
    lines: Seq<Seq<char>>,
    files: Seq<ScannedFile>,
)
    ensures
        forall|a: Seq<char>, b: Seq<char>| #[trigger]
            relates(with_lines(links, dir, from, lines, files).forward, a, b) ==> relates(
                links.forward,
                a,
                b,
            ) || (a == from && listed(files, b)),
    decreases lines.len(),
{
    if lines.len() > 0 {
        let before = with_lines(links, dir, from, lines.drop_last(), files);
        lemma_lines_add_listed_targets(links, dir, from, lines.drop_last(), files);
        match import_target(dir, lines.last()) {
            Some(target) => {
                lemma_listed_at(files, target);
                match listed_at(files, target) {
                    Some(found) => {
                        lemma_relation_add(before.forward, from, found);
                    },
                    None => {},
                }
            },
            None => {},
        }
    }
}

/// The edges that a listing adds all end at a file of the listing: none
/// points to a path that the listing does not hold.
pub proof fn lemma_sources_add_listed_targets(
    links: LinksView,
    dir: Seq<char>,
    files: Seq<ScannedFile>,
    n: int,
)
    ensures
        forall|a: Seq<char>, b: Seq<char>| #[trigger]
            relates(with_sources(links, dir, files, n).forward, a, b) ==> relates(
                links.forward,
                a,
                b,
            ) || listed(files, b),
    decreases n,
{
    if 0 < n <= files.len() {
        lemma_sources_add_listed_targets(links, dir, files, n - 1);
        let before = with_sources(links, dir, files, n - 1);
        let file = files[n - 1];
        match file.content {
            Some(text) => {
                lemma_lines_add_listed_targets(
                    before,
                    dir,
                    file.path@,
                    crate::text::lines(text@),
                    files,
                );
            },
            None => {},
        }
    }
}

/// A changed file is among the files that its change affects, whether or not
/// the graph knows it.
pub proof fn lemma_changed_file_is_affected(graph: GraphView, changed: Seq<char>)
    ensures
        affected_files(graph, changed).contains(changed),
        reachable_from(graph.links.reverse, changed).contains(changed),
{
    lemma_reaches_itself(graph.links.reverse, changed);
}

/// A change of a manifest affects every file that imports a package that the
/// manifest declares.
pub proof fn lemma_manifest_change_reaches_importers(
    graph: GraphView,
    manifest: Seq<char>,
    i: int,
    file: Seq<char>,
)
    requires
        is_manifest_name(manifest),
        graph.index.manifests.contains_key(manifest),
        0 <= i < graph.index.manifests[manifest].dependencies.len(),
        relates(graph.index.usages, graph.index.manifests[manifest].dependencies[i].name, file),
    ensures
        affected_files(graph, manifest).contains(file),
{
}

/// A change of a manifest goes one step from its packages to their
/// importers and no further: a file that imports none of the packages that
/// the manifest declares, and that does not depend on the manifest itself,
/// is not affected, also where it depends on a file that is.
pub proof fn lemma_manifest_change_stops_at_importers(
    graph: GraphView,
    manifest: Seq<char>,
    file: Seq<char>,
)
    requires
        graph.index.manifests.contains_key(manifest) ==> forall|i: int|
            0 <= i < graph.index.manifests[manifest].dependencies.len() ==> !#[trigger] relates(
                graph.index.usages,
                graph.index.manifests[manifest].dependencies[i].name,
                file,
            ),
        !reaches(graph.links.reverse, manifest, file),
    ensures
        !affected_files(graph, manifest).contains(file),
{
}

} // verus!
