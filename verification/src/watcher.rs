//! What a watcher decides when files change: which changes of one batch
//! count, and whether a change comes too soon after the last run of the
//! command. Times are milliseconds on a clock that never goes back.
use crate::collections::{first_occurrences, StringMap};
use crate::dependency::{
    affected_services, fresh_graph, pair_views, scanned, service_roots, DependencyGraph,
    GraphView,
};
use crate::package_deps::models::DirectoryListing;
use crate::service::models::DetectedService;
use crate::text::views;
use vstd::prelude::*;

verus! {

/// The time that must lie between two runs of the command.
pub const DEBOUNCE_MILLIS: u64 = 100;

/// The graph after the listings were taken in, in order.
pub open spec fn scanned_all(graph: GraphView, listings: Seq<DirectoryListing>) -> GraphView
    decreases listings.len(),
{
    if listings.len() == 0 {
        graph
    } else {
        scanned(
            scanned_all(graph, listings.drop_last()),
            listings.last().dir@,
            listings.last().files@,
        )
    }
}

/// The time from `last_run` to `now`, and none where `now` is the earlier.
pub open spec fn elapsed(last_run: u64, now: u64) -> int {
    if now >= last_run {
        now - last_run
    } else {
        0
    }
}

/// Whether a change at `now` comes too soon after a run at `last_run`.
pub open spec fn too_soon(last_run: u64, debounce: u64, now: u64) -> bool {
    elapsed(last_run, now) < debounce
}

/// What a watcher knows between two changes.
pub struct WatcherView {
    pub graph: GraphView,
    pub last_run: u64,
    pub debounce: u64,
    pub last_changed_file: Option<Seq<char>>,
}

/// The state of a watcher: the dependency graph of the watched directories,
/// when the command last ran, and for which file.
#[derive(Debug)]
pub struct FileWatcher {
    dependency_graph: DependencyGraph,
    last_run: u64,
    debounce_duration: u64,
    last_changed_file: Option<String>,
}

impl View for FileWatcher {
    type V = WatcherView;

    closed spec fn view(&self) -> WatcherView {
        WatcherView {
            graph: self.dependency_graph@,
            last_run: self.last_run,
            debounce: self.debounce_duration,
            last_changed_file: match self.last_changed_file {
                Some(path) => Some(path@),
                None => None,
            },
        }
    }
}

/// The changed paths of one batch, each once, in the order in which each
/// first occurs.
pub fn unique_paths(paths: &Vec<String>) -> (unique: Vec<String>)
    ensures
        views(unique@) == first_occurrences(views(paths@)),
{
    let mut unique: Vec<String> = Vec::new();
    let mut i: usize = 0;
    while i < paths.len()
        invariant
            i <= paths.len(),
            views(unique@) == first_occurrences(views(paths@).take(i as int)),
        decreases paths.len() - i,
    {
        proof {
            assert(views(paths@).take(i + 1).drop_last() == views(paths@).take(i as int));
        }
        let mut seen = false;
        let mut k: usize = 0;
        while k < unique.len()
            invariant
                k <= unique.len(),
                seen == exists|j: int| 0 <= j < k && views(unique@)[j] == paths@[i as int]@,
                i < paths.len(),
            decreases unique.len() - k,
        {
            if unique[k] == paths[i] {
                proof {
                    assert(views(unique@)[k as int] == paths@[i as int]@);
                }
                seen = true;
            }
            k += 1;
        }
        if !seen {
            let path = paths[i].clone();
            unique.push(path);
        }
        i += 1;
    }
    proof {
        assert(views(paths@).take(paths.len() as int) == views(paths@));
    }
    unique
}

impl FileWatcher {
    /// The graph of the watcher is a graph.
    pub closed spec fn wf(&self) -> bool {
        self.dependency_graph.wf()
    }

    /// A watcher over the given directories, made at the time `now`: its
    /// graph holds the services and what the listings give, and the command
    /// counts as run at `now`.
    pub fn new(
        listings: &Vec<DirectoryListing>,
        services: StringMap<DetectedService>,
        now: u64,
    ) -> (watcher: Self)
        requires
            services.wf(),
        ensures
            watcher.wf(),
            watcher@.graph == scanned_all(fresh_graph(service_roots(services)), listings@),
            watcher@.last_run == now,
            watcher@.debounce == DEBOUNCE_MILLIS,
            watcher@.last_changed_file is None,
    {
        let mut dependency_graph = DependencyGraph::new();
        dependency_graph.set_services(services);
        let ghost fresh = dependency_graph@;
        let mut i: usize = 0;
        while i < listings.len()
            invariant
                i <= listings.len(),
                dependency_graph.wf(),
                dependency_graph@ == scanned_all(fresh, listings@.take(i as int)),
            decreases listings.len() - i,
        {
            proof {
                assert(listings@.take(i + 1).drop_last() == listings@.take(i as int));
            }
            dependency_graph.scan_listing(listings[i].dir.as_str(), &listings[i].files);
            i += 1;
        }
        proof {
            assert(listings@.take(listings.len() as int) == listings@);
        }
        FileWatcher {
            dependency_graph,
            last_run: now,
            debounce_duration: DEBOUNCE_MILLIS,
            last_changed_file: None,
        }
    }

    /// The services that the change for which the command last ran affects;
    /// none before the first run.
    pub fn get_affected_services(&self) -> (affected: Vec<(String, String)>)
        requires
            self.wf(),
        ensures
            pair_views(affected@).no_duplicates(),
            pair_views(affected@).to_set() == match self@.last_changed_file {
                Some(path) => affected_services(self@.graph, path),
                None => Set::empty(),
            },
    {
        match &self.last_changed_file {
            Some(path) => self.dependency_graph.get_affected_services(path.as_str()),
            None => {
                Vec::new()
            },
        }
    }

    /// Decides at the time `now` whether the command runs for a change of
    /// `changed_file`. It does not where less than the debounce time has
    /// passed since the last run; the watcher then stays as it is. Where it
    /// does, the watcher takes `now` as the time of the last run and
    /// `changed_file` as the file it ran for.
    pub fn run_command(&mut self, now: u64, changed_file: &str) -> (run: bool)
        ensures
            run == !too_soon(old(self)@.last_run, old(self)@.debounce, now),
            final(self)@.graph == old(self)@.graph,
            final(self)@.debounce == old(self)@.debounce,
            final(self).wf() == old(self).wf(),
            run ==> final(self)@.last_run == now && final(self)@.last_changed_file == Some(
                changed_file@,
            ),
            !run ==> final(self)@ == old(self)@,
    {
        let since: u64 = if now >= self.last_run {
            now - self.last_run
        } else {
            0
        };
        if since < self.debounce_duration {
            return false;
        }
        self.last_run = now;
        self.last_changed_file = Some(changed_file.to_owned());
        true
    }
}

} // verus!
