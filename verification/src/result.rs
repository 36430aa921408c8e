//! What a benchmark leaves on disk, and the report that compares it with the run before.
use crate::benchmark::BenchmarkMetrics;
use crate::duration::{debug_text, duration_debug};
use vstd::prelude::*;
use vstd::string::*;

verus! {

/// The outcome of a benchmark.
#[derive(Clone, Copy, Debug, PartialEq, Eq, Structural)]
pub struct BenchmarkResult {
    pub metrics: BenchmarkMetrics,
}

/// The files of a storage directory.
#[derive(Clone, Copy, Debug, PartialEq, Eq, Structural)]
pub enum StorageFile {
    /// The result of the latest benchmark.
    Latest,
    /// The result of the one before.
    Previous,
}

/// The name of a file in the storage directory.
pub open spec fn storage_file_name(file: StorageFile) -> Seq<char> {
    match file {
        StorageFile::Latest => "latest_benchmark.json"@,
        StorageFile::Previous => "previous_benchmark.json"@,
    }
}

impl StorageFile {
    /// The name of the file in the storage directory.
    pub fn file_name(&self) -> (name: &'static str)
        ensures
            name@ == storage_file_name(*self),
            name@ == (match *self {
                StorageFile::Latest => "latest_benchmark.json"@,
                StorageFile::Previous => "previous_benchmark.json"@,
            }),
    {
        match self {
            StorageFile::Latest => "latest_benchmark.json",
            StorageFile::Previous => "previous_benchmark.json",
        }
    }
}

/// Something to do to the files of a storage directory.
#[derive(Debug, PartialEq, Eq)]
pub enum StorageAction {
    /// Replace `to` with a copy of `from`.
    Copy { from: StorageFile, to: StorageFile },
    /// Replace `file` with `contents`.
    Write { file: StorageFile, contents: String },
}

/// The values of a [`StorageAction`].
#[verifier::ext_equal]
pub enum StorageActionView {
    Copy { from: StorageFile, to: StorageFile },
    Write { file: StorageFile, contents: Seq<char> },
}

impl View for StorageAction {
    type V = StorageActionView;

    open spec fn view(&self) -> StorageActionView {
        match self {
            StorageAction::Copy { from, to } => StorageActionView::Copy { from: *from, to: *to },
            StorageAction::Write { file, contents } => StorageActionView::Write {
                file: *file,
                contents: contents@,
            },
        }
    }
}

/// The values of a list of actions.
pub open spec fn action_views(actions: Seq<StorageAction>) -> Seq<StorageActionView> {
    actions.map_values(|a: StorageAction| a@)
}

/// How a result is saved: what was the latest becomes the previous one, then the new one is
/// written.
pub open spec fn save_plan(latest_exists: bool, json: Seq<char>) -> Seq<StorageActionView> {
    let write = StorageActionView::Write { file: StorageFile::Latest, contents: json };
    if latest_exists {
        seq![
            StorageActionView::Copy { from: StorageFile::Latest, to: StorageFile::Previous },
            write,
        ]
    } else {
        seq![write]
    }
}

/// The contents of the files that exist.
pub type Store = Map<StorageFile, Seq<char>>;

/// The files after an action.
pub open spec fn perform(store: Store, action: StorageActionView) -> Store {
    match action {
        StorageActionView::Copy { from, to } => store.insert(to, store[from]),
        StorageActionView::Write { file, contents } => store.insert(file, contents),
    }
}

/// The files after a list of actions.
pub open spec fn perform_all(store: Store, actions: Seq<StorageActionView>) -> Store
    decreases actions.len(),
{
    if actions.len() == 0 {
        store
    } else {
        perform(perform_all(store, actions.drop_last()), actions.last())
    }
}

/// The files after a result was saved.
pub open spec fn saved(store: Store, json: Seq<char>) -> Store {
    perform_all(store, save_plan(store.contains_key(StorageFile::Latest), json))
}

/// How much a figure changed from one benchmark to the next.
#[derive(Debug, PartialEq, Eq)]
pub struct Change {
    /// The size of the change in percent, as text.
    pub percent: String,
    /// Whether the figure did not go down.
    pub increase: bool,
}

/// How the figures changed from one benchmark to the next.
#[derive(Debug, PartialEq, Eq)]
pub struct Changes {
    pub tps: Change,
    pub latency: Change,
}

/// The word for the sign of a change.
pub open spec fn change_word(increase: bool) -> Seq<char> {
    if increase {
        "increase"@
    } else {
        "decrease"@
    }
}

/// One line of the report: a change in percent, and its sign in words.
pub open spec fn change_text(change: Change) -> Seq<char> {
    change.percent@ + "% "@ + change_word(change.increase) + "\n"@
}

/// The part of the report that compares with the benchmark before.
pub open spec fn comparison_text(changes: Option<Changes>) -> Seq<char> {
    match changes {
        Some(c) => "\nChanges:\n"@ + ("TPS: "@ + change_text(c.tps)) + ("Latency: "@ + change_text(
            c.latency,
        )),
        None => "\nNo previous benchmark data available for comparison.\n"@,
    }
}

/// The part of the report on the benchmark itself.
pub open spec fn figures_text(
    tps: Seq<char>,
    avg_latency: Seq<char>,
    total_duration: Seq<char>,
) -> Seq<char> {
    "\nBenchmark Report:\n"@ + "========================\n\n"@ + ("TPS: "@ + tps + "\n"@) + (
    "Avg Latency: "@ + avg_latency + "\n"@) + ("Total Duration: "@ + total_duration + "\n"@)
}

/// Appends a label, a text and the end of the line.
fn push_line(report: &mut String, label: &str, text: &str)
    ensures
        final(report)@ == old(report)@ + (label@ + text@ + "\n"@),
{
    report.append(label);
    report.append(text);
    report.append("\n");
    assert(report@ =~= old(report)@ + (label@ + text@ + "\n"@));
}

/// Appends a line on a change.
fn push_change(report: &mut String, label: &str, change: &Change)
    ensures
        final(report)@ == old(report)@ + (label@ + change_text(*change)),
{
    report.append(label);
    report.append(change.percent.as_str());
    report.append("% ");
    report.append(
        if change.increase {
            "increase"
        } else {
            "decrease"
        },
    );
    report.append("\n");
    assert(report@ =~= old(report)@ + (label@ + change_text(*change)));
}

/// The report on a benchmark whose figures are given as text.
pub fn render_report(
    tps: &str,
    avg_latency: &str,
    total_duration: &str,
    changes: &Option<Changes>,
) -> (report: String)
    ensures
        report@ == figures_text(tps@, avg_latency@, total_duration@) + comparison_text(*changes),
{
    let mut report: String = String::new();
    report.append("\nBenchmark Report:\n");
    report.append("========================\n\n");
    push_line(&mut report, "TPS: ", tps);
    push_line(&mut report, "Avg Latency: ", avg_latency);
    push_line(&mut report, "Total Duration: ", total_duration);
    assert(report@ =~= figures_text(tps@, avg_latency@, total_duration@));
    let ghost figures = report@;
    match changes {
        Some(c) => {
            report.append("\nChanges:\n");
            push_change(&mut report, "TPS: ", &c.tps);
            push_change(&mut report, "Latency: ", &c.latency);
        },
        None => {
            report.append("\nNo previous benchmark data available for comparison.\n");
        },
    }
    assert(report@ =~= figures + comparison_text(*changes));
    report
}

/// `std::path::PathBuf`, a path of the file system. It is only carried through: nothing is claimed
/// of what it holds.
#[verifier::external_type_specification]
#[verifier::external_body]
pub struct ExPathBuf(std::path::PathBuf);

/// The directory that results are kept in.
#[derive(Debug, PartialEq, Eq)]
pub struct ResultsStorage {
    storage_path: std::path::PathBuf,
}

impl ResultsStorage {
    /// Where the directory is.
    pub closed spec fn path(&self) -> std::path::PathBuf {
        self.storage_path
    }

    /// Keeps results in the directory at `path`.
    pub fn new(path: std::path::PathBuf) -> (storage: ResultsStorage)
        ensures
            storage.path() == path,
    {
        ResultsStorage { storage_path: path }
    }

    /// Where the directory is.
    pub fn storage_path(&self) -> (path: &std::path::PathBuf)
        ensures
            *path == self.path(),
    {
        &self.storage_path
    }

    /// What to do to the files, in this order, to save a result that `json` describes.
    /// `latest_exists` tells whether there is a latest result.
    pub fn save_result(&self, latest_exists: bool, json: String) -> (actions: Vec<StorageAction>)
        ensures
            action_views(actions@) == save_plan(latest_exists, json@),
            actions@.len() == (if latest_exists {
                2nat
            } else {
                1nat
            }),
            latest_exists ==> actions@[0] == (StorageAction::Copy {
                from: StorageFile::Latest,
                to: StorageFile::Previous,
            }),
            actions@.last() matches StorageAction::Write { file, contents } && file
                == StorageFile::Latest && contents@ == json@,
    {
        let mut actions: Vec<StorageAction> = Vec::new();
        let ghost text = json@;
        // Save current as previous before writing new result
        if latest_exists {
            actions.push(
                StorageAction::Copy { from: StorageFile::Latest, to: StorageFile::Previous },
            );
        }
        actions.push(StorageAction::Write { file: StorageFile::Latest, contents: json });
        assert(action_views(actions@) =~= save_plan(latest_exists, text));
        actions
    }

    /// The file to read the previous result from, if there is one.
    pub fn load_previous(&self, previous_exists: bool) -> (file: Option<StorageFile>)
        ensures
            file == (if previous_exists {
                Some(StorageFile::Previous)
            } else {
                None
            }),
    {
        if !previous_exists {
            return None;
        }
        Some(StorageFile::Previous)
    }

    /// The report on `current`, which sent `tps` transactions a second. `changes` holds what
    /// changed since the previous result, if there is one.
    pub fn generate_comparison_report(
        &self,
        current: &BenchmarkResult,
        tps: &str,
        changes: &Option<Changes>,
    ) -> (report: String)
        ensures
            report@ == figures_text(
                tps@,
                debug_text(current.metrics.avg_latency@),
                debug_text(current.metrics.total_duration@),
            ) + comparison_text(*changes),
    {
        let avg_latency: String = duration_debug(&current.metrics.avg_latency);
        let total_duration: String = duration_debug(&current.metrics.total_duration);
        render_report(tps, avg_latency.as_str(), total_duration.as_str(), changes)
    }
}

/// Saving makes the new result the latest one, and what was the latest before the previous one.
/// Where there was none, the previous one stays as it was.
pub proof fn law_save_shifts_results(store: Store, json: Seq<char>)
    ensures
        saved(store, json).contains_key(StorageFile::Latest),
        saved(store, json)[StorageFile::Latest] == json,
        store.contains_key(StorageFile::Latest) ==> {
            &&& saved(store, json).contains_key(StorageFile::Previous)
            &&& saved(store, json)[StorageFile::Previous] == store[StorageFile::Latest]
        },
        !store.contains_key(StorageFile::Latest) ==> {
            &&& saved(store, json).contains_key(StorageFile::Previous) == store.contains_key(
                StorageFile::Previous,
            )
            &&& saved(store, json)[StorageFile::Previous] == store[StorageFile::Previous]
        },
{
    let latest_exists = store.contains_key(StorageFile::Latest);
    let plan = save_plan(latest_exists, json);
    reveal_with_fuel(perform_all, 3);
    if latest_exists {
        assert(plan.drop_last().drop_last() =~= Seq::empty());
        assert(plan.drop_last().last() == plan[0]);
    } else {
        assert(plan.drop_last() =~= Seq::empty());
    }
}

/// A benchmark is compared with the one before it: after two results were saved, the second is the
/// latest and the first is the previous one, whatever the directory held.
pub proof fn law_previous_is_the_run_before(store: Store, first: Seq<char>, second: Seq<char>)
    ensures
        saved(saved(store, first), second).contains_key(StorageFile::Previous),
        saved(saved(store, first), second)[StorageFile::Previous] == first,
        saved(saved(store, first), second)[StorageFile::Latest] == second,
{
    law_save_shifts_results(store, first);
    law_save_shifts_results(saved(store, first), second);
}

/// The first benchmark in a directory has nothing to be compared with.
pub proof fn law_first_run_has_no_previous(json: Seq<char>)
    ensures
        !saved(Map::empty(), json).contains_key(StorageFile::Previous),
{
    law_save_shifts_results(Map::empty(), json);
}

/// Both files of a directory have names of their own.
pub proof fn law_file_names_differ()
    ensures
        storage_file_name(StorageFile::Latest) != storage_file_name(StorageFile::Previous),
{
    reveal_strlit("latest_benchmark.json");
    reveal_strlit("previous_benchmark.json");
    assert("latest_benchmark.json"@.len() != "previous_benchmark.json"@.len());
}

/// The comparison in full, for each combination of signs. Either line has the percentage of its own
/// figure, and says `increase` exactly where that figure did not go down.
pub proof fn law_comparison_text(c: Changes)
    ensures
        c.tps.increase && c.latency.increase ==> comparison_text(Some(c)) == "\nChanges:\nTPS: "@
            + c.tps.percent@ + "% increase\nLatency: "@ + c.latency.percent@
            + "% increase\n"@,
        c.tps.increase && !c.latency.increase ==> comparison_text(Some(c)) == "\nChanges:\nTPS: "@
            + c.tps.percent@ + "% increase\nLatency: "@ + c.latency.percent@
            + "% decrease\n"@,
        !c.tps.increase && c.latency.increase ==> comparison_text(Some(c)) == "\nChanges:\nTPS: "@
            + c.tps.percent@ + "% decrease\nLatency: "@ + c.latency.percent@
            + "% increase\n"@,
        !c.tps.increase && !c.latency.increase ==> comparison_text(Some(c)) == "\nChanges:\nTPS: "@
            + c.tps.percent@ + "% decrease\nLatency: "@ + c.latency.percent@
            + "% decrease\n"@,
        comparison_text(None) == "\nNo previous benchmark data available for comparison.\n"@,
{
    reveal_strlit("\nChanges:\nTPS: ");
    reveal_strlit("\nChanges:\n");
    reveal_strlit("TPS: ");
    reveal_strlit("Latency: ");
    reveal_strlit("% ");
    reveal_strlit("increase");
    reveal_strlit("decrease");
    reveal_strlit("\n");
    reveal_strlit("% increase\nLatency: ");
    reveal_strlit("% decrease\nLatency: ");
    reveal_strlit("% increase\n");
    reveal_strlit("% decrease\n");
    let tps = c.tps.percent@;
    let latency = c.latency.percent@;
    let text = comparison_text(Some(c));
    if c.tps.increase {
        if c.latency.increase {
            assert(text =~= "\nChanges:\nTPS: "@ + tps + "% increase\nLatency: "@ + latency
                + "% increase\n"@);
        } else {
            assert(text =~= "\nChanges:\nTPS: "@ + tps + "% increase\nLatency: "@ + latency
                + "% decrease\n"@);
        }
    } else {
        if c.latency.increase {
            assert(text =~= "\nChanges:\nTPS: "@ + tps + "% decrease\nLatency: "@ + latency
                + "% increase\n"@);
        } else {
            assert(text =~= "\nChanges:\nTPS: "@ + tps + "% decrease\nLatency: "@ + latency
                + "% decrease\n"@);
        }
    }
}

/// The figures in full: the throughput, the average latency and the total duration, each on a line
/// of its own.
pub proof fn law_figures_text(tps: Seq<char>, avg_latency: Seq<char>, total_duration: Seq<char>)
    ensures
        figures_text(tps, avg_latency, total_duration)
            == "\nBenchmark Report:\n========================\n\nTPS: "@ + tps
            + "\nAvg Latency: "@ + avg_latency + "\nTotal Duration: "@ + total_duration + "\n"@,
{
    reveal_strlit("\nBenchmark Report:\n========================\n\nTPS: ");
    reveal_strlit("\nBenchmark Report:\n");
    reveal_strlit("========================\n\n");
    reveal_strlit("TPS: ");
    reveal_strlit("\n");
    reveal_strlit("\nAvg Latency: ");
    reveal_strlit("Avg Latency: ");
    reveal_strlit("\nTotal Duration: ");
    reveal_strlit("Total Duration: ");
    assert(figures_text(tps, avg_latency, total_duration)
        =~= "\nBenchmark Report:\n========================\n\nTPS: "@ + tps
        + "\nAvg Latency: "@ + avg_latency + "\nTotal Duration: "@ + total_duration + "\n"@);
}

/// Saving ends with writing the new result as the latest one. If there was a latest one, it is
/// first copied to the previous one, and nothing else is done.
pub proof fn law_save_plan(latest_exists: bool, json: Seq<char>)
    ensures
        save_plan(latest_exists, json).len() == (if latest_exists {
            2nat
        } else {
            1nat
        }),
        save_plan(latest_exists, json).last() == (StorageActionView::Write {
            file: StorageFile::Latest,
            contents: json,
        }),
        latest_exists ==> save_plan(latest_exists, json)[0] == (StorageActionView::Copy {
            from: StorageFile::Latest,
            to: StorageFile::Previous,
        }),
{
}

/// What an action does to the files: a copy gives its target the contents of its source, a write
/// gives its file the new contents, and every other file stays as it was. Without actions nothing
/// changes, and of several each acts on what the ones before it left.
pub proof fn law_actions_on_files(
    store: Store,
    from: StorageFile,
    to: StorageFile,
    contents: Seq<char>,
    actions: Seq<StorageActionView>,
    last: StorageActionView,
)
    ensures
        perform(store, StorageActionView::Copy { from, to }) == store.insert(to, store[from]),
        perform(store, StorageActionView::Write { file: to, contents }) == store.insert(
            to,
            contents,
        ),
        perform_all(store, Seq::empty()) == store,
        perform_all(store, actions.push(last)) == perform(perform_all(store, actions), last),
{
    assert(actions.push(last).drop_last() =~= actions);
}

/// The files are named `latest_benchmark.json` and `previous_benchmark.json`.
pub proof fn law_file_names()
    ensures
        storage_file_name(StorageFile::Latest) == "latest_benchmark.json"@,
        storage_file_name(StorageFile::Previous) == "previous_benchmark.json"@,
{
}

/// The values of actions are those of their fields, in the places of the actions.
pub proof fn law_action_views(
    from: StorageFile,
    to: StorageFile,
    contents: String,
    actions: Seq<StorageAction>,
)
    ensures
        (StorageAction::Copy { from, to })@ == (StorageActionView::Copy { from, to }),
        (StorageAction::Write { file: to, contents })@ == (StorageActionView::Write {
            file: to,
            contents: contents@,
        }),
        action_views(actions).len() == actions.len(),
        forall|i: int| 0 <= i < actions.len() ==> #[trigger] action_views(actions)[i] == actions[i]@,
{
}

} // verus!
