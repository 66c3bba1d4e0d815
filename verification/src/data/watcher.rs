//! Classification of file-system notifications.
//!
//! A notification names a kind of change and the paths it concerns. The
//! classifier turns it into at most one signal: the ledger changed, or an
//! event file was created or changed. Paths are compared as the operating
//! system's path rules compare them, first as written and then, if that fails,
//! after resolving symbolic links.
//!
//! Paths are held as text. What the path rules say of two texts is not spelled
//! out here; it goes by the names `path_eq`, `path_under`, `path_parent` and
//! `path_extension`.

use std::path::Path;
use vstd::prelude::*;

use crate::data::tasks_parser::opt_string_view;

verus! {

/// Whether two path texts are equal as `std::path::Path` values, which are
/// compared component by component under the path rules of the platform that
/// the library is built for.
pub uninterp spec fn path_eq(a: Seq<char>, b: Seq<char>) -> bool;

/// Whether the components of path text `base` are a prefix of those of
/// `child`, as `std::path::Path::starts_with` decides it.
pub uninterp spec fn path_under(child: Seq<char>, base: Seq<char>) -> bool;

/// `Path::eq` on the two texts taken as paths. The comparison is a function
/// of the two texts alone.
#[verifier::external_body]
fn same_path(a: &str, b: &str) -> (r: bool)
    ensures
        r == path_eq(a@, b@),
{
    Path::new(a) == Path::new(b)
}

/// `Path::starts_with` on the two texts taken as paths. The answer is a
/// function of the two texts alone.
#[verifier::external_body]
fn path_starts_with(child: &str, base: &str) -> (r: bool)
    ensures
        r == path_under(child@, base@),
{
    Path::new(child).starts_with(Path::new(base))
}

/// `Path::canonicalize`: the absolute form of the path with all symbolic links
/// resolved, or `None` where the path cannot be resolved or its resolved form
/// is no valid text. The answer depends on the file system, so nothing is
/// promised of it.
#[verifier::external_body]
fn canonical(path: &str) -> (r: Option<String>) {
    match Path::new(path).canonicalize() {
        Ok(resolved) => match resolved.to_str() {
            Some(text) => Some(text.to_owned()),
            None => None,
        },
        Err(_) => None,
    }
}

/// `Path::exists`: whether the path points at something on disk. The answer
/// depends on the file system, so nothing is promised of it.
#[verifier::external_body]
fn path_exists(path: &str) -> (r: bool) {
    Path::new(path).exists()
}

/// The parent of path text `path` as `std::path::Path::parent` gives it: the
/// path without its last component, or `None` for a root or an empty path.
pub uninterp spec fn path_parent(path: Seq<char>) -> Option<Seq<char>>;

/// The extension of path text `path` as `std::path::Path::extension` gives
/// it: what follows the last dot of the file name, if the name has one that is
/// not its first character.
pub uninterp spec fn path_extension(path: Seq<char>) -> Option<Seq<char>>;

/// `Path::parent` on the text taken as a path. The answer is a function of
/// the text alone; a parent of a path that is valid text is valid text.
#[verifier::external_body]
fn parent_of(path: &str) -> (r: Option<String>)
    ensures
        opt_string_view(r) == path_parent(path@),
{
    match Path::new(path).parent() {
        Some(parent) => match parent.to_str() {
            Some(text) => Some(text.to_owned()),
            None => None,
        },
        None => None,
    }
}

/// `Path::extension` on the text taken as a path. The answer is a function
/// of the text alone; an extension of a path that is valid text is valid text.
#[verifier::external_body]
fn extension_of(path: &str) -> (r: Option<String>)
    ensures
        opt_string_view(r) == path_extension(path@),
{
    match Path::new(path).extension() {
        Some(extension) => match extension.to_str() {
            Some(text) => Some(text.to_owned()),
            None => None,
        },
        None => None,
    }
}

/// `Path::is_dir`: whether the path points at a directory on disk. The answer
/// depends on the file system, so nothing is promised of it.
#[verifier::external_body]
fn path_is_dir(path: &str) -> (r: bool) {
    Path::new(path).is_dir()
}

/// A change that the dashboard reacts to.
#[derive(Debug, Clone, PartialEq, Eq)]
pub enum FileChange {
    /// The ledger was modified.
    TasksModified(String),
    /// An event file was modified.
    HookEventModified(String),
    /// An event file was created.
    HookEventCreated(String),
}

/// Mathematical value of a `FileChange`.
pub enum ChangeModel {
    TasksModified(Seq<char>),
    HookEventModified(Seq<char>),
    HookEventCreated(Seq<char>),
}

impl View for FileChange {
    type V = ChangeModel;

    open spec fn view(&self) -> ChangeModel {
        match self {
            FileChange::TasksModified(p) => ChangeModel::TasksModified(p@),
            FileChange::HookEventModified(p) => ChangeModel::HookEventModified(p@),
            FileChange::HookEventCreated(p) => ChangeModel::HookEventCreated(p@),
        }
    }
}

pub open spec fn opt_change_view(o: Option<FileChange>) -> Option<ChangeModel> {
    match o {
        Some(c) => Some(c@),
        None => None,
    }
}

/// Why watching could not start or go on.
#[derive(Debug, Clone, PartialEq, Eq)]
pub enum WatcherError {
    /// The notification backend failed; the text is its message.
    Notify(String),
    /// The receiving side of the channel is gone.
    ChannelSend,
    /// A path that must exist does not.
    PathNotFound(String),
}

/// What to watch: the ledger, the directory of event files, and optionally a
/// second directory of event files.
#[derive(Debug, Clone)]
pub struct WatchConfig {
    pub tasks_path: String,
    pub hooks_dir: String,
    pub events_dir: Option<String>,
}

/// The kind of change that a notification reports.
#[derive(Debug, Clone, Copy, PartialEq, Eq, Structural)]
pub enum ChangeKind {
    /// Something was created.
    Created,
    /// Content was modified, or the backend did not say what was modified.
    Modified,
    /// Something was renamed.
    Renamed,
    /// Only metadata changed.
    MetadataChanged,
    /// Something was removed.
    Removed,
    /// Something was opened, read or closed.
    Accessed,
    /// The backend did not say what happened.
    Unspecified,
    /// A change of a kind that the backend has no other name for.
    Other,
}

/// A file-system notification.
#[derive(Debug, Clone)]
pub struct FsEvent {
    pub kind: ChangeKind,
    pub paths: Vec<String>,
}

/// What a path is to a watch configuration.
#[derive(Debug, Clone, Copy, PartialEq, Eq, Structural)]
pub enum PathRole {
    /// The path is the ledger.
    Ledger,
    /// The path lies in a directory of event files.
    EventFile,
    /// The path is neither.
    Unrelated,
}

/// Whether a change of this kind can produce a signal: creations, content
/// modifications and changes without a better name can; removals, renames,
/// metadata changes and accesses cannot.
pub open spec fn is_relevant(kind: ChangeKind) -> bool {
    kind == ChangeKind::Created || kind == ChangeKind::Modified || kind == ChangeKind::Other
}

/// The signal for a change of kind `kind` to a path with role `role`.
pub open spec fn signal_of(kind: ChangeKind, path: Seq<char>, role: PathRole) -> Option<
    ChangeModel,
> {
    if !is_relevant(kind) {
        None
    } else {
        match role {
            PathRole::Ledger => Some(ChangeModel::TasksModified(path)),
            PathRole::EventFile => if kind == ChangeKind::Created {
                Some(ChangeModel::HookEventCreated(path))
            } else {
                Some(ChangeModel::HookEventModified(path))
            },
            PathRole::Unrelated => None,
        }
    }
}

/// The signal of the first path, from index `from` on, that has one.
pub open spec fn first_signal(
    kind: ChangeKind,
    paths: Seq<Seq<char>>,
    roles: Seq<PathRole>,
    from: int,
) -> Option<ChangeModel>
    decreases paths.len() - from,
{
    if from < 0 || from >= paths.len() || from >= roles.len() {
        None
    } else {
        match signal_of(kind, paths[from], roles[from]) {
            Some(c) => Some(c),
            None => first_signal(kind, paths, roles, from + 1),
        }
    }
}

/// Whether two resolved paths, where both could be resolved, are equal.
pub open spec fn resolved_eq(a: Option<Seq<char>>, b: Option<Seq<char>>) -> bool {
    match (a, b) {
        (Some(x), Some(y)) => path_eq(x, y),
        _ => false,
    }
}

/// Whether the resolved `child`, where both could be resolved, lies under the
/// resolved `base`.
pub open spec fn resolved_under(child: Option<Seq<char>>, base: Option<Seq<char>>) -> bool {
    match (child, base) {
        (Some(x), Some(y)) => path_under(x, y),
        _ => false,
    }
}

/// What the paths as written force a role to be: a path equal to the ledger
/// path is the ledger, and a path that is not the ledger but lies under one of
/// the event directories is an event file. Where the paths as written decide
/// nothing, the file system does.
pub open spec fn role_fits(path: Seq<char>, config: WatchConfig, role: PathRole) -> bool {
    &&& path_eq(path, config.tasks_path@) ==> role == PathRole::Ledger
    &&& role != PathRole::Ledger && (path_under(path, config.hooks_dir@) || (config.events_dir
        matches Some(d) && path_under(path, d@))) ==> role == PathRole::EventFile
}

/// Whether two resolved paths are equal. A path that could not be resolved
/// equals none.
pub fn canonical_match(a: &Option<String>, b: &Option<String>) -> (r: bool)
    ensures
        r == resolved_eq(opt_string_view(*a), opt_string_view(*b)),
{
    match (a, b) {
        (Some(x), Some(y)) => same_path(x.as_str(), y.as_str()),
        _ => false,
    }
}

/// Whether the resolved `child` lies under the resolved `base`. A path that
/// could not be resolved lies under none, and none lies under it.
pub fn canonical_under(child: &Option<String>, base: &Option<String>) -> (r: bool)
    ensures
        r == resolved_under(opt_string_view(*child), opt_string_view(*base)),
{
    match (child, base) {
        (Some(x), Some(y)) => path_starts_with(x.as_str(), y.as_str()),
        _ => false,
    }
}

/// Whether `a` and `b` name the same file: as written, or else after both have
/// been resolved on the file system.
///
/// Paths that are equal as written always match. For other paths the answer
/// is that of `canonical_match` on what resolving them gives, and so depends
/// on the file system: through a symbolic link any two paths may name the
/// same file.
pub fn paths_match(a: &str, b: &str) -> (r: bool)
    ensures
        path_eq(a@, b@) ==> r,
{
    if same_path(a, b) {
        return true;
    }
    let ca = canonical(a);
    let cb = canonical(b);
    canonical_match(&ca, &cb)
}

/// Whether `child` lies under directory `parent`: as written, or else after
/// both have been resolved on the file system.
///
/// A path that lies under the directory as written always does. For other
/// paths the answer is that of `canonical_under` on what resolving them gives,
/// and so depends on the file system.
pub fn is_under_dir(child: &str, parent: &str) -> (r: bool)
    ensures
        path_under(child@, parent@) ==> r,
{
    if path_starts_with(child, parent) {
        return true;
    }
    let cc = canonical(child);
    let cp = canonical(parent);
    canonical_under(&cc, &cp)
}

/// The signal for a change of kind `kind` to `path`, given the role of the
/// path.
pub fn signal_for(kind: ChangeKind, path: &str, role: PathRole) -> (r: Option<FileChange>)
    ensures
        opt_change_view(r) == signal_of(kind, path@, role),
{
    let relevant = match kind {
        ChangeKind::Created => true,
        ChangeKind::Modified => true,
        ChangeKind::Other => true,
        _ => false,
    };
    if !relevant {
        return None;
    }
    match role {
        PathRole::Ledger => Some(FileChange::TasksModified(path.to_owned())),
        PathRole::EventFile => {
            match kind {
                ChangeKind::Created => Some(FileChange::HookEventCreated(path.to_owned())),
                _ => Some(FileChange::HookEventModified(path.to_owned())),
            }
        },
        PathRole::Unrelated => None,
    }
}

/// The role of a path, given whether it is the ledger, whether it lies under
/// the event directory, and whether it lies under the second event directory.
/// The ledger comes first.
pub open spec fn role_given(is_ledger: bool, in_hooks: bool, in_events: bool) -> PathRole {
    if is_ledger {
        PathRole::Ledger
    } else if in_hooks || in_events {
        PathRole::EventFile
    } else {
        PathRole::Unrelated
    }
}

/// The role of a path, given whether it is the ledger, whether it lies under
/// the event directory, and whether it lies under the second event directory.
pub fn role_for(is_ledger: bool, in_hooks: bool, in_events: bool) -> (r: PathRole)
    ensures
        r == role_given(is_ledger, in_hooks, in_events),
{
    if is_ledger {
        PathRole::Ledger
    } else if in_hooks || in_events {
        PathRole::EventFile
    } else {
        PathRole::Unrelated
    }
}

/// The outcome of checking that the watched paths exist, given whether the
/// ledger and the event directory exist. The ledger is looked at first. The
/// second event directory is not looked at: it may be missing.
pub fn validation_outcome(config: &WatchConfig, tasks_exists: bool, hooks_exists: bool) -> (r:
    Result<(), WatcherError>)
    ensures
        r is Ok == (tasks_exists && hooks_exists),
        !tasks_exists ==> (r matches Err(WatcherError::PathNotFound(p)) && p@
            == config.tasks_path@),
        tasks_exists && !hooks_exists ==> (r matches Err(WatcherError::PathNotFound(p)) && p@
            == config.hooks_dir@),
{
    if !tasks_exists {
        Err(WatcherError::PathNotFound(config.tasks_path.clone()))
    } else if !hooks_exists {
        Err(WatcherError::PathNotFound(config.hooks_dir.clone()))
    } else {
        Ok(())
    }
}

impl WatchConfig {
    /// A configuration without a second event directory.
    pub fn new(tasks_path: String, hooks_dir: String) -> (r: Self)
        ensures
            r.tasks_path == tasks_path,
            r.hooks_dir == hooks_dir,
            r.events_dir is None,
    {
        WatchConfig { tasks_path, hooks_dir, events_dir: None }
    }

    /// The same configuration with `events_dir` as second event directory.
    pub fn with_events_dir(self, events_dir: String) -> (r: Self)
        ensures
            r.tasks_path == self.tasks_path,
            r.hooks_dir == self.hooks_dir,
            r.events_dir == Some(events_dir),
    {
        WatchConfig {
            tasks_path: self.tasks_path,
            hooks_dir: self.hooks_dir,
            events_dir: Some(events_dir),
        }
    }

    /// Checks that the ledger and the event directory exist. The error names
    /// the first of the two that is missing.
    ///
    /// What exists is for the file system to say; the answer is that of
    /// `validation_outcome` on what it says. Whatever it says, the only error
    /// is a path that was not found, and the path is one of the two.
    pub fn validate(&self) -> (r: Result<(), WatcherError>)
        ensures
            r matches Err(e) ==> (e matches WatcherError::PathNotFound(p) && (p@
                == self.tasks_path@ || p@ == self.hooks_dir@)),
    {
        let tasks_exists = path_exists(self.tasks_path.as_str());
        let hooks_exists = if tasks_exists {
            path_exists(self.hooks_dir.as_str())
        } else {
            false
        };
        validation_outcome(self, tasks_exists, hooks_exists)
    }

    /// What `path` is to this configuration. The ledger is tried first, then
    /// the event directory, then the second event directory.
    ///
    /// The role is that of `role_for` on the answers of `paths_match` and
    /// `is_under_dir`. Those answers are fixed where the paths as written
    /// decide, which is what `role_fits` says; elsewhere they depend on the
    /// file system.
    pub fn role_of(&self, path: &str) -> (r: PathRole)
        ensures
            role_fits(path@, *self, r),
    {
        let is_ledger = paths_match(path, self.tasks_path.as_str());
        let in_hooks = if is_ledger {
            false
        } else {
            is_under_dir(path, self.hooks_dir.as_str())
        };
        let in_events = if is_ledger || in_hooks {
            false
        } else {
            match &self.events_dir {
                Some(dir) => is_under_dir(path, dir.as_str()),
                None => false,
            }
        };
        role_for(is_ledger, in_hooks, in_events)
    }
}

pub open spec fn paths_view(v: Seq<String>) -> Seq<Seq<char>> {
    Seq::new(v.len(), |i: int| v[i]@)
}

/// The signal that a notification gives rise to: that of its first path that is
/// the ledger or lies in an event directory. A notification of a kind that is
/// not relevant gives none, whatever its paths.
pub fn classify_event(event: &FsEvent, config: &WatchConfig) -> (r: Option<FileChange>)
    ensures
        !is_relevant(event.kind) ==> r is None,
        exists|roles: Seq<PathRole>|
            {
                &&& roles.len() == event.paths@.len()
                &&& forall|i: int|
                    0 <= i < roles.len() ==> role_fits(
                        event.paths@[i]@,
                        *config,
                        #[trigger] roles[i],
                    )
                &&& opt_change_view(r) == first_signal(
                    event.kind,
                    paths_view(event.paths@),
                    roles,
                    0,
                )
            },
{
    let ghost paths = paths_view(event.paths@);
    let n = event.paths.len();
    let relevant = match event.kind {
        ChangeKind::Created => true,
        ChangeKind::Modified => true,
        ChangeKind::Other => true,
        _ => false,
    };
    if !relevant {
        proof {
            let fitting = Seq::new(n as nat, |i: int| fitting_role(event.paths@[i]@, *config));
            lemma_irrelevant(event.kind, paths, fitting, 0);
        }
        return None;
    }
    let ghost mut roles: Seq<PathRole> = Seq::empty();
    let mut i: usize = 0;
    while i < n
        invariant
            i <= n,
            n == event.paths@.len(),
            paths == paths_view(event.paths@),
            is_relevant(event.kind),
            roles.len() == i,
            forall|k: int| 0 <= k < i ==> role_fits(event.paths@[k]@, *config, #[trigger] roles[k]),
            forall|k: int| 0 <= k < i ==> roles[k] == PathRole::Unrelated,
        decreases n - i,
    {
        let path = &event.paths[i];
        let role = config.role_of(path.as_str());
        match signal_for(event.kind, path.as_str(), role) {
            Some(change) => {
                proof {
                    // The paths behind this one do not matter: give each a
                    // role that fits it.
                    let rest = Seq::new(
                        (n - i - 1) as nat,
                        |k: int| fitting_role(event.paths@[i + 1 + k]@, *config),
                    );
                    let all = roles.push(role) + rest;
                    assert forall|k: int| 0 <= k < all.len() implies role_fits(
                        event.paths@[k]@,
                        *config,
                        #[trigger] all[k],
                    ) by {}
                    lemma_first_signal_skips(event.kind, paths, all, i as int);
                }
                return Some(change);
            },
            None => {
                proof {
                    roles = roles.push(role);
                }
            },
        }
        i += 1;
    }
    proof {
        lemma_first_signal_skips(event.kind, paths, roles, n as int);
    }
    None
}

/// A role that fits `path` whatever the file system says.
pub open spec fn fitting_role(path: Seq<char>, config: WatchConfig) -> PathRole {
    if path_eq(path, config.tasks_path@) {
        PathRole::Ledger
    } else {
        PathRole::EventFile
    }
}

/// A change that is not relevant gives no signal.
proof fn lemma_irrelevant(kind: ChangeKind, paths: Seq<Seq<char>>, roles: Seq<PathRole>, from: int)
    requires
        !is_relevant(kind),
    ensures
        first_signal(kind, paths, roles, from) is None,
    decreases paths.len() - from,
{
    if 0 <= from < paths.len() && from < roles.len() {
        lemma_irrelevant(kind, paths, roles, from + 1);
    }
}

/// Paths without a role of their own are passed over.
proof fn lemma_first_signal_skips(
    kind: ChangeKind,
    paths: Seq<Seq<char>>,
    roles: Seq<PathRole>,
    upto: int,
)
    requires
        0 <= upto <= paths.len(),
        upto <= roles.len(),
        forall|k: int| 0 <= k < upto ==> roles[k] == PathRole::Unrelated,
    ensures
        first_signal(kind, paths, roles, 0) == first_signal(kind, paths, roles, upto),
    decreases upto,
{
    if upto > 0 {
        lemma_first_signal_skips(kind, paths, roles, upto - 1);
    }
}

/// A directory to watch.
#[derive(Debug, Clone, PartialEq, Eq)]
pub struct WatchTarget {
    pub path: String,
    /// Whether the directories below it are watched too.
    pub recursive: bool,
    /// Whether watching fails as a whole if this directory cannot be watched.
    pub required: bool,
}

/// Mathematical value of a `WatchTarget`.
pub struct TargetModel {
    pub path: Seq<char>,
    pub recursive: bool,
    pub required: bool,
}

impl View for WatchTarget {
    type V = TargetModel;

    open spec fn view(&self) -> TargetModel {
        TargetModel { path: self.path@, recursive: self.recursive, required: self.required }
    }
}

pub open spec fn targets_view(v: Seq<WatchTarget>) -> Seq<TargetModel> {
    Seq::new(v.len(), |i: int| v[i]@)
}

/// The directories to watch for a configuration: the directory that holds the
/// ledger, without what lies below it; the event directory with all below it;
/// and, if it is there, the second event directory with all below it. A
/// ledger path without parent is watched itself. Only the second event
/// directory may fail to be watched.
pub open spec fn watch_targets_of(config: WatchConfig, events_dir_present: bool) -> Seq<
    TargetModel,
> {
    let ledger_dir = match path_parent(config.tasks_path@) {
        Some(parent) => parent,
        None => config.tasks_path@,
    };
    let required = seq![
        TargetModel { path: ledger_dir, recursive: false, required: true },
        TargetModel { path: config.hooks_dir@, recursive: true, required: true },
    ];
    match config.events_dir {
        Some(dir) => if events_dir_present {
            required.push(TargetModel { path: dir@, recursive: true, required: false })
        } else {
            required
        },
        None => required,
    }
}

/// The directories to watch, given whether the second event directory is
/// there.
pub fn watch_targets(config: &WatchConfig, events_dir_present: bool) -> (r: Vec<WatchTarget>)
    ensures
        targets_view(r@) == watch_targets_of(*config, events_dir_present),
{
    let ledger_dir = match parent_of(config.tasks_path.as_str()) {
        Some(parent) => parent,
        None => config.tasks_path.clone(),
    };
    let mut targets: Vec<WatchTarget> = Vec::new();
    targets.push(WatchTarget { path: ledger_dir, recursive: false, required: true });
    targets.push(WatchTarget { path: config.hooks_dir.clone(), recursive: true, required: true });
    match &config.events_dir {
        Some(dir) => {
            if events_dir_present {
                targets.push(WatchTarget { path: dir.clone(), recursive: true, required: false });
            }
        },
        None => {},
    }
    targets
}

/// The directories to watch. The second event directory is among them only
/// if it is a directory on disk.
pub fn plan_watches(config: &WatchConfig) -> (r: Vec<WatchTarget>)
    ensures
        targets_view(r@) == watch_targets_of(*config, true) || targets_view(r@)
            == watch_targets_of(*config, false),
        config.events_dir is None ==> targets_view(r@) == watch_targets_of(*config, false),
{
    let present = match &config.events_dir {
        Some(dir) => path_is_dir(dir.as_str()),
        None => false,
    };
    watch_targets(config, present)
}

/// Whether `path` names a file of events: a file with the extension `jsonl`.
pub fn is_event_file(path: &str) -> (r: bool)
    ensures
        r == (path_extension(path@) == Some("jsonl"@)),
{
    match extension_of(path) {
        Some(extension) => {
            let wanted = "jsonl".to_owned();
            extension == wanted
        },
        None => false,
    }
}

/// The ledger path to use: the one given, else `./TASKS.md` if it exists, else
/// `./docs/planning/06-tasks.md` if that exists, else `./TASKS.md`.
pub open spec fn chosen_tasks_path(
    explicit: Option<Seq<char>>,
    primary_exists: bool,
    fallback_exists: bool,
) -> Seq<char> {
    match explicit {
        Some(p) => p,
        None => if primary_exists {
            "./TASKS.md"@
        } else if fallback_exists {
            "./docs/planning/06-tasks.md"@
        } else {
            "./TASKS.md"@
        },
    }
}

/// The ledger path to use, given which of the two default places exist.
pub fn choose_tasks_path(explicit: Option<&str>, primary_exists: bool, fallback_exists: bool) -> (r:
    String)
    ensures
        r@ == chosen_tasks_path(
            match explicit {
                Some(p) => Some(p@),
                None => None,
            },
            primary_exists,
            fallback_exists,
        ),
{
    match explicit {
        Some(p) => p.to_owned(),
        None => {
            if primary_exists {
                "./TASKS.md".to_owned()
            } else if fallback_exists {
                "./docs/planning/06-tasks.md".to_owned()
            } else {
                "./TASKS.md".to_owned()
            }
        },
    }
}

/// The ledger path to use: the one given, else the first of the two default
/// places that exists, else the first default place.
pub fn resolve_tasks_path(explicit: Option<&str>) -> (r: String)
    ensures
        explicit matches Some(p) ==> r@ == p@,
        explicit is None ==> r@ == "./TASKS.md"@ || r@ == "./docs/planning/06-tasks.md"@,
{
    match explicit {
        Some(p) => choose_tasks_path(Some(p), false, false),
        None => {
            let primary_exists = path_exists("./TASKS.md");
            let fallback_exists = if primary_exists {
                false
            } else {
                path_exists("./docs/planning/06-tasks.md")
            };
            choose_tasks_path(None, primary_exists, fallback_exists)
        },
    }
}

} // verus!
