//! The setup of a subgit beside an upstream repository: what is created, in
//! which order, and where.

use vstd::prelude::*;
use crate::action::{entry_of, join_entry, RecursionDetection, Setup};
use crate::cli::{absolute, make_absolute, opt_view};
use crate::location::Location;
use crate::map::MapStore;
use crate::settings::{LogLevel, Settings, SETTINGS_FILE};
use crate::sync::{BinSource, Workspace, WrappedSubGit};
use crate::text::string_views;

verus! {

/// One thing that setup does.
#[derive(Debug, PartialEq, Eq)]
pub enum SetupStep {
    /// Write the log of the setup to the file.
    InitLog { path: String },
    /// Make sure that the bare repository at the path can be opened.
    OpenBare { path: String },
    /// Create an empty bare repository at the path.
    InitBare { path: String },
    /// Create the directory and those above it.
    CreateDirAll { path: String },
    /// Create the directory.
    CreateDir { path: String },
    /// Create the empty file.
    CreateFile { path: String },
    /// Take the exclusive lock on the lock file.
    Lock { path: String },
    /// Create the store of the commit map with its two tables.
    CreateMap { path: String, upstream_table: String, subgit_table: String },
    /// Create a symbolic link at `link` that points to `target`.
    Symlink { target: String, link: String },
    /// Copy the file.
    CopyFile { from: String, to: String },
    /// Clone `url` into the directory `name` of `parent`, switch garbage
    /// collection off in the clone and set its `push.default` to `simple`.
    CloneWorking { url: String, parent: String, name: String },
    /// Make the empty anchor of `side`: a commit without files and without
    /// parents in the working clone, under the ref, with the author and the
    /// committer of the earliest commit of the upstream repository; check it
    /// out and push it.
    CreateAnchor { side: Location, ref_name: String, message: String },
    /// Record the two anchors as a pair in the commit map.
    RecordAnchors,
    /// Write the settings to the file.
    WriteSettings { path: String },
}

/// A `SetupStep` as plain values.
pub enum SetupStepView {
    InitLog { path: Seq<char> },
    OpenBare { path: Seq<char> },
    InitBare { path: Seq<char> },
    CreateDirAll { path: Seq<char> },
    CreateDir { path: Seq<char> },
    CreateFile { path: Seq<char> },
    Lock { path: Seq<char> },
    CreateMap { path: Seq<char>, upstream_table: Seq<char>, subgit_table: Seq<char> },
    Symlink { target: Seq<char>, link: Seq<char> },
    CopyFile { from: Seq<char>, to: Seq<char> },
    CloneWorking { url: Seq<char>, parent: Seq<char>, name: Seq<char> },
    CreateAnchor { side: Location, ref_name: Seq<char>, message: Seq<char> },
    RecordAnchors,
    WriteSettings { path: Seq<char> },
}

impl View for SetupStep {
    type V = SetupStepView;

    open spec fn view(&self) -> SetupStepView {
        match self {
            SetupStep::InitLog { path } => SetupStepView::InitLog { path: path@ },
            SetupStep::OpenBare { path } => SetupStepView::OpenBare { path: path@ },
            SetupStep::InitBare { path } => SetupStepView::InitBare { path: path@ },
            SetupStep::CreateDirAll { path } => SetupStepView::CreateDirAll { path: path@ },
            SetupStep::CreateDir { path } => SetupStepView::CreateDir { path: path@ },
            SetupStep::CreateFile { path } => SetupStepView::CreateFile { path: path@ },
            SetupStep::Lock { path } => SetupStepView::Lock { path: path@ },
            SetupStep::CreateMap { path, upstream_table, subgit_table } => SetupStepView::CreateMap {
                path: path@,
                upstream_table: upstream_table@,
                subgit_table: subgit_table@,
            },
            SetupStep::Symlink { target, link } => SetupStepView::Symlink {
                target: target@,
                link: link@,
            },
            SetupStep::CopyFile { from, to } => SetupStepView::CopyFile { from: from@, to: to@ },
            SetupStep::CloneWorking { url, parent, name } => SetupStepView::CloneWorking {
                url: url@,
                parent: parent@,
                name: name@,
            },
            SetupStep::CreateAnchor { side, ref_name, message } => SetupStepView::CreateAnchor {
                side: *side,
                ref_name: ref_name@,
                message: message@,
            },
            SetupStep::RecordAnchors => SetupStepView::RecordAnchors,
            SetupStep::WriteSettings { path } => SetupStepView::WriteSettings { path: path@ },
        }
    }
}

/// The views of a list of steps.
pub open spec fn step_views(steps: Seq<SetupStep>) -> Seq<SetupStepView> {
    Seq::new(steps.len(), |i: int| steps[i]@)
}

/// The data directory of a subgit.
pub open spec fn data_dir(subgit: Seq<char>) -> Seq<char> {
    entry_of(subgit, "data"@)
}

/// The message of the empty anchors.
pub open spec fn anchor_message() -> Seq<char> {
    "Empty base commit - autogenerated"@
}

/// The data directory with its log directory, its directory of marker files
/// and its lock file.
pub open spec fn tree_steps(data: Seq<char>) -> Seq<SetupStepView> {
    seq![
        SetupStepView::CreateDirAll { path: data },
        SetupStepView::CreateDirAll { path: entry_of(data, "logs"@) },
        SetupStepView::CreateDirAll { path: entry_of(data, "whitelist"@) },
        SetupStepView::CreateFile { path: entry_of(data, "lock"@) },
    ]
}

/// The subgit itself, and the upstream repository linked into the data
/// directory.
pub open spec fn bare_steps(subgit: Seq<char>, upstream: Seq<char>, data: Seq<char>, current_dir: Seq<char>) -> Seq<
    SetupStepView,
> {
    seq![
        SetupStepView::OpenBare { path: upstream },
        SetupStepView::InitBare { path: subgit },
        SetupStepView::Symlink {
            target: absolute(current_dir, upstream),
            link: entry_of(data, "upstream.git"@),
        },
    ]
}

/// The link from the mirror to one part of the subgit.
pub open spec fn mirror_link(subgit: Seq<char>, mirror: Seq<char>, current_dir: Seq<char>, name: Seq<char>) -> SetupStepView {
    SetupStepView::Symlink {
        target: entry_of(absolute(current_dir, subgit), name),
        link: entry_of(mirror, name),
    }
}

/// The mirror of the subgit: a bare repository that shares everything with
/// the subgit but its hooks, so that what is pushed into it runs no hook.
pub open spec fn mirror_steps(subgit: Seq<char>, data: Seq<char>, current_dir: Seq<char>) -> Seq<SetupStepView> {
    let mirror = absolute(current_dir, entry_of(data, "local.git"@));
    seq![
        SetupStepView::CreateDir { path: mirror },
        mirror_link(subgit, mirror, current_dir, "config"@),
        mirror_link(subgit, mirror, current_dir, "description"@),
        mirror_link(subgit, mirror, current_dir, "info"@),
        mirror_link(subgit, mirror, current_dir, "logs"@),
        mirror_link(subgit, mirror, current_dir, "objects"@),
        mirror_link(subgit, mirror, current_dir, "refs"@),
        mirror_link(subgit, mirror, current_dir, "packed-refs"@),
        SetupStepView::CopyFile { from: entry_of(subgit, "HEAD"@), to: entry_of(mirror, "HEAD"@) },
        SetupStepView::CreateDir { path: entry_of(mirror, "hooks"@) },
    ]
}

/// The two working clones.
pub open spec fn clone_steps(
    upstream: Seq<char>,
    data: Seq<char>,
    current_dir: Seq<char>,
    upstream_url: Option<Seq<char>>,
    subgit_url: Option<Seq<char>>,
) -> Seq<SetupStepView> {
    seq![
        SetupStepView::CloneWorking {
            url: match upstream_url {
                Some(url) => url,
                None => absolute(current_dir, upstream),
            },
            parent: data,
            name: "upstream"@,
        },
        SetupStepView::CloneWorking {
            url: match subgit_url {
                Some(url) => url,
                None => absolute(current_dir, entry_of(data, "local.git"@)),
            },
            parent: data,
            name: "local"@,
        },
    ]
}

/// The commit map and the pair of empty anchors in it.
pub open spec fn anchor_steps(data: Seq<char>) -> Seq<SetupStepView> {
    seq![
        SetupStepView::CreateMap {
            path: entry_of(data, "map.sqlite"@),
            upstream_table: Location::UPSTREAM.creation(),
            subgit_table: Location::SUBGIT.creation(),
        },
        SetupStepView::CreateAnchor {
            side: Location::SUBGIT,
            ref_name: "refs/sync/empty"@,
            message: anchor_message(),
        },
        SetupStepView::CreateAnchor {
            side: Location::UPSTREAM,
            ref_name: "refs/sync/empty"@,
            message: anchor_message(),
        },
        SetupStepView::RecordAnchors,
    ]
}

/// The hook program in the data directory, and the links to it from the
/// hooks of both repositories.
pub open spec fn hook_steps(
    subgit: Seq<char>,
    upstream: Seq<char>,
    data: Seq<char>,
    current_dir: Seq<char>,
    bin: Seq<char>,
    symlink: bool,
    subgit_hook: Seq<char>,
    upstream_hook: Seq<char>,
) -> Seq<SetupStepView> {
    let hook = entry_of(data, "hook"@);
    seq![
        SetupStepView::Lock { path: entry_of(data, "lock"@) },
        if symlink {
            SetupStepView::Symlink { target: absolute(current_dir, bin), link: hook }
        } else {
            SetupStepView::CopyFile { from: bin, to: hook }
        },
        SetupStepView::Symlink {
            target: absolute(current_dir, hook),
            link: entry_of(subgit, subgit_hook),
        },
        SetupStepView::Symlink {
            target: absolute(current_dir, hook),
            link: entry_of(upstream, upstream_hook),
        },
    ]
}

/// All that setup does, in its order.
pub open spec fn creation_steps(
    subgit: Seq<char>,
    upstream: Seq<char>,
    current_dir: Seq<char>,
    log_file: Seq<char>,
    bin: Seq<char>,
    symlink: bool,
    subgit_hook: Seq<char>,
    subgit_url: Option<Seq<char>>,
    upstream_hook: Seq<char>,
    upstream_url: Option<Seq<char>>,
) -> Seq<SetupStepView> {
    let data = data_dir(subgit);
    seq![SetupStepView::InitLog { path: log_file }] + tree_steps(data) + bare_steps(
        subgit,
        upstream,
        data,
        current_dir,
    ) + mirror_steps(subgit, data, current_dir) + clone_steps(
        upstream,
        data,
        current_dir,
        upstream_url,
        subgit_url,
    ) + anchor_steps(data) + seq![
        SetupStepView::WriteSettings { path: entry_of(data, SETTINGS_FILE@) },
    ] + hook_steps(subgit, upstream, data, current_dir, bin, symlink, subgit_hook, upstream_hook)
}

/// What setup does, the settings that it writes, and the subgit as it is
/// once setup is done.
#[derive(Debug)]
pub struct SetupPlan {
    pub steps: Vec<SetupStep>,
    pub settings: Settings,
    pub wrapped: WrappedSubGit,
}

/// Appends one step.
fn push_step(steps: &mut Vec<SetupStep>, step: SetupStep)
    ensures
        step_views(final(steps)@) == step_views(old(steps)@) + seq![step@],
{
    proof {
        assert(step_views(steps@.push(step)) == step_views(steps@) + seq![step@]);
    }
    steps.push(step);
}

/// Appends the link from the mirror to one part of the subgit.
fn push_mirror_link(steps: &mut Vec<SetupStep>, subgit_abs: &str, mirror: &str, name: &str)
    ensures
        step_views(final(steps)@) == step_views(old(steps)@) + seq![
            SetupStepView::Symlink {
                target: entry_of(subgit_abs@, name@),
                link: entry_of(mirror@, name@),
            },
        ],
{
    push_step(
        steps,
        SetupStep::Symlink { target: join_entry(subgit_abs, name), link: join_entry(mirror, name) },
    );
}

impl WrappedSubGit {
    /// Plans the setup of a subgit at `subgit_location` beside the upstream
    /// repository at `upstream_location`, whose directory `upstream_map_path`
    /// is republished under the directory `subgit_map_path` of the subgit.
    /// Paths that are not given from the root are read against
    /// `current_dir`.
    pub fn run_creation(
        subgit_location: &str,
        upstream_location: &str,
        upstream_map_path: &str,
        subgit_map_path: Option<&str>,
        log_level: LogLevel,
        log_file: &str,
        bin_loc: BinSource,
        subgit_hook_path: &str,
        subgit_working_clone_url: Option<String>,
        upstream_hook_path: &str,
        upstream_working_clone_url: Option<String>,
        recursion_detection: RecursionDetection,
        filters: Vec<String>,
        current_dir: &str,
    ) -> (plan: SetupPlan)
        ensures
            step_views(plan.steps@) == creation_steps(
                subgit_location@,
                upstream_location@,
                current_dir@,
                log_file@,
                bin_loc.location@,
                bin_loc.symlink,
                subgit_hook_path@,
                opt_view(subgit_working_clone_url),
                upstream_hook_path@,
                opt_view(upstream_working_clone_url),
            ),
            plan.settings.data_dir@ == data_dir(subgit_location@),
            plan.settings.internal.upstream_path@ == upstream_map_path@,
            plan.settings.internal.subgit_path@ == (match subgit_map_path {
                Some(path) => path@,
                None => Seq::<char>::empty(),
            }),
            plan.settings.internal.file_log_level == log_level,
            plan.settings.internal.recursion_detection == recursion_detection,
            string_views(plan.settings.internal.filters@) == string_views(filters@),
            plan.wrapped.wf(),
            plan.wrapped.location@ == subgit_location@,
            plan.wrapped.map.table(Location::SUBGIT).len() == 0,
            plan.wrapped.map.table(Location::UPSTREAM).len() == 0,
            plan.wrapped.recursion_detection == recursion_detection,
            plan.wrapped.filters == filters,
            plan.wrapped.workspace.upstream_path@ == upstream_map_path@,
            plan.wrapped.workspace.local_path@ == plan.settings.internal.subgit_path@,
    {
        let data = join_entry(subgit_location, "data");
        let mut steps: Vec<SetupStep> = Vec::new();
        assert(step_views(steps@) == Seq::<SetupStepView>::empty());
        push_step(&mut steps, SetupStep::InitLog { path: log_file.to_owned() });

        push_step(&mut steps, SetupStep::CreateDirAll { path: data.clone() });
        push_step(&mut steps, SetupStep::CreateDirAll { path: join_entry(data.as_str(), "logs") });
        push_step(&mut steps, SetupStep::CreateDirAll { path: join_entry(data.as_str(), "whitelist") });
        push_step(&mut steps, SetupStep::CreateFile { path: join_entry(data.as_str(), "lock") });
        assert(step_views(steps@) == seq![SetupStepView::InitLog { path: log_file@ }] + tree_steps(
            data@,
        ));
        let ghost so_far = step_views(steps@);

        push_step(&mut steps, SetupStep::OpenBare { path: upstream_location.to_owned() });
        push_step(&mut steps, SetupStep::InitBare { path: subgit_location.to_owned() });
        push_step(
            &mut steps,
            SetupStep::Symlink {
                target: make_absolute(current_dir, upstream_location),
                link: join_entry(data.as_str(), "upstream.git"),
            },
        );
        assert(step_views(steps@) == so_far + bare_steps(
            subgit_location@,
            upstream_location@,
            data@,
            current_dir@,
        ));
        let ghost so_far = step_views(steps@);

        let mirror = make_absolute(current_dir, join_entry(data.as_str(), "local.git").as_str());
        let subgit_abs = make_absolute(current_dir, subgit_location);
        push_step(&mut steps, SetupStep::CreateDir { path: mirror.clone() });
        push_mirror_link(&mut steps, subgit_abs.as_str(), mirror.as_str(), "config");
        push_mirror_link(&mut steps, subgit_abs.as_str(), mirror.as_str(), "description");
        push_mirror_link(&mut steps, subgit_abs.as_str(), mirror.as_str(), "info");
        push_mirror_link(&mut steps, subgit_abs.as_str(), mirror.as_str(), "logs");
        push_mirror_link(&mut steps, subgit_abs.as_str(), mirror.as_str(), "objects");
        push_mirror_link(&mut steps, subgit_abs.as_str(), mirror.as_str(), "refs");
        push_mirror_link(&mut steps, subgit_abs.as_str(), mirror.as_str(), "packed-refs");
        push_step(
            &mut steps,
            SetupStep::CopyFile {
                from: join_entry(subgit_location, "HEAD"),
                to: join_entry(mirror.as_str(), "HEAD"),
            },
        );
        push_step(&mut steps, SetupStep::CreateDir { path: join_entry(mirror.as_str(), "hooks") });
        assert(step_views(steps@) == so_far + mirror_steps(subgit_location@, data@, current_dir@));
        let ghost so_far = step_views(steps@);

        let upstream_url = match &upstream_working_clone_url {
            Some(url) => url.clone(),
            None => make_absolute(current_dir, upstream_location),
        };
        let subgit_url = match &subgit_working_clone_url {
            Some(url) => url.clone(),
            None => mirror.clone(),
        };
        push_step(
            &mut steps,
            SetupStep::CloneWorking {
                url: upstream_url,
                parent: data.clone(),
                name: "upstream".to_owned(),
            },
        );
        push_step(
            &mut steps,
            SetupStep::CloneWorking { url: subgit_url, parent: data.clone(), name: "local".to_owned() },
        );
        assert(step_views(steps@) == so_far + clone_steps(
            upstream_location@,
            data@,
            current_dir@,
            opt_view(upstream_working_clone_url),
            opt_view(subgit_working_clone_url),
        ));
        let ghost so_far = step_views(steps@);

        push_step(
            &mut steps,
            SetupStep::CreateMap {
                path: join_entry(data.as_str(), "map.sqlite"),
                upstream_table: Location::UPSTREAM.create_statement(),
                subgit_table: Location::SUBGIT.create_statement(),
            },
        );
        push_step(
            &mut steps,
            SetupStep::CreateAnchor {
                side: Location::SUBGIT,
                ref_name: "refs/sync/empty".to_owned(),
                message: "Empty base commit - autogenerated".to_owned(),
            },
        );
        push_step(
            &mut steps,
            SetupStep::CreateAnchor {
                side: Location::UPSTREAM,
                ref_name: "refs/sync/empty".to_owned(),
                message: "Empty base commit - autogenerated".to_owned(),
            },
        );
        push_step(&mut steps, SetupStep::RecordAnchors);
        assert(step_views(steps@) == so_far + anchor_steps(data@));
        let ghost so_far = step_views(steps@);

        push_step(
            &mut steps,
            SetupStep::WriteSettings { path: join_entry(data.as_str(), SETTINGS_FILE) },
        );
        let ghost so_far = step_views(steps@);

        let hook = join_entry(data.as_str(), "hook");
        push_step(&mut steps, SetupStep::Lock { path: join_entry(data.as_str(), "lock") });
        if bin_loc.symlink {
            push_step(
                &mut steps,
                SetupStep::Symlink {
                    target: make_absolute(current_dir, bin_loc.location.as_str()),
                    link: hook.clone(),
                },
            );
        } else {
            push_step(
                &mut steps,
                SetupStep::CopyFile { from: bin_loc.location.clone(), to: hook.clone() },
            );
        }
        push_step(
            &mut steps,
            SetupStep::Symlink {
                target: make_absolute(current_dir, hook.as_str()),
                link: join_entry(subgit_location, subgit_hook_path),
            },
        );
        push_step(
            &mut steps,
            SetupStep::Symlink {
                target: make_absolute(current_dir, hook.as_str()),
                link: join_entry(upstream_location, upstream_hook_path),
            },
        );
        assert(step_views(steps@) == so_far + hook_steps(
            subgit_location@,
            upstream_location@,
            data@,
            current_dir@,
            bin_loc.location@,
            bin_loc.symlink,
            subgit_hook_path@,
            upstream_hook_path@,
        ));

        let subgit_path = match subgit_map_path {
            Some(path) => path.to_owned(),
            None => String::new(),
        };
        let settings = Settings::generate(
            data.as_str(),
            upstream_map_path.to_owned(),
            subgit_path.clone(),
            log_level,
            recursion_detection.clone(),
            crate::text::clone_strings(&filters),
        );
        let wrapped = WrappedSubGit {
            location: subgit_location.to_owned(),
            map: MapStore::new(),
            recursion_detection,
            filters,
            workspace: Workspace { upstream_path: upstream_map_path.to_owned(), local_path: subgit_path },
        };
        SetupPlan { steps, settings, wrapped }
    }
}

impl Setup {
    /// Plans the setup. The hook program is copied, not linked. When the
    /// steps are done, the commits that stand before the first commit of the
    /// directory that is republished are recorded, and all refs are
    /// reconciled.
    pub fn run(self, current_dir: &str) -> (plan: SetupPlan)
        ensures
            step_views(plan.steps@) == creation_steps(
                self.subgit_git_location@,
                self.upstream_git_location@,
                current_dir@,
                self.log_file@,
                self.copy_from@,
                false,
                self.subgit_hook_path@,
                opt_view(self.subgit_working_clone_url),
                self.upstream_hook_path@,
                opt_view(self.upstream_working_clone_url),
            ),
            plan.settings.data_dir@ == data_dir(self.subgit_git_location@),
            plan.settings.internal.upstream_path@ == self.upstream_map_path@,
            plan.settings.internal.subgit_path@ == (match self.subgit_map_path {
                Some(path) => path@,
                None => Seq::<char>::empty(),
            }),
            plan.settings.internal.file_log_level == self.log_level,
            plan.settings.internal.recursion_detection == self.recursion_detection,
            string_views(plan.settings.internal.filters@) == string_views(self.filters@),
            plan.wrapped.wf(),
            plan.wrapped.location@ == self.subgit_git_location@,
            plan.wrapped.recursion_detection == self.recursion_detection,
            plan.wrapped.filters == self.filters,
            plan.wrapped.workspace.upstream_path@ == self.upstream_map_path@,
            plan.wrapped.workspace.local_path@ == plan.settings.internal.subgit_path@,
    {
        let subgit_map_path: Option<&str> = match &self.subgit_map_path {
            Some(path) => Some(path.as_str()),
            None => None,
        };
        WrappedSubGit::run_creation(
            self.subgit_git_location.as_str(),
            self.upstream_git_location.as_str(),
            self.upstream_map_path.as_str(),
            subgit_map_path,
            self.log_level,
            self.log_file.as_str(),
            BinSource { location: self.copy_from, symlink: false },
            self.subgit_hook_path.as_str(),
            self.subgit_working_clone_url,
            self.upstream_hook_path.as_str(),
            self.upstream_working_clone_url,
            self.recursion_detection,
            self.filters,
            current_dir,
        )
    }
}

} // verus!
