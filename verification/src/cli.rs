//! The hook dispatcher: what an invocation of the program is to do, read off
//! its surroundings, its arguments and its input.

use vstd::prelude::*;
use vstd::string::StringExecFns;
use crate::action::{
    entry_of, join_entry, Action, EnvDetect, RecursionDetection, RefSyncRequest, Setup, SubGitEnv,
    SyncAll, SyncRefs, UpdateHook, UpdateWhitelist,
};
use crate::filter::{components, path_components};
use crate::oid::{parsed, Oid};
use crate::settings::LogLevel;
use crate::text::{
    find_char, first_index, from_chars, join, join_chars, join_strings, lines, lines_of, pieces,
    same_str, slice_chars, split, string_views, to_chars, to_strings, trim, trimmed, views,
};

verus! {

/// Why the arguments or the input of an invocation were refused.
#[derive(Debug, PartialEq, Eq)]
pub enum CliError {
    /// The single argument of a hook of the subgit is not `sync-all`.
    InvalidArgument(String),
    /// A hook of the subgit was given neither one argument nor three.
    UnknownArguments(String),
    /// A line of the input of the post-receive hook does not hold three
    /// fields.
    BadArgs,
    /// The text does not name a commit.
    BadSha(String),
    /// Both ways of recursion detection were chosen.
    Configuration,
    /// No setup request came with an invocation outside of any hook.
    MissingRequest,
    /// The invocation is a hook, but no subgit is found beside the hook
    /// program.
    NoSubgit,
}

/// An error that is nothing but its words.
#[derive(Clone, Debug, PartialEq, Eq)]
pub struct StringError {
    pub message: String,
}

impl StringError {
    /// The words of the error.
    pub fn description(&self) -> (r: String)
        ensures
            r@ == self.message@,
    {
        self.message.clone()
    }
}

/// Where the program finds itself.
#[derive(Debug, PartialEq, Eq)]
pub enum ExecEnv {
    /// In a hook of the subgit.
    Subgit(SubGitEnv),
    /// In a hook of the upstream repository.
    Upstream(SubGitEnv),
    /// Outside of any hook: the program, whose path is given, sets a subgit
    /// up.
    Setup(String),
}

/// What the dispatcher is told of the surroundings of the invocation.
#[derive(Clone, Debug, PartialEq, Eq)]
pub struct EnvProbe {
    /// The directory that `GIT_DIR` names, made canonical, where the variable is set.
    pub git_dir: Option<String>,
    /// Whether the hosting server has set `GL_USERNAME`.
    pub gl_username: bool,
    /// The current directory, made canonical.
    pub current_dir: String,
    /// Whether the repository of the hook holds `data/settings.json`.
    pub settings_in_git_dir: bool,
    /// The path of the program, with a link at that path followed once.
    pub hook_path: String,
    /// Whether the directory two levels above `hook_path` holds
    /// `data/settings.json`.
    pub settings_beside_hook: bool,
    /// The path of the program.
    pub current_exe: String,
}

/// The directory above the path: the path without its last component.
/// Nothing for a path without components.
pub open spec fn parent_of(path: Seq<char>) -> Option<Seq<char>> {
    let parts = components(path);
    if parts.len() == 0 {
        None
    } else {
        let rest = join(parts.drop_last(), seq!['/']);
        Some(
            if path.len() > 0 && path[0] == '/' {
                seq!['/'] + rest
            } else {
                rest
            },
        )
    }
}

/// The directory above the path.
pub fn parent_dir(path: &str) -> (r: Option<String>)
    ensures
        r is Some <==> parent_of(path@) is Some,
        r matches Some(dir) ==> Some(dir@) == parent_of(path@),
{
    let chars = to_chars(path);
    let mut parts = path_components(path);
    if parts.len() == 0 {
        return None;
    }
    let ghost all = views(parts@);
    parts.pop();
    assert(views(parts@) == all.drop_last());
    let rest = join_chars(&parts, '/');
    let mut out = String::new();
    if chars.len() > 0 && chars[0] == '/' {
        out.push('/');
    }
    out.append(from_chars(&rest).as_str());
    assert(Seq::<char>::empty() + rest@ == rest@);
    Some(out)
}

/// The subgit that a hook program belongs to: the directory two levels above
/// the program.
pub open spec fn subgit_beside(hook_path: Seq<char>) -> Option<Seq<char>> {
    match parent_of(hook_path) {
        Some(dir) => parent_of(dir),
        None => None,
    }
}

/// The subgit that a hook program belongs to.
pub fn subgit_of_hook(hook_path: &str) -> (r: Option<String>)
    ensures
        r is Some <==> subgit_beside(hook_path@) is Some,
        r matches Some(dir) ==> Some(dir@) == subgit_beside(hook_path@),
{
    match parent_dir(hook_path) {
        Some(dir) => parent_dir(dir.as_str()),
        None => None,
    }
}

/// The name and the value of an environment variable, written with a colon
/// between them. The name ends at the first colon.
pub open spec fn env_detect_of(input: Seq<char>) -> (Seq<char>, Seq<char>) {
    let at = first_index(input, ':');
    (input.take(at), input.skip(at + 1))
}

/// Reads `NAME:VALUE`, where the text holds a colon.
pub fn try_parse_env_detect(input: &str) -> (r: Option<EnvDetect>)
    ensures
        r is Some <==> input@.contains(':'),
        r matches Some(detect) ==> detect.name@ == env_detect_of(input@).0 && detect.value@
            == env_detect_of(input@).1,
{
    let chars = to_chars(input);
    let at = find_char(&chars, ':');
    if at == chars.len() {
        None
    } else {
        assert(chars@.contains(chars@[at as int]));
        let name = slice_chars(&chars, 0, at);
        let value = slice_chars(&chars, at + 1, chars.len());
        assert(chars@.subrange(0, at as int) == chars@.take(at as int));
        assert(chars@.subrange(at + 1, chars.len() as int) == chars@.skip(at + 1));
        Some(EnvDetect { name: from_chars(&name), value: from_chars(&value) })
    }
}

/// Reads `NAME:VALUE`.
pub fn parse_env_base_recursion_detection(input: &str) -> (r: EnvDetect)
    requires
        input@.contains(':'),
    ensures
        r.name@ == env_detect_of(input@).0,
        r.value@ == env_detect_of(input@).1,
{
    try_parse_env_detect(input).unwrap()
}

/// The entries of a list that is written with commas between them.
pub fn str_to_vec(input: String) -> (r: Vec<String>)
    ensures
        string_views(r@) == pieces(input@, ','),
{
    to_strings(&split(&to_chars(input.as_str()), ','))
}

/// A `CliError` as plain values.
pub enum CliErrorView {
    InvalidArgument(Seq<char>),
    UnknownArguments(Seq<char>),
    BadArgs,
    BadSha(Seq<char>),
    Configuration,
    MissingRequest,
    NoSubgit,
}

impl View for CliError {
    type V = CliErrorView;

    open spec fn view(&self) -> CliErrorView {
        match self {
            CliError::InvalidArgument(text) => CliErrorView::InvalidArgument(text@),
            CliError::UnknownArguments(text) => CliErrorView::UnknownArguments(text@),
            CliError::BadArgs => CliErrorView::BadArgs,
            CliError::BadSha(text) => CliErrorView::BadSha(text@),
            CliError::Configuration => CliErrorView::Configuration,
            CliError::MissingRequest => CliErrorView::MissingRequest,
            CliError::NoSubgit => CliErrorView::NoSubgit,
        }
    }
}

impl CliError {
    /// The error in words.
    pub open spec fn text(&self) -> Seq<char> {
        match self {
            CliError::InvalidArgument(text) => "Invalid argument: '"@ + text@ + "'"@,
            CliError::UnknownArguments(text) => "Unknown argument structure: '"@ + text@ + "'"@,
            CliError::BadArgs => "Bad args"@,
            CliError::BadSha(text) => "Not a commit: '"@ + text@ + "'"@,
            CliError::Configuration => "Both ways of recursion detection were chosen"@,
            CliError::MissingRequest => "No setup request"@,
            CliError::NoSubgit => "Cannot find subgit path!"@,
        }
    }

    /// The error in words.
    pub fn message(&self) -> (r: String)
        ensures
            r@ == self.text(),
    {
        match self {
            CliError::InvalidArgument(text) => {
                let mut out = "Invalid argument: '".to_owned();
                out.append(text.as_str());
                out.append("'");
                out
            },
            CliError::UnknownArguments(text) => {
                let mut out = "Unknown argument structure: '".to_owned();
                out.append(text.as_str());
                out.append("'");
                out
            },
            CliError::BadArgs => "Bad args".to_owned(),
            CliError::BadSha(text) => {
                let mut out = "Not a commit: '".to_owned();
                out.append(text.as_str());
                out.append("'");
                out
            },
            CliError::Configuration => "Both ways of recursion detection were chosen".to_owned(),
            CliError::MissingRequest => "No setup request".to_owned(),
            CliError::NoSubgit => "Cannot find subgit path!".to_owned(),
        }
    }

    /// The error for whoever wants nothing but its words.
    pub fn to_string_error(&self) -> (r: StringError)
        ensures
            r.message@ == self.text(),
    {
        StringError { message: self.message() }
    }
}

/// One ref that a push has moved, as the input of the post-receive hook
/// gives it.
pub struct RequestView {
    pub ref_name: Seq<char>,
    pub old_upstream_sha: Oid,
    pub new_upstream_sha: Oid,
}

/// The views of a list of requests.
pub open spec fn request_views(requests: Seq<RefSyncRequest>) -> Seq<RequestView> {
    Seq::new(
        requests.len(),
        |i: int|
            RequestView {
                ref_name: requests[i].ref_name@,
                old_upstream_sha: requests[i].old_upstream_sha,
                new_upstream_sha: requests[i].new_upstream_sha,
            },
    )
}

/// What one line of the input of the post-receive hook says: the old
/// commit, the new commit and the name of the ref, with one blank between
/// them and white space round them.
pub open spec fn line_request(line: Seq<char>) -> Result<RequestView, CliErrorView> {
    let fields = pieces(trimmed(line), ' ');
    if fields.len() != 3 {
        Err(CliErrorView::BadArgs)
    } else {
        match parsed(fields[0]) {
            None => Err(CliErrorView::BadSha(fields[0])),
            Some(old) => match parsed(fields[1]) {
                None => Err(CliErrorView::BadSha(fields[1])),
                Some(new) => Ok(
                    RequestView { ref_name: fields[2], old_upstream_sha: old, new_upstream_sha: new },
                ),
            },
        }
    }
}

/// What the lines of the input of the post-receive hook say: a request for
/// each line, or the error of the first line that is refused.
pub open spec fn line_requests(lines: Seq<Seq<char>>) -> Result<Seq<RequestView>, CliErrorView>
    decreases lines.len(),
{
    if lines.len() == 0 {
        Ok(Seq::empty())
    } else {
        match line_requests(lines.drop_last()) {
            Err(error) => Err(error),
            Ok(before) => match line_request(lines.last()) {
                Err(error) => Err(error),
                Ok(request) => Ok(before.push(request)),
            },
        }
    }
}

/// The request for a ref whose old and new commit were read from the two
/// texts: the text that names no commit is the error.
pub fn request_from(ref_name: String, old_text: String, old: Option<Oid>, new_text: String, new: Option<Oid>) -> (r:
    Result<RefSyncRequest, CliError>)
    ensures
        match (old, new) {
            (None, _) => r matches Err(got) && got@ == CliErrorView::BadSha(old_text@),
            (Some(_), None) => r matches Err(got) && got@ == CliErrorView::BadSha(new_text@),
            (Some(old_sha), Some(new_sha)) => r matches Ok(got) && got.ref_name@ == ref_name@
                && got.old_upstream_sha == old_sha && got.new_upstream_sha == new_sha,
        },
{
    match old {
        None => Err(CliError::BadSha(old_text)),
        Some(old_upstream_sha) => match new {
            None => Err(CliError::BadSha(new_text)),
            Some(new_upstream_sha) => Ok(RefSyncRequest { ref_name, old_upstream_sha, new_upstream_sha }),
        },
    }
}

/// Reads one line of the input of the post-receive hook.
pub fn parse_request_line(line: &Vec<char>) -> (r: Result<RefSyncRequest, CliError>)
    ensures
        match line_request(line@) {
            Ok(request) => r matches Ok(got) && got.ref_name@ == request.ref_name
                && got.old_upstream_sha == request.old_upstream_sha && got.new_upstream_sha
                == request.new_upstream_sha,
            Err(error) => r matches Err(got) && got@ == error,
        },
{
    let fields = split(&trim(line), ' ');
    if fields.len() != 3 {
        return Err(CliError::BadArgs);
    }
    let old_text = from_chars(&fields[0]);
    let new_text = from_chars(&fields[1]);
    let old = Oid::from_str(old_text.as_str());
    let new = Oid::from_str(new_text.as_str());
    request_from(from_chars(&fields[2]), old_text, old, new_text, new)
}

/// Reads the input of the post-receive hook: one line for each ref that the
/// push has moved.
pub fn parse_requests(input: &str) -> (r: Result<Vec<RefSyncRequest>, CliError>)
    ensures
        match line_requests(lines_of(input@)) {
            Ok(requests) => r matches Ok(got) && request_views(got@) == requests,
            Err(error) => r matches Err(got) && got@ == error,
        },
{
    let all = lines(&to_chars(input));
    let mut out: Vec<RefSyncRequest> = Vec::new();
    let mut i: usize = 0;
    proof {
        assert(views(all@).take(0).len() == 0);
        assert(request_views(out@) == Seq::<RequestView>::empty());
    }
    while i < all.len()
        invariant
            i <= all.len(),
            line_requests(views(all@).take(i as int)) == Ok::<Seq<RequestView>, CliErrorView>(
                request_views(out@),
            ),
            views(all@) == lines_of(input@),
        decreases all.len() - i,
    {
        proof {
            let upto = views(all@).take(i + 1);
            assert(upto.drop_last() == views(all@).take(i as int));
            assert(upto.last() == all@[i as int]@);
        }
        match parse_request_line(&all[i]) {
            Err(error) => {
                proof {
                    lemma_line_error_stays(views(all@), i + 1);
                }
                return Err(error);
            },
            Ok(request) => {
                proof {
                    assert(request_views(out@.push(request)) == request_views(out@).push(
                        RequestView {
                            ref_name: request.ref_name@,
                            old_upstream_sha: request.old_upstream_sha,
                            new_upstream_sha: request.new_upstream_sha,
                        },
                    ));
                }
                out.push(request);
            },
        }
        i += 1;
    }
    proof {
        assert(views(all@).take(all.len() as int) == views(all@));
    }
    Ok(out)
}

/// The error of a line stays the error of the input, whatever follows the
/// line.
pub proof fn lemma_line_error_stays(lines: Seq<Seq<char>>, upto: int)
    requires
        0 <= upto <= lines.len(),
        line_requests(lines.take(upto)) is Err,
    ensures
        line_requests(lines) == line_requests(lines.take(upto)),
    decreases lines.len() - upto,
{
    if upto < lines.len() {
        assert(lines.take(upto + 1).drop_last() == lines.take(upto));
        lemma_line_error_stays(lines, upto + 1);
    } else {
        assert(lines.take(upto) == lines);
    }
}

/// The view of a string that may be missing.
pub open spec fn opt_view(text: Option<String>) -> Option<Seq<char>> {
    match text {
        Some(t) => Some(t@),
        None => None,
    }
}

/// The path as it stands under the directory `base`: itself where it begins
/// at the root.
pub open spec fn absolute(base: Seq<char>, path: Seq<char>) -> Seq<char> {
    if path.len() > 0 && path[0] == '/' {
        path
    } else {
        entry_of(base, path)
    }
}

/// The path as it stands under the directory `base`.
pub fn make_absolute(base: &str, path: &str) -> (r: String)
    ensures
        r@ == absolute(base@, path@),
{
    let chars = to_chars(path);
    if chars.len() > 0 && chars[0] == '/' {
        from_chars(&chars)
    } else {
        join_entry(base, path)
    }
}

impl ExecEnv {
    /// Where the program finds itself, by what it is told of its
    /// surroundings.
    ///
    /// It is in a hook where `GIT_DIR` is set or the hosting server has made
    /// itself known. The hook is one of the subgit where the repository of the
    /// hook holds the settings of a subgit, and else one of the upstream
    /// repository, whose subgit lies two levels above the hook program.
    pub fn detect(probe: &EnvProbe) -> (r: Result<ExecEnv, CliError>)
        ensures
            match r {
                Ok(ExecEnv::Setup(path)) => probe.git_dir is None && !probe.gl_username && path@
                    == probe.current_exe@,
                Ok(ExecEnv::Subgit(env)) => (probe.git_dir is Some || probe.gl_username)
                    && probe.settings_in_git_dir && env.git_dir@ == hook_dir(*probe)
                    && env.hook_path@ == entry_of(entry_of(hook_dir(*probe), "data"@), "hook"@),
                Ok(ExecEnv::Upstream(env)) => (probe.git_dir is Some || probe.gl_username)
                    && !probe.settings_in_git_dir && probe.settings_beside_hook && Some(
                    env.git_dir@,
                ) == subgit_beside(probe.hook_path@) && env.hook_path@ == probe.hook_path@,
                Err(error) => (probe.git_dir is Some || probe.gl_username)
                    && !probe.settings_in_git_dir && (!probe.settings_beside_hook || subgit_beside(
                    probe.hook_path@,
                ) is None) && error@ == CliErrorView::NoSubgit,
            },
    {
        let in_hook = probe.git_dir.is_some() || probe.gl_username;
        if in_hook {
            let git_path = match &probe.git_dir {
                Some(dir) => dir.clone(),
                None => probe.current_dir.clone(),
            };
            if probe.settings_in_git_dir {
                let hook_path = join_entry(join_entry(git_path.as_str(), "data").as_str(), "hook");
                Ok(ExecEnv::Subgit(SubGitEnv { git_dir: git_path, hook_path }))
            } else {
                match subgit_of_hook(probe.hook_path.as_str()) {
                    Some(repo_path) => {
                        if probe.settings_beside_hook {
                            Ok(
                                ExecEnv::Upstream(
                                    SubGitEnv { git_dir: repo_path, hook_path: probe.hook_path.clone() },
                                ),
                            )
                        } else {
                            Err(CliError::NoSubgit)
                        }
                    },
                    None => Err(CliError::NoSubgit),
                }
            }
        } else {
            Ok(ExecEnv::Setup(probe.current_exe.clone()))
        }
    }
}

/// The repository of a hook: the directory that `GIT_DIR` names, or the
/// current directory where the variable is not set.
pub open spec fn hook_dir(probe: EnvProbe) -> Seq<char> {
    match probe.git_dir {
        Some(dir) => dir@,
        None => probe.current_dir@,
    }
}

/// What the command line of a setup asks for.
#[derive(Clone, Debug, PartialEq, Eq)]
pub struct SetupRequest {
    /// The location of the bare upstream repository.
    pub upstream_git_location: String,
    /// The location of the bare subgit repository.
    pub subgit_git_location: String,
    /// The directory of the upstream repository that is republished as the
    /// root of the subgit.
    pub upstream_map_path: String,
    /// The directory of the subgit under which the files are placed.
    pub subgit_map_path: Option<String>,
    /// The level at which the hooks write to their log file.
    pub log_level: Option<LogLevel>,
    /// The log file of the setup.
    pub log_file: Option<String>,
    /// The hook of the upstream repository, from its root.
    pub upstream_hook_path: String,
    /// The hook of the subgit, from its root.
    pub subgit_hook_path: String,
    /// Where exports are pushed to, other than the upstream repository itself.
    pub upstream_working_clone_url: Option<String>,
    /// Where imports are pushed to, other than the subgit without its hooks.
    pub subgit_working_clone_url: Option<String>,
    /// The environment variable and its value that mark a push of the
    /// hosting server itself.
    pub env_based_recursion_detection: Option<EnvDetect>,
    /// Whether recursion is detected by marker files.
    pub disable_recursion_detection: bool,
    /// The prefixes of the refs that are mirrored, with commas between them.
    pub match_ref: String,
}

/// The log file of a setup that names none.
pub open spec fn default_log_file() -> Seq<char> {
    "git_subgit_setup.log"@
}

/// The directory of the marker files of a subgit.
pub open spec fn whitelist_dir(current_dir: Seq<char>, subgit: Seq<char>) -> Seq<char> {
    absolute(current_dir, entry_of(entry_of(subgit, "data"@), "whitelist"@))
}

/// An option and its value, where there is a value.
pub open spec fn flag(name: Seq<char>, value: Option<Seq<char>>) -> Seq<Seq<char>> {
    match value {
        Some(v) => seq![name, v],
        None => Seq::empty(),
    }
}

impl SetupRequest {
    /// Both ways of recursion detection are chosen.
    pub open spec fn contradictory(&self) -> bool {
        self.disable_recursion_detection && self.env_based_recursion_detection is Some
    }

    /// The way of recursion detection that the request chooses: marker
    /// files, the environment variable that it names, or else push options.
    pub open spec fn chosen_detection(&self, current_dir: Seq<char>, detection: RecursionDetection) -> bool {
        if self.disable_recursion_detection {
            detection matches RecursionDetection::UpdateWhitelist(whitelist) && whitelist.path@
                == whitelist_dir(current_dir, self.subgit_git_location@)
        } else {
            match self.env_based_recursion_detection {
                Some(detect) => detection matches RecursionDetection::EnvBased(chosen)
                    && chosen.name@ == detect.name@ && chosen.value@ == detect.value@,
                None => detection is UsePushOptions,
            }
        }
    }

    /// The setup that the request asks for.
    pub open spec fn converted(&self, copy_from: Seq<char>, current_dir: Seq<char>, setup: Setup) -> bool {
        &&& setup.copy_from@ == copy_from
        &&& setup.upstream_git_location@ == self.upstream_git_location@
        &&& setup.subgit_git_location@ == self.subgit_git_location@
        &&& setup.upstream_map_path@ == self.upstream_map_path@
        &&& opt_view(setup.subgit_map_path) == opt_view(self.subgit_map_path)
        &&& setup.log_level == (match self.log_level {
            Some(level) => level,
            None => LogLevel::Debug,
        })
        &&& setup.log_file@ == (match self.log_file {
            Some(file) => file@,
            None => default_log_file(),
        })
        &&& setup.upstream_hook_path@ == self.upstream_hook_path@
        &&& setup.subgit_hook_path@ == self.subgit_hook_path@
        &&& opt_view(setup.upstream_working_clone_url) == opt_view(self.upstream_working_clone_url)
        &&& opt_view(setup.subgit_working_clone_url) == opt_view(self.subgit_working_clone_url)
        &&& self.chosen_detection(current_dir, setup.recursion_detection)
        &&& string_views(setup.filters@) == pieces(self.match_ref@, ',')
    }

    /// Turns the request into the setup that it asks for. `copy_from` is the
    /// path of the program, `current_dir` the directory against which the
    /// location of the subgit is read. A request that chooses both ways of
    /// recursion detection is refused.
    pub fn convert(self, copy_from: String, current_dir: &str) -> (r: Result<Action, CliError>)
        ensures
            if self.contradictory() {
                r matches Err(error) && error@ == CliErrorView::Configuration
            } else {
                r matches Ok(Action::Setup(setup)) && self.converted(copy_from@, current_dir@, setup)
            },
    {
        if self.disable_recursion_detection && self.env_based_recursion_detection.is_some() {
            return Err(CliError::Configuration);
        }
        let recursion_detection = if self.disable_recursion_detection {
            let relative = join_entry(
                join_entry(self.subgit_git_location.as_str(), "data").as_str(),
                "whitelist",
            );
            RecursionDetection::UpdateWhitelist(
                UpdateWhitelist { path: make_absolute(current_dir, relative.as_str()) },
            )
        } else {
            match self.env_based_recursion_detection {
                Some(detect) => RecursionDetection::EnvBased(detect),
                None => RecursionDetection::UsePushOptions,
            }
        };
        let log_level = match self.log_level {
            Some(level) => level,
            None => LogLevel::Debug,
        };
        let log_file = match self.log_file {
            Some(file) => file,
            None => "git_subgit_setup.log".to_owned(),
        };
        Ok(
            Action::Setup(
                Setup {
                    copy_from,
                    upstream_git_location: self.upstream_git_location,
                    subgit_git_location: self.subgit_git_location,
                    upstream_map_path: self.upstream_map_path,
                    subgit_map_path: self.subgit_map_path,
                    log_level,
                    log_file,
                    upstream_hook_path: self.upstream_hook_path,
                    subgit_hook_path: self.subgit_hook_path,
                    upstream_working_clone_url: self.upstream_working_clone_url,
                    subgit_working_clone_url: self.subgit_working_clone_url,
                    recursion_detection,
                    filters: str_to_vec(self.match_ref),
                },
            ),
        )
    }

    /// The arguments of a command line that asks for what the request asks
    /// for.
    pub open spec fn args(&self) -> Seq<Seq<char>> {
        seq![self.upstream_git_location@, self.subgit_git_location@, self.upstream_map_path@]
            + flag("-p"@, opt_view(self.subgit_map_path)) + flag(
            "-l"@,
            match self.log_level {
                Some(level) => Some(level.name()),
                None => None,
            },
        ) + flag("-f"@, opt_view(self.log_file)) + seq!["-H"@, self.upstream_hook_path@] + seq![
            "-h"@,
            self.subgit_hook_path@,
        ] + flag("-U"@, opt_view(self.upstream_working_clone_url)) + flag(
            "-u"@,
            opt_view(self.subgit_working_clone_url),
        ) + flag(
            "-r"@,
            match self.env_based_recursion_detection {
                Some(detect) => Some(detect.name@ + seq![':'] + detect.value@),
                None => None,
            },
        ) + (if self.disable_recursion_detection {
            seq!["-w"@]
        } else {
            Seq::empty()
        }) + seq!["-m"@, self.match_ref@]
    }

    /// Writes the request as the arguments of a command line.
    pub fn to_args(&self) -> (r: Vec<String>)
        ensures
            string_views(r@) == self.args(),
    {
        let mut base: Vec<String> = Vec::new();
        push_arg(&mut base, self.upstream_git_location.as_str());
        push_arg(&mut base, self.subgit_git_location.as_str());
        push_arg(&mut base, self.upstream_map_path.as_str());
        assert(string_views(base@) == seq![
            self.upstream_git_location@,
            self.subgit_git_location@,
            self.upstream_map_path@,
        ]);
        push_flag(&mut base, "-p", &self.subgit_map_path);
        match self.log_level {
            Some(level) => {
                push_arg(&mut base, "-l");
                push_arg(&mut base, level.as_str());
                assert(seq!["-l"@, level.name()] == seq!["-l"@].push(level.name()));
            },
            None => {
                assert(string_views(base@) + Seq::<Seq<char>>::empty() == string_views(base@));
            },
        }
        push_flag(&mut base, "-f", &self.log_file);
        push_arg(&mut base, "-H");
        push_arg(&mut base, self.upstream_hook_path.as_str());
        assert(seq!["-H"@, self.upstream_hook_path@] == seq!["-H"@].push(self.upstream_hook_path@));
        push_arg(&mut base, "-h");
        push_arg(&mut base, self.subgit_hook_path.as_str());
        assert(seq!["-h"@, self.subgit_hook_path@] == seq!["-h"@].push(self.subgit_hook_path@));
        push_flag(&mut base, "-U", &self.upstream_working_clone_url);
        push_flag(&mut base, "-u", &self.subgit_working_clone_url);
        match &self.env_based_recursion_detection {
            Some(detect) => {
                let mut value = detect.name.clone();
                value.push(':');
                value.append(detect.value.as_str());
                push_arg(&mut base, "-r");
                push_arg(&mut base, value.as_str());
                assert(seq!["-r"@, value@] == seq!["-r"@].push(value@));
                assert(value@ == detect.name@ + seq![':'] + detect.value@);
            },
            None => {
                assert(string_views(base@) + Seq::<Seq<char>>::empty() == string_views(base@));
            },
        }
        if self.disable_recursion_detection {
            push_arg(&mut base, "-w");
        } else {
            assert(string_views(base@) + Seq::<Seq<char>>::empty() == string_views(base@));
        }
        push_arg(&mut base, "-m");
        push_arg(&mut base, self.match_ref.as_str());
        assert(seq!["-m"@, self.match_ref@] == seq!["-m"@].push(self.match_ref@));
        base
    }
}

/// Appends one argument.
pub fn push_arg(args: &mut Vec<String>, value: &str)
    ensures
        string_views(final(args)@) == string_views(old(args)@) + seq![value@],
{
    let item = value.to_owned();
    proof {
        assert(string_views(args@.push(item)) == string_views(args@) + seq![value@]);
    }
    args.push(item);
}

/// Appends an option and its value, where there is a value.
pub fn push_flag(args: &mut Vec<String>, name: &str, value: &Option<String>)
    ensures
        string_views(final(args)@) == string_views(old(args)@) + flag(name@, opt_view(*value)),
{
    match value {
        Some(v) => {
            push_arg(args, name);
            push_arg(args, v.as_str());
            assert(seq![name@] + seq![v@] == seq![name@, v@]);
        },
        None => {
            assert(string_views(args@) + Seq::<Seq<char>>::empty() == string_views(args@));
        },
    }
}

impl ExecEnv {
    /// What the invocation is to do.
    ///
    /// A hook of the upstream repository is the post-receive hook: its input
    /// names the refs that were moved, and they are imported. A hook of the
    /// subgit with the one argument `sync-all` reconciles all refs; with three
    /// arguments it is the update hook, and exports the ref that the
    /// arguments name. Outside of any hook the request is turned into a setup.
    pub fn parse_command(
        self,
        args: &Vec<String>,
        input: &str,
        request: Option<SetupRequest>,
        current_dir: &str,
    ) -> (r: Result<Action, CliError>)
        ensures
            match self {
                ExecEnv::Upstream(env) => match line_requests(lines_of(input@)) {
                    Ok(requests) => r matches Ok(Action::SyncRefs(sync)) && sync.env == env
                        && request_views(sync.requests@) == requests,
                    Err(error) => r matches Err(got) && got@ == error,
                },
                ExecEnv::Subgit(env) => if args@.len() == 2 {
                    if args@[1]@ == "sync-all"@ {
                        r matches Ok(Action::SyncAll(all)) && all.env == env
                    } else {
                        r matches Err(got) && got@ == CliErrorView::InvalidArgument(args@[1]@)
                    }
                } else if args@.len() == 4 {
                    match parsed(args@[2]@) {
                        None => r matches Err(got) && got@ == CliErrorView::BadSha(args@[2]@),
                        Some(old) => match parsed(args@[3]@) {
                            None => r matches Err(got) && got@ == CliErrorView::BadSha(args@[3]@),
                            Some(new) => r matches Ok(Action::UpdateHook(update)) && update.env == env
                                && update.ref_name@ == args@[1]@ && update.old_sha == old
                                && update.new_sha == new,
                        },
                    }
                } else {
                    r matches Err(got) && got@ == CliErrorView::UnknownArguments(
                        join(string_views(args@), seq![' ']),
                    )
                },
                ExecEnv::Setup(path) => match request {
                    None => r matches Err(got) && got@ == CliErrorView::MissingRequest,
                    Some(asked) => if asked.contradictory() {
                        r matches Err(got) && got@ == CliErrorView::Configuration
                    } else {
                        r matches Ok(Action::Setup(setup)) && asked.converted(
                            path@,
                            current_dir@,
                            setup,
                        )
                    },
                },
            },
    {
        match self {
            ExecEnv::Upstream(env) => {
                match parse_requests(input) {
                    Ok(requests) => Ok(Action::SyncRefs(SyncRefs { env, requests })),
                    Err(error) => Err(error),
                }
            },
            ExecEnv::Subgit(env) => {
                if args.len() == 2 {
                    if same_str(args[1].as_str(), "sync-all") {
                        Ok(Action::SyncAll(SyncAll { env }))
                    } else {
                        Err(CliError::InvalidArgument(args[1].clone()))
                    }
                } else if args.len() == 4 {
                    let old = Oid::from_str(args[2].as_str());
                    let new = Oid::from_str(args[3].as_str());
                    match request_from(args[1].clone(), args[2].clone(), old, args[3].clone(), new) {
                        Ok(request) => Ok(
                            Action::UpdateHook(
                                UpdateHook {
                                    env,
                                    ref_name: request.ref_name,
                                    old_sha: request.old_upstream_sha,
                                    new_sha: request.new_upstream_sha,
                                },
                            ),
                        ),
                        Err(error) => Err(error),
                    }
                } else {
                    Err(CliError::UnknownArguments(join_strings(args, ' ')))
                }
            },
            ExecEnv::Setup(path) => match request {
                None => Err(CliError::MissingRequest),
                Some(asked) => asked.convert(path, current_dir),
            },
        }
    }
}

} // verus!
