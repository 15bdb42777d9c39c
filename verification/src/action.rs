//! The recursion guard and the actions that a hook invocation can ask for.

use vstd::prelude::*;
use vstd::string::StringExecFns;
use crate::oid::{hex_text, no_sha, parsed, zero_oid, Oid};
use crate::port::{GitCommand, GitCommandView};
use crate::settings::LogLevel;
use crate::text::{from_chars, replace_char, replaced, same_str, string_views, to_chars};

verus! {

/// The push option that marks a push as made by the synchronisation itself.
pub open spec fn ignore_option() -> Seq<char> {
    "IGNORE_SUBGIT_UPDATE"@
}

/// Where the repository of a hook invocation lies, and the hook program.
#[derive(Clone, Debug, PartialEq, Eq)]
pub struct SubGitEnv {
    pub git_dir: String,
    pub hook_path: String,
}

/// The import of what a push to the upstream repository has moved.
#[derive(Clone, Debug, PartialEq, Eq)]
pub struct SyncRefs {
    pub requests: Vec<RefSyncRequest>,
    pub env: SubGitEnv,
}

/// The reconciliation of all refs.
#[derive(Clone, Debug, PartialEq, Eq)]
pub struct SyncAll {
    pub env: SubGitEnv,
}

/// The export of one ref that a push to the subgit is about to move.
#[derive(Clone, Debug, PartialEq, Eq)]
pub struct UpdateHook {
    pub env: SubGitEnv,
    pub ref_name: String,
    pub old_sha: Oid,
    pub new_sha: Oid,
}

/// What the post-receive hook of the upstream repository was given, to be
/// handed on to the hook program of the subgit.
#[derive(Clone, Debug, PartialEq, Eq)]
pub struct RequestSync {
    pub env: SubGitEnv,
    pub stdin: Vec<u8>,
}

/// The setup of a subgit beside an upstream repository.
#[derive(Debug, PartialEq, Eq)]
pub struct Setup {
    /// Where the hook program is copied from.
    pub copy_from: String,
    pub upstream_git_location: String,
    pub subgit_git_location: String,
    /// The directory of the upstream repository that is republished.
    pub upstream_map_path: String,
    /// The directory of the subgit under which it is republished; its root
    /// where none is given.
    pub subgit_map_path: Option<String>,
    pub log_level: LogLevel,
    pub log_file: String,
    pub upstream_hook_path: String,
    pub subgit_hook_path: String,
    pub upstream_working_clone_url: Option<String>,
    pub subgit_working_clone_url: Option<String>,
    pub recursion_detection: RecursionDetection,
    pub filters: Vec<String>,
}

/// What an invocation of the program is to do.
#[derive(Debug, PartialEq, Eq)]
pub enum Action {
    SyncRefs(SyncRefs),
    SyncAll(SyncAll),
    Setup(Setup),
    UpdateHook(UpdateHook),
}

/// One ref that a push to the upstream repository has moved.
#[derive(Clone, Debug, PartialEq, Eq)]
pub struct RefSyncRequest {
    pub ref_name: String,
    pub old_upstream_sha: Oid,
    pub new_upstream_sha: Oid,
}

/// An environment variable and the value that marks a push as made by the
/// hosting server itself.
#[derive(Debug, PartialEq, Eq)]
pub struct EnvDetect {
    pub name: String,
    pub value: String,
}

/// The directory of the marker files that are written round each push of
/// the synchronisation.
#[derive(Debug, PartialEq, Eq)]
pub struct UpdateWhitelist {
    pub path: String,
}

/// How a hook finds out that its invocation was caused by a push of the
/// synchronisation itself.
#[derive(Debug, PartialEq, Eq)]
pub enum RecursionDetection {
    Disabled,
    UsePushOptions,
    EnvBased(EnvDetect),
    UpdateWhitelist(UpdateWhitelist),
}

/// Whether the invocation was caused by the synchronisation itself, and why
/// the guard says so.
#[derive(Clone, Debug, PartialEq, Eq)]
pub struct RecursionStatus {
    pub is_recursing: bool,
    pub reason: String,
}

impl Clone for EnvDetect {
    fn clone(&self) -> (r: EnvDetect)
        ensures
            r == *self,
    {
        EnvDetect { name: self.name.clone(), value: self.value.clone() }
    }
}

impl Clone for UpdateWhitelist {
    fn clone(&self) -> (r: UpdateWhitelist)
        ensures
            r == *self,
    {
        UpdateWhitelist { path: self.path.clone() }
    }
}

impl Clone for RecursionDetection {
    fn clone(&self) -> (r: RecursionDetection)
        ensures
            r == *self,
    {
        match self {
            RecursionDetection::Disabled => RecursionDetection::Disabled,
            RecursionDetection::UsePushOptions => RecursionDetection::UsePushOptions,
            RecursionDetection::EnvBased(detect) => RecursionDetection::EnvBased(detect.clone()),
            RecursionDetection::UpdateWhitelist(whitelist) => RecursionDetection::UpdateWhitelist(
                whitelist.clone(),
            ),
        }
    }
}

/// What a hook invocation can see of its surroundings, as far as the
/// recursion guard asks.
#[derive(Clone, Debug, PartialEq, Eq)]
pub struct HookContext {
    /// The arguments of the invocation, the program first.
    pub args: Vec<String>,
    /// The push options of the push that caused the invocation, where Git
    /// hands any on.
    pub push_options: Option<Vec<String>>,
    /// The value of the variable that `watched_variable` names, where the
    /// variable is set.
    pub env_value: Option<String>,
    /// Whether the file that `watched_marker` names exists.
    pub marker_exists: bool,
}

/// The name of a ref with every slash turned into a colon, so that it can
/// stand in a file name.
pub open spec fn colonized(name: Seq<char>) -> Seq<char> {
    replaced(name, '/', ':')
}

/// The file name of the marker for a push of `sha` to the ref.
pub open spec fn marker_name(ref_name: Seq<char>, sha: Oid) -> Seq<char> {
    colonized(ref_name) + seq!['-'] + hex_text(sha@)
}

/// `name` as an entry of the directory `dir`.
pub open spec fn entry_of(dir: Seq<char>, name: Seq<char>) -> Seq<char> {
    if dir.len() == 0 || dir.last() == '/' {
        dir + name
    } else {
        dir + seq!['/'] + name
    }
}

/// The name of a ref with every slash turned into a colon.
pub fn convert_ref_name(name: &str) -> (r: String)
    ensures
        r@ == colonized(name@),
{
    from_chars(&replace_char(&to_chars(name), '/', ':'))
}

/// The file name of the marker for a push of `sha` to the ref.
pub fn get_file_name(ref_name: &str, sha: Oid) -> (r: String)
    ensures
        r@ == marker_name(ref_name@, sha),
{
    let mut name = convert_ref_name(ref_name);
    name.push('-');
    name.append(sha.to_hex().as_str());
    name
}

/// The digits with a slash behind each of the first four: the place of a
/// commit in a tree of directories that holds one file for each commit.
pub open spec fn fanned_out(digits: Seq<char>) -> Seq<char>
    decreases digits.len(),
{
    if digits.len() == 0 {
        Seq::empty()
    } else if digits.len() <= 4 {
        fanned_out(digits.drop_last()).push(digits.last()).push('/')
    } else {
        fanned_out(digits.drop_last()).push(digits.last())
    }
}

/// The place of a commit in a tree of directories that holds one file for
/// each commit: its forty digits, the first four of which are directories.
pub fn sha_path(sha: &Oid) -> (r: String)
    ensures
        r@ == fanned_out(hex_text(sha@)),
{
    let digits = to_chars(sha.to_hex().as_str());
    let mut out = String::new();
    let mut i: usize = 0;
    assert(digits@.take(0).len() == 0);
    while i < digits.len()
        invariant
            i <= digits.len(),
            out@ == fanned_out(digits@.take(i as int)),
        decreases digits.len() - i,
    {
        proof {
            assert(digits@.take(i + 1).drop_last() == digits@.take(i as int));
            assert(digits@.take(i + 1).last() == digits@[i as int]);
        }
        out.push(digits[i]);
        if i < 4 {
            out.push('/');
        }
        i += 1;
    }
    proof {
        assert(digits@.take(digits.len() as int) == digits@);
    }
    out
}

/// `name` as an entry of the directory `dir`.
pub fn join_entry(dir: &str, name: &str) -> (r: String)
    ensures
        r@ == entry_of(dir@, name@),
{
    let chars = to_chars(dir);
    let mut out = from_chars(&chars);
    if chars.len() > 0 && chars[chars.len() - 1] != '/' {
        out.push('/');
    }
    out.append(name);
    out
}

impl UpdateWhitelist {
    /// The path of the marker file for the push that an update hook was
    /// told of, given the new commit as far as it could be read: a new commit
    /// that could not be read counts as no commit.
    pub fn handle_of_update(&self, ref_name: &str, new: Option<Oid>) -> (r: String)
        ensures
            r@ == self.handle(
                ref_name@,
                match new {
                    Some(sha) => sha,
                    None => zero_oid(),
                },
            ),
    {
        let sha = match new {
            Some(sha) => sha,
            None => no_sha(),
        };
        self.get_handle(ref_name, sha)
    }

    /// The path of the marker file for a push of `sha` to the ref.
    pub open spec fn handle(&self, ref_name: Seq<char>, sha: Oid) -> Seq<char> {
        entry_of(self.path@, marker_name(ref_name, sha))
    }

    /// The path of the marker file for a push of `sha` to the ref.
    pub fn get_handle(&self, ref_name: &str, sha: Oid) -> (r: String)
        ensures
            r@ == self.handle(ref_name@, sha),
    {
        join_entry(self.path.as_str(), get_file_name(ref_name, sha).as_str())
    }
}

/// Is told of each push of the synchronisation, before it is made and after.
pub trait PushListener {
    /// The marker file that stands while the push is under way, if there is one.
    spec fn marker(&self, ref_name: Seq<char>, sha: Oid) -> Option<Seq<char>>;

    /// What is to be done before `sha` is pushed to the ref.
    fn pre_push(&self, ref_name: &str, sha: Oid) -> (r: Option<GitCommand>)
        ensures
            r is Some <==> self.marker(ref_name@, sha) is Some,
            r matches Some(command) ==> command@ == (GitCommandView::CreateMarker {
                path: self.marker(ref_name@, sha).unwrap(),
            }),
    ;

    /// What is to be done after `sha` was pushed to the ref.
    fn post_push(&self, ref_name: &str, sha: Oid) -> (r: Option<GitCommand>)
        ensures
            r is Some <==> self.marker(ref_name@, sha) is Some,
            r matches Some(command) ==> command@ == (GitCommandView::RemoveMarker {
                path: self.marker(ref_name@, sha).unwrap(),
            }),
    ;
}

impl PushListener for RecursionDetection {
    open spec fn marker(&self, ref_name: Seq<char>, sha: Oid) -> Option<Seq<char>> {
        match self {
            RecursionDetection::UpdateWhitelist(whitelist) => Some(whitelist.handle(ref_name, sha)),
            _ => None,
        }
    }

    fn pre_push(&self, ref_name: &str, sha: Oid) -> (r: Option<GitCommand>) {
        match self {
            RecursionDetection::UpdateWhitelist(whitelist) => Some(
                GitCommand::CreateMarker { path: whitelist.get_handle(ref_name, sha) },
            ),
            _ => None,
        }
    }

    fn post_push(&self, ref_name: &str, sha: Oid) -> (r: Option<GitCommand>) {
        match self {
            RecursionDetection::UpdateWhitelist(whitelist) => Some(
                GitCommand::RemoveMarker { path: whitelist.get_handle(ref_name, sha) },
            ),
            _ => None,
        }
    }
}

impl RecursionDetection {
    /// The push options that the synchronisation gives to its own pushes.
    pub open spec fn push_opts(&self) -> Option<Seq<Seq<char>>> {
        match self {
            RecursionDetection::UsePushOptions => Some(seq![ignore_option()]),
            _ => None,
        }
    }

    /// The push options that the synchronisation gives to its own pushes, so
    /// that the hook of the other side knows them.
    pub fn get_push_opts(&self) -> (r: Option<Vec<String>>)
        ensures
            r is Some <==> self.push_opts() is Some,
            r matches Some(list) ==> Some(string_views(list@)) == self.push_opts(),
    {
        match self {
            RecursionDetection::UsePushOptions => {
                let list = vec!["IGNORE_SUBGIT_UPDATE".to_owned()];
                assert(string_views(list@) == seq![ignore_option()]);
                Some(list)
            },
            RecursionDetection::EnvBased(_) => None,
            RecursionDetection::Disabled => None,
            RecursionDetection::UpdateWhitelist(_) => None,
        }
    }

    /// The environment variable whose value the guard asks for.
    pub fn watched_variable(&self) -> (r: Option<String>)
        ensures
            r is Some <==> self is EnvBased,
            r matches Some(name) ==> name@ == self->EnvBased_0.name@,
    {
        match self {
            RecursionDetection::EnvBased(detect) => Some(detect.name.clone()),
            _ => None,
        }
    }

    /// The marker file that stands for the push that the arguments speak of.
    pub open spec fn marker_of(&self, args: Seq<Seq<char>>) -> Option<Seq<char>> {
        match self {
            RecursionDetection::UpdateWhitelist(whitelist) => if args.len() > 3 {
                Some(
                    whitelist.handle(
                        args[1],
                        match parsed(args[3]) {
                            Some(sha) => sha,
                            None => zero_oid(),
                        },
                    ),
                )
            } else {
                None
            },
            _ => None,
        }
    }

    /// The marker file whose existence the guard asks for: that of the push
    /// that the arguments of an update hook speak of.
    pub fn watched_marker(&self, args: &Vec<String>) -> (r: Option<String>)
        ensures
            r is Some <==> self.marker_of(string_views(args@)) is Some,
            r matches Some(path) ==> Some(path@) == self.marker_of(string_views(args@)),
    {
        match self {
            RecursionDetection::UpdateWhitelist(whitelist) => {
                if args.len() > 3 {
                    let new = Oid::from_str(args[3].as_str());
                    Some(whitelist.handle_of_update(args[1].as_str(), new))
                } else {
                    None
                }
            },
            _ => None,
        }
    }

    /// Whether the invocation was caused by the synchronisation itself.
    pub open spec fn recursing(&self, context: HookContext) -> bool {
        match self {
            RecursionDetection::Disabled => false,
            RecursionDetection::UsePushOptions => match context.push_options {
                Some(options) => string_views(options@).contains(ignore_option()),
                None => false,
            },
            RecursionDetection::EnvBased(detect) => match context.env_value {
                Some(value) => value@ == detect.value@,
                None => false,
            },
            RecursionDetection::UpdateWhitelist(_) => context.args@.len() > 3
                && context.marker_exists,
        }
    }

    /// Why the guard says what it says.
    pub open spec fn reason(&self, context: HookContext) -> Seq<char> {
        match self {
            RecursionDetection::Disabled => "Disabled"@,
            RecursionDetection::UsePushOptions => if self.recursing(context) {
                "Found 'IGNORE_SUBGIT_UPDATE' as a git push option env variable value"@
            } else {
                "Didn't find 'IGNORE_SUBGIT_UPDATE' as a git push option env variable value"@
            },
            RecursionDetection::EnvBased(detect) => match context.env_value {
                Some(value) => if value@ == detect.value@ {
                    "Found variable "@ + detect.name@ + " with value "@ + detect.value@
                } else {
                    "Found variable "@ + detect.name@ + " with value "@ + value@ + " (needed "@
                        + detect.value@ + " as the value)"@
                },
                None => "Didn't find an env variable named "@ + detect.name@,
            },
            RecursionDetection::UpdateWhitelist(_) => match self.marker_of(
                string_views(context.args@),
            ) {
                Some(path) => if context.marker_exists {
                    "Found file "@ + path + " matching update request"@
                } else {
                    "Could not find file "@ + path + " matching update request"@
                },
                None => "No update hook detected."@,
            },
        }
    }

    /// Decides whether the invocation was caused by a push of the
    /// synchronisation itself.
    pub fn detect_recursion(&self, context: &HookContext) -> (r: RecursionStatus)
        ensures
            r.is_recursing == self.recursing(*context),
            r.reason@ == self.reason(*context),
    {
        match self {
            RecursionDetection::Disabled => RecursionStatus {
                is_recursing: false,
                reason: "Disabled".to_owned(),
            },
            RecursionDetection::UsePushOptions => {
                let found = match &context.push_options {
                    Some(options) => holds_string(options, "IGNORE_SUBGIT_UPDATE"),
                    None => false,
                };
                if found {
                    RecursionStatus {
                        is_recursing: true,
                        reason: "Found 'IGNORE_SUBGIT_UPDATE' as a git push option env variable value".to_owned(),
                    }
                } else {
                    RecursionStatus {
                        is_recursing: false,
                        reason: "Didn't find 'IGNORE_SUBGIT_UPDATE' as a git push option env variable value".to_owned(),
                    }
                }
            },
            RecursionDetection::EnvBased(detect) => {
                match &context.env_value {
                    Some(value) => {
                        if same_str(value.as_str(), detect.value.as_str()) {
                            let mut reason = "Found variable ".to_owned();
                            reason.append(detect.name.as_str());
                            reason.append(" with value ");
                            reason.append(detect.value.as_str());
                            RecursionStatus { is_recursing: true, reason }
                        } else {
                            let mut reason = "Found variable ".to_owned();
                            reason.append(detect.name.as_str());
                            reason.append(" with value ");
                            reason.append(value.as_str());
                            reason.append(" (needed ");
                            reason.append(detect.value.as_str());
                            reason.append(" as the value)");
                            RecursionStatus { is_recursing: false, reason }
                        }
                    },
                    None => {
                        let mut reason = "Didn't find an env variable named ".to_owned();
                        reason.append(detect.name.as_str());
                        RecursionStatus { is_recursing: false, reason }
                    },
                }
            },
            RecursionDetection::UpdateWhitelist(_) => {
                match self.watched_marker(&context.args) {
                    Some(path) => {
                        if context.marker_exists {
                            let mut reason = "Found file ".to_owned();
                            reason.append(path.as_str());
                            reason.append(" matching update request");
                            RecursionStatus { is_recursing: true, reason }
                        } else {
                            let mut reason = "Could not find file ".to_owned();
                            reason.append(path.as_str());
                            reason.append(" matching update request");
                            RecursionStatus { is_recursing: false, reason }
                        }
                    },
                    None => RecursionStatus {
                        is_recursing: false,
                        reason: "No update hook detected.".to_owned(),
                    },
                }
            },
        }
    }
}

/// Whether the list holds the string.
pub fn holds_string(list: &Vec<String>, item: &str) -> (r: bool)
    ensures
        r == string_views(list@).contains(item@),
{
    let mut i: usize = 0;
    while i < list.len()
        invariant
            i <= list.len(),
            forall|k: int| 0 <= k < i ==> string_views(list@)[k] != item@,
        decreases list.len() - i,
    {
        if same_str(list[i].as_str(), item) {
            assert(string_views(list@)[i as int] == item@);
            return true;
        }
        i += 1;
    }
    false
}

} // verus!
