//! Invocation classification and intrinsic-command planning.
//!
//! An invocation is either an intrinsic command handled end-to-end, a
//! wrapped subcommand (`commit`, `blame`) that runs extra logic around or
//! instead of the native tool, or a transparent passthrough. With neither
//! an intrinsic command nor trailing arguments the invocation is a usage
//! error.

use vstd::prelude::*;

use crate::blame::parse_file_with_line_range;
use crate::blame::spec_blame_target;

verus! {

/// Character-by-character string equality, proved against the views.
pub fn str_eq(a: &str, b: &str) -> (r: bool)
    ensures
        r == (a@ == b@),
{
    let alen = a.unicode_len();
    let blen = b.unicode_len();
    if alen != blen {
        return false;
    }
    let mut i: usize = 0;
    while i < alen
        invariant
            i <= alen,
            alen == a@.len(),
            alen == b@.len(),
            forall|j: int| 0 <= j < i ==> a@[j] == b@[j],
        decreases alen - i,
    {
        if a.get_char(i) != b.get_char(i) {
            return false;
        }
        i += 1;
    }
    proof {
        assert(a@ =~= b@);
    }
    true
}

/// What is done with a subcommand that is not intrinsic.
#[derive(Clone, Copy, Debug, PartialEq, Eq, Structural)]
pub enum Disposition {
    /// `commit`: wrapped with the pre- and post-commit hooks.
    WrappedCommit,
    /// `blame`: answered by an authorship query instead of the native tool.
    WrappedBlame,
    /// Anything else: forwarded to the native tool verbatim.
    Transparent,
}

/// Classification of a subcommand name.
pub open spec fn spec_classify(cmd: Seq<char>) -> Disposition {
    if cmd == "commit"@ {
        Disposition::WrappedCommit
    } else if cmd == "blame"@ {
        Disposition::WrappedBlame
    } else {
        Disposition::Transparent
    }
}

/// Executable form of [`spec_classify`].
pub fn classify_subcommand(cmd: &str) -> (d: Disposition)
    ensures
        d == spec_classify(cmd@),
{
    if str_eq(cmd, "commit") {
        Disposition::WrappedCommit
    } else if str_eq(cmd, "blame") {
        Disposition::WrappedBlame
    } else {
        Disposition::Transparent
    }
}

/// How a transparently proxied subcommand's arguments are prepared:
/// `fetch` and `push` may be augmented; everything else is forwarded
/// exactly as given.
#[derive(Clone, Copy, Debug, PartialEq, Eq, Structural)]
pub enum ProxyKind {
    Fetch,
    Push,
    Other,
}

/// Classification of a proxied subcommand for argument preparation.
pub open spec fn spec_proxy_kind(cmd: Seq<char>) -> ProxyKind {
    if cmd == "fetch"@ {
        ProxyKind::Fetch
    } else if cmd == "push"@ {
        ProxyKind::Push
    } else {
        ProxyKind::Other
    }
}

/// Executable form of [`spec_proxy_kind`].
pub fn proxy_kind(cmd: &str) -> (k: ProxyKind)
    ensures
        k == spec_proxy_kind(cmd@),
{
    if str_eq(cmd, "fetch") {
        ProxyKind::Fetch
    } else if str_eq(cmd, "push") {
        ProxyKind::Push
    } else {
        ProxyKind::Other
    }
}

/// The one decision the proxy takes per invocation.
#[derive(Clone, Copy, Debug, PartialEq, Eq, Structural)]
pub enum Route {
    /// An intrinsic command was given; handle it without proxying.
    Intrinsic,
    /// Neither an intrinsic command nor trailing arguments: print usage
    /// guidance and exit with code 1.
    Usage,
    /// The first trailing argument decides what happens.
    Proxy(Disposition),
}

/// Where an invocation goes: intrinsic commands first, a usage error
/// without any arguments, otherwise by the first trailing argument.
pub open spec fn spec_route(has_intrinsic: bool, args: Seq<Seq<char>>) -> Route {
    if has_intrinsic {
        Route::Intrinsic
    } else if args.len() == 0 {
        Route::Usage
    } else {
        Route::Proxy(spec_classify(args[0]))
    }
}

/// Executable form of [`spec_route`]. `has_intrinsic` says whether the
/// caller parsed an intrinsic subcommand; `args` are the trailing
/// arguments to be proxied.
pub fn route_invocation(has_intrinsic: bool, args: &Vec<String>) -> (r: Route)
    ensures
        r == spec_route(has_intrinsic, args.deep_view()),
{
    if has_intrinsic {
        Route::Intrinsic
    } else if args.len() == 0 {
        Route::Usage
    } else {
        proof {
            assert(args.deep_view()[0] == args@[0]@);
        }
        Route::Proxy(classify_subcommand(args[0].as_str()))
    }
}

/// An invocation with no intrinsic subcommand and no trailing arguments
/// is a usage error, and nothing else is.
pub proof fn lemma_no_arguments_is_usage_error(has_intrinsic: bool, args: Seq<Seq<char>>)
    ensures
        spec_route(has_intrinsic, args) == Route::Usage <==> (!has_intrinsic && args.len() == 0),
{
}

/// The first line of the usage guidance printed for [`Route::Usage`].
pub fn usage_message() -> (r: String)
    ensures
        r@ == "Usage: git-ai <git-command> or git-ai <git-ai-command>"@,
{
    "Usage: git-ai <git-command> or git-ai <git-ai-command>".to_owned()
}

/// Whether debug messages are printed: in a development build, or when
/// either development environment variable is set.
pub fn debug_logging_enabled(cargo_running: bool, rust_backtrace: bool, debug_build: bool) -> (r:
    bool)
    ensures
        r == (cargo_running || rust_backtrace || debug_build),
{
    cargo_running || rust_backtrace || debug_build
}

/// The author configuration resolved once per invocation: the configured
/// user name, or the literal `unknown` when the lookup failed.
pub fn default_author(config_user_name: Option<String>) -> (r: String)
    ensures
        r@ == match config_user_name {
            Some(name) => name@,
            None => "unknown"@,
        },
{
    match config_user_name {
        Some(name) => name,
        None => "unknown".to_owned(),
    }
}

/// An intrinsic command as parsed from the command line.
#[derive(Clone, Debug)]
pub enum IntrinsicCommand {
    /// Record the current working-tree state for attribution.
    Checkpoint { author: Option<String>, show_working_log: bool, reset: bool, model: Option<
        String,
    > },
    /// Line-by-line ownership for one file, optionally restricted to a
    /// line range given as a suffix of the file argument.
    Blame { file: String },
    /// Authorship statistics for one commit.
    Stats { sha: Option<String> },
}

/// An intrinsic command resolved to the plain values the authorship
/// engine is called with.
#[derive(Clone, Debug)]
pub enum IntrinsicPlan {
    Checkpoint {
        author: String,
        show_working_log: bool,
        reset: bool,
        is_amend: bool,
        model: Option<String>,
        default_author: String,
    },
    Blame { path: String, range: Option<(u32, u32)> },
    Stats { sha: String },
}

/// Resolves an intrinsic command against the default author: a
/// checkpoint takes the author override or the default and is never an
/// amend; a blame argument is split into path and line range; a stats
/// query defaults to `HEAD`.
pub fn plan_intrinsic(cmd: IntrinsicCommand, default_author: String) -> (p: IntrinsicPlan)
    ensures
        match cmd {
            IntrinsicCommand::Checkpoint { author, show_working_log, reset, model } => {
                &&& p matches IntrinsicPlan::Checkpoint {
                    author: pa,
                    show_working_log: pw,
                    reset: pr,
                    is_amend: pm_amend,
                    model: pm,
                    default_author: pd,
                }
                &&& pa@ == match author {
                    Some(a) => a@,
                    None => default_author@,
                }
                &&& pw == show_working_log
                &&& pr == reset
                &&& pm_amend == false
                &&& pm == model
                &&& pd@ == default_author@
            },
            IntrinsicCommand::Blame { file } => {
                &&& p matches IntrinsicPlan::Blame { path, range }
                &&& (path@, range) == spec_blame_target(file@)
            },
            IntrinsicCommand::Stats { sha } => {
                &&& p matches IntrinsicPlan::Stats { sha: ps }
                &&& ps@ == match sha {
                    Some(s) => s@,
                    None => "HEAD"@,
                }
            },
        },
{
    match cmd {
        IntrinsicCommand::Checkpoint { author, show_working_log, reset, model } => {
            let chosen = match author {
                Some(a) => a,
                None => default_author.clone(),
            };
            IntrinsicPlan::Checkpoint {
                author: chosen,
                show_working_log,
                reset,
                is_amend: false,
                model,
                default_author,
            }
        },
        IntrinsicCommand::Blame { file } => {
            let (path, range) = parse_file_with_line_range(file.as_str());
            IntrinsicPlan::Blame { path, range }
        },
        IntrinsicCommand::Stats { sha } => {
            let resolved = match sha {
                Some(s) => s,
                None => "HEAD".to_owned(),
            };
            IntrinsicPlan::Stats { sha: resolved }
        },
    }
}

} // verus!
