//! Argument augmentation for fetch and push.
//!
//! A "simple" fetch or push — no arguments, or a single non-flag
//! argument naming the remote — is rewritten to name the remote
//! explicitly, repeat the refspecs already configured for it, and append
//! one auxiliary refspec that synchronizes the authorship namespace.
//! Anything else passes through unchanged, as does everything when no
//! repository can be found: augmentation is best-effort and never the
//! cause of a command failure.

use vstd::prelude::*;

verus! {

/// Whether a fetch or push invocation is simple: no arguments, or a
/// single argument that is not a flag (does not begin with `-`).
pub open spec fn spec_is_simple(args: Seq<Seq<char>>) -> bool {
    ||| args.len() == 0
    ||| (args.len() == 1 && !(args[0].len() > 0 && args[0][0] == '-'))
}

/// Executable form of [`spec_is_simple`].
pub fn is_simple_invocation(args: &Vec<String>) -> (b: bool)
    ensures
        b == spec_is_simple(args.deep_view()),
{
    if args.len() == 0 {
        true
    } else if args.len() == 1 {
        let first: &str = args[0].as_str();
        proof {
            assert(args.deep_view()[0] == args@[0]@);
        }
        if first.unicode_len() == 0 {
            true
        } else {
            first.get_char(0) != '-'
        }
    } else {
        false
    }
}

/// The remote a simple invocation addresses: its single argument, or
/// `origin` when there is none.
pub open spec fn spec_remote_of(args: Seq<Seq<char>>) -> Seq<char> {
    if args.len() > 0 {
        args[0]
    } else {
        "origin"@
    }
}

/// Executable form of [`spec_remote_of`].
pub fn remote_name(args: &Vec<String>) -> (r: String)
    ensures
        r@ == spec_remote_of(args.deep_view()),
{
    if args.len() > 0 {
        proof {
            assert(args.deep_view()[0] == args@[0]@);
        }
        args[0].clone()
    } else {
        "origin".to_owned()
    }
}

/// The auxiliary fetch refspec: it force-updates a remote-tracking copy
/// of the authorship namespace for the given remote.
pub open spec fn spec_fetch_aux(remote: Seq<char>) -> Seq<char> {
    "+refs/ai/authorship/*:refs/remotes/"@ + remote + "/ai/authorship/*"@
}

/// The auxiliary push refspec: it uploads the authorship namespace as
/// is, with no remote-specific part.
pub open spec fn spec_push_aux() -> Seq<char> {
    "refs/ai/authorship/*:refs/ai/authorship/*"@
}

/// Builds the auxiliary fetch refspec for a remote.
pub fn fetch_aux_refspec(remote: &str) -> (r: String)
    ensures
        r@ == spec_fetch_aux(remote@),
{
    let mut s = "+refs/ai/authorship/*:refs/remotes/".to_owned();
    s.append(remote);
    s.append("/ai/authorship/*");
    s
}

/// Builds the auxiliary push refspec.
pub fn push_aux_refspec() -> (r: String)
    ensures
        r@ == spec_push_aux(),
{
    "refs/ai/authorship/*:refs/ai/authorship/*".to_owned()
}

/// The configuration key that lists a remote's fetch refspecs.
pub open spec fn spec_fetch_config_key(remote: Seq<char>) -> Seq<char> {
    "remote."@ + remote + ".fetch"@
}

/// The configuration key that lists a remote's push refspecs.
pub open spec fn spec_push_config_key(remote: Seq<char>) -> Seq<char> {
    "remote."@ + remote + ".push"@
}

/// Builds the configuration key for a remote's fetch refspecs.
pub fn fetch_config_key(remote: &str) -> (r: String)
    ensures
        r@ == spec_fetch_config_key(remote@),
{
    let mut s = "remote.".to_owned();
    s.append(remote);
    s.append(".fetch");
    s
}

/// Builds the configuration key for a remote's push refspecs.
pub fn push_config_key(remote: &str) -> (r: String)
    ensures
        r@ == spec_push_config_key(remote@),
{
    let mut s = "remote.".to_owned();
    s.append(remote);
    s.append(".push");
    s
}

/// The rebuilt argument list of an augmented simple invocation: the
/// remote, its configured refspecs in order, then the auxiliary refspec.
pub open spec fn spec_build_args(
    remote: Seq<char>,
    refspecs: Seq<Seq<char>>,
    aux: Seq<char>,
) -> Seq<Seq<char>> {
    seq![remote] + refspecs + seq![aux]
}

/// Builds `[remote, refspecs.., aux]` as owned strings.
fn build_args(remote: String, refspecs: &Vec<String>, aux: String) -> (r: Vec<String>)
    ensures
        r.deep_view() == spec_build_args(remote@, refspecs.deep_view(), aux@),
{
    let ghost rv = remote@;
    let ghost av = aux@;
    let mut out: Vec<String> = Vec::new();
    out.push(remote);
    proof {
        assert(out.deep_view() =~= seq![rv]);
    }
    let mut i: usize = 0;
    while i < refspecs.len()
        invariant
            i <= refspecs.len(),
            out.deep_view() =~= seq![rv] + refspecs.deep_view().take(i as int),
        decreases refspecs.len() - i,
    {
        let ghost pre = out.deep_view();
        out.push(refspecs[i].clone());
        proof {
            assert(out.deep_view() =~= pre.push(refspecs.deep_view()[i as int]));
            assert(out.deep_view() =~= seq![rv] + refspecs.deep_view().take(i + 1));
        }
        i += 1;
    }
    let ghost pre = out.deep_view();
    out.push(aux);
    proof {
        assert(refspecs.deep_view().take(refspecs@.len() as int) =~= refspecs.deep_view());
        assert(out.deep_view() =~= pre.push(av));
        assert(out.deep_view() =~= spec_build_args(rv, refspecs.deep_view(), av));
    }
    out
}

/// The final arguments of a fetch: a simple invocation with a repository
/// found becomes `[remote, configured fetch refspecs.., auxiliary fetch
/// refspec]`; everything else is the original arguments unchanged.
pub open spec fn spec_augment_fetch(
    args: Seq<Seq<char>>,
    refspecs: Option<Seq<Seq<char>>>,
) -> Seq<Seq<char>> {
    if spec_is_simple(args) {
        match refspecs {
            Some(rs) => spec_build_args(
                spec_remote_of(args),
                rs,
                spec_fetch_aux(spec_remote_of(args)),
            ),
            None => args,
        }
    } else {
        args
    }
}

/// The final arguments of a push, analogous to [`spec_augment_fetch`]
/// but with the push auxiliary refspec.
pub open spec fn spec_augment_push(
    args: Seq<Seq<char>>,
    refspecs: Option<Seq<Seq<char>>>,
) -> Seq<Seq<char>> {
    if spec_is_simple(args) {
        match refspecs {
            Some(rs) => spec_build_args(spec_remote_of(args), rs, spec_push_aux()),
            None => args,
        }
    } else {
        args
    }
}

/// Rewrites a fetch's arguments. `refspecs` carries the configured fetch
/// refspecs when a repository was found, and is `None` when repository
/// resolution failed, in which case the arguments pass through unchanged.
pub fn augment_fetch_args(args: &Vec<String>, refspecs: Option<&Vec<String>>) -> (r: Vec<String>)
    ensures
        r.deep_view() == spec_augment_fetch(
            args.deep_view(),
            match refspecs {
                Some(rs) => Some(rs.deep_view()),
                None => None,
            },
        ),
{
    broadcast use vstd::std_specs::vec::vec_clone_deep_view_proof;

    if is_simple_invocation(args) {
        match refspecs {
            Some(rs) => {
                let remote = remote_name(args);
                let aux = fetch_aux_refspec(remote.as_str());
                build_args(remote, rs, aux)
            },
            None => args.clone(),
        }
    } else {
        args.clone()
    }
}

/// Rewrites a push's arguments, as [`augment_fetch_args`] does a fetch's.
pub fn augment_push_args(args: &Vec<String>, refspecs: Option<&Vec<String>>) -> (r: Vec<String>)
    ensures
        r.deep_view() == spec_augment_push(
            args.deep_view(),
            match refspecs {
                Some(rs) => Some(rs.deep_view()),
                None => None,
            },
        ),
{
    broadcast use vstd::std_specs::vec::vec_clone_deep_view_proof;

    if is_simple_invocation(args) {
        match refspecs {
            Some(rs) => {
                let remote = remote_name(args);
                let aux = push_aux_refspec();
                build_args(remote, rs, aux)
            },
            None => args.clone(),
        }
    } else {
        args.clone()
    }
}

/// A fetch with no arguments addresses `origin`: with configured fetch
/// refspecs `f1, f2` the final arguments are exactly `origin`, `f1`,
/// `f2`, and the auxiliary fetch refspec for `origin`.
pub proof fn lemma_fetch_augment_default_remote(f1: Seq<char>, f2: Seq<char>)
    ensures
        spec_augment_fetch(seq![], Some(seq![f1, f2])) =~= seq![
            "origin"@,
            f1,
            f2,
            spec_fetch_aux("origin"@),
        ],
{
}

/// A fetch with one non-flag argument addresses that remote: its
/// configured refspecs are kept in order between the remote and the
/// auxiliary refspec.
pub proof fn lemma_fetch_augment_named_remote(remote: Seq<char>, refspecs: Seq<Seq<char>>)
    requires
        remote.len() == 0 || remote[0] != '-',
    ensures
        spec_augment_fetch(seq![remote], Some(refspecs)) =~= seq![remote] + refspecs + seq![
            spec_fetch_aux(remote),
        ],
{
}

/// A push with no arguments addresses `origin`: with configured push
/// refspecs `p1, p2` the final arguments are exactly `origin`, `p1`,
/// `p2`, and the remote-independent auxiliary push refspec.
pub proof fn lemma_push_augment_default_remote(p1: Seq<char>, p2: Seq<char>)
    ensures
        spec_augment_push(seq![], Some(seq![p1, p2])) =~= seq![
            "origin"@,
            p1,
            p2,
            spec_push_aux(),
        ],
{
}

/// A push with one non-flag argument addresses that remote.
pub proof fn lemma_push_augment_named_remote(remote: Seq<char>, refspecs: Seq<Seq<char>>)
    requires
        remote.len() == 0 || remote[0] != '-',
    ensures
        spec_augment_push(seq![remote], Some(refspecs)) =~= seq![remote] + refspecs + seq![
            spec_push_aux(),
        ],
{
}

/// Any flag, or more than one argument, passes through unchanged,
/// whatever refspecs are configured.
pub proof fn lemma_augment_passthrough(args: Seq<Seq<char>>, refspecs: Option<Seq<Seq<char>>>)
    requires
        !spec_is_simple(args),
    ensures
        spec_augment_fetch(args, refspecs) == args,
        spec_augment_push(args, refspecs) == args,
{
}

/// When no repository is found, fetch and push arguments pass through
/// unchanged even for a simple invocation.
pub proof fn lemma_augment_no_repository(args: Seq<Seq<char>>)
    ensures
        spec_augment_fetch(args, None) == args,
        spec_augment_push(args, None) == args,
{
}

/// A blank character of the configuration query output: any character
/// of Unicode's White_Space set — tab, line feed, vertical tab, form
/// feed, carriage return, space, next line, no-break space, ogham space
/// mark, the en-quad..hair-space range, line and paragraph separators,
/// narrow no-break space, medium mathematical space, and ideographic
/// space.
pub open spec fn is_blank(c: char) -> bool {
    ||| c == '\u{9}'
    ||| c == '\u{A}'
    ||| c == '\u{B}'
    ||| c == '\u{C}'
    ||| c == '\u{D}'
    ||| c == ' '
    ||| c == '\u{85}'
    ||| c == '\u{A0}'
    ||| c == '\u{1680}'
    ||| (0x2000 <= c as int && c as int <= 0x200A)
    ||| c == '\u{2028}'
    ||| c == '\u{2029}'
    ||| c == '\u{202F}'
    ||| c == '\u{205F}'
    ||| c == '\u{3000}'
}

/// `s` without its leading blanks.
pub open spec fn trim_front(s: Seq<char>) -> Seq<char>
    decreases s.len(),
{
    if s.len() > 0 && is_blank(s[0]) {
        trim_front(s.drop_first())
    } else {
        s
    }
}

/// `s` without its trailing blanks.
pub open spec fn trim_back(s: Seq<char>) -> Seq<char>
    decreases s.len(),
{
    if s.len() > 0 && is_blank(s.last()) {
        trim_back(s.drop_last())
    } else {
        s
    }
}

/// `s` without its leading and trailing blanks.
pub open spec fn spec_trim(s: Seq<char>) -> Seq<char> {
    trim_back(trim_front(s))
}

/// Index of the first newline in `s`, or its length when there is none.
pub open spec fn first_newline(s: Seq<char>) -> nat
    decreases s.len(),
{
    if s.len() == 0 {
        0
    } else if s[0] == '\n' {
        0
    } else {
        1 + first_newline(s.drop_first())
    }
}

/// The segments of `s` between newlines, the last one included even
/// when it is empty.
pub open spec fn spec_lines(s: Seq<char>) -> Seq<Seq<char>>
    decreases s.len(),
{
    let i = first_newline(s);
    if i >= s.len() {
        seq![s]
    } else {
        seq![s.take(i as int)] + spec_lines(s.skip(i as int + 1))
    }
}

/// Every line trimmed, blank results discarded, order kept.
pub open spec fn spec_clean_lines(lines: Seq<Seq<char>>) -> Seq<Seq<char>>
    decreases lines.len(),
{
    if lines.len() == 0 {
        Seq::empty()
    } else {
        let rest = spec_clean_lines(lines.drop_first());
        if spec_trim(lines[0]).len() > 0 {
            seq![spec_trim(lines[0])] + rest
        } else {
            rest
        }
    }
}

/// The refspecs a configuration query output denotes: its lines,
/// trimmed, with blank entries discarded.
pub open spec fn spec_refspecs(s: Seq<char>) -> Seq<Seq<char>> {
    spec_clean_lines(spec_lines(s))
}

/// Pins `first_newline` to an index known to be the first newline, or
/// to the length when no newline exists before it.
proof fn lemma_first_newline_at(s: Seq<char>, k: int)
    requires
        0 <= k <= s.len(),
        forall|j: int| 0 <= j < k ==> s[j] != '\n',
        k < s.len() ==> s[k] == '\n',
    ensures
        first_newline(s) == k,
    decreases k,
{
    if k == 0 {
    } else {
        assert(s[0] != '\n');
        lemma_first_newline_at(s.drop_first(), k - 1);
    }
}

/// When the first `k` characters are blank and the next one is not,
/// trimming the front drops exactly those `k`.
proof fn lemma_trim_front_is_skip(l: Seq<char>, k: int)
    requires
        0 <= k <= l.len(),
        forall|j: int| 0 <= j < k ==> is_blank(l[j]),
        k < l.len() ==> !is_blank(l[k]),
    ensures
        trim_front(l) == l.skip(k),
    decreases k,
{
    if k == 0 {
        assert(l.skip(0) =~= l);
    } else {
        assert(is_blank(l[0]));
        lemma_trim_front_is_skip(l.drop_first(), k - 1);
        assert(l.drop_first().skip(k - 1) =~= l.skip(k));
    }
}

/// When everything from index `m` on is blank and the character before
/// `m` is not, trimming the back keeps exactly the first `m`.
proof fn lemma_trim_back_is_take(l: Seq<char>, m: int)
    requires
        0 <= m <= l.len(),
        forall|j: int| m <= j < l.len() ==> is_blank(l[j]),
        m > 0 ==> !is_blank(l[m - 1]),
    ensures
        trim_back(l) == l.take(m),
    decreases l.len() - m,
{
    if m == l.len() {
        assert(l.take(m) =~= l);
    } else {
        assert(is_blank(l.last()));
        lemma_trim_back_is_take(l.drop_last(), m);
        assert(l.drop_last().take(m) =~= l.take(m));
    }
}

/// Extracts the configured refspecs from a query's captured output: one
/// per line, trimmed, blank entries discarded. `None` — the query
/// failed — yields an empty list rather than an error.
pub fn refspecs_from_config_output(output: Option<&str>) -> (r: Vec<String>)
    ensures
        match output {
            Some(s) => r.deep_view() == spec_refspecs(s@),
            None => r.deep_view() == Seq::<Seq<char>>::empty(),
        },
{
    let mut out: Vec<String> = Vec::new();
    let s = match output {
        Some(s) => s,
        None => {
            proof {
                assert(out.deep_view() =~= Seq::<Seq<char>>::empty());
            }
            return out;
        },
    };
    let n = s.unicode_len();
    proof {
        assert(out.deep_view() =~= Seq::<Seq<char>>::empty());
        assert(s@.skip(0) =~= s@);
    }
    let mut start: usize = 0;
    loop
        invariant_except_break
            n == s@.len(),
            start <= n,
            out.deep_view() + spec_refspecs(s@.skip(start as int)) == spec_refspecs(s@),
        ensures
            out.deep_view() == spec_refspecs(s@),
        decreases n - start,
    {
        // Find the end of the current line.
        let mut end: usize = start;
        while end < n && s.get_char(end) != '\n'
            invariant
                n == s@.len(),
                start <= end <= n,
                forall|j: int| start <= j < end ==> s@[j] != '\n',
            decreases n - end,
        {
            end += 1;
        }
        // Trim the line to s[a..b].
        let mut a: usize = start;
        while a < end && is_blank_char(s.get_char(a))
            invariant
                n == s@.len(),
                start <= a <= end <= n,
                forall|j: int| start <= j < a ==> is_blank(s@[j]),
            decreases end - a,
        {
            a += 1;
        }
        let mut b: usize = end;
        while b > a && is_blank_char(s.get_char(b - 1))
            invariant
                n == s@.len(),
                a <= b <= end <= n,
                forall|j: int| b <= j < end ==> is_blank(s@[j]),
            decreases b,
        {
            b -= 1;
        }
        proof {
            let rest = s@.skip(start as int);
            let l = s@.subrange(start as int, end as int);
            lemma_first_newline_at(rest, end - start);
            assert(rest.take(end - start) =~= l);
            lemma_trim_front_is_skip(l, a - start);
            assert(l.skip(a - start) =~= s@.subrange(a as int, end as int));
            lemma_trim_back_is_take(s@.subrange(a as int, end as int), b - a);
            assert(s@.subrange(a as int, end as int).take(b - a) =~= s@.subrange(
                a as int,
                b as int,
            ));
            assert(spec_trim(l) == s@.subrange(a as int, b as int));
        }
        let ghost pre = out.deep_view();
        if a < b {
            let piece = s.substring_char(a, b);
            out.push(piece.to_owned());
            proof {
                assert(out.deep_view() =~= pre.push(s@.subrange(a as int, b as int)));
            }
        }
        if end == n {
            proof {
                let rest = s@.skip(start as int);
                let l = s@.subrange(start as int, end as int);
                assert(rest =~= l);
                assert(spec_lines(rest) == seq![rest]);
                assert(seq![rest].drop_first() =~= Seq::<Seq<char>>::empty());
                assert(spec_clean_lines(Seq::<Seq<char>>::empty()) == Seq::<Seq<char>>::empty());
                if spec_trim(l).len() > 0 {
                    assert(spec_clean_lines(seq![rest]) =~= seq![spec_trim(l)]);
                    assert(out.deep_view() =~= pre + seq![spec_trim(l)]);
                } else {
                    assert(spec_clean_lines(seq![rest]) =~= Seq::<Seq<char>>::empty());
                }
                assert(out.deep_view() =~= spec_refspecs(s@));
            }
            break ;
        }
        proof {
            let rest = s@.skip(start as int);
            let l = s@.subrange(start as int, end as int);
            let rest2 = s@.skip(end + 1);
            assert(rest.skip(end - start + 1) =~= rest2);
            assert(spec_lines(rest) == seq![l] + spec_lines(rest2));
            assert((seq![l] + spec_lines(rest2))[0] == l);
            assert((seq![l] + spec_lines(rest2)).drop_first() =~= spec_lines(rest2));
            if spec_trim(l).len() > 0 {
                assert(spec_clean_lines(seq![l] + spec_lines(rest2)) == seq![spec_trim(l)]
                    + spec_refspecs(rest2));
                assert(out.deep_view() + spec_refspecs(rest2) =~= pre + (seq![spec_trim(l)]
                    + spec_refspecs(rest2)));
            } else {
                assert(spec_clean_lines(seq![l] + spec_lines(rest2)) == spec_refspecs(rest2));
            }
            assert(out.deep_view() + spec_refspecs(rest2) == spec_refspecs(s@));
        }
        start = end + 1;
    }
    out
}

/// Whether `c` is blank in the sense of [`is_blank`].
fn is_blank_char(c: char) -> (b: bool)
    ensures
        b == is_blank(c),
{
    let cv = c as u32;
    cv == 0x9 || cv == 0xA || cv == 0xB || cv == 0xC || cv == 0xD || cv == 0x20 || cv == 0x85
        || cv == 0xA0 || cv == 0x1680 || (0x2000 <= cv && cv <= 0x200A) || cv == 0x2028
        || cv == 0x2029 || cv == 0x202F || cv == 0x205F || cv == 0x3000
}

} // verus!
