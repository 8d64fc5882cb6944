//! Arguments of git commands.
use crate::text::chars;
use crate::text::compose;
use crate::text::search;
use crate::utils;
use vstd::prelude::*;

verus! {

/// An argument of the form `rev:path`.
pub open spec fn names_blob(arg: Seq<char>) -> bool {
    !(arg.len() > 0 && arg[0] == '-') && arg.contains(':')
}

/// Whether an argument of `git show` names a blob (`rev:path`) rather than a commit; flags such as
/// `--pretty=format:...` do not.
pub fn is_blob_show_arg(arg: &str) -> (r: bool)
    ensures
        r == names_blob(arg@),
{
    let text = chars::to_chars(arg);
    !chars::starts_with_char(text.as_slice(), '-') && search::contains_char(text.as_slice(), ':')
}

/// An argument that is a path by how it begins.
pub open spec fn explicit_path(arg: Seq<char>) -> bool {
    arg.len() > 0 && (arg[0] == '.' || arg[0] == '~')
}

/// An argument that may be a path or a branch: only the file system can tell.
pub open spec fn may_be_path(arg: Seq<char>) -> bool {
    &&& !(arg.len() > 0 && arg[0] == '-')
    &&& !explicit_path(arg)
    &&& arg.contains('/') || arg.contains('\\')
}

/// Whether an argument is taken for a path, given what the file system says of it.
pub open spec fn is_path(arg: Seq<char>, on_disk: bool) -> bool {
    explicit_path(arg) || (may_be_path(arg) && on_disk)
}

/// The first of the arguments from `i` on that is taken for a path.
pub open spec fn path_from(args: Seq<Seq<char>>, on_disk: Seq<bool>, i: int) -> Option<int>
    decreases args.len() - i,
{
    if i < 0 || i >= args.len() {
        None
    } else if is_path(args[i], on_disk[i]) {
        Some(i)
    } else {
        path_from(args, on_disk, i + 1)
    }
}

/// The arguments with `--` before the first path, unless one is there; `on_disk` says of each
/// argument whether there is a file of that name.
pub open spec fn normalized(args: Seq<Seq<char>>, on_disk: Seq<bool>) -> Seq<Seq<char>> {
    if args.contains("--"@) {
        args
    } else {
        match path_from(args, on_disk, 0) {
            Some(p) => args.take(p).push("--"@) + args.skip(p),
            None => args,
        }
    }
}

/// Whether the argument at `i` is one that `path_exists` is asked about: it may be a path, none
/// before it is one, and no argument is `--`.
pub open spec fn asked<F: Fn(&str) -> bool>(
    path_exists: F,
    args: Seq<Seq<char>>,
    i: int,
) -> bool {
    &&& !args.contains("--"@)
    &&& 0 <= i < args.len()
    &&& may_be_path(args[i])
    &&& forall|j: int|
        0 <= j < i ==> !explicit_path(#[trigger] args[j]) && (may_be_path(args[j]) ==> utils::gave(
            path_exists,
            args[j],
            false,
        ))
}

/// Whether `on_disk` holds what `path_exists` answered, for each argument that it was asked about:
/// those that may be a path, up to the first path; none where there is a `--`.
pub open spec fn answered<F: Fn(&str) -> bool>(
    path_exists: F,
    args: Seq<Seq<char>>,
    on_disk: Seq<bool>,
) -> bool {
    &&& on_disk.len() == args.len()
    &&& !args.contains("--"@) ==> forall|i: int|
        0 <= i < args.len() && may_be_path(args[i]) && (forall|j: int|
            0 <= j < i ==> !is_path(args[j], #[trigger] on_disk[j])) ==> utils::gave(
            path_exists,
            args[i],
            #[trigger] on_disk[i],
        )
}

/// Whether `on_disk` holds what the file system may answer, for each argument that it is asked
/// about, by `std::path::Path::exists`.
pub closed spec fn answered_by_disk(args: Seq<Seq<char>>, on_disk: Seq<bool>) -> bool {
    answered(utils::path_exists, args, on_disk)
}

fn path_like<F: Fn(&str) -> bool>(arg: &str, path_exists: &F) -> (r: (bool, bool))
    requires
        may_be_path(arg@) ==> call_requires(path_exists, (arg,)),
    ensures
        r.0 == is_path(arg@, r.1),
        may_be_path(arg@) ==> utils::gave(*path_exists, arg@, r.1),
{
    let text = chars::to_chars(arg);
    if chars::starts_with_char(text.as_slice(), '-') {
        return (false, false);
    }
    if chars::starts_with_char(text.as_slice(), '.') || chars::starts_with_char(
        text.as_slice(),
        '~',
    ) {
        return (true, false);
    }
    if search::contains_char(text.as_slice(), '/') || search::contains_char(text.as_slice(), '\\') {
        let seen = path_exists(arg);
        assert(utils::gave(*path_exists, arg@, seen));
        return (seen, seen);
    }
    (false, false)
}

/// Re-inserts the `--` before the first path among the arguments of `git diff`.
///
/// Without it git may take a path for a revision. An argument is taken for a path where it begins
/// with `.` or `~`, or where it holds a path separator and `path_exists` says that it exists; a bare
/// word never is, so that a file that shares its name with a branch does no harm. `path_exists` is
/// asked about no other argument, about none behind the first path, and not at all where there is a
/// `--`.
pub fn normalize_diff_args_impl<F: Fn(&str) -> bool>(args: &[String], path_exists: F) -> (r: Vec<
    String,
>)
    requires
        forall|i: int, s: &str|
            #![trigger asked(path_exists, args.deep_view(), i), call_requires(path_exists, (s,))]
            asked(path_exists, args.deep_view(), i) && s@ == args.deep_view()[i] ==> call_requires(
                path_exists,
                (s,),
            ),
    ensures
        exists|on_disk: Seq<bool>| #[trigger]
            answered(path_exists, args.deep_view(), on_disk) && r.deep_view() == normalized(
                args.deep_view(),
                on_disk,
            ),
{
    let ghost all = args.deep_view();
    if compose::has(args, "--") {
        assert(answered(path_exists, all, Seq::new(all.len(), |j: int| false)));
        return compose::copied(args);
    }
    let ghost mut seen: Seq<bool> = Seq::empty();
    let mut i: usize = 0;
    let mut found = false;
    while i < args.len() && !found
        invariant
            i <= args@.len(),
            all == args.deep_view(),
            !all.contains("--"@),
            forall|k: int, s: &str|
                #![trigger asked(path_exists, all, k), call_requires(path_exists, (s,))]
                asked(path_exists, all, k) && s@ == all[k] ==> call_requires(path_exists, (s,)),
            found ==> i < args@.len(),
            seen.len() == if found {
                i + 1
            } else {
                i as int
            },
            forall|j: int| 0 <= j < i ==> !is_path(all[j], #[trigger] seen[j]),
            found ==> is_path(all[i as int], seen[i as int]),
            forall|j: int|
                0 <= j < seen.len() && may_be_path(all[j]) ==> utils::gave(
                    path_exists,
                    all[j],
                    #[trigger] seen[j],
                ),
        decreases
            args@.len() - i + if found {
                0int
            } else {
                1int
            },
    {
        assert(all[i as int] == args@[i as int]@);
        proof {
            if may_be_path(all[i as int]) {
                assert forall|j: int| 0 <= j < i implies !explicit_path(#[trigger] all[j]) && (
                may_be_path(all[j]) ==> utils::gave(path_exists, all[j], false)) by {
                    assert(!is_path(all[j], seen[j]));
                }
                assert(asked(path_exists, all, i as int));
            }
        }
        let (path, answer) = path_like(args[i].as_str(), &path_exists);
        let ghost before = seen;
        proof {
            seen = seen.push(answer);
        }
        assert(forall|j: int| 0 <= j < i ==> seen[j] == before[j]);
        if path {
            found = true;
        } else {
            i += 1;
        }
    }
    let ghost on_disk = Seq::new(all.len(), |j: int| if j < seen.len() { seen[j] } else { false });
    proof {
        assert forall|k: int|
            0 <= k < all.len() && may_be_path(all[k]) && (forall|j: int|
                0 <= j < k ==> !is_path(all[j], #[trigger] on_disk[j])) implies utils::gave(
            path_exists,
            all[k],
            #[trigger] on_disk[k],
        ) by {
            if k >= seen.len() {
                assert(found);
                assert(is_path(all[i as int], on_disk[i as int]));
            }
        }
        assert(answered(path_exists, all, on_disk));
        lemma_path_from(all, on_disk, 0, i as int);
    }
    if !found {
        return compose::copied(args);
    }
    let mut out: Vec<String> = Vec::new();
    compose::push_range(&mut out, args, 0, i);
    compose::push_str(&mut out, "--");
    compose::push_range(&mut out, args, i, args.len());
    assert(out.deep_view() == all.take(i as int).push("--"@) + all.skip(i as int));
    out
}

/// Re-inserts the `--` before the first path among the arguments of `git diff`, by what is on disk.
pub fn normalize_diff_args(args: &[String]) -> (r: Vec<String>)
    ensures
        exists|on_disk: Seq<bool>|
            on_disk.len() == args@.len() && answered_by_disk(args.deep_view(), on_disk)
                && r.deep_view() == #[trigger] normalized(args.deep_view(), on_disk),
{
    normalize_diff_args_impl(args, utils::path_exists)
}

proof fn lemma_path_from(args: Seq<Seq<char>>, on_disk: Seq<bool>, from: int, p: int)
    requires
        0 <= from <= p <= args.len(),
        on_disk.len() == args.len(),
        forall|j: int| from <= j < p ==> !is_path(args[j], #[trigger] on_disk[j]),
        p < args.len() ==> is_path(args[p], on_disk[p]),
    ensures
        path_from(args, on_disk, from) == if p < args.len() {
            Some(p)
        } else {
            None
        },
    decreases p - from,
{
    if from < p {
        assert(!is_path(args[from], on_disk[from]));
        lemma_path_from(args, on_disk, from + 1, p);
    }
}

proof fn lemma_path_at(args: Seq<Seq<char>>, on_disk: Seq<bool>, from: int)
    requires
        0 <= from,
    ensures
        path_from(args, on_disk, from) matches Some(p) ==> from <= p < args.len() && is_path(
            args[p],
            on_disk[p],
        ),
    decreases args.len() - from,
{
    if from < args.len() {
        lemma_path_at(args, on_disk, from + 1);
    }
}

/// Once there is a `--`, normalizing again changes nothing, whatever the file system says then.
pub proof fn law_normalize_idempotent(
    args: Seq<Seq<char>>,
    on_disk: Seq<bool>,
    later: Seq<bool>,
)
    requires
        args.contains("--"@) || path_from(args, on_disk, 0) is Some,
    ensures
        normalized(normalized(args, on_disk), later) == normalized(args, on_disk),
{
    lemma_path_at(args, on_disk, 0);
    let n = normalized(args, on_disk);
    if !args.contains("--"@) {
        let p = path_from(args, on_disk, 0)->0;
        assert(n[p] == "--"@);
    }
}

/// No argument is lost, added or moved but for one `--`.
pub proof fn law_normalize_keeps_arguments(args: Seq<Seq<char>>, on_disk: Seq<bool>)
    ensures
        normalized(args, on_disk) == args || exists|p: int|
            0 <= p < args.len() && #[trigger] normalized(args, on_disk).remove(p) == args
                && normalized(args, on_disk)[p] == "--"@,
{
    lemma_path_at(args, on_disk, 0);
    if !args.contains("--"@) {
        match path_from(args, on_disk, 0) {
            Some(p) => {
                assert(normalized(args, on_disk).remove(p) == args);
            },
            None => {},
        }
    }
}

/// A bare word is never taken for a path, even where a file of that name exists; nor is a flag.
pub proof fn law_bare_word_is_no_path(arg: Seq<char>, on_disk: bool)
    requires
        !arg.contains('/'),
        !arg.contains('\\'),
        arg.len() > 0 ==> arg[0] != '.' && arg[0] != '~',
    ensures
        !is_path(arg, on_disk),
{
}

/// The `--` goes before the first argument that is taken for a path: none before it is one, and it is.
pub proof fn law_first_path(args: Seq<Seq<char>>, on_disk: Seq<bool>, p: int)
    requires
        !args.contains("--"@),
        on_disk.len() == args.len(),
        0 <= p < args.len(),
        is_path(args[p], on_disk[p]),
        forall|j: int| 0 <= j < p ==> !is_path(args[j], #[trigger] on_disk[j]),
    ensures
        normalized(args, on_disk) == args.take(p) + seq!["--"@] + args.skip(p),
{
    lemma_path_from(args, on_disk, 0, p);
    assert(args.take(p).push("--"@) == args.take(p) + seq!["--"@]);
}

/// Where there is a `--`, or no argument is taken for a path, the arguments stay as they are.
pub proof fn law_nothing_to_insert(args: Seq<Seq<char>>, on_disk: Seq<bool>)
    requires
        on_disk.len() == args.len(),
        args.contains("--"@) || forall|j: int|
            0 <= j < args.len() ==> !is_path(args[j], #[trigger] on_disk[j]),
    ensures
        normalized(args, on_disk) == args,
{
    if !args.contains("--"@) {
        lemma_path_from(args, on_disk, 0, args.len() as int);
    }
}

/// What a path looks like: one that begins with a dot or a tilde always is one, and one with a
/// separator is where it exists; a flag never is.
pub proof fn law_paths(rest: Seq<char>, name: Seq<char>, on_disk: bool)
    requires
        name.len() > 0 ==> name[0] != '-' && name[0] != '.' && name[0] != '~',
    ensures
        is_path(seq!['.'] + rest, on_disk),
        is_path(seq!['~'] + rest, on_disk),
        !is_path(seq!['-'] + rest, on_disk),
        name.contains('/') || name.contains('\\') ==> is_path(name, on_disk) == on_disk,
        !is_path(Seq::empty(), on_disk),
{
    assert((seq!['.'] + rest)[0] == '.');
    assert((seq!['~'] + rest)[0] == '~');
    assert((seq!['-'] + rest)[0] == '-');
}

/// A blob is named by a revision, a colon and a path; a flag names none.
pub proof fn law_blobs(rev: Seq<char>, path: Seq<char>, plain: Seq<char>)
    requires
        rev.len() > 0 ==> rev[0] != '-',
        !plain.contains(':'),
    ensures
        names_blob(rev + seq![':'] + path),
        !names_blob(seq!['-'] + path),
        !names_blob(plain),
{
    let s = rev + seq![':'] + path;
    assert(s[rev.len() as int] == ':');
    if rev.len() > 0 {
        assert(s[0] == rev[0]);
    } else {
        assert(s[0] == ':');
    }
    assert((seq!['-'] + path)[0] == '-');
}

} // verus!
