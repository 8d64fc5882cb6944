//! Text helpers shared by the commands.
use crate::session::{CommandLine, CommandView};
use crate::text::chars;
use crate::text::compose;
use crate::text::number;
use crate::text::utf8;
use vstd::prelude::*;
use vstd::slice::slice_subrange;

verus! {

/// `s`, cut to `max` characters with an ellipsis where it is longer.
pub open spec fn truncated(s: Seq<char>, max: nat) -> Seq<char> {
    if s.len() <= max {
        s
    } else if max < 3 {
        "..."@
    } else {
        s.take(max - 3) + "..."@
    }
}

/// Cuts a text to `max_len` characters, ending it in `...` where it was longer.
///
/// A cap below 3 leaves no room for more than the ellipsis.
pub fn truncate(s: &str, max_len: usize) -> (r: String)
    ensures
        r@ == truncated(s@, max_len as nat),
{
    let text = chars::to_chars(s);
    if text.len() <= max_len {
        s.to_string()
    } else if max_len < 3 {
        "...".to_string()
    } else {
        let head = slice_subrange(text.as_slice(), 0, max_len - 3);
        assert(head@ == s@.take(max_len - 3));
        let mut out = chars::string_of(head);
        out.append("...");
        out
    }
}

/// A text that is cut never exceeds its cap of 3 or more, and one that fits is left alone.
pub proof fn law_truncate_bound(s: Seq<char>, max: nat)
    ensures
        max >= 3 ==> truncated(s, max).len() <= max,
        max < 3 ==> truncated(s, max).len() <= 3,
        s.len() <= max ==> truncated(s, max) == s,
{
    reveal_strlit("...");
}

/// The pattern of an escape sequence that sets colors and styles.
pub open spec fn ansi_pattern() -> Seq<char> {
    "\\x1b\\[[0-9;]*[a-zA-Z]"@
}

/// A character of the parameters of an escape sequence.
pub open spec fn is_parameter(c: char) -> bool {
    chars::is_digit(c) || c == ';'
}

/// A letter.
pub open spec fn is_letter(c: char) -> bool {
    ('a' <= c && c <= 'z') || ('A' <= c && c <= 'Z')
}

/// How many of the characters from `i` on are parameters.
pub open spec fn parameters(s: Seq<char>, i: int) -> nat
    decreases s.len() - i,
{
    if 0 <= i < s.len() && is_parameter(s[i]) {
        1 + parameters(s, i + 1)
    } else {
        0
    }
}

/// The length of the escape sequence that `s` begins with, zero where it begins with none: an
/// escape, a bracket, parameters and a letter.
pub open spec fn escape_len(s: Seq<char>) -> nat {
    let end = 2 + parameters(s, 2);
    if s.len() > end && s[0] == '\x1b' && s[1] == '[' && is_letter(s[end as int]) {
        end + 1
    } else {
        0
    }
}

/// `s` without its escape sequences.
pub open spec fn ansi_stripped(s: Seq<char>) -> Seq<char>
    decreases s.len(),
{
    if s.len() == 0 {
        Seq::empty()
    } else if escape_len(s) > 0 {
        ansi_stripped(s.skip(escape_len(s) as int))
    } else {
        seq![s[0]] + ansi_stripped(s.skip(1))
    }
}

/// Replaces all matches of a pattern, by `regex::Regex::new` and `regex::Regex::replace_all`.
///
/// Of the pattern of escape sequences and an empty replacement it is claimed that the pattern
/// compiles and that the matches, found from left to right and none overlapping another, are the
/// escape sequences.
#[verifier::external_body]
fn replace_matches(pattern: &str, text: &str, replacement: &str) -> (r: Option<String>)
    requires
        pattern@ == ansi_pattern(),
        replacement@.len() == 0,
    ensures
        compose::optional(r) == Some(ansi_stripped(text@)),
{
    match regex::Regex::new(pattern) {
        Ok(re) => Some(re.replace_all(text, replacement).into_owned()),
        Err(_) => None,
    }
}

/// Strips the escape sequences that set colors and styles.
pub fn strip_ansi(text: &str) -> (r: String)
    ensures
        r@ == ansi_stripped(text@),
{
    proof {
        reveal_strlit("");
    }
    match replace_matches("\\x1b\\[[0-9;]*[a-zA-Z]", text, "") {
        Some(stripped) => stripped,
        None => text.to_string(),
    }
}

/// Text without an escape character is left alone.
pub proof fn law_plain_text_kept(s: Seq<char>)
    requires
        !s.contains('\x1b'),
    ensures
        ansi_stripped(s) == s,
    decreases s.len(),
{
    if s.len() > 0 {
        assert(s[0] != '\x1b') by {
            assert(s.contains(s[0]));
        }
        assert(!s.skip(1).contains('\x1b')) by {
            if s.skip(1).contains('\x1b') {
                let k = choose|k: int| 0 <= k < s.skip(1).len() && s.skip(1)[k] == '\x1b';
                assert(s[k + 1] == '\x1b');
            }
        }
        law_plain_text_kept(s.skip(1));
        assert(seq![s[0]] + s.skip(1) == s);
    }
}

proof fn lemma_parameters(params: Seq<char>, rest: Seq<char>, s: Seq<char>, i: int)
    requires
        0 <= i <= params.len(),
        s.len() >= 2 + params.len(),
        forall|k: int| 0 <= k < params.len() ==> is_parameter(#[trigger] params[k]),
        forall|k: int| 0 <= k < params.len() ==> s[k + 2] == #[trigger] params[k],
        s.len() > 2 + params.len() ==> !is_parameter(s[2 + params.len() as int]),
    ensures
        parameters(s, i + 2) == params.len() - i,
    decreases params.len() - i,
{
    if i < params.len() {
        assert(s[i + 2] == params[i]);
        lemma_parameters(params, rest, s, i + 1);
    }
}

/// An escape sequence in front of a text goes, whatever its parameters and its letter are.
pub proof fn law_sequence_stripped(params: Seq<char>, letter: char, rest: Seq<char>)
    requires
        forall|k: int| 0 <= k < params.len() ==> is_parameter(#[trigger] params[k]),
        is_letter(letter),
    ensures
        ansi_stripped(seq!['\x1b', '['] + params + seq![letter] + rest) == ansi_stripped(rest),
{
    let s = seq!['\x1b', '['] + params + seq![letter] + rest;
    assert(s[2 + params.len() as int] == letter);
    lemma_parameters(params, rest, s, 0);
    assert(escape_len(s) == params.len() + 3);
    assert(s.skip(params.len() as int + 3) == rest);
}

/// The integer nearest to `num / den`; of two, the even one.
pub open spec fn rounded(num: nat, den: nat) -> nat {
    let q = num / den;
    let r = num % den;
    if 2 * r < den || (2 * r == den && q % 2 == 0) {
        q
    } else {
        q + 1
    }
}

/// The largest power of two that is at most `num / den`, where that is at least one.
pub open spec fn binade(num: nat, den: nat) -> nat
    decreases num - den,
{
    if den == 0 || num < 2 * den {
        1
    } else {
        2 * binade(num, 2 * den)
    }
}

/// Two to the power of 52: the steps between one and two of a double.
pub const STEPS: u128 = 4_503_599_627_370_496;

/// The double nearest to `num / den`, a number of at least one, in units of its binade's steps:
/// the double is that times `binade(num, den) / STEPS`.
pub open spec fn significand(num: nat, den: nat) -> nat {
    rounded(num * STEPS as nat, den * binade(num, den))
}

/// The double nearest to an integer, which is an integer.
pub open spec fn nearest_double(n: nat) -> nat {
    if n < 2 * STEPS {
        n
    } else {
        significand(n, 1) * binade(n, 1) / STEPS as nat
    }
}

/// How many tenths of `unit` a count is: the quotient is taken in double precision, and rounded to
/// the nearest tenth, of two the even one.
pub open spec fn tenths(n: nat, unit: nat) -> nat {
    let a = nearest_double(n);
    rounded(significand(a, unit) * binade(a, unit) * 10, STEPS as nat)
}

/// A number of tenths with one decimal.
pub open spec fn one_decimal(t: nat) -> Seq<char> {
    number::dec(t / 10) + "."@ + number::dec(t % 10)
}

/// A count with its suffix.
pub open spec fn tokens(n: nat) -> Seq<char> {
    if n >= 1_000_000 {
        one_decimal(tenths(n, 1_000_000)) + "M"@
    } else if n >= 1_000 {
        one_decimal(tenths(n, 1_000)) + "K"@
    } else {
        number::dec(n)
    }
}

fn round_quotient(num: u128, den: u128) -> (r: u128)
    requires
        0 < den,
        num <= u128::MAX / 4,
        den <= u128::MAX / 4,
    ensures
        r == rounded(num as nat, den as nat),
{
    let q: u128 = num / den;
    let rest: u128 = num % den;
    assert(q <= num) by (nonlinear_arith)
        requires
            q == num / den,
            0 < den,
    ;
    if 2 * rest < den || (2 * rest == den && q % 2 == 0) {
        q
    } else {
        q + 1
    }
}

/// The binade of `num / den`.
fn find_binade(num: u128, den: u128) -> (r: u128)
    requires
        0 < den <= num,
        num <= 8 * STEPS * STEPS,
    ensures
        r == binade(num as nat, den as nat),
        0 < r,
        den * r <= num,
        num < 2 * (den * r),
{
    let mut d: u128 = den;
    let mut p: u128 = 1;
    assert(p * binade(num as nat, d as nat) == binade(num as nat, den as nat)) by (nonlinear_arith)
        requires
            d == den,
            p == 1,
    ;
    while num >= 2 * d
        invariant
            0 < den <= d <= num,
            num <= 8 * STEPS * STEPS,
            0 < p <= d,
            d == den * p,
            p * binade(num as nat, d as nat) == binade(num as nat, den as nat),
        decreases num - d,
    {
        let ghost b = binade(num as nat, (2 * d) as nat);
        assert(p * (2 * b) == (2 * p) * b) by (nonlinear_arith);
        assert(den * (2 * p) == 2 * d) by (nonlinear_arith)
            requires
                d == den * p,
        ;
        d = 2 * d;
        p = 2 * p;
    }
    let ghost b = binade(num as nat, d as nat);
    assert(p * b == p) by (nonlinear_arith)
        requires
            b == 1,
    ;
    p
}

proof fn lemma_significand(num: nat, den: nat, p: nat)
    requires
        0 < den,
        0 < p,
        den * p <= num,
        num < 2 * (den * p),
    ensures
        STEPS <= rounded(num * STEPS as nat, den * p) <= 2 * STEPS,
        den * p > 0,
{
    let x = num * STEPS as nat;
    let d = den * p;
    assert(d > 0) by (nonlinear_arith)
        requires
            d == den * p,
            0 < den,
            0 < p,
    ;
    assert(STEPS <= x / d < 2 * STEPS) by (nonlinear_arith)
        requires
            x == num * STEPS,
            d <= num < 2 * d,
            d > 0,
    ;
}

/// The significand and the binade of the double nearest to `num / den`.
fn divide(num: u128, den: u128) -> (r: (u128, u128))
    requires
        0 < den <= num,
        num <= 0x2_0000_0000_0000_0000,
    ensures
        r.0 == significand(num as nat, den as nat),
        r.1 == binade(num as nat, den as nat),
        STEPS <= r.0 <= 2 * STEPS,
        den * r.1 <= num,
        num < 2 * (den * r.1),
{
    let p: u128 = find_binade(num, den);
    proof {
        lemma_significand(num as nat, den as nat, p as nat);
    }
    (round_quotient(num * STEPS, den * p), p)
}

fn double_of(n: u128) -> (r: u128)
    requires
        n <= 0xffff_ffff_ffff_ffff,
    ensures
        r == nearest_double(n as nat),
        n < 2 * STEPS ==> r == n,
        n >= 2 * STEPS ==> STEPS <= r <= 0x2_0000_0000_0000_0000,
{
    if n < 2 * STEPS {
        return n;
    }
    let (m, p) = divide(n, 1);
    assert(STEPS * p <= m * p <= 2 * STEPS * p) by (nonlinear_arith)
        requires
            STEPS <= m <= 2 * STEPS,
    ;
    m * p / STEPS
}

fn count_tenths(n: u128, unit: u128) -> (r: u64)
    requires
        1_000 <= unit <= 1_000_000,
        unit <= n <= 0xffff_ffff_ffff_ffff,
    ensures
        r == tenths(n as nat, unit as nat),
{
    let a: u128 = double_of(n);
    let (m, p) = divide(a, unit);
    assert(1_000 * p <= unit * p) by (nonlinear_arith)
        requires
            1_000 <= unit,
    ;
    assert(m * p <= 2 * STEPS * p) by (nonlinear_arith)
        requires
            m <= 2 * STEPS,
    ;
    let t: u128 = round_quotient(m * p * 10, STEPS);
    assert(t <= 20 * p + 1);
    t as u64
}

fn with_one_decimal(t: u64) -> (r: String)
    ensures
        r@ == one_decimal(t as nat),
{
    let mut out = number::decimal_u64(t / 10);
    out.append(".");
    out.append(number::decimal_u64(t % 10).as_str());
    out
}

/// A token count for reading: `1.2M`, `59.2K` or `694`.
pub fn format_tokens(n: usize) -> (r: String)
    ensures
        r@ == tokens(n as nat),
{
    if n >= 1_000_000 {
        let mut out = with_one_decimal(count_tenths(n as u128, 1_000_000));
        out.append("M");
        out
    } else if n >= 1_000 {
        let mut out = with_one_decimal(count_tenths(n as u128, 1_000));
        out.append("K");
        out
    } else {
        number::decimal(n)
    }
}

/// Items on lines of their own, and how many more there are.
pub open spec fn overflowing(
    items: Seq<Seq<char>>,
    total: nat,
    max: nat,
    label: Seq<char>,
) -> Seq<char> {
    let list = compose::joined(items, "\n"@);
    if total > max {
        list + "\n... +"@ + number::dec((total - max) as nat) + " more "@ + label
    } else {
        list
    }
}

/// Joins items by lines, with a note on how many of `total` exceed `max` where some do.
pub fn join_with_overflow(items: &[String], total: usize, max: usize, label: &str) -> (r: String)
    ensures
        r@ == overflowing(items.deep_view(), total as nat, max as nat, label@),
{
    let mut out = compose::join(items, "\n");
    if total > max {
        out.append("\n... +");
        out.append(number::decimal(total - max).as_str());
        out.append(" more ");
        out.append(label);
    }
    out
}

/// The first 10 bytes of a text, or all of it where it is shorter.
pub open spec fn iso_date(date: Seq<char>) -> Seq<char> {
    if utf8::size(date) >= 10 {
        utf8::head(date, 10)
    } else {
        date
    }
}

/// The date of an ISO 8601 time: its first 10 bytes, or all of it where it is shorter.
pub fn truncate_iso_date(date: &str) -> (r: &str)
    requires
        utf8::size(date@) >= 10 ==> utf8::boundary(date@, 10),
    ensures
        r@ == iso_date(date@),
{
    let text = chars::to_chars(date);
    if utf8::shorter_than(text.as_slice(), 10) {
        date
    } else {
        utf8::head_str(date, 10)
    }
}

/// A time in ASCII characters, as ISO 8601 writes it, gives its first 10 characters.
pub proof fn law_iso_date_of_ascii(date: Seq<char>)
    requires
        forall|i: int| 0 <= i < date.len() ==> (#[trigger] date[i] as u32) < 0x80,
    ensures
        date.len() >= 10 ==> iso_date(date) == date.take(10) && utf8::boundary(date, 10),
        date.len() < 10 ==> iso_date(date) == date,
{
    utf8::lemma_ascii(date, 10);
}

/// A confirmation.
pub open spec fn confirmation(action: Seq<char>, detail: Seq<char>) -> Seq<char> {
    if detail.len() == 0 {
        "ok "@ + action
    } else {
        "ok "@ + action + " "@ + detail
    }
}

/// Confirms a write operation: `ok <action> <detail>`.
pub fn ok_confirmation(action: &str, detail: &str) -> (r: String)
    ensures
        r@ == confirmation(action@, detail@),
{
    let mut out = "ok ".to_string();
    out.append(action);
    if !detail.is_empty() {
        out.append(" ");
        out.append(detail);
    }
    out
}

/// The package manager whose lock file is present.
pub open spec fn package_manager(pnpm_lock: bool, yarn_lock: bool) -> Seq<char> {
    if pnpm_lock {
        "pnpm"@
    } else if yarn_lock {
        "yarn"@
    } else {
        "npm"@
    }
}

/// The package manager of a directory, by the lock files in it.
pub fn package_manager_for(pnpm_lock: bool, yarn_lock: bool) -> (r: &'static str)
    ensures
        r@ == package_manager(pnpm_lock, yarn_lock),
{
    if pnpm_lock {
        "pnpm"
    } else if yarn_lock {
        "yarn"
    } else {
        "npm"
    }
}

/// Whether there is a file or directory of that name, by `std::path::Path::exists`.
///
/// It depends on what is on disk, so nothing is claimed of it.
#[verifier::external_body]
pub(crate) fn path_exists(path: &str) -> bool {
    std::path::Path::new(path).exists()
}

/// Whether `path_exists` may answer `b` on `path`.
pub open spec fn gave<F: Fn(&str) -> bool>(path_exists: F, path: Seq<char>, b: bool) -> bool {
    exists|s: &str| s@ == path && call_ensures(path_exists, (s,), b)
}

/// Whether the file system may answer `b` where it is asked for `path`: what comes of asking it, by
/// `std::path::Path::exists`.
pub closed spec fn disk_gave(path: Seq<char>, b: bool) -> bool {
    gave(path_exists, path, b)
}

/// The package manager by the lock files: the one of pnpm is asked for, then that of yarn.
pub fn detect_package_manager_by<F: Fn(&str) -> bool>(path_exists: F) -> (r: &'static str)
    requires
        forall|s: &str|
            s@ == "pnpm-lock.yaml"@ || (s@ == "yarn.lock"@ && gave(
                path_exists,
                "pnpm-lock.yaml"@,
                false,
            )) ==> call_requires(path_exists, (s,)),
    ensures
        exists|pnpm_lock: bool, yarn_lock: bool|
            gave(path_exists, "pnpm-lock.yaml"@, pnpm_lock) && (!pnpm_lock ==> gave(
                path_exists,
                "yarn.lock"@,
                yarn_lock,
            )) && r@ == #[trigger] package_manager(pnpm_lock, yarn_lock),
{
    let pnpm_lock = path_exists("pnpm-lock.yaml");
    assert(gave(path_exists, "pnpm-lock.yaml"@, pnpm_lock));
    if pnpm_lock {
        return package_manager_for(pnpm_lock, false);
    }
    let yarn_lock = path_exists("yarn.lock");
    assert(gave(path_exists, "yarn.lock"@, yarn_lock));
    package_manager_for(pnpm_lock, yarn_lock)
}

/// What the file system may answer on the lock files, as far as it is asked.
pub open spec fn lock_files_told(pnpm_lock: bool, yarn_lock: bool) -> bool {
    disk_gave("pnpm-lock.yaml"@, pnpm_lock) && (!pnpm_lock ==> disk_gave(
        "yarn.lock"@,
        yarn_lock,
    ))
}

/// The package manager of the current directory.
pub fn detect_package_manager() -> (r: &'static str)
    ensures
        exists|pnpm_lock: bool, yarn_lock: bool|
            lock_files_told(pnpm_lock, yarn_lock) && r@ == #[trigger] package_manager(
                pnpm_lock,
                yarn_lock,
            ),
{
    detect_package_manager_by(path_exists)
}

/// The command that runs a tool: the tool itself where it is installed, else the package manager's
/// way to run it.
pub open spec fn tool_line(tool: Seq<char>, installed: bool, manager: Seq<char>) -> CommandView {
    if installed {
        CommandView { program: tool, args: Seq::empty(), env: Seq::empty() }
    } else if manager == "pnpm"@ || manager == "yarn"@ {
        CommandView { program: manager, args: seq!["exec"@, "--"@, tool], env: Seq::empty() }
    } else {
        CommandView {
            program: "npx"@,
            args: seq!["--no-install"@, "--"@, tool],
            env: Seq::empty(),
        }
    }
}

/// The command that runs a tool, ready for the tool's own arguments.
pub fn package_manager_command(tool: &str, installed: bool, manager: &str) -> (r: CommandLine)
    ensures
        r@ == tool_line(tool@, installed, manager@),
{
    if installed {
        return CommandLine::new(tool);
    }
    if chars::same_str(manager, "pnpm") || chars::same_str(manager, "yarn") {
        let cmd = CommandLine::new(manager).arg("exec").arg("--").arg(tool);
        assert(cmd@ == tool_line(tool@, installed, manager@));
        return cmd;
    }
    let cmd = CommandLine::new("npx").arg("--no-install").arg("--").arg(tool);
    assert(cmd@ == tool_line(tool@, installed, manager@));
    cmd
}

/// The command that runs a tool, by the package manager of the current directory where the tool is
/// not installed.
pub fn package_manager_exec(tool: &str, installed: bool) -> (r: CommandLine)
    ensures
        exists|pnpm_lock: bool, yarn_lock: bool|
            (!installed ==> lock_files_told(pnpm_lock, yarn_lock)) && r@ == tool_line(
                tool@,
                installed,
                #[trigger] package_manager(pnpm_lock, yarn_lock),
            ),
{
    if installed {
        let cmd = package_manager_command(tool, installed, "npm");
        assert(cmd@ == tool_line(tool@, installed, package_manager(false, false)));
        return cmd;
    }
    package_manager_command(tool, installed, detect_package_manager())
}

/// A text that is cut keeps its start and ends with an ellipsis, and fills its cap.
pub proof fn law_truncated(s: Seq<char>, max: nat)
    requires
        s.len() > max,
    ensures
        max >= 3 ==> truncated(s, max).len() == max && truncated(s, max).take(max - 3) == s.take(
            max - 3,
        ) && truncated(s, max).skip(max - 3) == "..."@,
        max < 3 ==> truncated(s, max) == "..."@,
{
    reveal_strlit("...");
    if max >= 3 {
        let t = truncated(s, max);
        assert(t.take(max - 3) == s.take(max - 3));
        assert(t.skip(max - 3) == "..."@);
    }
}

/// A character that is no escape stays, and so does an escape that begins no sequence.
pub proof fn law_other_characters_kept(c: char, d: char, rest: Seq<char>)
    ensures
        c != '\x1b' ==> ansi_stripped(seq![c] + rest) == seq![c] + ansi_stripped(rest),
        d != '[' ==> ansi_stripped(seq!['\x1b', d] + rest) == seq!['\x1b'] + ansi_stripped(
            seq![d] + rest,
        ),
{
    let s = seq![c] + rest;
    assert(s[0] == c);
    assert(s.skip(1) == rest);
    let t = seq!['\x1b', d] + rest;
    assert(t[0] == '\x1b' && t[1] == d);
    assert(t.skip(1) == seq![d] + rest);
}

/// Stripping goes on behind plain text: it is kept, and what follows is stripped as if it stood alone.
pub proof fn law_plain_text_passed(plain: Seq<char>, rest: Seq<char>)
    requires
        !plain.contains('\x1b'),
    ensures
        ansi_stripped(plain + rest) == plain + ansi_stripped(rest),
    decreases plain.len(),
{
    if plain.len() == 0 {
        assert(plain + rest == rest);
        assert(plain + ansi_stripped(rest) == ansi_stripped(rest));
    } else {
        let tail = plain.drop_first();
        assert(plain[0] != '\x1b') by {
            assert(plain.contains(plain[0]));
        }
        assert(!tail.contains('\x1b')) by {
            if tail.contains('\x1b') {
                let k = choose|k: int| 0 <= k < tail.len() && tail[k] == '\x1b';
                assert(plain[k + 1] == '\x1b');
            }
        }
        law_plain_text_passed(tail, rest);
        assert(plain + rest == seq![plain[0]] + (tail + rest));
        law_other_characters_kept(plain[0], plain[0], tail + rest);
        assert(plain == seq![plain[0]] + tail);
        assert(seq![plain[0]] + (tail + ansi_stripped(rest)) == plain + ansi_stripped(rest));
    }
}

/// Items that are all shown are joined by lines, and what is left out is counted.
pub proof fn law_overflow(
    items: Seq<Seq<char>>,
    total: nat,
    max: nat,
    label: Seq<char>,
)
    ensures
        total <= max ==> overflowing(items, total, max, label) == compose::joined(items, "\n"@),
        total > max ==> overflowing(items, total, max, label) == compose::joined(items, "\n"@)
            + "\n... +"@ + number::dec((total - max) as nat) + " more "@ + label,
{
}

/// A count is shown in full below a thousand, in thousands below a million, and in millions else.
pub proof fn law_token_units(n: nat)
    ensures
        n < 1_000 ==> tokens(n) == number::dec(n),
        1_000 <= n < 1_000_000 ==> tokens(n).last() == 'K',
        n >= 1_000_000 ==> tokens(n).last() == 'M',
        n >= 1_000 ==> tokens(n).contains('.'),
{
    reveal_strlit("K");
    reveal_strlit("M");
    reveal_strlit(".");
    if n >= 1_000 {
        let t = if n >= 1_000_000 {
            tenths(n, 1_000_000)
        } else {
            tenths(n, 1_000)
        };
        let k: int = number::dec(t / 10).len() as int;
        assert(tokens(n)[k] == '.');
    }
}

/// A confirmation names the action, and the detail where there is one.
pub proof fn law_confirmation(action: Seq<char>, detail: Seq<char>)
    ensures
        confirmation(action, Seq::empty()) == "ok "@ + action,
        detail.len() > 0 ==> confirmation(action, detail) == "ok "@ + action + " "@ + detail,
{
}

/// A lock file tells the package manager, that of pnpm before that of yarn; without one it is npm.
pub proof fn law_package_manager(yarn_lock: bool)
    ensures
        package_manager(true, yarn_lock) == "pnpm"@,
        package_manager(false, true) == "yarn"@,
        package_manager(false, false) == "npm"@,
{
}

/// A tool that is installed runs by itself; another runs through the package manager, and is never
/// installed on the way.
pub proof fn law_tool_commands(tool: Seq<char>, manager: Seq<char>)
    ensures
        tool_line(tool, true, manager).program == tool,
        tool_line(tool, true, manager).args.len() == 0,
        tool_line(tool, false, "pnpm"@).program == "pnpm"@,
        tool_line(tool, false, "pnpm"@).args == seq!["exec"@, "--"@, tool],
        tool_line(tool, false, "yarn"@).program == "yarn"@,
        tool_line(tool, false, "yarn"@).args == seq!["exec"@, "--"@, tool],
        manager != "pnpm"@ && manager != "yarn"@ ==> tool_line(tool, false, manager).program
            == "npx"@ && tool_line(tool, false, manager).args == seq!["--no-install"@, "--"@, tool],
{
}

proof fn lemma_rounded(num: nat, den: nat)
    requires
        0 < den,
    ensures
        2 * (rounded(num, den) * den) <= 2 * num + den,
        2 * num <= 2 * (rounded(num, den) * den) + den,
{
    let q = num / den;
    let r = num % den;
    assert(num == q * den + r && r < den) by (nonlinear_arith)
        requires
            q == num / den,
            r == num % den,
            0 < den,
    ;
    assert((q + 1) * den == q * den + den) by (nonlinear_arith);
}

proof fn lemma_binade(num: nat, den: nat)
    requires
        0 < den <= num,
    ensures
        0 < binade(num, den),
        den * binade(num, den) <= num,
    decreases num - den,
{
    if num >= 2 * den {
        lemma_binade(num, 2 * den);
        let b = binade(num, 2 * den);
        assert(den * (2 * b) == (2 * den) * b) by (nonlinear_arith);
    } else {
        assert(den * 1 == den) by (nonlinear_arith);
    }
}

proof fn lemma_tenths(n: nat, unit: nat)
    requires
        0 < unit <= n,
        n < 2 * STEPS,
    ensures
        2 * STEPS * (tenths(n, unit) * unit) <= 2 * STEPS * (10 * n) + STEPS * unit + 10 * n,
        2 * STEPS * (10 * n) <= 2 * STEPS * (tenths(n, unit) * unit) + STEPS * unit + 10 * n,
{
    let k = STEPS as nat;
    let p = binade(n, unit);
    let m = significand(n, unit);
    let t = tenths(n, unit);
    lemma_binade(n, unit);
    assert(unit * p > 0) by (nonlinear_arith)
        requires
            0 < unit,
            0 < p,
    ;
    lemma_rounded(n * k, unit * p);
    lemma_rounded(m * p * 10, k);
    assert(t == rounded(m * p * 10, k));
    let whole = m * (unit * p);
    assert((m * p * 10) * unit == 10 * whole) by (nonlinear_arith)
        requires
            whole == m * (unit * p),
    ;
    assert((t * k) * unit == k * (t * unit)) by (nonlinear_arith);
    assert(2 * (k * (t * unit)) <= 2 * (10 * whole) + k * unit) by (nonlinear_arith)
        requires
            2 * (t * k) <= 2 * (m * p * 10) + k,
            (m * p * 10) * unit == 10 * whole,
            (t * k) * unit == k * (t * unit),
            0 < unit,
    ;
    assert(2 * (10 * whole) <= 2 * (k * (t * unit)) + k * unit) by (nonlinear_arith)
        requires
            2 * (m * p * 10) <= 2 * (t * k) + k,
            (m * p * 10) * unit == 10 * whole,
            (t * k) * unit == k * (t * unit),
            0 < unit,
    ;
    assert(n * k == k * n) by (nonlinear_arith);
    assert(2 * k * (t * unit) == 2 * (k * (t * unit))) by (nonlinear_arith);
    assert(2 * k * (10 * n) == 20 * (k * n)) by (nonlinear_arith);
}

proof fn lemma_within_half(k: nat, x: nat, y: nat, unit: nat, slack: nat)
    requires
        2 * k * x <= 2 * k * y + k * unit + slack,
        slack < k,
    ensures
        2 * x <= 2 * y + unit,
{
    if 2 * x > 2 * y + unit {
        assert(2 * k * x >= 2 * k * y + k * unit + k) by (nonlinear_arith)
            requires
                2 * x >= 2 * y + unit + 1,
        ;
    }
}

/// Tenths of a thousand or of a million are shown to the nearest one: a count below 450 trillion is
/// never further from what is shown than half a tenth.
pub proof fn law_tokens_to_the_nearest_tenth(n: nat)
    requires
        n < 450_000_000_000_000,
    ensures
        1_000 <= n < 1_000_000 ==> exists|t: nat| #[trigger]
            one_decimal(t) + "K"@ == tokens(n) && -500 <= t * 1_000 - 10 * n <= 500,
        n >= 1_000_000 ==> exists|t: nat| #[trigger]
            one_decimal(t) + "M"@ == tokens(n) && -500_000 <= t * 1_000_000 - 10 * n <= 500_000,
{
    if n >= 1_000_000 {
        lemma_tenths(n, 1_000_000);
        let t = tenths(n, 1_000_000);
        let x: nat = t * 1_000_000;
        let y: nat = 10 * n;
        lemma_within_half(STEPS as nat, x, y, 1_000_000, y);
        lemma_within_half(STEPS as nat, y, x, 1_000_000, y);
        assert(-500_000 <= x - y <= 500_000);
        assert(one_decimal(t) + "M"@ == tokens(n));
    } else if n >= 1_000 {
        lemma_tenths(n, 1_000);
        let t = tenths(n, 1_000);
        let x: nat = t * 1_000;
        let y: nat = 10 * n;
        lemma_within_half(STEPS as nat, x, y, 1_000, y);
        lemma_within_half(STEPS as nat, y, x, 1_000, y);
        assert(-500 <= x - y <= 500);
        assert(one_decimal(t) + "K"@ == tokens(n));
    }
}

/// A number of tenths is written with its whole part, a point and one digit.
pub proof fn law_one_decimal(whole: nat, tenth: nat)
    requires
        tenth < 10,
    ensures
        one_decimal(10 * whole + tenth) == number::dec(whole) + "."@ + number::dec(tenth),
{
}

/// An escape sequence ends with a letter of the Latin alphabet, small or large, and with no other
/// character.
pub proof fn law_letters(c: char)
    ensures
        is_letter(c) == (65 <= c as u32 <= 90 || 97 <= c as u32 <= 122),
{
}

} // verus!
