//! `pnpm`: dependency lists, outdated packages and installations.
use crate::parser::{
    Dependency, DependencyState, DependencyView, ParseResult, ParseView, StateView,
};
use crate::parser;
use crate::text::chars;
use crate::text::compose;
use crate::text::number;
use crate::text::search;
use crate::text::select;
use crate::text::split;
use crate::truncate;
use vstd::prelude::*;
use vstd::slice::slice_subrange;

verus! {

/// How many packages of a section a list shows.
pub const MAX_LISTING: usize = truncate::CAP_LIST;

/// A package in the output of `pnpm list --json`.
#[derive(Debug)]
pub struct PackageJsonListItem {
    /// Its version, where it has one.
    pub version: Option<String>,
    /// The packages that it depends on, by name.
    pub dependencies: Vec<(String, PackageJsonListItem)>,
    /// The packages that it depends on for development, by name.
    pub dev_dependencies: Vec<(String, PackageJsonListItem)>,
}

/// A project in the output of `pnpm list --json`.
#[derive(Debug)]
pub struct PnpmListOutput {
    /// Its name.
    pub name: String,
    /// The project as a package.
    pub package: PackageJsonListItem,
}

/// A package of which a version is known.
pub open spec fn listed(name: Seq<char>, version: Seq<char>, dev: bool) -> DependencyView {
    DependencyView { name, current: version, latest: None, wanted: None, dev }
}

/// The packages of a tree, from the top down. What is below a development dependency is one too.
pub open spec fn collected(
    name: Seq<char>,
    pkg: PackageJsonListItem,
    dev: bool,
) -> Seq<DependencyView>
    decreases pkg,
{
    let own = match pkg.version {
        Some(version) => seq![listed(name, version@, dev)],
        None => Seq::empty(),
    };
    own + collected_all(pkg.dependencies, pkg.dependencies@.len(), dev) + collected_all(
        pkg.dev_dependencies,
        pkg.dev_dependencies@.len(),
        true,
    )
}

/// The packages of the first `n` trees.
pub open spec fn collected_all(
    pkgs: Vec<(String, PackageJsonListItem)>,
    n: nat,
    dev: bool,
) -> Seq<DependencyView>
    decreases pkgs, n,
{
    if n == 0 || n > pkgs@.len() {
        Seq::empty()
    } else {
        collected_all(pkgs, (n - 1) as nat, dev) + collected(
            pkgs@[n - 1].0@,
            pkgs@[n - 1].1,
            dev,
        )
    }
}

fn listed_package(name: &str, version: &str, dev: bool) -> (r: Dependency)
    ensures
        r@ == listed(name@, version@, dev),
{
    Dependency {
        name: name.to_string(),
        current_version: version.to_string(),
        latest_version: None,
        wanted_version: None,
        dev_dependency: dev,
    }
}

fn push_dependency(deps: &mut Vec<Dependency>, d: Dependency)
    ensures
        parser::dependencies_of(final(deps)@) == parser::dependencies_of(old(deps)@).push(d@),
{
    deps.push(d);
    assert(parser::dependencies_of(deps@) == parser::dependencies_of(old(deps)@).push(d@));
}

/// Collects the packages of a tree.
pub fn collect_dependencies(
    name: &str,
    pkg: &PackageJsonListItem,
    is_dev: bool,
    deps: &mut Vec<Dependency>,
)
    ensures
        parser::dependencies_of(final(deps)@) == parser::dependencies_of(old(deps)@) + collected(
            name@,
            *pkg,
            is_dev,
        ),
    decreases pkg,
{
    let ghost before = parser::dependencies_of(deps@);
    match &pkg.version {
        Some(version) => {
            push_dependency(deps, listed_package(name, version.as_str(), is_dev));
        },
        None => {},
    }
    collect_all(&pkg.dependencies, is_dev, deps);
    collect_all(&pkg.dev_dependencies, true, deps);
    assert(parser::dependencies_of(deps@) == before + collected(name@, *pkg, is_dev));
}

fn collect_all(
    pkgs: &Vec<(String, PackageJsonListItem)>,
    is_dev: bool,
    deps: &mut Vec<Dependency>,
)
    ensures
        parser::dependencies_of(final(deps)@) == parser::dependencies_of(old(deps)@)
            + collected_all(*pkgs, pkgs@.len(), is_dev),
    decreases pkgs,
{
    let ghost before = parser::dependencies_of(deps@);
    let mut i: usize = 0;
    assert(before + Seq::<DependencyView>::empty() == before);
    while i < pkgs.len()
        invariant
            i <= pkgs@.len(),
            parser::dependencies_of(deps@) == before + collected_all(*pkgs, i as nat, is_dev),
        decreases pkgs@.len() - i,
    {
        collect_dependencies(pkgs[i].0.as_str(), &pkgs[i].1, is_dev, deps);
        assert(parser::dependencies_of(deps@) == before + collected_all(
            *pkgs,
            (i + 1) as nat,
            is_dev,
        ));
        i += 1;
    }
}

/// The packages of the projects.
pub open spec fn collected_projects(projects: Seq<PnpmListOutput>) -> Seq<DependencyView>
    decreases projects.len(),
{
    if projects.len() == 0 {
        Seq::empty()
    } else {
        collected_projects(projects.drop_last()) + collected(
            projects.last().name@,
            projects.last().package,
            false,
        )
    }
}

/// A state in which nothing is known to be outdated.
pub open spec fn list_state(dependencies: Seq<DependencyView>) -> StateView {
    StateView { total: dependencies.len(), outdated: 0, dependencies }
}

/// A list that is being read: the packages so far, and whether the section is that of development
/// dependencies.
pub struct Reading {
    /// The packages so far.
    pub dependencies: Seq<DependencyView>,
    /// Whether the section is that of development dependencies.
    pub dev: bool,
}

/// A line that only draws the tree or explains it.
pub open spec fn is_decoration(line: Seq<char>) -> bool {
    ||| line.contains('│')
    ||| line.contains('├')
    ||| line.contains('└')
    ||| search::occurs(line, "Legend:"@)
    ||| chars::is_blank(line)
}

/// The package in a text such as `name@1.2.3`.
pub open spec fn package_in(text: Seq<char>, dev: bool) -> Option<DependencyView> {
    match search::last_at(text, "@"@) {
        Some(p) => if p > 0 && p + 1 < text.len() {
            Some(listed(text.take(p), text.skip(p + 1), dev))
        } else {
            None
        },
        None => None,
    }
}

/// The list after one more line.
pub open spec fn with_list_line(s: Reading, line: Seq<char>) -> Reading {
    let t = chars::trimmed(line);
    if t == "devDependencies:"@ {
        Reading { dev: true, ..s }
    } else if t == "dependencies:"@ {
        Reading { dev: false, ..s }
    } else if is_decoration(line) {
        s
    } else {
        let words = split::words_of(t);
        if words.len() == 0 {
            s
        } else {
            match package_in(words[0], s.dev) {
                Some(d) => Reading { dependencies: s.dependencies.push(d), ..s },
                None => s,
            }
        }
    }
}

/// The list that the lines tell.
pub open spec fn list_read(lines: Seq<Seq<char>>) -> Reading
    decreases lines.len(),
{
    if lines.len() == 0 {
        Reading { dependencies: Seq::empty(), dev: false }
    } else {
        with_list_line(list_read(lines.drop_last()), lines.last())
    }
}

/// The packages in the text of `pnpm list`, where there are any.
pub open spec fn list_text(output: Seq<char>) -> Option<StateView> {
    let deps = list_read(split::lines_of(output)).dependencies;
    if deps.len() > 0 {
        Some(list_state(deps))
    } else {
        None
    }
}

/// The model of an optional state.
pub open spec fn optional_state(s: Option<DependencyState>) -> Option<StateView> {
    match s {
        Some(state) => Some(state@),
        None => None,
    }
}

fn read_package(text: &[char], dev: bool) -> (r: Option<Dependency>)
    ensures
        match r {
            Some(d) => package_in(text@, dev) == Some(d@),
            None => package_in(text@, dev) is None,
        },
{
    proof {
        reveal_strlit("@");
        search::lemma_last_at(text@, "@"@);
    }
    let n: usize = text.len();
    match search::rfind(text, "@") {
        Some(p) => {
            if p == 0 || p + 1 == n {
                return None;
            }
            let name = slice_subrange(text, 0, p);
            assert(name@ == text@.take(p as int));
            let version = slice_subrange(text, p + 1, n);
            assert(version@ == text@.skip(p + 1));
            let name = chars::string_of(name);
            let version = chars::string_of(version);
            Some(listed_package(name.as_str(), version.as_str(), dev))
        },
        None => None,
    }
}

fn decoration(line: &[char]) -> (r: bool)
    ensures
        r == is_decoration(line@),
{
    search::contains_char(line, '│') || search::contains_char(line, '├')
        || search::contains_char(line, '└') || search::contains(line, "Legend:") || chars::blank(
        line,
    )
}

fn read_list_line(deps: &mut Vec<Dependency>, dev: bool, line: &[char]) -> (r: bool)
    ensures
        (Reading { dependencies: parser::dependencies_of(final(deps)@), dev: r }) == with_list_line(
            Reading { dependencies: parser::dependencies_of(old(deps)@), dev },
            line@,
        ),
{
    let t = chars::trim(line);
    if chars::equals(t, "devDependencies:") {
        return true;
    }
    if chars::equals(t, "dependencies:") {
        return false;
    }
    if decoration(line) {
        return dev;
    }
    let words = split::words(t);
    assert(split::views(words@).len() == words@.len());
    if words.len() > 0 {
        assert(split::views(words@)[0] == words@[0]@);
        match read_package(words[0], dev) {
            Some(d) => {
                push_dependency(deps, d);
            },
            None => {},
        }
    }
    dev
}

/// Reads the packages from the text of `pnpm list`, where there are any.
pub fn extract_list_text(output: &str) -> (r: Option<DependencyState>)
    ensures
        optional_state(r) == list_text(output@),
{
    let text = chars::to_chars(output);
    let lines = split::lines(text.as_slice());
    let ghost all = split::views(lines@);
    let mut deps: Vec<Dependency> = Vec::new();
    let mut dev = false;
    let mut i: usize = 0;
    assert(parser::dependencies_of(deps@) == list_read(all.take(0)).dependencies);
    while i < lines.len()
        invariant
            i <= lines@.len(),
            all == split::views(lines@),
            parser::dependencies_of(deps@) == list_read(all.take(i as int)).dependencies,
            dev == list_read(all.take(i as int)).dev,
        decreases lines@.len() - i,
    {
        assert(all.take(i + 1).drop_last() == all.take(i as int));
        assert(all.take(i + 1).last() == lines@[i as int]@);
        dev = read_list_line(&mut deps, dev, lines[i]);
        i += 1;
    }
    assert(all.take(all.len() as int) == all);
    let count: usize = deps.len();
    assert(parser::dependencies_of(deps@).len() == count);
    if count > 0 {
        Some(DependencyState { total_packages: count, outdated_count: 0, dependencies: deps })
    } else {
        None
    }
}

/// Why JSON could not be parsed.
pub open spec fn parse_failure(reason: Seq<char>) -> Seq<Seq<char>> {
    seq!["JSON parse failed: "@ + reason]
}

/// What an output is understood as where its JSON could not be parsed: what its text tells, or the
/// output itself.
pub open spec fn fallback(
    text: Option<StateView>,
    reason: Seq<char>,
    passthrough: Seq<char>,
) -> ParseView<StateView> {
    match text {
        Some(state) => ParseView::Degraded(state, parse_failure(reason)),
        None => ParseView::Passthrough(passthrough),
    }
}

fn fall_back(text: Option<DependencyState>, reason: &str, passthrough: String) -> (r: ParseResult<
    DependencyState,
>)
    ensures
        r@ == fallback(optional_state(text), reason@, passthrough@),
{
    match text {
        Some(state) => {
            let mut warning = "JSON parse failed: ".to_string();
            warning.append(reason);
            let mut warnings: Vec<String> = Vec::new();
            compose::push(&mut warnings, warning);
            assert(warnings.deep_view() == parse_failure(reason@));
            ParseResult::Degraded(state, warnings)
        },
        None => ParseResult::Passthrough(passthrough),
    }
}

/// What the output of `pnpm list` is understood as.
pub open spec fn list_parsed(
    input: Seq<char>,
    json: Result<Vec<PnpmListOutput>, String>,
    passthrough: Seq<char>,
) -> ParseView<StateView> {
    match json {
        Ok(projects) => ParseView::Full(list_state(collected_projects(projects@))),
        Err(reason) => fallback(list_text(input), reason@, passthrough),
    }
}

/// The parser of the output of `pnpm list`.
pub struct PnpmListParser;

impl PnpmListParser {
    /// Understands the output of `pnpm list`: `json` is what it was parsed into, or why it could
    /// not be, and `passthrough` what is left of it where nothing is understood.
    pub fn parse(
        input: &str,
        json: Result<Vec<PnpmListOutput>, String>,
        passthrough: String,
    ) -> (r: ParseResult<DependencyState>)
        ensures
            r@ == list_parsed(input@, json, passthrough@),
    {
        match json {
            Ok(projects) => {
                let ghost all = projects@;
                let mut deps: Vec<Dependency> = Vec::new();
                let mut i: usize = 0;
                assert(parser::dependencies_of(deps@) == collected_projects(all.take(0)));
                while i < projects.len()
                    invariant
                        i <= projects@.len(),
                        all == projects@,
                        parser::dependencies_of(deps@) == collected_projects(all.take(i as int)),
                    decreases projects@.len() - i,
                {
                    assert(all.take(i + 1).drop_last() == all.take(i as int));
                    collect_dependencies(
                        projects[i].name.as_str(),
                        &projects[i].package,
                        false,
                        &mut deps,
                    );
                    i += 1;
                }
                assert(all.take(all.len() as int) == all);
                let total: usize = deps.len();
                assert(parser::dependencies_of(deps@).len() == total);
                ParseResult::Full(
                    DependencyState {
                        total_packages: total,
                        outdated_count: 0,
                        dependencies: deps,
                    },
                )
            },
            Err(reason) => fall_back(extract_list_text(input), reason.as_str(), passthrough),
        }
    }
}

/// A package in the output of `pnpm outdated --format json`.
#[derive(Debug)]
pub struct PnpmOutdatedPackage {
    /// The version in use.
    pub current: String,
    /// The newest version.
    pub latest: String,
    /// The newest version that the project allows.
    pub wanted: Option<String>,
    /// The kind of dependency.
    pub dependency_type: String,
}

/// The output of `pnpm outdated --format json`.
#[derive(Debug)]
pub struct PnpmOutdatedOutput {
    /// The packages, by name.
    pub packages: Vec<(String, PnpmOutdatedPackage)>,
}

/// A package that may be outdated.
pub open spec fn outdated_package(name: Seq<char>, p: PnpmOutdatedPackage) -> DependencyView {
    DependencyView {
        name,
        current: p.current@,
        latest: Some(p.latest@),
        wanted: compose::optional(p.wanted),
        dev: p.dependency_type@ == "devDependencies"@,
    }
}

/// The packages that may be outdated.
pub open spec fn outdated_packages(
    packages: Seq<(String, PnpmOutdatedPackage)>,
) -> Seq<DependencyView> {
    packages.map_values(|p: (String, PnpmOutdatedPackage)| outdated_package(p.0@, p.1))
}

/// How many packages have a newest version other than the one in use.
pub open spec fn outdated_count(deps: Seq<DependencyView>) -> nat
    decreases deps.len(),
{
    if deps.len() == 0 {
        0
    } else if Some(deps.last().current) != deps.last().latest {
        outdated_count(deps.drop_last()) + 1
    } else {
        outdated_count(deps.drop_last())
    }
}

/// The state of packages that may be outdated.
pub open spec fn outdated_state(deps: Seq<DependencyView>) -> StateView {
    StateView { total: deps.len(), outdated: outdated_count(deps), dependencies: deps }
}

/// A line of the text of `pnpm outdated` that tells of no package.
pub open spec fn is_frame(line: Seq<char>) -> bool {
    ||| line.contains('│')
    ||| line.contains('├')
    ||| line.contains('└')
    ||| line.contains('─')
    ||| chars::has_prefix(line, "Legend:"@)
    ||| chars::has_prefix(line, "Package"@)
    ||| chars::is_blank(line)
}

/// The package that a line such as `name current wanted latest` tells of.
pub open spec fn outdated_in(line: Seq<char>) -> Option<DependencyView> {
    let words = split::words_of(line);
    if is_frame(line) || words.len() < 4 {
        None
    } else {
        Some(
            DependencyView {
                name: words[0],
                current: words[1],
                latest: Some(words[3]),
                wanted: Some(words[2]),
                dev: false,
            },
        )
    }
}

/// The packages that the lines tell of.
pub open spec fn outdated_read(lines: Seq<Seq<char>>) -> Seq<DependencyView>
    decreases lines.len(),
{
    if lines.len() == 0 {
        Seq::empty()
    } else {
        match outdated_in(lines.last()) {
            Some(d) => outdated_read(lines.drop_last()).push(d),
            None => outdated_read(lines.drop_last()),
        }
    }
}

/// The packages in the text of `pnpm outdated`, where there are any.
pub open spec fn outdated_text(output: Seq<char>) -> Option<StateView> {
    let deps = outdated_read(split::lines_of(output));
    if deps.len() > 0 {
        Some(outdated_state(deps))
    } else {
        None
    }
}

fn read_outdated(line: &[char]) -> (r: Option<Dependency>)
    ensures
        match r {
            Some(d) => outdated_in(line@) == Some(d@),
            None => outdated_in(line@) is None,
        },
{
    if search::contains_char(line, '│') || search::contains_char(line, '├')
        || search::contains_char(line, '└') || search::contains_char(line, '─')
        || chars::starts_with(line, "Legend:") || chars::starts_with(line, "Package")
        || chars::blank(line) {
        return None;
    }
    let words = split::words(line);
    let ghost all = split::views(words@);
    assert(all.len() == words@.len());
    if words.len() < 4 {
        return None;
    }
    assert(all[0] == words@[0]@ && all[1] == words@[1]@ && all[2] == words@[2]@ && all[3]
        == words@[3]@);
    Some(
        Dependency {
            name: chars::string_of(words[0]),
            current_version: chars::string_of(words[1]),
            latest_version: Some(chars::string_of(words[3])),
            wanted_version: Some(chars::string_of(words[2])),
            dev_dependency: false,
        },
    )
}

fn count_outdated(deps: &Vec<Dependency>) -> (r: usize)
    ensures
        r == outdated_count(parser::dependencies_of(deps@)),
{
    let ghost all = parser::dependencies_of(deps@);
    let mut n: usize = 0;
    let mut i: usize = 0;
    while i < deps.len()
        invariant
            i <= deps@.len(),
            all == parser::dependencies_of(deps@),
            n == outdated_count(all.take(i as int)),
            n <= i,
        decreases deps@.len() - i,
    {
        assert(all.take(i + 1).drop_last() == all.take(i as int));
        assert(all.take(i + 1).last() == deps@[i as int]@);
        let d = &deps[i];
        let same = match &d.latest_version {
            Some(latest) => chars::same_str(d.current_version.as_str(), latest.as_str()),
            None => false,
        };
        if !same {
            n += 1;
        }
        i += 1;
    }
    assert(all.take(all.len() as int) == all);
    n
}

/// Reads the packages from the text of `pnpm outdated`, where there are any.
pub fn extract_outdated_text(output: &str) -> (r: Option<DependencyState>)
    ensures
        optional_state(r) == outdated_text(output@),
{
    let text = chars::to_chars(output);
    let lines = split::lines(text.as_slice());
    let ghost all = split::views(lines@);
    let mut deps: Vec<Dependency> = Vec::new();
    let mut i: usize = 0;
    assert(parser::dependencies_of(deps@) == outdated_read(all.take(0)));
    while i < lines.len()
        invariant
            i <= lines@.len(),
            all == split::views(lines@),
            parser::dependencies_of(deps@) == outdated_read(all.take(i as int)),
        decreases lines@.len() - i,
    {
        assert(all.take(i + 1).drop_last() == all.take(i as int));
        assert(all.take(i + 1).last() == lines@[i as int]@);
        match read_outdated(lines[i]) {
            Some(d) => {
                push_dependency(&mut deps, d);
            },
            None => {},
        }
        i += 1;
    }
    assert(all.take(all.len() as int) == all);
    let total: usize = deps.len();
    assert(parser::dependencies_of(deps@).len() == total);
    if total > 0 {
        let outdated: usize = count_outdated(&deps);
        Some(
            DependencyState {
                total_packages: total,
                outdated_count: outdated,
                dependencies: deps,
            },
        )
    } else {
        None
    }
}

/// What the output of `pnpm outdated` is understood as.
pub open spec fn outdated_parsed(
    input: Seq<char>,
    json: Result<PnpmOutdatedOutput, String>,
    passthrough: Seq<char>,
) -> ParseView<StateView> {
    match json {
        Ok(found) => ParseView::Full(outdated_state(outdated_packages(found.packages@))),
        Err(reason) => fallback(outdated_text(input), reason@, passthrough),
    }
}

/// The parser of the output of `pnpm outdated`.
pub struct PnpmOutdatedParser;

impl PnpmOutdatedParser {
    /// Understands the output of `pnpm outdated`: `json` is what it was parsed into, or why it
    /// could not be, and `passthrough` what is left of it where nothing is understood.
    pub fn parse(
        input: &str,
        json: Result<PnpmOutdatedOutput, String>,
        passthrough: String,
    ) -> (r: ParseResult<DependencyState>)
        ensures
            r@ == outdated_parsed(input@, json, passthrough@),
    {
        match json {
            Ok(found) => {
                let ghost all = found.packages@;
                let mut deps: Vec<Dependency> = Vec::new();
                let mut i: usize = 0;
                assert(parser::dependencies_of(deps@) == outdated_packages(all.take(0)));
                while i < found.packages.len()
                    invariant
                        i <= found.packages@.len(),
                        all == found.packages@,
                        parser::dependencies_of(deps@) == outdated_packages(all.take(i as int)),
                    decreases found.packages@.len() - i,
                {
                    let pkg = &found.packages[i].1;
                    let d = Dependency {
                        name: found.packages[i].0.as_str().to_string(),
                        current_version: pkg.current.as_str().to_string(),
                        latest_version: Some(pkg.latest.as_str().to_string()),
                        wanted_version: match &pkg.wanted {
                            Some(w) => Some(w.as_str().to_string()),
                            None => None,
                        },
                        dev_dependency: chars::same_str(
                            pkg.dependency_type.as_str(),
                            "devDependencies",
                        ),
                    };
                    push_dependency(&mut deps, d);
                    assert(all.take(i + 1) == all.take(i as int).push(all[i as int]));
                    assert(parser::dependencies_of(deps@) == outdated_packages(all.take(i + 1)));
                    i += 1;
                }
                assert(all.take(all.len() as int) == all);
                let total: usize = deps.len();
                assert(parser::dependencies_of(deps@).len() == total);
                let outdated: usize = count_outdated(&deps);
                ParseResult::Full(
                    DependencyState {
                        total_packages: total,
                        outdated_count: outdated,
                        dependencies: deps,
                    },
                )
            },
            Err(reason) => fall_back(extract_outdated_text(input), reason.as_str(), passthrough),
        }
    }
}

/// The packages of one section.
pub open spec fn section_of(deps: Seq<DependencyView>, dev: bool) -> Seq<DependencyView>
    decreases deps.len(),
{
    if deps.len() == 0 {
        Seq::empty()
    } else if deps.last().dev == dev {
        section_of(deps.drop_last(), dev).push(deps.last())
    } else {
        section_of(deps.drop_last(), dev)
    }
}

/// The line on a package.
pub open spec fn package_line(d: DependencyView) -> Seq<char> {
    "  "@ + d.name + " "@ + d.current
}

/// The lines on packages.
pub open spec fn package_lines(deps: Seq<DependencyView>) -> Seq<Seq<char>> {
    deps.map_values(|d: DependencyView| package_line(d))
}

/// Whether a section is cut.
pub open spec fn is_cut(deps: Seq<DependencyView>, cap: bool) -> bool {
    cap && deps.len() > MAX_LISTING
}

/// The lines of a section; `hint` says where the whole section can be found.
pub open spec fn section_lines(
    title: Seq<char>,
    deps: Seq<DependencyView>,
    cap: bool,
    hint: Option<Seq<char>>,
) -> Seq<Seq<char>> {
    if deps.len() == 0 {
        Seq::empty()
    } else if is_cut(deps, cap) {
        let cut = seq![title] + package_lines(deps.take(MAX_LISTING as int)) + seq![
            "  … +"@ + number::dec((deps.len() - MAX_LISTING) as nat) + " more"@,
        ];
        match hint {
            Some(h) => cut.push("  "@ + h),
            None => cut,
        }
    } else {
        seq![title] + package_lines(deps)
    }
}

/// The larger of two numbers.
pub open spec fn larger(a: nat, b: nat) -> nat {
    if a > b {
        a
    } else {
        b
    }
}

/// The lines of a listing.
pub open spec fn listing_lines(
    s: StateView,
    cap: bool,
    prod_hint: Option<Seq<char>>,
    dev_hint: Option<Seq<char>>,
) -> Seq<Seq<char>> {
    let prod = section_of(s.dependencies, false);
    let dev = section_of(s.dependencies, true);
    seq![
        number::dec(larger(s.total, s.dependencies.len())) + " packages ("@ + number::dec(
            prod.len(),
        ) + " prod / "@ + number::dec(dev.len()) + " dev)"@,
    ] + section_lines("[prod]"@, prod, cap, prod_hint) + section_lines(
        "[dev]"@,
        dev,
        cap,
        dev_hint,
    )
}

/// The listing of the dependencies of a project.
pub open spec fn listing(
    s: StateView,
    cap: bool,
    prod_hint: Option<Seq<char>>,
    dev_hint: Option<Seq<char>>,
) -> Seq<char> {
    compose::joined(listing_lines(s, cap, prod_hint, dev_hint), "\n"@)
}

/// The whole of a section, where a listing cuts it.
pub open spec fn cut_section(deps: Seq<DependencyView>, cap: bool) -> Option<Seq<char>> {
    if is_cut(deps, cap) {
        Some(compose::joined(package_lines(deps), "\n"@))
    } else {
        None
    }
}

fn line_of(d: &Dependency) -> (r: String)
    ensures
        r@ == package_line(d@),
{
    let mut out = "  ".to_string();
    out.append(d.name.as_str());
    out.append(" ");
    out.append(d.current_version.as_str());
    out
}

fn lines_of_section(deps: &Vec<Dependency>, dev: bool) -> (r: Vec<String>)
    ensures
        r.deep_view() == package_lines(section_of(parser::dependencies_of(deps@), dev)),
{
    let ghost all = parser::dependencies_of(deps@);
    let mut out: Vec<String> = Vec::new();
    let mut i: usize = 0;
    assert(out.deep_view() == package_lines(section_of(all.take(0), dev)));
    while i < deps.len()
        invariant
            i <= deps@.len(),
            all == parser::dependencies_of(deps@),
            out.deep_view() == package_lines(section_of(all.take(i as int), dev)),
        decreases deps@.len() - i,
    {
        let ghost before = section_of(all.take(i as int), dev);
        assert(all.take(i + 1).drop_last() == all.take(i as int));
        assert(all.take(i + 1).last() == deps@[i as int]@);
        if deps[i].dev_dependency == dev {
            compose::push(&mut out, line_of(&deps[i]));
            assert(package_lines(before.push(deps@[i as int]@)) == package_lines(before).push(
                package_line(deps@[i as int]@),
            ));
        }
        i += 1;
    }
    assert(all.take(all.len() as int) == all);
    out
}

fn push_section(
    lines: &mut Vec<String>,
    title: &str,
    section: &Vec<String>,
    cap: bool,
    hint: Option<String>,
    Ghost(deps): Ghost<Seq<DependencyView>>,
)
    requires
        section.deep_view() == package_lines(deps),
    ensures
        final(lines).deep_view() == old(lines).deep_view() + section_lines(
            title@,
            deps,
            cap,
            compose::optional(hint),
        ),
{
    let ghost before = lines.deep_view();
    assert(section.deep_view().len() == section@.len());
    if section.len() == 0 {
        assert(before + Seq::<Seq<char>>::empty() == before);
        return;
    }
    compose::push_str(lines, title);
    if cap && section.len() > MAX_LISTING {
        compose::push_range(lines, section.as_slice(), 0, MAX_LISTING);
        assert(section.deep_view().subrange(0, MAX_LISTING as int) == package_lines(
            deps.take(MAX_LISTING as int),
        ));
        let mut more = "  … +".to_string();
        more.append(number::decimal(section.len() - MAX_LISTING).as_str());
        more.append(" more");
        compose::push(lines, more);
        match &hint {
            Some(h) => {
                let mut line = "  ".to_string();
                line.append(h.as_str());
                compose::push(lines, line);
            },
            None => {},
        }
    } else {
        compose::extend(lines, section.as_slice());
    }
    assert(lines.deep_view() == before + section_lines(
        title@,
        deps,
        cap,
        compose::optional(hint),
    ));
}

/// Lists the dependencies of a project, with those for development in a section of their own.
///
/// With `cap`, for a list of both sections, each section is cut after `MAX_LISTING` packages, and
/// its hint says where the whole section can be found. Without, for a list of one section, every
/// package is shown.
pub fn format_dependency_listing(
    state: &DependencyState,
    cap: bool,
    prod_hint: Option<String>,
    dev_hint: Option<String>,
) -> (r: String)
    ensures
        r@ == listing(
            state@,
            cap,
            compose::optional(prod_hint),
            compose::optional(dev_hint),
        ),
{
    let ghost all = parser::dependencies_of(state.dependencies@);
    let prod = lines_of_section(&state.dependencies, false);
    let dev = lines_of_section(&state.dependencies, true);
    let ghost p = section_of(all, false);
    let ghost d = section_of(all, true);
    assert(prod.deep_view().len() == prod@.len());
    assert(dev.deep_view().len() == dev@.len());
    assert(all.len() == state.dependencies@.len());
    let total: usize = if state.total_packages > state.dependencies.len() {
        state.total_packages
    } else {
        state.dependencies.len()
    };
    let mut head = number::decimal(total);
    head.append(" packages (");
    head.append(number::decimal(prod.len()).as_str());
    head.append(" prod / ");
    head.append(number::decimal(dev.len()).as_str());
    head.append(" dev)");
    let mut lines: Vec<String> = Vec::new();
    compose::push(&mut lines, head);
    assert(lines.deep_view() == seq![head@]);
    push_section(&mut lines, "[prod]", &prod, cap, prod_hint, Ghost(p));
    push_section(&mut lines, "[dev]", &dev, cap, dev_hint, Ghost(d));
    compose::join(lines.as_slice(), "\n")
}

/// The whole of the sections that a listing cuts, for its hints: production and development.
pub fn cut_sections(state: &DependencyState, cap: bool) -> (r: (Option<String>, Option<String>))
    ensures
        compose::optional(r.0) == cut_section(section_of(state@.dependencies, false), cap),
        compose::optional(r.1) == cut_section(section_of(state@.dependencies, true), cap),
{
    let prod = lines_of_section(&state.dependencies, false);
    let dev = lines_of_section(&state.dependencies, true);
    assert(prod.deep_view().len() == prod@.len());
    assert(dev.deep_view().len() == dev@.len());
    let first = if cap && prod.len() > MAX_LISTING {
        Some(compose::join(prod.as_slice(), "\n"))
    } else {
        None
    };
    let second = if cap && dev.len() > MAX_LISTING {
        Some(compose::join(dev.as_slice(), "\n"))
    } else {
        None
    };
    (first, second)
}

/// A line of `pnpm install` that reports progress.
pub open spec fn is_progress(line: Seq<char>) -> bool {
    search::occurs(line, "Progress"@) || line.contains('│') || line.contains('%')
}

/// A line that reports an error.
pub open spec fn is_error(line: Seq<char>) -> bool {
    search::occurs(line, "ERR"@) || search::occurs(line, "error"@) || search::occurs(
        line,
        "ERROR"@,
    )
}

/// A line that sums up.
pub open spec fn is_summary(line: Seq<char>) -> bool {
    ||| search::occurs(line, "packages in"@)
    ||| search::occurs(line, "dependencies"@)
    ||| line.len() > 0 && (line[0] == '+' || line[0] == '-')
}

/// The lines of an installation that are kept, after progress was seen or not.
pub open spec fn install_lines(lines: Seq<Seq<char>>) -> Seq<Seq<char>>
    decreases lines.len(),
{
    if lines.len() == 0 {
        Seq::empty()
    } else {
        let kept = install_lines(lines.drop_last());
        let line = lines.last();
        if is_progress(line) {
            kept
        } else if saw_progress(lines.drop_last()) && chars::is_blank(line) {
            kept
        } else if is_error(line) {
            kept.push(line)
        } else if is_summary(line) {
            kept.push(chars::trimmed(line))
        } else {
            kept
        }
    }
}

/// Whether one of the lines reports progress.
pub open spec fn saw_progress(lines: Seq<Seq<char>>) -> bool {
    exists|i: int| 0 <= i < lines.len() && is_progress(#[trigger] lines[i])
}

/// What the output of an installation is reduced to.
pub open spec fn install_summary(output: Seq<char>) -> Seq<char> {
    let kept = install_lines(split::lines_of(output));
    if kept.len() == 0 {
        "ok"@
    } else {
        compose::joined(kept, "\n"@)
    }
}

/// Reduces the output of `pnpm install` to its errors and its summary.
pub fn filter_pnpm_install(output: &str) -> (r: String)
    ensures
        r@ == install_summary(output@),
{
    let text = chars::to_chars(output);
    let lines = split::lines(text.as_slice());
    let ghost all = split::views(lines@);
    let mut kept: Vec<String> = Vec::new();
    let mut progress = false;
    let mut i: usize = 0;
    assert(kept.deep_view() == install_lines(all.take(0)));
    while i < lines.len()
        invariant
            i <= lines@.len(),
            all == split::views(lines@),
            progress == saw_progress(all.take(i as int)),
            kept.deep_view() == install_lines(all.take(i as int)),
        decreases lines@.len() - i,
    {
        let line = lines[i];
        let ghost seen = all.take(i as int);
        let ghost next = all.take(i + 1);
        assert(next.drop_last() == seen);
        assert(next.last() == line@);
        let reports = search::contains(line, "Progress") || search::contains_char(line, '│')
            || search::contains_char(line, '%');
        if reports {
            assert(is_progress(next[i as int]));
            assert(saw_progress(next));
        } else {
            assert(saw_progress(next) == saw_progress(seen)) by {
                if saw_progress(seen) {
                    let k = choose|k: int| 0 <= k < seen.len() && is_progress(#[trigger] seen[k]);
                    assert(next[k] == seen[k]);
                }
                if saw_progress(next) {
                    let k = choose|k: int| 0 <= k < next.len() && is_progress(#[trigger] next[k]);
                    assert(k < i);
                    assert(seen[k] == next[k]);
                }
            }
        }
        if reports {
            progress = true;
        } else if progress && chars::blank(line) {
        } else if search::contains(line, "ERR") || search::contains(line, "error")
            || search::contains(line, "ERROR") {
            compose::push_chars(&mut kept, line);
        } else if search::contains(line, "packages in") || search::contains(line, "dependencies")
            || chars::starts_with_char(line, '+') || chars::starts_with_char(line, '-') {
            compose::push_chars(&mut kept, chars::trim(line));
        }
        i += 1;
    }
    assert(all.take(all.len() as int) == all);
    assert(kept.deep_view().len() == kept@.len());
    if kept.len() == 0 {
        return "ok".to_string();
    }
    compose::join(kept.as_slice(), "\n")
}

/// The two sections hold every package once.
pub proof fn law_sections_partition(deps: Seq<DependencyView>)
    ensures
        section_of(deps, false).len() + section_of(deps, true).len() == deps.len(),
    decreases deps.len(),
{
    if deps.len() > 0 {
        law_sections_partition(deps.drop_last());
    }
}

/// A list of one section shows every package of it.
pub proof fn law_no_cap_shows_all(
    title: Seq<char>,
    deps: Seq<DependencyView>,
    hint: Option<Seq<char>>,
    i: int,
)
    requires
        0 <= i < deps.len(),
    ensures
        section_lines(title, deps, false, hint).len() == deps.len() + 1,
        section_lines(title, deps, false, hint)[i + 1] == package_line(deps[i]),
{
}

/// A section that is cut says how many packages it leaves out, and what is saved for its hint holds
/// all of them; one that is not cut needs no hint.
pub proof fn law_cut_is_told(
    title: Seq<char>,
    deps: Seq<DependencyView>,
    cap: bool,
    hint: Option<Seq<char>>,
)
    requires
        deps.len() > 0,
    ensures
        is_cut(deps, cap) ==> section_lines(title, deps, cap, hint)[MAX_LISTING + 1] == "  … +"@
            + number::dec((deps.len() - MAX_LISTING) as nat) + " more"@,
        is_cut(deps, cap) ==> cut_section(deps, cap) == Some(
            compose::joined(package_lines(deps), "\n"@),
        ),
        !is_cut(deps, cap) ==> cut_section(deps, cap) is None && section_lines(
            title,
            deps,
            cap,
            hint,
        ).len() == deps.len() + 1,
{
}

/// What is below a development dependency is a development dependency.
pub proof fn law_dev_is_inherited(name: Seq<char>, pkg: PackageJsonListItem)
    ensures
        forall|i: int|
            0 <= i < collected(name, pkg, true).len() ==> (#[trigger] collected(
                name,
                pkg,
                true,
            )[i]).dev,
    decreases pkg,
{
    lemma_all_dev(pkg.dependencies, pkg.dependencies@.len());
    lemma_all_dev(pkg.dev_dependencies, pkg.dev_dependencies@.len());
}

proof fn lemma_all_dev(pkgs: Vec<(String, PackageJsonListItem)>, n: nat)
    ensures
        forall|i: int|
            0 <= i < collected_all(pkgs, n, true).len() ==> (#[trigger] collected_all(
                pkgs,
                n,
                true,
            )[i]).dev,
    decreases pkgs, n,
{
    if 0 < n <= pkgs@.len() {
        lemma_all_dev(pkgs, (n - 1) as nat);
        law_dev_is_inherited(pkgs@[n - 1].0@, pkgs@[n - 1].1);
    }
}

/// An error that is reported on a line without progress is kept as it is.
pub proof fn law_errors_kept(lines: Seq<Seq<char>>, i: int)
    requires
        0 <= i < lines.len(),
        is_error(lines[i]),
        !is_progress(lines[i]),
    ensures
        install_lines(lines).contains(lines[i]),
    decreases lines.len(),
{
    let front = lines.drop_last();
    let kept = install_lines(front);
    let all = install_lines(lines);
    if i < lines.len() - 1 {
        law_errors_kept(front, i);
        let k = choose|k: int| 0 <= k < kept.len() && kept[k] == lines[i];
        assert(all[k] == lines[i]);
    } else {
        let line = lines[i];
        reveal_strlit("ERR");
        reveal_strlit("error");
        reveal_strlit("ERROR");
        assert(!chars::is_blank(line)) by {
            if search::occurs(line, "ERR"@) {
                let k = choose|k: int| search::occurs_at(line, "ERR"@, k);
                assert(line.subrange(k, k + 3)[0] == 'E');
                chars::lemma_not_blank(line, k);
            } else if search::occurs(line, "error"@) {
                let k = choose|k: int| search::occurs_at(line, "error"@, k);
                assert(line.subrange(k, k + 5)[0] == 'e');
                chars::lemma_not_blank(line, k);
            } else {
                let k = choose|k: int| search::occurs_at(line, "ERROR"@, k);
                assert(line.subrange(k, k + 5)[0] == 'E');
                chars::lemma_not_blank(line, k);
            }
        }
        assert(all == kept.push(line));
        assert(all[kept.len() as int] == line);
    }
}

/// The packages of several projects are those of each, one project after another: none is left out.
pub proof fn law_projects_concat(p: Seq<PnpmListOutput>, q: Seq<PnpmListOutput>)
    ensures
        collected_projects(p + q) == collected_projects(p) + collected_projects(q),
    decreases q.len(),
{
    if q.len() == 0 {
        assert(p + q == p);
        assert(collected_projects(p) + Seq::<DependencyView>::empty() == collected_projects(p));
    } else {
        assert((p + q).drop_last() == p + q.drop_last());
        law_projects_concat(p, q.drop_last());
        let one = collected(q.last().name@, q.last().package, false);
        assert(collected_projects(p) + collected_projects(q.drop_last()) + one
            == collected_projects(p) + (collected_projects(q.drop_last()) + one));
    }
}

/// The packages of one project are those of its tree, of which the project is the top.
pub proof fn law_one_project(project: PnpmListOutput)
    ensures
        collected_projects(seq![project]) == collected(project.name@, project.package, false),
{
    let one = seq![project];
    assert(one.drop_last() == Seq::<PnpmListOutput>::empty());
    assert(one.last() == project);
    assert(collected_projects(one.drop_last()) == Seq::<DependencyView>::empty());
    let c = collected(project.name@, project.package, false);
    assert(Seq::<DependencyView>::empty() + c == c);
}

/// Whether `part` stands somewhere in `whole`, in one piece.
pub open spec fn is_part(part: Seq<DependencyView>, whole: Seq<DependencyView>) -> bool {
    exists|k: int|
        0 <= k && k + part.len() <= whole.len() && #[trigger] whole.subrange(k, k + part.len())
            == part
}

proof fn lemma_part_between(
    a: Seq<DependencyView>,
    part: Seq<DependencyView>,
    b: Seq<DependencyView>,
)
    ensures
        is_part(part, a + part + b),
{
    let whole = a + part + b;
    let k: int = a.len() as int;
    assert(whole.subrange(k, k + part.len()) == part);
}

proof fn lemma_child_part(
    pkgs: Vec<(String, PackageJsonListItem)>,
    n: nat,
    dev: bool,
    i: int,
) -> (r: (Seq<DependencyView>, Seq<DependencyView>))
    requires
        0 <= i < n <= pkgs@.len(),
    ensures
        collected_all(pkgs, n, dev) == r.0 + collected(pkgs@[i].0@, pkgs@[i].1, dev) + r.1,
    decreases n,
{
    let prev = collected_all(pkgs, (n - 1) as nat, dev);
    let last = collected(pkgs@[n - 1].0@, pkgs@[n - 1].1, dev);
    if i == n - 1 {
        assert(prev + last + Seq::<DependencyView>::empty() == prev + last);
        (prev, Seq::empty())
    } else {
        let (a, b) = lemma_child_part(pkgs, (n - 1) as nat, dev, i);
        let one = collected(pkgs@[i].0@, pkgs@[i].1, dev);
        assert(a + one + b + last == a + one + (b + last));
        (a, b + last)
    }
}

/// A package with a version is listed before what it depends on, with that version.
pub proof fn law_package_listed(name: Seq<char>, pkg: PackageJsonListItem, dev: bool)
    requires
        pkg.version is Some,
    ensures
        collected(name, pkg, dev).len() > 0,
        collected(name, pkg, dev)[0] == (DependencyView {
            name,
            current: pkg.version->0@,
            latest: None,
            wanted: None,
            dev,
        }),
{
}

/// Everything that a package depends on is listed, with all that is below it.
pub proof fn law_dependencies_listed(
    name: Seq<char>,
    pkg: PackageJsonListItem,
    dev: bool,
    i: int,
)
    requires
        0 <= i < pkg.dependencies@.len(),
    ensures
        is_part(
            collected(pkg.dependencies@[i].0@, pkg.dependencies@[i].1, dev),
            collected(name, pkg, dev),
        ),
{
    let own = match pkg.version {
        Some(version) => seq![listed(name, version@, dev)],
        None => Seq::empty(),
    };
    let (a, b) = lemma_child_part(pkg.dependencies, pkg.dependencies@.len(), dev, i);
    let one = collected(pkg.dependencies@[i].0@, pkg.dependencies@[i].1, dev);
    let rest = collected_all(pkg.dev_dependencies, pkg.dev_dependencies@.len(), true);
    assert(own + (a + one + b) + rest == (own + a) + one + (b + rest));
    lemma_part_between(own + a, one, b + rest);
}

/// Everything that a package depends on for development is listed as such, with all that is below it.
pub proof fn law_dev_dependencies_listed(
    name: Seq<char>,
    pkg: PackageJsonListItem,
    dev: bool,
    i: int,
)
    requires
        0 <= i < pkg.dev_dependencies@.len(),
    ensures
        is_part(
            collected(pkg.dev_dependencies@[i].0@, pkg.dev_dependencies@[i].1, true),
            collected(name, pkg, dev),
        ),
{
    let own = match pkg.version {
        Some(version) => seq![listed(name, version@, dev)],
        None => Seq::empty(),
    };
    let (a, b) = lemma_child_part(pkg.dev_dependencies, pkg.dev_dependencies@.len(), true, i);
    let one = collected(pkg.dev_dependencies@[i].0@, pkg.dev_dependencies@[i].1, true);
    let head = own + collected_all(pkg.dependencies, pkg.dependencies@.len(), dev);
    assert(head + (a + one + b) == (head + a) + one + b);
    lemma_part_between(head + a, one, b);
}

/// How many packages of a tree have a version.
pub open spec fn versions_in(pkg: PackageJsonListItem) -> nat
    decreases pkg,
{
    (if pkg.version is Some {
        1nat
    } else {
        0nat
    }) + versions_below(pkg.dependencies, pkg.dependencies@.len()) + versions_below(
        pkg.dev_dependencies,
        pkg.dev_dependencies@.len(),
    )
}

/// How many packages of the first `n` trees have a version.
pub open spec fn versions_below(pkgs: Vec<(String, PackageJsonListItem)>, n: nat) -> nat
    decreases pkgs, n,
{
    if n == 0 || n > pkgs@.len() {
        0
    } else {
        versions_below(pkgs, (n - 1) as nat) + versions_in(pkgs@[n - 1].1)
    }
}

/// A tree is listed with as many packages as have a version: none is listed twice or made up.
pub proof fn law_packages_counted(name: Seq<char>, pkg: PackageJsonListItem, dev: bool)
    ensures
        collected(name, pkg, dev).len() == versions_in(pkg),
    decreases pkg,
{
    lemma_packages_counted(pkg.dependencies, pkg.dependencies@.len(), dev);
    lemma_packages_counted(pkg.dev_dependencies, pkg.dev_dependencies@.len(), true);
}

proof fn lemma_packages_counted(
    pkgs: Vec<(String, PackageJsonListItem)>,
    n: nat,
    dev: bool,
)
    ensures
        collected_all(pkgs, n, dev).len() == versions_below(pkgs, n),
    decreases pkgs, n,
{
    if 0 < n <= pkgs@.len() {
        lemma_packages_counted(pkgs, (n - 1) as nat, dev);
        law_packages_counted(pkgs@[n - 1].0@, pkgs@[n - 1].1, dev);
    }
}

/// JSON that could be parsed is understood in full: all packages, counted, none known to be outdated.
pub proof fn law_json_is_understood(
    input: Seq<char>,
    projects: Vec<PnpmListOutput>,
    passthrough: Seq<char>,
)
    ensures
        list_parsed(input, Ok(projects), passthrough) is Full,
        list_parsed(input, Ok(projects), passthrough)->Full_0.dependencies == collected_projects(
            projects@,
        ),
        list_parsed(input, Ok(projects), passthrough)->Full_0.total == collected_projects(
            projects@,
        ).len(),
        list_parsed(input, Ok(projects), passthrough)->Full_0.outdated == 0,
{
}

/// An output that is no JSON is never lost: what its text tells is used with a warning, or else the
/// output itself is handed on.
pub proof fn law_fallback(
    input: Seq<char>,
    reason: String,
    passthrough: Seq<char>,
)
    ensures
        match list_parsed(input, Err(reason), passthrough) {
            ParseView::Full(_) => false,
            ParseView::Degraded(state, warnings) => state.dependencies.len() > 0
                && state.dependencies == list_read(split::lines_of(input)).dependencies
                && state.total == state.dependencies.len() && warnings == seq![
                "JSON parse failed: "@ + reason@,
            ],
            ParseView::Passthrough(raw) => raw == passthrough && list_read(
                split::lines_of(input),
            ).dependencies.len() == 0,
        },
        match outdated_parsed(input, Err(reason), passthrough) {
            ParseView::Full(_) => false,
            ParseView::Degraded(state, warnings) => state.dependencies.len() > 0
                && state.dependencies == outdated_read(split::lines_of(input)) && state.total
                == state.dependencies.len() && warnings == seq!["JSON parse failed: "@ + reason@],
            ParseView::Passthrough(raw) => raw == passthrough && outdated_read(
                split::lines_of(input),
            ).len() == 0,
        },
{
}

/// Whether the line at `i` stands in the section of development dependencies: the last heading
/// before it is that of this section.
pub open spec fn in_dev_section(lines: Seq<Seq<char>>, i: int) -> bool {
    exists|h: int|
        0 <= h < i && chars::trimmed(#[trigger] lines[h]) == "devDependencies:"@ && forall|j: int|
            h < j < i ==> chars::trimmed(#[trigger] lines[j]) != "dependencies:"@
}

proof fn lemma_dev_section(lines: Seq<Seq<char>>)
    ensures
        list_read(lines).dev == in_dev_section(lines, lines.len() as int),
    decreases lines.len(),
{
    reveal_strlit("devDependencies:");
    reveal_strlit("dependencies:");
    let n = lines.len() as int;
    if n > 0 {
        let front = lines.drop_last();
        let t = chars::trimmed(lines.last());
        lemma_dev_section(front);
        assert("devDependencies:"@.len() != "dependencies:"@.len());
        if t == "devDependencies:"@ {
            assert(chars::trimmed(lines[n - 1]) == "devDependencies:"@);
        } else if t == "dependencies:"@ {
            if in_dev_section(lines, n) {
                let h = choose|h: int|
                    0 <= h < n && chars::trimmed(#[trigger] lines[h]) == "devDependencies:"@
                        && forall|j: int|
                        h < j < n ==> chars::trimmed(#[trigger] lines[j]) != "dependencies:"@;
                assert(h < n - 1);
                assert(chars::trimmed(lines[n - 1]) != "dependencies:"@);
            }
        } else {
            if in_dev_section(front, n - 1) {
                let h = choose|h: int|
                    0 <= h < n - 1 && chars::trimmed(#[trigger] front[h]) == "devDependencies:"@
                        && forall|j: int|
                        h < j < n - 1 ==> chars::trimmed(#[trigger] front[j]) != "dependencies:"@;
                assert(chars::trimmed(lines[h]) == "devDependencies:"@);
                assert forall|j: int| h < j < n implies chars::trimmed(#[trigger] lines[j])
                    != "dependencies:"@ by {
                    if j < n - 1 {
                        assert(chars::trimmed(front[j]) != "dependencies:"@);
                    }
                }
            }
            if in_dev_section(lines, n) {
                let h = choose|h: int|
                    0 <= h < n && chars::trimmed(#[trigger] lines[h]) == "devDependencies:"@
                        && forall|j: int|
                        h < j < n ==> chars::trimmed(#[trigger] lines[j]) != "dependencies:"@;
                assert(h < n - 1);
                assert(chars::trimmed(front[h]) == "devDependencies:"@);
                assert forall|j: int| h < j < n - 1 implies chars::trimmed(#[trigger] front[j])
                    != "dependencies:"@ by {
                    assert(chars::trimmed(lines[j]) != "dependencies:"@);
                }
            }
        }
    }
}

/// The package that a line of a list names: its first word, cut at the last `@`.
pub open spec fn names_package(line: Seq<char>, name: Seq<char>, version: Seq<char>) -> bool {
    let words = split::words_of(chars::trimmed(line));
    &&& !is_decoration(line)
    &&& chars::trimmed(line) != "devDependencies:"@
    &&& chars::trimmed(line) != "dependencies:"@
    &&& words.len() > 0
    &&& words[0] == name + "@"@ + version
    &&& name.len() > 0
    &&& version.len() > 0
    &&& !version.contains('@')
}

proof fn lemma_package_named(name: Seq<char>, version: Seq<char>, dev: bool)
    requires
        name.len() > 0,
        version.len() > 0,
        !version.contains('@'),
    ensures
        package_in(name + "@"@ + version, dev) == Some(listed(name, version, dev)),
{
    reveal_strlit("@");
    let text = name + "@"@ + version;
    search::lemma_last_char(name + "@"@, version, "@"@);
    let p: int = name.len() as int;
    assert(text.take(p) == name);
    assert(text.skip(p + 1) == version);
}

proof fn lemma_package_in(text: Seq<char>, dev: bool)
    ensures
        package_in(text, dev) matches Some(d) ==> text == d.name + "@"@ + d.current && d.name.len()
            > 0 && d.current.len() > 0 && !d.current.contains('@') && d == listed(
            d.name,
            d.current,
            dev,
        ),
{
    reveal_strlit("@");
    search::lemma_last_parts(text, "@"@);
}

/// A line of a list that names a package adds that package, in the section that it stands in, behind
/// those named before; the lines behind it change nothing of it.
pub proof fn law_list_line_read(
    before: Seq<Seq<char>>,
    line: Seq<char>,
    after: Seq<Seq<char>>,
    name: Seq<char>,
    version: Seq<char>,
)
    requires
        names_package(line, name, version),
    ensures
        ({
            let n = list_read(before).dependencies.len() as int;
            let all = list_read(before.push(line) + after).dependencies;
            &&& n < all.len()
            &&& all.take(n) == list_read(before).dependencies
            &&& all[n] == (DependencyView {
                name,
                current: version,
                latest: None,
                wanted: None,
                dev: in_dev_section(before, before.len() as int),
            })
        }),
    decreases after.len(),
{
    let n = list_read(before).dependencies.len() as int;
    let lines = before.push(line) + after;
    let all = list_read(lines).dependencies;
    if after.len() == 0 {
        assert(lines == before.push(line));
        assert(lines.drop_last() == before);
        lemma_dev_section(before);
        lemma_package_named(name, version, list_read(before).dev);
        assert(all.take(n) == list_read(before).dependencies);
    } else {
        assert(lines.drop_last() == before.push(line) + after.drop_last());
        law_list_line_read(before, line, after.drop_last(), name, version);
        let was = list_read(lines.drop_last()).dependencies;
        assert(all.take(n) == was.take(n));
        assert(all[n] == was[n]);
    }
}

/// A line of a list that names no package adds none.
pub proof fn law_other_list_lines(before: Seq<Seq<char>>, line: Seq<char>)
    requires
        forall|name: Seq<char>, version: Seq<char>| !#[trigger] names_package(line, name, version),
    ensures
        list_read(before.push(line)).dependencies == list_read(before).dependencies,
{
    let lines = before.push(line);
    assert(lines.drop_last() == before);
    let words = split::words_of(chars::trimmed(line));
    if words.len() > 0 {
        let dev = list_read(before).dev;
        lemma_package_in(words[0], dev);
        match package_in(words[0], dev) {
            Some(d) => {
                assert(!names_package(line, d.name, d.current));
            },
            None => {},
        }
    }
}

/// The outdated packages that lines tell of are those of each line, in order.
pub proof fn law_outdated_concat(a: Seq<Seq<char>>, b: Seq<Seq<char>>)
    ensures
        outdated_read(a + b) == outdated_read(a) + outdated_read(b),
    decreases b.len(),
{
    if b.len() == 0 {
        assert(a + b == a);
        assert(outdated_read(a) + outdated_read(b) == outdated_read(a));
    } else {
        assert((a + b).drop_last() == a + b.drop_last());
        law_outdated_concat(a, b.drop_last());
        match outdated_in(b.last()) {
            Some(d) => {
                assert(outdated_read(a) + outdated_read(b.drop_last()).push(d) == (outdated_read(a)
                    + outdated_read(b.drop_last())).push(d));
            },
            None => {},
        }
    }
}

/// A line tells of a package where it has four words and is no frame: its name, the version in use,
/// the one that is wanted and the newest.
pub proof fn law_outdated_line(line: Seq<char>)
    ensures
        ({
            let words = split::words_of(line);
            outdated_read(seq![line]) == if words.len() >= 4 && !is_frame(line) {
                seq![
                    DependencyView {
                        name: words[0],
                        current: words[1],
                        latest: Some(words[3]),
                        wanted: Some(words[2]),
                        dev: false,
                    },
                ]
            } else {
                Seq::empty()
            }
        }),
{
    let one = seq![line];
    assert(one.drop_last() == Seq::<Seq<char>>::empty());
    assert(one.last() == line);
    assert(outdated_read(one.drop_last()) == Seq::<DependencyView>::empty());
}

/// Every package of the JSON is kept, in order, with its versions; it is for development where its
/// type says so.
pub proof fn law_outdated_json(
    packages: Seq<(String, PnpmOutdatedPackage)>,
    i: int,
)
    requires
        0 <= i < packages.len(),
    ensures
        outdated_packages(packages).len() == packages.len(),
        outdated_packages(packages)[i].name == packages[i].0@,
        outdated_packages(packages)[i].current == packages[i].1.current@,
        outdated_packages(packages)[i].latest == Some(packages[i].1.latest@),
        outdated_packages(packages)[i].wanted == compose::optional(packages[i].1.wanted),
        outdated_packages(packages)[i].dev <==> packages[i].1.dependency_type@
            == "devDependencies"@,
{
}

/// A package is outdated where its newest version is not the one in use.
pub proof fn law_outdated_counted(deps: Seq<DependencyView>)
    ensures
        outdated_count(deps) == deps.filter(
            |d: DependencyView| d.latest != Some(d.current),
        ).len(),
        outdated_state(deps).total == deps.len(),
        outdated_state(deps).outdated == outdated_count(deps),
        outdated_state(deps).dependencies == deps,
    decreases deps.len(),
{
    let p = |d: DependencyView| d.latest != Some(d.current);
    if deps.len() == 0 {
        assert(deps == Seq::<DependencyView>::empty());
        select::lemma_filter_empty(p);
    } else {
        law_outdated_counted(deps.drop_last());
        select::lemma_front_and_last(deps);
        select::lemma_filter_push(deps.drop_last(), deps.last(), p);
    }
}

/// A section holds the packages of its kind, in order.
pub proof fn law_section(deps: Seq<DependencyView>, dev: bool)
    ensures
        section_of(deps, dev) == deps.filter(|d: DependencyView| d.dev == dev),
    decreases deps.len(),
{
    let p = |d: DependencyView| d.dev == dev;
    if deps.len() == 0 {
        assert(deps == Seq::<DependencyView>::empty());
        select::lemma_filter_empty(p);
    } else {
        law_section(deps.drop_last(), dev);
        select::lemma_front_and_last(deps);
        select::lemma_filter_push(deps.drop_last(), deps.last(), p);
    }
}

/// A section that is cut shows its first packages, then how many more there are, then the hint where
/// there is one, and nothing else.
pub proof fn law_cut_section(
    title: Seq<char>,
    deps: Seq<DependencyView>,
    hint: Option<Seq<char>>,
    i: int,
)
    requires
        deps.len() > 20,
        0 <= i < 20,
    ensures
        ({
            let lines = section_lines(title, deps, true, hint);
            &&& lines[0] == title
            &&& lines[i + 1] == "  "@ + deps[i].name + " "@ + deps[i].current
            &&& lines[21] == "  … +"@ + number::dec((deps.len() - 20) as nat) + " more"@
            &&& hint is Some ==> lines.len() == 23 && lines[22] == "  "@ + hint->0
            &&& hint is None ==> lines.len() == 22
        }),
{
}

/// A section that is not cut shows each of its packages, and an empty one shows nothing.
pub proof fn law_whole_section(
    title: Seq<char>,
    deps: Seq<DependencyView>,
    cap: bool,
    hint: Option<Seq<char>>,
    i: int,
)
    requires
        0 <= i < deps.len(),
        !cap || deps.len() <= 20,
    ensures
        section_lines(title, deps, cap, hint).len() == deps.len() + 1,
        section_lines(title, deps, cap, hint)[0] == title,
        section_lines(title, deps, cap, hint)[i + 1] == "  "@ + deps[i].name + " "@
            + deps[i].current,
        section_lines(title, Seq::empty(), cap, hint).len() == 0,
{
}

/// A listing counts its packages and those of its sections, and then shows both sections.
pub proof fn law_listing(
    s: StateView,
    cap: bool,
    prod_hint: Option<Seq<char>>,
    dev_hint: Option<Seq<char>>,
)
    requires
        s.total == s.dependencies.len(),
    ensures
        ({
            let prod = s.dependencies.filter(|d: DependencyView| d.dev == false);
            let dev = s.dependencies.filter(|d: DependencyView| d.dev == true);
            let lines = listing_lines(s, cap, prod_hint, dev_hint);
            &&& prod.len() + dev.len() == s.dependencies.len()
            &&& lines[0] == number::dec(s.dependencies.len()) + " packages ("@ + number::dec(
                prod.len(),
            ) + " prod / "@ + number::dec(dev.len()) + " dev)"@
            &&& lines.skip(1) == section_lines("[prod]"@, prod, cap, prod_hint) + section_lines(
                "[dev]"@,
                dev,
                cap,
                dev_hint,
            )
        }),
{
    law_section(s.dependencies, false);
    law_section(s.dependencies, true);
    law_sections_partition(s.dependencies);
    let prod = section_of(s.dependencies, false);
    let dev = section_of(s.dependencies, true);
    let lines = listing_lines(s, cap, prod_hint, dev_hint);
    assert(lines.skip(1) == section_lines("[prod]"@, prod, cap, prod_hint) + section_lines(
        "[dev]"@,
        dev,
        cap,
        dev_hint,
    ));
}

/// A line of an installation that is kept: an error or a part of the summary, and no progress.
pub open spec fn is_kept(line: Seq<char>) -> bool {
    !is_progress(line) && (is_error(line) || is_summary(line))
}

/// How a line that is kept is shown: an error as it is, a part of the summary trimmed.
pub open spec fn shown_install(line: Seq<char>) -> Seq<char> {
    if is_error(line) {
        line
    } else {
        chars::trimmed(line)
    }
}

proof fn lemma_kept_is_not_blank(line: Seq<char>)
    requires
        is_error(line) || is_summary(line),
    ensures
        !chars::is_blank(line),
{
    reveal_strlit("ERR");
    reveal_strlit("error");
    reveal_strlit("ERROR");
    reveal_strlit("packages in");
    reveal_strlit("dependencies");
    if search::occurs(line, "ERR"@) {
        let k = choose|k: int| search::occurs_at(line, "ERR"@, k);
        assert(line.subrange(k, k + 3)[0] == 'E');
        chars::lemma_not_blank(line, k);
    } else if search::occurs(line, "error"@) {
        let k = choose|k: int| search::occurs_at(line, "error"@, k);
        assert(line.subrange(k, k + 5)[0] == 'e');
        chars::lemma_not_blank(line, k);
    } else if search::occurs(line, "ERROR"@) {
        let k = choose|k: int| search::occurs_at(line, "ERROR"@, k);
        assert(line.subrange(k, k + 5)[0] == 'E');
        chars::lemma_not_blank(line, k);
    } else if search::occurs(line, "packages in"@) {
        let k = choose|k: int| search::occurs_at(line, "packages in"@, k);
        assert(line.subrange(k, k + 11)[0] == 'p');
        chars::lemma_not_blank(line, k);
    } else if search::occurs(line, "dependencies"@) {
        let k = choose|k: int| search::occurs_at(line, "dependencies"@, k);
        assert(line.subrange(k, k + 12)[0] == 'd');
        chars::lemma_not_blank(line, k);
    } else {
        chars::lemma_not_blank(line, 0);
    }
}

/// The errors and the summary of an installation are kept in order, wherever they stand, and nothing
/// else is.
pub proof fn law_install_lines(lines: Seq<Seq<char>>)
    ensures
        install_lines(lines) == lines.filter(|l: Seq<char>| is_kept(l)).map_values(
            |l: Seq<char>| shown_install(l),
        ),
    decreases lines.len(),
{
    let p = |l: Seq<char>| is_kept(l);
    let f = |l: Seq<char>| shown_install(l);
    if lines.len() == 0 {
        assert(lines == Seq::<Seq<char>>::empty());
        select::lemma_filter_empty(p);
        assert(Seq::<Seq<char>>::empty().map_values(f) == Seq::<Seq<char>>::empty());
    } else {
        let front = lines.drop_last();
        let line = lines.last();
        law_install_lines(front);
        select::lemma_front_and_last(lines);
        select::lemma_filter_push(front, line, p);
        if is_error(line) || is_summary(line) {
            lemma_kept_is_not_blank(line);
        }
        assert(front.filter(p).push(line).map_values(f) == front.filter(p).map_values(f).push(
            f(line),
        ));
    }
}

/// What the lines of an installation are told by.
pub proof fn law_install_marks(a: Seq<char>, b: Seq<char>)
    ensures
        is_progress(a + "Progress"@ + b),
        is_progress(a + seq!['│'] + b),
        is_progress(a + seq!['%'] + b),
        is_error(a + "ERR"@ + b),
        is_error(a + "error"@ + b),
        is_summary(a + "packages in"@ + b),
        is_summary(a + "dependencies"@ + b),
        is_summary(seq!['+'] + b),
        is_summary(seq!['-'] + b),
{
    search::lemma_occurs_between(a, "Progress"@, b);
    search::lemma_occurs_between(a, "ERR"@, b);
    search::lemma_occurs_between(a, "error"@, b);
    search::lemma_occurs_between(a, "packages in"@, b);
    search::lemma_occurs_between(a, "dependencies"@, b);
    assert((a + seq!['│'] + b)[a.len() as int] == '│');
    assert((a + seq!['%'] + b)[a.len() as int] == '%');
}

/// What draws the tree of a list, or the frame of a table, tells of no package.
pub proof fn law_decorations(a: Seq<char>, b: Seq<char>)
    ensures
        is_decoration(a + seq!['│'] + b),
        is_decoration(a + seq!['├'] + b),
        is_decoration(a + seq!['└'] + b),
        is_decoration(a + "Legend:"@ + b),
        is_frame(a + seq!['│'] + b),
        is_frame(a + seq!['├'] + b),
        is_frame(a + seq!['└'] + b),
        is_frame(a + seq!['─'] + b),
        is_frame("Legend:"@ + b),
        is_frame("Package"@ + b),
        is_decoration(Seq::empty()),
        is_frame(Seq::empty()),
{
    let k: int = a.len() as int;
    assert((a + seq!['│'] + b)[k] == '│');
    assert((a + seq!['├'] + b)[k] == '├');
    assert((a + seq!['└'] + b)[k] == '└');
    assert((a + seq!['─'] + b)[k] == '─');
    search::lemma_occurs_between(a, "Legend:"@, b);
    chars::lemma_prefix("Legend:"@, b);
    chars::lemma_prefix("Package"@, b);
    assert(chars::trimmed(Seq::<char>::empty()) == Seq::<char>::empty());
}

/// Nothing else is taken for a drawing.
pub proof fn law_only_decorations(line: Seq<char>)
    requires
        !line.contains('│'),
        !line.contains('├'),
        !line.contains('└'),
        !line.contains('─'),
        !search::occurs(line, "Legend:"@),
        !chars::has_prefix(line, "Package"@),
        !chars::is_blank(line),
    ensures
        !is_decoration(line),
        !is_frame(line),
{
    if chars::has_prefix(line, "Legend:"@) {
        let n = "Legend:"@.len() as int;
        assert(line.subrange(0, n) == line.take(n));
        assert(search::occurs_at(line, "Legend:"@, 0));
    }
}

/// A listing that is told of more packages than it has counts those.
pub proof fn law_listing_total(
    s: StateView,
    cap: bool,
    prod_hint: Option<Seq<char>>,
    dev_hint: Option<Seq<char>>,
)
    ensures
        ({
            let total = if s.total > s.dependencies.len() {
                s.total
            } else {
                s.dependencies.len()
            };
            chars::has_prefix(
                listing_lines(s, cap, prod_hint, dev_hint)[0],
                number::dec(total) + " packages ("@,
            )
        }),
{
    let total = if s.total > s.dependencies.len() {
        s.total
    } else {
        s.dependencies.len()
    };
    let p = number::dec(total) + " packages ("@;
    let line = listing_lines(s, cap, prod_hint, dev_hint)[0];
    assert(line.take(p.len() as int) == p);
}

/// An installation of which nothing is kept is reported as well.
pub proof fn law_install_summary(output: Seq<char>)
    ensures
        ({
            let kept = split::lines_of(output).filter(|l: Seq<char>| is_kept(l));
            &&& kept.len() == 0 ==> install_summary(output) == "ok"@
            &&& kept.len() > 0 ==> install_summary(output) == compose::joined(
                kept.map_values(|l: Seq<char>| shown_install(l)),
                "\n"@,
            )
        }),
{
    law_install_lines(split::lines_of(output));
}

/// What is kept aside of a section that is cut is the whole of it.
pub proof fn law_cut_section_kept(deps: Seq<DependencyView>, cap: bool)
    ensures
        cut_section(deps, cap) is Some <==> cap && deps.len() > 20,
        cap && deps.len() > 20 ==> cut_section(deps, cap) == Some(
            compose::joined(
                deps.map_values(|d: DependencyView| "  "@ + d.name + " "@ + d.current),
                "\n"@,
            ),
        ),
{
    assert(package_lines(deps) == deps.map_values(
        |d: DependencyView| "  "@ + d.name + " "@ + d.current,
    ));
}

/// A line with none of the marks is neither progress nor an error, and sums nothing up.
pub proof fn law_no_install_marks(line: Seq<char>)
    ensures
        !search::occurs(line, "Progress"@) && !line.contains('│') && !line.contains('%')
            ==> !is_progress(line),
        !search::occurs(line, "ERR"@) && !search::occurs(line, "error"@) ==> !is_error(line),
        !search::occurs(line, "packages in"@) && !search::occurs(line, "dependencies"@)
            && !(line.len() > 0 && (line[0] == '+' || line[0] == '-')) ==> !is_summary(line),
{
    reveal_strlit("ERR");
    reveal_strlit("ERROR");
    if search::occurs(line, "ERROR"@) {
        let i = choose|i: int| search::occurs_at(line, "ERROR"@, i);
        assert("ERROR"@.take(3) == "ERR"@);
        assert(line.subrange(i, i + 3) == line.subrange(i, i + 5).take(3));
        assert(search::occurs_at(line, "ERR"@, i));
    }
}

} // verus!
