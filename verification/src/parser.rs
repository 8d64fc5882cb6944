//! What parsers of tool output return.
use vstd::prelude::*;

verus! {

/// A dependency of a project.
#[derive(Debug)]
pub struct Dependency {
    /// Its name.
    pub name: String,
    /// The version in use.
    pub current_version: String,
    /// The newest version.
    pub latest_version: Option<String>,
    /// The newest version that the project allows.
    pub wanted_version: Option<String>,
    /// Whether it is needed for development only.
    pub dev_dependency: bool,
}

/// The dependencies of a project.
#[derive(Debug)]
pub struct DependencyState {
    /// How many packages there are.
    pub total_packages: usize,
    /// How many of them are outdated.
    pub outdated_count: usize,
    /// The packages.
    pub dependencies: Vec<Dependency>,
}

/// The model of a dependency.
pub struct DependencyView {
    /// Its name.
    pub name: Seq<char>,
    /// The version in use.
    pub current: Seq<char>,
    /// The newest version.
    pub latest: Option<Seq<char>>,
    /// The newest version that the project allows.
    pub wanted: Option<Seq<char>>,
    /// Whether it is needed for development only.
    pub dev: bool,
}

impl View for Dependency {
    type V = DependencyView;

    open spec fn view(&self) -> DependencyView {
        DependencyView {
            name: self.name@,
            current: self.current_version@,
            latest: crate::text::compose::optional(self.latest_version),
            wanted: crate::text::compose::optional(self.wanted_version),
            dev: self.dev_dependency,
        }
    }
}

/// The model of a sequence of dependencies.
pub open spec fn dependencies_of(v: Seq<Dependency>) -> Seq<DependencyView> {
    v.map_values(|d: Dependency| d@)
}

/// The model of the dependencies of a project.
#[verifier::ext_equal]
pub struct StateView {
    /// How many packages there are.
    pub total: nat,
    /// How many of them are outdated.
    pub outdated: nat,
    /// The packages.
    pub dependencies: Seq<DependencyView>,
}

impl View for DependencyState {
    type V = StateView;

    open spec fn view(&self) -> StateView {
        StateView {
            total: self.total_packages as nat,
            outdated: self.outdated_count as nat,
            dependencies: dependencies_of(self.dependencies@),
        }
    }
}

/// What a parser makes of an output.
#[derive(Debug)]
pub enum ParseResult<T> {
    /// All of it was understood.
    Full(T),
    /// Part of it was understood; the warnings say what was not.
    Degraded(T, Vec<String>),
    /// Nothing was understood: the output itself, cut.
    Passthrough(String),
}

/// The model of what a parser makes of an output.
#[verifier::ext_equal]
pub enum ParseView<V> {
    /// All of it was understood.
    Full(V),
    /// Part of it was understood; the warnings say what was not.
    Degraded(V, Seq<Seq<char>>),
    /// Nothing was understood: the output itself, cut.
    Passthrough(Seq<char>),
}

impl<T: View> View for ParseResult<T> {
    type V = ParseView<T::V>;

    open spec fn view(&self) -> ParseView<T::V> {
        match self {
            ParseResult::Full(data) => ParseView::Full(data@),
            ParseResult::Degraded(data, warnings) => ParseView::Degraded(
                data@,
                warnings.deep_view(),
            ),
            ParseResult::Passthrough(raw) => ParseView::Passthrough(raw@),
        }
    }
}

impl<T: View> ParseResult<T> {
    /// How much was understood, from 1 for all to 3 for nothing.
    pub fn tier(&self) -> (r: u8)
        ensures
            r == match self@ {
                ParseView::Full(_) => 1u8,
                ParseView::Degraded(_, _) => 2u8,
                ParseView::Passthrough(_) => 3u8,
            },
    {
        match self {
            ParseResult::Full(_) => 1,
            ParseResult::Degraded(_, _) => 2,
            ParseResult::Passthrough(_) => 3,
        }
    }

    /// Whether something was understood.
    pub fn is_ok(&self) -> (r: bool)
        ensures
            r == !(self@ is Passthrough),
    {
        match self {
            ParseResult::Passthrough(_) => false,
            _ => true,
        }
    }

    /// What was understood.
    pub fn unwrap(self) -> (r: T)
        requires
            !(self@ is Passthrough),
        ensures
            match self@ {
                ParseView::Full(data) => r@ == data,
                ParseView::Degraded(data, _) => r@ == data,
                ParseView::Passthrough(_) => true,
            },
    {
        match self {
            ParseResult::Full(data) => data,
            ParseResult::Degraded(data, _) => data,
            ParseResult::Passthrough(_) => vstd::pervasive::unreached(),
        }
    }
}

} // verus!
