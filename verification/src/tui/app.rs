//! The state of the display: the options by which the dependency list is
//! sorted and filtered, how keys change the state, and which dependencies
//! the list shows in which order.

use crate::analyzer::{AnalysisError, AnalysisResult};
use crate::manifest::cargo::{DependencyType, texts};
use crate::text::{
    contains, contains_text, lemma_lex_order, lex_less, list_contains, lowercase, same_text,
    text_lt, to_lowercase,
};
use crate::tui::event::{Event, Key};
use vstd::prelude::*;

verus! {

/// By what the dependency list is sorted.
#[derive(Debug, Clone, Copy, PartialEq, Eq, Structural)]
pub enum SortOption {
    /// By name.
    Name,
    /// By the number of files that use the dependency.
    UsageCount,
    /// By importance score.
    Importance,
    /// By dependency class.
    Type,
    /// By removability.
    Removable,
}

impl SortOption {
    /// The option after this one in the cycle name, usage count,
    /// importance, type, removable.
    pub open spec fn successor(self) -> SortOption {
        match self {
            SortOption::Name => SortOption::UsageCount,
            SortOption::UsageCount => SortOption::Importance,
            SortOption::Importance => SortOption::Type,
            SortOption::Type => SortOption::Removable,
            SortOption::Removable => SortOption::Name,
        }
    }

    /// The label of the option.
    pub open spec fn label(self) -> Seq<char> {
        match self {
            SortOption::Name => "Name"@,
            SortOption::UsageCount => "Usage Count"@,
            SortOption::Importance => "Importance"@,
            SortOption::Type => "Type"@,
            SortOption::Removable => "Removable"@,
        }
    }

    /// The label of the option.
    pub fn as_str(&self) -> (s: &'static str)
        ensures
            s@ == self.label(),
    {
        match self {
            SortOption::Name => "Name",
            SortOption::UsageCount => "Usage Count",
            SortOption::Importance => "Importance",
            SortOption::Type => "Type",
            SortOption::Removable => "Removable",
        }
    }

    /// The next option of the cycle.
    pub fn next(&self) -> (n: Self)
        ensures
            n == self.successor(),
    {
        match self {
            SortOption::Name => SortOption::UsageCount,
            SortOption::UsageCount => SortOption::Importance,
            SortOption::Importance => SortOption::Type,
            SortOption::Type => SortOption::Removable,
            SortOption::Removable => SortOption::Name,
        }
    }
}

/// Going to the next sort option five times comes back to where it started.
pub proof fn lemma_sort_options_cycle(option: SortOption)
    ensures
        option.successor().successor().successor().successor().successor() == option,
        option.successor() != option,
{
}

/// Which dependencies the list shows.
#[derive(Debug, Clone, Copy, PartialEq, Eq, Structural)]
pub enum FilterOption {
    /// All dependencies.
    All,
    /// Runtime dependencies.
    Normal,
    /// Development dependencies.
    Dev,
    /// Build dependencies.
    Build,
    /// Dependencies that no source file uses.
    Unused,
    /// Dependencies that are candidates for removal.
    Removable,
}

impl FilterOption {
    /// The option after this one in the cycle all, normal, dev, build,
    /// unused, removable.
    pub open spec fn successor(self) -> FilterOption {
        match self {
            FilterOption::All => FilterOption::Normal,
            FilterOption::Normal => FilterOption::Dev,
            FilterOption::Dev => FilterOption::Build,
            FilterOption::Build => FilterOption::Unused,
            FilterOption::Unused => FilterOption::Removable,
            FilterOption::Removable => FilterOption::All,
        }
    }

    /// The label of the option.
    pub open spec fn label(self) -> Seq<char> {
        match self {
            FilterOption::All => "All"@,
            FilterOption::Normal => "Normal"@,
            FilterOption::Dev => "Dev"@,
            FilterOption::Build => "Build"@,
            FilterOption::Unused => "Unused"@,
            FilterOption::Removable => "Removable"@,
        }
    }

    /// The label of the option.
    pub fn as_str(&self) -> (s: &'static str)
        ensures
            s@ == self.label(),
    {
        match self {
            FilterOption::All => "All",
            FilterOption::Normal => "Normal",
            FilterOption::Dev => "Dev",
            FilterOption::Build => "Build",
            FilterOption::Unused => "Unused",
            FilterOption::Removable => "Removable",
        }
    }

    /// The next option of the cycle.
    pub fn next(&self) -> (n: Self)
        ensures
            n == self.successor(),
    {
        match self {
            FilterOption::All => FilterOption::Normal,
            FilterOption::Normal => FilterOption::Dev,
            FilterOption::Dev => FilterOption::Build,
            FilterOption::Build => FilterOption::Unused,
            FilterOption::Unused => FilterOption::Removable,
            FilterOption::Removable => FilterOption::All,
        }
    }
}

/// Going to the next filter option six times comes back to where it started.
pub proof fn lemma_filter_options_cycle(option: FilterOption)
    ensures
        option.successor().successor().successor().successor().successor().successor() == option,
        option.successor() != option,
{
}

/// The number of tabs, and of views of the details tab.
pub const TAB_COUNT: usize = 3;

/// The state of the display.
pub struct App {
    /// The directory of the project.
    pub project_path: String,
    /// The outcome of the analysis, once there is one.
    pub analysis: Option<AnalysisResult>,
    /// Whether the display is to be closed.
    pub should_quit: bool,
    /// The tab that is shown: overview, details or removable.
    pub current_tab: usize,
    /// The position of the selected dependency in the list.
    pub selected_dependency: usize,
    /// By what the list is sorted.
    pub sort_option: SortOption,
    /// Whether the order of the list is reversed.
    pub sort_reverse: bool,
    /// Which dependencies the list shows.
    pub filter_option: FilterOption,
    /// The dependency that was asked for when the display was started.
    pub filter_dep: Option<String>,
    /// The text that the names of the shown dependencies must contain.
    pub search_query: String,
    /// Whether key presses go to the search text.
    pub is_searching: bool,
    /// Whether the help is shown.
    pub show_help: bool,
    /// The view of the details tab that is shown.
    pub detail_view: usize,
    /// Whether the dependency graph is shown.
    pub enable_dependency_graph: bool,
    /// The number of ticks so far; it wraps around.
    pub tick_count: usize,
}

/// What a key press can change of the state of the display.
pub ghost struct AppState {
    pub should_quit: bool,
    pub current_tab: int,
    pub selected_dependency: int,
    pub sort_option: SortOption,
    pub sort_reverse: bool,
    pub filter_option: FilterOption,
    pub search_query: Seq<char>,
    pub is_searching: bool,
    pub show_help: bool,
    pub detail_view: int,
}

/// `n`, or one where `n` is zero.
pub open spec fn at_least_one(n: int) -> int {
    if n < 1 {
        1
    } else {
        n
    }
}

/// The state after a key press while the search text is edited: escape
/// leaves the search and clears the text, enter leaves it and keeps the
/// text, backspace removes the last character, a character is appended.
pub open spec fn after_search_key(s: AppState, key: Key) -> AppState {
    match key {
        Key::Esc => AppState { is_searching: false, search_query: Seq::empty(), ..s },
        Key::Enter => AppState { is_searching: false, ..s },
        Key::Backspace => AppState {
            search_query: if s.search_query.len() > 0 {
                s.search_query.drop_last()
            } else {
                s.search_query
            },
            ..s
        },
        Key::Char(c) => AppState { search_query: s.search_query.push(c), ..s },
        _ => s,
    }
}

/// The state after a key press while the list is browsed. `loaded` says
/// whether there is an analysis, `visible` how many dependencies the list
/// shows.
pub open spec fn after_browse_key(s: AppState, key: Key, loaded: bool, visible: int) -> AppState {
    let len = at_least_one(visible);
    match key {
        Key::Char('q') | Key::Esc => AppState { should_quit: true, ..s },
        Key::Char('?') => AppState { show_help: !s.show_help, ..s },
        Key::Tab => AppState {
            current_tab: (s.current_tab + 1) % 3,
            selected_dependency: 0,
            ..s
        },
        Key::BackTab => AppState {
            current_tab: (s.current_tab + 2) % 3,
            selected_dependency: 0,
            ..s
        },
        Key::Down | Key::Char('j') => if loaded {
            AppState { selected_dependency: (s.selected_dependency + 1) % len, ..s }
        } else {
            s
        },
        Key::Up | Key::Char('k') => if loaded {
            AppState { selected_dependency: (s.selected_dependency + len - 1) % len, ..s }
        } else {
            s
        },
        Key::Char('s') => AppState { sort_option: s.sort_option.successor(), ..s },
        Key::Char('r') => AppState { sort_reverse: !s.sort_reverse, ..s },
        Key::Char('f') => AppState {
            filter_option: s.filter_option.successor(),
            selected_dependency: 0,
            ..s
        },
        Key::Char('/') => AppState { is_searching: true, search_query: Seq::empty(), ..s },
        Key::Right | Key::Char('l') => if s.current_tab == 1 {
            AppState { detail_view: (s.detail_view + 1) % 3, ..s }
        } else {
            s
        },
        Key::Left | Key::Char('h') => if s.current_tab == 1 {
            AppState { detail_view: (s.detail_view + 2) % 3, ..s }
        } else {
            s
        },
        _ => s,
    }
}

/// The state after a key press.
pub open spec fn after_key(s: AppState, key: Key, loaded: bool, visible: int) -> AppState {
    if s.is_searching {
        after_search_key(s, key)
    } else {
        after_browse_key(s, key, loaded, visible)
    }
}

/// What the list is sorted by, for one dependency: a text and a number, of
/// which the sort option uses one.
pub ghost struct SortKey {
    pub text: Seq<char>,
    pub number: int,
}

/// The order of sort keys: by text in the order of strings, then by number.
pub open spec fn key_less(a: SortKey, b: SortKey) -> bool {
    lex_less(a.text, b.text) || (a.text == b.text && a.number < b.number)
}

/// The order of sort keys is strict, transitive and total.
pub proof fn lemma_key_order(a: SortKey, b: SortKey, c: SortKey)
    ensures
        !key_less(a, a),
        key_less(a, b) && key_less(b, c) ==> key_less(a, c),
        !key_less(a, b) && !key_less(b, a) ==> a == b,
        !(key_less(a, b) && key_less(b, a)),
{
    lemma_lex_order(a.text, b.text, c.text);
    lemma_lex_order(b.text, c.text, a.text);
    lemma_lex_order(a.text, c.text, b.text);
}

impl App {
    /// The metrics that the list reads are well-formed maps.
    pub open spec fn wf(&self) -> bool {
        self.analysis matches Some(a) ==> a.metrics.is_used.wf() && a.metrics.usage_count.wf()
            && a.metrics.importance_scores.wf()
    }

    /// What a key press can change of the state.
    pub open spec fn state(&self) -> AppState {
        AppState {
            should_quit: self.should_quit,
            current_tab: self.current_tab as int,
            selected_dependency: self.selected_dependency as int,
            sort_option: self.sort_option,
            sort_reverse: self.sort_reverse,
            filter_option: self.filter_option,
            search_query: self.search_query@,
            is_searching: self.is_searching,
            show_help: self.show_help,
            detail_view: self.detail_view as int,
        }
    }

    /// The directory of the project.
    pub open spec fn root(&self) -> Seq<char> {
        self.project_path@
    }

    /// The number of dependencies of the analysis; zero before there is one.
    pub open spec fn dependency_count(&self) -> nat {
        match self.analysis {
            Some(a) => a.dependencies@.len(),
            None => 0,
        }
    }

    /// Whether the list shows the dependency at position `i` of the
    /// analysis: it passes the filter option, and its name, in lowercase,
    /// contains the search text, in lowercase, where there is one.
    pub open spec fn shown(&self, i: int) -> bool {
        let a = self.analysis->0;
        let dep = a.dependencies@[i]@;
        let passes = match self.filter_option {
            FilterOption::All => true,
            FilterOption::Normal => dep.class == DependencyType::Normal,
            FilterOption::Dev => dep.class == DependencyType::Development,
            FilterOption::Build => dep.class == DependencyType::Build,
            FilterOption::Unused => a.metrics.is_used.value_of(dep.name) == Some(false),
            FilterOption::Removable => texts(a.metrics.removable_dependencies@).contains(dep.name),
        };
        let found = self.search_query@.len() == 0 || contains_text(
            lowercase(dep.name),
            lowercase(self.search_query@),
        );
        passes && found
    }

    /// How many of the first `n` dependencies the list shows.
    pub open spec fn shown_count(&self, n: nat) -> nat
        decreases n,
    {
        if n == 0 {
            0
        } else {
            self.shown_count((n - 1) as nat) + if self.shown(n - 1) {
                1nat
            } else {
                0nat
            }
        }
    }

    /// How many dependencies the list shows.
    pub open spec fn visible(&self) -> nat {
        if self.analysis is Some {
            self.shown_count(self.dependency_count())
        } else {
            0
        }
    }

    /// The sort key of the dependency at position `i` of the analysis: its
    /// name, its file count, its score, the rank of its class (runtime,
    /// development, build), or whether it is removable.
    pub open spec fn sort_key(&self, i: int) -> SortKey {
        let a = self.analysis->0;
        let dep = a.dependencies@[i]@;
        match self.sort_option {
            SortOption::Name => SortKey { text: dep.name, number: 0 },
            SortOption::UsageCount => SortKey {
                text: Seq::empty(),
                number: match a.metrics.usage_count.value_of(dep.name) {
                    Some(n) => n as int,
                    None => 0,
                },
            },
            SortOption::Importance => SortKey {
                text: Seq::empty(),
                number: match a.metrics.importance_scores.value_of(dep.name) {
                    Some(n) => n as int,
                    None => 0,
                },
            },
            SortOption::Type => SortKey {
                text: Seq::empty(),
                number: match dep.class {
                    DependencyType::Normal => 0,
                    DependencyType::Development => 1,
                    DependencyType::Build => 2,
                },
            },
            SortOption::Removable => SortKey {
                text: Seq::empty(),
                number: if texts(a.metrics.removable_dependencies@).contains(dep.name) {
                    1
                } else {
                    0
                },
            },
        }
    }

    /// The dependency at position `a` stands before the one at position
    /// `b` in the list: its sort key is the smaller one, or the greater one
    /// where the order is reversed, or the keys are equal and `a` is the
    /// earlier position.
    pub open spec fn comes_before(&self, a: int, b: int) -> bool {
        let x = if self.sort_reverse {
            self.sort_key(b)
        } else {
            self.sort_key(a)
        };
        let y = if self.sort_reverse {
            self.sort_key(a)
        } else {
            self.sort_key(b)
        };
        key_less(x, y) || (x == y && a < b)
    }

    /// `list` is the list that is shown: the positions of the shown
    /// dependencies, each once, in the order of `comes_before`.
    pub open spec fn is_listing(&self, list: Seq<usize>) -> bool {
        &&& forall|k: int|
            0 <= k < list.len() ==> (#[trigger] list[k]) < self.dependency_count() && self.shown(
                list[k] as int,
            )
        &&& forall|i: int|
            0 <= i < self.dependency_count() && self.shown(i) ==> exists|k: int|
                0 <= k < list.len() && #[trigger] list[k] == i
        &&& forall|p: int, q: int|
            0 <= p < q < list.len() ==> self.comes_before(
                #[trigger] list[p] as int,
                #[trigger] list[q] as int,
            )
        &&& list.len() == self.visible()
    }

    /// The order of the list is strict, transitive, and total on different
    /// positions.
    pub proof fn lemma_list_order(&self, a: int, b: int, c: int)
        ensures
            self.comes_before(a, b) && self.comes_before(b, c) ==> self.comes_before(a, c),
            a != b ==> self.comes_before(a, b) || self.comes_before(b, a),
            !(self.comes_before(a, b) && self.comes_before(b, a)),
    {
        lemma_key_order(self.sort_key(a), self.sort_key(b), self.sort_key(c));
        lemma_key_order(self.sort_key(c), self.sort_key(b), self.sort_key(a));
        lemma_key_order(self.sort_key(b), self.sort_key(a), self.sort_key(c));
        lemma_key_order(self.sort_key(b), self.sort_key(c), self.sort_key(a));
    }

    /// There is only one list that is shown: two lists that both are the
    /// listing are equal.
    pub proof fn lemma_listing_is_unique(&self, a: Seq<usize>, b: Seq<usize>)
        requires
            self.is_listing(a),
            self.is_listing(b),
        ensures
            a == b,
    {
        assert forall|k: int| 0 <= k < a.len() implies a[k] == b[k] by {
            self.lemma_listings_agree(a, b, k);
        }
        assert(a =~= b);
    }

    /// Two listings agree up to and at position `k`.
    proof fn lemma_listings_agree(&self, a: Seq<usize>, b: Seq<usize>, k: int)
        requires
            self.is_listing(a),
            self.is_listing(b),
            0 <= k < a.len(),
        ensures
            forall|j: int| 0 <= j <= k ==> a[j] == b[j],
        decreases k,
    {
        if k > 0 {
            self.lemma_listings_agree(a, b, k - 1);
        }
        if a[k] != b[k] {
            let x = a[k];
            let y = b[k];
            assert(self.shown(x as int) && x < self.dependency_count());
            let j = choose|j: int| 0 <= j < b.len() && #[trigger] b[j] == x as int;
            assert(self.shown(y as int) && y < self.dependency_count());
            let i = choose|i: int| 0 <= i < a.len() && #[trigger] a[i] == y as int;
            self.lemma_list_order(x as int, y as int, x as int);
            self.lemma_list_order(x as int, x as int, x as int);
            self.lemma_list_order(y as int, y as int, y as int);
            if j < k {
                assert(a[j] == b[j]);
                assert(self.comes_before(a[j] as int, a[k] as int));
                assert(false);
            }
            if i < k {
                assert(a[i] == b[i]);
                assert(self.comes_before(b[i] as int, b[k] as int));
                assert(false);
            }
            assert(j > k && i > k);
            assert(self.comes_before(b[k] as int, b[j] as int));
            assert(self.comes_before(a[k] as int, a[i] as int));
            assert(false);
        }
    }

    /// The state of the display when it starts: nothing is analyzed, the
    /// first tab is shown, the list is sorted by name and shows all.
    pub fn new(project_path: String, filter_dep: Option<String>) -> (app: Self)
        ensures
            app.wf(),
            app.root() == project_path@,
            app.analysis is None,
            app.filter_dep == filter_dep,
            app.state() == (AppState {
                should_quit: false,
                current_tab: 0,
                selected_dependency: 0,
                sort_option: SortOption::Name,
                sort_reverse: false,
                filter_option: FilterOption::All,
                search_query: Seq::empty(),
                is_searching: false,
                show_help: false,
                detail_view: 0,
            }),
            !app.enable_dependency_graph,
            app.tick_count == 0,
    {
        App {
            project_path,
            analysis: None,
            should_quit: false,
            current_tab: 0,
            selected_dependency: 0,
            sort_option: SortOption::Name,
            sort_reverse: false,
            filter_option: FilterOption::All,
            filter_dep,
            search_query: String::new(),
            is_searching: false,
            show_help: false,
            detail_view: 0,
            enable_dependency_graph: false,
            tick_count: 0,
        }
    }

    /// Whether the list shows the dependency at position `i`.
    fn is_shown(&self, i: usize) -> (r: bool)
        requires
            self.wf(),
            self.analysis is Some,
            i < self.dependency_count(),
        ensures
            r == self.shown(i as int),
    {
        let analysis = match &self.analysis {
            Some(a) => a,
            None => {
                return false;
            },
        };
        let dep = &analysis.dependencies[i];
        let name = dep.name.as_str();
        let filter_match: bool = match self.filter_option {
            FilterOption::All => true,
            FilterOption::Normal => dep.dependency_type == DependencyType::Normal,
            FilterOption::Dev => dep.dependency_type == DependencyType::Development,
            FilterOption::Build => dep.dependency_type == DependencyType::Build,
            FilterOption::Unused => match analysis.metrics.is_used.get(name) {
                Some(used) => !*used,
                None => false,
            },
            FilterOption::Removable => list_contains(&analysis.metrics.removable_dependencies, name),
        };
        let search_match: bool = if !self.search_query.as_str().is_empty() {
            let lower_name = to_lowercase(name);
            let lower_query = to_lowercase(self.search_query.as_str());
            contains(lower_name.as_str(), lower_query.as_str())
        } else {
            true
        };
        filter_match && search_match
    }

    /// The number that the sort option reads for the dependency at
    /// position `i`; zero where the option sorts by name.
    fn sort_number(&self, i: usize) -> (n: u64)
        requires
            self.wf(),
            self.analysis is Some,
            i < self.dependency_count(),
        ensures
            n == self.sort_key(i as int).number,
    {
        let analysis = match &self.analysis {
            Some(a) => a,
            None => {
                return 0;
            },
        };
        let dep = &analysis.dependencies[i];
        let name = dep.name.as_str();
        match self.sort_option {
            SortOption::Name => 0,
            SortOption::UsageCount => match analysis.metrics.usage_count.get(name) {
                Some(n) => *n as u64,
                None => 0,
            },
            SortOption::Importance => match analysis.metrics.importance_scores.get(name) {
                Some(n) => *n as u64,
                None => 0,
            },
            SortOption::Type => match dep.dependency_type {
                DependencyType::Normal => 0,
                DependencyType::Development => 1,
                DependencyType::Build => 2,
            },
            SortOption::Removable => if list_contains(
                &analysis.metrics.removable_dependencies,
                name,
            ) {
                1
            } else {
                0
            },
        }
    }

    /// Whether the sort key of the dependency at `a` is less than that of
    /// the dependency at `b`.
    fn key_precedes(&self, a: usize, b: usize) -> (r: bool)
        requires
            self.wf(),
            self.analysis is Some,
            a < self.dependency_count(),
            b < self.dependency_count(),
        ensures
            r == key_less(self.sort_key(a as int), self.sort_key(b as int)),
    {
        match self.sort_option {
            SortOption::Name => {
                let analysis = match &self.analysis {
                    Some(x) => x,
                    None => {
                        return false;
                    },
                };
                proof {
                    lemma_lex_order(
                        self.sort_key(a as int).text,
                        self.sort_key(b as int).text,
                        self.sort_key(a as int).text,
                    );
                }
                text_lt(
                    analysis.dependencies[a].name.as_str(),
                    analysis.dependencies[b].name.as_str(),
                )
            },
            _ => {
                proof {
                    lemma_lex_order(Seq::empty(), Seq::empty(), Seq::empty());
                }
                self.sort_number(a) < self.sort_number(b)
            },
        }
    }

    /// Whether the dependency at `a` stands before the one at `b` in the
    /// list.
    fn precedes(&self, a: usize, b: usize) -> (r: bool)
        requires
            self.wf(),
            self.analysis is Some,
            a < self.dependency_count(),
            b < self.dependency_count(),
        ensures
            r == self.comes_before(a as int, b as int),
    {
        let less = self.key_precedes(a, b);
        let greater = self.key_precedes(b, a);
        proof {
            lemma_key_order(
                self.sort_key(a as int),
                self.sort_key(b as int),
                self.sort_key(a as int),
            );
            lemma_key_order(
                self.sort_key(b as int),
                self.sort_key(a as int),
                self.sort_key(b as int),
            );
        }
        if self.sort_reverse {
            greater || (!less && !greater && a < b)
        } else {
            less || (!less && !greater && a < b)
        }
    }

    /// The list that is shown: the positions in the analysis of the
    /// dependencies that pass the filter and the search, sorted by the sort
    /// option. Dependencies with equal sort keys keep the order of the
    /// analysis, also where the order is reversed.
    pub fn filtered_dependencies(&self) -> (list: Vec<usize>)
        requires
            self.wf(),
        ensures
            self.is_listing(list@),
    {
        let mut list: Vec<usize> = Vec::new();
        let n: usize = match &self.analysis {
            Some(a) => a.dependencies.len(),
            None => {
                return list;
            },
        };
        let mut i: usize = 0;
        while i < n
            invariant
                i <= n,
                n == self.dependency_count(),
                self.wf(),
                self.analysis is Some,
                list@.len() == self.shown_count(i as nat),
                forall|k: int|
                    0 <= k < list@.len() ==> (#[trigger] list@[k]) < i && self.shown(list@[k] as int),
                forall|j: int|
                    0 <= j < i && self.shown(j) ==> exists|k: int|
                        0 <= k < list@.len() && #[trigger] list@[k] == j,
                forall|p: int, q: int|
                    0 <= p < q < list@.len() ==> self.comes_before(
                        #[trigger] list@[p] as int,
                        #[trigger] list@[q] as int,
                    ),
            decreases n - i,
        {
            if self.is_shown(i) {
                let mut at: usize = 0;
                while at < list.len() && !self.precedes(i, list[at])
                    invariant
                        at <= list@.len(),
                        i < n,
                        n == self.dependency_count(),
                        self.wf(),
                        self.analysis is Some,
                        forall|k: int| 0 <= k < list@.len() ==> (#[trigger] list@[k]) < i,
                        forall|k: int|
                            0 <= k < at ==> !self.comes_before(i as int, #[trigger] list@[k] as int),
                    decreases list@.len() - at,
                {
                    at += 1;
                }
                let ghost before = list@;
                list.insert(at, i);
                proof {
                    assert forall|p: int, q: int| 0 <= p < q < list@.len() implies self.comes_before(
                        #[trigger] list@[p] as int,
                        #[trigger] list@[q] as int,
                    ) by {
                        if q == at {
                            assert(list@[p] == before[p]);
                            self.lemma_list_order(i as int, before[p] as int, i as int);
                        } else if p == at {
                            assert(list@[q] == before[q - 1]);
                            if q - 1 > at {
                                assert(self.comes_before(before[at as int] as int, before[q - 1] as int));
                            }
                            self.lemma_list_order(
                                i as int,
                                before[at as int] as int,
                                before[q - 1] as int,
                            );
                        } else {
                            let p0 = if p < at {
                                p
                            } else {
                                p - 1
                            };
                            let q0 = if q < at {
                                q
                            } else {
                                q - 1
                            };
                            assert(list@[p] == before[p0] && list@[q] == before[q0]);
                        }
                    }
                    assert forall|j: int| 0 <= j < i + 1 && self.shown(j) implies exists|k: int|
                        0 <= k < list@.len() && #[trigger] list@[k] == j by {
                        if j == i {
                            assert(list@[at as int] == j);
                        } else {
                            let k0 = choose|k: int| 0 <= k < before.len() && #[trigger] before[k] == j;
                            let k1 = if k0 < at {
                                k0
                            } else {
                                k0 + 1
                            };
                            assert(list@[k1] == j);
                        }
                    }
                    assert forall|k: int| 0 <= k < list@.len() implies (#[trigger] list@[k]) < i + 1
                        && self.shown(list@[k] as int) by {
                        if k != at {
                            let k0 = if k < at {
                                k
                            } else {
                                k - 1
                            };
                            assert(list@[k] == before[k0]);
                        }
                    }
                }
            }
            i += 1;
        }
        list
    }

    /// The position in the analysis of the selected dependency; none where
    /// the selection lies beyond the list.
    pub fn actual_selected_index(&self) -> (r: Option<usize>)
        requires
            self.wf(),
        ensures
            match r {
                Some(i) => self.selected_dependency < self.visible() && forall|list: Seq<usize>|
                    #[trigger] self.is_listing(list) ==> list[self.selected_dependency as int] == i,
                None => self.selected_dependency >= self.visible(),
            },
    {
        let filtered = self.filtered_dependencies();
        if self.selected_dependency < filtered.len() {
            let i = filtered[self.selected_dependency];
            proof {
                let at = self.selected_dependency as int;
                assert forall|list: Seq<usize>| #[trigger] self.is_listing(list) implies list[at]
                    == i by {
                    self.lemma_listing_is_unique(list, filtered@);
                }
            }
            Some(i)
        } else {
            None
        }
    }

    /// Takes in the outcome of the analysis. Where the display was started
    /// for one dependency and the analysis holds it, that dependency is
    /// selected. An analysis that failed changes nothing.
    pub fn run_analysis(&mut self, outcome: Result<AnalysisResult, AnalysisError>) -> (r: Result<
        (),
        AnalysisError,
    >)
        requires
            old(self).wf(),
            outcome matches Ok(result) ==> result.metrics.wf(),
        ensures
            final(self).wf(),
            match outcome {
                Ok(result) => r is Ok && final(self).analysis == Some(result)
                    && final(self).selected_dependency == (match old(self).filter_dep {
                    Some(filter) => match first_named(result, filter@, 0) {
                        Some(at) => at as usize,
                        None => old(self).selected_dependency,
                    },
                    None => old(self).selected_dependency,
                }),
                Err(e) => r == Err::<(), AnalysisError>(e)
                    && final(self).analysis == old(self).analysis
                    && final(self).selected_dependency == old(self).selected_dependency,
            },
            final(self).state() == (AppState {
                selected_dependency: final(self).selected_dependency as int,
                ..old(self).state()
            }),
            final(self).filter_dep == old(self).filter_dep,
            final(self).tick_count == old(self).tick_count,
            final(self).enable_dependency_graph == old(self).enable_dependency_graph,
            final(self).root() == old(self).root(),
    {
        let result = match outcome {
            Ok(result) => result,
            Err(e) => {
                return Err(e);
            },
        };
        let mut selected: usize = self.selected_dependency;
        match &self.filter_dep {
            Some(filter) => {
                let mut i: usize = 0;
                while i < result.dependencies.len()
                    invariant_except_break
                        i <= result.dependencies.len(),
                        selected == self.selected_dependency,
                        first_named(result, filter@, 0) == first_named(result, filter@, i as int),
                    ensures
                        selected == (match first_named(result, filter@, 0) {
                            Some(at) => at as usize,
                            None => self.selected_dependency,
                        }),
                    decreases result.dependencies.len() - i,
                {
                    if same_text(result.dependencies[i].name.as_str(), filter.as_str()) {
                        selected = i;
                        break ;
                    }
                    i += 1;
                }
            },
            None => {},
        }
        self.analysis = Some(result);
        self.selected_dependency = selected;
        Ok(())
    }

    /// One tick has passed.
    pub fn tick(&mut self)
        ensures
            final(self).tick_count == (if old(self).tick_count == usize::MAX {
                0
            } else {
                old(self).tick_count + 1
            }),
            final(self).state() == old(self).state(),
            final(self).analysis == old(self).analysis,
            final(self).filter_dep == old(self).filter_dep,
            final(self).enable_dependency_graph == old(self).enable_dependency_graph,
            final(self).root() == old(self).root(),
    {
        self.tick_count = if self.tick_count == usize::MAX {
            0
        } else {
            self.tick_count + 1
        };
    }

    /// A key was pressed.
    pub fn handle_key_event(&mut self, key: Key)
        requires
            old(self).wf(),
        ensures
            final(self).wf(),
            final(self).state() == after_key(
                old(self).state(),
                key,
                old(self).analysis is Some,
                old(self).visible() as int,
            ),
            final(self).analysis == old(self).analysis,
            final(self).filter_dep == old(self).filter_dep,
            final(self).tick_count == old(self).tick_count,
            final(self).enable_dependency_graph == old(self).enable_dependency_graph,
            final(self).root() == old(self).root(),
    {
        if self.is_searching {
            match key {
                Key::Esc => {
                    self.is_searching = false;
                    self.search_query = String::new();
                },
                Key::Enter => {
                    self.is_searching = false;
                },
                Key::Backspace => {
                    let _ = self.search_query.pop();
                },
                Key::Char(c) => {
                    self.search_query.push(c);
                },
                _ => {},
            }
            return ;
        }
        match key {
            Key::Char('q') | Key::Esc => {
                self.should_quit = true;
            },
            Key::Char('?') => {
                self.show_help = !self.show_help;
            },
            Key::Tab => {
                self.current_tab = (self.current_tab % TAB_COUNT + 1) % TAB_COUNT;
                self.selected_dependency = 0;
            },
            Key::BackTab => {
                self.current_tab = (self.current_tab % TAB_COUNT + 2) % TAB_COUNT;
                self.selected_dependency = 0;
            },
            Key::Down | Key::Char('j') => {
                if self.analysis.is_some() {
                    let visible: usize = self.filtered_dependencies().len();
                    let len: usize = if visible < 1 {
                        1
                    } else {
                        visible
                    };
                    let ghost sel = self.selected_dependency as int;
                    assert((sel % (len as int) + 1) % (len as int) == (sel + 1) % (len as int))
                        by (nonlinear_arith)
                        requires
                            len > 0,
                            sel >= 0,
                    ;
                    self.selected_dependency = (self.selected_dependency % len + 1) % len;
                }
            },
            Key::Up | Key::Char('k') => {
                if self.analysis.is_some() {
                    let visible: usize = self.filtered_dependencies().len();
                    let len: usize = if visible < 1 {
                        1
                    } else {
                        visible
                    };
                    let ghost sel = self.selected_dependency as int;
                    let at: usize = self.selected_dependency % len;
                    assert((if at == 0 {
                        len - 1
                    } else {
                        at - 1
                    }) == (sel + len - 1) % (len as int)) by (nonlinear_arith)
                        requires
                            len > 0,
                            sel >= 0,
                            at == sel % (len as int),
                    ;
                    self.selected_dependency = if at == 0 {
                        len - 1
                    } else {
                        at - 1
                    };
                }
            },
            Key::Char('s') => {
                self.sort_option = self.sort_option.next();
            },
            Key::Char('r') => {
                self.sort_reverse = !self.sort_reverse;
            },
            Key::Char('f') => {
                self.filter_option = self.filter_option.next();
                self.selected_dependency = 0;
            },
            Key::Char('/') => {
                self.is_searching = true;
                self.search_query = String::new();
            },
            Key::Right | Key::Char('l') => {
                if self.current_tab == 1 {
                    self.detail_view = (self.detail_view % TAB_COUNT + 1) % TAB_COUNT;
                }
            },
            Key::Left | Key::Char('h') => {
                if self.current_tab == 1 {
                    self.detail_view = (self.detail_view % TAB_COUNT + 2) % TAB_COUNT;
                }
            },
            _ => {},
        }
    }

    /// An event came in: a key press changes the state as `handle_key_event`
    /// says, a tick counts.
    pub fn handle_event(&mut self, event: Event)
        requires
            old(self).wf(),
        ensures
            final(self).wf(),
            final(self).analysis == old(self).analysis,
            final(self).filter_dep == old(self).filter_dep,
            final(self).enable_dependency_graph == old(self).enable_dependency_graph,
            final(self).root() == old(self).root(),
            match event {
                Event::Key(key) => final(self).state() == after_key(
                    old(self).state(),
                    key,
                    old(self).analysis is Some,
                    old(self).visible() as int,
                ) && final(self).tick_count == old(self).tick_count,
                Event::Tick => final(self).state() == old(self).state() && final(self).tick_count
                    == (if old(self).tick_count == usize::MAX {
                    0
                } else {
                    old(self).tick_count + 1
                }),
            },
    {
        match event {
            Event::Key(key) => self.handle_key_event(key),
            Event::Tick => self.tick(),
        }
    }
}

/// The position at or after `from` of the first dependency of an analysis
/// that is named `name`.
pub open spec fn first_named(result: AnalysisResult, name: Seq<char>, from: int) -> Option<int>
    decreases result.dependencies@.len() + 1 - from,
{
    if from < 0 || from >= result.dependencies@.len() {
        None
    } else if result.dependencies@[from]@.name == name {
        Some(from)
    } else {
        first_named(result, name, from + 1)
    }
}

} // verus!
