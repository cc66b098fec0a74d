//! The source usage scanner.
//!
//! A source file reaches the scanner either as the sequence of syntax events
//! that a traversal of its syntax tree met (import declarations, macro
//! invocations, paths), or, where it could not be parsed, as its raw text.
//! The scanner appends a usage site to the index for every reference to a
//! declared dependency, in file order and within a file in traversal order.
//!
//! The classification of paths and the attribution of macros are heuristics
//! on names, not a resolution of what a name refers to.

use crate::analyzer::{DependencyUsage, DependencyUsageData, UsageSite, UsageType, record_site};
use crate::manifest::cargo::{CargoDependency, DependencyRecord, records};
use crate::name_map::{NameMap, distinct_names};
use crate::text::{
    begins_with, chars_of, concat2, concat3, contains, contains_text, copy_range, ends_with,
    first_word, first_word_of, matches_at,
    head_before, head_text, is_lowercase, is_lowercase_first, is_uppercase, is_uppercase_first,
    join, lines, lines_of, same_text, starts_with, string_of, strip_prefixes, strip_trailing, trim,
    trimmed, without_prefixes, without_trailing,
};
use vstd::prelude::*;

verus! {

/// One segment of a path: its identifier, and whether generic or
/// parenthesised arguments follow it.
pub struct PathSegment {
    pub ident: String,
    pub has_arguments: bool,
}

/// A path such as `a::b::C`.
pub struct SourcePath {
    pub segments: Vec<PathSegment>,
}

/// The tree of one import declaration.
pub enum UseTree {
    /// `ident::tree`
    Path { ident: String, tree: Box<UseTree> },
    /// `ident`
    Name { ident: String },
    /// `ident as rename`
    Rename { ident: String, rename: String },
    /// `*`
    Glob,
    /// `{items, ...}`
    Group { items: Vec<UseTree> },
}

/// What a traversal of a syntax tree meets that the scanner looks at.
pub enum SyntaxEvent {
    /// An import declaration.
    Use(UseTree),
    /// A macro invocation, with the path of the macro.
    Macro(SourcePath),
    /// A path in an expression, a type, a pattern or elsewhere.
    Path(SourcePath),
}

/// A source file as the parser left it.
pub enum SourceContent {
    /// The events of the traversal of its syntax tree, in order.
    Parsed(Vec<SyntaxEvent>),
    /// Its text, where it has no syntax tree.
    Unparsed(String),
}

/// A source file of the project.
pub struct SourceFile {
    pub path: String,
    pub content: SourceContent,
}

/// What the scanner holds while it goes through a file: the names bound by
/// the file's imports, each with the qualified path it stands for, and the
/// usage index.
pub ghost struct ScanState {
    pub aliases: Map<Seq<char>, Seq<char>>,
    pub index: Map<Seq<char>, Seq<UsageSite>>,
}

/// The usage site with these parts.
pub open spec fn site(file: Seq<char>, line: nat, symbol: Seq<char>, kind: UsageType) -> UsageSite {
    UsageSite { file, line, referenced_symbol: symbol, kind }
}

/// The index after `s` was recorded once for each declared dependency named
/// `crate_name`.
pub open spec fn note(
    index: Map<Seq<char>, Seq<UsageSite>>,
    deps: Seq<DependencyRecord>,
    crate_name: Seq<char>,
    s: UsageSite,
) -> Map<Seq<char>, Seq<UsageSite>>
    decreases deps.len(),
{
    if deps.len() == 0 {
        index
    } else if deps.last().name == crate_name {
        record_site(note(index, deps.drop_last(), crate_name, s), deps.last().name, s)
    } else {
        note(index, deps.drop_last(), crate_name, s)
    }
}

/// `ident` qualified by `prefix`.
pub open spec fn qualified(prefix: Seq<char>, ident: Seq<char>) -> Seq<char> {
    if prefix.len() == 0 {
        ident
    } else {
        prefix + "::"@ + ident
    }
}

/// The crate that a qualified path starts with: its text before the first
/// `::`.
pub open spec fn crate_of(path: Seq<char>) -> Seq<char> {
    head_before(path, "::"@)
}

/// The tree is a wildcard, or a path that leads to nothing but a wildcard:
/// `*`, `a::*`, `a::b::*`.
pub open spec fn leads_to_wildcard(tree: UseTree) -> bool
    decreases tree,
{
    match tree {
        UseTree::Glob => true,
        UseTree::Path { ident, tree: rest } => leads_to_wildcard(*rest),
        _ => false,
    }
}

/// The state after the import tree `tree`, met under `prefix`, was processed.
///
/// A wildcard records `prefix::*` for the crate that the prefix starts
/// with, and nothing else is recorded on the way to it: the import `d::*`
/// of a dependency `d` records the one site `d::*`, the import `d::a::*`
/// the one site `d::a::*`. Neither binds a name.
///
/// A path node at the root that names a dependency and does not lead
/// straight to a wildcard records the import `name::<rest>`. A name or a
/// renamed name binds the local name to its qualified path and records that
/// path (`path as rename` for a rename) for the crate that the prefix
/// starts with. A group processes its items in order, so `d::{a, *}`
/// records `d::<rest>` for the root, `d::a` for the name and `d::*` for the
/// wildcard.
pub open spec fn use_tree_scan(
    tree: UseTree,
    prefix: Seq<char>,
    line: nat,
    file: Seq<char>,
    deps: Seq<DependencyRecord>,
    st: ScanState,
) -> ScanState
    decreases tree,
{
    match tree {
        UseTree::Path { ident, tree: rest } => {
            let noted = if prefix.len() == 0 && !leads_to_wildcard(*rest) {
                note(st.index, deps, ident@, site(file, line, ident@ + "::<rest>"@, UsageType::Import))
            } else {
                st.index
            };
            use_tree_scan(
                *rest,
                qualified(prefix, ident@),
                line,
                file,
                deps,
                ScanState { aliases: st.aliases, index: noted },
            )
        },
        UseTree::Name { ident } => {
            let full = qualified(prefix, ident@);
            ScanState {
                aliases: st.aliases.insert(ident@, full),
                index: note(
                    st.index,
                    deps,
                    crate_of(prefix),
                    site(file, line, full, UsageType::Import),
                ),
            }
        },
        UseTree::Rename { ident, rename } => {
            let full = qualified(prefix, ident@);
            ScanState {
                aliases: st.aliases.insert(rename@, full),
                index: note(
                    st.index,
                    deps,
                    crate_of(prefix),
                    site(file, line, full + " as "@ + rename@, UsageType::Import),
                ),
            }
        },
        UseTree::Glob => ScanState {
            aliases: st.aliases,
            index: note(
                st.index,
                deps,
                crate_of(prefix),
                site(file, line, prefix + "::*"@, UsageType::Import),
            ),
        },
        UseTree::Group { items } => use_group_scan(items@, items@.len(), prefix, line, file, deps, st),
    }
}

/// The state after the first `n` items of a group were processed in order.
pub open spec fn use_group_scan(
    items: Seq<UseTree>,
    n: nat,
    prefix: Seq<char>,
    line: nat,
    file: Seq<char>,
    deps: Seq<DependencyRecord>,
    st: ScanState,
) -> ScanState
    decreases items, n,
{
    if n == 0 || n > items.len() {
        st
    } else {
        use_tree_scan(
            items[n - 1],
            prefix,
            line,
            file,
            deps,
            use_group_scan(items, (n - 1) as nat, prefix, line, file, deps, st),
        )
    }
}

/// The identifiers of the segments of a path.
pub open spec fn idents(segments: Seq<PathSegment>) -> Seq<Seq<char>> {
    segments.map_values(|s: PathSegment| s.ident@)
}

/// The text of a path: its identifiers joined by `::`.
pub open spec fn path_text(path: SourcePath) -> Seq<char> {
    join(idents(path.segments@), "::"@)
}

/// The kind of usage that a path is taken for, by its last segment: a
/// function where it starts with a lowercase letter and has no arguments; a
/// type where it starts with an uppercase letter, or a trait where the path
/// has more than one segment; otherwise other.
pub open spec fn path_kind(path: SourcePath) -> UsageType {
    if path.segments@.len() == 0 {
        UsageType::Other
    } else {
        let last = path.segments@.last();
        if !last.has_arguments && last.ident@.len() > 0 && is_lowercase(last.ident@[0]) {
            UsageType::Function
        } else if last.ident@.len() > 0 && is_uppercase(last.ident@[0]) {
            if path.segments@.len() > 1 {
                UsageType::Trait
            } else {
                UsageType::Type
            }
        } else {
            UsageType::Other
        }
    }
}

/// The state after a path was met: a site for each dependency that the first
/// segment names, then, where the first segment is bound by an import, a site
/// for the crate that the bound path starts with.
pub open spec fn path_scan(
    path: SourcePath,
    file: Seq<char>,
    deps: Seq<DependencyRecord>,
    st: ScanState,
) -> ScanState {
    if path.segments@.len() == 0 {
        st
    } else {
        let first = path.segments@[0].ident@;
        let direct = note(st.index, deps, first, site(file, 0, path_text(path), path_kind(path)));
        let index = if st.aliases.dom().contains(first) {
            let origin = st.aliases[first];
            note(
                direct,
                deps,
                crate_of(origin),
                site(
                    file,
                    0,
                    path_text(path) + " (from "@ + origin + ")"@,
                    path_kind(path),
                ),
            )
        } else {
            direct
        };
        ScanState { aliases: st.aliases, index }
    }
}

/// A macro whose path starts with `segment` is attributed to a dependency
/// named `name` where one of the two texts occurs in the other.
pub open spec fn macro_matches(segment: Seq<char>, name: Seq<char>) -> bool {
    contains_text(segment, name) || contains_text(name, segment)
}

/// The position at or after `from` of the first dependency to which a macro
/// starting with `segment` is attributed.
pub open spec fn macro_owner(deps: Seq<DependencyRecord>, segment: Seq<char>, from: int) -> Option<
    int,
>
    decreases deps.len() + 1 - from,
{
    if from < 0 || from >= deps.len() {
        None
    } else if macro_matches(segment, deps[from].name) {
        Some(from)
    } else {
        macro_owner(deps, segment, from + 1)
    }
}

/// The state after a macro invocation was met: one site, `segment!`, for the
/// first dependency that matches the first segment of the macro's path.
pub open spec fn macro_scan(
    path: SourcePath,
    file: Seq<char>,
    deps: Seq<DependencyRecord>,
    st: ScanState,
) -> ScanState {
    if path.segments@.len() == 0 {
        st
    } else {
        let segment = path.segments@[0].ident@;
        match macro_owner(deps, segment, 0) {
            Some(at) => ScanState {
                aliases: st.aliases,
                index: record_site(
                    st.index,
                    deps[at].name,
                    site(file, 0, segment + "!"@, UsageType::Macro),
                ),
            },
            None => st,
        }
    }
}

/// The state after one syntax event.
pub open spec fn event_scan(
    event: SyntaxEvent,
    file: Seq<char>,
    deps: Seq<DependencyRecord>,
    st: ScanState,
) -> ScanState {
    match event {
        SyntaxEvent::Use(tree) => use_tree_scan(tree, Seq::empty(), 0, file, deps, st),
        SyntaxEvent::Macro(path) => macro_scan(path, file, deps, st),
        SyntaxEvent::Path(path) => path_scan(path, file, deps, st),
    }
}

/// The state after the first `n` events of a file.
pub open spec fn events_scan(
    events: Seq<SyntaxEvent>,
    n: nat,
    file: Seq<char>,
    deps: Seq<DependencyRecord>,
    st: ScanState,
) -> ScanState
    decreases n,
{
    if n == 0 || n > events.len() {
        st
    } else {
        event_scan(events[n - 1], file, deps, events_scan(events, (n - 1) as nat, file, deps, st))
    }
}

/// The index after a line that starts, white space aside, with `use ` was
/// read as an import: what follows the keyword, without trailing semicolons,
/// is recorded for the crate named before the first `::`.
pub open spec fn use_statement_scan(
    index: Map<Seq<char>, Seq<UsageSite>>,
    line: Seq<char>,
    number: nat,
    file: Seq<char>,
    deps: Seq<DependencyRecord>,
) -> Map<Seq<char>, Seq<UsageSite>> {
    let rest = strip_prefixes(trim(line), "use "@);
    note(index, deps, crate_of(rest), site(file, number, strip_trailing(rest, ';'), UsageType::Import))
}

/// The name that an `extern crate` line declares: the first word after the
/// keywords, without trailing semicolons.
pub open spec fn extern_crate_name(line: Seq<char>) -> Seq<char> {
    strip_trailing(first_word(strip_prefixes(trim(line), "extern crate "@)), ';')
}

/// The index after an `extern crate` line was read as an import of the crate
/// it names.
pub open spec fn extern_crate_scan(
    index: Map<Seq<char>, Seq<UsageSite>>,
    line: Seq<char>,
    number: nat,
    file: Seq<char>,
    deps: Seq<DependencyRecord>,
) -> Map<Seq<char>, Seq<UsageSite>> {
    let name = extern_crate_name(line);
    note(index, deps, name, site(file, number, name, UsageType::Import))
}

/// The index after one line of an unparsed file.
pub open spec fn line_scan(
    index: Map<Seq<char>, Seq<UsageSite>>,
    line: Seq<char>,
    number: nat,
    file: Seq<char>,
    deps: Seq<DependencyRecord>,
) -> Map<Seq<char>, Seq<UsageSite>> {
    let after_use = if starts_with(trim(line), "use "@) {
        use_statement_scan(index, line, number, file, deps)
    } else {
        index
    };
    if starts_with(trim(line), "extern crate "@) {
        extern_crate_scan(after_use, line, number, file, deps)
    } else {
        after_use
    }
}

/// The index after the first `n` lines of an unparsed file; lines count from
/// one.
pub open spec fn lines_scan(
    index: Map<Seq<char>, Seq<UsageSite>>,
    all: Seq<Seq<char>>,
    n: nat,
    file: Seq<char>,
    deps: Seq<DependencyRecord>,
) -> Map<Seq<char>, Seq<UsageSite>>
    decreases n,
{
    if n == 0 || n > all.len() {
        index
    } else {
        line_scan(lines_scan(index, all, (n - 1) as nat, file, deps), all[n - 1], n, file, deps)
    }
}

/// The index after the text of an unparsed file was searched line by line.
pub open spec fn text_scan(
    index: Map<Seq<char>, Seq<UsageSite>>,
    content: Seq<char>,
    file: Seq<char>,
    deps: Seq<DependencyRecord>,
) -> Map<Seq<char>, Seq<UsageSite>> {
    lines_scan(index, lines(content), lines(content).len(), file, deps)
}

/// A path lies in a build-output or version-control directory.
pub open spec fn excluded(path: Seq<char>) -> bool {
    contains_text(path, "/target/"@) || contains_text(path, "/.git/"@)
}

/// The position after the last `/` of a path, that is where its file name
/// starts.
pub open spec fn file_name_start(path: Seq<char>) -> int
    decreases path.len(),
{
    if path.len() == 0 {
        0
    } else if path.last() == '/' {
        path.len() as int
    } else {
        file_name_start(path.drop_last())
    }
}

/// The file name of a path: what follows its last `/`.
pub open spec fn file_name(path: Seq<char>) -> Seq<char> {
    path.skip(file_name_start(path))
}

/// A path names a Rust source file: its file name ends with `.rs` and is
/// longer than that.
pub open spec fn rust_source(path: Seq<char>) -> bool {
    ends_with(file_name(path), ".rs"@) && file_name(path).len() > ".rs"@.len()
}

/// The index after one file. The names bound by imports start empty in every
/// file.
pub open spec fn file_scan(
    index: Map<Seq<char>, Seq<UsageSite>>,
    file: SourceFile,
    deps: Seq<DependencyRecord>,
) -> Map<Seq<char>, Seq<UsageSite>> {
    match file.content {
        SourceContent::Parsed(events) => events_scan(
            events@,
            events@.len(),
            file.path@,
            deps,
            ScanState { aliases: Map::empty(), index },
        ).index,
        SourceContent::Unparsed(content) => text_scan(index, content@, file.path@, deps),
    }
}

/// The index after the first `n` files: each is scanned where its path names
/// a Rust source file and is not excluded.
pub open spec fn files_scan(
    index: Map<Seq<char>, Seq<UsageSite>>,
    files: Seq<SourceFile>,
    n: nat,
    deps: Seq<DependencyRecord>,
) -> Map<Seq<char>, Seq<UsageSite>>
    decreases n,
{
    if n == 0 || n > files.len() {
        index
    } else {
        let before = files_scan(index, files, (n - 1) as nat, deps);
        if !excluded(files[n - 1].path@) && rust_source(files[n - 1].path@) {
            file_scan(before, files[n - 1], deps)
        } else {
            before
        }
    }
}

/// The index before scanning: every declared dependency with no site.
pub open spec fn initial_index(deps: Seq<DependencyRecord>) -> Map<Seq<char>, Seq<UsageSite>> {
    Map::new(
        |n: Seq<char>| exists|i: int| 0 <= i < deps.len() && #[trigger] deps[i].name == n,
        |n: Seq<char>| Seq::empty(),
    )
}

/// The usage index of a project: what scanning its files in order leaves in
/// the index that starts with every declared dependency and no site.
pub open spec fn usage_index(deps: Seq<DependencyRecord>, files: Seq<SourceFile>) -> Map<
    Seq<char>,
    Seq<UsageSite>,
> {
    files_scan(initial_index(deps), files, files.len(), deps)
}

/// The names bound by imports, as a map from each name to the text of its
/// qualified path.
pub open spec fn alias_model(aliases: NameMap<String>) -> Map<Seq<char>, Seq<char>> {
    Map::new(|n: Seq<char>| aliases.has(n), |n: Seq<char>| aliases@[n]@)
}

/// Where the file name of a path starts.
fn name_start(path: &Vec<char>) -> (at: usize)
    ensures
        at == file_name_start(path@),
        at <= path.len(),
{
    let mut n: usize = path.len();
    assert(path@.take(n as int) =~= path@);
    while n > 0 && path[n - 1] != '/'
        invariant
            n <= path.len(),
            file_name_start(path@) == file_name_start(path@.take(n as int)),
        decreases n,
    {
        assert(path@.take(n as int).drop_last() =~= path@.take(n - 1));
        n -= 1;
    }
    n
}

/// Whether a path names a Rust source file.
pub fn is_rust_source(path: &str) -> (r: bool)
    ensures
        r == rust_source(path@),
{
    let p = chars_of(path);
    let suffix = chars_of(".rs");
    let start = name_start(&p);
    let name = copy_range(&p, start, p.len());
    assert(name@ =~= file_name(path@));
    if name.len() <= suffix.len() {
        return false;
    }
    matches_at(&name, &suffix, name.len() - suffix.len())
}

/// Records the usage once for each declared dependency named `crate_name`.
pub fn note_usage(
    dependencies: &Vec<CargoDependency>,
    crate_name: &str,
    file: &str,
    line: usize,
    symbol: &str,
    kind: UsageType,
    usage_data: &mut DependencyUsageData,
)
    requires
        old(usage_data).wf(),
    ensures
        final(usage_data).wf(),
        final(usage_data).usage_locations.names() == old(usage_data).usage_locations.names(),
        final(usage_data).model() == note(
            old(usage_data).model(),
            records(dependencies@),
            crate_name@,
            site(file@, line as nat, symbol@, kind),
        ),
{
    let ghost recs = records(dependencies@);
    let ghost start = usage_data.model();
    let ghost s = site(file@, line as nat, symbol@, kind);
    let mut i: usize = 0;
    assert(recs.take(0) =~= Seq::<DependencyRecord>::empty());
    while i < dependencies.len()
        invariant
            i <= dependencies.len(),
            recs == records(dependencies@),
            s == site(file@, line as nat, symbol@, kind),
            usage_data.wf(),
            usage_data.usage_locations.names() == old(usage_data).usage_locations.names(),
            usage_data.model() == note(start, recs.take(i as int), crate_name@, s),
        decreases dependencies.len() - i,
    {
        proof {
            assert(recs.take(i + 1).drop_last() =~= recs.take(i as int));
            assert(recs.take(i + 1).last() == dependencies@[i as int]@);
        }
        if same_text(crate_name, dependencies[i].name.as_str()) {
            let usage = DependencyUsage {
                file: String::from_str(file),
                line,
                imported_item: String::from_str(symbol),
                usage_type: kind,
            };
            usage_data.record(dependencies[i].name.as_str(), usage);
        }
        i += 1;
    }
    assert(recs.take(dependencies@.len() as int) =~= recs);
}

/// Whether the tree is a wildcard or a path that leads to nothing but a
/// wildcard.
pub fn ends_in_wildcard(tree: &UseTree) -> (r: bool)
    ensures
        r == leads_to_wildcard(*tree),
    decreases tree,
{
    match tree {
        UseTree::Glob => true,
        UseTree::Path { ident, tree: rest } => ends_in_wildcard(rest),
        _ => false,
    }
}

/// `ident` qualified by `prefix`.
pub fn qualified_name(prefix: &str, ident: &str) -> (full: String)
    ensures
        full@ == qualified(prefix@, ident@),
{
    if prefix.is_empty() {
        String::from_str(ident)
    } else {
        concat3(prefix, "::", ident)
    }
}

/// The text of a path.
pub fn path_to_string(path: &SourcePath) -> (s: String)
    ensures
        s@ == path_text(*path),
{
    let mut s = String::new();
    let mut i: usize = 0;
    let ghost ids = idents(path.segments@);
    assert(ids.take(0) =~= Seq::<Seq<char>>::empty());
    while i < path.segments.len()
        invariant
            i <= path.segments.len(),
            ids == idents(path.segments@),
            s@ == join(ids.take(i as int), "::"@),
        decreases path.segments.len() - i,
    {
        proof {
            assert(ids.take(i + 1).drop_last() =~= ids.take(i as int));
            assert(ids.take(i + 1).last() == path.segments@[i as int].ident@);
            assert(ids.take(1)[0] == ids[0]);
        }
        if i > 0 {
            s.append("::");
        } else {
            assert(s@ + path.segments@[0].ident@ =~= path.segments@[0].ident@);
        }
        s.append(path.segments[i].ident.as_str());
        i += 1;
    }
    assert(ids.take(path.segments@.len() as int) =~= ids);
    s
}

/// The kind of usage that a path is taken for.
pub fn determine_usage_type(path: &SourcePath) -> (kind: UsageType)
    ensures
        kind == path_kind(*path),
{
    if path.segments.len() == 0 {
        return UsageType::Other;
    }
    let last = &path.segments[path.segments.len() - 1];
    if !last.has_arguments && is_lowercase_first(last.ident.as_str()) {
        return UsageType::Function;
    }
    if is_uppercase_first(last.ident.as_str()) {
        if path.segments.len() > 1 {
            return UsageType::Trait;
        }
        return UsageType::Type;
    }
    UsageType::Other
}

/// The traversal state of one file: its path, and the names that the
/// imports met so far bind.
pub struct RustDependencyVisitor {
    pub file_path: String,
    pub current_imports: NameMap<String>,
}

impl RustDependencyVisitor {
    /// The state of the scan: the bound names, and the index.
    pub open spec fn state(&self, usage_data: DependencyUsageData) -> ScanState {
        ScanState { aliases: alias_model(self.current_imports), index: usage_data.model() }
    }

    /// The state at the start of the file `file_path`: no name is bound.
    pub fn new(file_path: &str) -> (v: Self)
        ensures
            v.current_imports.wf(),
            v.file_path@ == file_path@,
            alias_model(v.current_imports) == Map::<Seq<char>, Seq<char>>::empty(),
    {
        let v = RustDependencyVisitor {
            file_path: String::from_str(file_path),
            current_imports: NameMap::new(),
        };
        assert(alias_model(v.current_imports) =~= Map::<Seq<char>, Seq<char>>::empty());
        v
    }

    /// Binds the local name `local` to the qualified path `origin`.
    fn bind(&mut self, local: &str, origin: &str)
        requires
            old(self).current_imports.wf(),
        ensures
            final(self).current_imports.wf(),
            final(self).file_path == old(self).file_path,
            alias_model(final(self).current_imports) == alias_model(
                old(self).current_imports,
            ).insert(local@, origin@),
    {
        let ghost before = self.current_imports;
        self.current_imports.insert(String::from_str(local), String::from_str(origin));
        proof {
            let target = alias_model(before).insert(local@, origin@);
            assert forall|n: Seq<char>| #[trigger]
                alias_model(self.current_imports).dom().contains(n) == target.dom().contains(
                    n,
                ) by {
                assert(self.current_imports@.dom().contains(n) == self.current_imports.has(n));
                assert(before@.dom().contains(n) == before.has(n));
            }
            assert(alias_model(self.current_imports) =~= target);
        }
    }

    /// Processes the tree of one import declaration.
    pub fn process_use_tree(
        &mut self,
        tree: &UseTree,
        prefix: &str,
        line: usize,
        dependencies: &Vec<CargoDependency>,
        usage_data: &mut DependencyUsageData,
    )
        requires
            old(self).current_imports.wf(),
            old(usage_data).wf(),
        ensures
            final(self).current_imports.wf(),
            final(usage_data).wf(),
            final(self).file_path == old(self).file_path,
            final(usage_data).usage_locations.names() == old(usage_data).usage_locations.names(),
            final(self).state(*final(usage_data)) == use_tree_scan(
                *tree,
                prefix@,
                line as nat,
                old(self).file_path@,
                records(dependencies@),
                old(self).state(*old(usage_data)),
            ),
        decreases tree,
    {
        match tree {
            UseTree::Path { ident, tree: rest } => {
                let new_prefix = qualified_name(prefix, ident.as_str());
                if prefix.is_empty() && !ends_in_wildcard(rest) {
                    let symbol = concat2(ident.as_str(), "::<rest>");
                    note_usage(
                        dependencies,
                        ident.as_str(),
                        self.file_path.as_str(),
                        line,
                        symbol.as_str(),
                        UsageType::Import,
                        usage_data,
                    );
                }
                self.process_use_tree(rest, new_prefix.as_str(), line, dependencies, usage_data);
            },
            UseTree::Name { ident } => {
                let full_path = qualified_name(prefix, ident.as_str());
                self.bind(ident.as_str(), full_path.as_str());
                let crate_name = head_text(prefix, "::");
                note_usage(
                    dependencies,
                    crate_name.as_str(),
                    self.file_path.as_str(),
                    line,
                    full_path.as_str(),
                    UsageType::Import,
                    usage_data,
                );
            },
            UseTree::Rename { ident, rename } => {
                let full_path = qualified_name(prefix, ident.as_str());
                self.bind(rename.as_str(), full_path.as_str());
                let crate_name = head_text(prefix, "::");
                let symbol = concat3(full_path.as_str(), " as ", rename.as_str());
                note_usage(
                    dependencies,
                    crate_name.as_str(),
                    self.file_path.as_str(),
                    line,
                    symbol.as_str(),
                    UsageType::Import,
                    usage_data,
                );
            },
            UseTree::Glob => {
                let crate_name = head_text(prefix, "::");
                let symbol = concat2(prefix, "::*");
                note_usage(
                    dependencies,
                    crate_name.as_str(),
                    self.file_path.as_str(),
                    line,
                    symbol.as_str(),
                    UsageType::Import,
                    usage_data,
                );
            },
            UseTree::Group { items } => {
                let ghost start = self.state(*usage_data);
                let ghost file = self.file_path@;
                let mut i: usize = 0;
                while i < items.len()
                    invariant
                        i <= items.len(),
                        *tree == (UseTree::Group { items: *items }),
                        self.current_imports.wf(),
                        usage_data.wf(),
                        self.file_path == old(self).file_path,
                        file == self.file_path@,
                        usage_data.usage_locations.names() == old(
                            usage_data,
                        ).usage_locations.names(),
                        self.state(*usage_data) == use_group_scan(
                            items@,
                            i as nat,
                            prefix@,
                            line as nat,
                            file,
                            records(dependencies@),
                            start,
                        ),
                    decreases items.len() - i,
                {
                    proof {
                        assert(tree->items == *items);
                        assert(decreases_to!(*tree => tree->items));
                        assert(decreases_to!(tree->items => (tree->items)@));
                        assert(decreases_to!((tree->items)@ => (tree->items)@[i as int]));
                    }
                    self.process_use_tree(&items[i], prefix, line, dependencies, usage_data);
                    i += 1;
                }
            },
        }
    }

    /// An import declaration was met.
    pub fn visit_item_use(
        &mut self,
        tree: &UseTree,
        dependencies: &Vec<CargoDependency>,
        usage_data: &mut DependencyUsageData,
    )
        requires
            old(self).current_imports.wf(),
            old(usage_data).wf(),
        ensures
            final(self).current_imports.wf(),
            final(usage_data).wf(),
            final(self).file_path == old(self).file_path,
            final(usage_data).usage_locations.names() == old(usage_data).usage_locations.names(),
            final(self).state(*final(usage_data)) == event_scan(
                SyntaxEvent::Use(*tree),
                old(self).file_path@,
                records(dependencies@),
                old(self).state(*old(usage_data)),
            ),
    {
        self.process_use_tree(tree, "", 0, dependencies, usage_data);
        proof {
            reveal_strlit("");
            assert(""@ =~= Seq::<char>::empty());
        }
    }

    /// A macro invocation was met. It is attributed to the first declared
    /// dependency whose name occurs in the first segment of the macro's path,
    /// or in whose name that segment occurs. Where the names of two
    /// dependencies overlap this may pick the wrong one.
    pub fn visit_macro(
        &self,
        path: &SourcePath,
        dependencies: &Vec<CargoDependency>,
        usage_data: &mut DependencyUsageData,
    )
        requires
            old(usage_data).wf(),
        ensures
            final(usage_data).wf(),
            final(usage_data).usage_locations.names() == old(usage_data).usage_locations.names(),
            self.state(*final(usage_data)) == macro_scan(
                *path,
                self.file_path@,
                records(dependencies@),
                self.state(*old(usage_data)),
            ),
    {
        if path.segments.len() == 0 {
            return ;
        }
        let segment = path.segments[0].ident.as_str();
        let ghost recs = records(dependencies@);
        let mut i: usize = 0;
        while i < dependencies.len()
            invariant
                i <= dependencies.len(),
                recs == records(dependencies@),
                segment@ == path.segments@[0].ident@,
                path.segments@.len() > 0,
                usage_data.wf(),
                *usage_data == *old(usage_data),
                macro_owner(recs, segment@, 0) == macro_owner(recs, segment@, i as int),
            decreases dependencies.len() - i,
        {
            let name = dependencies[i].name.as_str();
            if contains(segment, name) || contains(name, segment) {
                let usage = DependencyUsage {
                    file: self.file_path.clone(),
                    line: 0,
                    imported_item: concat2(segment, "!"),
                    usage_type: UsageType::Macro,
                };
                usage_data.record(name, usage);
                return ;
            }
            i += 1;
        }
    }

    /// A path was met.
    pub fn visit_path(
        &self,
        path: &SourcePath,
        dependencies: &Vec<CargoDependency>,
        usage_data: &mut DependencyUsageData,
    )
        requires
            self.current_imports.wf(),
            old(usage_data).wf(),
        ensures
            final(usage_data).wf(),
            final(usage_data).usage_locations.names() == old(usage_data).usage_locations.names(),
            self.state(*final(usage_data)) == path_scan(
                *path,
                self.file_path@,
                records(dependencies@),
                self.state(*old(usage_data)),
            ),
    {
        if path.segments.len() == 0 {
            return ;
        }
        let name = path.segments[0].ident.as_str();
        let path_str = path_to_string(path);
        let usage_type = determine_usage_type(path);
        note_usage(
            dependencies,
            name,
            self.file_path.as_str(),
            0,
            path_str.as_str(),
            usage_type,
            usage_data,
        );
        match self.current_imports.get(name) {
            Some(full_path) => {
                let crate_name = head_text(full_path.as_str(), "::");
                let mut symbol = concat3(path_str.as_str(), " (from ", full_path.as_str());
                symbol.append(")");
                assert(self.current_imports@.dom().contains(name@));
                note_usage(
                    dependencies,
                    crate_name.as_str(),
                    self.file_path.as_str(),
                    0,
                    symbol.as_str(),
                    usage_type,
                    usage_data,
                );
            },
            None => {},
        }
    }

    /// One syntax event was met.
    pub fn visit_event(
        &mut self,
        event: &SyntaxEvent,
        dependencies: &Vec<CargoDependency>,
        usage_data: &mut DependencyUsageData,
    )
        requires
            old(self).current_imports.wf(),
            old(usage_data).wf(),
        ensures
            final(self).current_imports.wf(),
            final(usage_data).wf(),
            final(self).file_path == old(self).file_path,
            final(usage_data).usage_locations.names() == old(usage_data).usage_locations.names(),
            final(self).state(*final(usage_data)) == event_scan(
                *event,
                old(self).file_path@,
                records(dependencies@),
                old(self).state(*old(usage_data)),
            ),
    {
        match event {
            SyntaxEvent::Use(tree) => self.visit_item_use(tree, dependencies, usage_data),
            SyntaxEvent::Macro(path) => self.visit_macro(path, dependencies, usage_data),
            SyntaxEvent::Path(path) => self.visit_path(path, dependencies, usage_data),
        }
    }
}

/// The scanner of a project's source files.
pub struct RustAnalyzer {
    project_path: String,
}

impl RustAnalyzer {
    /// The root directory of the project.
    pub closed spec fn root(&self) -> Seq<char> {
        self.project_path@
    }

    /// A scanner for the project at `project_path`.
    pub fn new(project_path: &str) -> (a: Self)
        ensures
            a.root() == project_path@,
    {
        RustAnalyzer { project_path: String::from_str(project_path) }
    }

    /// The root directory of the project.
    pub fn project_path(&self) -> (p: &str)
        ensures
            p@ == self.root(),
    {
        self.project_path.as_str()
    }

    /// Whether a path is left out of the scan: it lies in a build-output or
    /// version-control directory.
    pub fn is_excluded(path: &str) -> (r: bool)
        ensures
            r == excluded(path@),
    {
        contains(path, "/target/") || contains(path, "/.git/")
    }

    /// Reads a line that starts with `use ` as an import.
    pub fn process_use_statement(
        &self,
        line: &str,
        line_number: usize,
        file_path: &str,
        dependencies: &Vec<CargoDependency>,
        usage_data: &mut DependencyUsageData,
    )
        requires
            old(usage_data).wf(),
        ensures
            final(usage_data).wf(),
            final(usage_data).usage_locations.names() == old(usage_data).usage_locations.names(),
            final(usage_data).model() == use_statement_scan(
                old(usage_data).model(),
                line@,
                line_number as nat,
                file_path@,
                records(dependencies@),
            ),
    {
        let chars = chars_of(line);
        let keyword = chars_of("use ");
        let separator = chars_of("::");
        let rest = without_prefixes(&trimmed(&chars), &keyword);
        let first_part = string_of(&crate::text::head_of(&rest, &separator));
        let symbol = string_of(&without_trailing(&rest, ';'));
        note_usage(
            dependencies,
            first_part.as_str(),
            file_path,
            line_number,
            symbol.as_str(),
            UsageType::Import,
            usage_data,
        );
    }

    /// Reads a line that starts with `extern crate ` as an import of the
    /// crate it names.
    pub fn process_extern_crate(
        &self,
        line: &str,
        line_number: usize,
        file_path: &str,
        dependencies: &Vec<CargoDependency>,
        usage_data: &mut DependencyUsageData,
    )
        requires
            old(usage_data).wf(),
        ensures
            final(usage_data).wf(),
            final(usage_data).usage_locations.names() == old(usage_data).usage_locations.names(),
            final(usage_data).model() == extern_crate_scan(
                old(usage_data).model(),
                line@,
                line_number as nat,
                file_path@,
                records(dependencies@),
            ),
    {
        let chars = chars_of(line);
        let keyword = chars_of("extern crate ");
        let rest = without_prefixes(&trimmed(&chars), &keyword);
        let crate_name = string_of(&without_trailing(&first_word_of(&rest), ';'));
        note_usage(
            dependencies,
            crate_name.as_str(),
            file_path,
            line_number,
            crate_name.as_str(),
            UsageType::Import,
            usage_data,
        );
    }

    /// Searches the text of a file line by line for imports. This is what is
    /// left to do for a file that has no syntax tree.
    pub fn analyze_file_simple(
        &self,
        file_content: &str,
        file_path: &str,
        dependencies: &Vec<CargoDependency>,
        usage_data: &mut DependencyUsageData,
    )
        requires
            old(usage_data).wf(),
        ensures
            final(usage_data).wf(),
            final(usage_data).usage_locations.names() == old(usage_data).usage_locations.names(),
            final(usage_data).model() == text_scan(
                old(usage_data).model(),
                file_content@,
                file_path@,
                records(dependencies@),
            ),
    {
        let chars = chars_of(file_content);
        let all = lines_of(&chars);
        let use_keyword = chars_of("use ");
        let extern_keyword = chars_of("extern crate ");
        let ghost start = usage_data.model();
        let ghost texts = lines(file_content@);
        let mut i: usize = 0;
        while i < all.len()
            invariant
                i <= all.len(),
                texts == lines(file_content@),
                all@.len() == texts.len(),
                forall|k: int| 0 <= k < all@.len() ==> (#[trigger] all@[k])@ == texts[k],
                use_keyword@ == "use "@,
                extern_keyword@ == "extern crate "@,
                usage_data.wf(),
                usage_data.usage_locations.names() == old(usage_data).usage_locations.names(),
                usage_data.model() == lines_scan(
                    start,
                    texts,
                    i as nat,
                    file_path@,
                    records(dependencies@),
                ),
            decreases all.len() - i,
        {
            let line = string_of(&all[i]);
            let stripped = trimmed(&all[i]);
            assert(line@ == texts[i as int]);
            if begins_with(&stripped, &use_keyword) {
                self.process_use_statement(
                    line.as_str(),
                    i + 1,
                    file_path,
                    dependencies,
                    usage_data,
                );
            }
            if begins_with(&stripped, &extern_keyword) {
                self.process_extern_crate(
                    line.as_str(),
                    i + 1,
                    file_path,
                    dependencies,
                    usage_data,
                );
            }
            i += 1;
        }
    }

    /// Scans one file: its syntax events where it has a syntax tree, its
    /// text where it has none.
    pub fn analyze_file(
        &self,
        file: &SourceFile,
        dependencies: &Vec<CargoDependency>,
        usage_data: &mut DependencyUsageData,
    )
        requires
            old(usage_data).wf(),
        ensures
            final(usage_data).wf(),
            final(usage_data).usage_locations.names() == old(usage_data).usage_locations.names(),
            final(usage_data).model() == file_scan(
                old(usage_data).model(),
                *file,
                records(dependencies@),
            ),
    {
        match &file.content {
            SourceContent::Parsed(events) => {
                let mut visitor = RustDependencyVisitor::new(file.path.as_str());
                let ghost start = visitor.state(*usage_data);
                let mut i: usize = 0;
                while i < events.len()
                    invariant
                        i <= events.len(),
                        visitor.current_imports.wf(),
                        visitor.file_path@ == file.path@,
                        usage_data.wf(),
                        usage_data.usage_locations.names() == old(
                            usage_data,
                        ).usage_locations.names(),
                        visitor.state(*usage_data) == events_scan(
                            events@,
                            i as nat,
                            file.path@,
                            records(dependencies@),
                            start,
                        ),
                    decreases events.len() - i,
                {
                    visitor.visit_event(&events[i], dependencies, usage_data);
                    i += 1;
                }
            },
            SourceContent::Unparsed(content) => {
                self.analyze_file_simple(
                    content.as_str(),
                    file.path.as_str(),
                    dependencies,
                    usage_data,
                );
            },
        }
    }

    /// Builds the usage index of the project: every declared dependency is
    /// tracked from the start, so that one that is never referenced has an
    /// empty sequence of sites; then the files are scanned in the order
    /// given, those left out that are no Rust source files or have an
    /// excluded path.
    pub fn analyze(&self, dependencies: &Vec<CargoDependency>, files: &Vec<SourceFile>) -> (usage_data:
        DependencyUsageData)
        ensures
            usage_data.wf(),
            usage_data.usage_locations.names() == distinct_names(
                crate::analyzer::metrics::record_names(records(dependencies@)),
            ),
            usage_data.model() == usage_index(records(dependencies@), files@),
    {
        let mut usage_data = DependencyUsageData::new();
        let ghost recs = records(dependencies@);
        let mut i: usize = 0;
        proof {
            assert(recs.take(0) =~= Seq::<DependencyRecord>::empty());
            assert(crate::analyzer::metrics::record_names(recs.take(0)) =~= Seq::<
                Seq<char>,
            >::empty());
            assert(usage_data.model() =~= initial_index(recs.take(0)));
        }
        while i < dependencies.len()
            invariant
                i <= dependencies.len(),
                recs == records(dependencies@),
                usage_data.wf(),
                usage_data.usage_locations.names() == distinct_names(
                    crate::analyzer::metrics::record_names(recs.take(i as int)),
                ),
                usage_data.model() == initial_index(recs.take(i as int)),
            decreases dependencies.len() - i,
        {
            let ghost before = usage_data.model();
            proof {
                let done = recs.take(i as int);
                let next = recs.take(i + 1);
                let names = crate::analyzer::metrics::record_names(next);
                assert(names.drop_last() =~= crate::analyzer::metrics::record_names(done));
                assert(names.last() == dependencies@[i as int]@.name);
                crate::name_map::lemma_distinct_names(crate::analyzer::metrics::record_names(done));
                assert forall|n: Seq<char>|
                    crate::analyzer::metrics::record_names(done).contains(n) == usage_data.tracks(
                        n,
                    ) by {
                }
                assert forall|n: Seq<char>| #[trigger]
                    initial_index(next).dom().contains(n) == before.insert(
                        dependencies@[i as int]@.name,
                        Seq::empty(),
                    ).dom().contains(n) by {
                    if initial_index(next).dom().contains(n) {
                        let k = choose|k: int| 0 <= k < next.len() && #[trigger] next[k].name == n;
                        if k < i {
                            assert(done[k].name == n);
                        }
                    }
                    if before.dom().contains(n) {
                        let k = choose|k: int| 0 <= k < done.len() && #[trigger] done[k].name == n;
                        assert(next[k].name == n);
                    }
                    if n == dependencies@[i as int]@.name {
                        assert(next[i as int].name == n);
                    }
                }
                assert(initial_index(next) =~= before.insert(
                    dependencies@[i as int]@.name,
                    Seq::empty(),
                ));
            }
            usage_data.track(dependencies[i].name.clone());
            i += 1;
        }
        assert(recs.take(dependencies@.len() as int) =~= recs);
        let ghost start = usage_data.model();
        let mut j: usize = 0;
        while j < files.len()
            invariant
                j <= files.len(),
                usage_data.wf(),
                usage_data.usage_locations.names() == distinct_names(
                    crate::analyzer::metrics::record_names(records(dependencies@)),
                ),
                usage_data.model() == files_scan(
                    start,
                    files@,
                    j as nat,
                    records(dependencies@),
                ),
            decreases files.len() - j,
        {
            let path = files[j].path.as_str();
            if !Self::is_excluded(path) && is_rust_source(path) {
                self.analyze_file(&files[j], dependencies, &mut usage_data);
            }
            j += 1;
        }
        usage_data
    }
}

/// `after` tracks the names that `before` tracks, and holds for each of them
/// the sites that `before` holds, in their order, with more sites behind
/// them or none.
pub open spec fn extends(
    before: Map<Seq<char>, Seq<UsageSite>>,
    after: Map<Seq<char>, Seq<UsageSite>>,
) -> bool {
    &&& forall|n: Seq<char>| before.dom().contains(n) <==> after.dom().contains(n)
    &&& forall|n: Seq<char>| before.dom().contains(n) ==> before[n].is_prefix_of(#[trigger] after[n])
}

/// An index extends itself, and extending is transitive.
pub proof fn lemma_extends_chain(
    a: Map<Seq<char>, Seq<UsageSite>>,
    b: Map<Seq<char>, Seq<UsageSite>>,
    c: Map<Seq<char>, Seq<UsageSite>>,
)
    ensures
        extends(a, a),
        extends(a, b) && extends(b, c) ==> extends(a, c),
{
    if extends(a, b) && extends(b, c) {
        assert forall|n: Seq<char>| a.dom().contains(n) implies a[n].is_prefix_of(
            #[trigger] c[n],
        ) by {
            assert(a[n].is_prefix_of(b[n]));
            assert(b[n].is_prefix_of(c[n]));
        }
    }
}

/// Recording a site extends the index.
pub proof fn lemma_record_extends(m: Map<Seq<char>, Seq<UsageSite>>, name: Seq<char>, s: UsageSite)
    ensures
        extends(m, record_site(m, name, s)),
{
    let after = record_site(m, name, s);
    assert forall|n: Seq<char>| m.dom().contains(n) implies m[n].is_prefix_of(
        #[trigger] after[n],
    ) by {
        if n == name {
            assert(m[n] =~= m[n].push(s).subrange(0, m[n].len() as int));
        }
    }
}

/// Noting a usage extends the index.
pub proof fn lemma_note_extends(
    index: Map<Seq<char>, Seq<UsageSite>>,
    deps: Seq<DependencyRecord>,
    crate_name: Seq<char>,
    s: UsageSite,
)
    ensures
        extends(index, note(index, deps, crate_name, s)),
    decreases deps.len(),
{
    if deps.len() == 0 {
        lemma_extends_chain(index, index, index);
    } else {
        let before = note(index, deps.drop_last(), crate_name, s);
        lemma_note_extends(index, deps.drop_last(), crate_name, s);
        if deps.last().name == crate_name {
            lemma_record_extends(before, deps.last().name, s);
            lemma_extends_chain(index, before, note(index, deps, crate_name, s));
        }
    }
}

/// Processing an import tree extends the index.
pub proof fn lemma_use_tree_extends(
    tree: UseTree,
    prefix: Seq<char>,
    line: nat,
    file: Seq<char>,
    deps: Seq<DependencyRecord>,
    st: ScanState,
)
    ensures
        extends(st.index, use_tree_scan(tree, prefix, line, file, deps, st).index),
    decreases tree,
{
    match tree {
        UseTree::Path { ident, tree: rest } => {
            let noted = if prefix.len() == 0 && !leads_to_wildcard(*rest) {
                note(
                    st.index,
                    deps,
                    ident@,
                    site(file, line, ident@ + "::<rest>"@, UsageType::Import),
                )
            } else {
                st.index
            };
            lemma_note_extends(
                st.index,
                deps,
                ident@,
                site(file, line, ident@ + "::<rest>"@, UsageType::Import),
            );
            lemma_extends_chain(st.index, st.index, st.index);
            let mid = ScanState { aliases: st.aliases, index: noted };
            lemma_use_tree_extends(*rest, qualified(prefix, ident@), line, file, deps, mid);
            lemma_extends_chain(
                st.index,
                noted,
                use_tree_scan(tree, prefix, line, file, deps, st).index,
            );
        },
        UseTree::Name { ident } => {
            lemma_note_extends(
                st.index,
                deps,
                crate_of(prefix),
                site(file, line, qualified(prefix, ident@), UsageType::Import),
            );
        },
        UseTree::Rename { ident, rename } => {
            lemma_note_extends(
                st.index,
                deps,
                crate_of(prefix),
                site(
                    file,
                    line,
                    qualified(prefix, ident@) + " as "@ + rename@,
                    UsageType::Import,
                ),
            );
        },
        UseTree::Glob => {
            lemma_note_extends(
                st.index,
                deps,
                crate_of(prefix),
                site(file, line, prefix + "::*"@, UsageType::Import),
            );
        },
        UseTree::Group { items } => {
            lemma_use_group_extends(items@, items@.len(), prefix, line, file, deps, st);
        },
    }
}

/// Processing the items of a group extends the index.
pub proof fn lemma_use_group_extends(
    items: Seq<UseTree>,
    n: nat,
    prefix: Seq<char>,
    line: nat,
    file: Seq<char>,
    deps: Seq<DependencyRecord>,
    st: ScanState,
)
    ensures
        extends(st.index, use_group_scan(items, n, prefix, line, file, deps, st).index),
    decreases items, n,
{
    if n == 0 || n > items.len() {
        lemma_extends_chain(st.index, st.index, st.index);
    } else {
        let before = use_group_scan(items, (n - 1) as nat, prefix, line, file, deps, st);
        lemma_use_group_extends(items, (n - 1) as nat, prefix, line, file, deps, st);
        lemma_use_tree_extends(items[n - 1], prefix, line, file, deps, before);
        lemma_extends_chain(
            st.index,
            before.index,
            use_group_scan(items, n, prefix, line, file, deps, st).index,
        );
    }
}

/// One syntax event extends the index.
pub proof fn lemma_event_extends(
    event: SyntaxEvent,
    file: Seq<char>,
    deps: Seq<DependencyRecord>,
    st: ScanState,
)
    ensures
        extends(st.index, event_scan(event, file, deps, st).index),
{
    lemma_extends_chain(st.index, st.index, st.index);
    match event {
        SyntaxEvent::Use(tree) => {
            lemma_use_tree_extends(tree, Seq::empty(), 0, file, deps, st);
        },
        SyntaxEvent::Macro(path) => {
            if path.segments@.len() > 0 {
                let segment = path.segments@[0].ident@;
                match macro_owner(deps, segment, 0) {
                    Some(at) => {
                        lemma_record_extends(
                            st.index,
                            deps[at].name,
                            site(file, 0, segment + "!"@, UsageType::Macro),
                        );
                    },
                    None => {},
                }
            }
        },
        SyntaxEvent::Path(path) => {
            if path.segments@.len() > 0 {
                let first = path.segments@[0].ident@;
                let direct_site = site(file, 0, path_text(path), path_kind(path));
                let direct = note(st.index, deps, first, direct_site);
                lemma_note_extends(st.index, deps, first, direct_site);
                if st.aliases.dom().contains(first) {
                    let origin = st.aliases[first];
                    let via = site(
                        file,
                        0,
                        path_text(path) + " (from "@ + origin + ")"@,
                        path_kind(path),
                    );
                    lemma_note_extends(direct, deps, crate_of(origin), via);
                    lemma_extends_chain(
                        st.index,
                        direct,
                        note(direct, deps, crate_of(origin), via),
                    );
                }
            }
        },
    }
}

/// The events of a file extend the index.
pub proof fn lemma_events_extend(
    events: Seq<SyntaxEvent>,
    n: nat,
    file: Seq<char>,
    deps: Seq<DependencyRecord>,
    st: ScanState,
)
    ensures
        extends(st.index, events_scan(events, n, file, deps, st).index),
    decreases n,
{
    if n == 0 || n > events.len() {
        lemma_extends_chain(st.index, st.index, st.index);
    } else {
        let before = events_scan(events, (n - 1) as nat, file, deps, st);
        lemma_events_extend(events, (n - 1) as nat, file, deps, st);
        lemma_event_extends(events[n - 1], file, deps, before);
        lemma_extends_chain(st.index, before.index, events_scan(events, n, file, deps, st).index);
    }
}

/// The lines of an unparsed file extend the index.
pub proof fn lemma_lines_extend(
    index: Map<Seq<char>, Seq<UsageSite>>,
    all: Seq<Seq<char>>,
    n: nat,
    file: Seq<char>,
    deps: Seq<DependencyRecord>,
)
    ensures
        extends(index, lines_scan(index, all, n, file, deps)),
    decreases n,
{
    if n == 0 || n > all.len() {
        lemma_extends_chain(index, index, index);
    } else {
        let before = lines_scan(index, all, (n - 1) as nat, file, deps);
        lemma_lines_extend(index, all, (n - 1) as nat, file, deps);
        let line = all[n - 1];
        let rest = strip_prefixes(trim(line), "use "@);
        let after_use = if starts_with(trim(line), "use "@) {
            use_statement_scan(before, line, n, file, deps)
        } else {
            before
        };
        lemma_note_extends(
            before,
            deps,
            crate_of(rest),
            site(file, n, strip_trailing(rest, ';'), UsageType::Import),
        );
        lemma_extends_chain(before, before, before);
        let name = extern_crate_name(line);
        lemma_note_extends(after_use, deps, name, site(file, n, name, UsageType::Import));
        lemma_extends_chain(after_use, after_use, after_use);
        lemma_extends_chain(before, after_use, line_scan(before, line, n, file, deps));
        lemma_extends_chain(index, before, lines_scan(index, all, n, file, deps));
    }
}

/// Scanning files extends the index: no name starts or stops being tracked,
/// and the sites of a name stay as they are, in their order, with the new
/// ones behind them.
pub proof fn lemma_files_extend(
    index: Map<Seq<char>, Seq<UsageSite>>,
    files: Seq<SourceFile>,
    n: nat,
    deps: Seq<DependencyRecord>,
)
    ensures
        extends(index, files_scan(index, files, n, deps)),
    decreases n,
{
    if n == 0 || n > files.len() {
        lemma_extends_chain(index, index, index);
    } else {
        let before = files_scan(index, files, (n - 1) as nat, deps);
        lemma_files_extend(index, files, (n - 1) as nat, deps);
        let file = files[n - 1];
        match file.content {
            SourceContent::Parsed(events) => {
                lemma_events_extend(
                    events@,
                    events@.len(),
                    file.path@,
                    deps,
                    ScanState { aliases: Map::empty(), index: before },
                );
            },
            SourceContent::Unparsed(content) => {
                lemma_lines_extend(
                    before,
                    lines(content@),
                    lines(content@).len(),
                    file.path@,
                    deps,
                );
            },
        }
        lemma_extends_chain(before, before, before);
        lemma_extends_chain(index, before, files_scan(index, files, n, deps));
    }
}

/// The usage index of a project tracks exactly the declared dependencies,
/// whatever the files hold: one that is never referenced has an empty
/// sequence of sites, not none.
pub proof fn lemma_index_tracks_declared(deps: Seq<DependencyRecord>, files: Seq<SourceFile>)
    ensures
        forall|i: int|
            0 <= i < deps.len() ==> usage_index(deps, files).dom().contains(
                (#[trigger] deps[i]).name,
            ),
        forall|n: Seq<char>|
            usage_index(deps, files).dom().contains(n) ==> exists|i: int|
                0 <= i < deps.len() && (#[trigger] deps[i]).name == n,
{
    lemma_files_extend(initial_index(deps), files, files.len(), deps);
    assert forall|i: int| 0 <= i < deps.len() implies usage_index(deps, files).dom().contains(
        (#[trigger] deps[i]).name,
    ) by {
        assert(initial_index(deps).dom().contains(deps[i].name));
    }
    assert forall|n: Seq<char>| usage_index(deps, files).dom().contains(n) implies exists|i: int|
        0 <= i < deps.len() && (#[trigger] deps[i]).name == n by {
        assert(initial_index(deps).dom().contains(n));
    }
}

/// Every site that `index` holds lies in a file of `ok`.
pub open spec fn all_from(index: Map<Seq<char>, Seq<UsageSite>>, ok: Set<Seq<char>>) -> bool {
    forall|n: Seq<char>, i: int|
        index.dom().contains(n) && 0 <= i < index[n].len() ==> ok.contains(
            (#[trigger] index[n][i]).file,
        )
}

/// The paths of the files that are scanned: those that name a Rust source
/// file and are not excluded.
pub open spec fn scanned_paths(files: Seq<SourceFile>) -> Set<Seq<char>> {
    Set::new(
        |p: Seq<char>|
            !excluded(p) && rust_source(p) && exists|k: int|
                0 <= k < files.len() && (#[trigger] files[k]).path@ == p,
    )
}

/// Recording a site in a file of `ok` keeps all sites in files of `ok`.
pub proof fn lemma_record_from(
    m: Map<Seq<char>, Seq<UsageSite>>,
    name: Seq<char>,
    s: UsageSite,
    ok: Set<Seq<char>>,
)
    requires
        all_from(m, ok),
        ok.contains(s.file),
    ensures
        all_from(record_site(m, name, s), ok),
{
    let after = record_site(m, name, s);
    assert forall|n: Seq<char>, i: int|
        after.dom().contains(n) && 0 <= i < after[n].len() implies ok.contains(
        (#[trigger] after[n][i]).file,
    ) by {
        if n == name && m.dom().contains(name) {
            if i < m[n].len() {
                assert(after[n][i] == m[n][i]);
            }
        } else {
            assert(after[n][i] == m[n][i]);
        }
    }
}

/// Noting a usage in a file of `ok` keeps all sites in files of `ok`.
pub proof fn lemma_note_from(
    index: Map<Seq<char>, Seq<UsageSite>>,
    deps: Seq<DependencyRecord>,
    crate_name: Seq<char>,
    s: UsageSite,
    ok: Set<Seq<char>>,
)
    requires
        all_from(index, ok),
        ok.contains(s.file),
    ensures
        all_from(note(index, deps, crate_name, s), ok),
    decreases deps.len(),
{
    if deps.len() > 0 {
        lemma_note_from(index, deps.drop_last(), crate_name, s, ok);
        if deps.last().name == crate_name {
            lemma_record_from(
                note(index, deps.drop_last(), crate_name, s),
                deps.last().name,
                s,
                ok,
            );
        }
    }
}

/// The sites that an import tree records lie in the file that is scanned.
pub proof fn lemma_use_tree_from(
    tree: UseTree,
    prefix: Seq<char>,
    line: nat,
    file: Seq<char>,
    deps: Seq<DependencyRecord>,
    st: ScanState,
    ok: Set<Seq<char>>,
)
    requires
        all_from(st.index, ok),
        ok.contains(file),
    ensures
        all_from(use_tree_scan(tree, prefix, line, file, deps, st).index, ok),
    decreases tree,
{
    match tree {
        UseTree::Path { ident, tree: rest } => {
            let root = site(file, line, ident@ + "::<rest>"@, UsageType::Import);
            lemma_note_from(st.index, deps, ident@, root, ok);
            let noted = if prefix.len() == 0 && !leads_to_wildcard(*rest) {
                note(st.index, deps, ident@, root)
            } else {
                st.index
            };
            let mid = ScanState { aliases: st.aliases, index: noted };
            lemma_use_tree_from(*rest, qualified(prefix, ident@), line, file, deps, mid, ok);
        },
        UseTree::Name { ident } => {
            lemma_note_from(
                st.index,
                deps,
                crate_of(prefix),
                site(file, line, qualified(prefix, ident@), UsageType::Import),
                ok,
            );
        },
        UseTree::Rename { ident, rename } => {
            lemma_note_from(
                st.index,
                deps,
                crate_of(prefix),
                site(
                    file,
                    line,
                    qualified(prefix, ident@) + " as "@ + rename@,
                    UsageType::Import,
                ),
                ok,
            );
        },
        UseTree::Glob => {
            lemma_note_from(
                st.index,
                deps,
                crate_of(prefix),
                site(file, line, prefix + "::*"@, UsageType::Import),
                ok,
            );
        },
        UseTree::Group { items } => {
            lemma_use_group_from(items@, items@.len(), prefix, line, file, deps, st, ok);
        },
    }
}

/// The sites that the items of a group record lie in the file that is
/// scanned.
pub proof fn lemma_use_group_from(
    items: Seq<UseTree>,
    n: nat,
    prefix: Seq<char>,
    line: nat,
    file: Seq<char>,
    deps: Seq<DependencyRecord>,
    st: ScanState,
    ok: Set<Seq<char>>,
)
    requires
        all_from(st.index, ok),
        ok.contains(file),
    ensures
        all_from(use_group_scan(items, n, prefix, line, file, deps, st).index, ok),
    decreases items, n,
{
    if n > 0 && n <= items.len() {
        let before = use_group_scan(items, (n - 1) as nat, prefix, line, file, deps, st);
        lemma_use_group_from(items, (n - 1) as nat, prefix, line, file, deps, st, ok);
        lemma_use_tree_from(items[n - 1], prefix, line, file, deps, before, ok);
    }
}

/// The sites that the events of a file record lie in that file.
pub proof fn lemma_events_from(
    events: Seq<SyntaxEvent>,
    n: nat,
    file: Seq<char>,
    deps: Seq<DependencyRecord>,
    st: ScanState,
    ok: Set<Seq<char>>,
)
    requires
        all_from(st.index, ok),
        ok.contains(file),
    ensures
        all_from(events_scan(events, n, file, deps, st).index, ok),
    decreases n,
{
    if n > 0 && n <= events.len() {
        let before = events_scan(events, (n - 1) as nat, file, deps, st);
        lemma_events_from(events, (n - 1) as nat, file, deps, st, ok);
        match events[n - 1] {
            SyntaxEvent::Use(tree) => {
                lemma_use_tree_from(tree, Seq::empty(), 0, file, deps, before, ok);
            },
            SyntaxEvent::Macro(path) => {
                if path.segments@.len() > 0 {
                    let segment = path.segments@[0].ident@;
                    match macro_owner(deps, segment, 0) {
                        Some(at) => {
                            lemma_record_from(
                                before.index,
                                deps[at].name,
                                site(file, 0, segment + "!"@, UsageType::Macro),
                                ok,
                            );
                        },
                        None => {},
                    }
                }
            },
            SyntaxEvent::Path(path) => {
                if path.segments@.len() > 0 {
                    let first = path.segments@[0].ident@;
                    let direct_site = site(file, 0, path_text(path), path_kind(path));
                    let direct = note(before.index, deps, first, direct_site);
                    lemma_note_from(before.index, deps, first, direct_site, ok);
                    if before.aliases.dom().contains(first) {
                        let origin = before.aliases[first];
                        let via = site(
                            file,
                            0,
                            path_text(path) + " (from "@ + origin + ")"@,
                            path_kind(path),
                        );
                        lemma_note_from(direct, deps, crate_of(origin), via, ok);
                    }
                }
            },
        }
    }
}

/// The sites that the lines of an unparsed file record lie in that file.
pub proof fn lemma_lines_from(
    index: Map<Seq<char>, Seq<UsageSite>>,
    all: Seq<Seq<char>>,
    n: nat,
    file: Seq<char>,
    deps: Seq<DependencyRecord>,
    ok: Set<Seq<char>>,
)
    requires
        all_from(index, ok),
        ok.contains(file),
    ensures
        all_from(lines_scan(index, all, n, file, deps), ok),
    decreases n,
{
    if n > 0 && n <= all.len() {
        let before = lines_scan(index, all, (n - 1) as nat, file, deps);
        lemma_lines_from(index, all, (n - 1) as nat, file, deps, ok);
        let line = all[n - 1];
        let rest = strip_prefixes(trim(line), "use "@);
        lemma_note_from(
            before,
            deps,
            crate_of(rest),
            site(file, n, strip_trailing(rest, ';'), UsageType::Import),
            ok,
        );
        let after_use = if starts_with(trim(line), "use "@) {
            use_statement_scan(before, line, n, file, deps)
        } else {
            before
        };
        let name = extern_crate_name(line);
        lemma_note_from(after_use, deps, name, site(file, n, name, UsageType::Import), ok);
    }
}

/// The sites that scanning files records lie in the files that are scanned.
pub proof fn lemma_files_from(
    index: Map<Seq<char>, Seq<UsageSite>>,
    files: Seq<SourceFile>,
    n: nat,
    deps: Seq<DependencyRecord>,
    ok: Set<Seq<char>>,
)
    requires
        all_from(index, ok),
        n <= files.len(),
        forall|k: int|
            0 <= k < n && !excluded((#[trigger] files[k]).path@) && rust_source(files[k].path@)
                ==> ok.contains(files[k].path@),
    ensures
        all_from(files_scan(index, files, n, deps), ok),
    decreases n,
{
    if n > 0 {
        let before = files_scan(index, files, (n - 1) as nat, deps);
        lemma_files_from(index, files, (n - 1) as nat, deps, ok);
        let file = files[n - 1];
        if !excluded(file.path@) && rust_source(file.path@) {
            match file.content {
                SourceContent::Parsed(events) => {
                    lemma_events_from(
                        events@,
                        events@.len(),
                        file.path@,
                        deps,
                        ScanState { aliases: Map::empty(), index: before },
                        ok,
                    );
                },
                SourceContent::Unparsed(content) => {
                    lemma_lines_from(
                        before,
                        lines(content@),
                        lines(content@).len(),
                        file.path@,
                        deps,
                        ok,
                    );
                },
            }
        }
    }
}

/// Every usage site of the index of a project lies in one of the files
/// given that names a Rust source file and is not excluded.
pub proof fn lemma_sites_come_from_scanned_files(deps: Seq<DependencyRecord>, files: Seq<SourceFile>)
    ensures
        all_from(usage_index(deps, files), scanned_paths(files)),
{
    lemma_files_from(initial_index(deps), files, files.len(), deps, scanned_paths(files));
}

/// Where no declared dependency is named `crate_name`, noting a usage for
/// it changes nothing.
pub proof fn lemma_note_none(
    index: Map<Seq<char>, Seq<UsageSite>>,
    deps: Seq<DependencyRecord>,
    crate_name: Seq<char>,
    s: UsageSite,
)
    requires
        forall|i: int| 0 <= i < deps.len() ==> (#[trigger] deps[i]).name != crate_name,
    ensures
        note(index, deps, crate_name, s) == index,
    decreases deps.len(),
{
    if deps.len() > 0 {
        assert forall|i: int| 0 <= i < deps.drop_last().len() implies (
        #[trigger] deps.drop_last()[i]).name != crate_name by {
            assert(deps.drop_last()[i] == deps[i]);
        }
        lemma_note_none(index, deps.drop_last(), crate_name, s);
        assert(deps[deps.len() - 1].name != crate_name);
    }
}

/// Where exactly one declared dependency is named `crate_name`, the one at
/// position `at`, noting a usage for it records the site once.
pub proof fn lemma_note_once(
    index: Map<Seq<char>, Seq<UsageSite>>,
    deps: Seq<DependencyRecord>,
    crate_name: Seq<char>,
    s: UsageSite,
    at: int,
)
    requires
        0 <= at < deps.len(),
        deps[at].name == crate_name,
        forall|i: int| 0 <= i < deps.len() && i != at ==> (#[trigger] deps[i]).name != crate_name,
    ensures
        note(index, deps, crate_name, s) == record_site(index, crate_name, s),
    decreases deps.len(),
{
    let rest = deps.drop_last();
    if at == deps.len() - 1 {
        assert forall|i: int| 0 <= i < rest.len() implies (#[trigger] rest[i]).name
            != crate_name by {
            assert(rest[i] == deps[i]);
        }
        lemma_note_none(index, rest, crate_name, s);
    } else {
        assert(rest[at] == deps[at]);
        assert forall|i: int| 0 <= i < rest.len() && i != at implies (#[trigger] rest[i]).name
            != crate_name by {
            assert(rest[i] == deps[i]);
        }
        lemma_note_once(index, rest, crate_name, s, at);
        assert(deps[deps.len() - 1].name != crate_name);
    }
}

/// A wildcard import of a crate, `name::*`, records the one site `name::*`
/// for each declared dependency of that name, and binds no name.
pub proof fn lemma_wildcard_import(
    tree: UseTree,
    line: nat,
    file: Seq<char>,
    deps: Seq<DependencyRecord>,
    st: ScanState,
)
    requires
        tree is Path,
        *tree->tree is Glob,
        !contains_text(tree->Path_ident@, "::"@),
    ensures
        use_tree_scan(tree, Seq::empty(), line, file, deps, st) == (ScanState {
            aliases: st.aliases,
            index: note(
                st.index,
                deps,
                tree->Path_ident@,
                site(file, line, tree->Path_ident@ + "::*"@, UsageType::Import),
            ),
        }),
{
    let name = tree->Path_ident@;
    crate::text::lemma_contains_iff_found(name, "::"@);
    assert(crate_of(name) == name);
    assert(qualified(Seq::empty(), name) == name);
    assert(leads_to_wildcard(*tree->tree));
    let rest = *tree->tree;
    assert(use_tree_scan(rest, name, line, file, deps, st) == (ScanState {
        aliases: st.aliases,
        index: note(st.index, deps, crate_of(name), site(file, line, name + "::*"@, UsageType::Import)),
    }));
    assert(use_tree_scan(tree, Seq::empty(), line, file, deps, st) == use_tree_scan(
        rest,
        name,
        line,
        file,
        deps,
        st,
    ));
}

/// Where the index tracks a dependency that is declared once, a wildcard
/// import of it appends exactly one site, `name::*`, to the sites of that
/// dependency and leaves everything else as it is.
pub proof fn lemma_wildcard_import_appends_one_site(
    tree: UseTree,
    line: nat,
    file: Seq<char>,
    deps: Seq<DependencyRecord>,
    st: ScanState,
    at: int,
)
    requires
        tree is Path,
        *tree->tree is Glob,
        !contains_text(tree->Path_ident@, "::"@),
        0 <= at < deps.len(),
        deps[at].name == tree->Path_ident@,
        forall|i: int|
            0 <= i < deps.len() && i != at ==> (#[trigger] deps[i]).name != tree->Path_ident@,
        st.index.dom().contains(tree->Path_ident@),
    ensures
        use_tree_scan(tree, Seq::empty(), line, file, deps, st) == (ScanState {
            aliases: st.aliases,
            index: st.index.insert(
                tree->Path_ident@,
                st.index[tree->Path_ident@].push(
                    site(file, line, tree->Path_ident@ + "::*"@, UsageType::Import),
                ),
            ),
        }),
{
    let name = tree->Path_ident@;
    lemma_wildcard_import(tree, line, file, deps, st);
    lemma_note_once(st.index, deps, name, site(file, line, name + "::*"@, UsageType::Import), at);
}

/// Two scans of the same files for the same dependencies leave the same
/// usage index.
pub proof fn lemma_scan_is_deterministic(
    first: DependencyUsageData,
    second: DependencyUsageData,
    deps: Seq<DependencyRecord>,
    files: Seq<SourceFile>,
)
    requires
        first.model() == usage_index(deps, files),
        second.model() == usage_index(deps, files),
    ensures
        first.model() == second.model(),
        forall|n: Seq<char>| first.tracks(n) == second.tracks(n),
        forall|n: Seq<char>| first.sites_of(n) == second.sites_of(n),
{
    assert forall|n: Seq<char>| first.tracks(n) == second.tracks(n) by {
        assert(first.model().dom().contains(n) == first.tracks(n));
        assert(second.model().dom().contains(n) == second.tracks(n));
    }
    assert forall|n: Seq<char>| first.sites_of(n) == second.sites_of(n) by {
        assert(first.model().dom().contains(n) == first.tracks(n));
        assert(second.model().dom().contains(n) == second.tracks(n));
        if first.tracks(n) {
            assert(first.model()[n] == first.sites_of(n));
            assert(second.model()[n] == second.sites_of(n));
        }
    }
}

} // verus!
