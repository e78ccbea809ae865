//! A parsed query: what to select, where to search, how to filter, group,
//! order, limit and print the results.

use vstd::prelude::*;

use crate::expr::{clone_opt_string, Expr};
use crate::field::Field;
use crate::strings::{str_eq, to_lowercase, unicode_lowercase};

verus! {

#[derive(Debug, PartialEq, Eq, Hash)]
pub struct Query {
    /// File fields to be selected
    pub fields: Vec<Expr>,
    /// Root directories to search
    pub roots: Vec<Root>,
    /// "where" filter expression
    pub expr: Option<Expr>,
    /// Fields to group by
    pub grouping_fields: Vec<Expr>,
    /// Fields to order by
    pub ordering_fields: Vec<Expr>,
    /// Ordering direction (true for asc, false for desc)
    pub ordering_asc: Vec<bool>,
    /// Max amount of results to return
    pub limit: u32,
    /// Number of results to skip
    pub offset: u32,
    /// Output format
    pub output_format: OutputFormat,
    pub raw_query: String,
}

/// A root directory to start the search from, with its traversal options.
#[derive(Debug, Clone, PartialEq, Eq, Hash)]
pub struct Root {
    pub path: String,
    pub options: RootOptions,
}

#[derive(Debug, Clone, PartialEq, Eq, Hash)]
pub struct RootOptions {
    pub min_depth: u32,
    pub max_depth: u32,
    pub archives: bool,
    pub symlinks: bool,
    pub hardlinks: bool,
    pub gitignore: Option<bool>,
    pub hgignore: Option<bool>,
    pub dockerignore: Option<bool>,
    pub traversal: TraversalMode,
    pub regexp: bool,
    pub alias: Option<String>,
}

#[derive(Debug, Clone, Copy, PartialEq, Eq, Hash, Structural)]
pub enum TraversalMode {
    Bfs,
    Dfs,
}

#[derive(Debug, Clone, Copy, PartialEq, Eq, Hash, Structural)]
pub enum OutputFormat {
    Tabs,
    Lines,
    List,
    Csv,
    Json,
    Html,
}

/// The options a root gets when none is written: no depth bounds, no
/// archives, links or ignore files, breadth-first, no regular expression.
pub open spec fn default_root_options() -> RootOptions {
    RootOptions {
        min_depth: 0,
        max_depth: 0,
        archives: false,
        symlinks: false,
        hardlinks: false,
        gitignore: None,
        hgignore: None,
        dockerignore: None,
        traversal: TraversalMode::Bfs,
        regexp: false,
        alias: None,
    }
}

impl RootOptions {
    pub fn new() -> (r: RootOptions)
        ensures
            r == default_root_options(),
    {
        RootOptions {
            min_depth: 0,
            max_depth: 0,
            archives: false,
            symlinks: false,
            hardlinks: false,
            gitignore: None,
            hgignore: None,
            dockerignore: None,
            traversal: TraversalMode::Bfs,
            regexp: false,
            alias: None,
        }
    }

    /// Options with every setting given.
    pub fn from(
        min_depth: u32,
        max_depth: u32,
        archives: bool,
        symlinks: bool,
        hardlinks: bool,
        gitignore: Option<bool>,
        hgignore: Option<bool>,
        dockerignore: Option<bool>,
        traversal: TraversalMode,
        regexp: bool,
        alias: Option<String>,
    ) -> (r: RootOptions)
        ensures
            r == (RootOptions {
                min_depth,
                max_depth,
                archives,
                symlinks,
                hardlinks,
                gitignore,
                hgignore,
                dockerignore,
                traversal,
                regexp,
                alias,
            }),
    {
        RootOptions {
            min_depth,
            max_depth,
            archives,
            symlinks,
            hardlinks,
            gitignore,
            hgignore,
            dockerignore,
            traversal,
            regexp,
            alias,
        }
    }

    /// A copy that is the same value.
    pub fn duplicate(&self) -> (r: RootOptions)
        ensures
            r == *self,
    {
        RootOptions {
            min_depth: self.min_depth,
            max_depth: self.max_depth,
            archives: self.archives,
            symlinks: self.symlinks,
            hardlinks: self.hardlinks,
            gitignore: self.gitignore,
            hgignore: self.hgignore,
            dockerignore: self.dockerignore,
            traversal: self.traversal,
            regexp: self.regexp,
            alias: clone_opt_string(&self.alias),
        }
    }
}

impl Root {
    pub fn new(path: String, options: RootOptions) -> (r: Root)
        ensures
            r == (Root { path, options }),
    {
        Root { path, options }
    }

    /// The current directory `.`, with the given options or the defaults.
    pub fn default(options: Option<RootOptions>) -> (r: Root)
        ensures
            r.path@ == "."@,
            r.options == match options {
                Some(o) => o,
                None => default_root_options(),
            },
    {
        Root {
            path: crate::strings::str_to_string("."),
            options: match options {
                Some(o) => o,
                None => RootOptions::new(),
            },
        }
    }

    /// The same root options on another path.
    pub fn clone_with_path(new_path: String, source: Root) -> (r: Root)
        ensures
            r == (Root { path: new_path, options: source.options }),
    {
        Root { path: new_path, ..source }
    }

    /// A copy that is the same value.
    pub fn duplicate(&self) -> (r: Root)
        ensures
            r == *self,
    {
        Root { path: self.path.clone(), options: self.options.duplicate() }
    }
}

/// The output format that a lower-case spelling names.
pub open spec fn spec_output_format_from_lower(t: Seq<char>) -> Option<OutputFormat> {
    if t == "tabs"@ {
        Some(OutputFormat::Tabs)
    } else if t == "lines"@ {
        Some(OutputFormat::Lines)
    } else if t == "list"@ {
        Some(OutputFormat::List)
    } else if t == "csv"@ {
        Some(OutputFormat::Csv)
    } else if t == "json"@ {
        Some(OutputFormat::Json)
    } else if t == "html"@ {
        Some(OutputFormat::Html)
    } else {
        None
    }
}

impl OutputFormat {
    /// The format a name gives (`tabs`, `lines`, `list`, `csv`, `json`,
    /// `html`), compared after Unicode lower-casing.
    pub fn from(s: &str) -> (r: Option<OutputFormat>)
        ensures
            r == spec_output_format_from_lower(unicode_lowercase(s@)),
    {
        let lower = to_lowercase(s);
        let t = lower.as_str();
        if str_eq(t, "tabs") {
            Some(OutputFormat::Tabs)
        } else if str_eq(t, "lines") {
            Some(OutputFormat::Lines)
        } else if str_eq(t, "list") {
            Some(OutputFormat::List)
        } else if str_eq(t, "csv") {
            Some(OutputFormat::Csv)
        } else if str_eq(t, "json") {
            Some(OutputFormat::Json)
        } else if str_eq(t, "html") {
            Some(OutputFormat::Html)
        } else {
            None
        }
    }

    /// Whether results in this format may carry terminal colours.
    pub fn supports_colorization(&self) -> (r: bool)
        ensures
            r == (*self is Tabs || *self is Lines),
    {
        match self {
            OutputFormat::Tabs | OutputFormat::Lines => true,
            _ => false,
        }
    }
}

pub open spec fn spec_all_fields(s: Seq<Expr>) -> Set<Field>
    decreases s.len(),
{
    if s.len() == 0 {
        Set::empty()
    } else {
        spec_all_fields(s.drop_last()) + crate::expr::spec_required_fields(s.last())
    }
}

impl Query {
    /// The fields that the selected columns read, each once.
    pub fn get_all_fields(&self) -> (r: Vec<Field>)
        ensures
            r@.to_set() == spec_all_fields(self.fields@),
            r@.no_duplicates(),
    {
        let mut result: Vec<Field> = Vec::new();
        let mut i: usize = 0;
        while i < self.fields.len()
            invariant
                i <= self.fields@.len(),
                result@.no_duplicates(),
                result@.to_set() == spec_all_fields(self.fields@.take(i as int)),
            decreases self.fields@.len() - i,
        {
            let f = self.fields[i].get_required_fields();
            crate::expr::extend_unique(&mut result, &f);
            assert(self.fields@.take(i + 1).drop_last() =~= self.fields@.take(i as int));
            i = i + 1;
        }
        assert(self.fields@.take(self.fields@.len() as int) =~= self.fields@);
        result
    }

    /// Whether an ordering was asked for.
    pub fn is_ordered(&self) -> (r: bool)
        ensures
            r == (self.ordering_fields@.len() > 0),
    {
        self.ordering_fields.len() > 0
    }

    /// Whether some selected column calls an aggregate function.
    pub fn has_aggregate_column(&self) -> (r: bool)
        ensures
            r == exists|i: int|
                0 <= i < self.fields@.len() && crate::expr::spec_has_aggregate(
                    #[trigger] self.fields@[i],
                ),
    {
        let mut i: usize = 0;
        while i < self.fields.len()
            invariant
                i <= self.fields@.len(),
                forall|j: int|
                    0 <= j < i ==> !crate::expr::spec_has_aggregate(#[trigger] self.fields@[j]),
            decreases self.fields@.len() - i,
        {
            if self.fields[i].has_aggregate_function() {
                return true;
            }
            i = i + 1;
        }
        false
    }
}

/// Whether a search has to hold its results back before writing them: when
/// they are ordered, aggregated or offset, or the search runs silently (as a
/// subquery does).
pub fn is_buffered(query: &Query, silent_mode: bool) -> (r: bool)
    ensures
        r == (query.ordering_fields@.len() > 0 || (exists|i: int|
            0 <= i < query.fields@.len() && crate::expr::spec_has_aggregate(#[trigger] query.fields@[i]))
            || query.offset > 0 || silent_mode),
{
    query.is_ordered() || query.has_aggregate_column() || query.offset > 0 || silent_mode
}

/// The aliases that the roots of a query declare.
pub open spec fn root_aliases(roots: Seq<Root>) -> Seq<Seq<char>>
    decreases roots.len(),
{
    if roots.len() == 0 {
        Seq::empty()
    } else {
        let rest = root_aliases(roots.drop_last());
        match roots.last().options.alias {
            Some(a) => rest.push(a@),
            None => rest,
        }
    }
}

/// Whether an expression refers to a root alias that is not among `own`,
/// looking into operands, arguments and nested subqueries (whose own roots'
/// aliases count as declared inside them).
pub open spec fn spec_walk_external_alias(e: Expr, own: Seq<Seq<char>>) -> bool
    decreases e, 1int,
{
    (e.root_alias matches Some(a) && !own.contains(a@))
    || (e.left matches Some(l) && spec_walk_external_alias(*l, own))
    || (e.right matches Some(r) && spec_walk_external_alias(*r, own))
    || (e.args matches Some(a) && spec_any_walk_external_alias(a@, own))
    || (e.subquery matches Some(sub) && (sub.expr matches Some(se)
        && spec_walk_external_alias(se, root_aliases(sub.roots@) + own)))
}

pub open spec fn spec_any_walk_external_alias(s: Seq<Expr>, own: Seq<Seq<char>>) -> bool
    decreases s, 0int,
{
    if s.len() == 0 {
        false
    } else {
        spec_walk_external_alias(s[0], own) || spec_any_walk_external_alias(s.drop_first(), own)
    }
}

/// A subquery can be computed once and reused when neither its condition nor
/// its columns refer to a root alias that its own roots do not declare.
pub open spec fn spec_is_subquery_cacheable(q: Query) -> bool {
    let own = root_aliases(q.roots@);
    !(q.expr matches Some(e) && spec_walk_external_alias(e, own))
    && forall|i: int| 0 <= i < q.fields@.len() ==> !spec_walk_external_alias(#[trigger] q.fields@[i], own)
}

fn collect_root_aliases(roots: &Vec<Root>, mut acc: Vec<String>) -> (r: Vec<String>)
    ensures
        r@.map_values(|s: String| s@) == root_aliases(roots@) + acc@.map_values(|s: String| s@),
{
    let ghost acc0 = acc@.map_values(|s: String| s@);
    let mut found: Vec<String> = Vec::new();
    let mut i: usize = 0;
    while i < roots.len()
        invariant
            i <= roots@.len(),
            found@.map_values(|s: String| s@) == root_aliases(roots@.take(i as int)),
        decreases roots@.len() - i,
    {
        assert(roots@.take(i + 1).drop_last() =~= roots@.take(i as int));
        if let Some(ref a) = roots[i].options.alias {
            let ghost before = found@;
            found.push(a.clone());
            assert(found@.map_values(|s: String| s@) =~= before.map_values(|s: String| s@).push(a@));
        }
        i = i + 1;
    }
    assert(roots@.take(roots@.len() as int) =~= roots@);
    let ghost f0 = found@;
    let mut j: usize = 0;
    while j < acc.len()
        invariant
            j <= acc@.len(),
            found@ == f0 + acc@.take(j as int),
        decreases acc@.len() - j,
    {
        found.push(acc[j].clone());
        assert(found@ =~= f0 + acc@.take(j + 1));
        j = j + 1;
    }
    assert(acc@.take(acc@.len() as int) =~= acc@);
    assert(found@.map_values(|s: String| s@) =~= f0.map_values(|s: String| s@) + acc@.map_values(|s: String| s@));
    found
}

fn contains_alias(own: &Vec<String>, a: &String) -> (r: bool)
    ensures
        r == own@.map_values(|s: String| s@).contains(a@),
{
    let mut i: usize = 0;
    while i < own.len()
        invariant
            i <= own@.len(),
            forall|j: int| 0 <= j < i ==> own@[j]@ != a@,
        decreases own@.len() - i,
    {
        if str_eq(own[i].as_str(), a.as_str()) {
            assert(own@.map_values(|s: String| s@)[i as int] == a@);
            return true;
        }
        i = i + 1;
    }
    proof {
        if own@.map_values(|s: String| s@).contains(a@) {
            let k = choose|k: int| #![trigger own@[k]] 0 <= k < own@.len() && own@.map_values(|s: String| s@)[k] == a@;
            assert(own@[k]@ == a@);
        }
    }
    false
}

/// Whether a subquery's result depends on the outer row only through
/// aliases it declares itself, so that it can be memoised.
pub fn is_subquery_cacheable(query: &Query) -> (r: bool)
    ensures
        r == spec_is_subquery_cacheable(*query),
{
    let own = collect_root_aliases(&query.roots, Vec::new());
    let ghost ownv = own@.map_values(|s: String| s@);
    assert(ownv =~= root_aliases(query.roots@));
    if expr_references_external_alias(&query.expr, &own) {
        return false;
    }
    let mut i: usize = 0;
    while i < query.fields.len()
        invariant
            i <= query.fields@.len(),
            ownv == own@.map_values(|s: String| s@),
            ownv == root_aliases(query.roots@),
            !(query.expr matches Some(e) && spec_walk_external_alias(e, ownv)),
            forall|j: int| 0 <= j < i ==> !spec_walk_external_alias(#[trigger] query.fields@[j], ownv),
        decreases query.fields@.len() - i,
    {
        if expr_walk_external_alias(&query.fields[i], &own) {
            assert(spec_walk_external_alias(query.fields@[i as int], ownv));
            return false;
        }
        i = i + 1;
    }
    true
}

/// Whether an optional condition refers to an alias outside `own`.
pub fn expr_references_external_alias(expr: &Option<Expr>, own: &Vec<String>) -> (r: bool)
    ensures
        r == (*expr matches Some(e) && spec_walk_external_alias(e, own@.map_values(|s: String| s@))),
{
    match expr {
        Some(e) => expr_walk_external_alias(e, own),
        None => false,
    }
}

/// Whether an expression refers to an alias outside `own` (see
/// `spec_walk_external_alias`).
pub fn expr_walk_external_alias(expr: &Expr, own: &Vec<String>) -> (r: bool)
    ensures
        r == spec_walk_external_alias(*expr, own@.map_values(|s: String| s@)),
    decreases *expr, 1int,
{
    if let Some(ref alias) = expr.root_alias {
        if !contains_alias(own, alias) {
            return true;
        }
    }
    if let Some(ref left) = expr.left {
        if expr_walk_external_alias(left, own) {
            return true;
        }
    }
    if let Some(ref right) = expr.right {
        if expr_walk_external_alias(right, own) {
            return true;
        }
    }
    if let Some(ref args) = expr.args {
        if any_walk_external_alias(args, 0, own) {
            assert(args@.skip(0) =~= args@);
            return true;
        }
        assert(args@.skip(0) =~= args@);
    }
    if let Some(ref sub) = expr.subquery {
        if let Some(ref sub_expr) = sub.expr {
            let mut own_copy: Vec<String> = Vec::new();
            let mut k: usize = 0;
            while k < own.len()
                invariant
                    k <= own@.len(),
                    own_copy@ == own@.take(k as int),
                decreases own@.len() - k,
            {
                own_copy.push(own[k].clone());
                assert(own_copy@ =~= own@.take(k + 1));
                k = k + 1;
            }
            assert(own@.take(own@.len() as int) =~= own@);
            let nested_own = collect_root_aliases(&sub.roots, own_copy);
            if expr_walk_external_alias(sub_expr, &nested_own) {
                return true;
            }
        }
    }
    false
}

fn any_walk_external_alias(args: &Vec<Expr>, i: usize, own: &Vec<String>) -> (r: bool)
    requires
        i <= args@.len(),
    ensures
        r == spec_any_walk_external_alias(args@.skip(i as int), own@.map_values(|s: String| s@)),
    decreases args@, 0int, args@.len() - i,
{
    if i >= args.len() {
        return false;
    }
    assert(args@.skip(i as int).drop_first() =~= args@.skip(i + 1));
    if expr_walk_external_alias(&args[i], own) {
        return true;
    }
    any_walk_external_alias(args, i + 1, own)
}

} // verus!
