//! Sparse-checkout commands of the corpus tool: the filters and patterns
//! they build, and the steps each command performs in order.
use vstd::prelude::*;
use crate::text::decimal;

verus! {

/// A sparse-checkout filter.
#[derive(Debug, Clone)]
pub enum FilterSpec {
    /// Match files by glob pattern.
    Pattern(String),
    /// Match by file extension/format.
    Format(String),
    /// Match by category directory name.
    Category(String),
}

/// What a filter holds.
pub enum FilterView {
    Pattern(Seq<char>),
    Format(Seq<char>),
    Category(Seq<char>),
}

impl View for FilterSpec {
    type V = FilterView;

    open spec fn view(&self) -> FilterView {
        match self {
            FilterSpec::Pattern(p) => FilterView::Pattern(p@),
            FilterSpec::Format(f) => FilterView::Format(f@),
            FilterSpec::Category(c) => FilterView::Category(c@),
        }
    }
}

/// `s` without its leading '.' characters.
pub open spec fn trim_leading_dots(s: Seq<char>) -> Seq<char>
    decreases s.len(),
{
    if s.len() > 0 && s[0] == '.' { trim_leading_dots(s.drop_first()) } else { s }
}

/// The git sparse-checkout patterns of a filter: a pattern stands for
/// itself; a format for "**/*.{ext}" (leading dots of the extension
/// dropped); a category for "**/{cat}/", "**/{cat}/**", "{cat}/" and
/// "{cat}/**".
pub open spec fn spec_filter_patterns(f: FilterView) -> Seq<Seq<char>> {
    match f {
        FilterView::Pattern(p) => seq![p],
        FilterView::Format(e) => seq!["**/*."@ + trim_leading_dots(e)],
        FilterView::Category(c) => seq![
            "**/"@ + c + "/"@,
            "**/"@ + c + "/**"@,
            c + "/"@,
            c + "/**"@,
        ],
    }
}

/// The views of a sequence of strings.
pub open spec fn strings_view(v: Seq<String>) -> Seq<Seq<char>> {
    v.map_values(|s: String| s@)
}

/// Calls `SparseFilter::to_patterns` of codec-eval on the filter; its source
/// maps each filter to the patterns that `spec_filter_patterns` lists.
#[verifier::external_body]
pub(crate) fn filter_patterns(f: &FilterSpec) -> (r: Vec<String>)
    ensures
        strings_view(r@) == spec_filter_patterns(f@),
{
    let filter = match f {
        FilterSpec::Pattern(p) => codec_eval::corpus::sparse::SparseFilter::Pattern(p.clone()),
        FilterSpec::Format(e) => codec_eval::corpus::sparse::SparseFilter::Format(e.clone()),
        FilterSpec::Category(c) => codec_eval::corpus::sparse::SparseFilter::Category(c.clone()),
    };
    filter.to_patterns()
}

/// The views of a sequence of filters.
pub open spec fn filters_view(v: Seq<FilterSpec>) -> Seq<FilterView> {
    v.map_values(|f: FilterSpec| f@)
}

/// The filters of a command: one pattern filter per pattern, then one
/// format filter per format, then one category filter per category.
pub open spec fn spec_filters(patterns: Seq<Seq<char>>, formats: Seq<Seq<char>>, categories: Seq<Seq<char>>) -> Seq<FilterView> {
    patterns.map_values(|p: Seq<char>| FilterView::Pattern(p))
        + formats.map_values(|f: Seq<char>| FilterView::Format(f))
        + categories.map_values(|c: Seq<char>| FilterView::Category(c))
}

/// Which kind of filter a list of names becomes.
#[derive(Clone, Copy, PartialEq, Eq, Structural)]
pub enum FilterKind {
    Pattern,
    Format,
    Category,
}

/// The filter of one kind for one name.
pub open spec fn make_filter(kind: FilterKind, s: Seq<char>) -> FilterView {
    match kind {
        FilterKind::Pattern => FilterView::Pattern(s),
        FilterKind::Format => FilterView::Format(s),
        FilterKind::Category => FilterView::Category(s),
    }
}

fn push_filters(out: &mut Vec<FilterSpec>, names: &Vec<String>, kind: FilterKind)
    ensures
        filters_view(final(out)@) == filters_view(old(out)@) + strings_view(names@).map_values(|s: Seq<char>| make_filter(kind, s)),
{
    let ghost start = old(out)@;
    let mut i: usize = 0;
    while i < names.len()
        invariant
            i <= names@.len(),
            filters_view(out@) == filters_view(start) + strings_view(names@).subrange(0, i as int).map_values(|s: Seq<char>| make_filter(kind, s)),
        decreases names@.len() - i,
    {
        let name = names[i].clone();
        let f = match kind {
            FilterKind::Pattern => FilterSpec::Pattern(name),
            FilterKind::Format => FilterSpec::Format(name),
            FilterKind::Category => FilterSpec::Category(name),
        };
        let ghost before = out@;
        out.push(f);
        proof {
            assert(filters_view(out@) =~= filters_view(before).push(make_filter(kind, names@[i as int]@)));
            assert(strings_view(names@).subrange(0, i + 1).map_values(|s: Seq<char>| make_filter(kind, s))
                =~= strings_view(names@).subrange(0, i as int).map_values(|s: Seq<char>| make_filter(kind, s))
                    .push(make_filter(kind, names@[i as int]@)));
        }
        i = i + 1;
    }
    assert(strings_view(names@).subrange(0, i as int) =~= strings_view(names@));
}

/// Build the filters of a command from its patterns, formats and categories.
pub fn build_filters(patterns: &Vec<String>, formats: &Vec<String>, categories: &Vec<String>) -> (r: Vec<FilterSpec>)
    ensures
        filters_view(r@) == spec_filters(strings_view(patterns@), strings_view(formats@), strings_view(categories@)),
{
    let mut out: Vec<FilterSpec> = Vec::new();
    push_filters(&mut out, patterns, FilterKind::Pattern);
    push_filters(&mut out, formats, FilterKind::Format);
    push_filters(&mut out, categories, FilterKind::Category);
    assert(filters_view(out@) =~= spec_filters(strings_view(patterns@), strings_view(formats@), strings_view(categories@)));
    out
}

/// The concatenation of the patterns of every filter in `fs`.
pub open spec fn all_filter_patterns(fs: Seq<FilterView>) -> Seq<Seq<char>>
    decreases fs.len(),
{
    if fs.len() == 0 {
        Seq::empty()
    } else {
        all_filter_patterns(fs.drop_last()) + spec_filter_patterns(fs.last())
    }
}

/// The patterns that a preview checks: the given patterns, then the
/// patterns of each format, then those of each category.
pub open spec fn spec_preview_patterns(patterns: Seq<Seq<char>>, formats: Seq<Seq<char>>, categories: Seq<Seq<char>>) -> Seq<Seq<char>> {
    patterns + all_filter_patterns(formats.map_values(|f: Seq<char>| FilterView::Format(f)))
        + all_filter_patterns(categories.map_values(|c: Seq<char>| FilterView::Category(c)))
}

fn append_filter_patterns(out: &mut Vec<String>, names: &Vec<String>, kind: FilterKind)
    ensures
        strings_view(final(out)@) == strings_view(old(out)@)
            + all_filter_patterns(strings_view(names@).map_values(|s: Seq<char>| make_filter(kind, s))),
{
    let ghost start = old(out)@;
    let mut i: usize = 0;
    while i < names.len()
        invariant
            i <= names@.len(),
            strings_view(out@) == strings_view(start)
                + all_filter_patterns(strings_view(names@).subrange(0, i as int).map_values(|s: Seq<char>| make_filter(kind, s))),
        decreases names@.len() - i,
    {
        let name = names[i].clone();
        let f = match kind {
            FilterKind::Pattern => FilterSpec::Pattern(name),
            FilterKind::Format => FilterSpec::Format(name),
            FilterKind::Category => FilterSpec::Category(name),
        };
        let mut pats = filter_patterns(&f);
        let ghost before = out@;
        let ghost added = pats@;
        out.append(&mut pats);
        proof {
            let fs = strings_view(names@).subrange(0, i + 1).map_values(|s: Seq<char>| make_filter(kind, s));
            let prev = strings_view(names@).subrange(0, i as int).map_values(|s: Seq<char>| make_filter(kind, s));
            assert(fs.drop_last() =~= prev);
            assert(fs.last() == f@);
            assert(strings_view(out@) =~= strings_view(before) + strings_view(added));
        }
        i = i + 1;
    }
    assert(strings_view(names@).subrange(0, i as int) =~= strings_view(names@));
}

/// All patterns that a preview checks.
pub fn preview_pattern_list(patterns: &Vec<String>, formats: &Vec<String>, categories: &Vec<String>) -> (r: Vec<String>)
    ensures
        strings_view(r@) == spec_preview_patterns(strings_view(patterns@), strings_view(formats@), strings_view(categories@)),
{
    let mut out: Vec<String> = patterns.clone();
    assert(strings_view(out@) =~= strings_view(patterns@)) by {
        assert forall|k: int| 0 <= k < out@.len() implies out@[k]@ == patterns@[k]@ by {
            assert(vstd::pervasive::cloned(patterns@[k], out@[k]));
        }
    }
    append_filter_patterns(&mut out, formats, FilterKind::Format);
    append_filter_patterns(&mut out, categories, FilterKind::Category);
    proof {
        assert(strings_view(formats@).map_values(|s: Seq<char>| make_filter(FilterKind::Format, s))
            =~= strings_view(formats@).map_values(|f: Seq<char>| FilterView::Format(f)));
        assert(strings_view(categories@).map_values(|s: Seq<char>| make_filter(FilterKind::Category, s))
            =~= strings_view(categories@).map_values(|c: Seq<char>| FilterView::Category(c)));
    }
    out
}


/// Sparse-checkout commands.
pub enum SparseAction {
    /// Clone a repository with sparse checkout.
    Clone {
        url: String,
        target: String,
        depth: Option<u32>,
        include_paths: Vec<String>,
        format: Vec<String>,
        category: Vec<String>,
    },
    /// Initialize sparse checkout in an existing repo.
    Init { path: String },
    /// Add paths/patterns to sparse checkout.
    Add { path: String, patterns: Vec<String>, format: Vec<String>, category: Vec<String> },
    /// Set sparse checkout paths (replaces existing).
    SetPatterns { path: String, patterns: Vec<String>, format: Vec<String>, category: Vec<String> },
    /// Show sparse checkout status.
    Status { path: String },
    /// List current sparse checkout patterns.
    List { path: String },
    /// Preview what files would match patterns.
    Preview { path: String, patterns: Vec<String>, format: Vec<String>, category: Vec<String> },
    /// Disable sparse checkout (get all files).
    Disable { path: String },
    /// Fetch and checkout sparse files.
    Fetch { path: String },
}

/// What a sparse-checkout command holds.
pub enum SparseActionView {
    Clone {
        url: Seq<char>,
        target: Seq<char>,
        depth: Option<u32>,
        include_paths: Seq<Seq<char>>,
        format: Seq<Seq<char>>,
        category: Seq<Seq<char>>,
    },
    Init { path: Seq<char> },
    Add { path: Seq<char>, patterns: Seq<Seq<char>>, format: Seq<Seq<char>>, category: Seq<Seq<char>> },
    SetPatterns { path: Seq<char>, patterns: Seq<Seq<char>>, format: Seq<Seq<char>>, category: Seq<Seq<char>> },
    Status { path: Seq<char> },
    List { path: Seq<char> },
    Preview { path: Seq<char>, patterns: Seq<Seq<char>>, format: Seq<Seq<char>>, category: Seq<Seq<char>> },
    Disable { path: Seq<char> },
    Fetch { path: Seq<char> },
}

impl View for SparseAction {
    type V = SparseActionView;

    open spec fn view(&self) -> SparseActionView {
        match self {
            SparseAction::Clone { url, target, depth, include_paths, format, category } => SparseActionView::Clone {
                url: url@,
                target: target@,
                depth: *depth,
                include_paths: strings_view(include_paths@),
                format: strings_view(format@),
                category: strings_view(category@),
            },
            SparseAction::Init { path } => SparseActionView::Init { path: path@ },
            SparseAction::Add { path, patterns, format, category } => SparseActionView::Add {
                path: path@,
                patterns: strings_view(patterns@),
                format: strings_view(format@),
                category: strings_view(category@),
            },
            SparseAction::SetPatterns { path, patterns, format, category } => SparseActionView::SetPatterns {
                path: path@,
                patterns: strings_view(patterns@),
                format: strings_view(format@),
                category: strings_view(category@),
            },
            SparseAction::Status { path } => SparseActionView::Status { path: path@ },
            SparseAction::List { path } => SparseActionView::List { path: path@ },
            SparseAction::Preview { path, patterns, format, category } => SparseActionView::Preview {
                path: path@,
                patterns: strings_view(patterns@),
                format: strings_view(format@),
                category: strings_view(category@),
            },
            SparseAction::Disable { path } => SparseActionView::Disable { path: path@ },
            SparseAction::Fetch { path } => SparseActionView::Fetch { path: path@ },
        }
    }
}

/// How a command reports the repository status once it is done.
#[derive(Clone, Copy, PartialEq, Eq, Structural)]
pub enum StatusReport {
    /// "Cloned to: ...", the files checked out and the total.
    Cloned,
    /// "Sparse checkout updated", the pattern count and the files checked out.
    Updated,
    /// "Files now checked out: ...".
    FilesNow,
    /// The full status: enabled, patterns, files, percentage, remote.
    Full,
    /// "Fetch complete" and the files checked out.
    Fetched,
}

/// One step of a sparse-checkout command.
pub enum SparseStep {
    /// Clone `url` into `target`, shallow with the given depth if there is one.
    CloneRepo { url: String, target: String, depth: Option<u32> },
    /// Initialize sparse checkout in the repository at `path`.
    InitRepo { path: String },
    /// Open the repository at `path`.
    OpenRepo { path: String },
    /// Replace the sparse-checkout filters.
    SetFilters(Vec<FilterSpec>),
    /// Add patterns to the sparse checkout.
    AddPaths(Vec<String>),
    /// Add one filter to the sparse checkout.
    AddFilter(FilterSpec),
    /// Re-apply the sparse checkout.
    Reapply,
    /// Check the files out.
    Checkout,
    /// Fetch from the remote.
    Fetch,
    /// Disable sparse checkout.
    Disable,
    /// Print the configured patterns.
    ListPatterns,
    /// Print the files of the repository at `path` that the patterns match.
    Preview { path: String, patterns: Vec<String> },
    /// Print a line.
    Say(String),
    /// Report the status.
    Report(StatusReport),
}

/// What a step holds.
pub enum StepView {
    CloneRepo { url: Seq<char>, target: Seq<char>, depth: Option<u32> },
    InitRepo { path: Seq<char> },
    OpenRepo { path: Seq<char> },
    SetFilters(Seq<FilterView>),
    AddPaths(Seq<Seq<char>>),
    AddFilter(FilterView),
    Reapply,
    Checkout,
    Fetch,
    Disable,
    ListPatterns,
    Preview { path: Seq<char>, patterns: Seq<Seq<char>> },
    Say(Seq<char>),
    Report(StatusReport),
}

impl View for SparseStep {
    type V = StepView;

    open spec fn view(&self) -> StepView {
        match self {
            SparseStep::CloneRepo { url, target, depth } => StepView::CloneRepo { url: url@, target: target@, depth: *depth },
            SparseStep::InitRepo { path } => StepView::InitRepo { path: path@ },
            SparseStep::OpenRepo { path } => StepView::OpenRepo { path: path@ },
            SparseStep::SetFilters(v) => StepView::SetFilters(filters_view(v@)),
            SparseStep::AddPaths(v) => StepView::AddPaths(strings_view(v@)),
            SparseStep::AddFilter(f) => StepView::AddFilter(f@),
            SparseStep::Reapply => StepView::Reapply,
            SparseStep::Checkout => StepView::Checkout,
            SparseStep::Fetch => StepView::Fetch,
            SparseStep::Disable => StepView::Disable,
            SparseStep::ListPatterns => StepView::ListPatterns,
            SparseStep::Preview { path, patterns } => StepView::Preview { path: path@, patterns: strings_view(patterns@) },
            SparseStep::Say(s) => StepView::Say(s@),
            SparseStep::Report(r) => StepView::Report(*r),
        }
    }
}

/// The views of a sequence of steps.
pub open spec fn steps_view(v: Seq<SparseStep>) -> Seq<StepView> {
    v.map_values(|s: SparseStep| s@)
}

/// The message printed when a command has nothing to work with.
pub open spec fn no_patterns_message() -> Seq<char> {
    "No patterns specified. Use patterns, --format, or --category."@
}

/// The steps of an "add" command after opening the repository: the patterns
/// (if any) in one step, then one step per format and per category filter,
/// then the count of what was added, a re-apply and the file count.
pub open spec fn spec_add_steps(patterns: Seq<Seq<char>>, formats: Seq<Seq<char>>, categories: Seq<Seq<char>>) -> Seq<StepView> {
    let added = (if patterns.len() > 0 { patterns.len() } else { 0 }) + formats.len() + categories.len();
    (if patterns.len() > 0 { seq![StepView::AddPaths(patterns)] } else { Seq::empty() })
        + formats.map_values(|f: Seq<char>| StepView::AddFilter(FilterView::Format(f)))
        + categories.map_values(|c: Seq<char>| StepView::AddFilter(FilterView::Category(c)))
        + seq![
            StepView::Say("Added "@ + decimal(added as nat) + " patterns"@),
            StepView::Reapply,
            StepView::Report(StatusReport::FilesNow),
        ]
}

/// The steps that running a sparse-checkout command performs, in order.
pub open spec fn spec_run(action: SparseActionView) -> Seq<StepView> {
    match action {
        SparseActionView::Clone { url, target, depth, include_paths, format, category } => {
            let filters = spec_filters(include_paths, format, category);
            seq![StepView::CloneRepo { url, target, depth }]
                + (if filters.len() > 0 { seq![StepView::SetFilters(filters)] } else { Seq::empty() })
                + seq![StepView::Checkout, StepView::Report(StatusReport::Cloned)]
        },
        SparseActionView::Init { path } => seq![
            StepView::InitRepo { path },
            StepView::Say("Sparse checkout initialized in "@ + path),
        ],
        SparseActionView::Add { path, patterns, format, category } =>
            seq![StepView::OpenRepo { path }] + spec_add_steps(patterns, format, category),
        SparseActionView::SetPatterns { path, patterns, format, category } => {
            let filters = spec_filters(patterns, format, category);
            if filters.len() == 0 {
                seq![StepView::OpenRepo { path }, StepView::Say(no_patterns_message())]
            } else {
                seq![
                    StepView::OpenRepo { path },
                    StepView::SetFilters(filters),
                    StepView::Report(StatusReport::Updated),
                ]
            }
        },
        SparseActionView::Status { path } => seq![StepView::OpenRepo { path }, StepView::Report(StatusReport::Full)],
        SparseActionView::List { path } => seq![StepView::OpenRepo { path }, StepView::ListPatterns],
        SparseActionView::Preview { path, patterns, format, category } => {
            let all = spec_preview_patterns(patterns, format, category);
            if all.len() == 0 {
                seq![StepView::Say(no_patterns_message())]
            } else {
                seq![StepView::Preview { path, patterns: all }]
            }
        },
        SparseActionView::Disable { path } => seq![
            StepView::OpenRepo { path },
            StepView::Disable,
            StepView::Say("Sparse checkout disabled. All files will be checked out."@),
        ],
        SparseActionView::Fetch { path } => seq![
            StepView::OpenRepo { path },
            StepView::Fetch,
            StepView::Checkout,
            StepView::Report(StatusReport::Fetched),
        ],
    }
}

fn push_step(out: &mut Vec<SparseStep>, step: SparseStep)
    ensures
        steps_view(final(out)@) == steps_view(old(out)@).push(step@),
{
    let ghost v = step@;
    out.push(step);
    assert(steps_view(out@) =~= steps_view(old(out)@).push(v));
}

fn strings_clone(v: &Vec<String>) -> (r: Vec<String>)
    ensures
        strings_view(r@) == strings_view(v@),
{
    let r = v.clone();
    assert(strings_view(r@) =~= strings_view(v@)) by {
        assert forall|k: int| 0 <= k < v@.len() implies r@[k]@ == v@[k]@ by {
            assert(vstd::pervasive::cloned(v@[k], r@[k]));
        }
    }
    r
}

fn push_filter_steps(out: &mut Vec<SparseStep>, names: &Vec<String>, kind: FilterKind)
    requires
        kind != FilterKind::Pattern,
    ensures
        steps_view(final(out)@) == steps_view(old(out)@)
            + strings_view(names@).map_values(|s: Seq<char>| StepView::AddFilter(make_filter(kind, s))),
{
    let ghost start = steps_view(out@);
    let mut i: usize = 0;
    while i < names.len()
        invariant
            i <= names@.len(),
            steps_view(out@) == start
                + strings_view(names@).subrange(0, i as int).map_values(|s: Seq<char>| StepView::AddFilter(make_filter(kind, s))),
        decreases names@.len() - i,
    {
        let name = names[i].clone();
        let f = match kind {
            FilterKind::Pattern => FilterSpec::Pattern(name),
            FilterKind::Format => FilterSpec::Format(name),
            FilterKind::Category => FilterSpec::Category(name),
        };
        push_step(out, SparseStep::AddFilter(f));
        assert(strings_view(names@).subrange(0, i + 1).map_values(|s: Seq<char>| StepView::AddFilter(make_filter(kind, s)))
            =~= strings_view(names@).subrange(0, i as int).map_values(|s: Seq<char>| StepView::AddFilter(make_filter(kind, s)))
                .push(StepView::AddFilter(make_filter(kind, names@[i as int]@))));
        i = i + 1;
    }
    assert(strings_view(names@).subrange(0, i as int) =~= strings_view(names@));
}

fn add_steps(out: &mut Vec<SparseStep>, patterns: &Vec<String>, formats: &Vec<String>, categories: &Vec<String>)
    ensures
        steps_view(final(out)@) == steps_view(old(out)@)
            + spec_add_steps(strings_view(patterns@), strings_view(formats@), strings_view(categories@)),
{
    let ghost start = steps_view(out@);
    let ghost pv = strings_view(patterns@);
    let ghost fv = strings_view(formats@);
    let ghost cv = strings_view(categories@);
    let mut added: u128 = 0;
    if patterns.len() > 0 {
        push_step(out, SparseStep::AddPaths(strings_clone(patterns)));
        added = patterns.len() as u128;
    }
    let ghost mid = steps_view(out@);
    assert(mid == start + (if pv.len() > 0 { seq![StepView::AddPaths(pv)] } else { Seq::empty() }));
    push_filter_steps(out, formats, FilterKind::Format);
    push_filter_steps(out, categories, FilterKind::Category);
    added = added + formats.len() as u128 + categories.len() as u128;
    let mut s = String::from_str("Added ");
    crate::text::push_decimal(&mut s, added);
    s.append(" patterns");
    push_step(out, SparseStep::Say(s));
    push_step(out, SparseStep::Reapply);
    push_step(out, SparseStep::Report(StatusReport::FilesNow));
    proof {
        assert(fv.map_values(|s: Seq<char>| StepView::AddFilter(make_filter(FilterKind::Format, s)))
            =~= fv.map_values(|f: Seq<char>| StepView::AddFilter(FilterView::Format(f))));
        assert(cv.map_values(|s: Seq<char>| StepView::AddFilter(make_filter(FilterKind::Category, s)))
            =~= cv.map_values(|c: Seq<char>| StepView::AddFilter(FilterView::Category(c))));
        assert(steps_view(out@) =~= start + spec_add_steps(pv, fv, cv));
    }
}

fn open_step(path: &String) -> (r: SparseStep)
    ensures
        r@ == (StepView::OpenRepo { path: path@ }),
{
    SparseStep::OpenRepo { path: path.clone() }
}

/// The steps that running a sparse-checkout command performs, in order; an
/// executor performs them one by one and stops at the first that fails.
pub fn run(action: &SparseAction) -> (r: Vec<SparseStep>)
    ensures
        steps_view(r@) == spec_run(action@),
{
    let mut out: Vec<SparseStep> = Vec::new();
    match action {
        SparseAction::Clone { url, target, depth, include_paths, format, category } => {
            push_step(&mut out, SparseStep::CloneRepo { url: url.clone(), target: target.clone(), depth: *depth });
            let filters = build_filters(include_paths, format, category);
            if filters.len() > 0 {
                push_step(&mut out, SparseStep::SetFilters(filters));
            }
            push_step(&mut out, SparseStep::Checkout);
            push_step(&mut out, SparseStep::Report(StatusReport::Cloned));
        },
        SparseAction::Init { path } => {
            push_step(&mut out, SparseStep::InitRepo { path: path.clone() });
            let mut s = String::from_str("Sparse checkout initialized in ");
            s.append(path.as_str());
            push_step(&mut out, SparseStep::Say(s));
        },
        SparseAction::Add { path, patterns, format, category } => {
            push_step(&mut out, open_step(path));
            add_steps(&mut out, patterns, format, category);
        },
        SparseAction::SetPatterns { path, patterns, format, category } => {
            push_step(&mut out, open_step(path));
            let filters = build_filters(patterns, format, category);
            if filters.len() == 0 {
                push_step(&mut out, SparseStep::Say(String::from_str("No patterns specified. Use patterns, --format, or --category.")));
            } else {
                push_step(&mut out, SparseStep::SetFilters(filters));
                push_step(&mut out, SparseStep::Report(StatusReport::Updated));
            }
        },
        SparseAction::Status { path } => {
            push_step(&mut out, open_step(path));
            push_step(&mut out, SparseStep::Report(StatusReport::Full));
        },
        SparseAction::List { path } => {
            push_step(&mut out, open_step(path));
            push_step(&mut out, SparseStep::ListPatterns);
        },
        SparseAction::Preview { path, patterns, format, category } => {
            let all = preview_pattern_list(patterns, format, category);
            if all.len() == 0 {
                push_step(&mut out, SparseStep::Say(String::from_str("No patterns specified. Use patterns, --format, or --category.")));
            } else {
                push_step(&mut out, SparseStep::Preview { path: path.clone(), patterns: all });
            }
        },
        SparseAction::Disable { path } => {
            push_step(&mut out, open_step(path));
            push_step(&mut out, SparseStep::Disable);
            push_step(&mut out, SparseStep::Say(String::from_str("Sparse checkout disabled. All files will be checked out.")));
        },
        SparseAction::Fetch { path } => {
            push_step(&mut out, open_step(path));
            push_step(&mut out, SparseStep::Fetch);
            push_step(&mut out, SparseStep::Checkout);
            push_step(&mut out, SparseStep::Report(StatusReport::Fetched));
        },
    }
    assert(steps_view(out@) =~= spec_run(action@));
    out
}

/// Sparse checkout is disabled by the "disable" command and by no other:
/// a command's steps hold a step that disables sparse checkout exactly when
/// the command is "disable". Its steps open the repository at the given
/// path first, then disable, and only after that print the confirmation.
pub proof fn lemma_only_disable_disables(action: SparseActionView)
    ensures
        (exists|i: int| 0 <= i < spec_run(action).len() && spec_run(action)[i] is Disable) <==> action is Disable,
        action matches SparseActionView::Disable { path } ==> {
            let steps = spec_run(action);
            &&& steps.len() > 0
            &&& steps[0] == StepView::OpenRepo { path }
            &&& exists|i: int| 0 < i < steps.len() - 1 && steps[i] is Disable
            &&& steps.last() == StepView::Say("Sparse checkout disabled. All files will be checked out."@)
        },
{
    let steps = spec_run(action);
    match action {
        SparseActionView::Disable { path } => {
            assert(steps[1] is Disable);
        },
        SparseActionView::Add { path, patterns, format, category } => {
            let tail = spec_add_steps(patterns, format, category);
            let head = if patterns.len() > 0 { seq![StepView::AddPaths(patterns)] } else { Seq::<StepView>::empty() };
            let fs = format.map_values(|f: Seq<char>| StepView::AddFilter(FilterView::Format(f)));
            let cs = category.map_values(|c: Seq<char>| StepView::AddFilter(FilterView::Category(c)));
            let added = (if patterns.len() > 0 { patterns.len() } else { 0 }) + format.len() + category.len();
            let last = seq![
                StepView::Say("Added "@ + decimal(added as nat) + " patterns"@),
                StepView::Reapply,
                StepView::Report(StatusReport::FilesNow),
            ];
            assert(tail == head + fs + cs + last);
            assert forall|i: int| 0 <= i < steps.len() implies !(steps[i] is Disable) by {
                if i > 0 {
                    let t = i - 1;
                    assert(steps[i] == tail[t]);
                    if t < head.len() {
                        assert(tail[t] == head[t]);
                    } else if t < head.len() + fs.len() {
                        assert(tail[t] == fs[t - head.len()]);
                    } else if t < head.len() + fs.len() + cs.len() {
                        assert(tail[t] == cs[t - head.len() - fs.len()]);
                    } else {
                        assert(tail[t] == last[t - head.len() - fs.len() - cs.len()]);
                    }
                }
            }
        },
        SparseActionView::Clone { url, target, depth, include_paths, format, category } => {
            let filters = spec_filters(include_paths, format, category);
            let a = seq![StepView::CloneRepo { url, target, depth }];
            let b = if filters.len() > 0 { seq![StepView::SetFilters(filters)] } else { Seq::<StepView>::empty() };
            let c = seq![StepView::Checkout, StepView::Report(StatusReport::Cloned)];
            assert(steps == a + b + c);
            assert forall|i: int| 0 <= i < steps.len() implies !(steps[i] is Disable) by {
                if i < 1 {
                    assert(steps[i] == a[i]);
                } else if i < 1 + b.len() {
                    assert(steps[i] == b[i - 1]);
                } else {
                    assert(steps[i] == c[i - 1 - b.len()]);
                }
            }
        },
        _ => {
            assert forall|i: int| 0 <= i < steps.len() implies !(steps[i] is Disable) by {}
        },
    }
}

} // verus!
