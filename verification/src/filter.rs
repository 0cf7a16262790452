//! Filter expressions: `a AND b`, `a OR b`, `NOT a`, `XOR a`, and the plain
//! patterns they are made of.

use crate::text::{contains_text, occurs_in, strip_prefix, texts};
use vstd::prelude::*;
use vstd::string::*;

verus! {

/// The pieces of a text between the occurrences of a separator, as
/// `str::split` cuts them.
pub uninterp spec fn pieces_of(text: Seq<char>, sep: Seq<char>) -> Seq<Seq<char>>;

/// A text without the white space at its ends, as `str::trim` cuts it.
pub uninterp spec fn trimmed(text: Seq<char>) -> Seq<char>;

/// Calls `str::split` with a string pattern and collects the pieces. The
/// claim: the pieces depend on the text and the separator alone.
#[verifier::external_body]
pub(crate) fn split_text(text: &str, sep: &str) -> (r: Vec<String>)
    ensures
        texts(r@) == pieces_of(text@, sep@),
{
    text.split(sep).map(|p| p.to_string()).collect()
}

/// Calls `str::trim`. The claim: the result depends on the text alone.
#[verifier::external_body]
pub(crate) fn trim_text(text: &str) -> (r: String)
    ensures
        r@ == trimmed(text@),
{
    text.trim().to_string()
}

/// What a plain pattern is matched as.
#[derive(Debug, Clone, Copy, PartialEq, Eq, Structural)]
pub enum PatternKind {
    /// A regular expression (`regex:` in front).
    Regex,
    /// A glob (`glob:` in front).
    Glob,
    /// An extension (a dot in front).
    Extension,
    /// A text that the name has to hold.
    Pattern,
}

/// A plain filter.
#[derive(Debug)]
pub struct BaseFilter {
    pub kind: PatternKind,
    pub pattern: String,
    pub case_insensitive: bool,
}

/// What a plain filter holds.
pub struct BaseView {
    pub kind: PatternKind,
    pub pattern: Seq<char>,
    pub case_insensitive: bool,
}

impl View for BaseFilter {
    type V = BaseView;

    open spec fn view(&self) -> BaseView {
        BaseView { kind: self.kind, pattern: self.pattern@, case_insensitive: self.case_insensitive }
    }
}

/// What the plain filters of a list hold.
pub open spec fn base_views(s: Seq<BaseFilter>) -> Seq<BaseView> {
    s.map_values(|b: BaseFilter| b@)
}

/// A filter expression.
#[derive(Debug)]
pub enum FilterSpec {
    /// All of the filters have to match.
    And(Vec<BaseFilter>),
    /// One of the filters has to match.
    Or(Vec<BaseFilter>),
    /// The filter must not match.
    Not(BaseFilter),
    /// The exclusive-or of one filter.
    Xor(BaseFilter),
    /// The filter has to match.
    Single(BaseFilter),
}

/// What a filter expression holds.
pub enum FilterView {
    And(Seq<BaseView>),
    Or(Seq<BaseView>),
    Not(BaseView),
    Xor(BaseView),
    Single(BaseView),
}

impl View for FilterSpec {
    type V = FilterView;

    open spec fn view(&self) -> FilterView {
        match self {
            FilterSpec::And(v) => FilterView::And(base_views(v@)),
            FilterSpec::Or(v) => FilterView::Or(base_views(v@)),
            FilterSpec::Not(b) => FilterView::Not(b@),
            FilterSpec::Xor(b) => FilterView::Xor(b@),
            FilterSpec::Single(b) => FilterView::Single(b@),
        }
    }
}

/// The plain filter a pattern stands for.
pub open spec fn base_of(pattern: Seq<char>, case_insensitive: bool) -> BaseView {
    if "regex:"@.is_prefix_of(pattern) {
        BaseView { kind: PatternKind::Regex, pattern: pattern.skip(6), case_insensitive }
    } else if "glob:"@.is_prefix_of(pattern) {
        BaseView { kind: PatternKind::Glob, pattern: pattern.skip(5), case_insensitive }
    } else if "."@.is_prefix_of(pattern) {
        BaseView { kind: PatternKind::Extension, pattern: pattern.skip(1), case_insensitive }
    } else {
        BaseView { kind: PatternKind::Pattern, pattern, case_insensitive }
    }
}

/// The plain filters that the pieces of an expression stand for, each
/// piece without the white space at its ends.
pub open spec fn bases_of(pieces: Seq<Seq<char>>, case_insensitive: bool) -> Seq<BaseView> {
    pieces.map_values(|p: Seq<char>| base_of(trimmed(p), case_insensitive))
}

/// The filter an expression stands for. Without an expression everything
/// passes: the empty pattern occurs in every name.
pub open spec fn filter_of(expr: Option<Seq<char>>, case_sensitive: bool) -> FilterView {
    match expr {
        None => FilterView::Single(
            BaseView { kind: PatternKind::Pattern, pattern: Seq::empty(), case_insensitive: false },
        ),
        Some(e) => if occurs_in(" AND "@, e) {
            FilterView::And(bases_of(pieces_of(e, " AND "@), !case_sensitive))
        } else if occurs_in(" OR "@, e) {
            FilterView::Or(bases_of(pieces_of(e, " OR "@), !case_sensitive))
        } else if "NOT "@.is_prefix_of(e) {
            FilterView::Not(base_of(e.skip(4), !case_sensitive))
        } else if "XOR "@.is_prefix_of(e) {
            FilterView::Xor(base_of(e.skip(4), !case_sensitive))
        } else {
            FilterView::Single(base_of(e, !case_sensitive))
        },
    }
}

/// Reads a plain pattern.
pub fn create_base_filter(pattern: &str, case_insensitive: bool) -> (b: BaseFilter)
    ensures
        b@ == base_of(pattern@, case_insensitive),
{
    proof {
        reveal_strlit("regex:");
        reveal_strlit("glob:");
        reveal_strlit(".");
    }
    match strip_prefix(pattern, "regex:") {
        Some(rest) => {
            assert(rest@ =~= pattern@.skip(6));
            assert("regex:"@.is_prefix_of(pattern@));
            return BaseFilter { kind: PatternKind::Regex, pattern: rest.to_owned(), case_insensitive };
        },
        None => {},
    }
    match strip_prefix(pattern, "glob:") {
        Some(rest) => {
            assert(rest@ =~= pattern@.skip(5));
            assert("glob:"@.is_prefix_of(pattern@));
            return BaseFilter { kind: PatternKind::Glob, pattern: rest.to_owned(), case_insensitive };
        },
        None => {},
    }
    match strip_prefix(pattern, ".") {
        Some(rest) => {
            assert(rest@ =~= pattern@.skip(1));
            assert("."@.is_prefix_of(pattern@));
            BaseFilter { kind: PatternKind::Extension, pattern: rest.to_owned(), case_insensitive }
        },
        None => BaseFilter { kind: PatternKind::Pattern, pattern: pattern.to_owned(), case_insensitive },
    }
}

/// Reads the pieces of an expression as plain patterns.
pub fn create_base_filters(pieces: &Vec<String>, case_insensitive: bool) -> (r: Vec<BaseFilter>)
    ensures
        base_views(r@) == bases_of(texts(pieces@), case_insensitive),
{
    let mut out: Vec<BaseFilter> = Vec::new();
    let mut i: usize = 0;
    while i < pieces.len()
        invariant
            i <= pieces@.len(),
            out@.len() == i,
            forall|k: int|
                0 <= k < i ==> (#[trigger] out@[k])@ == base_of(trimmed(pieces@[k]@), case_insensitive),
        decreases pieces@.len() - i,
    {
        let piece = trim_text(pieces[i].as_str());
        out.push(create_base_filter(piece.as_str(), case_insensitive));
        i += 1;
    }
    assert(base_views(out@) =~= bases_of(texts(pieces@), case_insensitive));
    out
}

/// Reads a filter expression.
pub fn create_filter(filter: Option<&str>, case_sensitive: bool) -> (f: FilterSpec)
    ensures
        f@ == filter_of(
            match filter {
                Some(e) => Some(e@),
                None => None,
            },
            case_sensitive,
        ),
{
    proof {
        reveal_strlit("NOT ");
        reveal_strlit("XOR ");
    }
    let expr = match filter {
        Some(e) => e,
        None => {
            return FilterSpec::Single(
                BaseFilter { kind: PatternKind::Pattern, pattern: String::new(), case_insensitive: false },
            );
        },
    };
    if contains_text(expr, " AND ") {
        let pieces = split_text(expr, " AND ");
        return FilterSpec::And(create_base_filters(&pieces, !case_sensitive));
    }
    if contains_text(expr, " OR ") {
        let pieces = split_text(expr, " OR ");
        return FilterSpec::Or(create_base_filters(&pieces, !case_sensitive));
    }
    match strip_prefix(expr, "NOT ") {
        Some(rest) => {
            assert(rest@ =~= expr@.skip(4));
            assert("NOT "@.is_prefix_of(expr@));
            return FilterSpec::Not(create_base_filter(rest, !case_sensitive));
        },
        None => {},
    }
    match strip_prefix(expr, "XOR ") {
        Some(rest) => {
            assert(rest@ =~= expr@.skip(4));
            assert("XOR "@.is_prefix_of(expr@));
            FilterSpec::Xor(create_base_filter(rest, !case_sensitive))
        },
        None => FilterSpec::Single(create_base_filter(expr, !case_sensitive)),
    }
}

} // verus!
