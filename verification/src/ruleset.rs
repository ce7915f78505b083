//! Rulesets: what the user declares, and the rules that make one valid.

use crate::template::{has_template_vars, holds_variable};
use crate::text::{is_blank, is_blank_str};
use crate::time::{parse_instant, parsed_instant};
use vstd::prelude::*;
use vstd::string::StringExecFns;

verus! {

/// What is done with a file that the filters accept.
#[derive(Debug, Clone, Copy, PartialEq, Eq, Structural)]
pub enum Action {
    Move,
    Copy,
}

/// How the pattern of a file-name filter is read.
#[derive(Debug, Clone, Copy, PartialEq, Eq, Structural)]
pub enum MatchType {
    Glob,
    Regex,
}

/// A filter on the file name.
#[derive(Debug, PartialEq)]
pub struct FilenameFilter {
    pub pattern: String,
    pub match_type: MatchType,
}

pub struct FilenameFilterView {
    pub pattern: Seq<char>,
    pub match_type: MatchType,
}

impl DeepView for FilenameFilter {
    type V = FilenameFilterView;

    open spec fn deep_view(&self) -> FilenameFilterView {
        FilenameFilterView { pattern: self.pattern@, match_type: self.match_type }
    }
}

impl View for FilenameFilter {
    type V = FilenameFilterView;

    open spec fn view(&self) -> FilenameFilterView {
        self.deep_view()
    }
}

impl Clone for FilenameFilter {
    fn clone(&self) -> (r: FilenameFilter)
        ensures
            r@ == self@,
    {
        FilenameFilter { pattern: self.pattern.clone(), match_type: self.match_type }
    }
}

/// A range of time; a bound that is absent is open. Each bound is an RFC 3339
/// date and time.
#[derive(Debug, PartialEq)]
pub struct DateTimeRange {
    pub start: Option<String>,
    pub end: Option<String>,
}

pub struct DateTimeRangeView {
    pub start: Option<Seq<char>>,
    pub end: Option<Seq<char>>,
}

impl DeepView for DateTimeRange {
    type V = DateTimeRangeView;

    open spec fn deep_view(&self) -> DateTimeRangeView {
        DateTimeRangeView { start: self.start.deep_view(), end: self.end.deep_view() }
    }
}

impl View for DateTimeRange {
    type V = DateTimeRangeView;

    open spec fn view(&self) -> DateTimeRangeView {
        self.deep_view()
    }
}

impl Clone for DateTimeRange {
    fn clone(&self) -> (r: DateTimeRange)
        ensures
            r@ == self@,
    {
        DateTimeRange { start: self.start.clone(), end: self.end.clone() }
    }
}

/// The filters of a ruleset. A file is accepted when every filter that is
/// present accepts it.
#[derive(Debug, PartialEq)]
pub struct Filters {
    pub extensions: Option<Vec<String>>,
    pub filename: Option<FilenameFilter>,
    pub created_at: Option<DateTimeRange>,
    pub modified_at: Option<DateTimeRange>,
}

pub struct FiltersView {
    pub extensions: Option<Seq<Seq<char>>>,
    pub filename: Option<FilenameFilterView>,
    pub created_at: Option<DateTimeRangeView>,
    pub modified_at: Option<DateTimeRangeView>,
}

impl DeepView for Filters {
    type V = FiltersView;

    open spec fn deep_view(&self) -> FiltersView {
        FiltersView {
            extensions: self.extensions.deep_view(),
            filename: self.filename.deep_view(),
            created_at: self.created_at.deep_view(),
            modified_at: self.modified_at.deep_view(),
        }
    }
}

impl View for Filters {
    type V = FiltersView;

    open spec fn view(&self) -> FiltersView {
        self.deep_view()
    }
}

impl Clone for Filters {
    fn clone(&self) -> (r: Filters)
        ensures
            r@ == self@,
    {
        Filters {
            extensions: self.extensions.clone(),
            filename: self.filename.clone(),
            created_at: self.created_at.clone(),
            modified_at: self.modified_at.clone(),
        }
    }
}

impl FiltersView {
    /// Whether at least one filter is present; a list of extensions counts
    /// only if it is not empty.
    pub open spec fn has_at_least_one(self) -> bool {
        ||| self.extensions matches Some(list) && list.len() > 0
        ||| self.filename is Some
        ||| self.created_at is Some
        ||| self.modified_at is Some
    }

    /// Whether the file-name filter is present and is a regular expression.
    pub open spec fn names_by_regex(self) -> bool {
        self.filename matches Some(f) && f.match_type == MatchType::Regex
    }
}

impl Filters {
    /// Whether at least one filter is present; a list of extensions counts
    /// only if it is not empty.
    pub fn has_at_least_one(&self) -> (r: bool)
        ensures
            r == self@.has_at_least_one(),
    {
        let listed = match &self.extensions {
            Some(list) => list.len() > 0,
            None => false,
        };
        proof {
            if self.extensions is Some {
                assert(self.extensions.deep_view().unwrap().len() == self.extensions.unwrap()@.len());
            }
        }
        listed || self.filename.is_some() || self.created_at.is_some()
            || self.modified_at.is_some()
    }
}

/// One rule: which files of `source_dir` go to `destination_dir`, and how.
#[derive(Debug, PartialEq)]
pub struct Ruleset {
    pub id: String,
    pub name: String,
    pub enabled: bool,
    pub source_dir: String,
    pub destination_dir: String,
    pub action: Action,
    pub overwrite: bool,
    pub filters: Filters,
}

pub struct RulesetView {
    pub id: Seq<char>,
    pub name: Seq<char>,
    pub enabled: bool,
    pub source_dir: Seq<char>,
    pub destination_dir: Seq<char>,
    pub action: Action,
    pub overwrite: bool,
    pub filters: FiltersView,
}

impl DeepView for Ruleset {
    type V = RulesetView;

    open spec fn deep_view(&self) -> RulesetView {
        RulesetView {
            id: self.id@,
            name: self.name@,
            enabled: self.enabled,
            source_dir: self.source_dir@,
            destination_dir: self.destination_dir@,
            action: self.action,
            overwrite: self.overwrite,
            filters: self.filters@,
        }
    }
}

impl View for Ruleset {
    type V = RulesetView;

    open spec fn view(&self) -> RulesetView {
        self.deep_view()
    }
}

impl Clone for Ruleset {
    fn clone(&self) -> (r: Ruleset)
        ensures
            r@ == self@,
    {
        Ruleset {
            id: self.id.clone(),
            name: self.name.clone(),
            enabled: self.enabled,
            source_dir: self.source_dir.clone(),
            destination_dir: self.destination_dir.clone(),
            action: self.action,
            overwrite: self.overwrite,
            filters: self.filters.clone(),
        }
    }
}

/// Why a ruleset is not valid.
#[derive(Debug, PartialEq)]
pub enum RulesetError {
    /// The name is blank.
    NameRequired,
    /// The source directory is blank.
    SourceDirRequired,
    /// The destination directory is blank.
    DestinationDirRequired,
    /// No filter is present.
    FilterRequired,
    /// The list of extensions is present and empty.
    EmptyExtensions,
    /// The destination is a template, and the file names are not matched by a
    /// regular expression.
    TemplateNeedsRegex,
    /// A bound of a time range, given here, is not an RFC 3339 date and time.
    InvalidDatetime(String),
}

pub enum RulesetErrorView {
    NameRequired,
    SourceDirRequired,
    DestinationDirRequired,
    FilterRequired,
    EmptyExtensions,
    TemplateNeedsRegex,
    InvalidDatetime(Seq<char>),
}

impl View for RulesetError {
    type V = RulesetErrorView;

    open spec fn view(&self) -> RulesetErrorView {
        match self {
            RulesetError::NameRequired => RulesetErrorView::NameRequired,
            RulesetError::SourceDirRequired => RulesetErrorView::SourceDirRequired,
            RulesetError::DestinationDirRequired => RulesetErrorView::DestinationDirRequired,
            RulesetError::FilterRequired => RulesetErrorView::FilterRequired,
            RulesetError::EmptyExtensions => RulesetErrorView::EmptyExtensions,
            RulesetError::TemplateNeedsRegex => RulesetErrorView::TemplateNeedsRegex,
            RulesetError::InvalidDatetime(s) => RulesetErrorView::InvalidDatetime(s@),
        }
    }
}

impl RulesetErrorView {
    /// What is wrong, in words.
    pub open spec fn detail(self) -> Seq<char> {
        match self {
            RulesetErrorView::NameRequired => "name is required"@,
            RulesetErrorView::SourceDirRequired => "source_dir is required"@,
            RulesetErrorView::DestinationDirRequired => "destination_dir is required"@,
            RulesetErrorView::FilterRequired => "at least one filter is required"@,
            RulesetErrorView::EmptyExtensions => "extensions must not be empty"@,
            RulesetErrorView::TemplateNeedsRegex =>
                "destination_dir contains template variables but filename filter is not regex"@,
            RulesetErrorView::InvalidDatetime(s) => "invalid datetime format: '"@ + s + "'"@,
        }
    }

    /// The message shown to the user.
    pub open spec fn message(self) -> Seq<char> {
        "Validation error: "@ + self.detail()
    }
}

impl RulesetError {
    /// What is wrong, in words.
    pub fn detail(&self) -> (out: String)
        ensures
            out@ == self@.detail(),
    {
        match self {
            RulesetError::NameRequired => String::from_str("name is required"),
            RulesetError::SourceDirRequired => String::from_str("source_dir is required"),
            RulesetError::DestinationDirRequired => String::from_str(
                "destination_dir is required",
            ),
            RulesetError::FilterRequired => String::from_str("at least one filter is required"),
            RulesetError::EmptyExtensions => String::from_str("extensions must not be empty"),
            RulesetError::TemplateNeedsRegex => String::from_str(
                "destination_dir contains template variables but filename filter is not regex",
            ),
            RulesetError::InvalidDatetime(s) => {
                let mut out = String::from_str("invalid datetime format: '");
                out.append(s.as_str());
                out.append("'");
                out
            },
        }
    }

    /// The message shown to the user.
    pub fn message(&self) -> (out: String)
        ensures
            out@ == self@.message(),
    {
        let mut out = String::from_str("Validation error: ");
        out.append(self.detail().as_str());
        out
    }
}

impl DateTimeRangeView {
    /// The first bound, start before end, that is not an RFC 3339 date and time.
    pub open spec fn malformed_bound(self) -> Option<Seq<char>> {
        if self.start matches Some(s) && parsed_instant(s) is None {
            self.start
        } else if self.end matches Some(e) && parsed_instant(e) is None {
            self.end
        } else {
            None
        }
    }
}

/// The first bound of `range` that is not an RFC 3339 date and time.
fn malformed_bound(range: &DateTimeRange) -> (r: Option<String>)
    ensures
        r.deep_view() == range@.malformed_bound(),
{
    if let Some(start) = &range.start {
        if parse_instant(start.as_str()).is_none() {
            return Some(start.clone());
        }
    }
    if let Some(end) = &range.end {
        if parse_instant(end.as_str()).is_none() {
            return Some(end.clone());
        }
    }
    None
}

impl RulesetView {
    /// The first rule that the ruleset breaks, in the order in which they are
    /// checked; `None` for a valid ruleset.
    pub open spec fn first_fault(self) -> Option<RulesetErrorView> {
        if is_blank(self.name) {
            Some(RulesetErrorView::NameRequired)
        } else if is_blank(self.source_dir) {
            Some(RulesetErrorView::SourceDirRequired)
        } else if is_blank(self.destination_dir) {
            Some(RulesetErrorView::DestinationDirRequired)
        } else if !self.filters.has_at_least_one() {
            Some(RulesetErrorView::FilterRequired)
        } else if self.filters.extensions matches Some(list) && list.len() == 0 {
            Some(RulesetErrorView::EmptyExtensions)
        } else if holds_variable(self.destination_dir) && !self.filters.names_by_regex() {
            Some(RulesetErrorView::TemplateNeedsRegex)
        } else if self.filters.created_at is Some
            && self.filters.created_at.unwrap().malformed_bound() is Some {
            Some(
                RulesetErrorView::InvalidDatetime(
                    self.filters.created_at.unwrap().malformed_bound().unwrap(),
                ),
            )
        } else if self.filters.modified_at is Some
            && self.filters.modified_at.unwrap().malformed_bound() is Some {
            Some(
                RulesetErrorView::InvalidDatetime(
                    self.filters.modified_at.unwrap().malformed_bound().unwrap(),
                ),
            )
        } else {
            None
        }
    }

    /// Whether the ruleset keeps every rule.
    pub open spec fn valid(self) -> bool {
        self.first_fault() is None
    }
}

impl Ruleset {
    /// Checks the ruleset: a name, a source and a destination that are not
    /// blank; at least one filter; no empty list of extensions; a regular
    /// expression for the file names where the destination is a template;
    /// time bounds in RFC 3339. The error is the first rule, in this order,
    /// that is broken.
    pub fn validate(&self) -> (r: Result<(), RulesetError>)
        ensures
            match r {
                Ok(()) => self@.first_fault() is None,
                Err(e) => self@.first_fault() == Some(e@),
            },
    {
        if is_blank_str(self.name.as_str()) {
            return Err(RulesetError::NameRequired);
        }
        if is_blank_str(self.source_dir.as_str()) {
            return Err(RulesetError::SourceDirRequired);
        }
        if is_blank_str(self.destination_dir.as_str()) {
            return Err(RulesetError::DestinationDirRequired);
        }
        if !self.filters.has_at_least_one() {
            return Err(RulesetError::FilterRequired);
        }
        if let Some(list) = &self.filters.extensions {
            proof {
                assert(self.filters.extensions.deep_view().unwrap().len() == list@.len());
            }
            if list.len() == 0 {
                return Err(RulesetError::EmptyExtensions);
            }
        }
        if has_template_vars(self.destination_dir.as_str()) {
            let by_regex = match &self.filters.filename {
                Some(f) => f.match_type == MatchType::Regex,
                None => false,
            };
            if !by_regex {
                return Err(RulesetError::TemplateNeedsRegex);
            }
        }
        if let Some(range) = &self.filters.created_at {
            if let Some(bad) = malformed_bound(range) {
                return Err(RulesetError::InvalidDatetime(bad));
            }
        }
        if let Some(range) = &self.filters.modified_at {
            if let Some(bad) = malformed_bound(range) {
                return Err(RulesetError::InvalidDatetime(bad));
            }
        }
        Ok(())
    }

    /// The directory whose files the ruleset looks at.
    pub fn source_path(&self) -> (path: String)
        ensures
            path@ == self.source_dir@,
    {
        self.source_dir.clone()
    }

    /// The destination as it was written: a directory, or a template.
    pub fn destination_path(&self) -> (path: String)
        ensures
            path@ == self.destination_dir@,
    {
        self.destination_dir.clone()
    }
}

/// The rulesets of a user, in the order the user gave them, as they are
/// kept on disk.
#[derive(Debug, PartialEq)]
pub struct RulesetFile {
    pub version: u32,
    pub rulesets: Vec<Ruleset>,
}

pub struct RulesetFileView {
    pub version: u32,
    pub rulesets: Seq<RulesetView>,
}

impl DeepView for RulesetFile {
    type V = RulesetFileView;

    open spec fn deep_view(&self) -> RulesetFileView {
        RulesetFileView { version: self.version, rulesets: self.rulesets.deep_view() }
    }
}

impl View for RulesetFile {
    type V = RulesetFileView;

    open spec fn view(&self) -> RulesetFileView {
        self.deep_view()
    }
}

impl Clone for RulesetFile {
    fn clone(&self) -> (r: RulesetFile)
        ensures
            r@ == self@,
    {
        RulesetFile { version: self.version, rulesets: self.rulesets.clone() }
    }
}

impl RulesetFile {
    /// The file of a user who has no ruleset yet: version 1, no rulesets.
    pub fn new() -> (file: RulesetFile)
        ensures
            file@.version == 1,
            file@.rulesets == Seq::<RulesetView>::empty(),
    {
        let file = RulesetFile { version: 1, rulesets: Vec::new() };
        proof {
            assert(file@.rulesets =~= Seq::<RulesetView>::empty());
        }
        file
    }
}

/// A ruleset whose destination is a template is valid only if its file names
/// are matched by a regular expression.
pub proof fn lemma_template_needs_regex(r: RulesetView)
    requires
        holds_variable(r.destination_dir),
        !r.filters.names_by_regex(),
    ensures
        r.first_fault() is Some,
        !r.valid(),
{
}

/// A valid ruleset has a name, a source and a destination that are not blank,
/// at least one filter, and time bounds that can be read.
pub proof fn lemma_valid_ruleset(r: RulesetView)
    requires
        r.valid(),
    ensures
        !is_blank(r.name),
        !is_blank(r.source_dir),
        !is_blank(r.destination_dir),
        r.filters.has_at_least_one(),
        r.filters.extensions matches Some(list) ==> list.len() > 0,
        holds_variable(r.destination_dir) ==> r.filters.names_by_regex(),
        r.filters.created_at matches Some(range) ==> range.malformed_bound() is None,
        r.filters.modified_at matches Some(range) ==> range.malformed_bound() is None,
{
}

} // verus!
