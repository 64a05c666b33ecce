//! Diagnostics: what the validator hands out.

use vstd::prelude::*;
use vstd::string::StringExecFns;

use crate::tree::Span;

verus! {

/// How grave a diagnostic is.
#[derive(Debug, Clone, Copy, PartialEq, Eq, Hash, Structural)]
pub enum Severity {
    Warn,
    Error,
}

/// Whether a label marks the place of the fault or a place related to it.
#[derive(Debug, Clone, Copy, PartialEq, Eq, Hash, Structural)]
pub enum LabelRole {
    Primary,
    Secondary,
}

/// Whether a point gives a tip or help.
#[derive(Debug, Clone, Copy, PartialEq, Eq, Hash, Structural)]
pub enum PointKind {
    Tip,
    Help,
}

/// A place in the source with a short message.
#[derive(Debug, Clone, PartialEq, Eq, Hash)]
pub struct Label {
    pub span: Span,
    pub role: LabelRole,
    pub text: String,
}

/// A remark that stands below a diagnostic.
#[derive(Debug, Clone, PartialEq, Eq, Hash)]
pub struct Point {
    pub kind: PointKind,
    pub text: String,
}

/// What a diagnostic is shown with: a name, such as that of a source, and
/// what goes by that name, such as its text.
#[derive(Debug, Clone, PartialEq, Eq, Hash)]
pub struct Attachment {
    pub key: String,
    pub value: String,
}

/// A diagnostic: a severity, a title, labels that point into the source,
/// remarks, and what it is shown with.
#[derive(Debug, Clone, PartialEq, Eq, Hash)]
pub struct Report {
    pub severity: Severity,
    pub title: String,
    pub labels: Vec<Label>,
    pub points: Vec<Point>,
    pub attachments: Vec<Attachment>,
}

/// What a label says, as plain values.
pub struct LabelView {
    pub span: Span,
    pub role: LabelRole,
    pub text: Seq<char>,
}

/// What a point says, as plain values.
pub struct PointView {
    pub kind: PointKind,
    pub text: Seq<char>,
}

/// What a report says, as plain values.
pub struct ReportView {
    pub severity: Severity,
    pub title: Seq<char>,
    pub labels: Seq<LabelView>,
    pub points: Seq<PointView>,
    pub attachments: Seq<(Seq<char>, Seq<char>)>,
}

impl View for Label {
    type V = LabelView;

    open spec fn view(&self) -> LabelView {
        LabelView { span: self.span, role: self.role, text: self.text@ }
    }
}

impl View for Point {
    type V = PointView;

    open spec fn view(&self) -> PointView {
        PointView { kind: self.kind, text: self.text@ }
    }
}

impl View for Report {
    type V = ReportView;

    open spec fn view(&self) -> ReportView {
        ReportView {
            severity: self.severity,
            title: self.title@,
            labels: self.labels@.map_values(|label: Label| label@),
            points: self.points@.map_values(|point: Point| point@),
            attachments: self.attachments@.map_values(
                |attachment: Attachment| (attachment.key@, attachment.value@),
            ),
        }
    }
}

/// What a run of reports says, as plain values.
pub open spec fn report_views(reports: Seq<Report>) -> Seq<ReportView> {
    reports.map_values(|report: Report| report@)
}

/// A label that marks the place of the fault.
pub open spec fn primary(span: Span, text: Seq<char>) -> LabelView {
    LabelView { span, role: LabelRole::Primary, text }
}

/// A label that marks a place related to the fault.
pub open spec fn secondary(span: Span, text: Seq<char>) -> LabelView {
    LabelView { span, role: LabelRole::Secondary, text }
}

/// An error with a title and nothing else yet.
pub open spec fn error(title: Seq<char>) -> ReportView {
    ReportView {
        severity: Severity::Error,
        title,
        labels: Seq::empty(),
        points: Seq::empty(),
        attachments: Seq::empty(),
    }
}

impl ReportView {
    /// The report with one more label.
    pub open spec fn label(self, label: LabelView) -> ReportView {
        ReportView { labels: self.labels.push(label), ..self }
    }

    /// The report with one more point.
    pub open spec fn point(self, kind: PointKind, text: Seq<char>) -> ReportView {
        ReportView { points: self.points.push(PointView { kind, text }), ..self }
    }

    /// The report shown with one more thing.
    pub open spec fn attach(self, key: Seq<char>, value: Seq<char>) -> ReportView {
        ReportView { attachments: self.attachments.push((key, value)), ..self }
    }

    /// The report with the labels of `labels` added in their order.
    pub open spec fn labelled(self, labels: Seq<LabelView>) -> ReportView {
        ReportView { labels: self.labels + labels, ..self }
    }
}

impl Report {
    /// Creates an error with a title, without labels or points.
    pub fn error(title: &str) -> (result: Report)
        ensures
            result@ == error(title@),
    {
        let result = Report {
            severity: Severity::Error,
            title: String::from_str(title),
            labels: Vec::new(),
            points: Vec::new(),
            attachments: Vec::new(),
        };
        assert(result@.labels =~= Seq::empty());
        assert(result@.points =~= Seq::empty());
        assert(result@.attachments =~= Seq::empty());
        result
    }

    /// Adds a label.
    fn push_label(&mut self, span: Span, role: LabelRole, text: &str)
        ensures
            final(self)@ == old(self)@.label(LabelView { span, role, text: text@ }),
    {
        let label = Label { span, role, text: String::from_str(text) };
        self.labels.push(label);
        assert(self@.labels =~= old(self)@.labels.push(label@));
    }

    /// Adds a label that marks the place of the fault.
    pub fn push_primary(&mut self, span: Span, text: &str)
        ensures
            final(self)@ == old(self)@.label(primary(span, text@)),
    {
        self.push_label(span, LabelRole::Primary, text)
    }

    /// Adds a label that marks a place related to the fault.
    pub fn push_secondary(&mut self, span: Span, text: &str)
        ensures
            final(self)@ == old(self)@.label(secondary(span, text@)),
    {
        self.push_label(span, LabelRole::Secondary, text)
    }

    /// Adds a point.
    fn push_point(&mut self, kind: PointKind, text: &str)
        ensures
            final(self)@ == old(self)@.point(kind, text@),
    {
        let point = Point { kind, text: String::from_str(text) };
        self.points.push(point);
        assert(self@.points =~= old(self)@.points.push(point@));
    }

    /// Adds a tip.
    pub fn push_tip(&mut self, text: &str)
        ensures
            final(self)@ == old(self)@.point(PointKind::Tip, text@),
    {
        self.push_point(PointKind::Tip, text)
    }

    /// Adds help.
    pub fn push_help(&mut self, text: &str)
        ensures
            final(self)@ == old(self)@.point(PointKind::Help, text@),
    {
        self.push_point(PointKind::Help, text)
    }

    /// Returns the report with one more label that marks the place of the
    /// fault.
    pub fn primary(self, span: Span, text: &str) -> (result: Report)
        ensures
            result@ == self@.label(primary(span, text@)),
    {
        let mut result = self;
        result.push_primary(span, text);
        result
    }

    /// Returns the report with one more label that marks a place related
    /// to the fault.
    pub fn secondary(self, span: Span, text: &str) -> (result: Report)
        ensures
            result@ == self@.label(secondary(span, text@)),
    {
        let mut result = self;
        result.push_secondary(span, text);
        result
    }

    /// Returns the report with one more tip.
    pub fn tip(self, text: &str) -> (result: Report)
        ensures
            result@ == self@.point(PointKind::Tip, text@),
    {
        let mut result = self;
        result.push_tip(text);
        result
    }

    /// Returns the report with more help.
    pub fn help(self, text: &str) -> (result: Report)
        ensures
            result@ == self@.point(PointKind::Help, text@),
    {
        let mut result = self;
        result.push_help(text);
        result
    }

    /// Returns the report shown with one more thing, such as a source by
    /// its name.
    pub fn with(self, key: &str, value: &str) -> (result: Report)
        ensures
            result@ == self@.attach(key@, value@),
    {
        let mut result = self;
        let attachment = Attachment { key: String::from_str(key), value: String::from_str(value) };
        result.attachments.push(attachment);
        assert(result@.attachments =~= self@.attachments.push((key@, value@)));
        result
    }

    /// Whether no label has been attached.
    pub fn is_empty(&self) -> (result: bool)
        ensures
            result == (self@.labels.len() == 0),
    {
        self.labels.len() == 0
    }
}

/// Appending a report to a run appends its view to the views of the run.
pub proof fn lemma_views_of_pushed(reports: Seq<Report>, report: Report)
    ensures
        report_views(reports.push(report)) == report_views(reports).push(report@),
{
    assert(report_views(reports.push(report)) =~= report_views(reports).push(report@));
}

} // verus!
