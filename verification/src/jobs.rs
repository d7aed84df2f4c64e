//! The closed vocabulary of primitive browser actions. A job is immutable
//! once constructed and compared structurally.

use vstd::prelude::*;

verus! {

/// One primitive browser action.
#[derive(Debug, Clone, PartialEq)]
pub enum BrowserJob {
    Navigate(String),
    Click(String),
    Type { selector: String, text: String },
    WaitFor(String),
    ScrollTo(String),
    Screenshot { prefix: String },
}

/// Mathematical model of a job: the same shape over character sequences.
pub enum JobView {
    Navigate { url: Seq<char> },
    Click { selector: Seq<char> },
    Type { selector: Seq<char>, text: Seq<char> },
    WaitFor { selector: Seq<char> },
    ScrollTo { selector: Seq<char> },
    Screenshot { prefix: Seq<char> },
}

impl View for BrowserJob {
    type V = JobView;

    open spec fn view(&self) -> JobView {
        match self {
            BrowserJob::Navigate(url) => JobView::Navigate { url: url@ },
            BrowserJob::Click(selector) => JobView::Click { selector: selector@ },
            BrowserJob::Type { selector, text } => JobView::Type {
                selector: selector@,
                text: text@,
            },
            BrowserJob::WaitFor(selector) => JobView::WaitFor { selector: selector@ },
            BrowserJob::ScrollTo(selector) => JobView::ScrollTo { selector: selector@ },
            BrowserJob::Screenshot { prefix } => JobView::Screenshot { prefix: prefix@ },
        }
    }
}

/// The kind name recorded for a job in the interaction memory.
pub open spec fn action_name_spec(j: JobView) -> Seq<char> {
    match j {
        JobView::Navigate { .. } => "Navigate"@,
        JobView::Click { .. } => "Click"@,
        JobView::Type { .. } => "Type"@,
        JobView::WaitFor { .. } => "WaitFor"@,
        JobView::ScrollTo { .. } => "ScrollTo"@,
        JobView::Screenshot { .. } => "Screenshot"@,
    }
}

/// The selector (or url, or screenshot prefix) a job carries.
pub open spec fn job_target_spec(j: JobView) -> Seq<char> {
    match j {
        JobView::Navigate { url } => url,
        JobView::Click { selector } => selector,
        JobView::Type { selector, .. } => selector,
        JobView::WaitFor { selector } => selector,
        JobView::ScrollTo { selector } => selector,
        JobView::Screenshot { prefix } => prefix,
    }
}

impl BrowserJob {
    /// The job's kind name, as recorded in memory entries.
    pub fn action_name(&self) -> (r: &'static str)
        ensures
            r@ == action_name_spec(self@),
    {
        match self {
            BrowserJob::Navigate(_) => "Navigate",
            BrowserJob::Click(_) => "Click",
            BrowserJob::Type { .. } => "Type",
            BrowserJob::WaitFor(_) => "WaitFor",
            BrowserJob::ScrollTo(_) => "ScrollTo",
            BrowserJob::Screenshot { .. } => "Screenshot",
        }
    }

    /// A structural copy of the job, equal to it in the model.
    pub fn duplicate(&self) -> (r: Self)
        ensures
            r@ == self@,
    {
        match self {
            BrowserJob::Navigate(url) => BrowserJob::Navigate(url.clone()),
            BrowserJob::Click(selector) => BrowserJob::Click(selector.clone()),
            BrowserJob::Type { selector, text } => BrowserJob::Type {
                selector: selector.clone(),
                text: text.clone(),
            },
            BrowserJob::WaitFor(selector) => BrowserJob::WaitFor(selector.clone()),
            BrowserJob::ScrollTo(selector) => BrowserJob::ScrollTo(selector.clone()),
            BrowserJob::Screenshot { prefix } => BrowserJob::Screenshot { prefix: prefix.clone() },
        }
    }

    /// A copy of the selector-like payload of the job.
    pub fn target(&self) -> (r: String)
        ensures
            r@ == job_target_spec(self@),
    {
        match self {
            BrowserJob::Navigate(url) => url.clone(),
            BrowserJob::Click(selector) => selector.clone(),
            BrowserJob::Type { selector, .. } => selector.clone(),
            BrowserJob::WaitFor(selector) => selector.clone(),
            BrowserJob::ScrollTo(selector) => selector.clone(),
            BrowserJob::Screenshot { prefix } => prefix.clone(),
        }
    }
}

/// Structural equality of two jobs, decided over their models.
pub fn job_eq(a: &BrowserJob, b: &BrowserJob) -> (r: bool)
    ensures
        r == (a@ == b@),
{
    match (a, b) {
        (BrowserJob::Navigate(x), BrowserJob::Navigate(y)) => crate::strutil::str_eq(
            x.as_str(),
            y.as_str(),
        ),
        (BrowserJob::Click(x), BrowserJob::Click(y)) => crate::strutil::str_eq(
            x.as_str(),
            y.as_str(),
        ),
        (
            BrowserJob::Type { selector: sa, text: ta },
            BrowserJob::Type { selector: sb, text: tb },
        ) => crate::strutil::str_eq(sa.as_str(), sb.as_str()) && crate::strutil::str_eq(
            ta.as_str(),
            tb.as_str(),
        ),
        (BrowserJob::WaitFor(x), BrowserJob::WaitFor(y)) => crate::strutil::str_eq(
            x.as_str(),
            y.as_str(),
        ),
        (BrowserJob::ScrollTo(x), BrowserJob::ScrollTo(y)) => crate::strutil::str_eq(
            x.as_str(),
            y.as_str(),
        ),
        (
            BrowserJob::Screenshot { prefix: pa },
            BrowserJob::Screenshot { prefix: pb },
        ) => crate::strutil::str_eq(pa.as_str(), pb.as_str()),
        _ => false,
    }
}

} // verus!
