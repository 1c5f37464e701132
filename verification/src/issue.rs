//! Issues of the newsletter, and the log that keeps them.
//!
//! An issue never changes once it is in the log, and the log never drops one
//! but when a publication is rolled back. The identity of an issue is its
//! position in the log.

use vstd::prelude::*;
use crate::ids::IssueId;

verus! {

/// One publication of the newsletter.
#[derive(Clone, Debug, PartialEq, Eq)]
pub struct Issue {
    pub id: IssueId,
    pub title: String,
    pub text_body: String,
    pub html_body: String,
}

/// An issue as a mathematical value.
pub struct IssueView {
    pub id: IssueId,
    pub title: Seq<char>,
    pub text_body: Seq<char>,
    pub html_body: Seq<char>,
}

impl View for Issue {
    type V = IssueView;

    open spec fn view(&self) -> IssueView {
        IssueView {
            id: self.id,
            title: self.title@,
            text_body: self.text_body@,
            html_body: self.html_body@,
        }
    }
}

/// What is wrong with the content of an issue.
#[derive(Clone, Copy, Debug, PartialEq, Eq, Structural)]
pub enum ValidationError {
    EmptyTitle,
    EmptyTextBody,
    EmptyHtmlBody,
}

/// The first fault of the content, looking at the title, then the plain-text
/// body, then the HTML body: each must hold a character at least.
pub open spec fn validation_error(title: Seq<char>, text_body: Seq<char>, html_body: Seq<char>) -> Option<
    ValidationError,
> {
    if title.len() == 0 {
        Some(ValidationError::EmptyTitle)
    } else if text_body.len() == 0 {
        Some(ValidationError::EmptyTextBody)
    } else if html_body.len() == 0 {
        Some(ValidationError::EmptyHtmlBody)
    } else {
        None
    }
}

/// Checks the content of an issue before anything is stored.
pub fn validate(title: &String, text_body: &String, html_body: &String) -> (r: Result<(), ValidationError>)
    ensures
        r == match validation_error(title@, text_body@, html_body@) {
            Some(e) => Err::<(), ValidationError>(e),
            None => Ok::<(), ValidationError>(()),
        },
{
    if title.as_str().is_empty() {
        Err(ValidationError::EmptyTitle)
    } else if text_body.as_str().is_empty() {
        Err(ValidationError::EmptyTextBody)
    } else if html_body.as_str().is_empty() {
        Err(ValidationError::EmptyHtmlBody)
    } else {
        Ok(())
    }
}

/// Each issue stands at the position that its identity names.
pub open spec fn ids_in_order(issues: Seq<IssueView>) -> bool {
    forall|i: int| 0 <= i < issues.len() ==> (#[trigger] issues[i]).id == i
}

/// The issues cut back to the first `len`.
pub open spec fn issues_truncated(issues: Seq<IssueView>, len: nat) -> Seq<IssueView> {
    if len <= issues.len() {
        issues.take(len as int)
    } else {
        issues
    }
}

/// The log of issues.
pub struct IssueLog {
    issues: Vec<Issue>,
}

impl View for IssueLog {
    type V = Seq<IssueView>;

    closed spec fn view(&self) -> Seq<IssueView> {
        self.issues@.map_values(|issue: Issue| issue@)
    }
}

impl IssueLog {
    /// The invariant that every operation keeps.
    pub open spec fn wf(&self) -> bool {
        ids_in_order(self@)
    }

    /// An empty log.
    pub fn new() -> (log: IssueLog)
        ensures
            log.wf(),
            log@ == Seq::<IssueView>::empty(),
    {
        let log = IssueLog { issues: Vec::new() };
        assert(log@ =~= Seq::<IssueView>::empty());
        log
    }

    /// The log that holds these issues, as they were written down before the
    /// process ended. Issues that do not stand at the positions that their
    /// identities name are no log: they are refused.
    pub fn restore(issues: Vec<Issue>) -> (r: Option<IssueLog>)
        ensures
            match r {
                Some(log) => log.wf() && log@ == issues@.map_values(|issue: Issue| issue@),
                None => !ids_in_order(issues@.map_values(|issue: Issue| issue@)),
            },
    {
        let ghost views = issues@.map_values(|issue: Issue| issue@);
        let mut i: usize = 0;
        while i < issues.len()
            invariant
                i <= issues.len(),
                views == issues@.map_values(|issue: Issue| issue@),
                forall|k: int| 0 <= k < i ==> (#[trigger] views[k]).id == k,
            decreases issues.len() - i,
        {
            assert(views[i as int] == issues@[i as int]@);
            if issues[i].id != i as u64 {
                return None;
            }
            i += 1;
        }
        Some(IssueLog { issues })
    }

    /// The number of issues.
    pub fn len(&self) -> (n: usize)
        ensures
            n == self@.len(),
    {
        self.issues.len()
    }

    /// Adds an issue with this content and gives its identity.
    pub fn insert(&mut self, title: String, text_body: String, html_body: String) -> (id: IssueId)
        requires
            old(self).wf(),
        ensures
            final(self).wf(),
            id == old(self)@.len(),
            final(self)@ == old(self)@.push(
                IssueView { id, title: title@, text_body: text_body@, html_body: html_body@ },
            ),
    {
        let id = self.issues.len() as IssueId;
        let ghost row = IssueView { id, title: title@, text_body: text_body@, html_body: html_body@ };
        self.issues.push(Issue { id, title, text_body, html_body });
        assert(self@ =~= old(self)@.push(row));
        id
    }

    /// The issues, in order.
    pub fn issues(&self) -> (issues: &Vec<Issue>)
        ensures
            issues@.map_values(|issue: Issue| issue@) == self@,
    {
        &self.issues
    }

    /// The issue with this identity, if the log holds it.
    pub fn get(&self, id: IssueId) -> (r: Option<&Issue>)
        requires
            self.wf(),
        ensures
            match r {
                Some(issue) => id < self@.len() && issue@ == self@[id as int] && issue.id == id,
                None => id >= self@.len(),
            },
    {
        if id < self.issues.len() as u64 {
            let issue = &self.issues[id as usize];
            assert(self@[id as int] == self.issues@[id as int]@);
            Some(issue)
        } else {
            None
        }
    }

    /// Cuts the log back to its first `len` issues; a log that is not longer
    /// stays as it is.
    pub(crate) fn truncate(&mut self, len: usize)
        requires
            old(self).wf(),
        ensures
            final(self).wf(),
            final(self)@ == issues_truncated(old(self)@, len as nat),
    {
        self.issues.truncate(len);
        assert(len <= old(self)@.len() ==> self@ =~= old(self)@.take(len as int));
        assert(len > old(self)@.len() ==> self@ =~= old(self)@);
    }
}

} // verus!
