//! The records of the crash database and their mathematical views.

use crate::text::{copy_texts, same_text};
use vstd::prelude::*;

verus! {

/// A label attached to an issue.
#[derive(Clone, Debug, PartialEq, Eq, PartialOrd, Ord, Hash)]
pub struct Label {
    pub id: usize,
    pub name: String,
    pub description: Option<String>,
}

/// Whether an issue is still open.
#[derive(Clone, Copy, Debug, PartialEq, Eq, PartialOrd, Ord, Hash, Structural)]
pub enum IssueState {
    Open,
    Closed,
}

/// One issue as the tracker reports it. Its identity is `number`.
#[derive(Clone, Debug, PartialEq, Eq, PartialOrd, Ord, Hash)]
pub struct Issue {
    pub id: usize,
    pub number: usize,
    pub state: IssueState,
    pub title: String,
    pub body: Option<String>,
    pub labels: Vec<Label>,
}

/// What the compiler prints about itself in a crash report.
#[derive(Clone, Debug, PartialEq, Eq, PartialOrd, Ord, Hash)]
pub struct RustcVersion {
    pub commit_hash: String,
    pub commit_date: String,
    pub host: String,
    pub release: String,
    pub llvm_version: String,
}

/// The signature of a crash, as far as a report shows it. A field is `None`
/// where the report has no such section.
#[derive(Clone, Debug, PartialEq, Eq, PartialOrd, Ord, Hash)]
pub struct Ice {
    pub backtrace: Option<Vec<String>>,
    pub flags: Option<Vec<String>>,
    pub ice_message: Option<String>,
    pub panic_message: Option<String>,
    pub query_stack: Option<Vec<String>>,
    pub version: Option<RustcVersion>,
}

/// A crash signature with the numbers of the issues that show it.
#[derive(Clone, Debug, PartialEq, Eq, PartialOrd, Ord, Hash)]
pub struct IceWithIssues {
    pub ice: Ice,
    pub issues: Vec<usize>,
}

/// A group of issues that look like duplicates of one another, and whether
/// one of them is still open.
#[derive(Clone, Debug, PartialEq, Eq, PartialOrd, Ord, Hash)]
pub struct DuplicateSignal {
    pub group: IceWithIssues,
    pub any_open: bool,
}

/// A label, with its texts as sequences of characters.
pub ghost struct LabelView {
    pub id: usize,
    pub name: Seq<char>,
    pub description: Option<Seq<char>>,
}

/// An issue, with its texts as sequences of characters.
pub ghost struct IssueView {
    pub id: usize,
    pub number: usize,
    pub state: IssueState,
    pub title: Seq<char>,
    pub body: Option<Seq<char>>,
    pub labels: Seq<LabelView>,
}

/// A compiler version, with its texts as sequences of characters.
pub ghost struct RustcVersionView {
    pub commit_hash: Seq<char>,
    pub commit_date: Seq<char>,
    pub host: Seq<char>,
    pub release: Seq<char>,
    pub llvm_version: Seq<char>,
}

/// A crash signature as a mathematical value. Two signatures are the same
/// crash exactly when these values are equal.
pub ghost struct IceView {
    pub backtrace: Option<Seq<Seq<char>>>,
    pub flags: Option<Seq<Seq<char>>>,
    pub ice_message: Option<Seq<char>>,
    pub panic_message: Option<Seq<char>>,
    pub query_stack: Option<Seq<Seq<char>>>,
    pub version: Option<RustcVersionView>,
}

/// A group: a signature and the numbers of its issues, in order.
pub ghost struct IceWithIssuesView {
    pub ice: IceView,
    pub issues: Seq<usize>,
}

/// A signal: a group and its open flag.
pub ghost struct DuplicateSignalView {
    pub group: IceWithIssuesView,
    pub any_open: bool,
}

impl IceView {
    /// No section of the report was found.
    pub open spec fn is_empty(self) -> bool {
        &&& self.backtrace is None
        &&& self.flags is None
        &&& self.ice_message is None
        &&& self.panic_message is None
        &&& self.query_stack is None
        &&& self.version is None
    }

    /// Both the compiler's error message and the query stack were found.
    pub open spec fn is_strong(self) -> bool {
        self.ice_message is Some && self.query_stack is Some
    }
}

impl View for Label {
    type V = LabelView;

    open spec fn view(&self) -> LabelView {
        LabelView { id: self.id, name: self.name@, description: self.description.deep_view() }
    }
}

impl View for Issue {
    type V = IssueView;

    open spec fn view(&self) -> IssueView {
        IssueView {
            id: self.id,
            number: self.number,
            state: self.state,
            title: self.title@,
            body: self.body.deep_view(),
            labels: self.labels@.map_values(|l: Label| l@),
        }
    }
}

impl View for RustcVersion {
    type V = RustcVersionView;

    open spec fn view(&self) -> RustcVersionView {
        RustcVersionView {
            commit_hash: self.commit_hash@,
            commit_date: self.commit_date@,
            host: self.host@,
            release: self.release@,
            llvm_version: self.llvm_version@,
        }
    }
}

impl View for Ice {
    type V = IceView;

    open spec fn view(&self) -> IceView {
        IceView {
            backtrace: self.backtrace.deep_view(),
            flags: self.flags.deep_view(),
            ice_message: self.ice_message.deep_view(),
            panic_message: self.panic_message.deep_view(),
            query_stack: self.query_stack.deep_view(),
            version: match self.version {
                Some(v) => Some(v@),
                None => None,
            },
        }
    }
}

impl View for IceWithIssues {
    type V = IceWithIssuesView;

    open spec fn view(&self) -> IceWithIssuesView {
        IceWithIssuesView { ice: self.ice@, issues: self.issues@ }
    }
}

impl View for DuplicateSignal {
    type V = DuplicateSignalView;

    open spec fn view(&self) -> DuplicateSignalView {
        DuplicateSignalView { group: self.group@, any_open: self.any_open }
    }
}

/// The text of an issue: its body, or nothing where it has none.
pub open spec fn body_text(body: Option<Seq<char>>) -> Seq<char> {
    match body {
        Some(t) => t,
        None => Seq::<char>::empty(),
    }
}

/// One of the labels has the name `name`.
pub open spec fn labelled(labels: Seq<LabelView>, name: Seq<char>) -> bool {
    exists|i: int| 0 <= i < labels.len() && (#[trigger] labels[i]).name == name
}

impl Issue {
    /// Whether the issue carries the label `name`.
    pub fn has_label(&self, name: &str) -> (r: bool)
        ensures
            r == labelled(self@.labels, name@),
    {
        let mut i: usize = 0;
        while i < self.labels.len()
            invariant
                i <= self.labels.len(),
                forall|j: int| 0 <= j < i ==> (#[trigger] self@.labels[j]).name != name@,
            decreases self.labels.len() - i,
        {
            assert(self@.labels[i as int] == self.labels@[i as int]@);
            if same_text(self.labels[i].name.as_str(), name) {
                return true;
            }
            i += 1;
        }
        false
    }

    /// The body of the issue, empty where the issue has none.
    pub fn text(&self) -> (t: &str)
        ensures
            t@ == body_text(self@.body),
    {
        match &self.body {
            Some(b) => b.as_str(),
            None => {
                let t = "";
                proof {
                    reveal_strlit("");
                }
                t
            },
        }
    }
}

impl RustcVersion {
    /// A copy with the same contents.
    pub fn copy(&self) -> (r: RustcVersion)
        ensures
            r@ == self@,
    {
        RustcVersion {
            commit_hash: self.commit_hash.clone(),
            commit_date: self.commit_date.clone(),
            host: self.host.clone(),
            release: self.release.clone(),
            llvm_version: self.llvm_version.clone(),
        }
    }
}

/// A copy of an optional text.
fn copy_text(t: &Option<String>) -> (r: Option<String>)
    ensures
        r.deep_view() == t.deep_view(),
{
    match t {
        Some(s) => Some(s.clone()),
        None => None,
    }
}

/// A copy of an optional list of texts.
fn copy_list(t: &Option<Vec<String>>) -> (r: Option<Vec<String>>)
    ensures
        r.deep_view() == t.deep_view(),
{
    match t {
        Some(v) => Some(copy_texts(v)),
        None => None,
    }
}

impl Ice {
    /// Whether no section of the report was found.
    pub fn is_empty(&self) -> (r: bool)
        ensures
            r == self@.is_empty(),
    {
        self.backtrace.is_none() && self.flags.is_none() && self.ice_message.is_none()
            && self.panic_message.is_none() && self.query_stack.is_none()
            && self.version.is_none()
    }

    /// Whether both the compiler's error message and the query stack were found.
    pub fn is_strong(&self) -> (r: bool)
        ensures
            r == self@.is_strong(),
    {
        self.ice_message.is_some() && self.query_stack.is_some()
    }

    /// A copy with the same contents.
    pub fn copy(&self) -> (r: Ice)
        ensures
            r@ == self@,
    {
        Ice {
            backtrace: copy_list(&self.backtrace),
            flags: copy_list(&self.flags),
            ice_message: copy_text(&self.ice_message),
            panic_message: copy_text(&self.panic_message),
            query_stack: copy_list(&self.query_stack),
            version: match &self.version {
                Some(v) => Some(v.copy()),
                None => None,
            },
        }
    }
}

impl IceWithIssues {
    /// A copy with the same contents.
    pub fn copy(&self) -> (r: IceWithIssues)
        ensures
            r@ == self@,
    {
        IceWithIssues { ice: self.ice.copy(), issues: self.issues.clone() }
    }
}

} // verus!
