//! The issue repository: the content of each newsletter issue, written once
//! per publish and never changed.

use crate::table::{Key, Table};
use vstd::prelude::*;
use vstd::relations::injective_on;
use vstd::set_lib::lemma_map_size;

verus! {

/// One newsletter issue.
#[derive(Debug, Clone, PartialEq, Eq)]
pub struct NewsletterIssue {
    pub title: String,
    pub html_content: String,
    pub text_content: String,
    pub published_at: u64,
}

/// An issue as contracts see it.
pub struct IssueView {
    pub title: Seq<char>,
    pub html_content: Seq<char>,
    pub text_content: Seq<char>,
    pub published_at: int,
}

impl View for NewsletterIssue {
    type V = IssueView;

    open spec fn view(&self) -> IssueView {
        IssueView {
            title: self.title@,
            html_content: self.html_content@,
            text_content: self.text_content@,
            published_at: self.published_at as int,
        }
    }
}

impl NewsletterIssue {
    /// A copy of this issue.
    pub fn duplicate(&self) -> (copy: NewsletterIssue)
        ensures
            copy@ == self@,
    {
        NewsletterIssue {
            title: self.title.clone(),
            html_content: self.html_content.clone(),
            text_content: self.text_content.clone(),
            published_at: self.published_at,
        }
    }
}

/// The repository as contracts see it: the issues by identifier.
pub type IssuesView = Map<u128, IssueView>;

/// The identifier is taken by an earlier issue.
#[derive(Debug, Clone, Copy, PartialEq, Eq)]
pub struct DuplicateIssueId;

/// The issues, each under its identifier.
pub struct IssueRepository {
    issues: Table<NewsletterIssue>,
}

/// The key under which the table keeps the issue `id`: the identifier, with
/// no name beside it.
pub open spec fn issue_key(id: u128) -> Key {
    (id, Seq::<char>::empty())
}

impl View for IssueRepository {
    type V = IssuesView;

    closed spec fn view(&self) -> IssuesView {
        Map::new(|id: u128| self.issues@.contains_key(issue_key(id)), |id: u128| self.issues@[issue_key(id)]@)
    }
}

impl IssueRepository {
    /// No identifier is held twice.
    pub closed spec fn wf(&self) -> bool {
        &&& self.issues.wf()
        &&& forall|k: Key| #[trigger] self.issues@.contains_key(k) ==> k.1 == Seq::<char>::empty()
    }

    /// A repository without issues.
    pub fn new() -> (repository: IssueRepository)
        ensures
            repository.wf(),
            repository@ == Map::<u128, IssueView>::empty(),
    {
        let repository = IssueRepository { issues: Table::new() };
        assert(repository@ =~= Map::<u128, IssueView>::empty());
        repository
    }

    /// The number of issues.
    pub fn len(&self) -> (n: usize)
        requires
            self.wf(),
        ensures
            self@.dom().finite(),
            n == self@.dom().len(),
    {
        let n = self.issues.len();
        proof {
            let keys = self.issues@.dom();
            let first = |k: Key| k.0;
            assert(injective_on(first, keys)) by {
                assert forall|a: Key, b: Key|
                    keys.contains(a) && keys.contains(b) && #[trigger] first(a) == #[trigger] first(b) implies a
                    == b by {
                    assert(self.issues@.contains_key(a));
                    assert(self.issues@.contains_key(b));
                    assert(a.1 =~= b.1);
                }
            }
            assert(keys.map(first) =~= self@.dom()) by {
                assert forall|id: u128| #[trigger] self@.dom().contains(id) implies keys.map(first).contains(
                    id,
                ) by {
                    assert(keys.contains(issue_key(id)) && first(issue_key(id)) == id);
                }
                assert forall|id: u128| #[trigger] keys.map(first).contains(id) implies self@.dom().contains(
                    id,
                ) by {
                    let k = choose|k: Key| keys.contains(k) && id == first(k);
                    assert(self.issues@.contains_key(k));
                    assert(k.1 =~= Seq::<char>::empty());
                    assert(k == issue_key(id));
                }
            }
            lemma_map_size(keys, self@.dom(), first);
        }
        n
    }

    /// Whether an issue stands under `id`.
    pub fn contains(&self, id: u128) -> (found: bool)
        requires
            self.wf(),
        ensures
            found == self@.contains_key(id),
    {
        let name = String::new();
        self.issues.position(id, &name).is_some()
    }

    /// The issue under `id`, if there is one.
    pub fn get_issue(&self, id: u128) -> (r: Option<NewsletterIssue>)
        requires
            self.wf(),
        ensures
            match r {
                Some(issue) => self@.contains_key(id) && self@[id] == issue@,
                None => !self@.contains_key(id),
            },
    {
        let name = String::new();
        match self.issues.position(id, &name) {
            Some(i) => Some(self.issues.row(i).value.duplicate()),
            None => None,
        }
    }

    /// Writes an issue under the identifier `id`. It fails, and changes
    /// nothing, where `id` is taken.
    pub fn insert_into_newsletter_issue(&mut self, id: u128, issue: NewsletterIssue) -> (r: Result<(), DuplicateIssueId>)
        requires
            old(self).wf(),
        ensures
            final(self).wf(),
            r is Ok <==> !old(self)@.contains_key(id),
            r is Ok ==> final(self)@ == old(self)@.insert(id, issue@),
            r is Err ==> final(self)@ == old(self)@,
    {
        let name = String::new();
        match self.issues.position(id, &name) {
            Some(_) => Err(DuplicateIssueId),
            None => {
                let _ = self.issues.insert(id, name, issue);
                assert(self@ =~= old(self)@.insert(id, issue@)) by {
                    assert forall|j: u128| #[trigger] self@.contains_key(j) <==> old(self)@.insert(
                        id,
                        issue@,
                    ).contains_key(j) by {
                        assert(issue_key(j) == issue_key(id) <==> j == id);
                    }
                }
                Ok(())
            },
        }
    }
}

} // verus!
