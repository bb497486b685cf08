use crate::errors::XetError;
use crate::gate::Permit;
use crate::session::{
    CellView, PyWriteTransactionAccessToken, SessionCell, cell_after_release, cell_flagged, grants,
    permit_view, release_result, released_permit, token_after_release, without_error,
};
use crate::transactions::{Completion, TransactionView, WriteTransaction, outcome_view};
use vstd::prelude::*;
use vstd::string::StringExecFns;

verus! {

/// The state of a session, as contracts speak of it.
pub ghost struct SessionView {
    /// The root token of the session; none once the session has been completed.
    pub root: Option<nat>,
    /// The branch that the session writes to.
    pub branch: Seq<char>,
    /// The message of its commits.
    pub commit_message: Seq<char>,
}

/// Copies a list of names.
fn clone_names(names: &Vec<String>) -> (out: Vec<String>)
    ensures
        out.deep_view() == names.deep_view(),
{
    let mut out: Vec<String> = Vec::new();
    let mut i: usize = 0;
    while i < names.len()
        invariant
            i <= names.len(),
            out.len() == i,
            forall|j: int| 0 <= j < i ==> out@[j]@ == names@[j]@,
        decreases names.len() - i,
    {
        out.push(names[i].clone());
        i += 1;
    }
    assert(out.deep_view() =~= names.deep_view());
    out
}

/// Copies a list of pairs of names.
fn clone_pairs(pairs: &Vec<(String, String)>) -> (out: Vec<(String, String)>)
    ensures
        out.deep_view() == pairs.deep_view(),
{
    let mut out: Vec<(String, String)> = Vec::new();
    let mut i: usize = 0;
    while i < pairs.len()
        invariant
            i <= pairs.len(),
            out.len() == i,
            forall|j: int| 0 <= j < i ==> out@[j].0@ == pairs@[j].0@ && out@[j].1@ == pairs@[j].1@,
        decreases pairs.len() - i,
    {
        out.push((pairs[i].0.clone(), pairs[i].1.clone()));
        i += 1;
    }
    assert(out.deep_view() =~= pairs.deep_view());
    out
}

/// A write session: the root token of a session cell, and the branch and message with which a
/// session is opened again after a restart.
pub struct PyWriteTransaction {
    pwt: PyWriteTransactionAccessToken,
    branch: String,
    commit_message: String,
}

impl View for PyWriteTransaction {
    type V = SessionView;

    closed spec fn view(&self) -> SessionView {
        SessionView {
            root: self.pwt@,
            branch: self.branch@,
            commit_message: self.commit_message@,
        }
    }
}

impl PyWriteTransaction {
    /// Opens a session on a remote transaction that has just been begun on `branch`, under the
    /// permit that was acquired for it. The session holds the root token of the new cell.
    pub fn new<H>(handle: H, permit: Permit, branch: &str, commit_message: &str) -> (r: (
        PyWriteTransaction,
        SessionCell<H>,
    ))
        ensures
            r.0@ == (SessionView {
                root: Some(permit@),
                branch: branch@,
                commit_message: commit_message@,
            }),
            r.1@ == CellView::opened(
                TransactionView::opened(handle, permit@, branch@, commit_message@),
            ),
            r.1@.wf(),
            grants(r.0@.root, r.1@),
    {
        let transaction = WriteTransaction::new(handle, permit, branch, commit_message);
        let (cell, root) = SessionCell::new(transaction);
        let session = PyWriteTransaction {
            pwt: root,
            branch: String::from_str(branch),
            commit_message: String::from_str(commit_message),
        };
        (session, cell)
    }

    /// Whether the session has given its root token back.
    pub fn is_complete(&self) -> (b: bool)
        ensures
            b == (self@.root is None),
    {
        self.pwt.is_released()
    }

    /// The branch that the session writes to.
    pub fn branch(&self) -> (s: &str)
        ensures
            s@ == self@.branch,
    {
        self.branch.as_str()
    }

    /// The message of the commits of the session.
    pub fn commit_message(&self) -> (s: &str)
        ensures
            s@ == self@.commit_message,
    {
        self.commit_message.as_str()
    }

    /// Completes the session: marks its transaction for commit, or cancels it, and gives the
    /// root token back.
    ///
    /// The flag is set at once. The transaction itself is completed by this call only if no
    /// other token refers to the cell; otherwise that is left to the release of the last one.
    /// A session that was completed before is left alone, and the call succeeds.
    pub fn complete<H>(&mut self, cell: &mut SessionCell<H>, commit: bool) -> (r: (
        Result<Completion<H>, XetError>,
        Option<Permit>,
    ))
        ensures
            final(self)@ == (SessionView {
                root: token_after_release(old(self)@.root, old(cell)@),
                ..old(self)@
            }),
            final(cell)@ == cell_after_release(
                old(self)@.root,
                cell_flagged(old(self)@.root, old(cell)@, commit),
            ),
            outcome_view(r.0) == release_result(
                old(self)@.root,
                cell_flagged(old(self)@.root, old(cell)@, commit),
            ),
            permit_view(r.1) == released_permit(
                old(self)@.root,
                cell_flagged(old(self)@.root, old(cell)@, commit),
            ),
    {
        if self.pwt.grants(cell) {
            let _ = if commit {
                self.pwt.set_commit_when_ready(cell)
            } else {
                self.pwt.set_cancel_flag(cell)
            };
        }
        self.pwt.release(cell)
    }

    /// The first half of a restart: completes the session for commit, as `complete` does.
    ///
    /// The caller then makes the remote call that the result names, hands the permit back,
    /// begins a new remote transaction under a new permit, and calls `restart` with both.
    pub fn commit_and_restart<H>(&mut self, cell: &mut SessionCell<H>) -> (r: (
        Result<Completion<H>, XetError>,
        Option<Permit>,
    ))
        ensures
            final(self)@ == (SessionView {
                root: token_after_release(old(self)@.root, old(cell)@),
                ..old(self)@
            }),
            final(cell)@ == cell_after_release(
                old(self)@.root,
                cell_flagged(old(self)@.root, old(cell)@, true),
            ),
            outcome_view(r.0) == release_result(
                old(self)@.root,
                cell_flagged(old(self)@.root, old(cell)@, true),
            ),
            permit_view(r.1) == released_permit(
                old(self)@.root,
                cell_flagged(old(self)@.root, old(cell)@, true),
            ),
    {
        self.complete(cell, true)
    }

    /// The second half of a restart: opens a session with the branch and the message of this
    /// one, on a remote transaction that has just been begun.
    pub fn restart<H>(&self, handle: H, permit: Permit) -> (r: (PyWriteTransaction, SessionCell<H>))
        ensures
            r.0@ == (SessionView { root: Some(permit@), ..self@ }),
            r.1@ == CellView::opened(
                TransactionView::opened(handle, permit@, self@.branch, self@.commit_message),
            ),
            r.1@.wf(),
            grants(r.0@.root, r.1@),
    {
        PyWriteTransaction::new(handle, permit, self.branch.as_str(), self.commit_message.as_str())
    }

    /// Releases the root token of a session that is being discarded without having been
    /// completed. No flag is set, and no error comes out of it.
    pub fn release_on_drop<H>(self, cell: &mut SessionCell<H>) -> (r: (Completion<H>, Option<
        Permit,
    >))
        ensures
            final(cell)@ == cell_after_release(self@.root, old(cell)@),
            r.0@ == without_error(release_result(self@.root, old(cell)@)),
            permit_view(r.1) == released_permit(self@.root, old(cell)@),
    {
        self.pwt.release_on_drop(cell)
    }

    /// Makes a token that gives access to the transaction of the session.
    pub fn create_access_token<H>(&self, cell: &mut SessionCell<H>) -> (r: Result<
        PyWriteTransactionAccessToken,
        XetError,
    >)
        requires
            old(cell)@.holders < usize::MAX,
        ensures
            grants(self@.root, old(cell)@) ==> r is Ok && r->Ok_0@ == self@.root && final(cell)@
                == old(cell)@.acquired(),
            !grants(self@.root, old(cell)@) ==> r is Err && r->Err_0 == XetError::TransactionClosed
                && final(cell)@ == old(cell)@,
    {
        self.pwt.duplicate(cell)
    }

    /// The remote handle of the transaction of the session, for a call that reads from it.
    pub fn remote<'a, H>(&self, cell: &'a SessionCell<H>) -> (r: Result<&'a H, XetError>)
        ensures
            match r {
                Ok(h) => grants(self@.root, cell@) && cell@.inner().handle == Some(*h),
                Err(e) => e == XetError::TransactionClosed && !(grants(self@.root, cell@)
                    && cell@.inner().is_open()),
            },
    {
        self.pwt.remote(cell)
    }

    /// Passes on the size that the remote transaction reported, unless the session has been
    /// completed.
    pub fn transaction_size<H>(&self, cell: &SessionCell<H>, remote_size: usize) -> (r: Result<
        usize,
        XetError,
    >)
        ensures
            grants(self@.root, cell@) && cell@.inner().is_open() ==> r == Ok::<usize, XetError>(
                remote_size,
            ),
            !(grants(self@.root, cell@) && cell@.inner().is_open()) ==> r == Err::<usize, XetError>(
                XetError::TransactionClosed,
            ),
    {
        if !self.pwt.grants(cell) {
            return Err(XetError::TransactionClosed);
        }
        match cell.transaction() {
            Some(t) => t.transaction_size(remote_size),
            None => Err(XetError::TransactionClosed),
        }
    }

    /// Cancels the transaction of the session.
    pub fn set_cancel_flag<H>(&self, cell: &mut SessionCell<H>) -> (r: Result<(), XetError>)
        ensures
            grants(self@.root, old(cell)@) ==> r is Ok && final(cell)@ == old(cell)@.with_transaction(
                old(cell)@.inner().with_cancel_flag(),
            ),
            !grants(self@.root, old(cell)@) ==> r == Err::<(), XetError>(
                XetError::TransactionClosed,
            ) && final(cell)@ == old(cell)@,
    {
        self.pwt.set_cancel_flag(cell)
    }

    /// Makes a commit of the transaction of the session skip the remote call.
    pub fn set_do_not_commit<H>(&self, cell: &mut SessionCell<H>) -> (r: Result<(), XetError>)
        ensures
            grants(self@.root, old(cell)@) ==> r is Ok && final(cell)@ == old(cell)@.with_transaction(
                old(cell)@.inner().with_do_not_commit(),
            ),
            !grants(self@.root, old(cell)@) ==> r == Err::<(), XetError>(
                XetError::TransactionClosed,
            ) && final(cell)@ == old(cell)@,
    {
        self.pwt.set_do_not_commit(cell)
    }

    /// Makes the completion of the transaction of the session fail before any remote call.
    pub fn set_error_on_commit<H>(&self, cell: &mut SessionCell<H>) -> (r: Result<(), XetError>)
        ensures
            grants(self@.root, old(cell)@) ==> r is Ok && final(cell)@ == old(cell)@.with_transaction(
                old(cell)@.inner().with_error_on_commit(),
            ),
            !grants(self@.root, old(cell)@) ==> r == Err::<(), XetError>(
                XetError::TransactionClosed,
            ) && final(cell)@ == old(cell)@,
    {
        self.pwt.set_error_on_commit(cell)
    }

    /// The files opened for writing in the current transaction of the session.
    pub fn new_files<H>(&self, cell: &SessionCell<H>) -> (r: Result<Vec<String>, XetError>)
        ensures
            grants(self@.root, cell@) ==> r is Ok && r->Ok_0.deep_view() == cell@.inner().new_files,
            !grants(self@.root, cell@) ==> r is Err && r->Err_0 == XetError::TransactionClosed,
    {
        if !self.pwt.grants(cell) {
            return Err(XetError::TransactionClosed);
        }
        match cell.transaction() {
            Some(t) => Ok(clone_names(t.new_files())),
            None => Err(XetError::TransactionClosed),
        }
    }

    /// The copies made in the current transaction of the session.
    pub fn copies<H>(&self, cell: &SessionCell<H>) -> (r: Result<Vec<(String, String)>, XetError>)
        ensures
            grants(self@.root, cell@) ==> r is Ok && r->Ok_0.deep_view() == cell@.inner().copies,
            !grants(self@.root, cell@) ==> r is Err && r->Err_0 == XetError::TransactionClosed,
    {
        if !self.pwt.grants(cell) {
            return Err(XetError::TransactionClosed);
        }
        match cell.transaction() {
            Some(t) => Ok(clone_pairs(t.copies())),
            None => Err(XetError::TransactionClosed),
        }
    }

    /// The files deleted in the current transaction of the session.
    pub fn deletes<H>(&self, cell: &SessionCell<H>) -> (r: Result<Vec<String>, XetError>)
        ensures
            grants(self@.root, cell@) ==> r is Ok && r->Ok_0.deep_view() == cell@.inner().deletes,
            !grants(self@.root, cell@) ==> r is Err && r->Err_0 == XetError::TransactionClosed,
    {
        if !self.pwt.grants(cell) {
            return Err(XetError::TransactionClosed);
        }
        match cell.transaction() {
            Some(t) => Ok(clone_names(t.deletes())),
            None => Err(XetError::TransactionClosed),
        }
    }

    /// The moves made in the current transaction of the session.
    pub fn moves<H>(&self, cell: &SessionCell<H>) -> (r: Result<Vec<(String, String)>, XetError>)
        ensures
            grants(self@.root, cell@) ==> r is Ok && r->Ok_0.deep_view() == cell@.inner().moves,
            !grants(self@.root, cell@) ==> r is Err && r->Err_0 == XetError::TransactionClosed,
    {
        if !self.pwt.grants(cell) {
            return Err(XetError::TransactionClosed);
        }
        match cell.transaction() {
            Some(t) => Ok(clone_pairs(t.moves())),
            None => Err(XetError::TransactionClosed),
        }
    }
}

/// A restart leaves the session with a new transaction whose logs are empty, and out of reach
/// of the old one.
///
/// Take a session whose root token gives access to `cell`, complete it for commit, and open
/// it again under a new permit. Then the root token of the session gives access to the new
/// cell, which has one holder and empty logs, and no longer to the old one. If other tokens
/// referred to the old cell, it still holds its transaction, now marked for commit, with its
/// logs as they were, and those tokens still give access to it; if none did, the old
/// transaction has gone with the root token.
pub proof fn lemma_restart_starts_fresh<H>(
    session: SessionView,
    cell: CellView<H>,
    handle: H,
    permit: nat,
)
    requires
        cell.wf(),
        grants(session.root, cell),
        permit != cell.id,
    ensures
        ({
            let after = cell_after_release(session.root, cell_flagged(session.root, cell, true));
            let fresh = CellView::opened(
                TransactionView::opened(handle, permit, session.branch, session.commit_message),
            );
            let restarted = SessionView { root: Some(permit), ..session };
            &&& grants(restarted.root, fresh)
            &&& fresh.wf()
            &&& fresh.holders == 1
            &&& fresh.inner().logs_empty()
            &&& !grants(restarted.root, after)
            &&& after.wf()
            &&& cell.holders > 1 ==> {
                &&& grants(Some(cell.id), after)
                &&& after.holders == cell.holders - 1
                &&& after.inner() == cell.inner().with_commit_when_ready()
                &&& after.inner().new_files == cell.inner().new_files
                &&& after.inner().copies == cell.inner().copies
                &&& after.inner().deletes == cell.inner().deletes
                &&& after.inner().moves == cell.inner().moves
            }
            &&& cell.holders == 1 ==> !after.live()
        }),
{
}

} // verus!
