use crate::errors::XetError;
use crate::gate::Permit;
use vstd::prelude::*;
use vstd::string::StringExecFns;

verus! {

/// The name under which a path of a branch is logged: the branch, a slash, and the path.
pub open spec fn qualified(branch: Seq<char>, path: Seq<char>) -> Seq<char> {
    branch + seq!['/'] + path
}

/// Builds the name under which `path` of `branch` is logged.
pub fn qualify(branch: &str, path: &str) -> (s: String)
    ensures
        s@ == qualified(branch@, path@),
{
    proof {
        reveal_strlit("/");
    }
    assert("/"@ =~= seq!['/']);
    String::from_str(branch).concat("/").concat(path)
}

/// The one remote call, if any, that completes a transaction. It carries the remote handle on
/// which the call is to be made.
#[derive(Debug)]
pub enum Completion<H> {
    /// Nothing is to be done on the remote side.
    Nothing,
    /// The remote transaction is to be canceled.
    Cancel(H),
    /// The remote transaction is to be committed with this message.
    Commit(H, String),
}

/// A `Completion`, as contracts speak of it.
pub ghost enum CompletionView<H> {
    Nothing,
    Cancel(H),
    Commit(H, Seq<char>),
}

impl<H> View for Completion<H> {
    type V = CompletionView<H>;

    open spec fn view(&self) -> CompletionView<H> {
        match *self {
            Completion::Nothing => CompletionView::Nothing,
            Completion::Cancel(h) => CompletionView::Cancel(h),
            Completion::Commit(h, message) => CompletionView::Commit(h, message@),
        }
    }
}

impl<H> CompletionView<H> {
    /// Whether the completion asks for a call on the remote transaction.
    pub open spec fn is_remote_call(self) -> bool {
        self is Cancel || self is Commit
    }
}

/// The view of the outcome of a completion.
pub open spec fn outcome_view<H>(r: Result<Completion<H>, XetError>) -> Result<
    CompletionView<H>,
    XetError,
> {
    match r {
        Ok(c) => Ok(c@),
        Err(e) => Err(e),
    }
}

/// The state of a write transaction, as contracts speak of it.
pub ghost struct TransactionView<H> {
    /// The handle of the remote transaction; none once the transaction has been completed.
    pub handle: Option<H>,
    /// The serial number of the permit that the transaction holds.
    pub permit: nat,
    /// The branch that the transaction writes to.
    pub branch: Seq<char>,
    /// The message of the commit, should the transaction be committed.
    pub commit_message: Seq<char>,
    /// The files opened for writing, in the order in which the remote store accepted them.
    pub new_files: Seq<Seq<char>>,
    /// The copies made, each as source and destination.
    pub copies: Seq<(Seq<char>, Seq<char>)>,
    /// The files deleted.
    pub deletes: Seq<Seq<char>>,
    /// The moves made, each as source and destination.
    pub moves: Seq<(Seq<char>, Seq<char>)>,
    /// Whether the transaction is to be committed once its last holder lets go.
    pub commit_when_ready: bool,
    /// Whether the transaction has been canceled.
    pub commit_canceled: bool,
    /// Whether completing the transaction is to fail before any remote call.
    pub error_on_commit: bool,
    /// Whether a commit is to be skipped on the remote side.
    pub do_not_commit: bool,
}

impl<H> TransactionView<H> {
    /// A transaction that has just been opened on `branch`.
    pub open spec fn opened(
        handle: H,
        permit: nat,
        branch: Seq<char>,
        commit_message: Seq<char>,
    ) -> TransactionView<H> {
        TransactionView {
            handle: Some(handle),
            permit,
            branch,
            commit_message,
            new_files: Seq::empty(),
            copies: Seq::empty(),
            deletes: Seq::empty(),
            moves: Seq::empty(),
            commit_when_ready: false,
            commit_canceled: false,
            error_on_commit: false,
            do_not_commit: false,
        }
    }

    /// Whether the remote transaction is still to be completed.
    pub open spec fn is_open(self) -> bool {
        self.handle is Some
    }

    /// Whether nothing has been logged.
    pub open spec fn logs_empty(self) -> bool {
        &&& self.new_files.len() == 0
        &&& self.copies.len() == 0
        &&& self.deletes.len() == 0
        &&& self.moves.len() == 0
    }

    /// Whether the transaction takes a size query: not after it has been completed.
    pub open spec fn readable(self) -> Result<(), XetError> {
        if self.handle is None {
            Err(XetError::TransactionClosed)
        } else {
            Ok(())
        }
    }

    /// Whether the transaction takes another mutation: not after it has been canceled, and not
    /// after it has been completed. Cancellation is looked at first.
    pub open spec fn admits(self) -> Result<(), XetError> {
        if self.commit_canceled {
            Err(XetError::TransactionCanceled)
        } else {
            self.readable()
        }
    }

    /// The result of a mutation whose remote call succeeded or failed as `remote_ok` says. A
    /// mutation that the transaction does not admit fails whatever `remote_ok` is.
    pub open spec fn mutation(self, remote_ok: bool) -> Result<(), XetError> {
        if self.admits() is Err {
            self.admits()
        } else if !remote_ok {
            Err(XetError::RemoteFailure)
        } else {
            Ok(())
        }
    }

    /// The transaction after `open_for_write`.
    pub open spec fn open_for_write(self, path: Seq<char>, remote_ok: bool) -> TransactionView<H> {
        if self.mutation(remote_ok) is Ok {
            TransactionView { new_files: self.new_files.push(qualified(self.branch, path)), ..self }
        } else {
            self
        }
    }

    /// The transaction after `delete`.
    pub open spec fn delete(self, path: Seq<char>, remote_ok: bool) -> TransactionView<H> {
        if self.mutation(remote_ok) is Ok {
            TransactionView { deletes: self.deletes.push(qualified(self.branch, path)), ..self }
        } else {
            self
        }
    }

    /// The transaction after `copy`.
    pub open spec fn copy(
        self,
        src_branch: Seq<char>,
        src_path: Seq<char>,
        target_path: Seq<char>,
        remote_ok: bool,
    ) -> TransactionView<H> {
        if self.mutation(remote_ok) is Ok {
            TransactionView {
                copies: self.copies.push(
                    (qualified(src_branch, src_path), qualified(self.branch, target_path)),
                ),
                ..self
            }
        } else {
            self
        }
    }

    /// The transaction after `mv`.
    pub open spec fn mv(
        self,
        src_path: Seq<char>,
        target_path: Seq<char>,
        remote_ok: bool,
    ) -> TransactionView<H> {
        if self.mutation(remote_ok) is Ok {
            TransactionView {
                moves: self.moves.push(
                    (qualified(self.branch, src_path), qualified(self.branch, target_path)),
                ),
                ..self
            }
        } else {
            self
        }
    }

    /// The transaction once the caller has said that it is to be committed.
    pub open spec fn with_commit_when_ready(self) -> TransactionView<H> {
        TransactionView { commit_when_ready: true, ..self }
    }

    /// The transaction once it has been canceled.
    pub open spec fn with_cancel_flag(self) -> TransactionView<H> {
        TransactionView { commit_canceled: true, ..self }
    }

    /// The transaction once its commit is to be skipped.
    pub open spec fn with_do_not_commit(self) -> TransactionView<H> {
        TransactionView { do_not_commit: true, ..self }
    }

    /// The transaction once its completion is to fail.
    pub open spec fn with_error_on_commit(self) -> TransactionView<H> {
        TransactionView { error_on_commit: true, ..self }
    }

    /// What completing the transaction comes to.
    ///
    /// A transaction that has been completed before asks for nothing. Otherwise a completion
    /// that was set to fail fails; a transaction that was canceled, or never marked for commit,
    /// is canceled; one whose commit is to be skipped asks for nothing; and any other is
    /// committed with its message.
    pub open spec fn completion(self) -> Result<CompletionView<H>, XetError> {
        match self.handle {
            None => Ok(CompletionView::Nothing),
            Some(h) => if self.error_on_commit {
                Err(XetError::RemoteFailure)
            } else if self.commit_canceled || !self.commit_when_ready {
                Ok(CompletionView::Cancel(h))
            } else if self.do_not_commit {
                Ok(CompletionView::Nothing)
            } else {
                Ok(CompletionView::Commit(h, self.commit_message))
            },
        }
    }

    /// The transaction after it has been completed: its remote handle is gone.
    pub open spec fn completed(self) -> TransactionView<H> {
        TransactionView { handle: None, ..self }
    }
}

/// One write transaction: the handle of the remote transaction, the logs of what was done in
/// it, and the flags that decide how it ends.
///
/// The transaction makes no remote call. A mutation is recorded by the method of its name, which
/// takes the outcome of the remote call; `remote_for_write` says beforehand whether the call is
/// to be made at all. `complete` hands out the remote handle together with the call that ends
/// the remote transaction.
pub struct WriteTransaction<H> {
    transaction: Option<H>,
    branch: String,
    new_files: Vec<String>,
    copies: Vec<(String, String)>,
    deletes: Vec<String>,
    moves: Vec<(String, String)>,
    commit_when_ready: bool,
    error_on_commit: bool,
    do_not_commit: bool,
    commit_canceled: bool,
    commit_message: String,
    transaction_permit: Permit,
}

impl<H> View for WriteTransaction<H> {
    type V = TransactionView<H>;

    closed spec fn view(&self) -> TransactionView<H> {
        TransactionView {
            handle: self.transaction,
            permit: self.transaction_permit@,
            branch: self.branch@,
            commit_message: self.commit_message@,
            new_files: self.new_files.deep_view(),
            copies: self.copies.deep_view(),
            deletes: self.deletes.deep_view(),
            moves: self.moves.deep_view(),
            commit_when_ready: self.commit_when_ready,
            commit_canceled: self.commit_canceled,
            error_on_commit: self.error_on_commit,
            do_not_commit: self.do_not_commit,
        }
    }
}

impl<H> WriteTransaction<H> {
    /// Wraps a remote transaction that has just been begun on `branch`, and the permit that was
    /// acquired for it. The logs are empty and no flag is set.
    pub fn new(handle: H, permit: Permit, branch: &str, commit_message: &str) -> (t:
        WriteTransaction<H>)
        ensures
            t@ == TransactionView::opened(handle, permit@, branch@, commit_message@),
    {
        let t = WriteTransaction {
            transaction: Some(handle),
            branch: String::from_str(branch),
            commit_message: String::from_str(commit_message),
            copies: Vec::new(),
            deletes: Vec::new(),
            moves: Vec::new(),
            new_files: Vec::new(),
            do_not_commit: false,
            error_on_commit: false,
            commit_when_ready: false,
            transaction_permit: permit,
            commit_canceled: false,
        };
        assert(t@.new_files =~= Seq::empty());
        assert(t@.copies =~= Seq::empty());
        assert(t@.deletes =~= Seq::empty());
        assert(t@.moves =~= Seq::empty());
        t
    }

    /// Completes the transaction, and says which remote call, if any, ends the remote
    /// transaction.
    ///
    /// The remote handle leaves the transaction, so that a second call asks for nothing and
    /// succeeds. Flags and logs stay as they are.
    pub fn complete(&mut self) -> (r: Result<Completion<H>, XetError>)
        ensures
            final(self)@ == old(self)@.completed(),
            outcome_view(r) == old(self)@.completion(),
    {
        match self.transaction.take() {
            None => Ok(Completion::Nothing),
            Some(transaction) => {
                if self.error_on_commit {
                    Err(XetError::RemoteFailure)
                } else if self.commit_canceled || !self.commit_when_ready {
                    Ok(Completion::Cancel(transaction))
                } else if self.do_not_commit {
                    Ok(Completion::Nothing)
                } else {
                    Ok(Completion::Commit(transaction, self.commit_message.clone()))
                }
            },
        }
    }

    /// Marks the transaction for commit.
    pub fn set_commit_when_ready(&mut self)
        ensures
            final(self)@ == old(self)@.with_commit_when_ready(),
    {
        self.commit_when_ready = true;
    }

    /// Cancels the transaction: it takes no further mutation, and its completion cancels the
    /// remote transaction.
    pub fn set_cancel_flag(&mut self)
        ensures
            final(self)@ == old(self)@.with_cancel_flag(),
    {
        self.commit_canceled = true;
    }

    /// Makes a commit of this transaction skip the remote call.
    pub fn set_do_not_commit(&mut self)
        ensures
            final(self)@ == old(self)@.with_do_not_commit(),
    {
        self.do_not_commit = true;
    }

    /// Makes the completion of this transaction fail before any remote call.
    pub fn set_error_on_commit(&mut self)
        ensures
            final(self)@ == old(self)@.with_error_on_commit(),
    {
        self.error_on_commit = true;
    }

    /// The remote handle, for a call that reads from the remote transaction. A transaction that
    /// has been completed has none.
    pub fn remote(&self) -> (r: Result<&H, XetError>)
        ensures
            match r {
                Ok(h) => self@.readable() is Ok && self@.handle == Some(*h),
                Err(e) => self@.readable() == Err::<(), XetError>(e),
            },
    {
        match &self.transaction {
            Some(h) => Ok(h),
            None => Err(XetError::TransactionClosed),
        }
    }

    /// The remote handle, for a call that changes the remote transaction. A transaction that
    /// has been canceled or completed hands out none, so that no remote call is made for it.
    pub fn remote_for_write(&self) -> (r: Result<&H, XetError>)
        ensures
            match r {
                Ok(h) => self@.admits() is Ok && self@.handle == Some(*h),
                Err(e) => self@.admits() == Err::<(), XetError>(e),
            },
    {
        if self.commit_canceled {
            Err(XetError::TransactionCanceled)
        } else {
            self.remote()
        }
    }

    /// Records that `path` was opened for writing on the remote transaction, where `remote_ok`
    /// says that the remote call succeeded.
    ///
    /// The file is logged under its qualified name if and only if the result is `Ok`.
    pub fn open_for_write(&mut self, path: &str, remote_ok: bool) -> (r: Result<(), XetError>)
        ensures
            r == old(self)@.mutation(remote_ok),
            final(self)@ == old(self)@.open_for_write(path@, remote_ok),
    {
        if self.commit_canceled {
            return Err(XetError::TransactionCanceled);
        }
        if self.transaction.is_none() {
            return Err(XetError::TransactionClosed);
        }
        if !remote_ok {
            return Err(XetError::RemoteFailure);
        }
        let name = qualify(self.branch.as_str(), path);
        self.new_files.push(name);
        assert(self@.new_files =~= old(self)@.new_files.push(qualified(old(self)@.branch, path@)));
        Ok(())
    }

    /// Passes on the size that the remote transaction reported, unless the transaction has been
    /// completed.
    pub fn transaction_size(&self, remote_size: usize) -> (r: Result<usize, XetError>)
        ensures
            self@.is_open() ==> r == Ok::<usize, XetError>(remote_size),
            !self@.is_open() ==> r == Err::<usize, XetError>(XetError::TransactionClosed),
    {
        if self.transaction.is_some() {
            Ok(remote_size)
        } else {
            Err(XetError::TransactionClosed)
        }
    }

    /// Records that `path` was deleted on the remote transaction, where `remote_ok` says that
    /// the remote call succeeded.
    ///
    /// The file is logged under its qualified name if and only if the result is `Ok`.
    pub fn delete(&mut self, path: &str, remote_ok: bool) -> (r: Result<(), XetError>)
        ensures
            r == old(self)@.mutation(remote_ok),
            final(self)@ == old(self)@.delete(path@, remote_ok),
    {
        if self.commit_canceled {
            return Err(XetError::TransactionCanceled);
        }
        if self.transaction.is_none() {
            return Err(XetError::TransactionClosed);
        }
        if !remote_ok {
            return Err(XetError::RemoteFailure);
        }
        let name = qualify(self.branch.as_str(), path);
        self.deletes.push(name);
        assert(self@.deletes =~= old(self)@.deletes.push(qualified(old(self)@.branch, path@)));
        Ok(())
    }

    /// Records that `src_path` of `src_branch` was copied to `target_path` on the remote
    /// transaction, where `remote_ok` says that the remote call succeeded.
    ///
    /// The pair of qualified names is logged if and only if the result is `Ok`.
    pub fn copy(&mut self, src_branch: &str, src_path: &str, target_path: &str, remote_ok: bool) -> (r:
        Result<(), XetError>)
        ensures
            r == old(self)@.mutation(remote_ok),
            final(self)@ == old(self)@.copy(src_branch@, src_path@, target_path@, remote_ok),
    {
        if self.commit_canceled {
            return Err(XetError::TransactionCanceled);
        }
        if self.transaction.is_none() {
            return Err(XetError::TransactionClosed);
        }
        if !remote_ok {
            return Err(XetError::RemoteFailure);
        }
        let source = qualify(src_branch, src_path);
        let target = qualify(self.branch.as_str(), target_path);
        self.copies.push((source, target));
        assert(self@.copies =~= old(self)@.copies.push(
            (qualified(src_branch@, src_path@), qualified(old(self)@.branch, target_path@)),
        ));
        Ok(())
    }

    /// Records that `src_path` was moved to `target_path` on the remote transaction, where
    /// `remote_ok` says that the remote call succeeded.
    ///
    /// The pair of qualified names is logged if and only if the result is `Ok`.
    pub fn mv(&mut self, src_path: &str, target_path: &str, remote_ok: bool) -> (r: Result<
        (),
        XetError,
    >)
        ensures
            r == old(self)@.mutation(remote_ok),
            final(self)@ == old(self)@.mv(src_path@, target_path@, remote_ok),
    {
        if self.commit_canceled {
            return Err(XetError::TransactionCanceled);
        }
        if self.transaction.is_none() {
            return Err(XetError::TransactionClosed);
        }
        if !remote_ok {
            return Err(XetError::RemoteFailure);
        }
        let source = qualify(self.branch.as_str(), src_path);
        let target = qualify(self.branch.as_str(), target_path);
        self.moves.push((source, target));
        assert(self@.moves =~= old(self)@.moves.push(
            (qualified(old(self)@.branch, src_path@), qualified(old(self)@.branch, target_path@)),
        ));
        Ok(())
    }

    /// Ends the life of the transaction and hands out the permit that it held, so that the slot
    /// can go back to its gate.
    pub fn into_permit(self) -> (permit: Permit)
        ensures
            permit@ == self@.permit,
    {
        self.transaction_permit
    }

    /// The files opened for writing so far.
    pub fn new_files(&self) -> (v: &Vec<String>)
        ensures
            v.deep_view() == self@.new_files,
    {
        &self.new_files
    }

    /// The copies made so far.
    pub fn copies(&self) -> (v: &Vec<(String, String)>)
        ensures
            v.deep_view() == self@.copies,
    {
        &self.copies
    }

    /// The files deleted so far.
    pub fn deletes(&self) -> (v: &Vec<String>)
        ensures
            v.deep_view() == self@.deletes,
    {
        &self.deletes
    }

    /// The moves made so far.
    pub fn moves(&self) -> (v: &Vec<(String, String)>)
        ensures
            v.deep_view() == self@.moves,
    {
        &self.moves
    }

    /// Whether the transaction has been canceled.
    pub fn commit_canceled(&self) -> (b: bool)
        ensures
            b == self@.commit_canceled,
    {
        self.commit_canceled
    }

    /// Whether the remote transaction is still to be completed.
    pub fn is_open(&self) -> (b: bool)
        ensures
            b == self@.is_open(),
    {
        self.transaction.is_some()
    }

    /// The branch that the transaction writes to.
    pub fn branch(&self) -> (s: &str)
        ensures
            s@ == self@.branch,
    {
        self.branch.as_str()
    }

    /// The message of the commit.
    pub fn commit_message(&self) -> (s: &str)
        ensures
            s@ == self@.commit_message,
    {
        self.commit_message.as_str()
    }

    /// The serial number of the permit that the transaction holds.
    pub fn permit_serial(&self) -> (n: u64)
        ensures
            n == self@.permit,
    {
        self.transaction_permit.serial()
    }
}

/// One call of `delete`: the path, and whether the remote call succeeded.
pub ghost struct DeleteCall {
    pub path: Seq<char>,
    pub remote_ok: bool,
}

/// The names that a run of `delete` calls on `branch` logs, given that the transaction admits
/// mutations: the qualified name of each call whose remote call succeeded, in the order of the
/// calls.
pub open spec fn successful_deletes(branch: Seq<char>, calls: Seq<DeleteCall>) -> Seq<Seq<char>>
    decreases calls.len(),
{
    if calls.len() == 0 {
        Seq::empty()
    } else {
        let rest = successful_deletes(branch, calls.drop_first());
        if calls[0].remote_ok {
            seq![qualified(branch, calls[0].path)] + rest
        } else {
            rest
        }
    }
}

impl<H> TransactionView<H> {
    /// The transaction after a run of `delete` calls.
    pub open spec fn delete_all(self, calls: Seq<DeleteCall>) -> TransactionView<H>
        decreases calls.len(),
    {
        if calls.len() == 0 {
            self
        } else {
            self.delete(calls[0].path, calls[0].remote_ok).delete_all(calls.drop_first())
        }
    }
}

/// Completing a transaction a second time asks for nothing on the remote side, succeeds, and
/// changes nothing: whatever the first completion came to, the remote transaction is ended at
/// most once.
pub proof fn lemma_second_completion_is_noop<H>(t: TransactionView<H>)
    ensures
        t.completed().completion() == Ok::<CompletionView<H>, XetError>(CompletionView::Nothing),
        t.completed().completed() == t.completed(),
        !t.is_open() ==> t.completion() == Ok::<CompletionView<H>, XetError>(
            CompletionView::Nothing,
        ) && t.completed() == t,
{
}

/// A transaction that has been canceled refuses `open_for_write`, `delete`, `copy` and `mv`
/// with `TransactionCanceled`, whatever the remote call came to, and logs nothing. It stays
/// canceled through all of them, and no setter or completion takes the cancellation back.
pub proof fn lemma_canceled_rejects_mutations<H>(
    t: TransactionView<H>,
    src_branch: Seq<char>,
    src_path: Seq<char>,
    path: Seq<char>,
    remote_ok: bool,
)
    ensures
        t.with_cancel_flag().commit_canceled,
        t.commit_canceled ==> {
            &&& t.mutation(remote_ok) == Err::<(), XetError>(XetError::TransactionCanceled)
            &&& t.open_for_write(path, remote_ok) == t
            &&& t.delete(path, remote_ok) == t
            &&& t.copy(src_branch, src_path, path, remote_ok) == t
            &&& t.mv(src_path, path, remote_ok) == t
            &&& t.with_commit_when_ready().commit_canceled
            &&& t.with_do_not_commit().commit_canceled
            &&& t.with_error_on_commit().commit_canceled
            &&& t.completed().commit_canceled
        },
{
}

/// The completion of a canceled transaction never commits: it cancels the remote transaction,
/// unless it was set to fail or the transaction was completed before. Marking the transaction
/// for commit afterwards does not change that.
pub proof fn lemma_canceled_never_commits<H>(t: TransactionView<H>)
    requires
        t.commit_canceled,
    ensures
        !(t.completion() is Ok && t.completion()->Ok_0 is Commit),
        !(t.with_commit_when_ready().completion() is Ok && t.with_commit_when_ready().completion()->Ok_0 is Commit),
        t.is_open() && !t.error_on_commit ==> t.completion() == Ok::<CompletionView<H>, XetError>(
            CompletionView::Cancel(t.handle->0),
        ),
{
}

/// A run of `delete` calls on a transaction that admits mutations appends to the log of
/// deletes the qualified name of each call whose remote call succeeded, once, in the order of
/// the calls, and nothing for a call that failed. It changes nothing else. On a transaction
/// that admits no mutation the run changes nothing at all.
pub proof fn lemma_delete_log<H>(t: TransactionView<H>, calls: Seq<DeleteCall>)
    ensures
        t.admits() is Ok ==> t.delete_all(calls) == (TransactionView {
            deletes: t.deletes + successful_deletes(t.branch, calls),
            ..t
        }),
        t.admits() is Err ==> t.delete_all(calls) == t,
    decreases calls.len(),
{
    if calls.len() == 0 {
        assert(t.deletes + Seq::<Seq<char>>::empty() =~= t.deletes);
    } else {
        let next = t.delete(calls[0].path, calls[0].remote_ok);
        lemma_delete_log(next, calls.drop_first());
        if t.admits() is Ok {
            let rest = successful_deletes(t.branch, calls.drop_first());
            if calls[0].remote_ok {
                let name = qualified(t.branch, calls[0].path);
                assert(t.deletes.push(name) + rest =~= t.deletes + (seq![name] + rest));
            }
        }
    }
}

} // verus!
