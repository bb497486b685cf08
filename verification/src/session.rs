use crate::errors::XetError;
use crate::gate::Permit;
use crate::transactions::{Completion, CompletionView, TransactionView, WriteTransaction, outcome_view};
use vstd::prelude::*;

verus! {

/// The state of a session cell, as contracts speak of it.
pub ghost struct CellView<H> {
    /// The serial number of the permit under which the session was opened. It tells the
    /// sessions of one gate apart.
    pub id: nat,
    /// The number of tokens that refer to the cell and have not been released.
    pub holders: nat,
    /// The transaction of the session; none once the last holder has let go.
    pub transaction: Option<TransactionView<H>>,
}

impl<H> CellView<H> {
    /// The cell of a session that has just been opened: it holds the transaction, and one token
    /// refers to it.
    pub open spec fn opened(transaction: TransactionView<H>) -> CellView<H> {
        CellView { id: transaction.permit, holders: 1, transaction: Some(transaction) }
    }

    /// The cell holds its transaction exactly as long as a token refers to it, and the
    /// transaction holds the permit that names the cell.
    pub open spec fn wf(self) -> bool {
        &&& (self.holders == 0) == (self.transaction is None)
        &&& self.transaction is Some ==> self.transaction->0.permit == self.id
    }

    /// Whether the cell still holds its transaction.
    pub open spec fn live(self) -> bool {
        self.transaction is Some
    }

    /// The transaction of a cell that holds one.
    pub open spec fn inner(self) -> TransactionView<H> {
        self.transaction->0
    }

    /// The cell with `transaction` in place of its own. A cell that holds none stays as it is.
    pub open spec fn with_transaction(self, transaction: TransactionView<H>) -> CellView<H> {
        if self.live() {
            CellView { transaction: Some(transaction), ..self }
        } else {
            self
        }
    }

    /// The cell after one more token was made for it. A cell that holds no transaction gets no
    /// new holder.
    pub open spec fn acquired(self) -> CellView<H> {
        if self.live() {
            CellView { holders: self.holders + 1, ..self }
        } else {
            self
        }
    }

    /// Whether a release would be that of the last holder.
    pub open spec fn last_holder(self) -> bool {
        self.holders <= 1
    }

    /// The cell after one holder has let go. With the last holder the transaction leaves.
    pub open spec fn released(self) -> CellView<H> {
        if self.last_holder() {
            CellView { holders: 0, transaction: None, ..self }
        } else {
            CellView { holders: (self.holders - 1) as nat, ..self }
        }
    }

    /// What a release comes to: the completion of the transaction where the last holder lets
    /// go, and nothing before that.
    pub open spec fn release_outcome(self) -> Result<CompletionView<H>, XetError> {
        if self.last_holder() && self.transaction is Some {
            self.transaction->0.completion()
        } else {
            Ok(CompletionView::Nothing)
        }
    }

    /// The serial number of the permit that a release sets free, if it sets one free.
    pub open spec fn release_permit(self) -> Option<nat> {
        if self.last_holder() && self.transaction is Some {
            Some(self.transaction->0.permit)
        } else {
            None
        }
    }
}

/// The serial number of a permit that may be there.
pub open spec fn permit_view(permit: Option<Permit>) -> Option<nat> {
    match permit {
        Some(p) => Some(p@),
        None => None,
    }
}

/// Whether a token with this view gives access to the transaction of `cell`: the token has not
/// been released, it was made for this cell, and the cell still holds its transaction.
pub open spec fn grants<H>(token: Option<nat>, cell: CellView<H>) -> bool {
    token == Some(cell.id) && cell.live()
}

/// The token after it was handed to a release on `cell`: gone, if it gave access to the cell.
pub open spec fn token_after_release<H>(token: Option<nat>, cell: CellView<H>) -> Option<nat> {
    if grants(token, cell) {
        None
    } else {
        token
    }
}

/// The cell after a token was handed to a release on it: one holder less, if the token gave
/// access to the cell.
pub open spec fn cell_after_release<H>(token: Option<nat>, cell: CellView<H>) -> CellView<H> {
    if grants(token, cell) {
        cell.released()
    } else {
        cell
    }
}

/// What the release of a token on `cell` comes to. Releasing a token that was released before
/// does nothing and succeeds; a token that gives no access to the cell is refused; the release
/// of any other token comes to what the cell says of it.
pub open spec fn release_result<H>(token: Option<nat>, cell: CellView<H>) -> Result<
    CompletionView<H>,
    XetError,
> {
    if token is None {
        Ok(CompletionView::Nothing)
    } else if !grants(token, cell) {
        Err(XetError::TransactionClosed)
    } else {
        cell.release_outcome()
    }
}

/// The serial number of the permit that the release of a token on `cell` sets free, if it sets
/// one free.
pub open spec fn released_permit<H>(token: Option<nat>, cell: CellView<H>) -> Option<nat> {
    if grants(token, cell) {
        cell.release_permit()
    } else {
        None
    }
}

/// The cell after the session has said how its transaction is to end: marked for commit, or
/// canceled. A session whose root token gives no access to the cell changes nothing.
pub open spec fn cell_flagged<H>(root: Option<nat>, cell: CellView<H>, commit: bool) -> CellView<H> {
    if grants(root, cell) {
        cell.with_transaction(
            if commit {
                cell.inner().with_commit_when_ready()
            } else {
                cell.inner().with_cancel_flag()
            },
        )
    } else {
        cell
    }
}

/// What happens to a session cell through the tokens that give access to it.
pub ghost enum SessionEvent {
    /// A holder opens a file for writing; the remote call succeeded or failed.
    Open { path: Seq<char>, remote_ok: bool },
    /// A holder deletes a file; the remote call succeeded or failed.
    Delete { path: Seq<char>, remote_ok: bool },
    /// A holder copies a file; the remote call succeeded or failed.
    Copy { src_branch: Seq<char>, src_path: Seq<char>, target_path: Seq<char>, remote_ok: bool },
    /// A holder moves a file; the remote call succeeded or failed.
    Move { src_path: Seq<char>, target_path: Seq<char>, remote_ok: bool },
    /// A holder cancels the transaction.
    Cancel,
    /// A holder makes another token.
    Duplicate,
    /// A holder lets go: a file is closed, or a token is released or discarded.
    Close,
    /// The session is completed, for commit or for cancellation: the flag is set, and the root
    /// token is released.
    Complete { commit: bool },
}

impl<H> CellView<H> {
    /// The cell after an event. A cell that holds no transaction has no token that gives
    /// access to it, and stays as it is.
    pub open spec fn step(self, event: SessionEvent) -> CellView<H> {
        if !self.live() {
            self
        } else {
            match event {
                SessionEvent::Open { path, remote_ok } => if self.inner().mutation(remote_ok) is Ok {
                    self.with_transaction(self.inner().open_for_write(path, remote_ok)).acquired()
                } else {
                    self
                },
                SessionEvent::Delete { path, remote_ok } => self.with_transaction(
                    self.inner().delete(path, remote_ok),
                ),
                SessionEvent::Copy {
                    src_branch,
                    src_path,
                    target_path,
                    remote_ok,
                } => self.with_transaction(
                    self.inner().copy(src_branch, src_path, target_path, remote_ok),
                ),
                SessionEvent::Move { src_path, target_path, remote_ok } => self.with_transaction(
                    self.inner().mv(src_path, target_path, remote_ok),
                ),
                SessionEvent::Cancel => self.with_transaction(self.inner().with_cancel_flag()),
                SessionEvent::Duplicate => self.acquired(),
                SessionEvent::Close => self.released(),
                SessionEvent::Complete { commit } => cell_flagged(
                    Some(self.id),
                    self,
                    commit,
                ).released(),
            }
        }
    }

    /// What an event comes to on the remote side, as far as the end of the remote transaction
    /// goes.
    pub open spec fn step_outcome(self, event: SessionEvent) -> Result<CompletionView<H>, XetError> {
        match event {
            SessionEvent::Close => self.release_outcome(),
            SessionEvent::Complete { commit } => cell_flagged(
                Some(self.id),
                self,
                commit,
            ).release_outcome(),
            _ => Ok(CompletionView::Nothing),
        }
    }

    /// Whether an event asks for the call that ends the remote transaction.
    pub open spec fn ends_remote(self, event: SessionEvent) -> bool {
        self.step_outcome(event) is Ok && self.step_outcome(event)->Ok_0.is_remote_call()
    }

    /// The cell after a run of events.
    pub open spec fn run(self, events: Seq<SessionEvent>) -> CellView<H>
        decreases events.len(),
    {
        if events.len() == 0 {
            self
        } else {
            self.step(events[0]).run(events.drop_first())
        }
    }

    /// How many events of a run ask for the call that ends the remote transaction.
    pub open spec fn remote_calls(self, events: Seq<SessionEvent>) -> nat
        decreases events.len(),
    {
        if events.len() == 0 {
            0
        } else {
            let here: nat = if self.ends_remote(events[0]) {
                1
            } else {
                0
            };
            here + self.step(events[0]).remote_calls(events.drop_first())
        }
    }

    /// Whether the completion of the transaction will call the remote side: the transaction is
    /// still open, and neither of the two switches is set that keep a completion from doing so.
    pub open spec fn calls_remote_on_completion(self) -> bool {
        self.live() && self.inner().is_open() && !self.inner().error_on_commit
            && !self.inner().do_not_commit
    }
}

/// The call that ends the remote transaction is asked for by nothing but the release of the
/// last holder: by an event that finds the cell with one holder and leaves it without its
/// transaction.
pub proof fn lemma_remote_call_only_at_last_release<H>(cell: CellView<H>, event: SessionEvent)
    requires
        cell.wf(),
    ensures
        cell.step(event).wf(),
        cell.ends_remote(event) ==> cell.holders == 1 && cell.live() && !cell.step(event).live()
            && (event is Close || event is Complete),
        cell.calls_remote_on_completion() && !cell.step(event).live() ==> cell.ends_remote(event),
{
}

/// Whatever is done in a session, in whatever order, files opened and closed, tokens made and
/// released, the session itself completed: the remote transaction is ended by at most one
/// call; no such call is asked for as long as a holder is left; and once the last holder has
/// let go, exactly one was asked for, unless the transaction was set to fail or to skip its
/// commit.
pub proof fn lemma_completed_exactly_once<H>(cell: CellView<H>, events: Seq<SessionEvent>)
    requires
        cell.wf(),
    ensures
        cell.run(events).wf(),
        cell.remote_calls(events) <= 1,
        !cell.live() ==> cell.remote_calls(events) == 0 && !cell.run(events).live(),
        cell.run(events).live() ==> cell.remote_calls(events) == 0,
        cell.calls_remote_on_completion() && !cell.run(events).live() ==> cell.remote_calls(events)
            == 1,
        cell.calls_remote_on_completion() && cell.run(events).live() ==> cell.run(
            events,
        ).calls_remote_on_completion(),
    decreases events.len(),
{
    if events.len() > 0 {
        let next = cell.step(events[0]);
        lemma_remote_call_only_at_last_release(cell, events[0]);
        lemma_completed_exactly_once(next, events.drop_first());
    }
}

/// Releasing a token twice is safe: once a token has been released on the cell that it gave
/// access to, releasing it again, on that cell or on any other, does nothing and succeeds.
pub proof fn lemma_release_is_idempotent<H>(token: Option<nat>, cell: CellView<H>, later: CellView<H>)
    requires
        grants(token, cell),
    ensures
        ({
            let released = token_after_release(token, cell);
            &&& released is None
            &&& token_after_release(released, later) is None
            &&& cell_after_release(released, later) == later
            &&& release_result(released, later) == Ok::<CompletionView<H>, XetError>(
                CompletionView::Nothing,
            )
            &&& released_permit(released, later) is None
        }),
{
}

/// The permit of a transaction comes out with the release that takes the transaction out of
/// its cell, whatever the completion comes to, and with no other release: it is neither lost
/// nor handed out twice.
pub proof fn lemma_permit_comes_out_with_the_transaction<H>(token: Option<nat>, cell: CellView<H>)
    requires
        cell.wf(),
    ensures
        ({
            let after = cell_after_release(token, cell);
            &&& after.wf()
            &&& released_permit(token, cell) is Some <==> cell.live() && !after.live()
            &&& released_permit(token, cell) is Some ==> released_permit(token, cell) == Some(
                cell.id,
            )
            &&& released_permit(token, after) is None || after.live()
            &&& release_result(token, cell) is Err && grants(token, cell) ==> released_permit(
                token,
                cell,
            ) is Some
        }),
{
}

/// What the holders of one write session share: the transaction, and the number of tokens that
/// refer to it.
///
/// The transaction is completed by the release that leaves the cell without a holder, and by no
/// other.
pub struct SessionCell<H> {
    id: u64,
    holders: usize,
    transaction: Option<WriteTransaction<H>>,
}

impl<H> View for SessionCell<H> {
    type V = CellView<H>;

    closed spec fn view(&self) -> CellView<H> {
        CellView {
            id: self.id as nat,
            holders: self.holders as nat,
            transaction: match self.transaction {
                Some(t) => Some(t@),
                None => None,
            },
        }
    }
}

/// A capability that gives access to the transaction of one session cell, until it is released.
///
/// A token is not copied: `duplicate` makes another one, which the cell counts.
#[derive(Debug)]
pub struct PyWriteTransactionAccessToken {
    tr: Option<u64>,
}

impl View for PyWriteTransactionAccessToken {
    type V = Option<nat>;

    closed spec fn view(&self) -> Option<nat> {
        match self.tr {
            Some(id) => Some(id as nat),
            None => None,
        }
    }
}

impl<H> SessionCell<H> {
    /// Puts a transaction into a cell of its own, and makes the first token for it.
    pub fn new(transaction: WriteTransaction<H>) -> (r: (SessionCell<H>, PyWriteTransactionAccessToken))
        ensures
            r.0@ == CellView::opened(transaction@),
            r.0@.wf(),
            r.1@ == Some(r.0@.id),
    {
        let id: u64 = transaction.permit_serial();
        let cell = SessionCell { id, holders: 1, transaction: Some(transaction) };
        (cell, PyWriteTransactionAccessToken { tr: Some(id) })
    }

    /// The serial number that names the session.
    pub fn id(&self) -> (n: u64)
        ensures
            n == self@.id,
    {
        self.id
    }

    /// The number of tokens that refer to the cell.
    pub fn holders(&self) -> (n: usize)
        ensures
            n == self@.holders,
    {
        self.holders
    }

    /// Whether the cell still holds its transaction.
    pub fn is_live(&self) -> (b: bool)
        ensures
            b == self@.live(),
    {
        self.transaction.is_some()
    }

    /// The transaction of the cell, while it holds one.
    pub fn transaction(&self) -> (t: Option<&WriteTransaction<H>>)
        ensures
            match t {
                Some(t) => self@.transaction == Some(t@),
                None => self@.transaction is None,
            },
    {
        self.transaction.as_ref()
    }

    /// Takes one holder off the cell. The last one takes the transaction with it: the
    /// transaction is completed, and its permit comes out.
    fn release_holder(&mut self) -> (r: (Result<Completion<H>, XetError>, Option<Permit>))
        ensures
            final(self)@ == old(self)@.released(),
            outcome_view(r.0) == old(self)@.release_outcome(),
            permit_view(r.1) == old(self)@.release_permit(),
    {
        if self.holders > 1 {
            self.holders = self.holders - 1;
            (Ok(Completion::Nothing), None)
        } else {
            self.holders = 0;
            match self.transaction.take() {
                Some(transaction) => {
                    let mut transaction = transaction;
                    let outcome = transaction.complete();
                    (outcome, Some(transaction.into_permit()))
                },
                None => (Ok(Completion::Nothing), None),
            }
        }
    }
}

impl PyWriteTransactionAccessToken {
    /// Whether the token has been released.
    pub fn is_released(&self) -> (b: bool)
        ensures
            b == (self@ is None),
    {
        self.tr.is_none()
    }

    /// Whether the token gives access to the transaction of `cell`.
    pub fn grants<H>(&self, cell: &SessionCell<H>) -> (b: bool)
        ensures
            b == grants(self@, cell@),
    {
        match self.tr {
            Some(id) => id == cell.id && cell.transaction.is_some(),
            None => false,
        }
    }
}

impl<H> WriteTransaction<H> {
    /// Gives a token back to the cell that it refers to.
    ///
    /// A token that was released before is left alone, and the call succeeds: nothing happens.
    /// A token that gives no access to `cell` is refused and stays as it is. Any other token is
    /// released, and the cell loses one holder. If it was the last one, the transaction is
    /// completed: the result holds the remote call that ends it, or the error of the
    /// completion, and the permit of the transaction, which is to go back to its gate once the
    /// remote call has been made.
    pub fn release_write_token(cell: &mut SessionCell<H>, handle: &mut PyWriteTransactionAccessToken) -> (r: (
        Result<Completion<H>, XetError>,
        Option<Permit>,
    ))
        ensures
            final(handle)@ == token_after_release(old(handle)@, old(cell)@),
            final(cell)@ == cell_after_release(old(handle)@, old(cell)@),
            outcome_view(r.0) == release_result(old(handle)@, old(cell)@),
            permit_view(r.1) == released_permit(old(handle)@, old(cell)@),
    {
        if handle.tr.is_none() {
            (Ok(Completion::Nothing), None)
        } else if !handle.grants(cell) {
            (Err(XetError::TransactionClosed), None)
        } else {
            handle.tr = None;
            cell.release_holder()
        }
    }
}

/// Whether a write may go on under a token with this view: the token has to give access to the
/// cell, and the transaction must not have been canceled.
pub open spec fn write_admission<H>(token: Option<nat>, cell: CellView<H>) -> Result<(), XetError> {
    if !grants(token, cell) {
        Err(XetError::TransactionClosed)
    } else if cell.inner().commit_canceled {
        Err(XetError::TransactionCanceled)
    } else {
        Ok(())
    }
}

/// The result of a mutation that is made through a token with this view.
pub open spec fn token_mutation<H>(token: Option<nat>, cell: CellView<H>, remote_ok: bool) -> Result<
    (),
    XetError,
> {
    if grants(token, cell) {
        cell.inner().mutation(remote_ok)
    } else {
        Err(XetError::TransactionClosed)
    }
}

/// The completion that a release comes to where its error, if any, is passed over.
pub open spec fn without_error<H>(r: Result<CompletionView<H>, XetError>) -> CompletionView<H> {
    match r {
        Ok(c) => c,
        Err(_) => CompletionView::Nothing,
    }
}

/// A file that is open for writing within a session. It holds a token of the session, so that
/// the transaction is not completed while the file is open.
#[derive(Debug)]
pub struct PyWFile {
    transaction_write_handle: PyWriteTransactionAccessToken,
}

impl View for PyWFile {
    type V = Option<nat>;

    closed spec fn view(&self) -> Option<nat> {
        self.transaction_write_handle@
    }
}

impl PyWriteTransactionAccessToken {
    /// Releases the token. See `WriteTransaction::release_write_token`.
    pub fn close<H>(&mut self, cell: &mut SessionCell<H>) -> (r: (
        Result<Completion<H>, XetError>,
        Option<Permit>,
    ))
        ensures
            final(self)@ == token_after_release(old(self)@, old(cell)@),
            final(cell)@ == cell_after_release(old(self)@, old(cell)@),
            outcome_view(r.0) == release_result(old(self)@, old(cell)@),
            permit_view(r.1) == released_permit(old(self)@, old(cell)@),
    {
        WriteTransaction::release_write_token(cell, self)
    }

    /// Releases the token. See `WriteTransaction::release_write_token`.
    pub fn release<H>(&mut self, cell: &mut SessionCell<H>) -> (r: (
        Result<Completion<H>, XetError>,
        Option<Permit>,
    ))
        ensures
            final(self)@ == token_after_release(old(self)@, old(cell)@),
            final(cell)@ == cell_after_release(old(self)@, old(cell)@),
            outcome_view(r.0) == release_result(old(self)@, old(cell)@),
            permit_view(r.1) == released_permit(old(self)@, old(cell)@),
    {
        WriteTransaction::release_write_token(cell, self)
    }

    /// Releases a token that is being discarded. The cell changes as in any release, and the
    /// remote call and the permit come out as in any release, but no error does: where the
    /// release fails, nothing is to be done on the remote side.
    pub fn release_on_drop<H>(self, cell: &mut SessionCell<H>) -> (r: (Completion<H>, Option<
        Permit,
    >))
        ensures
            final(cell)@ == cell_after_release(self@, old(cell)@),
            r.0@ == without_error(release_result(self@, old(cell)@)),
            permit_view(r.1) == released_permit(self@, old(cell)@),
    {
        let mut token = self;
        let (outcome, permit) = WriteTransaction::release_write_token(cell, &mut token);
        match outcome {
            Ok(completion) => (completion, permit),
            Err(_) => (Completion::Nothing, permit),
        }
    }

    /// Makes another token for the same cell.
    ///
    /// A token that gives access to `cell` is duplicated, and the cell counts one holder more.
    /// Any other token is refused, and the cell stays as it is.
    pub fn duplicate<H>(&self, cell: &mut SessionCell<H>) -> (r: Result<
        PyWriteTransactionAccessToken,
        XetError,
    >)
        requires
            old(cell)@.holders < usize::MAX,
        ensures
            grants(self@, old(cell)@) ==> r is Ok && r->Ok_0@ == self@ && final(cell)@ == old(
                cell,
            )@.acquired(),
            !grants(self@, old(cell)@) ==> r is Err && r->Err_0 == XetError::TransactionClosed
                && final(cell)@ == old(cell)@,
    {
        if self.grants(cell) {
            cell.holders = cell.holders + 1;
            Ok(PyWriteTransactionAccessToken { tr: self.tr })
        } else {
            Err(XetError::TransactionClosed)
        }
    }

    /// The remote handle of the transaction, for a call that changes the remote transaction.
    ///
    /// None is handed out where the token gives no access to `cell`, or where the transaction
    /// has been canceled or completed: no remote call is to be made then.
    pub fn remote_for_write<'a, H>(&self, cell: &'a SessionCell<H>) -> (r: Result<&'a H, XetError>)
        ensures
            match r {
                Ok(h) => grants(self@, cell@) && cell@.inner().admits() is Ok && cell@.inner().handle
                    == Some(*h),
                Err(e) => if grants(self@, cell@) {
                    cell@.inner().admits() == Err::<(), XetError>(e)
                } else {
                    e == XetError::TransactionClosed
                },
            },
    {
        if !self.grants(cell) {
            return Err(XetError::TransactionClosed);
        }
        match &cell.transaction {
            Some(t) => t.remote_for_write(),
            None => Err(XetError::TransactionClosed),
        }
    }

    /// The remote handle of the transaction, for a call that reads from the remote
    /// transaction. None is handed out where the token gives no access to `cell`, or where the
    /// transaction has been completed.
    pub fn remote<'a, H>(&self, cell: &'a SessionCell<H>) -> (r: Result<&'a H, XetError>)
        ensures
            match r {
                Ok(h) => grants(self@, cell@) && cell@.inner().handle == Some(*h),
                Err(e) => e == XetError::TransactionClosed && !(grants(self@, cell@)
                    && cell@.inner().is_open()),
            },
    {
        if !self.grants(cell) {
            return Err(XetError::TransactionClosed);
        }
        match &cell.transaction {
            Some(t) => t.remote(),
            None => Err(XetError::TransactionClosed),
        }
    }

    /// Marks the transaction for commit.
    pub fn set_commit_when_ready<H>(&self, cell: &mut SessionCell<H>) -> (r: Result<(), XetError>)
        ensures
            grants(self@, old(cell)@) ==> r is Ok && final(cell)@ == old(cell)@.with_transaction(
                old(cell)@.inner().with_commit_when_ready(),
            ),
            !grants(self@, old(cell)@) ==> r == Err::<(), XetError>(XetError::TransactionClosed)
                && final(cell)@ == old(cell)@,
    {
        if !self.grants(cell) {
            return Err(XetError::TransactionClosed);
        }
        match &mut cell.transaction {
            Some(t) => {
                t.set_commit_when_ready();
                Ok(())
            },
            None => Err(XetError::TransactionClosed),
        }
    }

    /// Cancels the transaction.
    pub fn set_cancel_flag<H>(&self, cell: &mut SessionCell<H>) -> (r: Result<(), XetError>)
        ensures
            grants(self@, old(cell)@) ==> r is Ok && final(cell)@ == old(cell)@.with_transaction(
                old(cell)@.inner().with_cancel_flag(),
            ),
            !grants(self@, old(cell)@) ==> r == Err::<(), XetError>(XetError::TransactionClosed)
                && final(cell)@ == old(cell)@,
    {
        if !self.grants(cell) {
            return Err(XetError::TransactionClosed);
        }
        match &mut cell.transaction {
            Some(t) => {
                t.set_cancel_flag();
                Ok(())
            },
            None => Err(XetError::TransactionClosed),
        }
    }

    /// Makes a commit of the transaction skip the remote call.
    pub fn set_do_not_commit<H>(&self, cell: &mut SessionCell<H>) -> (r: Result<(), XetError>)
        ensures
            grants(self@, old(cell)@) ==> r is Ok && final(cell)@ == old(cell)@.with_transaction(
                old(cell)@.inner().with_do_not_commit(),
            ),
            !grants(self@, old(cell)@) ==> r == Err::<(), XetError>(XetError::TransactionClosed)
                && final(cell)@ == old(cell)@,
    {
        if !self.grants(cell) {
            return Err(XetError::TransactionClosed);
        }
        match &mut cell.transaction {
            Some(t) => {
                t.set_do_not_commit();
                Ok(())
            },
            None => Err(XetError::TransactionClosed),
        }
    }

    /// Makes the completion of the transaction fail before any remote call.
    pub fn set_error_on_commit<H>(&self, cell: &mut SessionCell<H>) -> (r: Result<(), XetError>)
        ensures
            grants(self@, old(cell)@) ==> r is Ok && final(cell)@ == old(cell)@.with_transaction(
                old(cell)@.inner().with_error_on_commit(),
            ),
            !grants(self@, old(cell)@) ==> r == Err::<(), XetError>(XetError::TransactionClosed)
                && final(cell)@ == old(cell)@,
    {
        if !self.grants(cell) {
            return Err(XetError::TransactionClosed);
        }
        match &mut cell.transaction {
            Some(t) => {
                t.set_error_on_commit();
                Ok(())
            },
            None => Err(XetError::TransactionClosed),
        }
    }

    /// Records that `path` was opened for writing, where `remote_ok` says that the remote call
    /// succeeded, and makes the file that writes to it.
    ///
    /// On success the file is logged, and the new file holds a token of its own, which the cell
    /// counts. On failure nothing changes.
    pub fn open_for_write<H>(&self, cell: &mut SessionCell<H>, path: &str, remote_ok: bool) -> (r:
        Result<PyWFile, XetError>)
        requires
            old(cell)@.holders < usize::MAX,
        ensures
            match r {
                Ok(file) => {
                    &&& token_mutation(self@, old(cell)@, remote_ok) is Ok
                    &&& file@ == self@
                    &&& final(cell)@ == old(cell)@.with_transaction(
                        old(cell)@.inner().open_for_write(path@, remote_ok),
                    ).acquired()
                },
                Err(e) => {
                    &&& token_mutation(self@, old(cell)@, remote_ok) == Err::<(), XetError>(e)
                    &&& final(cell)@ == old(cell)@
                },
            },
    {
        if !self.grants(cell) {
            return Err(XetError::TransactionClosed);
        }
        let recorded = match &mut cell.transaction {
            Some(t) => t.open_for_write(path, remote_ok),
            None => Err(XetError::TransactionClosed),
        };
        match recorded {
            Ok(()) => {
                cell.holders = cell.holders + 1;
                Ok(
                    PyWFile {
                        transaction_write_handle: PyWriteTransactionAccessToken { tr: self.tr },
                    },
                )
            },
            Err(e) => Err(e),
        }
    }

    /// Records that `path` was deleted, where `remote_ok` says that the remote call succeeded.
    pub fn delete<H>(&self, cell: &mut SessionCell<H>, path: &str, remote_ok: bool) -> (r: Result<
        (),
        XetError,
    >)
        ensures
            r == token_mutation(self@, old(cell)@, remote_ok),
            grants(self@, old(cell)@) ==> final(cell)@ == old(cell)@.with_transaction(
                old(cell)@.inner().delete(path@, remote_ok),
            ),
            !grants(self@, old(cell)@) ==> final(cell)@ == old(cell)@,
    {
        if !self.grants(cell) {
            return Err(XetError::TransactionClosed);
        }
        match &mut cell.transaction {
            Some(t) => t.delete(path, remote_ok),
            None => Err(XetError::TransactionClosed),
        }
    }

    /// Records that `src_path` of `src_branch` was copied to `target_path`, where `remote_ok`
    /// says that the remote call succeeded.
    pub fn copy<H>(
        &self,
        cell: &mut SessionCell<H>,
        src_branch: &str,
        src_path: &str,
        target_path: &str,
        remote_ok: bool,
    ) -> (r: Result<(), XetError>)
        ensures
            r == token_mutation(self@, old(cell)@, remote_ok),
            grants(self@, old(cell)@) ==> final(cell)@ == old(cell)@.with_transaction(
                old(cell)@.inner().copy(src_branch@, src_path@, target_path@, remote_ok),
            ),
            !grants(self@, old(cell)@) ==> final(cell)@ == old(cell)@,
    {
        if !self.grants(cell) {
            return Err(XetError::TransactionClosed);
        }
        match &mut cell.transaction {
            Some(t) => t.copy(src_branch, src_path, target_path, remote_ok),
            None => Err(XetError::TransactionClosed),
        }
    }

    /// Records that `src_path` was moved to `target_path`, where `remote_ok` says that the
    /// remote call succeeded.
    pub fn mv<H>(
        &self,
        cell: &mut SessionCell<H>,
        src_path: &str,
        target_path: &str,
        remote_ok: bool,
    ) -> (r: Result<(), XetError>)
        ensures
            r == token_mutation(self@, old(cell)@, remote_ok),
            grants(self@, old(cell)@) ==> final(cell)@ == old(cell)@.with_transaction(
                old(cell)@.inner().mv(src_path@, target_path@, remote_ok),
            ),
            !grants(self@, old(cell)@) ==> final(cell)@ == old(cell)@,
    {
        if !self.grants(cell) {
            return Err(XetError::TransactionClosed);
        }
        match &mut cell.transaction {
            Some(t) => t.mv(src_path, target_path, remote_ok),
            None => Err(XetError::TransactionClosed),
        }
    }
}

impl PyWFile {
    /// Whether bytes may be written to the file now: not after the file has given its token
    /// back, and not after the transaction has been canceled.
    pub fn write<H>(&self, cell: &SessionCell<H>) -> (r: Result<(), XetError>)
        ensures
            r == write_admission(self@, cell@),
    {
        if !self.transaction_write_handle.grants(cell) {
            return Err(XetError::TransactionClosed);
        }
        match &cell.transaction {
            Some(t) => if t.commit_canceled() {
                Err(XetError::TransactionCanceled)
            } else {
                Ok(())
            },
            None => Err(XetError::TransactionClosed),
        }
    }

    /// Closes the file, where `writer_closed` says that the remote writer was closed with
    /// success.
    ///
    /// If the remote writer failed to close, the call fails and the file keeps its token.
    /// Otherwise the token is released, as `WriteTransaction::release_write_token` says.
    pub fn close<H>(&mut self, cell: &mut SessionCell<H>, writer_closed: bool) -> (r: (
        Result<Completion<H>, XetError>,
        Option<Permit>,
    ))
        ensures
            !writer_closed ==> {
                &&& final(self)@ == old(self)@
                &&& final(cell)@ == old(cell)@
                &&& outcome_view(r.0) == Err::<CompletionView<H>, XetError>(XetError::RemoteFailure)
                &&& r.1 is None
            },
            writer_closed ==> {
                &&& final(self)@ == token_after_release(old(self)@, old(cell)@)
                &&& final(cell)@ == cell_after_release(old(self)@, old(cell)@)
                &&& outcome_view(r.0) == release_result(old(self)@, old(cell)@)
                &&& permit_view(r.1) == released_permit(old(self)@, old(cell)@)
            },
    {
        if !writer_closed {
            return (Err(XetError::RemoteFailure), None);
        }
        self.transaction_write_handle.release(cell)
    }

    /// Makes another file object for the same remote writer. It holds a token of its own, which
    /// the cell counts. A file that gives no access to `cell` is not duplicated.
    pub fn duplicate<H>(&self, cell: &mut SessionCell<H>) -> (r: Result<PyWFile, XetError>)
        requires
            old(cell)@.holders < usize::MAX,
        ensures
            grants(self@, old(cell)@) ==> r is Ok && r->Ok_0@ == self@ && final(cell)@ == old(
                cell,
            )@.acquired(),
            !grants(self@, old(cell)@) ==> r is Err && r->Err_0 == XetError::TransactionClosed
                && final(cell)@ == old(cell)@,
    {
        match self.transaction_write_handle.duplicate(cell) {
            Ok(token) => Ok(PyWFile { transaction_write_handle: token }),
            Err(e) => Err(e),
        }
    }

    /// Releases the token of a file that is being discarded without having been closed. No
    /// error comes out of it.
    pub fn release_on_drop<H>(self, cell: &mut SessionCell<H>) -> (r: (Completion<H>, Option<
        Permit,
    >))
        ensures
            final(cell)@ == cell_after_release(self@, old(cell)@),
            r.0@ == without_error(release_result(self@, old(cell)@)),
            permit_view(r.1) == released_permit(self@, old(cell)@),
    {
        self.transaction_write_handle.release_on_drop(cell)
    }

    /// Whether the file still holds its token.
    pub fn holds_token(&self) -> (b: bool)
        ensures
            b == (self@ is Some),
    {
        !self.transaction_write_handle.is_released()
    }

    /// The file cannot be read.
    pub fn readable(&self) -> (b: bool)
        ensures
            !b,
    {
        false
    }

    /// The file has no cursor to move.
    pub fn seekable(&self) -> (b: bool)
        ensures
            !b,
    {
        false
    }

    /// The file can be written.
    pub fn writable(&self) -> (b: bool)
        ensures
            b,
    {
        true
    }
}

} // verus!
