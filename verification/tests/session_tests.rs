use pyxet::errors::XetError;
use pyxet::facade::PyWriteTransaction;
use pyxet::gate::{ConcurrencyGate, Permit};
use pyxet::session::{PyWriteTransactionAccessToken, SessionCell};
use pyxet::transactions::{Completion, WriteTransaction};

fn permit_of(gate: &mut ConcurrencyGate) -> Permit {
    match gate.acquire() {
        Ok(Some(permit)) => permit,
        other => panic!("expected a permit, got {:?}", other),
    }
}

fn session(gate: &mut ConcurrencyGate, handle: &'static str) -> (PyWriteTransaction, SessionCell<&'static str>) {
    let permit = permit_of(gate);
    PyWriteTransaction::new(handle, permit, "main", "msg")
}

#[test]
fn new_session_has_one_holder_and_empty_logs() {
    let mut gate = ConcurrencyGate::new(3);
    let (s, cell) = session(&mut gate, "r");
    assert!(!s.is_complete());
    assert_eq!(s.branch(), "main");
    assert_eq!(s.commit_message(), "msg");
    assert!(cell.is_live());
    assert_eq!(cell.holders(), 1);
    assert_eq!(cell.id(), 0);
    assert_eq!(s.new_files(&cell), Ok(vec![]));
    assert_eq!(s.copies(&cell), Ok(vec![]));
    assert_eq!(s.deletes(&cell), Ok(vec![]));
    assert_eq!(s.moves(&cell), Ok(vec![]));
    assert_eq!(s.remote(&cell), Ok(&"r"));
    assert_eq!(s.transaction_size(&cell, 42), Ok(42));
}

#[test]
fn commit_happens_once_after_the_last_token_is_released() {
    let mut gate = ConcurrencyGate::new(1);
    let (mut s, mut cell) = session(&mut gate, "r");
    let token = s.create_access_token(&mut cell).unwrap();
    assert_eq!(cell.holders(), 2);

    let mut a = token.open_for_write(&mut cell, "a", true).unwrap();
    let mut b = token.open_for_write(&mut cell, "b", true).unwrap();
    assert_eq!(cell.holders(), 4);

    // The session is completed first: the flag is set, nothing is called.
    let (outcome, permit) = s.complete(&mut cell, true);
    assert!(matches!(outcome, Ok(Completion::Nothing)));
    assert!(permit.is_none());
    assert!(s.is_complete());
    assert_eq!(cell.holders(), 3);
    assert!(cell.is_live());

    let (outcome, permit) = a.close(&mut cell, true);
    assert!(matches!(outcome, Ok(Completion::Nothing)));
    assert!(permit.is_none());

    let mut token = token;
    let (outcome, permit) = token.close(&mut cell);
    assert!(matches!(outcome, Ok(Completion::Nothing)));
    assert!(permit.is_none());
    assert_eq!(cell.holders(), 1);

    // The last holder commits.
    let (outcome, permit) = b.close(&mut cell, true);
    match outcome {
        Ok(Completion::Commit(handle, message)) => {
            assert_eq!(handle, "r");
            assert_eq!(message, "msg");
        }
        other => panic!("expected a commit, got {:?}", other),
    }
    let permit = permit.expect("the permit comes out with the completion");
    assert_eq!(permit.serial(), cell.id());
    assert!(!cell.is_live());
    assert_eq!(cell.holders(), 0);
    gate.release(permit);
    assert_eq!(gate.available_permits(), 1);

    // Whatever is released afterwards asks for nothing.
    assert!(matches!(b.close(&mut cell, true), (Ok(Completion::Nothing), None)));
    assert!(matches!(a.close(&mut cell, true), (Ok(Completion::Nothing), None)));
    assert!(matches!(s.complete(&mut cell, true), (Ok(Completion::Nothing), None)));
}

#[test]
fn session_alone_completes_at_once() {
    let mut gate = ConcurrencyGate::new(1);
    let (mut s, mut cell) = session(&mut gate, "r");
    let (outcome, permit) = s.complete(&mut cell, true);
    assert!(matches!(outcome, Ok(Completion::Commit("r", _))));
    assert!(permit.is_some());
    assert!(!cell.is_live());
}

#[test]
fn complete_without_commit_cancels() {
    let mut gate = ConcurrencyGate::new(1);
    let (mut s, mut cell) = session(&mut gate, "r");
    let (outcome, permit) = s.complete(&mut cell, false);
    assert!(matches!(outcome, Ok(Completion::Cancel("r"))));
    assert!(permit.is_some());
}

#[test]
fn complete_twice_is_a_noop_the_second_time() {
    let mut gate = ConcurrencyGate::new(1);
    let (mut s, mut cell) = session(&mut gate, "r");
    let (first, _permit) = s.complete(&mut cell, true);
    assert!(matches!(first, Ok(Completion::Commit("r", _))));
    let (second, permit) = s.complete(&mut cell, true);
    assert!(matches!(second, Ok(Completion::Nothing)));
    assert!(permit.is_none());
    let (third, permit) = s.complete(&mut cell, false);
    assert!(matches!(third, Ok(Completion::Nothing)));
    assert!(permit.is_none());
}

#[test]
fn release_is_idempotent() {
    let mut gate = ConcurrencyGate::new(1);
    let (s, mut cell) = session(&mut gate, "r");
    let mut token = s.create_access_token(&mut cell).unwrap();
    assert!(!token.is_released());
    assert!(matches!(token.release(&mut cell), (Ok(Completion::Nothing), None)));
    assert!(token.is_released());
    assert_eq!(cell.holders(), 1);
    assert!(matches!(token.release(&mut cell), (Ok(Completion::Nothing), None)));
    assert!(matches!(token.close(&mut cell), (Ok(Completion::Nothing), None)));
    assert_eq!(cell.holders(), 1);
    assert!(matches!(
        WriteTransaction::release_write_token(&mut cell, &mut token),
        (Ok(Completion::Nothing), None)
    ));
    assert_eq!(cell.holders(), 1);
    assert!(cell.is_live());
}

#[test]
fn released_token_gives_no_access() {
    let mut gate = ConcurrencyGate::new(1);
    let (s, mut cell) = session(&mut gate, "r");
    let mut token = s.create_access_token(&mut cell).unwrap();
    token.release(&mut cell).0.unwrap();
    assert!(!token.grants(&cell));
    assert_eq!(token.delete(&mut cell, "a", true), Err(XetError::TransactionClosed));
    assert_eq!(token.copy(&mut cell, "dev", "a", "b", true), Err(XetError::TransactionClosed));
    assert_eq!(token.mv(&mut cell, "a", "b", true), Err(XetError::TransactionClosed));
    assert!(matches!(token.open_for_write(&mut cell, "a", true), Err(XetError::TransactionClosed)));
    assert!(matches!(token.duplicate(&mut cell), Err(XetError::TransactionClosed)));
    assert_eq!(token.remote_for_write(&cell), Err(XetError::TransactionClosed));
    assert_eq!(token.remote(&cell), Err(XetError::TransactionClosed));
    assert_eq!(token.set_cancel_flag(&mut cell), Err(XetError::TransactionClosed));
    assert_eq!(s.deletes(&cell), Ok(vec![]));
    assert_eq!(cell.holders(), 1);
}

#[test]
fn token_operations_are_logged_in_the_shared_transaction() {
    let mut gate = ConcurrencyGate::new(1);
    let (s, mut cell) = session(&mut gate, "r");
    let one = s.create_access_token(&mut cell).unwrap();
    let two = one.duplicate(&mut cell).unwrap();
    assert_eq!(cell.holders(), 3);
    assert_eq!(one.remote_for_write(&cell), Ok(&"r"));
    assert_eq!(one.delete(&mut cell, "x", true), Ok(()));
    assert_eq!(two.delete(&mut cell, "y", true), Ok(()));
    assert_eq!(two.copy(&mut cell, "dev", "a", "b", true), Ok(()));
    assert_eq!(one.mv(&mut cell, "p", "q", true), Ok(()));
    let _file = two.open_for_write(&mut cell, "w", true).unwrap();
    assert_eq!(s.deletes(&cell), Ok(vec!["main/x".to_string(), "main/y".to_string()]));
    assert_eq!(s.copies(&cell), Ok(vec![("dev/a".to_string(), "main/b".to_string())]));
    assert_eq!(s.moves(&cell), Ok(vec![("main/p".to_string(), "main/q".to_string())]));
    assert_eq!(s.new_files(&cell), Ok(vec!["main/w".to_string()]));
    assert_eq!(cell.holders(), 4);
}

#[test]
fn failed_open_makes_no_file_and_no_holder() {
    let mut gate = ConcurrencyGate::new(1);
    let (s, mut cell) = session(&mut gate, "r");
    let token = s.create_access_token(&mut cell).unwrap();
    assert!(matches!(token.open_for_write(&mut cell, "a", false), Err(XetError::RemoteFailure)));
    assert_eq!(cell.holders(), 2);
    assert_eq!(s.new_files(&cell), Ok(vec![]));
}

#[test]
fn canceled_session_rejects_new_operations_through_tokens() {
    let mut gate = ConcurrencyGate::new(1);
    let (s, mut cell) = session(&mut gate, "r");
    let token = s.create_access_token(&mut cell).unwrap();
    s.set_cancel_flag(&mut cell).unwrap();
    assert_eq!(token.remote_for_write(&cell), Err(XetError::TransactionCanceled));
    assert!(matches!(token.open_for_write(&mut cell, "a", true), Err(XetError::TransactionCanceled)));
    assert_eq!(token.delete(&mut cell, "a", true), Err(XetError::TransactionCanceled));
    assert_eq!(token.copy(&mut cell, "dev", "a", "b", true), Err(XetError::TransactionCanceled));
    assert_eq!(token.mv(&mut cell, "a", "b", true), Err(XetError::TransactionCanceled));
    assert_eq!(s.new_files(&cell), Ok(vec![]));
    assert_eq!(s.deletes(&cell), Ok(vec![]));
    assert_eq!(s.copies(&cell), Ok(vec![]));
    assert_eq!(s.moves(&cell), Ok(vec![]));
    assert_eq!(cell.holders(), 2);
}

#[test]
fn cancel_after_open_ends_in_remote_cancel() {
    let mut gate = ConcurrencyGate::new(1);
    let (mut s, mut cell) = session(&mut gate, "r");
    let token = s.create_access_token(&mut cell).unwrap();

    // A file is opened and written to.
    let mut file = token.open_for_write(&mut cell, "a", true).unwrap();
    assert_eq!(file.write(&cell), Ok(()));

    // After the cancellation the writer is told so on its next write.
    s.set_cancel_flag(&mut cell).unwrap();
    assert_eq!(file.write(&cell), Err(XetError::TransactionCanceled));
    assert_eq!(s.new_files(&cell), Ok(vec!["main/a".to_string()]));

    // Closing the writer and the token ends nothing yet.
    let mut token = token;
    assert!(matches!(token.close(&mut cell), (Ok(Completion::Nothing), None)));
    assert!(matches!(file.close(&mut cell, true), (Ok(Completion::Nothing), None)));

    // Completing the session, even for commit, cancels the remote transaction.
    let (outcome, permit) = s.complete(&mut cell, true);
    assert!(matches!(outcome, Ok(Completion::Cancel("r"))));
    assert!(permit.is_some());
}

#[test]
fn writer_that_fails_to_close_keeps_its_token() {
    let mut gate = ConcurrencyGate::new(1);
    let (mut s, mut cell) = session(&mut gate, "r");
    let token = s.create_access_token(&mut cell).unwrap();
    let mut file = token.open_for_write(&mut cell, "a", true).unwrap();
    token.release_on_drop(&mut cell);
    assert!(matches!(s.complete(&mut cell, true), (Ok(Completion::Nothing), None)));
    assert_eq!(cell.holders(), 1);

    let (outcome, permit) = file.close(&mut cell, false);
    assert!(matches!(outcome, Err(XetError::RemoteFailure)));
    assert!(permit.is_none());
    assert!(file.holds_token());
    assert_eq!(cell.holders(), 1);
    assert!(cell.is_live());

    // The file is discarded: its token is released without an error.
    let (completion, permit) = file.release_on_drop(&mut cell);
    assert!(matches!(completion, Completion::Commit("r", _)));
    assert!(permit.is_some());
    assert!(!cell.is_live());
}

#[test]
fn closed_file_refuses_writes() {
    let mut gate = ConcurrencyGate::new(1);
    let (s, mut cell) = session(&mut gate, "r");
    let token = s.create_access_token(&mut cell).unwrap();
    let mut file = token.open_for_write(&mut cell, "a", true).unwrap();
    assert!(file.holds_token());
    assert!(!file.readable());
    assert!(!file.seekable());
    assert!(file.writable());
    assert_eq!(file.write(&cell), Ok(()));
    file.close(&mut cell, true).0.unwrap();
    assert!(!file.holds_token());
    assert_eq!(file.write(&cell), Err(XetError::TransactionClosed));
}

#[test]
fn explicit_release_reports_a_failing_completion() {
    let mut gate = ConcurrencyGate::new(1);
    let (mut s, mut cell) = session(&mut gate, "r");
    s.set_error_on_commit(&mut cell).unwrap();
    let (outcome, permit) = s.complete(&mut cell, true);
    assert!(matches!(outcome, Err(XetError::RemoteFailure)));
    // The permit is not lost with the failure.
    let permit = permit.expect("the permit comes out even if the completion fails");
    gate.release(permit);
    assert_eq!(gate.available_permits(), 1);
    assert!(!cell.is_live());
    assert!(s.is_complete());
    assert!(matches!(s.complete(&mut cell, true), (Ok(Completion::Nothing), None)));
}

#[test]
fn implicit_release_swallows_a_failing_completion() {
    let mut gate = ConcurrencyGate::new(1);
    let (s, mut cell) = session(&mut gate, "r");
    s.set_error_on_commit(&mut cell).unwrap();
    let (completion, permit) = s.release_on_drop(&mut cell);
    assert!(matches!(completion, Completion::Nothing));
    let permit = permit.expect("the permit comes out even if the completion fails");
    gate.release(permit);
    assert_eq!(gate.available_permits(), 1);
    assert!(!cell.is_live());
}

#[test]
fn implicit_release_of_a_session_cancels() {
    let mut gate = ConcurrencyGate::new(1);
    let (s, mut cell) = session(&mut gate, "r");
    let (completion, permit) = s.release_on_drop(&mut cell);
    assert!(matches!(completion, Completion::Cancel("r")));
    assert!(permit.is_some());
}

#[test]
fn do_not_commit_skips_the_call_but_frees_the_permit() {
    let mut gate = ConcurrencyGate::new(1);
    let (mut s, mut cell) = session(&mut gate, "r");
    s.set_do_not_commit(&mut cell).unwrap();
    let (outcome, permit) = s.complete(&mut cell, true);
    assert!(matches!(outcome, Ok(Completion::Nothing)));
    assert!(permit.is_some());
    assert!(!cell.is_live());
}

#[test]
fn token_of_another_session_is_refused() {
    let mut gate = ConcurrencyGate::new(2);
    let (s1, mut c1) = session(&mut gate, "one");
    let (s2, mut c2) = session(&mut gate, "two");
    let mut t1 = s1.create_access_token(&mut c1).unwrap();
    assert!(t1.grants(&c1));
    assert!(!t1.grants(&c2));
    assert_eq!(t1.delete(&mut c2, "a", true), Err(XetError::TransactionClosed));
    assert_eq!(s2.deletes(&c2), Ok(vec![]));
    assert_eq!(s1.deletes(&c2), Err(XetError::TransactionClosed));
    let (outcome, permit) = t1.release(&mut c2);
    assert!(matches!(outcome, Err(XetError::TransactionClosed)));
    assert!(permit.is_none());
    assert!(!t1.is_released());
    assert_eq!(c2.holders(), 1);
    assert_eq!(c1.holders(), 2);
    assert!(matches!(t1.release(&mut c1), (Ok(Completion::Nothing), None)));
    assert_eq!(c1.holders(), 1);
}

#[test]
fn restart_opens_a_fresh_session_and_keeps_the_old_logs_for_old_tokens() {
    let mut gate = ConcurrencyGate::new(2);
    let (mut s, mut old_cell) = session(&mut gate, "first");
    let old_token = s.create_access_token(&mut old_cell).unwrap();
    old_token.delete(&mut old_cell, "gone", true).unwrap();
    let mut file = old_token.open_for_write(&mut old_cell, "big", true).unwrap();
    let _ = old_token.release_on_drop(&mut old_cell);

    // First half: the old session is completed for commit, which is deferred.
    let (outcome, permit) = s.commit_and_restart(&mut old_cell);
    assert!(matches!(outcome, Ok(Completion::Nothing)));
    assert!(permit.is_none());
    assert!(s.is_complete());
    assert_eq!(s.deletes(&old_cell), Err(XetError::TransactionClosed));

    // Second half: a new session under a new permit.
    let new_permit = permit_of(&mut gate);
    let (s, new_cell) = s.restart("second", new_permit);
    assert_eq!(s.branch(), "main");
    assert_eq!(s.commit_message(), "msg");
    assert!(!s.is_complete());
    assert_eq!(new_cell.holders(), 1);
    assert_ne!(new_cell.id(), old_cell.id());
    assert_eq!(s.new_files(&new_cell), Ok(vec![]));
    assert_eq!(s.deletes(&new_cell), Ok(vec![]));
    assert_eq!(s.copies(&new_cell), Ok(vec![]));
    assert_eq!(s.moves(&new_cell), Ok(vec![]));
    assert_eq!(s.remote(&new_cell), Ok(&"second"));

    // The old logs are out of reach of the session, and still there for the old holder.
    assert_eq!(s.deletes(&old_cell), Err(XetError::TransactionClosed));
    let old = old_cell.transaction().expect("the old transaction is still held");
    assert_eq!(old.deletes(), &vec!["main/gone".to_string()]);
    assert_eq!(old.new_files(), &vec!["main/big".to_string()]);
    assert_eq!(file.write(&old_cell), Ok(()));

    // The old transaction is committed when its last writer closes.
    let (outcome, permit) = file.close(&mut old_cell, true);
    assert!(matches!(outcome, Ok(Completion::Commit("first", _))));
    gate.release(permit.unwrap());
    assert_eq!(gate.available_permits(), 1);
    assert!(new_cell.is_live());
}

#[test]
fn cell_can_be_built_from_a_transaction() {
    let mut gate = ConcurrencyGate::new(1);
    let permit = permit_of(&mut gate);
    let t: WriteTransaction<u8> = WriteTransaction::new(3, permit, "b", "m");
    let (mut cell, mut token): (SessionCell<u8>, PyWriteTransactionAccessToken) = SessionCell::new(t);
    assert!(token.grants(&cell));
    assert_eq!(cell.holders(), 1);
    token.set_commit_when_ready(&mut cell).unwrap();
    let (outcome, permit) = token.close(&mut cell);
    assert!(matches!(outcome, Ok(Completion::Commit(3, _))));
    assert_eq!(permit.unwrap().serial(), 0);
    assert!(cell.transaction().is_none());
}

#[test]
fn duplicated_file_holds_a_token_of_its_own() {
    let mut gate = ConcurrencyGate::new(1);
    let (mut s, mut cell) = session(&mut gate, "r");
    let token = s.create_access_token(&mut cell).unwrap();
    let mut file = token.open_for_write(&mut cell, "a", true).unwrap();
    let mut copy = file.duplicate(&mut cell).unwrap();
    assert_eq!(cell.holders(), 4);
    let _ = token.release_on_drop(&mut cell);
    assert!(matches!(s.complete(&mut cell, true), (Ok(Completion::Nothing), None)));
    assert!(matches!(file.close(&mut cell, true), (Ok(Completion::Nothing), None)));
    assert!(matches!(file.duplicate(&mut cell), Err(XetError::TransactionClosed)));
    assert_eq!(copy.write(&cell), Ok(()));
    let (outcome, permit) = copy.close(&mut cell, true);
    assert!(matches!(outcome, Ok(Completion::Commit("r", _))));
    assert!(permit.is_some());
}
