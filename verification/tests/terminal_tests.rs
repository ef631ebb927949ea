use std::time::Duration;
use std::time::Instant;

use termmux::error::TerminalError;
use termmux::terminal::assemble_read;
use termmux::terminal::SessionType;
use termmux::terminal::TerminalManager;

fn new_cat_session(mgr: &mut TerminalManager, name: Option<&str>) -> String {
    let info = mgr
        .create_local_shell(name.map(|s| s.to_string()), None, None, None, "/bin/cat")
        .expect("creating a cat-backed session should succeed");
    info.id
}

/// Polls the session until the accumulated output satisfies the predicate,
/// or the deadline passes; returns the accumulated output.
fn poll_until(
    mgr: &mut TerminalManager,
    id: &str,
    deadline: Duration,
    done: impl Fn(&str) -> bool,
) -> String {
    let start = Instant::now();
    let mut acc = String::new();
    while start.elapsed() < deadline {
        match mgr.read_from_pty(id) {
            Ok(chunk) => {
                acc.push_str(&chunk);
                if done(&acc) {
                    break;
                }
            }
            Err(e) => panic!("unexpected read error: {:?}", e),
        }
    }
    acc
}

#[test]
fn assemble_disconnected_and_empty_is_closed() {
    let (res, carry) = assemble_read(&Vec::new(), Vec::new(), true);
    assert_eq!(res, Err(TerminalError::Closed));
    assert!(carry.is_empty());
}

#[test]
fn assemble_disconnected_flushes_final_bytes_lossily() {
    // an incomplete euro sign is all that remains of a dead session
    let (res, carry) = assemble_read(&vec![0xE2, 0x82], Vec::new(), true);
    assert_eq!(res, Ok("\u{fffd}\u{fffd}".to_string()));
    assert!(carry.is_empty());
}

#[test]
fn assemble_empty_poll_returns_empty_text() {
    let (res, carry) = assemble_read(&Vec::new(), Vec::new(), false);
    assert_eq!(res, Ok(String::new()));
    assert!(carry.is_empty());
}

#[test]
fn assemble_completes_character_from_carry() {
    // the carry holds the lead byte, the new chunk completes the character
    let (res, carry) = assemble_read(&vec![0xC3], vec![0xA9, b'A'], false);
    assert_eq!(res, Ok("\u{e9}A".to_string()));
    assert!(carry.is_empty());
}

#[test]
fn assemble_withholds_incomplete_tail() {
    let (res, carry) = assemble_read(&Vec::new(), vec![b'h', b'i', 0xE2, 0x82], false);
    assert_eq!(res, Ok("hi".to_string()));
    assert_eq!(carry, vec![0xE2, 0x82]);
}

#[test]
fn read_after_create_is_never_an_error() {
    let mut mgr = TerminalManager::new();
    let id = new_cat_session(&mut mgr, None);
    // immediately after creation the read must succeed, with empty output
    // or whatever the process already produced
    assert!(mgr.read_from_pty(&id).is_ok());
}

#[test]
fn written_bytes_come_back_in_order() {
    let mut mgr = TerminalManager::new();
    let id = new_cat_session(&mut mgr, None);
    mgr.write_to_pty(&id, "hello\n").expect("write should succeed");
    let acc = poll_until(&mut mgr, &id, Duration::from_secs(8), |s| s.contains("hello"));
    assert!(acc.contains("hello"), "pty output was: {:?}", acc);
    mgr.close_session(&id).expect("close should succeed");
}

#[test]
fn close_all_removes_every_session_and_forgets_ids() {
    let mut mgr = TerminalManager::new();
    let a = new_cat_session(&mut mgr, None);
    let b = new_cat_session(&mut mgr, None);
    let c = new_cat_session(&mut mgr, None);
    assert_eq!(mgr.get_all_sessions().len(), 3);
    let n = mgr.close_all_sessions();
    assert_eq!(n, 3);
    assert_eq!(mgr.get_all_sessions().len(), 0);
    for id in [a, b, c] {
        assert_eq!(mgr.read_from_pty(&id), Err(TerminalError::NotFound));
        assert_eq!(mgr.write_to_pty(&id, "x"), Err(TerminalError::NotFound));
        assert_eq!(mgr.resize_pty(&id, 80, 24), Err(TerminalError::NotFound));
        assert_eq!(mgr.rename_session(&id, "x".to_string()), Err(TerminalError::NotFound));
        assert_eq!(mgr.close_session(&id), Err(TerminalError::NotFound));
    }
}

#[test]
fn resize_is_reflected_exactly() {
    let mut mgr = TerminalManager::new();
    let id = new_cat_session(&mut mgr, None);
    mgr.resize_pty(&id, 100, 40).expect("resize should succeed");
    assert_eq!(mgr.pty_size(&id), Ok((40, 100)));
    mgr.resize_pty(&id, 132, 50).expect("resize should succeed");
    assert_eq!(mgr.pty_size(&id), Ok((50, 132)));
}

#[test]
fn resize_does_not_drop_buffered_output() {
    let mut mgr = TerminalManager::new();
    let id = new_cat_session(&mut mgr, None);
    mgr.write_to_pty(&id, "before\n").expect("write should succeed");
    mgr.resize_pty(&id, 100, 40).expect("resize should succeed");
    let acc = poll_until(&mut mgr, &id, Duration::from_secs(8), |s| s.contains("before"));
    assert!(acc.contains("before"), "pty output was: {:?}", acc);
}

#[test]
fn dead_session_reads_closed_after_final_output() {
    let mut mgr = TerminalManager::new();
    let info = mgr
        .create_local_shell(None, None, None, Some("exit".to_string()), "/bin/sh")
        .expect("creating a shell session should succeed");
    let id = info.id;
    let start = Instant::now();
    let closed = loop {
        if start.elapsed() > Duration::from_secs(10) {
            break false;
        }
        match mgr.read_from_pty(&id) {
            Ok(_) => {}
            Err(TerminalError::Closed) => break true,
            Err(e) => panic!("unexpected read error: {:?}", e),
        }
    };
    assert!(closed, "the session should eventually report Closed");
    // the dead session stays listed until it is closed explicitly
    assert_eq!(mgr.get_all_sessions().len(), 1);
    mgr.close_session(&id).expect("close should succeed");
}

#[test]
fn create_fails_for_a_missing_shell() {
    let mut mgr = TerminalManager::new();
    let r = mgr.create_local_shell(None, None, None, None, "/nonexistent/never-a-shell");
    assert!(matches!(r, Err(TerminalError::Spawn(_))), "got: {:?}", r);
    assert_eq!(mgr.get_all_sessions().len(), 0);
}

#[test]
fn create_rename_list_round_trip() {
    let mut mgr = TerminalManager::new();
    let id = new_cat_session(&mut mgr, Some("foo"));
    mgr.rename_session(&id, "bar".to_string()).expect("rename should succeed");
    let all = mgr.get_all_sessions();
    assert_eq!(all.len(), 1);
    assert_eq!(all[0].id, id);
    assert_eq!(all[0].name, "bar");
    assert_eq!(all[0].session_type, SessionType::Local);
}

#[test]
fn default_name_uses_id_prefix() {
    let mut mgr = TerminalManager::new();
    let id = new_cat_session(&mut mgr, None);
    let all = mgr.get_all_sessions();
    assert_eq!(all.len(), 1);
    assert_eq!(all[0].name, format!("Terminal {}", &id[..6]));
    assert_eq!(id.len(), 36);
}

#[test]
fn split_character_across_writes_is_not_corrupted() {
    let mut mgr = TerminalManager::new();
    let id = new_cat_session(&mut mgr, None);
    // the euro sign split across two writes, at a mid-character boundary
    mgr.write_bytes(&id, &[0xE2, 0x82]).expect("write should succeed");
    mgr.write_bytes(&id, &[0xAC, b'\n']).expect("write should succeed");
    let acc = poll_until(&mut mgr, &id, Duration::from_secs(8), |s| s.contains('\u{20ac}'));
    assert!(acc.contains('\u{20ac}'), "pty output was: {:?}", acc);
    assert!(!acc.contains('\u{fffd}'), "pty output was corrupted: {:?}", acc);
}

#[test]
fn sessions_are_independent() {
    let mut mgr = TerminalManager::new();
    let a = new_cat_session(&mut mgr, Some("a"));
    let b = new_cat_session(&mut mgr, Some("b"));
    assert_ne!(a, b);
    mgr.write_to_pty(&a, "alpha\n").expect("write should succeed");
    let acc_a = poll_until(&mut mgr, &a, Duration::from_secs(8), |s| s.contains("alpha"));
    assert!(acc_a.contains("alpha"));
    mgr.close_session(&a).expect("close should succeed");
    // the other session is unaffected by its sibling's death
    mgr.write_to_pty(&b, "beta\n").expect("write should succeed");
    let acc_b = poll_until(&mut mgr, &b, Duration::from_secs(8), |s| s.contains("beta"));
    assert!(acc_b.contains("beta"));
}
