use oxide_core::output_buffer::{OutputBuffer, MAX_BUFFER_BYTES};
use oxide_core::pty_commands::{
    close_pty, data_event, pump_output, register_pty, resize_pty, set_pty_visibility, spawn_pty,
    status_event, write_outcome, write_to_pty, PtyError, READ_CHUNK_BYTES,
};
use oxide_core::session::{PtySession, SessionTable, SessionTokens};
use oxide_core::shell::{pty_size, shell_command, Platform};
use oxide_core::status::{classify, classify_text, Status};

#[derive(Debug, Default, PartialEq)]
struct FakeHandles {
    tag: u32,
    written: Vec<u8>,
}

fn argv_of(command: &portable_pty::CommandBuilder) -> Vec<&str> {
    command.get_argv().iter().map(|arg| arg.to_str().unwrap()).collect()
}

fn handles(tag: u32) -> FakeHandles {
    FakeHandles { tag, written: Vec::new() }
}

#[test]
fn end_to_end_session_scenario() {
    let mut sessions: SessionTable<FakeHandles> = SessionTable::new();

    let plan = spawn_pty(&sessions, "s1", None, false, 24, 80, Platform::Posix);
    let plan = plan.expect("a fresh id must be launched");
    assert_eq!(plan.size.rows, 24);
    assert_eq!(plan.size.cols, 80);
    assert!(register_pty(&mut sessions, "s1".to_string(), handles(1), false, 1).is_none());
    assert_eq!(sessions.len(), 1);

    {
        let target = write_to_pty(&mut sessions, "s1").expect("s1 is live");
        target.written.extend_from_slice("echo hi\n".as_bytes());
    }
    assert_eq!(
        sessions.get_for_read("s1").unwrap().handles().written,
        b"echo hi\n".to_vec()
    );

    let hidden = pump_output(&mut sessions, "s1", 1, b"echo hi\r\n");
    assert!(hidden.data.is_none());
    assert_eq!(hidden.status.payload, "working");

    set_pty_visibility(&mut sessions, "s1", true);
    let shown = pump_output(&mut sessions, "s1", 1, b"hi\r\n");
    let data = shown.data.expect("visible sessions stream their data");
    assert_eq!(data.event, "pty-data-s1");
    assert!(data.payload.contains("hi"));
    assert_eq!(shown.status.event, "pty-status-s1");
    assert_eq!(shown.status.payload, "working");

    let prompt = pump_output(&mut sessions, "s1", 1, b"user@host:~$ ");
    assert_eq!(prompt.status.payload, "idle");
    assert_eq!(
        sessions.get_for_read("s1").unwrap().output(),
        b"echo hi\r\nhi\r\nuser@host:~$ "
    );

    let killed = close_pty(&mut sessions, "s1").expect("the first close returns the handles");
    assert_eq!(killed.tag, 1);
    assert_eq!(sessions.len(), 0);

    match write_to_pty(&mut sessions, "s1") {
        Err(error) => {
            assert!(matches!(error, PtyError::NoSession));
            assert_eq!(error.message(), "No session found");
        }
        Ok(_) => panic!("write after close must fail"),
    }
}

#[test]
fn spawning_a_taken_id_creates_nothing() {
    let mut sessions: SessionTable<FakeHandles> = SessionTable::new();
    assert!(register_pty(&mut sessions, "a".to_string(), handles(1), true, 1).is_none());
    pump_output(&mut sessions, "a", 1, b"first output");

    assert!(spawn_pty(&sessions, "a", None, false, 24, 80, Platform::Posix).is_none());
    let refused = register_pty(&mut sessions, "a".to_string(), handles(2), false, 2);
    assert_eq!(refused, Some(handles(2)));

    assert_eq!(sessions.len(), 1);
    let kept = sessions.get_for_read("a").unwrap();
    assert_eq!(kept.handles().tag, 1);
    assert!(kept.is_visible());
    assert_eq!(kept.output(), b"first output");
}

#[test]
fn write_to_missing_session_reports_no_session() {
    let mut sessions: SessionTable<FakeHandles> = SessionTable::new();
    assert!(register_pty(&mut sessions, "other".to_string(), handles(9), false, 9).is_none());
    for _ in 0..3 {
        let result = write_to_pty(&mut sessions, "nonexistent");
        assert!(matches!(result, Err(PtyError::NoSession)));
    }
    assert_eq!(sessions.len(), 1);
    assert!(sessions.contains("other"));
    assert!(!sessions.contains("nonexistent"));
    assert!(sessions.get_for_read("other").unwrap().handles().written.is_empty());
}

#[test]
fn close_twice_kills_once() {
    let mut sessions: SessionTable<FakeHandles> = SessionTable::new();
    assert!(register_pty(&mut sessions, "a".to_string(), handles(1), false, 1).is_none());
    assert!(register_pty(&mut sessions, "b".to_string(), handles(2), false, 2).is_none());
    assert_eq!(close_pty(&mut sessions, "a"), Some(handles(1)));
    assert_eq!(close_pty(&mut sessions, "a"), None);
    assert_eq!(sessions.len(), 1);
    assert!(sessions.contains("b"));
    assert_eq!(close_pty(&mut sessions, "never-there"), None);
}

#[test]
fn hidden_sessions_emit_status_only() {
    let mut sessions: SessionTable<FakeHandles> = SessionTable::new();
    assert!(register_pty(&mut sessions, "bg".to_string(), handles(1), false, 1).is_none());
    for chunk in [&b"one"[..], &b"two$ "[..], &b""[..]] {
        let events = pump_output(&mut sessions, "bg", 1, chunk);
        assert!(events.data.is_none());
        assert_eq!(events.status.event, "pty-status-bg");
    }
    set_pty_visibility(&mut sessions, "bg", true);
    let events = pump_output(&mut sessions, "bg", 1, b"three");
    assert_eq!(events.data.unwrap().payload, "three");
    set_pty_visibility(&mut sessions, "bg", false);
    assert!(pump_output(&mut sessions, "bg", 1, b"four").data.is_none());
    assert_eq!(sessions.get_for_read("bg").unwrap().output(), b"onetwo$ threefour");
}

#[test]
fn operations_on_unknown_ids_are_ignored() {
    let mut sessions: SessionTable<FakeHandles> = SessionTable::new();
    set_pty_visibility(&mut sessions, "ghost", true);
    assert!(resize_pty(&sessions, "ghost", 10, 20).is_none());
    let orphan = pump_output(&mut sessions, "ghost", 0, b"data$ ");
    assert!(orphan.data.is_none());
    assert_eq!(orphan.status.event, "pty-status-ghost");
    assert_eq!(orphan.status.payload, "idle");
    assert_eq!(sessions.len(), 0);
}

#[test]
fn resize_gives_handles_and_geometry() {
    let mut sessions: SessionTable<FakeHandles> = SessionTable::new();
    assert!(register_pty(&mut sessions, "a".to_string(), handles(5), false, 5).is_none());
    let (target, size) = resize_pty(&sessions, "a", 40, 120).unwrap();
    assert_eq!(target.tag, 5);
    assert_eq!(size.rows, 40);
    assert_eq!(size.cols, 120);
    assert_eq!(size.pixel_width, 0);
    assert_eq!(size.pixel_height, 0);
}

#[test]
fn table_insert_get_remove() {
    let mut sessions: SessionTable<FakeHandles> = SessionTable::new();
    assert!(sessions.insert("x".to_string(), PtySession::new(handles(1), false, 1)));
    assert!(!sessions.insert("x".to_string(), PtySession::new(handles(2), false, 2)));
    assert!(sessions.insert("y".to_string(), PtySession::new(handles(3), true, 3)));
    assert_eq!(sessions.len(), 2);
    assert!(sessions.get_for_read("z").is_none());
    assert!(sessions.get_for_write("z").is_none());
    sessions.get_for_write("y").unwrap().handles_mut().tag = 30;
    assert_eq!(sessions.get_for_read("y").unwrap().handles().tag, 30);
    assert_eq!(sessions.get_for_read("x").unwrap().handles().tag, 1);
    let gone = sessions.remove("x").unwrap();
    assert_eq!(gone.into_handles().tag, 1);
    assert!(sessions.remove("x").is_none());
    assert!(sessions.contains("y"));
}

#[test]
fn buffer_keeps_the_newest_bytes_under_the_cap() {
    assert_eq!(MAX_BUFFER_BYTES, 512 * 1024);
    let mut buffer = OutputBuffer::new();
    assert!(buffer.is_empty());
    let mut stream: Vec<u8> = Vec::new();
    let mut next: u8 = 0;
    for round in 0..200usize {
        let chunk: Vec<u8> = (0..(round * 97 % 8192 + 1))
            .map(|_| {
                next = next.wrapping_mul(31).wrapping_add(7);
                next
            })
            .collect();
        buffer.append(&chunk);
        stream.extend_from_slice(&chunk);
        assert!(buffer.len() <= MAX_BUFFER_BYTES);
        assert!(stream.ends_with(buffer.as_slice()));
        assert_eq!(buffer.len(), stream.len().min(MAX_BUFFER_BYTES));
    }
    assert_eq!(buffer.len(), MAX_BUFFER_BYTES);
}

#[test]
fn buffer_edges_around_the_cap() {
    let mut buffer = OutputBuffer::new();
    buffer.append(&vec![1u8; MAX_BUFFER_BYTES - 1]);
    assert_eq!(buffer.len(), MAX_BUFFER_BYTES - 1);
    buffer.append(&[2u8]);
    assert_eq!(buffer.len(), MAX_BUFFER_BYTES);
    assert_eq!(buffer.as_slice()[0], 1);
    buffer.append(&[3u8]);
    assert_eq!(buffer.len(), MAX_BUFFER_BYTES);
    assert_eq!(buffer.as_slice()[MAX_BUFFER_BYTES - 2..], [2u8, 3u8]);
    buffer.append(&[]);
    assert_eq!(buffer.len(), MAX_BUFFER_BYTES);

    let mut big = vec![9u8; MAX_BUFFER_BYTES + 10];
    big[0] = 0;
    big[10] = 4;
    buffer.append(&big);
    assert_eq!(buffer.len(), MAX_BUFFER_BYTES);
    assert_eq!(buffer.as_slice()[0], 4);
    assert_eq!(buffer.as_slice()[1], 9);
}

#[test]
fn prompt_tails_classify_as_idle() {
    for tail in ["$ ", "# ", "> ", "% "] {
        let text = format!("user@host:~{}", tail);
        assert_eq!(classify_text(&text), Status::Idle);
        assert_eq!(classify(text.as_bytes()), Status::Idle);
        assert_eq!(classify_text(tail), Status::Idle);
    }
}

#[test]
fn other_tails_classify_as_working() {
    for text in ["", " ", "$", "$  ", "$ \n", "building...", "100% done", "a>b", "~ ", "é "] {
        assert_eq!(classify_text(text), Status::Working);
        assert_eq!(classify(text.as_bytes()), Status::Working);
    }
    assert_eq!(Status::Idle.label(), "idle");
    assert_eq!(Status::Working.label(), "working");
}

#[test]
fn classification_is_repeatable() {
    let chunks: [&[u8]; 4] = [b"$ ", b"make: done\n", b"\xff\xfe> ", b"\xe2\x82"];
    for chunk in chunks {
        let first = classify(chunk);
        for _ in 0..5 {
            assert_eq!(classify(chunk), first);
        }
    }
    assert_eq!(classify(b"\xff\xfe> "), Status::Idle);
    assert_eq!(classify(b"> \xff"), Status::Working);
}

#[test]
fn malformed_bytes_are_replaced_not_fatal() {
    let mut sessions: SessionTable<FakeHandles> = SessionTable::new();
    assert!(register_pty(&mut sessions, "a".to_string(), handles(1), true, 1).is_none());
    let events = pump_output(&mut sessions, "a", 1, b"ok\xffend");
    assert_eq!(events.data.unwrap().payload, "ok\u{fffd}end");
    assert_eq!(sessions.get_for_read("a").unwrap().output(), b"ok\xffend");
}

#[test]
fn event_names_carry_the_session_id() {
    assert_eq!(data_event("s1"), "pty-data-s1");
    assert_eq!(status_event("s1"), "pty-status-s1");
    assert_eq!(data_event(""), "pty-data-");
}

#[test]
fn posix_shell_is_interactive_bash_with_term() {
    let command = shell_command(Platform::Posix, None, false);
    assert_eq!(argv_of(&command), vec!["bash", "-i"]);
    assert_eq!(command.get_env("TERM").and_then(|value| value.to_str()), Some("xterm-256color"));
    assert!(command.get_cwd().is_none());
}

#[test]
fn windows_shell_is_the_console_host() {
    let command = shell_command(Platform::Windows, None, true);
    assert_eq!(argv_of(&command), vec!["cmd.exe"]);
    assert!(command.get_cwd().is_none());
}

#[test]
fn working_directory_is_used_only_when_it_exists() {
    let there = shell_command(Platform::Posix, Some("/tmp/project"), true);
    assert_eq!(there.get_cwd().and_then(|dir| dir.to_str()), Some("/tmp/project"));
    let missing = shell_command(Platform::Posix, Some("/tmp/project"), false);
    assert!(missing.get_cwd().is_none());
    let plan = spawn_pty(
        &SessionTable::<FakeHandles>::new(),
        "s",
        Some("/srv"),
        true,
        30,
        100,
        Platform::Posix,
    )
    .unwrap();
    assert_eq!(plan.command.get_cwd().and_then(|dir| dir.to_str()), Some("/srv"));
    assert_eq!(argv_of(&plan.command), vec!["bash", "-i"]);
    assert_eq!(plan.size.rows, 30);
    assert_eq!(plan.size.cols, 100);
}

#[test]
fn geometry_has_no_pixel_size() {
    let size = pty_size(24, 80);
    assert_eq!((size.rows, size.cols, size.pixel_width, size.pixel_height), (24, 80, 0, 0));
}

#[test]
fn a_reader_that_outlives_its_session_changes_nothing() {
    let mut tokens = SessionTokens::new();
    let mut sessions: SessionTable<FakeHandles> = SessionTable::new();
    let first = tokens.issue().unwrap();
    assert!(register_pty(&mut sessions, "s".to_string(), handles(1), true, first).is_none());
    pump_output(&mut sessions, "s", first, b"old ");
    assert_eq!(sessions.get_for_read("s").unwrap().token(), first);

    assert!(close_pty(&mut sessions, "s").is_some());
    let late = pump_output(&mut sessions, "s", first, b"after close$ ");
    assert!(late.data.is_none());
    assert_eq!(late.status.payload, "idle");
    assert_eq!(sessions.len(), 0);

    let second = tokens.issue().unwrap();
    assert_ne!(first, second);
    assert!(register_pty(&mut sessions, "s".to_string(), handles(2), true, second).is_none());
    let stale = pump_output(&mut sessions, "s", first, b"stale");
    assert!(stale.data.is_none());
    assert_eq!(stale.status.event, "pty-status-s");
    assert_eq!(stale.status.payload, "working");
    assert!(sessions.get_for_read("s").unwrap().output().is_empty());

    let fresh = pump_output(&mut sessions, "s", second, b"new");
    assert_eq!(fresh.data.unwrap().payload, "new");
    assert_eq!(sessions.get_for_read("s").unwrap().output(), b"new");
}

#[test]
fn tokens_are_issued_once_each() {
    let mut tokens = SessionTokens::new();
    let issued: Vec<u64> = (0..100).map(|_| tokens.issue().unwrap()).collect();
    for (i, token) in issued.iter().enumerate() {
        assert_eq!(*token, i as u64);
    }
}

#[test]
fn a_refused_registration_hands_the_handles_back() {
    let mut sessions: SessionTable<FakeHandles> = SessionTable::new();
    assert!(register_pty(&mut sessions, "a".to_string(), handles(1), false, 10).is_none());
    let mut mine = handles(2);
    mine.written.push(7);
    let back = register_pty(&mut sessions, "a".to_string(), mine, true, 11).unwrap();
    assert_eq!(back.tag, 2);
    assert_eq!(back.written, vec![7]);
    let kept = sessions.get_for_read("a").unwrap();
    assert_eq!((kept.handles().tag, kept.token(), kept.is_visible()), (1, 10, false));
}

#[test]
fn a_failed_write_or_flush_is_an_error() {
    assert!(write_outcome(Ok(()), Ok(())).is_ok());
    let broken = write_outcome(Err("broken pipe".to_string()), Ok(())).unwrap_err();
    assert!(matches!(broken, PtyError::Write(_)));
    assert_eq!(broken.message(), "broken pipe");
    let unflushed = write_outcome(Ok(()), Err("flush failed".to_string())).unwrap_err();
    assert!(matches!(unflushed, PtyError::Write(_)));
    assert_eq!(unflushed.message(), "flush failed");
    let both =
        write_outcome(Err("write failed".to_string()), Err("flush failed".to_string()));
    assert_eq!(both.unwrap_err().message(), "write failed");
    assert_eq!(PtyError::Allocation("no pty".to_string()).message(), "no pty");
    assert_eq!(READ_CHUNK_BYTES, 8192);
}

#[test]
fn a_failed_write_leaves_the_session_as_it_was() {
    let mut sessions: SessionTable<FakeHandles> = SessionTable::new();
    assert!(register_pty(&mut sessions, "a".to_string(), handles(1), true, 1).is_none());
    pump_output(&mut sessions, "a", 1, b"kept");
    assert!(write_to_pty(&mut sessions, "a").is_ok());
    assert!(write_outcome(Err("io".to_string()), Ok(())).is_err());
    let session = sessions.get_for_read("a").unwrap();
    assert!(session.is_visible());
    assert_eq!(session.output(), b"kept");
    assert!(sessions.contains("a"));
}
