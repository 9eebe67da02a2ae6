use mcp_server_gdb::error::AppError;
use mcp_server_gdb::gdb::GDBManager;
use mcp_server_gdb::mi::commands::MiCommand;
use mcp_server_gdb::mi::{check_reply, session_active, ExecuteError, ThreadsField, GDB};
use mcp_server_gdb::tools::init_gdb_manager;

fn launched() -> GDB {
    GDB::new("gdb".to_string(), vec!["--nh".to_string()])
}

#[test]
fn gdb_keeps_what_it_was_launched_with() {
    let g = launched();
    assert_eq!(g.binary_path(), "gdb");
    assert_eq!(g.init_options(), &["--nh".to_string()][..]);
}

#[test]
fn tokens_count_up_from_zero() {
    let mut g = launched();
    assert_eq!(g.new_token(), 0);
    assert_eq!(g.new_token(), 1);
    assert_eq!(g.new_token(), 2);
    assert_eq!(g.binary_path(), "gdb");
}

#[test]
fn busy_gdb_refuses_and_keeps_its_token() {
    let mut g = launched();
    assert_eq!(g.start_execute(true), Err(AppError::GDBBusy));
    assert_eq!(g.start_execute(false), Ok(0));
    assert_eq!(g.start_execute(true), Err(AppError::GDBBusy));
    assert_eq!(g.start_execute(false), Ok(1));
    assert_eq!(g.new_token(), 2);
}

#[test]
fn reply_with_the_command_token_is_accepted() {
    assert_eq!(check_reply(7, Some(Some(7)), false), Ok(()));
    assert_eq!(check_reply(7, Some(Some(7)), true), Ok(()));
}

#[test]
fn reply_with_another_token_is_refused() {
    assert_eq!(
        check_reply(7, Some(Some(12)), false),
        Err(AppError::InvalidArgument("Unexpected command token: 12".to_string()))
    );
}

#[test]
fn reply_without_token_answers_only_an_empty_command() {
    assert_eq!(check_reply(3, Some(None), true), Ok(()));
    assert_eq!(
        check_reply(3, Some(None), false),
        Err(AppError::GDBError("No command token, expecting 3".to_string()))
    );
}

#[test]
fn missing_reply_is_an_error() {
    assert_eq!(
        check_reply(3, None, false),
        Err(AppError::GDBError("no result, expecting {}".to_string()))
    );
}

#[test]
fn session_is_active_while_threads_are_listed() {
    assert_eq!(session_active(ThreadsField::Array(2)), Ok(true));
    assert_eq!(session_active(ThreadsField::Array(0)), Ok(false));
    assert_eq!(
        session_active(ThreadsField::NotArray),
        Err(AppError::GDBError("threads is not an array".to_string()))
    );
    assert_eq!(
        session_active(ThreadsField::Missing),
        Err(AppError::GDBError("threads is not found".to_string()))
    );
}

#[test]
fn execute_errors_compare() {
    assert_eq!(ExecuteError::Busy, ExecuteError::Busy);
    assert_ne!(ExecuteError::Busy, ExecuteError::Quit);
}

#[test]
fn thread_info_lines() {
    let all = MiCommand::thread_info(None);
    assert_eq!(all.operation, "thread-info");
    assert_eq!(all.interpreter_string(5), "5-thread-info\n");
    let one = MiCommand::thread_info(Some(3));
    assert_eq!(one.interpreter_string(0), "0-thread-info -- 3\n");
}

#[test]
fn command_line_with_options_and_parameters() {
    let c = MiCommand {
        operation: "break-insert".to_string(),
        options: vec!["-t".to_string(), "-f".to_string()],
        parameters: vec!["main.c:42".to_string()],
    };
    assert_eq!(c.interpreter_string(12), "12-break-insert -t -f -- main.c:42\n");
    let empty = MiCommand { operation: String::new(), options: vec![], parameters: vec![] };
    assert_eq!(empty.interpreter_string(1), "1-\n");
}

#[test]
fn registry_reads_back_what_was_filed() {
    let mut m: GDBManager<u32> = init_gdb_manager();
    assert!(m.get_all_sessions().is_empty());
    assert_eq!(m.create_session("a".to_string(), 1), None);
    assert_eq!(m.create_session("b".to_string(), 2), None);
    assert_eq!(m.get_session(&"a".to_string()), Some(&1));
    assert_eq!(m.get_session(&"b".to_string()), Some(&2));
    assert_eq!(m.get_session(&"c".to_string()), None);
    let mut ids = m.get_all_sessions();
    ids.sort();
    assert_eq!(ids, vec!["a".to_string(), "b".to_string()]);
}

#[test]
fn filing_again_replaces_and_hands_back() {
    let mut m: GDBManager<u32> = GDBManager::new();
    m.create_session("a".to_string(), 1);
    assert_eq!(m.create_session("a".to_string(), 5), Some(1));
    assert_eq!(m.get_session(&"a".to_string()), Some(&5));
    assert_eq!(m.get_all_sessions(), vec!["a".to_string()]);
}

#[test]
fn closing_removes_only_that_session() {
    let mut m: GDBManager<u32> = GDBManager::new();
    m.create_session("a".to_string(), 1);
    m.create_session("b".to_string(), 2);
    assert_eq!(m.close_session(&"a".to_string()), Some(1));
    assert_eq!(m.get_session(&"a".to_string()), None);
    assert_eq!(m.get_session(&"b".to_string()), Some(&2));
    assert_eq!(m.close_session(&"a".to_string()), None);
    assert_eq!(m.get_all_sessions(), vec!["b".to_string()]);
}
