use mcp_server_gdb::decimal::decimal_string;
use mcp_server_gdb::error::AppError;
use mcp_server_gdb::mi::{GDBBuilder, RemoteTarget};

fn strings(items: &[&str]) -> Vec<String> {
    items.iter().map(|s| s.to_string()).collect()
}

#[test]
fn decimal_writing_of_numbers() {
    assert_eq!(decimal_string(0), "0");
    assert_eq!(decimal_string(7), "7");
    assert_eq!(decimal_string(10), "10");
    assert_eq!(decimal_string(115200), "115200");
    assert_eq!(decimal_string(u64::MAX), u64::MAX.to_string());
}

#[test]
fn new_builder_has_every_option_off() {
    let b = GDBBuilder::new("gdb".to_string());
    assert_eq!(b.gdb_path, "gdb");
    assert!(!b.opt_nh && !b.opt_nx && !b.opt_quiet);
    assert!(b.opt_cd.is_none() && b.opt_bps.is_none() && b.opt_symbol_file.is_none());
    assert!(b.opt_core_file.is_none() && b.opt_proc_id.is_none() && b.opt_command.is_none());
    assert!(b.opt_source_dir.is_none() && b.opt_program.is_none() && b.opt_tty.is_none());
    assert!(b.opt_args.is_empty() && b.opt_remote_target.is_none());
}

#[test]
fn plain_builder_starts_the_machine_interface_only() {
    let b = GDBBuilder::new("/usr/bin/gdb".to_string());
    let plan = b.launch_plan().unwrap();
    assert_eq!(plan.program, "/usr/bin/gdb");
    assert_eq!(plan.args, strings(&["--interpreter=mi"]));
    assert!(plan.init_options.is_empty());
}

#[test]
fn every_option_in_its_place() {
    let mut b = GDBBuilder::new("gdb".to_string());
    b.opt_nh = true;
    b.opt_nx = true;
    b.opt_quiet = true;
    b.opt_cd = Some("/work".to_string());
    b.opt_bps = Some(115200);
    b.opt_symbol_file = Some("app.sym".to_string());
    b.opt_core_file = Some("core.1".to_string());
    b.opt_proc_id = Some(4321);
    b.opt_command = Some("cmds.gdb".to_string());
    b.opt_source_dir = Some("/src".to_string());
    b.opt_tty = Some("/dev/pts/3".to_string());
    b.opt_program = Some("./app".to_string());
    b.opt_args = strings(&["-v", "input.txt"]);
    b.opt_remote_target = Some(RemoteTarget {
        target_type: "remote".to_string(),
        host: "10.0.0.2".to_string(),
        port: 1234,
    });
    let plan = b.launch_plan().unwrap();
    assert_eq!(
        plan.args,
        strings(&[
            "--interpreter=mi",
            "--nh",
            "--nx",
            "--quiet",
            "--cd=/work",
            "-b",
            "115200",
            "--symbols=app.sym",
            "--core=core.1",
            "--pid=4321",
            "--command=cmds.gdb",
            "--directory=/src",
            "--tty=/dev/pts/3",
            "--args",
            "./app",
            "-v",
            "input.txt",
        ])
    );
    assert_eq!(plan.init_options, strings(&["--nh", "--nx"]));
    // The options a restart repeats lead the arguments after the interpreter.
    assert_eq!(&plan.args[1..3], plan.init_options.as_slice());
}

#[test]
fn program_without_arguments_comes_last() {
    let mut b = GDBBuilder::new("gdb".to_string());
    b.opt_nx = true;
    b.opt_program = Some("./app".to_string());
    let plan = b.launch_plan().unwrap();
    assert_eq!(plan.args, strings(&["--interpreter=mi", "--nx", "./app"]));
    assert_eq!(plan.init_options, strings(&["--nx"]));
}

#[test]
fn arguments_without_program_are_refused() {
    let mut b = GDBBuilder::new("gdb".to_string());
    b.opt_args = strings(&["x"]);
    match b.launch_plan() {
        Err(e) => assert_eq!(
            e,
            AppError::InvalidArgument("Program path is required if --args is provided".to_string())
        ),
        Ok(_) => panic!("arguments without a program were accepted"),
    }
    assert!(b.gdb_args().is_err());
}

#[test]
fn gdb_args_leave_out_the_interpreter() {
    let mut b = GDBBuilder::new("gdb".to_string());
    b.opt_proc_id = Some(0);
    assert_eq!(b.gdb_args().unwrap(), strings(&["--pid=0"]));
}
