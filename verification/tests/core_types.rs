use remoteify::command::{
    build_command, copy_file_command, create_dir_recursive_command, hard_link_command,
    helper_exec_result, quote_arg, remove_dir_recursive_command,
};
use remoteify::executor::{LinuxProcessConfiguration, LinuxProcessError};
use remoteify::filesystem::{
    create_file_flags, exists_decision, list_dir_entries, LinuxFileType, LinuxOpenOptions,
    LinuxPermissions, SFTP_STATUS_NO_SUCH_FILE,
};

#[test]
fn new_open_options_request_nothing() {
    let opts = LinuxOpenOptions::new();
    assert!(!opts.is_read());
    assert!(!opts.is_write());
    assert!(!opts.is_append());
    assert!(!opts.is_truncate());
    assert!(!opts.is_create());
}

#[test]
fn open_option_setters_accumulate() {
    let opts = LinuxOpenOptions::new().read().write();
    assert!(opts.is_read());
    assert!(opts.is_write());
    assert!(!opts.is_append());
    let opts = opts.append().truncate().create();
    assert!(opts.is_append());
    assert!(opts.is_truncate());
    assert!(opts.is_create());
}

#[test]
fn sftp_flags_translate_each_option() {
    assert_eq!(LinuxOpenOptions::new().read().sftp_open_flags(), 0x1);
    assert_eq!(LinuxOpenOptions::new().write().sftp_open_flags(), 0x2);
    assert_eq!(LinuxOpenOptions::new().write().append().sftp_open_flags(), 0x6);
    assert_eq!(LinuxOpenOptions::new().write().truncate().sftp_open_flags(), 0x12);
    assert_eq!(LinuxOpenOptions::new().write().create().sftp_open_flags(), 0xa);
    assert_eq!(
        LinuxOpenOptions::new().read().write().append().truncate().create().sftp_open_flags(),
        0x1f
    );
}

#[test]
fn create_file_requests_exclusive_creation() {
    // write | create | exclude
    assert_eq!(create_file_flags(), 0x2 | 0x8 | 0x20);
}

#[test]
fn permissions_accept_permission_bits_only() {
    let p = LinuxPermissions::from_bits(0o755).expect("permission bits are accepted");
    assert_eq!(p.bits(), 0o755);
    assert_eq!(LinuxPermissions::from_bits(777).map(|p| p.bits()), Some(777));
    assert!(LinuxPermissions::from_bits(0o100644).is_none());
}

#[test]
fn permissions_retain_keeps_type_bits() {
    assert_eq!(LinuxPermissions::from_bits_retain(33545).bits(), 33545);
}

#[test]
fn exists_is_true_for_successful_stat() {
    assert_eq!(exists_decision(Ok(())), Ok(true));
}

#[test]
fn exists_is_false_for_no_such_file() {
    assert_eq!(exists_decision(Err(SFTP_STATUS_NO_SUCH_FILE)), Ok(false));
}

#[test]
fn exists_propagates_other_failures() {
    assert_eq!(exists_decision(Err(3)), Err(3));
}

#[test]
fn list_dir_drops_dot_entries_and_builds_paths() {
    let raw = vec![
        (".".to_string(), LinuxFileType::Dir),
        ("..".to_string(), LinuxFileType::Dir),
        ("notes.txt".to_string(), LinuxFileType::File),
        ("sub".to_string(), LinuxFileType::Dir),
        ("link".to_string(), LinuxFileType::Symlink),
    ];
    let entries = list_dir_entries("/tmp", &raw);
    assert_eq!(entries.len(), 3);
    assert_eq!(entries[0].path, "/tmp/notes.txt");
    assert_eq!(entries[0].name, "notes.txt");
    assert_eq!(entries[0].file_type, LinuxFileType::File);
    assert_eq!(entries[1].path, "/tmp/sub");
    assert_eq!(entries[1].file_type, LinuxFileType::Dir);
    assert_eq!(entries[2].path, "/tmp/link");
    assert_eq!(entries[2].file_type, LinuxFileType::Symlink);
    assert!(entries.iter().all(|e| e.name != "." && e.name != ".."));
}

#[test]
fn dir_entry_getters_report_fields() {
    let raw = vec![("a".to_string(), LinuxFileType::File)];
    let entries = list_dir_entries("/x", &raw);
    assert_eq!(entries[0].path().as_str(), "/x/a");
    assert_eq!(entries[0].name().as_str(), "a");
    assert_eq!(entries[0].file_type(), LinuxFileType::File);
}

#[test]
fn new_configuration_is_bare() {
    let cfg = LinuxProcessConfiguration::new("/bin/true");
    assert_eq!(cfg.program, "/bin/true");
    assert!(cfg.args.is_empty());
    assert!(cfg.envs.is_empty());
    assert!(cfg.working_dir.is_none());
    assert!(!cfg.redirect_stdout);
    assert!(!cfg.redirect_stdin);
    assert!(!cfg.redirect_stderr);
    assert!(!cfg.disable_extra_reads);
    assert!(cfg.user_id.is_none());
    assert!(cfg.group_id.is_none());
    assert!(cfg.process_group_id.is_none());
}

#[test]
fn arguments_accumulate_in_order() {
    let mut more = vec!["b".to_string(), "c".to_string()];
    let cfg = LinuxProcessConfiguration::new("p").arg("a").args(&mut more);
    assert_eq!(cfg.args, vec!["a".to_string(), "b".to_string(), "c".to_string()]);
    assert!(more.is_empty());
}

#[test]
fn env_rebinds_an_existing_name() {
    let cfg = LinuxProcessConfiguration::new("p")
        .env("HOME".to_string(), "/root".to_string())
        .env("TERM".to_string(), "dumb".to_string())
        .env("HOME".to_string(), "/home/u".to_string());
    assert_eq!(
        cfg.envs,
        vec![
            ("HOME".to_string(), "/home/u".to_string()),
            ("TERM".to_string(), "dumb".to_string())
        ]
    );
}

#[test]
fn envs_binds_every_pair() {
    let extra = vec![
        ("A".to_string(), "1".to_string()),
        ("B".to_string(), "2".to_string()),
    ];
    let cfg = LinuxProcessConfiguration::new("p")
        .env("A".to_string(), "0".to_string())
        .envs(&extra);
    assert_eq!(
        cfg.envs,
        vec![("A".to_string(), "1".to_string()), ("B".to_string(), "2".to_string())]
    );
}

#[test]
fn clear_env_empties_the_environment() {
    let cfg = LinuxProcessConfiguration::new("p")
        .env("A".to_string(), "1".to_string())
        .clear_env();
    assert!(cfg.envs.is_empty());
}

#[test]
fn configuration_flags_and_ids_are_recorded() {
    let cfg = LinuxProcessConfiguration::new("p")
        .working_dir("/srv")
        .redirect_stdout()
        .redirect_stdin()
        .redirect_stderr()
        .disable_extra_reads()
        .user_id(1000)
        .group_id(100)
        .process_group_id(7);
    assert_eq!(cfg.working_dir.as_deref(), Some("/srv"));
    assert!(cfg.redirect_stdout && cfg.redirect_stdin && cfg.redirect_stderr);
    assert!(cfg.disable_extra_reads);
    assert_eq!(cfg.user_id, Some(1000));
    assert_eq!(cfg.group_id, Some(100));
    assert_eq!(cfg.process_group_id, Some(7));
}

#[test]
fn quoting_wraps_and_escapes() {
    assert_eq!(quote_arg("abc"), "'abc'");
    assert_eq!(quote_arg(""), "''");
    assert_eq!(quote_arg("a'b"), "'a'\\''b'");
    assert_eq!(quote_arg("two words"), "'two words'");
}

#[test]
fn command_line_quotes_program_and_arguments() {
    let cfg = LinuxProcessConfiguration::new("echo").arg("hello");
    assert_eq!(build_command(&cfg).unwrap(), "'echo' 'hello'");
}

#[test]
fn command_line_prefixes_environment() {
    let cfg = LinuxProcessConfiguration::new("env").env("K".to_string(), "a v".to_string());
    assert_eq!(build_command(&cfg).unwrap(), "env 'K=a v' 'env'");
}

#[test]
fn command_line_enters_working_directory() {
    let cfg = LinuxProcessConfiguration::new("ls").arg("-l").working_dir("/tmp");
    assert_eq!(build_command(&cfg).unwrap(), "cd '/tmp' && exec 'ls' '-l'");
}

#[test]
fn command_line_refuses_ids() {
    let cfg = LinuxProcessConfiguration::new("id").user_id(0);
    assert_eq!(build_command(&cfg), Err(LinuxProcessError::UnsupportedOperation));
    let cfg = LinuxProcessConfiguration::new("id").group_id(0);
    assert_eq!(build_command(&cfg), Err(LinuxProcessError::UnsupportedOperation));
    let cfg = LinuxProcessConfiguration::new("id").process_group_id(1);
    assert_eq!(build_command(&cfg), Err(LinuxProcessError::UnsupportedOperation));
}

#[test]
fn helper_commands_use_separator_and_quotes() {
    assert_eq!(copy_file_command("/a", "/b"), "cp -- '/a' '/b'");
    assert_eq!(hard_link_command("/src", "/dst"), "ln -- '/src' '/dst'");
    assert_eq!(remove_dir_recursive_command("/tmp/t"), "rm -rf -- '/tmp/t'");
    assert_eq!(create_dir_recursive_command("/tmp/a/b"), "mkdir -p -- '/tmp/a/b'");
}

#[test]
fn helper_commands_resist_option_like_paths() {
    assert_eq!(remove_dir_recursive_command("-rf x"), "rm -rf -- '-rf x'");
    assert_eq!(copy_file_command("a'b", "c"), "cp -- 'a'\\''b' 'c'");
}

#[test]
fn helper_result_is_success_only_on_zero_status() {
    assert_eq!(helper_exec_result(Some(0), b""), Ok(()));
    assert_eq!(helper_exec_result(Some(1), b"bad"), Err(b"bad".to_vec()));
    assert_eq!(helper_exec_result(Some(-9), b""), Err(Vec::new()));
    assert_eq!(helper_exec_result(None, b"gone"), Err(b"gone".to_vec()));
}

#[test]
fn helper_result_truncates_long_diagnostics() {
    let noise = vec![b'x'; 5000];
    let err = helper_exec_result(Some(2), &noise).unwrap_err();
    assert_eq!(err.len(), 1024);
    assert_eq!(err, noise[..1024].to_vec());
}
