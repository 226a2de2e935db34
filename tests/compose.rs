use zeckit::compose::{decimal_string, DockerCompose};

fn strings(v: &[&str]) -> Vec<String> {
    v.iter().map(|s| s.to_string()).collect()
}

#[test]
fn project_root_from_cli_directory() {
    assert_eq!(DockerCompose::new("/home/dev/zeckit/cli").project_dir(), "/home/dev/zeckit");
    assert_eq!(DockerCompose::new("/home/dev/zeckit").project_dir(), "/home/dev/zeckit");
    assert_eq!(DockerCompose::new("/cli").project_dir(), "/");
    assert_eq!(DockerCompose::new("cli").project_dir(), "");
    assert_eq!(DockerCompose::new("/home/dev/mycli").project_dir(), "/home/dev/mycli");
}

#[test]
fn compose_arguments() {
    let c = DockerCompose::new("/p");
    assert_eq!(c.up_args(&strings(&["zebra", "faucet"])), strings(&["compose", "up", "-d", "zebra", "faucet"]));
    assert_eq!(c.build_args("zaino"), strings(&["compose", "--profile", "zaino", "build"]));
    assert_eq!(c.up_profile_args("lwd"), strings(&["compose", "--profile", "lwd", "up", "-d"]));
    assert_eq!(c.down_args(true), strings(&["compose", "down", "-v"]));
    assert_eq!(c.down_args(false), strings(&["compose", "down"]));
    assert_eq!(c.ps_args(), strings(&["compose", "ps", "--format", "table"]));
    assert_eq!(c.running_args(), strings(&["compose", "ps", "-q"]));
    assert_eq!(c.logs_args("zebra", 100), strings(&["compose", "logs", "--tail", "100", "zebra"]));
    assert_eq!(
        c.exec_args("zebra", &strings(&["ls", "-l"])),
        strings(&["compose", "exec", "-T", "zebra", "ls", "-l"])
    );
}

#[test]
fn decimal_strings() {
    assert_eq!(decimal_string(0), "0");
    assert_eq!(decimal_string(9), "9");
    assert_eq!(decimal_string(10), "10");
    assert_eq!(decimal_string(u64::MAX), "18446744073709551615");
}

#[test]
fn ps_and_log_lines() {
    assert_eq!(
        DockerCompose::ps_lines("NAME   IMAGE\nzebra  z:1\nfaucet f:1\n"),
        strings(&["zebra  z:1", "faucet f:1"])
    );
    assert!(DockerCompose::ps_lines("").is_empty());
    assert_eq!(DockerCompose::log_lines("a\r\nb\n\nc"), strings(&["a", "b", "", "c"]));
    assert!(DockerCompose::running_from("3f2a\n"));
    assert!(!DockerCompose::running_from(""));
}
