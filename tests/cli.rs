use probe_rs::cli::{cargo_build_args, DownloadError};
use probe_rs::memory_ap::AccessPortError;
use probe_rs::probe::DebugProbeError;

fn args(list: &[&str]) -> Vec<String> {
    list.iter().map(|s| s.to_string()).collect()
}

#[test]
fn tool_flags_are_removed() {
    let a = args(&[
        "cargo-flash", "flash", "--chip", "nRF52832_xxAA", "--release", "--reset-halt", "--gdb",
        "--example", "blinky",
    ]);
    assert_eq!(cargo_build_args(a), args(&["--release", "--example", "blinky"]));
}

#[test]
fn equals_forms_are_removed() {
    let a = args(&["cargo-flash", "--chip=STM32F429", "-c=chips.yaml", "--nrf-recover", "--bin", "app"]);
    assert_eq!(cargo_build_args(a), args(&["--bin", "app"]));
}

#[test]
fn description_path_takes_a_value() {
    let a = args(&["cargo-flash", "--chip-description-path", "my.yaml", "-c", "other.yaml", "--no-download"]);
    assert_eq!(cargo_build_args(a), args(&[]));
}

#[test]
fn only_first_occurrence_goes() {
    let a = args(&["cargo-flash", "--gdb", "--gdb-connection-string=x:1", "--features", "a"]);
    assert_eq!(cargo_build_args(a), args(&["--features", "a"]));
    let a = args(&["cargo-flash", "--reset-halt", "--reset-halt"]);
    assert_eq!(cargo_build_args(a), args(&["--reset-halt"]));
}

#[test]
fn program_name_only() {
    assert_eq!(cargo_build_args(args(&["cargo-flash"])), args(&[]));
    assert_eq!(cargo_build_args(args(&[])), args(&[]));
}

#[test]
fn download_errors_wrap_their_causes() {
    assert!(matches!(
        DownloadError::from(DebugProbeError::ProbeFirmwareOutdated),
        DownloadError::DebugProbe(DebugProbeError::ProbeFirmwareOutdated)
    ));
    assert!(matches!(
        DownloadError::from(AccessPortError::Fault),
        DownloadError::AccessPort(AccessPortError::Fault)
    ));
    let io = std::io::Error::new(std::io::ErrorKind::NotFound, "missing");
    match DownloadError::from(io) {
        DownloadError::StdIO(e) => assert_eq!(e.kind(), std::io::ErrorKind::NotFound),
        _ => panic!("expected an I/O error"),
    }
}
