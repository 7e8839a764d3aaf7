use adb_client::connect::{connect_step, ConnectAction, ConnectEvent, ConnectStage};
use adb_client::device::{parse_device_list, resolve_serial, AdbClient, DevicePlan, ShellMixin};
use adb_client::error::{AdbError, SelectorFault};
use adb_client::host::read_server_version;
use adb_client::reader::ResponseReader;
use adb_client::selector::{host_connect_command, host_disconnect_command, push_decimal, selector_command, shell_command};
use adb_client::server::adb_path;

fn client() -> AdbClient {
    AdbClient::new(String::from("127.0.0.1"), 5037, 0)
}

fn fault_of<T: std::fmt::Debug>(r: Result<T, AdbError>) -> SelectorFault {
    match r {
        Err(AdbError::SelectorInvariantError { fault }) => fault,
        other => panic!("unexpected {:?}", other),
    }
}

#[test]
fn listing_keeps_online_devices() {
    let listing = "emulator-5554\tdevice\nemulator-5556\toffline\n";
    assert_eq!(parse_device_list(listing), vec!["emulator-5554".to_string()]);
    let devices = client().devices_from_listing(listing);
    assert_eq!(devices.len(), 1);
    assert_eq!(devices[0].shell_mixin.serial, "emulator-5554");
    assert_eq!(devices[0].shell_mixin.transport_id, 0);
}

#[test]
fn listing_ignores_malformed_lines() {
    let listing = "a\tdevice\textra\nb device\n\nc\tdevice";
    assert_eq!(parse_device_list(listing), vec!["c".to_string()]);
    assert!(parse_device_list("").is_empty());
}

#[test]
fn no_online_device_fails() {
    let r = client().device_from_listing("emulator-5554", "");
    assert_eq!(fault_of(r), SelectorFault::NoMatchingDevice);
    let r = client().device_from_listing("emulator-5554", "emulator-5554\toffline\n");
    assert_eq!(fault_of(r), SelectorFault::NoMatchingDevice);
}

#[test]
fn single_match_resolves_to_its_serial() {
    let listing = "emulator-5554\tdevice\nemulator-5556\tdevice\n";
    let device = client().device_from_listing("emulator-5556", listing).unwrap();
    assert_eq!(device.shell_mixin.serial, "emulator-5556");
    assert_eq!(device.describe(), "AdbDevice(serial=emulator-5556)");
}

#[test]
fn duplicate_match_is_ambiguous() {
    let online = vec!["x".to_string(), "x".to_string()];
    assert_eq!(fault_of(resolve_serial(&online, "x")), SelectorFault::AmbiguousDevice);
    assert_eq!(fault_of(resolve_serial(&online, "")), SelectorFault::NoTarget);
}

#[test]
fn explicit_target_needs_no_listing() {
    match client().device_plan("serial-1", 0, "other") {
        DevicePlan::Ready(d) => {
            assert_eq!(d.shell_mixin.serial, "serial-1");
            assert_eq!(d.shell_mixin.client.port, 5037);
        }
        DevicePlan::NeedListing => panic!("listing not expected"),
    }
    match client().device_plan("", 7, "") {
        DevicePlan::Ready(d) => assert_eq!(d.shell_mixin.transport_id, 7),
        DevicePlan::NeedListing => panic!("listing not expected"),
    }
    assert!(matches!(client().device_plan("", 0, "env-serial"), DevicePlan::NeedListing));
    match client().device_plan("", 0, "") {
        DevicePlan::Ready(d) => {
            assert_eq!(d.shell_mixin.serial, "");
            let r = d.shell_mixin.transport_command("shell:ls");
            assert_eq!(fault_of(r), SelectorFault::NoTarget);
        }
        DevicePlan::NeedListing => panic!("listing not expected"),
    }
}

#[test]
fn selector_prefixes() {
    assert_eq!(selector_command("abc", 0, "shell:ls").unwrap(), "host-serial:abc:shell:ls");
    assert_eq!(selector_command("", 12, "get-state").unwrap(), "host-transport-id:12:get-state");
    assert_eq!(fault_of(selector_command("abc", 3, "x")), SelectorFault::BothTargets);
    assert_eq!(fault_of(selector_command("", 0, "x")), SelectorFault::NoTarget);
    assert_eq!(shell_command("echo hi"), "shell:echo hi");
    assert_eq!(host_connect_command("10.0.0.2:5555"), "host:connect:10.0.0.2:5555");
    assert_eq!(host_disconnect_command("10.0.0.2:5555"), "host:disconnect:10.0.0.2:5555");
}

#[test]
fn transport_command_empty_is_bare() {
    let mixin = ShellMixin::new(client(), String::from("abc"), 0, None);
    assert_eq!(mixin.transport_command("").unwrap(), None);
    assert_eq!(mixin.transport_command("features").unwrap(), Some("host-serial:abc:features".to_string()));
}

#[test]
fn decimal_digits() {
    let mut s = String::from("n=");
    push_decimal(&mut s, 0);
    assert_eq!(s, "n=0");
    let mut t = String::new();
    push_decimal(&mut t, 4294967295);
    assert_eq!(t, "4294967295");
}

#[test]
fn deadline_zero_means_none() {
    assert_eq!(client().deadline_ms(), None);
    assert_eq!(AdbClient::new(String::from("h"), 1, 250).deadline_ms(), Some(250));
}

#[test]
fn server_paths_by_platform() {
    assert_eq!(adb_path("windows", "C:/tools"), "C:/tools/binaries/win/adb.exe");
    assert_eq!(adb_path("macos", "/x"), "/x/binaries/mac/adb");
    assert_eq!(adb_path("linux", ""), "binaries/linux/adb");
    assert_eq!(adb_path("linux", "/"), "/binaries/linux/adb");
    assert_eq!(adb_path("linux", "/opt/"), "/opt/binaries/linux/adb");
}

#[test]
fn refused_then_bootstrap_then_version() {
    let (stage, action) = connect_step(ConnectStage::FirstAttempt, ConnectEvent::Refused { message: String::from("refused") });
    assert_eq!(stage, ConnectStage::StartingServer);
    assert!(matches!(action, ConnectAction::StartServer));
    let (stage, action) = connect_step(stage, ConnectEvent::ServerExited { success: true, stderr: String::new() });
    assert_eq!(stage, ConnectStage::Retrying);
    assert!(matches!(action, ConnectAction::OpenSocket));
    let (stage, action) = connect_step(stage, ConnectEvent::Opened);
    assert_eq!(stage, ConnectStage::Connected);
    assert!(matches!(action, ConnectAction::Ready));
    let mut reader = ResponseReader::new(b"OKAY000231".to_vec());
    assert_eq!(read_server_version(&mut reader).unwrap(), 31);
}

#[test]
fn connect_failures_are_typed() {
    let (_, action) = connect_step(ConnectStage::FirstAttempt, ConnectEvent::ConnectFailed { message: String::from("unreachable") });
    assert!(matches!(action, ConnectAction::GiveUp(AdbError::TcpConnectError { refused: false, .. })));
    let (_, action) = connect_step(ConnectStage::StartingServer, ConnectEvent::ServerExited { success: false, stderr: String::from("boom") });
    match action {
        ConnectAction::GiveUp(AdbError::ServerBootstrapFailed { stderr }) => assert_eq!(stderr, "boom"),
        other => panic!("unexpected {:?}", other),
    }
    let (_, action) = connect_step(ConnectStage::StartingServer, ConnectEvent::ServerNotLaunched { message: String::from("missing") });
    assert!(matches!(action, ConnectAction::GiveUp(AdbError::StartAdbFailed { .. })));
    let (stage, action) = connect_step(ConnectStage::Retrying, ConnectEvent::Refused { message: String::from("again") });
    assert_eq!(stage, ConnectStage::Failed);
    assert!(matches!(action, ConnectAction::GiveUp(AdbError::TcpConnectError { refused: true, .. })));
    let (_, action) = connect_step(ConnectStage::Connected, ConnectEvent::Opened);
    assert!(matches!(action, ConnectAction::GiveUp(AdbError::UnknownError { .. })));
}
