use adb_client::device::AdbClient;
use adb_client::host::{read_device_serials, read_server_version};
use adb_client::reader::ResponseReader;
use adb_client::server::adb_path;

fn version_answer() -> Vec<u8> {
    b"OKAY00040029".to_vec()
}

#[test]
fn test_path() {
    let path = adb_path("linux", "/opt/bridge");
    println!("{:?}", path);
    assert_eq!(path, "/opt/bridge/binaries/linux/adb");
}

#[test]
fn test_connect() {
    let adb = AdbClient::new(String::from("localhost"), 5037, 10_000);
    assert_eq!(adb.port, 5037);
    let mut reader = ResponseReader::new(version_answer());
    let version = read_server_version(&mut reader);
    println!("adb version: {:?}", version);
    assert_eq!(version.unwrap(), 29);
}

#[test]
fn test_devices() {
    let adb = AdbClient::new(String::from("localhost"), 5037, 10_000);
    let mut reader = ResponseReader::new(b"OKAY0015emulator-5554\tdevice\n".to_vec());
    let serials = read_device_serials(&mut reader).unwrap();
    assert_eq!(serials, vec!["emulator-5554".to_string()]);
    let devices = adb.devices_from_listing("emulator-5554\tdevice\n");
    println!("{:?}", devices);
    assert_eq!(devices.len(), 1);
    assert_eq!(devices[0].shell_mixin.serial, "emulator-5554");
    assert_eq!(devices[0].shell_mixin.client.host, "localhost");
}
