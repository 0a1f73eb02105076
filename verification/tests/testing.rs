use kernel::testing::QemuExitCode;

#[test]
fn exit_codes_have_their_device_numbers() {
    assert_eq!(QemuExitCode::Success.number(), 0x10);
    assert_eq!(QemuExitCode::Failed.number(), 0x11);
}
