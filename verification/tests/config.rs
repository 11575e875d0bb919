use ili9488_parallel::color::PixelFormat;
use ili9488_parallel::config::{
    ColorOrder, InitCommand, PanelConfig, COLUMN_ADDRESS_SET, DISPLAY_ON, DISPLAY_ON_SETTLE_US,
    MEMORY_ACCESS_CONTROL, MEMORY_WRITE, PIXEL_FORMAT_SET, RESET_HOLD_US, RESET_SETTLE_US,
    ROW_ADDRESS_SET, SLEEP_OUT, SLEEP_OUT_SETTLE_US,
};
use ili9488_parallel::geometry::Rotation;

#[test]
fn opcodes_and_delays() {
    assert_eq!(SLEEP_OUT, 0x11);
    assert_eq!(DISPLAY_ON, 0x29);
    assert_eq!(COLUMN_ADDRESS_SET, 0x2A);
    assert_eq!(ROW_ADDRESS_SET, 0x2B);
    assert_eq!(MEMORY_WRITE, 0x2C);
    assert_eq!(MEMORY_ACCESS_CONTROL, 0x36);
    assert_eq!(PIXEL_FORMAT_SET, 0x3A);
    assert_eq!(RESET_HOLD_US, 10_000);
    assert_eq!(RESET_SETTLE_US, 120_000);
    assert_eq!(SLEEP_OUT_SETTLE_US, 120_000);
    assert_eq!(DISPLAY_ON_SETTLE_US, 20_000);
}

#[test]
fn access_control_by_rotation_mirror_and_order() {
    let table = [
        (Rotation::Deg0, false, 0x00u8),
        (Rotation::Deg0, true, 0x40),
        (Rotation::Deg90, false, 0x60),
        (Rotation::Deg90, true, 0x20),
        (Rotation::Deg180, false, 0xC0),
        (Rotation::Deg180, true, 0x80),
        (Rotation::Deg270, false, 0xA0),
        (Rotation::Deg270, true, 0xE0),
    ];
    for (rotation, mirror, scan) in table {
        let rgb = PanelConfig::new(rotation, mirror, ColorOrder::Rgb, PixelFormat::Bits16);
        let bgr = PanelConfig::new(rotation, mirror, ColorOrder::Bgr, PixelFormat::Bits16);
        assert_eq!(rgb.access_control_byte(), scan);
        assert_eq!(bgr.access_control_byte(), scan | 0x08);
    }
}

#[test]
fn script_is_sleep_out_format_access_display_on() {
    let config = PanelConfig::new(Rotation::Deg90, false, ColorOrder::Bgr, PixelFormat::Bits18);
    let script = config.build_script();
    assert_eq!(
        script,
        vec![
            InitCommand { opcode: 0x11, params: vec![], settle_us: 120_000 },
            InitCommand { opcode: 0x3A, params: vec![0x66], settle_us: 0 },
            InitCommand { opcode: 0x36, params: vec![0x68], settle_us: 0 },
            InitCommand { opcode: 0x29, params: vec![], settle_us: 20_000 },
        ]
    );
}

#[test]
fn config_keeps_its_options() {
    let config = PanelConfig::new(Rotation::Deg270, true, ColorOrder::Rgb, PixelFormat::Bits24);
    assert_eq!(config.rotation, Rotation::Deg270);
    assert!(config.mirror);
    assert_eq!(config.color_order, ColorOrder::Rgb);
    assert_eq!(config.pixel_format, PixelFormat::Bits24);
}
