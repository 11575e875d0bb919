use ili9488_parallel::bus::{BusEvent, BusWidth, ParallelBus, SelectPhase};
use ili9488_parallel::color::{Color, PixelFormat, PixelSample};
use ili9488_parallel::config::{ColorOrder, PanelConfig};
use ili9488_parallel::driver::{ControllerState, InitStep, Pixel, StepOutcome, ILI9488};
use ili9488_parallel::error::DisplayError;
use ili9488_parallel::geometry::{AddressWindow, PanelGeometry, Point, Rotation};
use ili9488_parallel::panel::PanelModel;

fn sel(phase: SelectPhase) -> BusEvent {
    BusEvent::Select(phase)
}

fn w(word: u16) -> BusEvent {
    BusEvent::Word(word)
}

fn new_display(width: BusWidth, format: PixelFormat, reset: bool, backlight: bool) -> ILI9488 {
    let bus = ParallelBus::new(width, width.pin_count()).unwrap();
    let config = PanelConfig::new(Rotation::Deg0, false, ColorOrder::Rgb, format);
    ILI9488::new(bus, reset, backlight, 480, 320, config).unwrap()
}

fn ready_display(width: BusWidth, format: PixelFormat) -> ILI9488 {
    let mut display = new_display(width, format, true, true);
    display.init().unwrap();
    for _ in 0..5 {
        display.advance(StepOutcome::Done).unwrap();
    }
    assert_eq!(display.state(), ControllerState::Ready);
    display.take_pending();
    display
}

fn window_cycles(x0: u16, y0: u16, x1: u16, y1: u16) -> Vec<BusEvent> {
    vec![
        sel(SelectPhase::Command),
        w(0x2A),
        sel(SelectPhase::Data),
        w(x0 >> 8),
        w(x0 & 0xFF),
        w(x1 >> 8),
        w(x1 & 0xFF),
        sel(SelectPhase::Command),
        w(0x2B),
        sel(SelectPhase::Data),
        w(y0 >> 8),
        w(y0 & 0xFF),
        w(y1 >> 8),
        w(y1 & 0xFF),
        sel(SelectPhase::Command),
        w(0x2C),
    ]
}

#[test]
fn new_driver_is_uninitialized() {
    let display = new_display(BusWidth::Eight, PixelFormat::Bits16, true, false);
    assert_eq!(display.state(), ControllerState::Uninitialized);
    assert_eq!(
        display.geometry(),
        PanelGeometry { width: 480, height: 320, rotation: Rotation::Deg0 }
    );
    assert_eq!(display.pixel_format(), PixelFormat::Bits16);
    assert_eq!(display.config().color_order, ColorOrder::Rgb);
    assert_eq!(display.bounding_box(), AddressWindow::new(0, 0, 479, 319));
    assert_eq!(display.bus().pending(), vec![sel(SelectPhase::Command)]);
}

#[test]
fn new_driver_takes_rotation_from_config() {
    let bus = ParallelBus::new(BusWidth::Eight, 8).unwrap();
    let config = PanelConfig::new(Rotation::Deg90, true, ColorOrder::Bgr, PixelFormat::Bits18);
    let display = ILI9488::new(bus, false, false, 320, 480, config).unwrap();
    assert_eq!(
        display.geometry(),
        PanelGeometry { width: 320, height: 480, rotation: Rotation::Deg90 }
    );
    assert_eq!(display.config(), config);
}

#[test]
fn new_driver_rejects_panel_without_pixels() {
    let config = PanelConfig::new(Rotation::Deg0, false, ColorOrder::Rgb, PixelFormat::Bits16);
    let a = ILI9488::new(ParallelBus::new(BusWidth::Eight, 8).unwrap(), true, true, 0, 320, config);
    assert!(matches!(a, Err(DisplayError::ConfigurationError)));
    let b = ILI9488::new(ParallelBus::new(BusWidth::Eight, 8).unwrap(), true, true, 480, 0, config);
    assert!(matches!(b, Err(DisplayError::ConfigurationError)));
}

#[test]
fn init_runs_reset_then_script_then_ready() {
    let mut display = new_display(BusWidth::Eight, PixelFormat::Bits16, true, true);
    display.take_pending();
    assert_eq!(display.init(), Ok(InitStep::PulseReset { hold_us: 10_000, settle_us: 120_000 }));
    assert_eq!(display.state(), ControllerState::Resetting);
    assert!(display.bus().pending().is_empty());

    assert_eq!(display.advance(StepOutcome::Done), Ok(InitStep::Transmit { settle_us: 120_000 }));
    assert_eq!(display.state(), ControllerState::Configuring);
    assert_eq!(display.take_pending(), vec![sel(SelectPhase::Command), w(0x11)]);

    assert_eq!(display.advance(StepOutcome::Done), Ok(InitStep::Transmit { settle_us: 0 }));
    assert_eq!(
        display.take_pending(),
        vec![sel(SelectPhase::Command), w(0x3A), sel(SelectPhase::Data), w(0x55)]
    );

    assert_eq!(display.advance(StepOutcome::Done), Ok(InitStep::Transmit { settle_us: 0 }));
    assert_eq!(
        display.take_pending(),
        vec![sel(SelectPhase::Command), w(0x36), sel(SelectPhase::Data), w(0x00)]
    );

    assert_eq!(display.advance(StepOutcome::Done), Ok(InitStep::Transmit { settle_us: 20_000 }));
    assert_eq!(display.state(), ControllerState::Configuring);
    assert_eq!(display.take_pending(), vec![sel(SelectPhase::Command), w(0x29)]);

    assert_eq!(display.advance(StepOutcome::Done), Ok(InitStep::Finished { backlight: true }));
    assert_eq!(display.state(), ControllerState::Ready);
    assert!(display.bus().pending().is_empty());

    assert_eq!(display.advance(StepOutcome::Done), Ok(InitStep::Finished { backlight: true }));
    assert_eq!(display.state(), ControllerState::Ready);
}

#[test]
fn init_without_reset_line_waits() {
    let mut display = new_display(BusWidth::Sixteen, PixelFormat::Bits24, false, false);
    assert_eq!(display.init(), Ok(InitStep::Wait { settle_us: 120_000 }));
    assert_eq!(display.state(), ControllerState::Resetting);
    for _ in 0..4 {
        assert!(matches!(display.advance(StepOutcome::Done), Ok(InitStep::Transmit { .. })));
    }
    assert_eq!(display.advance(StepOutcome::Done), Ok(InitStep::Finished { backlight: false }));
    assert_eq!(display.state(), ControllerState::Ready);
}

#[test]
fn init_script_follows_the_configuration() {
    let bus = ParallelBus::new(BusWidth::Sixteen, 16).unwrap();
    let config = PanelConfig::new(Rotation::Deg270, true, ColorOrder::Bgr, PixelFormat::Bits18);
    let mut display = ILI9488::new(bus, true, false, 480, 320, config).unwrap();
    display.take_pending();
    display.init().unwrap();
    for _ in 0..5 {
        display.advance(StepOutcome::Done).unwrap();
    }
    assert_eq!(
        display.take_pending(),
        vec![
            sel(SelectPhase::Command),
            w(0x11),
            sel(SelectPhase::Command),
            w(0x3A),
            sel(SelectPhase::Data),
            w(0x66),
            sel(SelectPhase::Command),
            w(0x36),
            sel(SelectPhase::Data),
            w(0xE8),
            sel(SelectPhase::Command),
            w(0x29),
        ]
    );
}

#[test]
fn init_is_refused_while_under_way() {
    let mut display = new_display(BusWidth::Eight, PixelFormat::Bits16, true, true);
    display.init().unwrap();
    assert_eq!(display.init(), Err(DisplayError::NotInitialized));
    assert_eq!(display.state(), ControllerState::Resetting);
    display.advance(StepOutcome::Done).unwrap();
    assert_eq!(display.init(), Err(DisplayError::NotInitialized));
    assert_eq!(display.state(), ControllerState::Configuring);
}

#[test]
fn init_may_be_run_again_when_ready() {
    let mut display = ready_display(BusWidth::Eight, PixelFormat::Bits16);
    assert_eq!(display.init(), Ok(InitStep::PulseReset { hold_us: 10_000, settle_us: 120_000 }));
    assert_eq!(display.state(), ControllerState::Resetting);
    assert_eq!(display.clear(Color::new(0, 0, 0)), Err(DisplayError::NotInitialized));
    assert_eq!(display.advance(StepOutcome::Done), Ok(InitStep::Transmit { settle_us: 120_000 }));
    assert_eq!(display.take_pending(), vec![sel(SelectPhase::Command), w(0x11)]);
}

#[test]
fn advance_before_init_is_refused() {
    let mut display = new_display(BusWidth::Eight, PixelFormat::Bits16, true, true);
    assert_eq!(display.advance(StepOutcome::Done), Err(DisplayError::NotInitialized));
    assert_eq!(display.state(), ControllerState::Uninitialized);
}

#[test]
fn fault_while_resetting_leaves_driver_faulted() {
    let mut display = new_display(BusWidth::Eight, PixelFormat::Bits16, true, true);
    display.init().unwrap();
    assert_eq!(display.advance(StepOutcome::Fault), Err(DisplayError::BusFault));
    assert_eq!(display.state(), ControllerState::Faulted);
}

#[test]
fn fault_while_configuring_leaves_driver_faulted() {
    let mut display = new_display(BusWidth::Eight, PixelFormat::Bits16, true, true);
    display.init().unwrap();
    display.advance(StepOutcome::Done).unwrap();
    display.advance(StepOutcome::Done).unwrap();
    assert_eq!(display.state(), ControllerState::Configuring);
    assert_eq!(display.advance(StepOutcome::Fault), Err(DisplayError::BusFault));
    assert_eq!(display.state(), ControllerState::Faulted);
    display.take_pending();

    assert_eq!(display.set_window(AddressWindow::new(0, 0, 1, 1)), Err(DisplayError::NotInitialized));
    assert_eq!(display.stream_pixels(&vec![PixelSample::new(1)]), Err(DisplayError::NotInitialized));
    assert_eq!(
        display.fill_sample(AddressWindow::new(0, 0, 1, 1), PixelSample::new(1)),
        Err(DisplayError::NotInitialized)
    );
    assert_eq!(
        display.fill(AddressWindow::new(0, 0, 1, 1), Color::new(1, 2, 3)),
        Err(DisplayError::NotInitialized)
    );
    assert_eq!(display.clear(Color::new(1, 2, 3)), Err(DisplayError::NotInitialized));
    let pixels = vec![Pixel { at: Point { x: 1, y: 1 }, color: Color::new(1, 2, 3) }];
    assert_eq!(display.draw_iter(&pixels), Err(DisplayError::NotInitialized));
    assert!(display.bus().pending().is_empty());
    assert_eq!(display.state(), ControllerState::Faulted);

    assert_eq!(display.init(), Err(DisplayError::BusFault));
    assert_eq!(display.advance(StepOutcome::Done), Err(DisplayError::BusFault));
    assert_eq!(display.advance(StepOutcome::Fault), Err(DisplayError::BusFault));
    assert_eq!(display.state(), ControllerState::Faulted);
    assert!(display.bus().pending().is_empty());
}

#[test]
fn fault_when_ready_is_final_too() {
    let mut display = ready_display(BusWidth::Eight, PixelFormat::Bits16);
    assert_eq!(display.advance(StepOutcome::Fault), Err(DisplayError::BusFault));
    assert_eq!(display.state(), ControllerState::Faulted);
    assert_eq!(display.clear(Color::new(0, 0, 0)), Err(DisplayError::NotInitialized));
}

#[test]
fn draw_before_init_is_refused_without_bus_writes() {
    let mut display = new_display(BusWidth::Eight, PixelFormat::Bits16, true, true);
    display.take_pending();
    assert_eq!(display.set_window(AddressWindow::new(0, 0, 1, 1)), Err(DisplayError::NotInitialized));
    assert_eq!(display.set_window(AddressWindow::new(5, 5, 1, 1)), Err(DisplayError::NotInitialized));
    assert_eq!(display.stream_pixels(&vec![]), Err(DisplayError::NotInitialized));
    assert_eq!(display.clear(Color::new(0, 0, 0)), Err(DisplayError::NotInitialized));
    assert_eq!(display.draw_iter(&vec![]), Err(DisplayError::NotInitialized));
    assert!(display.bus().pending().is_empty());
    assert_eq!(display.state(), ControllerState::Uninitialized);
}

#[test]
fn set_window_programs_both_ranges_and_arms() {
    let mut display = ready_display(BusWidth::Eight, PixelFormat::Bits16);
    assert_eq!(display.set_window(AddressWindow::new(0x012C, 2, 0x01DF, 0x013F)), Ok(()));
    assert_eq!(display.take_pending(), window_cycles(0x012C, 2, 0x01DF, 0x013F));
    assert_eq!(display.bus().phase(), SelectPhase::Command);
    assert_eq!(display.state(), ControllerState::Ready);
}

#[test]
fn set_window_out_of_bounds_writes_nothing() {
    let mut display = ready_display(BusWidth::Eight, PixelFormat::Bits16);
    for rect in [
        AddressWindow::new(0, 0, 480, 10),
        AddressWindow::new(0, 0, 10, 320),
        AddressWindow::new(11, 0, 10, 10),
        AddressWindow::new(0, 11, 10, 10),
        AddressWindow::new(0, 0, 65535, 65535),
        AddressWindow::new(500, 400, 400, 300),
    ] {
        assert_eq!(display.set_window(rect), Err(DisplayError::OutOfBounds));
        assert_eq!(display.fill_sample(rect, PixelSample::new(0)), Err(DisplayError::OutOfBounds));
        assert_eq!(display.fill(rect, Color::new(0, 0, 0)), Err(DisplayError::OutOfBounds));
        assert!(display.bus().pending().is_empty());
        assert_eq!(display.state(), ControllerState::Ready);
    }
    assert_eq!(display.set_window(AddressWindow::new(479, 319, 479, 319)), Ok(()));
}

#[test]
fn window_then_stream_selects_data_once() {
    let mut display = ready_display(BusWidth::Eight, PixelFormat::Bits16);
    let rect = AddressWindow::new(3, 4, 5, 5);
    let samples: Vec<PixelSample> = (0..6u32).map(|k| PixelSample::new(0x1000 + k)).collect();
    assert_eq!(display.set_window(rect), Ok(()));
    assert_eq!(display.stream_pixels(&samples), Ok(()));
    let cycles = display.take_pending();
    let head = window_cycles(3, 4, 5, 5);
    assert_eq!(&cycles[..16], &head[..]);
    assert_eq!(cycles[16], sel(SelectPhase::Data));
    let data = &cycles[17..];
    assert_eq!(data.len(), 12);
    for (k, pair) in data.chunks(2).enumerate() {
        assert_eq!(pair, &[w(0x10), w(k as u16)]);
    }
    assert_eq!(cycles.iter().filter(|e| **e == sel(SelectPhase::Data)).count(), 3);
    assert_eq!(cycles[16..].iter().filter(|e| matches!(e, BusEvent::Select(_))).count(), 1);
}

#[test]
fn stream_of_nothing_only_selects_data() {
    let mut display = ready_display(BusWidth::Sixteen, PixelFormat::Bits16);
    assert_eq!(display.stream_pixels(&vec![]), Ok(()));
    assert_eq!(display.take_pending(), vec![sel(SelectPhase::Data)]);
    assert_eq!(display.bus().phase(), SelectPhase::Data);
}

#[test]
fn stream_frames_samples_by_format_and_width() {
    let sample = vec![PixelSample::new(0x00AB_CDEF)];
    let mut a = ready_display(BusWidth::Eight, PixelFormat::Bits16);
    a.stream_pixels(&sample).unwrap();
    assert_eq!(a.take_pending(), vec![sel(SelectPhase::Data), w(0xCD), w(0xEF)]);
    let mut b = ready_display(BusWidth::Eight, PixelFormat::Bits24);
    b.stream_pixels(&sample).unwrap();
    assert_eq!(b.take_pending(), vec![sel(SelectPhase::Data), w(0xAB), w(0xCD), w(0xEF)]);
    let mut c = ready_display(BusWidth::Sixteen, PixelFormat::Bits16);
    c.stream_pixels(&sample).unwrap();
    assert_eq!(c.take_pending(), vec![sel(SelectPhase::Data), w(0xCDEF)]);
    let mut d = ready_display(BusWidth::Sixteen, PixelFormat::Bits18);
    d.stream_pixels(&sample).unwrap();
    assert_eq!(d.take_pending(), vec![sel(SelectPhase::Data), w(0x00AB), w(0xCDEF)]);
    let mut e = ready_display(BusWidth::Eight, PixelFormat::Bits18);
    e.stream_pixels(&vec![PixelSample::new(0xFF12_3456)]).unwrap();
    assert_eq!(e.take_pending(), vec![sel(SelectPhase::Data), w(0x12), w(0x34), w(0x56)]);
}

#[test]
fn fill_streams_one_sample_per_pixel() {
    let mut display = ready_display(BusWidth::Sixteen, PixelFormat::Bits16);
    let rect = AddressWindow::new(10, 20, 12, 21);
    assert_eq!(display.fill(rect, Color::new(0, 0, 255)), Ok(()));
    let mut expected = window_cycles(10, 20, 12, 21);
    expected.push(sel(SelectPhase::Data));
    for _ in 0..6 {
        expected.push(w(0x001F));
    }
    assert_eq!(display.take_pending(), expected);
    assert_eq!(display.bus().phase(), SelectPhase::Data);
}

#[test]
fn full_panel_fill_with_pure_red() {
    let mut display = ready_display(BusWidth::Eight, PixelFormat::Bits16);
    let rect = AddressWindow::new(0, 0, 479, 319);
    assert_eq!(display.fill_sample(rect, PixelSample::new(0xF800)), Ok(()));
    let cycles = display.take_pending();
    let head = window_cycles(0, 0, 479, 319);
    assert_eq!(&cycles[..16], &head[..]);
    assert_eq!(cycles[14], sel(SelectPhase::Command));
    assert_eq!(cycles[15], w(0x2C));
    assert_eq!(cycles[16], sel(SelectPhase::Data));
    let data = &cycles[17..];
    assert_eq!(data.len(), 153600 * 2);
    for pair in data.chunks(2) {
        assert_eq!(pair, &[w(0xF8), w(0x00)]);
    }
}

#[test]
fn full_panel_fill_with_pure_red_on_wide_bus() {
    let mut display = ready_display(BusWidth::Sixteen, PixelFormat::Bits16);
    assert_eq!(display.fill(AddressWindow::new(0, 0, 479, 319), Color::new(255, 0, 0)), Ok(()));
    let cycles = display.take_pending();
    assert_eq!(cycles[15], w(0x2C));
    assert_eq!(cycles[16], sel(SelectPhase::Data));
    let data = &cycles[17..];
    assert_eq!(data.len(), 153600);
    assert!(data.iter().all(|e| *e == w(0xF800)));
}

#[test]
fn single_pixel_draw_in_pure_green() {
    let mut display = ready_display(BusWidth::Sixteen, PixelFormat::Bits16);
    let pixels = vec![Pixel { at: Point { x: 10, y: 20 }, color: Color::new(0x03, 0xFF, 0x07) }];
    assert_eq!(display.draw_iter(&pixels), Ok(()));
    let mut expected = window_cycles(10, 20, 10, 20);
    expected.push(sel(SelectPhase::Data));
    expected.push(w(0x07E0));
    assert_eq!(display.take_pending(), expected);
    assert_eq!(display.state(), ControllerState::Ready);
}

#[test]
fn clear_shows_on_the_panel_model() {
    for (width, format) in [
        (BusWidth::Eight, PixelFormat::Bits16),
        (BusWidth::Sixteen, PixelFormat::Bits16),
        (BusWidth::Eight, PixelFormat::Bits18),
        (BusWidth::Sixteen, PixelFormat::Bits24),
    ] {
        let bus = ParallelBus::new(width, width.pin_count()).unwrap();
        let config = PanelConfig::new(Rotation::Deg0, false, ColorOrder::Rgb, format);
        let mut display = ILI9488::new(bus, true, true, 24, 16, config).unwrap();
        let mut panel = PanelModel::new(display.geometry(), format, width);
        display.init().unwrap();
        for _ in 0..5 {
            display.advance(StepOutcome::Done).unwrap();
        }
        panel.feed(&display.take_pending());
        assert!(panel.frame().iter().all(|p| *p == 0));
        let color = Color::new(0x12, 0xd2, 0xff);
        assert_eq!(display.clear(color), Ok(()));
        panel.feed(&display.take_pending());
        let want = format.convert(color).value;
        assert_eq!(panel.frame().len(), 24 * 16);
        assert!(panel.frame().iter().all(|p| *p == want));
        assert_eq!(panel.pixel(23, 15), Some(want));
    }
}

#[test]
fn draw_iter_stops_at_first_pixel_off_the_panel() {
    let mut display = ready_display(BusWidth::Sixteen, PixelFormat::Bits16);
    let red = Color::new(255, 0, 0);
    let pixels = vec![
        Pixel { at: Point { x: 1, y: 2 }, color: red },
        Pixel { at: Point { x: 479, y: 319 }, color: red },
        Pixel { at: Point { x: -1, y: 5 }, color: red },
        Pixel { at: Point { x: 3, y: 3 }, color: red },
    ];
    assert_eq!(display.draw_iter(&pixels), Err(DisplayError::OutOfBounds));
    let mut expected = window_cycles(1, 2, 1, 2);
    expected.push(sel(SelectPhase::Data));
    expected.push(w(0xF800));
    expected.extend(window_cycles(479, 319, 479, 319));
    expected.push(sel(SelectPhase::Data));
    expected.push(w(0xF800));
    assert_eq!(display.take_pending(), expected);
    assert_eq!(display.state(), ControllerState::Ready);

    let off = vec![Pixel { at: Point { x: 480, y: 0 }, color: red }];
    assert_eq!(display.draw_iter(&off), Err(DisplayError::OutOfBounds));
    let below = vec![Pixel { at: Point { x: 0, y: 320 }, color: red }];
    assert_eq!(display.draw_iter(&below), Err(DisplayError::OutOfBounds));
    assert!(display.bus().pending().is_empty());
    assert_eq!(display.draw_iter(&vec![]), Ok(()));
    assert!(display.bus().pending().is_empty());
}

#[test]
fn drawn_pixels_show_last_color_on_the_panel_model() {
    let mut display = ready_display(BusWidth::Eight, PixelFormat::Bits16);
    let mut panel = PanelModel::new(display.geometry(), PixelFormat::Bits16, BusWidth::Eight);
    let pixels = vec![
        Pixel { at: Point { x: 5, y: 7 }, color: Color::new(255, 0, 0) },
        Pixel { at: Point { x: 0, y: 0 }, color: Color::new(0, 255, 0) },
        Pixel { at: Point { x: 5, y: 7 }, color: Color::new(0, 0, 255) },
        Pixel { at: Point { x: 479, y: 319 }, color: Color::new(255, 255, 255) },
    ];
    assert_eq!(display.draw_iter(&pixels), Ok(()));
    panel.feed(&display.take_pending());
    assert_eq!(panel.pixel(5, 7), Some(0x001F));
    assert_eq!(panel.pixel(0, 0), Some(0x07E0));
    assert_eq!(panel.pixel(479, 319), Some(0xFFFF));
    assert_eq!(panel.pixel(6, 7), Some(0));
    assert_eq!(panel.frame().iter().filter(|p| **p != 0).count(), 3);
}

#[test]
fn take_pending_leaves_state_alone() {
    let mut display = ready_display(BusWidth::Eight, PixelFormat::Bits16);
    display.set_window(AddressWindow::new(0, 0, 0, 0)).unwrap();
    assert_eq!(display.take_pending().len(), 16);
    assert!(display.take_pending().is_empty());
    assert_eq!(display.state(), ControllerState::Ready);
    assert_eq!(display.bus().phase(), SelectPhase::Command);
}

#[test]
fn next_cycle_streams_a_fill_in_order() {
    let mut display = ready_display(BusWidth::Eight, PixelFormat::Bits16);
    display.fill_sample(AddressWindow::new(0, 0, 479, 319), PixelSample::new(0xF800)).unwrap();
    let head = window_cycles(0, 0, 479, 319);
    for want in head {
        assert_eq!(display.next_cycle(), Some(want));
    }
    assert_eq!(display.next_cycle(), Some(sel(SelectPhase::Data)));
    let mut words = 0u32;
    while let Some(cycle) = display.next_cycle() {
        assert_eq!(cycle, if words % 2 == 0 { w(0xF8) } else { w(0x00) });
        words += 1;
    }
    assert_eq!(words, 153600 * 2);
    assert_eq!(display.next_cycle(), None);
    assert_eq!(display.state(), ControllerState::Ready);
}
