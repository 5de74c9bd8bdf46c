use rustmix_wave::epaper::{
    validate_frame, BusyAction, BusyWait, Epaper397, FrameSizeError, PanelStep,
    BUSY_POLL_MS, BUSY_SETTLE_MS, BUSY_TIMEOUT_MS, FRAMEBUFFER_SIZE,
};

#[test]
fn accepts_native_frame_size() {
    let frame = vec![0_u8; FRAMEBUFFER_SIZE];
    assert!(validate_frame(&frame).is_ok());
}

#[test]
fn rejects_wrong_frame_size() {
    assert!(validate_frame(&[]).is_err());
    assert!(validate_frame(&[0_u8; 1]).is_err());
}

#[test]
fn frame_size_error_reports_the_length() {
    let error = validate_frame(&[0_u8; 3]).unwrap_err();
    assert_eq!(error, FrameSizeError { got: 3 });
    assert_eq!(
        error.message(),
        "invalid panel frame size: got 3, expected 48000"
    );
}

fn command_bytes(steps: &[PanelStep]) -> Vec<u8> {
    steps
        .iter()
        .filter_map(|step| match step {
            PanelStep::Command(command) => Some(*command),
            _ => None,
        })
        .collect()
}

#[test]
fn construction_sets_idle_pin_levels() {
    let (_driver, steps) = Epaper397::new();
    assert_eq!(steps.len(), 3);
    assert!(matches!(steps[0], PanelStep::CommandMode));
    assert!(matches!(steps[1], PanelStep::Reset(true)));
    assert!(matches!(steps[2], PanelStep::SelectChip));
}

#[test]
fn initialize_configures_the_native_window() {
    let (driver, _) = Epaper397::new();
    let steps = driver.initialize();
    assert!(matches!(steps[0], PanelStep::PowerRail(true)));
    assert_eq!(
        command_bytes(&steps),
        vec![0x12, 0x18, 0x0C, 0x01, 0x3C, 0x11, 0x44, 0x45, 0x4E, 0x4F]
    );
    let driver_output = steps
        .iter()
        .position(|step| matches!(step, PanelStep::Command(0x01)))
        .unwrap();
    match &steps[driver_output + 1] {
        PanelStep::Data(data) => assert_eq!(data, &vec![0xDF, 0x01, 0x02]),
        other => panic!("unexpected step {other:?}"),
    }
    let x_window = steps
        .iter()
        .position(|step| matches!(step, PanelStep::Command(0x44)))
        .unwrap();
    match &steps[x_window + 1] {
        PanelStep::Data(data) => assert_eq!(data, &vec![0x00, 0x00, 0x1F, 0x03]),
        other => panic!("unexpected step {other:?}"),
    }
    assert!(matches!(steps.last(), Some(PanelStep::WaitIdle)));
}

#[test]
fn base_refresh_writes_both_planes_then_turns_on() {
    let (driver, _) = Epaper397::new();
    let frame = vec![0_u8; FRAMEBUFFER_SIZE];
    let steps = driver.show_base(&frame).unwrap();
    assert_eq!(command_bytes(&steps), vec![0x24, 0x26, 0x22, 0x20]);
    assert_eq!(
        steps
            .iter()
            .filter(|step| matches!(step, PanelStep::FrameData))
            .count(),
        2
    );
    match &steps[5] {
        PanelStep::Data(data) => assert_eq!(data, &vec![0xF7]),
        other => panic!("unexpected step {other:?}"),
    }
    assert!(driver.show_base(&frame[1..]).is_err());
}

#[test]
fn partial_refresh_uses_fast_reset_and_fast_waveform() {
    let (driver, _) = Epaper397::new();
    let frame = vec![0_u8; FRAMEBUFFER_SIZE];
    let steps = driver.show_partial_fullscreen(&frame).unwrap();
    assert!(matches!(steps[0], PanelStep::Reset(true)));
    assert!(matches!(steps[1], PanelStep::DelayMs(10)));
    assert_eq!(
        command_bytes(&steps),
        vec![0x18, 0x3C, 0x44, 0x45, 0x4E, 0x4F, 0x24, 0x22, 0x20]
    );
    let control = steps
        .iter()
        .position(|step| matches!(step, PanelStep::Command(0x22)))
        .unwrap();
    match &steps[control + 1] {
        PanelStep::Data(data) => assert_eq!(data, &vec![0xFF]),
        other => panic!("unexpected step {other:?}"),
    }
    let error = driver.show_partial_fullscreen(&[]).unwrap_err();
    assert_eq!(error.got, 0);
}

#[test]
fn sleep_enters_deep_sleep_and_drops_the_rail() {
    let (driver, _) = Epaper397::new();
    let steps = driver.sleep();
    assert_eq!(command_bytes(&steps), vec![0x10]);
    assert!(matches!(steps[6], PanelStep::PowerRail(false)));
    assert_eq!(steps.len(), 8);
}

#[test]
fn busy_wait_polls_then_times_out() {
    let mut wait = BusyWait::after_settle();
    assert_eq!(wait.elapsed_ms(), BUSY_SETTLE_MS);
    assert_eq!(wait.on_sample(true), BusyAction::Poll(BUSY_POLL_MS));
    assert_eq!(wait.elapsed_ms(), BUSY_SETTLE_MS + BUSY_POLL_MS);
    assert_eq!(
        wait.on_sample(false),
        BusyAction::Released {
            elapsed_ms: BUSY_SETTLE_MS + BUSY_POLL_MS
        }
    );
    let mut stuck = BusyWait::after_settle();
    let mut polls = 0;
    loop {
        match stuck.on_sample(true) {
            BusyAction::Poll(_) => polls += 1,
            BusyAction::TimedOut => break,
            BusyAction::Released { .. } => panic!("busy line was held high"),
        }
    }
    assert_eq!(polls, 745);
    assert_eq!(stuck.elapsed_ms(), BUSY_TIMEOUT_MS);
}
