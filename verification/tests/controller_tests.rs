use light_control::controller::{
    motion_detector_initial, motion_detector_step, DimmerEvent, DimmerState, MotionDimmerState,
    RingState, SwitchState, TimerCommand,
};
use light_control::dmx::{switch_channel_value, DimmColorUpdate, DmxChannels, DmxCommand, WhitebalanceState};
use light_control::io16::{channel_settings, io16_step, ButtonSignal, ChannelSetting, ChannelTimer, Io16Event};
use light_control::outputs::{motion_sensor_step, RelayState};
use light_control::registry::{
    ButtonState, DualButtonKey, DualButtonLayout, SingleButtonKey, SingleButtonLayout,
};
use light_control::room::{DeviceInRoom, Room, SubDeviceInRoom};
use light_control::wiring::{io_channel_count, ButtonSetting};

fn press(b: DualButtonLayout) -> DimmerEvent<DualButtonLayout> {
    DimmerEvent::ButtonState(ButtonState::ShortPressStart(b))
}

fn release() -> DimmerEvent<DualButtonLayout> {
    DimmerEvent::ButtonState(ButtonState::Released)
}

#[test]
fn dimmer_short_press_up_restores_last_brightness() {
    let s = DimmerState::new(120);
    let off = s.step(press(DualButtonLayout::Down)).state.step(release());
    assert_eq!(Some(0), off.send);
    assert_eq!(TimerCommand::Clear, off.timer);
    let on = off.state.step(press(DualButtonLayout::Up)).state.step(release());
    assert_eq!(Some(120), on.send);
    assert_eq!(TimerCommand::RestartAutoSwitchOff, on.timer);
    assert_eq!(120, on.state.current_brightness);
}

#[test]
fn dimmer_switches_on_full_without_last_brightness() {
    let s = DimmerState::new(0);
    let on = s.step(press(DualButtonLayout::Up)).state.step(release());
    assert_eq!(Some(255), on.send);
    assert_eq!(255, on.state.last_on_brightness);
}

#[test]
fn dimmer_long_press_dims_and_remembers() {
    let s = DimmerState::new(10);
    let long = s.step(DimmerEvent::ButtonState(ButtonState::LongPressStart(DualButtonLayout::Down)));
    assert_eq!(TimerCommand::StartKeepPressing(DualButtonLayout::Down), long.timer);
    let mut state = long.state;
    for expected in [9u8, 8, 7] {
        let r = state.step(DimmerEvent::KeepPressing(DualButtonLayout::Down));
        assert_eq!(Some(expected), r.send);
        state = r.state;
    }
    let released = state.step(release());
    assert_eq!(None, released.send);
    assert_eq!(7, released.state.last_on_brightness);
    // dimming saturates at both ends
    assert_eq!(Some(255), DimmerState::new(255).step(DimmerEvent::KeepPressing(DualButtonLayout::Up)).send);
    assert_eq!(Some(0), DimmerState::new(0).step(DimmerEvent::KeepPressing(DualButtonLayout::Down)).send);
}

#[test]
fn dimmer_auto_switch_off_and_presence() {
    let s = DimmerState::new(80);
    assert_eq!(TimerCommand::RestartAutoSwitchOff, s.step(DimmerEvent::PresenceDetected).timer);
    let off = s.step(DimmerEvent::AutoSwitchOff);
    assert_eq!(Some(0), off.send);
    assert_eq!(TimerCommand::Keep, off.state.step(DimmerEvent::PresenceDetected).timer);
}

#[test]
fn switch_controller_steps() {
    let s = SwitchState { current_state: false };
    let on = s.step(press(DualButtonLayout::Up));
    assert_eq!(Some(true), on.send);
    assert_eq!(TimerCommand::RestartAutoSwitchOff, on.timer);
    let off = on.state.step(press(DualButtonLayout::Down));
    assert_eq!(Some(false), off.send);
    assert_eq!(TimerCommand::Clear, off.timer);
    assert_eq!(Some(false), on.state.step(DimmerEvent::AutoSwitchOff).send);
    assert_eq!(None, on.state.step(release()).send);
}

#[test]
fn motion_controllers() {
    assert!(!motion_detector_initial());
    let r = motion_detector_step(DimmerEvent::PresenceDetected);
    assert_eq!(Some(true), r.send);
    assert_eq!(TimerCommand::RestartAutoSwitchOff, r.timer);
    assert_eq!(Some(false), motion_detector_step(DimmerEvent::AutoSwitchOff).send);

    let s = MotionDimmerState::new();
    let dark = s.step(DimmerEvent::SetBrightness(40));
    assert_eq!(None, dark.send);
    let lit = dark.state.step(DimmerEvent::PresenceDetected);
    assert_eq!(Some(40), lit.send);
    assert_eq!(Some(90), lit.state.step(DimmerEvent::SetBrightness(90)).send);
    assert_eq!(Some(0), lit.state.step(DimmerEvent::AutoSwitchOff).send);
}

#[test]
fn bell_sends_only_changes() {
    let s = RingState::new();
    let pressed = s.step(ButtonState::ShortPressStart(SingleButtonLayout));
    assert_eq!(Some(true), pressed.send);
    assert_eq!(None, pressed.state.step(ButtonState::ShortPressStart(SingleButtonLayout)).send);
    assert_eq!(None, pressed.state.step(ButtonState::LongPressStart(SingleButtonLayout)).send);
    assert_eq!(Some(false), pressed.state.step(ButtonState::Released).send);
    assert_eq!(None, s.step(ButtonState::Released).send);
}

fn room() -> Room {
    Room { floor: 1, room: 2 }
}

#[test]
fn io16_buttons_report_to_their_keys() {
    let dual = DualButtonKey(SubDeviceInRoom { room: room(), device_idx: 0, sub_device_idx: 1 });
    let single = SingleButtonKey::MotionDetector(DeviceInRoom { room: room(), idx: 3 });
    let buttons = vec![
        ButtonSetting::Dual { up_button: 0, down_button: 1, output: dual },
        ButtonSetting::Single { button: 5, output: single },
        ButtonSetting::Single { button: 20, output: single },
    ];
    assert_eq!(4, io_channel_count(&buttons));
    let settings = channel_settings(&buttons);
    assert_eq!(16, settings.len());
    assert_eq!(ChannelSetting::DualButtonUp(dual), settings[0]);
    assert_eq!(ChannelSetting::DualButtonDown(dual), settings[1]);
    assert_eq!(ChannelSetting::SingleButton(single), settings[5]);
    assert_eq!(ChannelSetting::Unused, settings[2]);

    let p = io16_step(&settings, Io16Event::Press(1));
    assert_eq!(
        Some(ButtonSignal::Dual(dual, ButtonState::ShortPressStart(DualButtonLayout::Down))),
        p.send
    );
    assert_eq!(ChannelTimer::StartLongPress, p.timer);
    let l = io16_step(&settings, Io16Event::LongPress(1));
    assert_eq!(
        Some(ButtonSignal::Dual(dual, ButtonState::LongPressStart(DualButtonLayout::Down))),
        l.send
    );
    assert_eq!(ChannelTimer::StartRelease, l.timer);
    let r = io16_step(&settings, Io16Event::Release(5));
    assert_eq!(Some(ButtonSignal::Single(single, ButtonState::Released)), r.send);
    assert_eq!(ChannelTimer::Cancel, r.timer);
    assert_eq!(None, io16_step(&settings, Io16Event::Press(2)).send);
    let out = io16_step(&settings, Io16Event::Press(16));
    assert_eq!(None, out.send);
    assert_eq!(ChannelTimer::Keep, out.timer);
}

#[test]
fn relays_and_motion_sensor() {
    let mut s = RelayState::new();
    assert!(s.set_state(2, true));
    assert!(!s.set_state(2, true));
    assert_eq!([false, false, true, false], s.values);
    let start = motion_sensor_step(true);
    assert_eq!(ButtonState::ShortPressStart(SingleButtonLayout), start.send);
    assert!(start.restart_timer);
    assert_eq!(ButtonState::Released, motion_sensor_step(false).send);
}

#[test]
fn dmx_frames_to_write() {
    let mut d = DmxChannels::new();
    assert_eq!(vec![60u16], d.apply(DmxCommand::single(70, 10)));
    assert_eq!(Vec::<u16>::new(), d.apply(DmxCommand::single(70, 10)));
    // two close channels are written as one frame that starts 60 channels below the higher one
    assert_eq!(vec![5u16], d.apply(DmxCommand::dual(65, 1, 20, 2)));
    // far apart channels give two frames
    assert_eq!(vec![0u16, 120], d.apply(DmxCommand::dual(1, 5, 130, 6)));
    // only the changed one of two channels is written
    assert_eq!(vec![120u16], d.apply(DmxCommand::dual(1, 5, 130, 7)));
    assert_eq!(Vec::<u16>::new(), d.apply(DmxCommand::Exit));
    let frame = d.frame(60);
    assert_eq!(60, frame.len());
    assert_eq!(10, frame[10]);
    assert_eq!(1, frame[5]);
    assert_eq!(255, switch_channel_value(true));
    assert_eq!(0, switch_channel_value(false));
}

#[test]
fn whitebalance_split() {
    let mut s = WhitebalanceState::new(370, 133);
    assert_eq!(251, s.whitebalance);
    let p = s.update(DimmColorUpdate::Brightness(200));
    assert_eq!(200, p.brightness);
    assert_eq!(118, p.warm_part);
    assert_eq!(119, p.cold_part);
    let p = s.update(DimmColorUpdate::Color(1000));
    assert_eq!(370, s.whitebalance);
    assert_eq!(237, p.warm_part);
    assert_eq!(0, p.cold_part);
    let p = s.update(DimmColorUpdate::Color(10));
    assert_eq!(0, p.warm_part);
    assert_eq!(237, p.cold_part);
}
