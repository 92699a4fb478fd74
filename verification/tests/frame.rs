use roccat_vulkan_rgb::frame::{
    check_written, find_interface, led_packets, write_full_frame, DeviceError, DeviceStep,
    HidInterface, InitReport, Interface, PID, VID,
};
use roccat_vulkan_rgb::keys::{KEY_ALIASES, LED_COUNT};
use roccat_vulkan_rgb::state::Rgb;

fn gradient() -> Vec<Rgb> {
    (0..LED_COUNT as u8).map(|i| Rgb { r: i, g: i + 100, b: 255 - i }).collect()
}

#[test]
fn packets_carry_the_frame() {
    let leds = gradient();
    let packets = led_packets(&leds).unwrap();
    assert_eq!(packets.len(), 5);
    let mut frame = [0u8; 448];
    for (i, color) in leds.iter().enumerate() {
        let offset = ((i / 12) * 36) + (i % 12);
        frame[offset] = color.r;
        frame[offset + 12] = color.g;
        frame[offset + 24] = color.b;
    }
    for (n, packet) in packets.iter().enumerate() {
        assert_eq!(packet[4..64], frame[n * 60..n * 60 + 60]);
        if n == 0 {
            assert_eq!(packet[0..4], [0xa1, 0x01, 0x34, 0x01]);
        } else {
            assert_eq!(packet[0..4], [0xa1, n as u8 + 1, 0x00, 0x00]);
        }
    }
}

#[test]
fn first_bytes_of_a_frame() {
    let mut leds = vec![Rgb::default(); LED_COUNT];
    leds[0] = Rgb { r: 1, g: 2, b: 3 };
    leds[13] = Rgb { r: 4, g: 5, b: 6 };
    leds[95] = Rgb { r: 7, g: 8, b: 9 };
    let packets = led_packets(&leds).unwrap();
    assert_eq!(packets[0][4], 1);
    assert_eq!(packets[0][16], 2);
    assert_eq!(packets[0][28], 3);
    assert_eq!(packets[0][4 + 37], 4);
    assert_eq!(packets[0][4 + 49], 5);
    assert_eq!(packets[1][4 + 1], 6);
    assert_eq!(packets[4][4 + 23], 7);
    assert_eq!(packets[4][4 + 35], 8);
    assert_eq!(packets[4][4 + 47], 9);
}

#[test]
fn every_named_key_shows_in_the_packets() {
    let dark = led_packets(&vec![Rgb::default(); LED_COUNT]).unwrap();
    for (_, led) in KEY_ALIASES.iter() {
        let mut leds = vec![Rgb::default(); LED_COUNT];
        leds[*led] = Rgb { r: 1, g: 2, b: 3 };
        let packets = led_packets(&leds).unwrap();
        let mut changed: Vec<u8> = Vec::new();
        for (a, b) in packets.iter().zip(dark.iter()) {
            for (x, y) in a.iter().zip(b.iter()) {
                if x != y {
                    changed.push(*x);
                }
            }
        }
        assert_eq!(changed, [1, 2, 3]);
    }
}

#[test]
fn short_maps_are_refused() {
    let result = led_packets(&vec![Rgb::default(); 126]);
    match result {
        Err(e) => assert_eq!(e.message(), "short LED map: got 126, expected 127"),
        Ok(_) => panic!("accepted"),
    }
    assert!(led_packets(&vec![Rgb::default(); 200]).is_ok());
}

#[test]
fn steps_with_the_init_sequence() {
    let plan = write_full_frame(&gradient(), true);
    let mut expected = vec![
        DeviceStep::Open(Interface::Led),
        DeviceStep::Open(Interface::Ctrl),
        DeviceStep::SendReport(InitReport::Report0d),
        DeviceStep::Wait,
        DeviceStep::SendReport(InitReport::Report0e),
        DeviceStep::Wait,
        DeviceStep::SendReport(InitReport::Report11),
        DeviceStep::Wait,
    ];
    for n in 0..5 {
        expected.push(DeviceStep::WritePacket(n));
    }
    assert_eq!(plan.steps, expected);
    assert_eq!(plan.packets, led_packets(&gradient()).unwrap());
}

#[test]
fn steps_without_the_init_sequence() {
    let plan = write_full_frame(&gradient(), false);
    assert_eq!(plan.steps.len(), 6);
    assert_eq!(plan.steps[0], DeviceStep::Open(Interface::Led));
    assert_eq!(plan.steps[1], DeviceStep::WritePacket(0));
}

#[test]
fn a_short_map_is_refused_after_the_init_sequence() {
    let plan = write_full_frame(&[], true);
    assert_eq!(plan.steps.len(), 9);
    assert_eq!(plan.steps[8], DeviceStep::RejectShortMap(0));
    assert_eq!(plan.steps[8].failure(), "short LED map: got 0, expected 127");
    assert!(plan.packets.is_empty());
}

#[test]
fn init_reports_hold_their_bytes() {
    let first = InitReport::Report0d.bytes();
    assert_eq!(first.len(), 16);
    assert_eq!(first[..8], [0x0d, 0x10, 0x00, 0x00, 0x02, 0x0f, 0x45, 0x00]);
    assert_eq!(InitReport::Report0e.bytes(), [0x0e, 0x05, 0x01, 0x00, 0x00]);
    let third = InitReport::Report11.bytes();
    assert_eq!(third.len(), 299);
    assert_eq!(third[..4], [0x11, 0x2b, 0x01, 0x00]);
    assert_eq!(third[297..], [0x4a, 0x75]);
    assert_eq!(third.iter().map(|b| *b as usize).sum::<usize>(), THIRD_SUM);
}

const THIRD_SUM: usize = 30217;

#[test]
fn writes_are_judged_by_their_length() {
    assert!(check_written(0, 64).is_ok());
    assert_eq!(
        check_written(2, 63).unwrap_err().message(),
        "short HID write on packet 3: 63 bytes"
    );
    assert!(check_written(0, 65).is_err());
}

#[test]
fn interfaces_are_found_by_their_numbers() {
    let other = HidInterface { vendor_id: VID, product_id: 1, interface_number: 3 };
    let ctrl = HidInterface { vendor_id: VID, product_id: PID, interface_number: 1 };
    let led = HidInterface { vendor_id: VID, product_id: PID, interface_number: 3 };
    let devices = [other, ctrl, led, led];
    assert_eq!(find_interface(&devices, Interface::Led).unwrap(), 2);
    assert_eq!(find_interface(&devices, Interface::Ctrl).unwrap(), 1);
    match find_interface(&[other, led], Interface::Ctrl) {
        Err(DeviceError::NotFound(which)) => assert_eq!(which, Interface::Ctrl),
        other => panic!("{other:?}"),
    }
    assert_eq!(
        find_interface(&[], Interface::Ctrl).unwrap_err().message(),
        "could not find Vulkan Pro TKL CTRL interface (vid=1e7d pid=311a interface=1)"
    );
    assert_eq!(
        find_interface(&[], Interface::Led).unwrap_err().message(),
        "could not find Vulkan Pro TKL LED interface (vid=1e7d pid=311a interface=3)"
    );
}

#[test]
fn failed_steps_have_messages() {
    assert_eq!(
        DeviceStep::Open(Interface::Ctrl).failure(),
        "failed to open CTRL HID device (permissions?)"
    );
    assert_eq!(
        DeviceStep::SendReport(InitReport::Report0d).failure(),
        "failed to send init report 0x0d"
    );
    assert_eq!(
        DeviceStep::SendReport(InitReport::Report0e).failure(),
        "failed to send init report 0x0e"
    );
    assert_eq!(
        DeviceStep::SendReport(InitReport::Report11).failure(),
        "failed to send init report 0x11"
    );
    assert_eq!(DeviceStep::WritePacket(4).failure(), "failed writing packet 5");
}
