//! How a frame of colours goes to the keyboard: the packets, and the steps around them.
use crate::keys;
use crate::keys::LED_COUNT;
use crate::state::Rgb;
use crate::text;
use vstd::prelude::*;
use vstd::string::*;

verus! {

/// The USB vendor of the keyboard.
pub const VID: u16 = 0x1e7d;

/// The USB product of the keyboard.
pub const PID: u16 = 0x311a;

/// The number of the interface that takes the init sequence.
pub const CTRL_INTERFACE: i32 = 1;

/// The number of the interface that takes colour frames.
pub const LED_INTERFACE: i32 = 3;

/// The pause after each report of the init sequence, in milliseconds.
pub const WAIT_MS: u64 = 10;

/// The bytes of a whole frame.
pub const FRAME_LEN: usize = 448;

/// The frame bytes that one packet carries.
pub const CHUNK_LEN: usize = 60;

/// The bytes of a packet.
pub const PACKET_LEN: usize = 64;

/// The packets that are sent for a frame.
pub const PACKET_COUNT: usize = 5;

/// The first report of the init sequence.
pub const REPORT_0D: [u8; 16] = [
    0x0d, 0x10, 0x00, 0x00, 0x02, 0x0f, 0x45, 0x00, 0x00, 0x00, 0x00, 0x00,
    0x00, 0x00, 0x00, 0x00,
];

/// The second report of the init sequence.
pub const REPORT_0E: [u8; 5] = [0x0e, 0x05, 0x01, 0x00, 0x00];

/// The third report of the init sequence.
pub const REPORT_11: [u8; 299] = [
    0x11, 0x2b, 0x01, 0x00, 0x09, 0x06, 0x45, 0x80, 0x00, 0xff, 0xff, 0xff,
    0xff, 0xff, 0xff, 0xff, 0xff, 0xff, 0xff, 0xff, 0xff, 0x0a, 0x0a, 0x0a,
    0x0a, 0x0a, 0x0a, 0x11, 0x11, 0x11, 0x11, 0x17, 0x17, 0x00, 0x00, 0x00,
    0x00, 0x00, 0x00, 0x00, 0x00, 0x00, 0x00, 0x00, 0x00, 0xff, 0xff, 0xff,
    0xff, 0xff, 0xff, 0xff, 0xff, 0xff, 0xff, 0xff, 0xff, 0x17, 0x17, 0x17,
    0x17, 0x1e, 0x1e, 0x1e, 0x1e, 0x1e, 0x1e, 0x1e, 0x25, 0x00, 0x00, 0x00,
    0x00, 0x00, 0x00, 0x00, 0x00, 0x00, 0x00, 0x00, 0x00, 0xff, 0xff, 0xff,
    0xff, 0xff, 0xff, 0xff, 0xff, 0xff, 0xff, 0xff, 0xff, 0x25, 0x25, 0x25,
    0x25, 0x2b, 0x2b, 0x2b, 0x2b, 0x32, 0x32, 0x39, 0x39, 0x00, 0x00, 0x00,
    0x00, 0x00, 0x00, 0x00, 0x00, 0x00, 0x00, 0x00, 0x00, 0xff, 0xff, 0xff,
    0xff, 0xff, 0xff, 0xff, 0xff, 0xff, 0xff, 0xff, 0xff, 0x32, 0x39, 0x39,
    0x3f, 0x39, 0x39, 0x3f, 0x3f, 0x46, 0x46, 0x46, 0x3f, 0x00, 0x00, 0x00,
    0x00, 0x00, 0x00, 0x00, 0x00, 0x00, 0x00, 0x00, 0x00, 0xff, 0xff, 0xff,
    0xff, 0xff, 0xff, 0xff, 0xff, 0xff, 0xfe, 0xfe, 0xff, 0x3f, 0x46, 0x46,
    0x4d, 0x4d, 0x46, 0x46, 0x4d, 0x4d, 0x53, 0x53, 0x4d, 0x00, 0x00, 0x00,
    0x00, 0x00, 0x00, 0x00, 0x00, 0x00, 0x00, 0x00, 0x00, 0xfe, 0xfe, 0xfc,
    0xfc, 0xfc, 0xfc, 0xfc, 0xfc, 0xfa, 0xfa, 0xfa, 0xfa, 0x53, 0x53, 0x57,
    0x57, 0x57, 0x57, 0x57, 0x57, 0x5c, 0x5c, 0x5c, 0x5c, 0x00, 0x00, 0x00,
    0x00, 0x00, 0x00, 0x00, 0x00, 0x00, 0x00, 0x00, 0x00, 0xfa, 0xfa, 0xf8,
    0xf6, 0xf6, 0xf8, 0xf8, 0xf6, 0xf6, 0xf6, 0xf6, 0x00, 0x5c, 0x5c, 0x62,
    0x66, 0x66, 0x62, 0x62, 0x66, 0x66, 0x66, 0x66, 0x00, 0x00, 0x00, 0x00,
    0x00, 0x00, 0x00, 0x00, 0x00, 0x00, 0x00, 0x00, 0x00, 0xf4, 0xf4, 0xf4,
    0x00, 0xf1, 0xf1, 0xf1, 0xf1, 0xf4, 0xef, 0xef, 0xef, 0x6b, 0x6b, 0x6b,
    0x00, 0x71, 0x71, 0x71, 0x71, 0x6b, 0x75, 0x75, 0x75, 0x00, 0x00, 0x00,
    0x00, 0x00, 0x00, 0x00, 0x00, 0x00, 0x00, 0x00, 0x00, 0x4a, 0x75,
];

/// A channel of a colour: red, green, blue.
pub open spec fn channel(color: Rgb, c: int) -> u8 {
    if c == 0 {
        color.r
    } else if c == 1 {
        color.g
    } else {
        color.b
    }
}

/// The LED and the channel that the byte at position `k` of a frame is for. A frame is made of
/// blocks of 36 bytes, each for twelve LEDs: their red bytes, then their green ones, then their
/// blue ones.
#[verifier::opaque]
pub open spec fn shown_at(k: int) -> (int, int) {
    ((k / 36) * 12 + k % 12, k % 36 / 12)
}

/// The byte at position `k` of a frame; the bytes beyond the last LED are zero.
pub open spec fn frame_byte(leds: Seq<Rgb>, k: int) -> u8 {
    let (led, c) = shown_at(k);
    if led < LED_COUNT {
        channel(leds[led], c)
    } else {
        0
    }
}

/// The four bytes in front of the chunk of packet `n`.
pub open spec fn packet_header(n: int) -> Seq<u8> {
    if n == 0 {
        seq![0xa1u8, 0x01, 0x34, 0x01]
    } else {
        seq![0xa1u8, (n + 1) as u8, 0x00, 0x00]
    }
}

/// Packet `n` of a frame: its header, then sixty bytes of the frame.
pub open spec fn packet(leds: Seq<Rgb>, n: int) -> Seq<u8> {
    packet_header(n) + Seq::new(CHUNK_LEN as nat, |j: int| frame_byte(leds, n * CHUNK_LEN + j))
}

/// The position of a channel of an LED in the frame.
pub open spec fn frame_position(led: int, c: int) -> int {
    (led / 12) * 36 + led % 12 + 12 * c
}

/// The positions of an LED are those that show it.
proof fn lemma_shown_at(k: int, led: int)
    requires
        0 <= k,
        0 <= led,
    ensures
        0 <= shown_at(k).0,
        0 <= shown_at(k).1 < 3,
        shown_at(k).0 == led <==> k == frame_position(led, shown_at(k).1),
        forall|c: int| 0 <= c < 3 && k == frame_position(led, c) ==> shown_at(k) == (led, c),
{
    reveal(shown_at);
    let block = k / 36;
    let within = k % 36;
    assert(k == 36 * block + within);
    assert(k % 12 == within % 12);
    assert(within == 12 * (within / 12) + within % 12);
    assert forall|c: int| 0 <= c < 3 && k == frame_position(led, c) implies shown_at(k) == (
        led,
        c,
    ) by {
        let rest = led % 12 + 12 * c;
        assert(k == 36 * (led / 12) + rest);
        assert(0 <= rest < 36);
        assert(block == led / 12);
        assert(within == rest);
    }
}

fn frame_bytes(led_map: &[Rgb]) -> (r: [u8; 448])
    requires
        led_map@.len() >= LED_COUNT,
    ensures
        forall|k: int| 0 <= k < FRAME_LEN ==> #[trigger] r@[k] == frame_byte(led_map@, k),
{
    let mut frame: [u8; 448] = [0u8; 448];
    let mut i: usize = 0;
    assert forall|k: int| 0 <= k < FRAME_LEN implies shown_at(k).0 >= 0 by {
        lemma_shown_at(k, 0);
    }
    while i < LED_COUNT
        invariant
            led_map@.len() >= LED_COUNT,
            i <= LED_COUNT,
            forall|k: int|
                0 <= k < FRAME_LEN ==> #[trigger] frame@[k] == (if shown_at(k).0 < i {
                    frame_byte(led_map@, k)
                } else {
                    0
                }),
        decreases LED_COUNT - i,
    {
        let color: Rgb = led_map[i];
        let offset: usize = (i / 12) * 36 + i % 12;
        let ghost before = frame@;
        frame[offset] = color.r;
        frame[offset + 12] = color.g;
        frame[offset + 24] = color.b;
        assert forall|k: int| 0 <= k < FRAME_LEN implies #[trigger] frame@[k] == (if shown_at(k).0
            < i + 1 {
            frame_byte(led_map@, k)
        } else {
            0u8
        }) by {
            lemma_shown_at(k, i as int);
            assert(frame_position(i as int, 0) == offset);
            assert(frame_position(i as int, 1) == offset + 12);
            assert(frame_position(i as int, 2) == offset + 24);
            assert(before[k] == (if shown_at(k).0 < i {
                frame_byte(led_map@, k)
            } else {
                0
            }));
        }
        i += 1;
    }
    frame
}

/// Why the keyboard could not be given a frame.
#[derive(Debug, Clone, Copy)]
pub enum DeviceError {
    /// The interface is not among the devices.
    NotFound(Interface),
    /// The LED map holds only so many LEDs.
    ShortMap(usize),
    /// Only so many bytes of a packet, counted from one, were written.
    ShortWrite { packet: usize, written: usize },
}

/// An interface of the keyboard.
#[derive(Debug, Clone, Copy, PartialEq, Eq, Structural)]
pub enum Interface {
    Ctrl,
    Led,
}

impl Interface {
    pub open spec fn spec_number(self) -> i32 {
        match self {
            Interface::Ctrl => CTRL_INTERFACE,
            Interface::Led => LED_INTERFACE,
        }
    }

    pub open spec fn spec_label(self) -> Seq<char> {
        match self {
            Interface::Ctrl => "CTRL"@,
            Interface::Led => "LED"@,
        }
    }

    /// The number of the interface on the device.
    pub fn number(self) -> (r: i32)
        ensures
            r == self.spec_number(),
    {
        match self {
            Interface::Ctrl => CTRL_INTERFACE,
            Interface::Led => LED_INTERFACE,
        }
    }

    fn label(self) -> (r: &'static str)
        ensures
            r@ == self.spec_label(),
    {
        match self {
            Interface::Ctrl => "CTRL",
            Interface::Led => "LED",
        }
    }
}

impl DeviceError {
    /// The message for the user.
    pub open spec fn text(&self) -> Seq<char> {
        match *self {
            DeviceError::NotFound(interface) => "could not find Vulkan Pro TKL "@
                + interface.spec_label() + " interface (vid="@ + text::hex4(VID) + " pid="@
                + text::hex4(PID) + " interface="@ + text::decimal(interface.spec_number() as nat)
                + ")"@,
            DeviceError::ShortMap(got) => "short LED map: got "@ + text::decimal(got as nat)
                + ", expected "@ + text::decimal(LED_COUNT as nat),
            DeviceError::ShortWrite { packet, written } => "short HID write on packet "@
                + text::decimal(packet as nat) + ": "@ + text::decimal(written as nat)
                + " bytes"@,
        }
    }

    /// The message for the user.
    pub fn message(&self) -> (r: String)
        ensures
            r@ == self.text(),
    {
        match *self {
            DeviceError::NotFound(interface) => {
                let mut out: String = "could not find Vulkan Pro TKL ".to_owned();
                out.append(interface.label());
                out.append(" interface (vid=");
                text::push_hex4(&mut out, VID);
                out.append(" pid=");
                text::push_hex4(&mut out, PID);
                out.append(" interface=");
                text::push_decimal(&mut out, interface.number() as usize);
                out.append(")");
                out
            },
            DeviceError::ShortMap(got) => {
                let mut out: String = "short LED map: got ".to_owned();
                text::push_decimal(&mut out, got);
                out.append(", expected ");
                text::push_decimal(&mut out, LED_COUNT);
                out
            },
            DeviceError::ShortWrite { packet, written } => {
                let mut out: String = "short HID write on packet ".to_owned();
                text::push_decimal(&mut out, packet);
                out.append(": ");
                text::push_decimal(&mut out, written);
                out.append(" bytes");
                out
            },
        }
    }
}

/// The packets of the frame that shows `led_map`.
pub fn led_packets(led_map: &[Rgb]) -> (r: Result<Vec<[u8; 64]>, DeviceError>)
    ensures
        match r {
            Ok(packets) => {
                &&& led_map@.len() >= LED_COUNT
                &&& packets@.len() == PACKET_COUNT
                &&& forall|n: int|
                    0 <= n < PACKET_COUNT ==> (#[trigger] packets@[n])@ == packet(led_map@, n)
            },
            Err(DeviceError::ShortMap(got)) => got == led_map@.len() && led_map@.len() < LED_COUNT,
            Err(_) => false,
        },
{
    if led_map.len() < LED_COUNT {
        return Err(DeviceError::ShortMap(led_map.len()));
    }
    let frame: [u8; 448] = frame_bytes(led_map);
    let mut packets: Vec<[u8; 64]> = Vec::new();
    let mut n: usize = 0;
    while n < PACKET_COUNT
        invariant
            n <= PACKET_COUNT,
            led_map@.len() >= LED_COUNT,
            forall|k: int| 0 <= k < FRAME_LEN ==> #[trigger] frame@[k] == frame_byte(led_map@, k),
            packets@.len() == n,
            forall|m: int| 0 <= m < n ==> (#[trigger] packets@[m])@ == packet(led_map@, m),
        decreases PACKET_COUNT - n,
    {
        let mut bytes: [u8; 64] = [0u8; 64];
        bytes[0] = 0xa1;
        if n == 0 {
            bytes[1] = 0x01;
            bytes[2] = 0x34;
            bytes[3] = 0x01;
        } else {
            bytes[1] = (n as u8) + 1;
        }
        let mut j: usize = 0;
        while j < CHUNK_LEN
            invariant
                n < PACKET_COUNT,
                j <= CHUNK_LEN,
                forall|k: int|
                    0 <= k < FRAME_LEN ==> #[trigger] frame@[k] == frame_byte(led_map@, k),
                forall|m: int| 0 <= m < 4 ==> #[trigger] bytes@[m] == packet_header(n as int)[m],
                forall|m: int|
                    0 <= m < j ==> #[trigger] bytes@[4 + m] == frame_byte(
                        led_map@,
                        n * CHUNK_LEN + m,
                    ),
            decreases CHUNK_LEN - j,
        {
            bytes[4 + j] = frame[n * CHUNK_LEN + j];
            j += 1;
        }
        assert(bytes@ =~= packet(led_map@, n as int)) by {
            assert forall|m: int| 0 <= m < PACKET_LEN implies bytes@[m] == packet(
                led_map@,
                n as int,
            )[m] by {
                if m >= 4 {
                    assert(bytes@[4 + (m - 4)] == frame_byte(led_map@, n * CHUNK_LEN + (m - 4)));
                }
            }
        }
        packets.push(bytes);
        n += 1;
    }
    Ok(packets)
}

/// A report of the init sequence.
#[derive(Debug, Clone, Copy, PartialEq, Eq, Structural)]
pub enum InitReport {
    Report0d,
    Report0e,
    Report11,
}

impl InitReport {
    /// The bytes of the report; the first is its number.
    pub open spec fn spec_bytes(self) -> Seq<u8> {
        match self {
            InitReport::Report0d => REPORT_0D@,
            InitReport::Report0e => REPORT_0E@,
            InitReport::Report11 => REPORT_11@,
        }
    }

    /// The bytes of the report; the first is its number.
    pub fn bytes(self) -> (r: Vec<u8>)
        ensures
            r@ == self.spec_bytes(),
    {
        match self {
            InitReport::Report0d => copied(&REPORT_0D),
            InitReport::Report0e => copied(&REPORT_0E),
            InitReport::Report11 => copied(&REPORT_11),
        }
    }
}

fn copied<const N: usize>(bytes: &[u8; N]) -> (r: Vec<u8>)
    ensures
        r@ == bytes@,
{
    let mut out: Vec<u8> = Vec::new();
    let mut i: usize = 0;
    while i < N
        invariant
            i <= N,
            out@ == bytes@.take(i as int),
        decreases N - i,
    {
        out.push(bytes[i]);
        i += 1;
        assert(out@ =~= bytes@.take(i as int));
    }
    assert(bytes@.take(N as int) =~= bytes@);
    out
}

/// A step on the way of a frame to the keyboard.
#[derive(Debug, Clone, Copy, PartialEq, Eq, Structural)]
pub enum DeviceStep {
    /// Find and open an interface.
    Open(Interface),
    /// Send a feature report to the control interface.
    SendReport(InitReport),
    /// Pause for `WAIT_MS` milliseconds.
    Wait,
    /// Write the packet with this number, counted from zero, to the LED interface.
    WritePacket(usize),
    /// Give up, because the LED map holds only so many LEDs.
    RejectShortMap(usize),
}

/// The steps that switch the keyboard into host-driven LED mode.
pub open spec fn init_steps() -> Seq<DeviceStep> {
    seq![
        DeviceStep::Open(Interface::Ctrl),
        DeviceStep::SendReport(InitReport::Report0d),
        DeviceStep::Wait,
        DeviceStep::SendReport(InitReport::Report0e),
        DeviceStep::Wait,
        DeviceStep::SendReport(InitReport::Report11),
        DeviceStep::Wait,
    ]
}

/// The steps that send the packets of a frame for a map of `len` LEDs.
pub open spec fn packet_steps(len: nat) -> Seq<DeviceStep> {
    if len < LED_COUNT {
        seq![DeviceStep::RejectShortMap(len as usize)]
    } else {
        Seq::new(PACKET_COUNT as nat, |n: int| DeviceStep::WritePacket(n as usize))
    }
}

/// The steps that give the keyboard a map of `len` LEDs.
pub open spec fn frame_steps(len: nat, initialize: bool) -> Seq<DeviceStep> {
    seq![DeviceStep::Open(Interface::Led)] + (if initialize {
        init_steps()
    } else {
        seq![]
    }) + packet_steps(len)
}

/// What it takes to give the keyboard a frame. The steps are taken in order, and the first that
/// fails ends them.
#[derive(Debug)]
pub struct FramePlan {
    pub steps: Vec<DeviceStep>,
    pub packets: Vec<[u8; 64]>,
}

/// The plan for giving the keyboard the frame that shows `led_map`.
pub fn write_full_frame(led_map: &[Rgb], initialize: bool) -> (r: FramePlan)
    ensures
        r.steps@ == frame_steps(led_map@.len(), initialize),
        r.packets@.len() == (if led_map@.len() < LED_COUNT {
            0
        } else {
            PACKET_COUNT as nat
        }),
        forall|n: int|
            0 <= n < r.packets@.len() ==> (#[trigger] r.packets@[n])@ == packet(led_map@, n),
        r.steps@[0] == DeviceStep::Open(Interface::Led),
        ({
            let first: int = if initialize {
                8
            } else {
                1
            };
            if led_map@.len() >= LED_COUNT {
                &&& r.steps@.len() == first + PACKET_COUNT
                &&& forall|i: int|
                    first <= i < r.steps@.len() ==> #[trigger] r.steps@[i]
                        == DeviceStep::WritePacket((i - first) as usize)
            } else {
                &&& r.steps@.len() == first + 1
                &&& r.steps@[first] == DeviceStep::RejectShortMap(led_map@.len() as usize)
            }
        }),
        initialize ==> {
            &&& r.steps@[1] == DeviceStep::Open(Interface::Ctrl)
            &&& r.steps@[2] == DeviceStep::SendReport(InitReport::Report0d)
            &&& r.steps@[3] == DeviceStep::Wait
            &&& r.steps@[4] == DeviceStep::SendReport(InitReport::Report0e)
            &&& r.steps@[5] == DeviceStep::Wait
            &&& r.steps@[6] == DeviceStep::SendReport(InitReport::Report11)
            &&& r.steps@[7] == DeviceStep::Wait
        },
{
    let mut steps: Vec<DeviceStep> = Vec::new();
    steps.push(DeviceStep::Open(Interface::Led));
    if initialize {
        steps.push(DeviceStep::Open(Interface::Ctrl));
        steps.push(DeviceStep::SendReport(InitReport::Report0d));
        steps.push(DeviceStep::Wait);
        steps.push(DeviceStep::SendReport(InitReport::Report0e));
        steps.push(DeviceStep::Wait);
        steps.push(DeviceStep::SendReport(InitReport::Report11));
        steps.push(DeviceStep::Wait);
    }
    let ghost opening = steps@;
    let packets: Vec<[u8; 64]> = match led_packets(led_map) {
        Ok(packets) => {
            let mut n: usize = 0;
            while n < PACKET_COUNT
                invariant
                    n <= PACKET_COUNT,
                    led_map@.len() >= LED_COUNT,
                    steps@ == opening + packet_steps(led_map@.len()).take(n as int),
                decreases PACKET_COUNT - n,
            {
                steps.push(DeviceStep::WritePacket(n));
                n += 1;
                assert(steps@ =~= opening + packet_steps(led_map@.len()).take(n as int));
            }
            packets
        },
        Err(_) => {
            steps.push(DeviceStep::RejectShortMap(led_map.len()));
            Vec::new()
        },
    };
    assert(steps@ =~= frame_steps(led_map@.len(), initialize));
    FramePlan { steps, packets }
}

/// Judges a packet write by the number of bytes written.
pub fn check_written(packet: usize, written: usize) -> (r: Result<(), DeviceError>)
    requires
        packet < usize::MAX,
    ensures
        match r {
            Ok(_) => written == PACKET_LEN,
            Err(DeviceError::ShortWrite { packet: p, written: w }) => p == packet + 1 && w
                == written && written != PACKET_LEN,
            Err(_) => false,
        },
{
    if written != PACKET_LEN {
        return Err(DeviceError::ShortWrite { packet: packet + 1, written });
    }
    Ok(())
}

impl DeviceStep {
    /// What is said of the step when the device fails it.
    pub open spec fn failure_text(self) -> Seq<char> {
        match self {
            DeviceStep::Open(interface) => "failed to open "@ + interface.spec_label()
                + " HID device (permissions?)"@,
            DeviceStep::SendReport(InitReport::Report0d) => "failed to send init report 0x0d"@,
            DeviceStep::SendReport(InitReport::Report0e) => "failed to send init report 0x0e"@,
            DeviceStep::SendReport(InitReport::Report11) => "failed to send init report 0x11"@,
            DeviceStep::WritePacket(n) => "failed writing packet "@ + text::decimal(
                (n + 1) as nat,
            ),
            DeviceStep::Wait => ""@,
            DeviceStep::RejectShortMap(len) => DeviceError::ShortMap(len).text(),
        }
    }

    /// What is said of the step when the device fails it.
    pub fn failure(self) -> (r: String)
        requires
            self matches DeviceStep::WritePacket(n) ==> n < usize::MAX,
        ensures
            r@ == self.failure_text(),
    {
        match self {
            DeviceStep::Open(interface) => {
                let mut out: String = "failed to open ".to_owned();
                out.append(interface.label());
                out.append(" HID device (permissions?)");
                out
            },
            DeviceStep::SendReport(report) => match report {
                InitReport::Report0d => "failed to send init report 0x0d".to_owned(),
                InitReport::Report0e => "failed to send init report 0x0e".to_owned(),
                InitReport::Report11 => "failed to send init report 0x11".to_owned(),
            },
            DeviceStep::WritePacket(n) => {
                let mut out: String = "failed writing packet ".to_owned();
                text::push_decimal(&mut out, n + 1);
                out
            },
            DeviceStep::Wait => "".to_owned(),
            DeviceStep::RejectShortMap(len) => DeviceError::ShortMap(len).message(),
        }
    }
}

/// What identifies an interface of a connected device.
#[derive(Debug, Clone, Copy, PartialEq, Eq, Structural)]
pub struct HidInterface {
    pub vendor_id: u16,
    pub product_id: u16,
    pub interface_number: i32,
}

/// Whether a device is this interface of the keyboard.
pub open spec fn is_interface(device: HidInterface, interface: Interface) -> bool {
    device == (HidInterface {
        vendor_id: VID,
        product_id: PID,
        interface_number: interface.spec_number(),
    })
}

/// The position of the first device that is this interface of the keyboard.
pub fn find_interface(devices: &[HidInterface], interface: Interface) -> (r: Result<
    usize,
    DeviceError,
>)
    ensures
        match r {
            Ok(i) => {
                &&& i < devices@.len()
                &&& is_interface(devices@[i as int], interface)
                &&& forall|j: int| 0 <= j < i ==> !is_interface(#[trigger] devices@[j], interface)
            },
            Err(DeviceError::NotFound(which)) => which == interface && forall|j: int|
                0 <= j < devices@.len() ==> !is_interface(#[trigger] devices@[j], interface),
            Err(_) => false,
        },
{
    let mut i: usize = 0;
    while i < devices.len()
        invariant
            i <= devices@.len(),
            forall|j: int| 0 <= j < i ==> !is_interface(#[trigger] devices@[j], interface),
        decreases devices@.len() - i,
    {
        let d: HidInterface = devices[i];
        if d.vendor_id == VID && d.product_id == PID && d.interface_number == interface.number() {
            return Ok(i);
        }
        i += 1;
    }
    Err(DeviceError::NotFound(interface))
}

/// Each channel of one of the first 96 LEDs, and so of every key with a name, is found in the
/// packets, at a place of its own.
pub proof fn law_packets_show_the_keys(leds: Seq<Rgb>, led: int, c: int)
    requires
        leds.len() >= LED_COUNT,
        0 <= led < 96,
        0 <= c < 3,
    ensures
        ({
            let k = frame_position(led, c);
            &&& 0 <= k < PACKET_COUNT * CHUNK_LEN
            &&& packet(leds, k / CHUNK_LEN as int)[4 + k % CHUNK_LEN as int] == channel(
                leds[led],
                c,
            )
        }),
{
    let k = frame_position(led, c);
    lemma_shown_at(k, led);
    let n = k / CHUNK_LEN as int;
    let j = k % CHUNK_LEN as int;
    assert(n * CHUNK_LEN + j == k);
    assert(packet(leds, n)[4 + j] == frame_byte(leds, k));
}

/// No two channels share a place in the frame.
pub proof fn law_channels_do_not_overlap(led1: int, c1: int, led2: int, c2: int)
    requires
        0 <= led1,
        0 <= led2,
        0 <= c1 < 3,
        0 <= c2 < 3,
        frame_position(led1, c1) == frame_position(led2, c2),
    ensures
        led1 == led2,
        c1 == c2,
{
    let k = frame_position(led1, c1);
    lemma_shown_at(k, led1);
    lemma_shown_at(k, led2);
}

/// If two LED maps have the same packets, then every key with a name has the same colour in both.
pub proof fn law_packets_tell_the_keys_apart(a: Seq<Rgb>, b: Seq<Rgb>, name: Seq<char>)
    requires
        a.len() >= LED_COUNT,
        b.len() >= LED_COUNT,
        forall|n: int| 0 <= n < PACKET_COUNT ==> #[trigger] packet(a, n) == packet(b, n),
        keys::named_led(name) is Some,
    ensures
        a[keys::named_led(name)->0 as int] == b[keys::named_led(name)->0 as int],
{
    let led = keys::named_led(name)->0 as int;
    keys::lemma_named_led_in_range(name);
    assert forall|c: int| 0 <= c < 3 implies channel(a[led], c) == channel(b[led], c) by {
        law_packets_show_the_keys(a, led, c);
        law_packets_show_the_keys(b, led, c);
        let n = frame_position(led, c) / CHUNK_LEN as int;
        assert(packet(a, n) == packet(b, n));
    }
    assert(channel(a[led], 0) == channel(b[led], 0));
    assert(channel(a[led], 1) == channel(b[led], 1));
    assert(channel(a[led], 2) == channel(b[led], 2));
}

/// The init sequence is sent before the first packet if it is asked for, and else not at all.
pub proof fn law_init_sequence_goes_first(len: nat, initialize: bool)
    ensures
        forall|i: int, j: int|
            #![trigger frame_steps(len, initialize)[i], frame_steps(len, initialize)[j]]
            0 <= i < frame_steps(len, initialize).len() && 0 <= j < frame_steps(
                len,
                initialize,
            ).len() && frame_steps(len, initialize)[i] is SendReport && frame_steps(
                len,
                initialize,
            )[j] is WritePacket ==> i < j,
        initialize ==> frame_steps(len, initialize).subrange(1, 8) == init_steps(),
        !initialize ==> forall|i: int|
            0 <= i < frame_steps(len, initialize).len() ==> !(#[trigger] frame_steps(
                len,
                initialize,
            )[i] is SendReport),
{
    let steps = frame_steps(len, initialize);
    if initialize {
        assert(steps.subrange(1, 8) =~= init_steps());
    }
}

/// Whatever the map and with or without the init sequence, the steps end with the packets of the
/// whole frame, each once and in order, and no packet is written before them. A map that is too
/// short is refused instead, and none is written.
pub proof fn law_every_packet_is_sent_once(len: nat, initialize: bool)
    requires
        len <= usize::MAX,
    ensures
        ({
            let steps = frame_steps(len, initialize);
            let first = steps.len() - PACKET_COUNT;
            &&& steps[0] == DeviceStep::Open(Interface::Led)
            &&& len >= LED_COUNT ==> {
                &&& first >= 1
                &&& forall|i: int|
                    first <= i < steps.len() ==> #[trigger] steps[i] == DeviceStep::WritePacket(
                        (i - first) as usize,
                    )
                &&& forall|i: int| 0 <= i < first ==> !(#[trigger] steps[i] is WritePacket)
                &&& forall|i: int| 0 <= i < steps.len() ==> !(#[trigger] steps[i] is RejectShortMap)
            }
            &&& len < LED_COUNT ==> {
                &&& steps.last() == DeviceStep::RejectShortMap(len as usize)
                &&& forall|i: int| 0 <= i < steps.len() ==> !(#[trigger] steps[i] is WritePacket)
            }
        }),
{
}

/// With the init sequence, the control interface is opened and given the three reports in order,
/// with a pause of ten milliseconds after each; that is all that the init sequence adds.
pub proof fn law_init_sequence_is_added_whole(len: nat)
    ensures
        ({
            let with = frame_steps(len, true);
            let without = frame_steps(len, false);
            &&& with.len() == without.len() + 7
            &&& with[1] == DeviceStep::Open(Interface::Ctrl)
            &&& with[2] == DeviceStep::SendReport(InitReport::Report0d)
            &&& with[4] == DeviceStep::SendReport(InitReport::Report0e)
            &&& with[6] == DeviceStep::SendReport(InitReport::Report11)
            &&& with[3] == DeviceStep::Wait && with[5] == DeviceStep::Wait && with[7]
                == DeviceStep::Wait
            &&& with.skip(8) == without.skip(1)
            &&& with[0] == without[0]
            &&& forall|i: int|
                0 <= i < without.len() ==> !(#[trigger] without[i] is Wait) && without[i]
                    != DeviceStep::Open(Interface::Ctrl)
        }),
        WAIT_MS == 10,
{
    assert(frame_steps(len, true).skip(8) =~= frame_steps(len, false).skip(1));
}

/// A packet is 64 bytes. It begins with `a1` and its number, counted from one; the first one goes
/// on with `34 01`, the others with zeros.
pub proof fn law_packets_are_numbered(leds: Seq<Rgb>, n: int)
    requires
        0 <= n < 5,
    ensures
        packet(leds, n).len() == 64,
        packet(leds, n)[0] == 0xa1,
        packet(leds, n)[1] == n + 1,
        n == 0 ==> packet(leds, n)[2] == 0x34 && packet(leds, n)[3] == 0x01,
        n > 0 ==> packet(leds, n)[2] == 0 && packet(leds, n)[3] == 0,
{
}

proof fn lemma_packet_byte(leds: Seq<Rgb>, led: int, c: int)
    requires
        0 <= led < LED_COUNT,
        0 <= c < 3,
        frame_position(led, c) < 300,
    ensures
        packet(leds, frame_position(led, c) / 60)[4 + frame_position(led, c) % 60] == channel(
            leds[led],
            c,
        ),
{
    let k = frame_position(led, c);
    lemma_shown_at(k, led);
    assert((k / 60) * 60 + k % 60 == k);
    assert(packet(leds, k / 60)[4 + k % 60] == frame_byte(leds, k));
}

/// The packets carry, behind their headers, the bytes of the frame in order: for each twelve LEDs
/// their red bytes, their green ones and their blue ones.
pub proof fn law_packets_carry_the_channels(leds: Seq<Rgb>, led: int)
    requires
        leds.len() >= LED_COUNT,
        0 <= led < LED_COUNT,
    ensures
        ({
            let red = led / 12 * 36 + led % 12;
            let green = red + 12;
            let blue = red + 24;
            &&& red < 300 ==> packet(leds, red / 60)[4 + red % 60] == leds[led].r
            &&& green < 300 ==> packet(leds, green / 60)[4 + green % 60] == leds[led].g
            &&& blue < 300 ==> packet(leds, blue / 60)[4 + blue % 60] == leds[led].b
        }),
{
    if frame_position(led, 0) < 300 {
        lemma_packet_byte(leds, led, 0);
    }
    if frame_position(led, 1) < 300 {
        lemma_packet_byte(leds, led, 1);
    }
    if frame_position(led, 2) < 300 {
        lemma_packet_byte(leds, led, 2);
    }
}

/// Maps that agree on the LEDs of the keyboard have the same packets, however long they are.
pub proof fn law_packets_depend_on_the_leds_alone(a: Seq<Rgb>, b: Seq<Rgb>, n: int)
    requires
        a.len() >= LED_COUNT,
        b.len() >= LED_COUNT,
        a.take(LED_COUNT as int) == b.take(LED_COUNT as int),
        0 <= n,
    ensures
        packet(a, n) == packet(b, n),
{
    assert forall|k: int| 0 <= k implies #[trigger] frame_byte(a, k) == frame_byte(b, k) by {
        lemma_shown_at(k, 0);
        let led = shown_at(k).0;
        if led < LED_COUNT {
            assert(a[led] == a.take(LED_COUNT as int)[led]);
            assert(b[led] == b.take(LED_COUNT as int)[led]);
        }
    }
    assert(packet(a, n) =~= packet(b, n));
}

/// A report begins with its number and its length.
pub proof fn law_reports_begin_with_their_number()
    ensures
        InitReport::Report0d.spec_bytes().len() == 16,
        InitReport::Report0d.spec_bytes()[0] == 0x0d,
        InitReport::Report0d.spec_bytes()[1] == 16,
        InitReport::Report0e.spec_bytes().len() == 5,
        InitReport::Report0e.spec_bytes()[0] == 0x0e,
        InitReport::Report0e.spec_bytes()[1] == 5,
        InitReport::Report11.spec_bytes().len() == 299,
        InitReport::Report11.spec_bytes()[0] == 0x11,
        InitReport::Report11.spec_bytes()[1] + 0x100 * InitReport::Report11.spec_bytes()[2] == 299,
{
}

/// A connected device is an interface of the keyboard if and only if its vendor, its product and
/// the number of the interface are: the control interface is number 1, the LED interface number 3.
pub proof fn law_interfaces_are_told_by_their_numbers(device: HidInterface)
    ensures
        is_interface(device, Interface::Ctrl) == (device.vendor_id == 0x1e7d && device.product_id
            == 0x311a && device.interface_number == 1),
        is_interface(device, Interface::Led) == (device.vendor_id == 0x1e7d && device.product_id
            == 0x311a && device.interface_number == 3),
        !(is_interface(device, Interface::Ctrl) && is_interface(device, Interface::Led)),
{
}

/// The messages about the device name what they are about: the interface that is missing, the
/// length of the map, the packet and how much of it was written.
pub proof fn law_device_messages(interface: Interface, a: usize, b: usize)
    ensures
        Interface::Ctrl.spec_label() == "CTRL"@,
        Interface::Led.spec_label() == "LED"@,
        DeviceError::NotFound(interface).text() == "could not find Vulkan Pro TKL "@
            + interface.spec_label() + " interface (vid="@ + text::hex4(0x1e7d) + " pid="@
            + text::hex4(0x311a) + " interface="@ + text::decimal(
            if interface == Interface::Ctrl {
                1
            } else {
                3
            },
        ) + ")"@,
        DeviceError::ShortMap(a).text() == "short LED map: got "@ + text::decimal(a as nat)
            + ", expected "@ + text::decimal(127),
        (DeviceError::ShortWrite { packet: a, written: b }).text() == "short HID write on packet "@
            + text::decimal(a as nat) + ": "@ + text::decimal(b as nat) + " bytes"@,
{
}

/// What is said of a failed step names the interface, the report or the packet, counted from one.
pub proof fn law_failed_steps_are_named(interface: Interface, n: usize)
    requires
        n < usize::MAX,
    ensures
        DeviceStep::Open(interface).failure_text() == "failed to open "@ + interface.spec_label()
            + " HID device (permissions?)"@,
        DeviceStep::SendReport(InitReport::Report0d).failure_text()
            == "failed to send init report 0x0d"@,
        DeviceStep::SendReport(InitReport::Report0e).failure_text()
            == "failed to send init report 0x0e"@,
        DeviceStep::SendReport(InitReport::Report11).failure_text()
            == "failed to send init report 0x11"@,
        DeviceStep::WritePacket(n).failure_text() == "failed writing packet "@ + text::decimal(
            n as nat + 1,
        ),
        DeviceStep::RejectShortMap(n).failure_text() == DeviceError::ShortMap(n).text(),
        DeviceStep::Wait.failure_text() == ""@,
{
}

/// The first two reports hold these bytes behind their number and length, and else zeros.
pub proof fn law_short_reports_hold_their_bytes(i: int)
    ensures
        InitReport::Report0d.spec_bytes()[4] == 0x02,
        InitReport::Report0d.spec_bytes()[5] == 0x0f,
        InitReport::Report0d.spec_bytes()[6] == 0x45,
        InitReport::Report0e.spec_bytes()[2] == 0x01,
        2 <= i < 16 && i != 4 && i != 5 && i != 6 ==> InitReport::Report0d.spec_bytes()[i] == 0,
        3 <= i < 5 ==> InitReport::Report0e.spec_bytes()[i] == 0,
{
}

/// The third report holds, behind nine bytes and in blocks as in a frame, the red, green and blue
/// bytes of twelve LEDs each; no LED has any blue. It ends with a checksum.
pub proof fn law_third_report_holds_colors(i: int)
    ensures
        ({
            let r = InitReport::Report11.spec_bytes();
            &&& r.take(9) == seq![0x11u8, 0x2b, 0x01, 0x00, 0x09, 0x06, 0x45, 0x80, 0x00]
            &&& r.subrange(9, 21) == seq![
                0xffu8, 0xff, 0xff, 0xff, 0xff, 0xff, 0xff, 0xff, 0xff, 0xff, 0xff, 0xff,
            ]
            &&& r.subrange(21, 33) == seq![
                0x0au8, 0x0a, 0x0a, 0x0a, 0x0a, 0x0a, 0x11, 0x11, 0x11, 0x11, 0x17, 0x17,
            ]
            &&& r.subrange(45, 57) == seq![
                0xffu8, 0xff, 0xff, 0xff, 0xff, 0xff, 0xff, 0xff, 0xff, 0xff, 0xff, 0xff,
            ]
            &&& r.subrange(57, 69) == seq![
                0x17u8, 0x17, 0x17, 0x17, 0x1e, 0x1e, 0x1e, 0x1e, 0x1e, 0x1e, 0x1e, 0x25,
            ]
            &&& r.subrange(81, 93) == seq![
                0xffu8, 0xff, 0xff, 0xff, 0xff, 0xff, 0xff, 0xff, 0xff, 0xff, 0xff, 0xff,
            ]
            &&& r.subrange(93, 105) == seq![
                0x25u8, 0x25, 0x25, 0x25, 0x2b, 0x2b, 0x2b, 0x2b, 0x32, 0x32, 0x39, 0x39,
            ]
            &&& r.subrange(117, 129) == seq![
                0xffu8, 0xff, 0xff, 0xff, 0xff, 0xff, 0xff, 0xff, 0xff, 0xff, 0xff, 0xff,
            ]
            &&& r.subrange(129, 141) == seq![
                0x32u8, 0x39, 0x39, 0x3f, 0x39, 0x39, 0x3f, 0x3f, 0x46, 0x46, 0x46, 0x3f,
            ]
            &&& r.subrange(153, 165) == seq![
                0xffu8, 0xff, 0xff, 0xff, 0xff, 0xff, 0xff, 0xff, 0xff, 0xfe, 0xfe, 0xff,
            ]
            &&& r.subrange(165, 177) == seq![
                0x3fu8, 0x46, 0x46, 0x4d, 0x4d, 0x46, 0x46, 0x4d, 0x4d, 0x53, 0x53, 0x4d,
            ]
            &&& r.subrange(189, 201) == seq![
                0xfeu8, 0xfe, 0xfc, 0xfc, 0xfc, 0xfc, 0xfc, 0xfc, 0xfa, 0xfa, 0xfa, 0xfa,
            ]
            &&& r.subrange(201, 213) == seq![
                0x53u8, 0x53, 0x57, 0x57, 0x57, 0x57, 0x57, 0x57, 0x5c, 0x5c, 0x5c, 0x5c,
            ]
            &&& r.subrange(225, 237) == seq![
                0xfau8, 0xfa, 0xf8, 0xf6, 0xf6, 0xf8, 0xf8, 0xf6, 0xf6, 0xf6, 0xf6, 0x00,
            ]
            &&& r.subrange(237, 249) == seq![
                0x5cu8, 0x5c, 0x62, 0x66, 0x66, 0x62, 0x62, 0x66, 0x66, 0x66, 0x66, 0x00,
            ]
            &&& r.subrange(261, 273) == seq![
                0xf4u8, 0xf4, 0xf4, 0x00, 0xf1, 0xf1, 0xf1, 0xf1, 0xf4, 0xef, 0xef, 0xef,
            ]
            &&& r.subrange(273, 285) == seq![
                0x6bu8, 0x6b, 0x6b, 0x00, 0x71, 0x71, 0x71, 0x71, 0x6b, 0x75, 0x75, 0x75,
            ]
            &&& 9 <= i < 297 && (i - 9) % 36 >= 24 ==> r[i] == 0
            &&& r[297] == 0x4a
            &&& r[298] == 0x75
        }),
{
    let r = InitReport::Report11.spec_bytes();
    assert(r.take(9) =~= seq![0x11u8, 0x2b, 0x01, 0x00, 0x09, 0x06, 0x45, 0x80, 0x00]);
    assert(r.subrange(9, 21) =~= seq![
        0xffu8, 0xff, 0xff, 0xff, 0xff, 0xff, 0xff, 0xff, 0xff, 0xff, 0xff, 0xff,
    ]);
    assert(r.subrange(21, 33) =~= seq![
        0x0au8, 0x0a, 0x0a, 0x0a, 0x0a, 0x0a, 0x11, 0x11, 0x11, 0x11, 0x17, 0x17,
    ]);
    assert(r.subrange(45, 57) =~= seq![
        0xffu8, 0xff, 0xff, 0xff, 0xff, 0xff, 0xff, 0xff, 0xff, 0xff, 0xff, 0xff,
    ]);
    assert(r.subrange(57, 69) =~= seq![
        0x17u8, 0x17, 0x17, 0x17, 0x1e, 0x1e, 0x1e, 0x1e, 0x1e, 0x1e, 0x1e, 0x25,
    ]);
    assert(r.subrange(81, 93) =~= seq![
        0xffu8, 0xff, 0xff, 0xff, 0xff, 0xff, 0xff, 0xff, 0xff, 0xff, 0xff, 0xff,
    ]);
    assert(r.subrange(93, 105) =~= seq![
        0x25u8, 0x25, 0x25, 0x25, 0x2b, 0x2b, 0x2b, 0x2b, 0x32, 0x32, 0x39, 0x39,
    ]);
    assert(r.subrange(117, 129) =~= seq![
        0xffu8, 0xff, 0xff, 0xff, 0xff, 0xff, 0xff, 0xff, 0xff, 0xff, 0xff, 0xff,
    ]);
    assert(r.subrange(129, 141) =~= seq![
        0x32u8, 0x39, 0x39, 0x3f, 0x39, 0x39, 0x3f, 0x3f, 0x46, 0x46, 0x46, 0x3f,
    ]);
    assert(r.subrange(153, 165) =~= seq![
        0xffu8, 0xff, 0xff, 0xff, 0xff, 0xff, 0xff, 0xff, 0xff, 0xfe, 0xfe, 0xff,
    ]);
    assert(r.subrange(165, 177) =~= seq![
        0x3fu8, 0x46, 0x46, 0x4d, 0x4d, 0x46, 0x46, 0x4d, 0x4d, 0x53, 0x53, 0x4d,
    ]);
    assert(r.subrange(189, 201) =~= seq![
        0xfeu8, 0xfe, 0xfc, 0xfc, 0xfc, 0xfc, 0xfc, 0xfc, 0xfa, 0xfa, 0xfa, 0xfa,
    ]);
    assert(r.subrange(201, 213) =~= seq![
        0x53u8, 0x53, 0x57, 0x57, 0x57, 0x57, 0x57, 0x57, 0x5c, 0x5c, 0x5c, 0x5c,
    ]);
    assert(r.subrange(225, 237) =~= seq![
        0xfau8, 0xfa, 0xf8, 0xf6, 0xf6, 0xf8, 0xf8, 0xf6, 0xf6, 0xf6, 0xf6, 0x00,
    ]);
    assert(r.subrange(237, 249) =~= seq![
        0x5cu8, 0x5c, 0x62, 0x66, 0x66, 0x62, 0x62, 0x66, 0x66, 0x66, 0x66, 0x00,
    ]);
    assert(r.subrange(261, 273) =~= seq![
        0xf4u8, 0xf4, 0xf4, 0x00, 0xf1, 0xf1, 0xf1, 0xf1, 0xf4, 0xef, 0xef, 0xef,
    ]);
    assert(r.subrange(273, 285) =~= seq![
        0x6bu8, 0x6b, 0x6b, 0x00, 0x71, 0x71, 0x71, 0x71, 0x6b, 0x75, 0x75, 0x75,
    ]);
}

} // verus!
