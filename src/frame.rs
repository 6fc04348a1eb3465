use vstd::prelude::*;
use vstd::arithmetic::div_mod::lemma_add_mod_noop;

verus! {

/// First byte of every frame on the radio link.
pub const START_DELIMITER: u8 = 0x7E;

/// Largest frame body the 16-bit length field can count.
pub const MAX_BODY_LEN: usize = 0xFFFF;

/// Sum of the bytes of `s`.
pub open spec fn byte_sum(s: Seq<u8>) -> nat
    decreases s.len(),
{
    if s.len() == 0 {
        0
    } else {
        byte_sum(s.drop_last()) + s.last() as nat
    }
}

/// Frame checksum: `0xFF` minus the low byte of the sum of the body.
pub open spec fn checksum_of(body: Seq<u8>) -> u8 {
    (0xFF - byte_sum(body) % 256) as u8
}

/// The wire form of a frame whose body (type byte through payload) is `body`.
pub open spec fn frame_bytes(body: Seq<u8>) -> Seq<u8> {
    seq![START_DELIMITER, (body.len() / 256) as u8, (body.len() % 256) as u8] + body + seq![
        checksum_of(body),
    ]
}

/// The body of a well-framed buffer: start delimiter, a length field that
/// counts the body, and a checksum that matches it.
pub open spec fn frame_body(b: Seq<u8>) -> Option<Seq<u8>> {
    if b.len() >= 5 && b[0] == START_DELIMITER && b[1] as int * 256 + b[2] as int == b.len() - 4
        && (byte_sum(b.subrange(3, b.len() - 1)) + b.last() as nat) % 256 == 0xFF {
        Some(b.subrange(3, b.len() - 1))
    } else {
        None
    }
}

/// Big-endian bytes of a 16-bit value.
pub open spec fn be16(x: u16) -> Seq<u8> {
    seq![(x >> 8) as u8, x as u8]
}

/// Big-endian bytes of a 64-bit value.
pub open spec fn be64(x: u64) -> Seq<u8> {
    seq![
        (x >> 56) as u8,
        (x >> 48) as u8,
        (x >> 40) as u8,
        (x >> 32) as u8,
        (x >> 24) as u8,
        (x >> 16) as u8,
        (x >> 8) as u8,
        x as u8,
    ]
}

/// The 16-bit value of two big-endian bytes at `i`.
pub open spec fn read_be16(s: Seq<u8>, i: int) -> u16 {
    ((s[i] as u16) << 8u16) | (s[i + 1] as u16)
}

/// The 64-bit value of eight big-endian bytes at `i`.
pub open spec fn read_be64(s: Seq<u8>, i: int) -> u64 {
    ((s[i] as u64) << 56u64) | ((s[i + 1] as u64) << 48u64) | ((s[i + 2] as u64) << 40u64) | ((
    s[i + 3] as u64) << 32u64) | ((s[i + 4] as u64) << 24u64) | ((s[i + 5] as u64) << 16u64) | ((
    s[i + 6] as u64) << 8u64) | (s[i + 7] as u64)
}

pub proof fn lemma_be16_round_trip(x: u16, s: Seq<u8>, i: int)
    requires
        0 <= i,
        i + 2 <= s.len(),
        s.subrange(i, i + 2) == be16(x),
    ensures
        read_be16(s, i) == x,
{
    assert(s[i] == be16(x)[0] && s[i + 1] == be16(x)[1]);
    let a = s[i];
    let b = s[i + 1];
    assert(a == (x >> 8) as u8 && b == x as u8 ==> ((a as u16) << 8u16) | (b as u16) == x)
        by (bit_vector);
}

pub proof fn lemma_be64_round_trip(x: u64, s: Seq<u8>, i: int)
    requires
        0 <= i,
        i + 8 <= s.len(),
        s.subrange(i, i + 8) == be64(x),
    ensures
        read_be64(s, i) == x,
{
    let e = be64(x);
    assert(s[i] == e[0] && s[i + 1] == e[1] && s[i + 2] == e[2] && s[i + 3] == e[3]);
    assert(s[i + 4] == e[4] && s[i + 5] == e[5] && s[i + 6] == e[6] && s[i + 7] == e[7]);
    let (b0, b1, b2, b3, b4, b5, b6, b7) = (
        s[i],
        s[i + 1],
        s[i + 2],
        s[i + 3],
        s[i + 4],
        s[i + 5],
        s[i + 6],
        s[i + 7],
    );
    assert(b0 == (x >> 56) as u8 && b1 == (x >> 48) as u8 && b2 == (x >> 40) as u8 && b3 == (x
        >> 32) as u8 && b4 == (x >> 24) as u8 && b5 == (x >> 16) as u8 && b6 == (x >> 8) as u8
        && b7 == x as u8 ==> ((b0 as u64) << 56u64) | ((b1 as u64) << 48u64) | ((b2 as u64)
        << 40u64) | ((b3 as u64) << 32u64) | ((b4 as u64) << 24u64) | ((b5 as u64) << 16u64)
        | ((b6 as u64) << 8u64) | (b7 as u64) == x) by (bit_vector);
}

proof fn lemma_byte_sum_push(s: Seq<u8>, c: u8)
    ensures
        byte_sum(s.push(c)) == byte_sum(s) + c as nat,
{
    assert(s.push(c).drop_last() =~= s);
}

/// Appends `bytes` to `out`.
fn push_all(out: &mut Vec<u8>, bytes: &[u8])
    ensures
        final(out)@ == old(out)@ + bytes@,
{
    let mut i: usize = 0;
    while i < bytes.len()
        invariant
            i <= bytes@.len(),
            out@ == old(out)@ + bytes@.subrange(0, i as int),
        decreases bytes@.len() - i,
    {
        out.push(bytes[i]);
        i = i + 1;
        assert(out@ =~= old(out)@ + bytes@.subrange(0, i as int));
    }
    assert(bytes@.subrange(0, i as int) =~= bytes@);
}

/// Appends the big-endian bytes of `x` to `out`.
fn push_be16(out: &mut Vec<u8>, x: u16)
    ensures
        final(out)@ == old(out)@ + be16(x),
{
    out.push((x >> 8) as u8);
    out.push(x as u8);
    assert(out@ =~= old(out)@ + be16(x));
}

/// Appends the big-endian bytes of `x` to `out`.
fn push_be64(out: &mut Vec<u8>, x: u64)
    ensures
        final(out)@ == old(out)@ + be64(x),
{
    out.push((x >> 56) as u8);
    out.push((x >> 48) as u8);
    out.push((x >> 40) as u8);
    out.push((x >> 32) as u8);
    out.push((x >> 24) as u8);
    out.push((x >> 16) as u8);
    out.push((x >> 8) as u8);
    out.push(x as u8);
    assert(out@ =~= old(out)@ + be64(x));
}

/// Reads a big-endian 16-bit value at `i`.
fn get_be16(b: &[u8], i: usize) -> (r: u16)
    requires
        i + 2 <= b@.len(),
    ensures
        r == read_be16(b@, i as int),
{
    ((b[i] as u16) << 8u16) | (b[i + 1] as u16)
}

/// Reads a big-endian 64-bit value at `i`.
fn get_be64(b: &[u8], i: usize) -> (r: u64)
    requires
        i + 8 <= b@.len(),
    ensures
        r == read_be64(b@, i as int),
{
    ((b[i] as u64) << 56u64) | ((b[i + 1] as u64) << 48u64) | ((b[i + 2] as u64) << 40u64) | ((
    b[i + 3] as u64) << 32u64) | ((b[i + 4] as u64) << 24u64) | ((b[i + 5] as u64) << 16u64) | ((
    b[i + 6] as u64) << 8u64) | (b[i + 7] as u64)
}

/// A copy of `b[start..end]`.
fn copy_range(b: &[u8], start: usize, end: usize) -> (r: Vec<u8>)
    requires
        start <= end <= b@.len(),
    ensures
        r@ == b@.subrange(start as int, end as int),
{
    let mut r: Vec<u8> = Vec::new();
    push_all(&mut r, &b[start..end]);
    r
}

/// The low byte of the sum of `b[start..end]`.
fn sum_low_byte(b: &[u8], start: usize, end: usize) -> (r: u8)
    requires
        start <= end <= b@.len(),
    ensures
        r as nat == byte_sum(b@.subrange(start as int, end as int)) % 256,
{
    let mut acc: u32 = 0;
    let mut i: usize = start;
    assert(b@.subrange(start as int, start as int) =~= Seq::<u8>::empty());
    while i < end
        invariant
            start <= i <= end <= b@.len(),
            acc < 256,
            acc as nat == byte_sum(b@.subrange(start as int, i as int)) % 256,
        decreases end - i,
    {
        proof {
            let p = b@.subrange(start as int, i as int);
            lemma_byte_sum_push(p, b@[i as int]);
            assert(p.push(b@[i as int]) =~= b@.subrange(start as int, i + 1));
            lemma_add_mod_noop(byte_sum(p) as int, b@[i as int] as int, 256);
            assert((b@[i as int] as int) % 256 == b@[i as int] as int);
        }
        acc = (acc + b[i] as u32) % 256;
        i = i + 1;
    }
    acc as u8
}

/// The payload of one kind of frame, seen through its view.
pub trait FrameData: Sized + View {
    spec fn spec_frame_type() -> u8;

    spec fn spec_has_frame_id() -> bool;

    /// The payload bytes of a value with view `v`.
    spec fn spec_payload(v: Self::V) -> Seq<u8>;

    /// The value that a payload holds, if it holds one.
    spec fn spec_read(payload: Seq<u8>) -> Option<Self::V>;

    /// The frame-type byte of this kind of frame.
    fn frame_type() -> (r: u8)
        ensures
            r == Self::spec_frame_type(),
    ;

    /// Whether a frame-ID byte follows the frame-type byte.
    fn has_frame_id() -> (r: bool)
        ensures
            r == Self::spec_has_frame_id(),
    ;

    /// Appends the payload to `out`.
    fn write(&self, out: &mut Vec<u8>)
        ensures
            final(out)@ == old(out)@ + Self::spec_payload(self@),
    ;

    /// Parses a payload; `None` when it is too short or holds a value out of range.
    fn read(payload: &[u8]) -> (r: Option<Self>)
        ensures
            match r {
                Some(d) => Self::spec_read(payload@) == Some(d@),
                None => Self::spec_read(payload@) is None,
            },
    ;
}

/// A frame: its optional frame ID and its payload.
pub struct Frame<T: FrameData> {
    pub id: Option<u8>,
    pub data: T,
}

impl<T: FrameData> View for Frame<T> {
    type V = (Option<u8>, T::V);

    open spec fn view(&self) -> (Option<u8>, T::V) {
        (self.id, self.data@)
    }
}

/// The frame-ID byte written for `id`; no ID is written as zero.
pub open spec fn id_byte(id: Option<u8>) -> u8 {
    match id {
        Some(b) => b,
        None => 0,
    }
}

/// The body of a frame of kind `T`: type byte, frame ID where the kind has
/// one, payload.
pub open spec fn body_of<T: FrameData>(id: Option<u8>, data: T::V) -> Seq<u8> {
    seq![T::spec_frame_type()] + (if T::spec_has_frame_id() {
        seq![id_byte(id)]
    } else {
        Seq::empty()
    }) + T::spec_payload(data)
}

/// The frame of kind `T` that `b` holds, if it holds one.
pub open spec fn read_frame<T: FrameData>(b: Seq<u8>) -> Option<(Option<u8>, T::V)> {
    match frame_body(b) {
        None => None,
        Some(body) => {
            let skip: int = if T::spec_has_frame_id() {
                2
            } else {
                1
            };
            if body[0] != T::spec_frame_type() || body.len() < skip {
                None
            } else {
                match T::spec_read(body.subrange(skip, body.len() as int)) {
                    None => None,
                    Some(data) => Some(
                        (
                            if T::spec_has_frame_id() {
                                Some(body[1])
                            } else {
                                None
                            },
                            data,
                        ),
                    ),
                }
            }
        },
    }
}

impl<T: FrameData> Frame<T> {
    /// The frame body: type byte, frame ID where the kind has one, payload.
    pub open spec fn body(self) -> Seq<u8> {
        body_of::<T>(self.id, self.data@)
    }

    /// Encodes the frame: delimiter, 16-bit length of the body, body, checksum.
    /// `None` when the body is too long for the length field.
    pub fn write(&self) -> (r: Option<Vec<u8>>)
        ensures
            match r {
                Some(v) => self.body().len() <= MAX_BODY_LEN && v@ == frame_bytes(self.body()),
                None => self.body().len() > MAX_BODY_LEN,
            },
    {
        let mut body: Vec<u8> = Vec::new();
        body.push(T::frame_type());
        if T::has_frame_id() {
            let id = match self.id {
                Some(b) => b,
                None => 0,
            };
            body.push(id);
        }
        self.data.write(&mut body);
        assert(body@ =~= self.body());
        let n = body.len();
        if n > MAX_BODY_LEN {
            return None;
        }
        let mut out: Vec<u8> = Vec::new();
        out.push(START_DELIMITER);
        out.push((n / 256) as u8);
        out.push((n % 256) as u8);
        push_all(&mut out, body.as_slice());
        let low = sum_low_byte(body.as_slice(), 0, n);
        assert(body@.subrange(0, n as int) =~= body@);
        out.push(0xFF - low);
        assert(out@ =~= frame_bytes(self.body()));
        Some(out)
    }

    /// Decodes a frame of kind `T`; `None` when the framing, length, checksum
    /// or type byte is wrong, or the payload does not parse.
    pub fn read(b: &[u8]) -> (r: Option<Self>)
        ensures
            match r {
                Some(f) => read_frame::<T>(b@) == Some(f@),
                None => read_frame::<T>(b@) is None,
            },
    {
        let n = b.len();
        if n < 5 || b[0] != START_DELIMITER || (b[1] as usize) * 256 + (b[2] as usize) != n - 4 {
            return None;
        }
        let low = sum_low_byte(b, 3, n - 1);
        proof {
            lemma_add_mod_noop(
                byte_sum(b@.subrange(3, n - 1)) as int,
                b@[n - 1] as int,
                256,
            );
        }
        if (low as u32 + b[n - 1] as u32) % 256 != 0xFF {
            return None;
        }
        let ghost body = b@.subrange(3, n - 1);
        assert(frame_body(b@) == Some(body));
        let skip: usize = if T::has_frame_id() { 2 } else { 1 };
        if b[3] != T::frame_type() || n - 4 < skip {
            return None;
        }
        let payload = &b[3 + skip..n - 1];
        assert(payload@ =~= body.subrange(skip as int, body.len() as int));
        match T::read(payload) {
            None => None,
            Some(data) => {
                let id = if T::has_frame_id() { Some(b[4]) } else { None };
                Some(Frame { id, data })
            },
        }
    }
}

/// Frame type of a local AT command request.
pub const AT_COMMAND_REQUEST: u8 = 0x08;

/// Frame type of a local AT command response.
pub const AT_COMMAND_RESPONSE: u8 = 0x88;

/// Frame type of a modem status report.
pub const MODEM_STATUS: u8 = 0x8A;

/// Frame type of a transmit request.
pub const TRANSMIT_REQUEST: u8 = 0x10;

/// Frame type of an explicit addressing command request.
pub const EXPLICIT_ADDRESSING_REQUEST: u8 = 0x11;

/// Sets or queries one radio parameter.
pub struct LocalATCommandRequest {
    pub command: [u8; 2],
    pub value: Vec<u8>,
}

impl View for LocalATCommandRequest {
    type V = (u8, u8, Seq<u8>);

    open spec fn view(&self) -> (u8, u8, Seq<u8>) {
        (self.command@[0], self.command@[1], self.value@)
    }
}

impl FrameData for LocalATCommandRequest {
    open spec fn spec_frame_type() -> u8 {
        AT_COMMAND_REQUEST
    }

    open spec fn spec_has_frame_id() -> bool {
        true
    }

    open spec fn spec_payload(v: (u8, u8, Seq<u8>)) -> Seq<u8> {
        seq![v.0, v.1] + v.2
    }

    open spec fn spec_read(p: Seq<u8>) -> Option<(u8, u8, Seq<u8>)> {
        if p.len() >= 2 {
            Some((p[0], p[1], p.subrange(2, p.len() as int)))
        } else {
            None
        }
    }

    fn frame_type() -> (r: u8) {
        AT_COMMAND_REQUEST
    }

    fn has_frame_id() -> (r: bool) {
        true
    }

    fn write(&self, out: &mut Vec<u8>) {
        out.push(self.command[0]);
        out.push(self.command[1]);
        push_all(out, self.value.as_slice());
        assert(out@ =~= old(out)@ + Self::spec_payload(self@));
    }

    fn read(payload: &[u8]) -> (r: Option<Self>) {
        if payload.len() < 2 {
            return None;
        }
        let value = copy_range(payload, 2, payload.len());
        Some(LocalATCommandRequest { command: [payload[0], payload[1]], value })
    }
}

/// Outcome of an AT command, as the radio reports it.
#[derive(Clone, Copy, Debug, PartialEq, Eq, Structural)]
pub enum LocalATCommandResponseStatus {
    Success,
    Error,
    InvalidCommand,
    InvalidParameter,
}

/// The wire byte of an AT command status.
pub open spec fn at_status_code(s: LocalATCommandResponseStatus) -> u8 {
    match s {
        LocalATCommandResponseStatus::Success => 0,
        LocalATCommandResponseStatus::Error => 1,
        LocalATCommandResponseStatus::InvalidCommand => 2,
        LocalATCommandResponseStatus::InvalidParameter => 3,
    }
}

/// The AT command status written as `b`, if any.
pub open spec fn at_status_of(b: u8) -> Option<LocalATCommandResponseStatus> {
    if b == 0 {
        Some(LocalATCommandResponseStatus::Success)
    } else if b == 1 {
        Some(LocalATCommandResponseStatus::Error)
    } else if b == 2 {
        Some(LocalATCommandResponseStatus::InvalidCommand)
    } else if b == 3 {
        Some(LocalATCommandResponseStatus::InvalidParameter)
    } else {
        None
    }
}

impl LocalATCommandResponseStatus {
    /// The wire byte of this status.
    pub fn code(self) -> (r: u8)
        ensures
            r == at_status_code(self),
    {
        match self {
            LocalATCommandResponseStatus::Success => 0,
            LocalATCommandResponseStatus::Error => 1,
            LocalATCommandResponseStatus::InvalidCommand => 2,
            LocalATCommandResponseStatus::InvalidParameter => 3,
        }
    }

    /// The status written as `b`; `None` for a byte out of range.
    pub fn from_code(b: u8) -> (r: Option<LocalATCommandResponseStatus>)
        ensures
            r == at_status_of(b),
    {
        match b {
            0 => Some(LocalATCommandResponseStatus::Success),
            1 => Some(LocalATCommandResponseStatus::Error),
            2 => Some(LocalATCommandResponseStatus::InvalidCommand),
            3 => Some(LocalATCommandResponseStatus::InvalidParameter),
            _ => None,
        }
    }
}

/// The radio's answer to an AT command.
pub struct LocalATCommandResponse {
    pub command: [u8; 2],
    pub status: LocalATCommandResponseStatus,
    pub data: Vec<u8>,
}

impl View for LocalATCommandResponse {
    type V = (u8, u8, LocalATCommandResponseStatus, Seq<u8>);

    open spec fn view(&self) -> (u8, u8, LocalATCommandResponseStatus, Seq<u8>) {
        (self.command@[0], self.command@[1], self.status, self.data@)
    }
}

impl FrameData for LocalATCommandResponse {
    open spec fn spec_frame_type() -> u8 {
        AT_COMMAND_RESPONSE
    }

    open spec fn spec_has_frame_id() -> bool {
        true
    }

    open spec fn spec_payload(v: (u8, u8, LocalATCommandResponseStatus, Seq<u8>)) -> Seq<u8> {
        seq![v.0, v.1, at_status_code(v.2)] + v.3
    }

    open spec fn spec_read(p: Seq<u8>) -> Option<(u8, u8, LocalATCommandResponseStatus, Seq<u8>)> {
        if p.len() >= 3 && at_status_of(p[2]) is Some {
            Some((p[0], p[1], at_status_of(p[2])->Some_0, p.subrange(3, p.len() as int)))
        } else {
            None
        }
    }

    fn frame_type() -> (r: u8) {
        AT_COMMAND_RESPONSE
    }

    fn has_frame_id() -> (r: bool) {
        true
    }

    fn write(&self, out: &mut Vec<u8>) {
        out.push(self.command[0]);
        out.push(self.command[1]);
        out.push(self.status.code());
        push_all(out, self.data.as_slice());
        assert(out@ =~= old(out)@ + Self::spec_payload(self@));
    }

    fn read(payload: &[u8]) -> (r: Option<Self>) {
        if payload.len() < 3 {
            return None;
        }
        let status = match LocalATCommandResponseStatus::from_code(payload[2]) {
            Some(s) => s,
            None => return None,
        };
        let data = copy_range(payload, 3, payload.len());
        Some(LocalATCommandResponse { command: [payload[0], payload[1]], status, data })
    }
}

/// A condition the radio reports on its own.
#[derive(Clone, Copy, Debug, PartialEq, Eq, Structural)]
pub enum ModemStatusType {
    PowerUp,
    WatchdogReset,
    JoinedNetwork,
    Disassociated,
    CoordinatorStarted,
    NetworkSecurityKeyUpdated,
    VoltageSupplyLimitExceeded,
    ModemConfigurationChangedWhileJoining,
    SecureSessionEstablished,
    SecureSessionEnded,
    SecureSessionAuthenticationFailed,
    CoordinatorDetectedPanIdConflict,
    CoordinatorChangedPanId,
    BleConnect,
    BleDisconnect,
    NoSecureSessionConnection,
    RouterPanIdChanged,
    NetworkWatchdogTimerExpiredThrice,
    /// A vendor code without a name, kept as it came.
    StackError(u8),
}

/// The wire byte of a modem status.
pub open spec fn modem_status_code(t: ModemStatusType) -> u8 {
    match t {
        ModemStatusType::PowerUp => 0x00,
        ModemStatusType::WatchdogReset => 0x01,
        ModemStatusType::JoinedNetwork => 0x02,
        ModemStatusType::Disassociated => 0x03,
        ModemStatusType::CoordinatorStarted => 0x06,
        ModemStatusType::NetworkSecurityKeyUpdated => 0x07,
        ModemStatusType::VoltageSupplyLimitExceeded => 0x0D,
        ModemStatusType::ModemConfigurationChangedWhileJoining => 0x11,
        ModemStatusType::SecureSessionEstablished => 0x3B,
        ModemStatusType::SecureSessionEnded => 0x3C,
        ModemStatusType::SecureSessionAuthenticationFailed => 0x3D,
        ModemStatusType::CoordinatorDetectedPanIdConflict => 0x3E,
        ModemStatusType::CoordinatorChangedPanId => 0x3F,
        ModemStatusType::BleConnect => 0x32,
        ModemStatusType::BleDisconnect => 0x33,
        ModemStatusType::NoSecureSessionConnection => 0x34,
        ModemStatusType::RouterPanIdChanged => 0x40,
        ModemStatusType::NetworkWatchdogTimerExpiredThrice => 0x42,
        ModemStatusType::StackError(b) => b,
    }
}

/// The modem status written as `b`; a byte without a name is a stack error.
pub open spec fn modem_status_of(b: u8) -> ModemStatusType {
    if b == 0x00 {
        ModemStatusType::PowerUp
    } else if b == 0x01 {
        ModemStatusType::WatchdogReset
    } else if b == 0x02 {
        ModemStatusType::JoinedNetwork
    } else if b == 0x03 {
        ModemStatusType::Disassociated
    } else if b == 0x06 {
        ModemStatusType::CoordinatorStarted
    } else if b == 0x07 {
        ModemStatusType::NetworkSecurityKeyUpdated
    } else if b == 0x0D {
        ModemStatusType::VoltageSupplyLimitExceeded
    } else if b == 0x11 {
        ModemStatusType::ModemConfigurationChangedWhileJoining
    } else if b == 0x3B {
        ModemStatusType::SecureSessionEstablished
    } else if b == 0x3C {
        ModemStatusType::SecureSessionEnded
    } else if b == 0x3D {
        ModemStatusType::SecureSessionAuthenticationFailed
    } else if b == 0x3E {
        ModemStatusType::CoordinatorDetectedPanIdConflict
    } else if b == 0x3F {
        ModemStatusType::CoordinatorChangedPanId
    } else if b == 0x32 {
        ModemStatusType::BleConnect
    } else if b == 0x33 {
        ModemStatusType::BleDisconnect
    } else if b == 0x34 {
        ModemStatusType::NoSecureSessionConnection
    } else if b == 0x40 {
        ModemStatusType::RouterPanIdChanged
    } else if b == 0x42 {
        ModemStatusType::NetworkWatchdogTimerExpiredThrice
    } else {
        ModemStatusType::StackError(b)
    }
}

impl ModemStatusType {
    /// The wire byte of this status.
    pub fn code(self) -> (r: u8)
        ensures
            r == modem_status_code(self),
    {
        match self {
            ModemStatusType::PowerUp => 0x00,
            ModemStatusType::WatchdogReset => 0x01,
            ModemStatusType::JoinedNetwork => 0x02,
            ModemStatusType::Disassociated => 0x03,
            ModemStatusType::CoordinatorStarted => 0x06,
            ModemStatusType::NetworkSecurityKeyUpdated => 0x07,
            ModemStatusType::VoltageSupplyLimitExceeded => 0x0D,
            ModemStatusType::ModemConfigurationChangedWhileJoining => 0x11,
            ModemStatusType::SecureSessionEstablished => 0x3B,
            ModemStatusType::SecureSessionEnded => 0x3C,
            ModemStatusType::SecureSessionAuthenticationFailed => 0x3D,
            ModemStatusType::CoordinatorDetectedPanIdConflict => 0x3E,
            ModemStatusType::CoordinatorChangedPanId => 0x3F,
            ModemStatusType::BleConnect => 0x32,
            ModemStatusType::BleDisconnect => 0x33,
            ModemStatusType::NoSecureSessionConnection => 0x34,
            ModemStatusType::RouterPanIdChanged => 0x40,
            ModemStatusType::NetworkWatchdogTimerExpiredThrice => 0x42,
            ModemStatusType::StackError(b) => b,
        }
    }

    /// The status written as `b`; a byte without a name is kept as a stack error.
    pub fn from_code(b: u8) -> (r: ModemStatusType)
        ensures
            r == modem_status_of(b),
    {
        match b {
            0x00 => ModemStatusType::PowerUp,
            0x01 => ModemStatusType::WatchdogReset,
            0x02 => ModemStatusType::JoinedNetwork,
            0x03 => ModemStatusType::Disassociated,
            0x06 => ModemStatusType::CoordinatorStarted,
            0x07 => ModemStatusType::NetworkSecurityKeyUpdated,
            0x0D => ModemStatusType::VoltageSupplyLimitExceeded,
            0x11 => ModemStatusType::ModemConfigurationChangedWhileJoining,
            0x3B => ModemStatusType::SecureSessionEstablished,
            0x3C => ModemStatusType::SecureSessionEnded,
            0x3D => ModemStatusType::SecureSessionAuthenticationFailed,
            0x3E => ModemStatusType::CoordinatorDetectedPanIdConflict,
            0x3F => ModemStatusType::CoordinatorChangedPanId,
            0x32 => ModemStatusType::BleConnect,
            0x33 => ModemStatusType::BleDisconnect,
            0x34 => ModemStatusType::NoSecureSessionConnection,
            0x40 => ModemStatusType::RouterPanIdChanged,
            0x42 => ModemStatusType::NetworkWatchdogTimerExpiredThrice,
            other => ModemStatusType::StackError(other),
        }
    }
}

/// A modem status report.
#[derive(Clone, Copy, Debug, PartialEq, Eq, Structural)]
pub struct ModemStatus {
    pub status: ModemStatusType,
}

impl View for ModemStatus {
    type V = ModemStatusType;

    open spec fn view(&self) -> ModemStatusType {
        self.status
    }
}

impl FrameData for ModemStatus {
    open spec fn spec_frame_type() -> u8 {
        MODEM_STATUS
    }

    open spec fn spec_has_frame_id() -> bool {
        false
    }

    open spec fn spec_payload(v: ModemStatusType) -> Seq<u8> {
        seq![modem_status_code(v)]
    }

    open spec fn spec_read(p: Seq<u8>) -> Option<ModemStatusType> {
        if p.len() >= 1 {
            Some(modem_status_of(p[0]))
        } else {
            None
        }
    }

    fn frame_type() -> (r: u8) {
        MODEM_STATUS
    }

    fn has_frame_id() -> (r: bool) {
        false
    }

    fn write(&self, out: &mut Vec<u8>) {
        out.push(self.status.code());
        assert(out@ =~= old(out)@ + Self::spec_payload(self@));
    }

    fn read(payload: &[u8]) -> (r: Option<Self>) {
        if payload.len() < 1 {
            return None;
        }
        Some(ModemStatus { status: ModemStatusType::from_code(payload[0]) })
    }
}

/// The radius byte written for `r`; no radius is written as zero, the most hops.
pub open spec fn radius_byte(r: Option<u8>) -> u8 {
    match r {
        Some(b) => b,
        None => 0,
    }
}

/// Sends `data` to a remote radio.
pub struct TransmitRequest {
    pub destination: u64,
    pub destination_small: u16,
    pub broadcast_radius: Option<u8>,
    pub data: Vec<u8>,
}

impl View for TransmitRequest {
    type V = (u64, u16, Option<u8>, Seq<u8>);

    open spec fn view(&self) -> (u64, u16, Option<u8>, Seq<u8>) {
        (self.destination, self.destination_small, self.broadcast_radius, self.data@)
    }
}

impl FrameData for TransmitRequest {
    open spec fn spec_frame_type() -> u8 {
        TRANSMIT_REQUEST
    }

    open spec fn spec_has_frame_id() -> bool {
        true
    }

    /// Destination (64 and 16 bits), radius, transmit options (none), data.
    open spec fn spec_payload(v: (u64, u16, Option<u8>, Seq<u8>)) -> Seq<u8> {
        be64(v.0) + be16(v.1) + seq![radius_byte(v.2), 0u8] + v.3
    }

    open spec fn spec_read(p: Seq<u8>) -> Option<(u64, u16, Option<u8>, Seq<u8>)> {
        if p.len() >= 12 {
            Some(
                (
                    read_be64(p, 0),
                    read_be16(p, 8),
                    if p[10] == 0 {
                        None
                    } else {
                        Some(p[10])
                    },
                    p.subrange(12, p.len() as int),
                ),
            )
        } else {
            None
        }
    }

    fn frame_type() -> (r: u8) {
        TRANSMIT_REQUEST
    }

    fn has_frame_id() -> (r: bool) {
        true
    }

    fn write(&self, out: &mut Vec<u8>) {
        push_be64(out, self.destination);
        push_be16(out, self.destination_small);
        let radius = match self.broadcast_radius {
            Some(b) => b,
            None => 0,
        };
        out.push(radius);
        out.push(0);
        push_all(out, self.data.as_slice());
        assert(out@ =~= old(out)@ + Self::spec_payload(self@));
    }

    fn read(payload: &[u8]) -> (r: Option<Self>) {
        if payload.len() < 12 {
            return None;
        }
        let destination = get_be64(payload, 0);
        let destination_small = get_be16(payload, 8);
        let broadcast_radius = if payload[10] == 0 { None } else { Some(payload[10]) };
        let data = copy_range(payload, 12, payload.len());
        Some(TransmitRequest { destination, destination_small, broadcast_radius, data })
    }
}

/// Sends `data` to a remote radio with explicit endpoints, cluster and profile.
pub struct ExplicitAddressingCommandRequest {
    pub destination: u64,
    pub destination_small: u16,
    pub source_endpoint: u8,
    pub dest_endpoint: u8,
    pub cluster_id: u16,
    pub profile_id: u16,
    pub broadcast_radius: u8,
    pub data: Vec<u8>,
}

impl View for ExplicitAddressingCommandRequest {
    type V = (u64, u16, u8, u8, u16, u16, u8, Seq<u8>);

    open spec fn view(&self) -> (u64, u16, u8, u8, u16, u16, u8, Seq<u8>) {
        (
            self.destination,
            self.destination_small,
            self.source_endpoint,
            self.dest_endpoint,
            self.cluster_id,
            self.profile_id,
            self.broadcast_radius,
            self.data@,
        )
    }
}

impl FrameData for ExplicitAddressingCommandRequest {
    open spec fn spec_frame_type() -> u8 {
        EXPLICIT_ADDRESSING_REQUEST
    }

    open spec fn spec_has_frame_id() -> bool {
        true
    }

    /// Destination (64 and 16 bits), endpoints, cluster, profile, radius,
    /// transmit options (none), data.
    open spec fn spec_payload(v: (u64, u16, u8, u8, u16, u16, u8, Seq<u8>)) -> Seq<u8> {
        be64(v.0) + be16(v.1) + seq![v.2, v.3] + be16(v.4) + be16(v.5) + seq![v.6, 0u8] + v.7
    }

    open spec fn spec_read(p: Seq<u8>) -> Option<(u64, u16, u8, u8, u16, u16, u8, Seq<u8>)> {
        if p.len() >= 20 {
            Some(
                (
                    read_be64(p, 0),
                    read_be16(p, 8),
                    p[10],
                    p[11],
                    read_be16(p, 12),
                    read_be16(p, 14),
                    p[16],
                    p.subrange(18, p.len() as int),
                ),
            )
        } else {
            None
        }
    }

    fn frame_type() -> (r: u8) {
        EXPLICIT_ADDRESSING_REQUEST
    }

    fn has_frame_id() -> (r: bool) {
        true
    }

    fn write(&self, out: &mut Vec<u8>) {
        push_be64(out, self.destination);
        push_be16(out, self.destination_small);
        out.push(self.source_endpoint);
        out.push(self.dest_endpoint);
        push_be16(out, self.cluster_id);
        push_be16(out, self.profile_id);
        out.push(self.broadcast_radius);
        out.push(0);
        push_all(out, self.data.as_slice());
        assert(out@ =~= old(out)@ + Self::spec_payload(self@));
    }

    fn read(payload: &[u8]) -> (r: Option<Self>) {
        if payload.len() < 20 {
            return None;
        }
        let data = copy_range(payload, 18, payload.len());
        Some(
            ExplicitAddressingCommandRequest {
                destination: get_be64(payload, 0),
                destination_small: get_be16(payload, 8),
                source_endpoint: payload[10],
                dest_endpoint: payload[11],
                cluster_id: get_be16(payload, 12),
                profile_id: get_be16(payload, 14),
                broadcast_radius: payload[16],
                data,
            },
        )
    }
}

/// A frame of any kind this codec reads.
pub enum DecodedFrame {
    ATCommandRequest(Frame<LocalATCommandRequest>),
    ATCommandResponse(Frame<LocalATCommandResponse>),
    ModemStatus(Frame<ModemStatus>),
    TransmitRequest(Frame<TransmitRequest>),
    ExplicitAddressing(Frame<ExplicitAddressingCommandRequest>),
}

/// No kind of frame can be read from `b`.
pub open spec fn no_frame(b: Seq<u8>) -> bool {
    &&& read_frame::<LocalATCommandRequest>(b) is None
    &&& read_frame::<LocalATCommandResponse>(b) is None
    &&& read_frame::<ModemStatus>(b) is None
    &&& read_frame::<TransmitRequest>(b) is None
    &&& read_frame::<ExplicitAddressingCommandRequest>(b) is None
}

/// Decodes a frame by its type byte; `None` for an unknown type, bad framing,
/// or a payload too short for its kind.
pub fn decode(b: &[u8]) -> (r: Option<DecodedFrame>)
    ensures
        match r {
            None => no_frame(b@),
            Some(DecodedFrame::ATCommandRequest(f)) => read_frame::<LocalATCommandRequest>(b@)
                == Some(f@),
            Some(DecodedFrame::ATCommandResponse(f)) => read_frame::<LocalATCommandResponse>(b@)
                == Some(f@),
            Some(DecodedFrame::ModemStatus(f)) => read_frame::<ModemStatus>(b@) == Some(f@),
            Some(DecodedFrame::TransmitRequest(f)) => read_frame::<TransmitRequest>(b@) == Some(
                f@,
            ),
            Some(DecodedFrame::ExplicitAddressing(f)) => read_frame::<
                ExplicitAddressingCommandRequest,
            >(b@) == Some(f@),
        },
{
    if b.len() < 5 {
        return None;
    }
    let t = b[3];
    if t == AT_COMMAND_REQUEST {
        match Frame::<LocalATCommandRequest>::read(b) {
            Some(f) => Some(DecodedFrame::ATCommandRequest(f)),
            None => None,
        }
    } else if t == AT_COMMAND_RESPONSE {
        match Frame::<LocalATCommandResponse>::read(b) {
            Some(f) => Some(DecodedFrame::ATCommandResponse(f)),
            None => None,
        }
    } else if t == MODEM_STATUS {
        match Frame::<ModemStatus>::read(b) {
            Some(f) => Some(DecodedFrame::ModemStatus(f)),
            None => None,
        }
    } else if t == TRANSMIT_REQUEST {
        match Frame::<TransmitRequest>::read(b) {
            Some(f) => Some(DecodedFrame::TransmitRequest(f)),
            None => None,
        }
    } else if t == EXPLICIT_ADDRESSING_REQUEST {
        match Frame::<ExplicitAddressingCommandRequest>::read(b) {
            Some(f) => Some(DecodedFrame::ExplicitAddressing(f)),
            None => None,
        }
    } else {
        None
    }
}

/// A frame body comes back out of its wire form.
pub proof fn lemma_frame_body_round_trip(body: Seq<u8>)
    requires
        1 <= body.len() <= MAX_BODY_LEN,
    ensures
        frame_body(frame_bytes(body)) == Some(body),
{
    let b = frame_bytes(body);
    let n = body.len();
    assert(b.subrange(3, b.len() - 1) =~= body);
    assert((n / 256) as u8 as int * 256 + (n % 256) as u8 as int == n) by {
        assert(n / 256 < 256);
    }
    let x = byte_sum(body);
    assert((x + (0xFF - x % 256)) % 256 == 0xFF) by (nonlinear_arith);
}

/// Encoding a frame and decoding it gives back its payload, and the frame ID
/// that was written for it.
pub proof fn lemma_frame_round_trip<T: FrameData>(f: Frame<T>)
    requires
        f.body().len() <= MAX_BODY_LEN,
        T::spec_read(T::spec_payload(f.data@)) == Some(f.data@),
    ensures
        read_frame::<T>(frame_bytes(f.body())) == Some(
            (
                if T::spec_has_frame_id() {
                    Some(id_byte(f.id))
                } else {
                    None
                },
                f.data@,
            ),
        ),
{
    let body = f.body();
    lemma_frame_body_round_trip(body);
    let skip: int = if T::spec_has_frame_id() {
        2
    } else {
        1
    };
    assert(body.subrange(skip, body.len() as int) =~= T::spec_payload(f.data@));
}

/// Round trip of a transmit request: decoding its encoding gives back the
/// destination (both forms), the broadcast radius and the payload bytes. A
/// radius of zero is the wire's "no radius", so the law is stated for the others.
pub proof fn lemma_transmit_round_trip(f: Frame<TransmitRequest>)
    requires
        f.body().len() <= MAX_BODY_LEN,
        f.data.broadcast_radius != Some(0u8),
    ensures
        read_frame::<TransmitRequest>(frame_bytes(f.body())) matches Some((_, v)) && v.0
            == f.data.destination && v.1 == f.data.destination_small && v.2
            == f.data.broadcast_radius && v.3 == f.data.data@,
{
    let p = TransmitRequest::spec_payload(f.data@);
    assert(p.subrange(0, 8) =~= be64(f.data.destination));
    lemma_be64_round_trip(f.data.destination, p, 0);
    assert(p.subrange(8, 10) =~= be16(f.data.destination_small));
    lemma_be16_round_trip(f.data.destination_small, p, 8);
    assert(p.subrange(12, p.len() as int) =~= f.data.data@);
    lemma_frame_round_trip(f);
}

} // verus!
