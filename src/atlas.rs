use vstd::prelude::*;

verus! {

/// Largest command payload that fits in one bus write to a probe.
pub const MAX_COMMAND_LEN: usize = 64;

#[verifier::external_type_specification]
#[verifier::external_body]
#[verifier::reject_recursive_types(T)]
pub struct ExHeaplessVec<T, const N: usize>(heapless::Vec<T, N>);

/// The bytes held by a fixed-capacity command buffer.
pub uninterp spec fn command_contents(v: heapless::Vec<u8, 64>) -> Seq<u8>;

/// Relies on heapless::Vec::from_slice: fails exactly when the slice is longer
/// than the capacity, and otherwise holds a copy of the slice.
#[verifier::external_body]
fn command_buffer_from(bytes: &[u8]) -> (r: Result<heapless::Vec<u8, 64>, ()>)
    ensures
        r is Ok <==> bytes@.len() <= 64,
        r matches Ok(v) ==> command_contents(v) == bytes@,
{
    heapless::Vec::from_slice(bytes)
}

/// Relies on heapless::Vec::as_slice: the slice holds the buffer's bytes in order.
#[verifier::external_body]
fn command_buffer_bytes(v: &heapless::Vec<u8, 64>) -> (r: &[u8])
    ensures
        r@ == command_contents(*v),
{
    v.as_slice()
}

/// One outbound bus payload for a probe.
pub struct AtlasCommand {
    pub address: usize,
    pub command: heapless::Vec<u8, 64>,
}

impl AtlasCommand {
    /// Builds a command for the probe at `address`; `None` when `bytes` does not
    /// fit in one bus write.
    pub fn new(address: usize, bytes: &[u8]) -> (r: Option<AtlasCommand>)
        ensures
            r is Some <==> bytes@.len() <= MAX_COMMAND_LEN,
            r matches Some(c) ==> c.address == address && c@ == bytes@,
    {
        match command_buffer_from(bytes) {
            Ok(command) => Some(AtlasCommand { address, command }),
            Err(()) => None,
        }
    }

    /// The bytes to write on the bus.
    pub fn bytes(&self) -> (r: &[u8])
        ensures
            r@ == self@,
    {
        command_buffer_bytes(&self.command)
    }
}

impl View for AtlasCommand {
    type V = Seq<u8>;

    open spec fn view(&self) -> Seq<u8> {
        command_contents(self.command)
    }
}


/// Byte that ends each token of a probe response.
pub const CR: u8 = 13;

/// Status reported by a probe as the last token of each response.
#[derive(Clone, Copy, Debug, PartialEq, Eq, Structural)]
pub enum ResponseCode {
    Success,
    UnknownCommand,
    OverVolt,
    UnderVolt,
    Reset,
    Ready,
    Sleeping,
    WakeUp,
}

/// The status codes that the chamber firmware names in its sensor contract.
pub type SensorResponse = ResponseCode;

/// The three-byte wire token of a status code.
pub open spec fn code_token(c: ResponseCode) -> Seq<u8> {
    match c {
        ResponseCode::Success => seq![0x2A, 0x4F, 0x4B],  // "*OK"
        ResponseCode::UnknownCommand => seq![0x2A, 0x45, 0x52],  // "*ER"
        ResponseCode::OverVolt => seq![0x2A, 0x4F, 0x56],  // "*OV"
        ResponseCode::UnderVolt => seq![0x2A, 0x55, 0x56],  // "*UV"
        ResponseCode::Reset => seq![0x2A, 0x52, 0x53],  // "*RS"
        ResponseCode::Ready => seq![0x2A, 0x52, 0x45],  // "*RE"
        ResponseCode::Sleeping => seq![0x2A, 0x53, 0x4C],  // "*SL"
        ResponseCode::WakeUp => seq![0x2A, 0x57, 0x41],  // "*WA"
    }
}

/// The status code whose wire token is `t`, if any.
pub open spec fn code_of_token(t: Seq<u8>) -> Option<ResponseCode> {
    if exists|c: ResponseCode| code_token(c) == t {
        Some(choose|c: ResponseCode| code_token(c) == t)
    } else {
        None
    }
}

/// End of the part of a response that holds tokens: a final `CR` ends the
/// last token rather than opening an empty one.
pub open spec fn body_end(b: Seq<u8>) -> int {
    if b.len() > 0 && b.last() == CR {
        b.len() - 1
    } else {
        b.len() as int
    }
}

/// Start of the token that ends at `end`: just after the nearest `CR` before it.
pub open spec fn token_start(b: Seq<u8>, end: int) -> int
    decreases end,
{
    if end <= 0 {
        0
    } else if b[end - 1] == CR {
        end
    } else {
        token_start(b, end - 1)
    }
}

/// End of the token that starts at `i`: the next `CR`, or the end of the buffer.
pub open spec fn token_end(b: Seq<u8>, i: int) -> int
    decreases b.len() - i,
{
    if i >= b.len() || b[i] == CR {
        i
    } else {
        token_end(b, i + 1)
    }
}

/// The last `CR`-delimited token of a response.
pub open spec fn last_token(b: Seq<u8>) -> Seq<u8> {
    b.subrange(token_start(b, body_end(b)), body_end(b))
}

/// The first `CR`-delimited token of a response.
pub open spec fn first_token(b: Seq<u8>) -> Seq<u8> {
    b.subrange(0, token_end(b, 0))
}

proof fn lemma_token_start_bounds(b: Seq<u8>, end: int)
    requires
        0 <= end <= b.len(),
    ensures
        0 <= token_start(b, end) <= end,
        forall|i: int| token_start(b, end) <= i < end ==> b[i] != CR,
    decreases end,
{
    if end > 0 && b[end - 1] != CR {
        lemma_token_start_bounds(b, end - 1);
    }
}

impl ResponseCode {
    /// The three-byte wire token of this status code.
    pub fn token(self) -> (r: [u8; 3])
        ensures
            r@ == code_token(self),
    {
        let r = match self {
            ResponseCode::Success => [0x2A, 0x4F, 0x4B],
            ResponseCode::UnknownCommand => [0x2A, 0x45, 0x52],
            ResponseCode::OverVolt => [0x2A, 0x4F, 0x56],
            ResponseCode::UnderVolt => [0x2A, 0x55, 0x56],
            ResponseCode::Reset => [0x2A, 0x52, 0x53],
            ResponseCode::Ready => [0x2A, 0x52, 0x45],
            ResponseCode::Sleeping => [0x2A, 0x53, 0x4C],
            ResponseCode::WakeUp => [0x2A, 0x57, 0x41],
        };
        assert(r@ =~= code_token(self));
        r
    }

    /// Matches one token against the status-code table.
    pub fn try_from_token(t: &[u8]) -> (r: Option<ResponseCode>)
        ensures
            r == code_of_token(t@),
    {
        if t.len() != 3 || t[0] != 0x2A {
            proof {
                assert forall|c: ResponseCode| code_token(c) != t@ by {
                    if code_token(c) == t@ {
                        assert(code_token(c)[0] == 0x2A);
                    }
                }
            }
            return None;
        }
        let r = match (t[1], t[2]) {
            (0x4F, 0x4B) => Some(ResponseCode::Success),
            (0x45, 0x52) => Some(ResponseCode::UnknownCommand),
            (0x4F, 0x56) => Some(ResponseCode::OverVolt),
            (0x55, 0x56) => Some(ResponseCode::UnderVolt),
            (0x52, 0x53) => Some(ResponseCode::Reset),
            (0x52, 0x45) => Some(ResponseCode::Ready),
            (0x53, 0x4C) => Some(ResponseCode::Sleeping),
            (0x57, 0x41) => Some(ResponseCode::WakeUp),
            _ => None,
        };
        proof {
            match r {
                Some(c) => {
                    assert(code_token(c) =~= t@);
                    assert forall|d: ResponseCode| code_token(d) == t@ implies d == c by {
                        assert(code_token(d)[1] == t@[1] && code_token(d)[2] == t@[2]);
                    }
                },
                None => {
                    assert forall|d: ResponseCode| code_token(d) != t@ by {
                        if code_token(d) == t@ {
                            assert(code_token(d)[1] == t@[1] && code_token(d)[2] == t@[2]);
                        }
                    }
                },
            }
        }
        r
    }

    /// Reads the status code from the last `CR`-delimited token of a probe
    /// response; `None` when that token is not one of the status tokens.
    pub fn try_from_probe_response(buffer: &[u8]) -> (r: Option<ResponseCode>)
        ensures
            r == code_of_token(last_token(buffer@)),
    {
        let end = last_token_end(buffer);
        let start = token_start_before(buffer, end);
        ResponseCode::try_from_token(&buffer[start..end])
    }
}

/// Index where the token part of a response ends.
fn last_token_end(b: &[u8]) -> (r: usize)
    ensures
        r == body_end(b@),
{
    if b.len() > 0 && b[b.len() - 1] == CR {
        b.len() - 1
    } else {
        b.len()
    }
}

/// Index where the token that ends at `end` starts.
fn token_start_before(b: &[u8], end: usize) -> (r: usize)
    requires
        end <= b@.len(),
    ensures
        r == token_start(b@, end as int),
        r <= end,
{
    let mut i: usize = end;
    while i > 0 && b[i - 1] != CR
        invariant
            i <= end <= b@.len(),
            token_start(b@, i as int) == token_start(b@, end as int),
        decreases i,
    {
        i = i - 1;
    }
    proof {
        lemma_token_start_bounds(b@, i as int);
    }
    i
}

/// Index where the first token of a response ends.
fn first_token_end(b: &[u8]) -> (r: usize)
    ensures
        r == token_end(b@, 0),
        r <= b@.len(),
{
    let mut i: usize = 0;
    while i < b.len() && b[i] != CR
        invariant
            i <= b@.len(),
            token_end(b@, i as int) == token_end(b@, 0),
        decreases b@.len() - i,
    {
        i = i + 1;
    }
    i
}

/// A decimal reading: `mantissa / 10^scale`, negated when `negative` is set.
#[derive(Clone, Copy, Debug, PartialEq, Eq, Structural)]
pub struct Decimal {
    pub negative: bool,
    pub mantissa: u64,
    pub scale: usize,
}

impl Decimal {
    /// The reading scaled by `10^scale`, as a signed integer.
    pub open spec fn scaled(self) -> int {
        if self.negative {
            -(self.mantissa as int)
        } else {
            self.mantissa as int
        }
    }
}

/// What a probe reported in one response.
#[derive(Clone, Copy, Debug, PartialEq, Eq, Structural)]
pub struct ProbeReading {
    pub value: Decimal,
    pub code: ResponseCode,
}

/// Why a probe response could not be used.
#[derive(Clone, Copy, Debug, PartialEq, Eq, Structural)]
pub enum ProtocolError {
    /// The last token is not a status token.
    UnknownStatus,
    /// The first token is not a decimal number.
    InvalidReading,
}

pub open spec fn is_digit(c: u8) -> bool {
    0x30 <= c <= 0x39
}

pub open spec fn all_digits(s: Seq<u8>) -> bool {
    forall|i: int| 0 <= i < s.len() ==> is_digit(#[trigger] s[i])
}

/// The number written by a run of decimal digits.
pub open spec fn digits_value(s: Seq<u8>) -> nat
    decreases s.len(),
{
    if s.len() == 0 {
        0
    } else {
        digits_value(s.drop_last()) * 10 + (s.last() - 0x30) as nat
    }
}

/// Length of the run of digits that starts `t`.
pub open spec fn digit_run(t: Seq<u8>, i: int) -> int
    decreases t.len() - i,
{
    if i >= t.len() || !is_digit(t[i]) {
        i
    } else {
        digit_run(t, i + 1)
    }
}

/// Length of the optional sign that opens a number.
pub open spec fn sign_len(t: Seq<u8>) -> int {
    if t.len() > 0 && (t[0] == 0x2D || t[0] == 0x2B) {
        1
    } else {
        0
    }
}

/// Where the digits before the point end.
pub open spec fn int_end(t: Seq<u8>) -> int {
    digit_run(t, sign_len(t))
}

/// The digits after the point, or nothing when there is no point.
pub open spec fn frac_digits(t: Seq<u8>) -> Seq<u8> {
    if int_end(t) < t.len() {
        t.subrange(int_end(t) + 1, t.len() as int)
    } else {
        Seq::empty()
    }
}

/// The digits of a number with its point taken out.
pub open spec fn all_number_digits(t: Seq<u8>) -> Seq<u8> {
    t.subrange(sign_len(t), int_end(t)) + frac_digits(t)
}

/// `t` is written `[+|-]digits[.digits]`, with at least one digit.
pub open spec fn is_decimal(t: Seq<u8>) -> bool {
    &&& int_end(t) == t.len() || (t[int_end(t)] == 0x2E && all_digits(frac_digits(t)))
    &&& all_number_digits(t).len() > 0
}

/// The reading written in `t`, when it is a decimal whose digits fit in 64 bits.
pub open spec fn decimal_of(t: Seq<u8>) -> Option<Decimal> {
    if is_decimal(t) && digits_value(all_number_digits(t)) <= u64::MAX {
        Some(
            Decimal {
                negative: sign_len(t) == 1 && t[0] == 0x2D,
                mantissa: digits_value(all_number_digits(t)) as u64,
                scale: frac_digits(t).len() as usize,
            },
        )
    } else {
        None
    }
}

/// What a whole probe response reports: the status from its last token, the
/// reading from its first.
pub open spec fn reading_of(b: Seq<u8>) -> Result<ProbeReading, ProtocolError> {
    match code_of_token(last_token(b)) {
        None => Err(ProtocolError::UnknownStatus),
        Some(code) => match decimal_of(first_token(b)) {
            None => Err(ProtocolError::InvalidReading),
            Some(value) => Ok(ProbeReading { value, code }),
        },
    }
}

proof fn lemma_digit_run_bounds(t: Seq<u8>, i: int)
    requires
        0 <= i <= t.len(),
    ensures
        i <= digit_run(t, i) <= t.len(),
        forall|k: int| i <= k < digit_run(t, i) ==> is_digit(#[trigger] t[k]),
        digit_run(t, i) < t.len() ==> !is_digit(t[digit_run(t, i)]),
    decreases t.len() - i,
{
    if i < t.len() && is_digit(t[i]) {
        lemma_digit_run_bounds(t, i + 1);
    }
}

proof fn lemma_digits_push(s: Seq<u8>, c: u8)
    ensures
        digits_value(s.push(c)) == digits_value(s) * 10 + (c - 0x30) as nat,
{
    assert(s.push(c).drop_last() =~= s);
}

/// Parses one token as a decimal number `[+|-]digits[.digits]`.
pub fn parse_decimal(t: &[u8]) -> (r: Option<Decimal>)
    ensures
        r == decimal_of(t@),
{
    let ghost s = t@;
    let n = t.len();
    let negative = n > 0 && t[0] == 0x2D;
    let start: usize = if n > 0 && (t[0] == 0x2D || t[0] == 0x2B) { 1 } else { 0 };
    proof {
        lemma_digit_run_bounds(s, start as int);
    }
    let ghost ie = int_end(s);
    let mut mantissa: u64 = 0;
    let mut overflow = false;
    let mut i: usize = start;
    // digits before the point
    while i < n && 0x30 <= t[i] && t[i] <= 0x39
        invariant
            s == t@,
            start <= i <= ie <= n == s.len(),
            start == sign_len(s),
            ie == int_end(s),
            digit_run(s, i as int) == ie,
            !overflow ==> mantissa == digits_value(s.subrange(start as int, i as int)),
            overflow ==> digits_value(s.subrange(start as int, i as int)) > u64::MAX,
        decreases n - i,
    {
        proof {
            lemma_digit_run_bounds(s, i + 1);
            lemma_digits_push(s.subrange(start as int, i as int), s[i as int]);
            assert(s.subrange(start as int, i as int).push(s[i as int]) =~= s.subrange(
                start as int,
                i + 1,
            ));
        }
        let d = (t[i] - 0x30) as u64;
        if !overflow {
            if mantissa > (u64::MAX - d) / 10 {
                overflow = true;
            } else {
                mantissa = mantissa * 10 + d;
            }
        } else {
            assert(digits_value(s.subrange(start as int, i + 1)) > u64::MAX) by (nonlinear_arith)
                requires
                    digits_value(s.subrange(start as int, i + 1)) == digits_value(
                        s.subrange(start as int, i as int),
                    ) * 10 + d,
                    digits_value(s.subrange(start as int, i as int)) > u64::MAX,
            ;
        }
        i = i + 1;
    }
    let ie_exec = i;
    let ghost head = s.subrange(start as int, ie);
    let mut scale: usize = 0;
    if i < n {
        // a point, then only digits
        if t[i] != 0x2E {
            return None;
        }
        i = i + 1;
        proof {
            assert(head + s.subrange(ie + 1, i as int) =~= head);
        }
        while i < n
            invariant
                s == t@,
                start <= ie < i <= n == s.len(),
                ie == int_end(s),
                head == s.subrange(start as int, ie),
                all_digits(s.subrange(ie + 1, i as int)),
                !overflow ==> mantissa == digits_value(head + s.subrange(ie + 1, i as int)),
                overflow ==> digits_value(head + s.subrange(ie + 1, i as int)) > u64::MAX,
            decreases n - i,
        {
            if t[i] < 0x30 || t[i] > 0x39 {
                proof {
                    assert(!all_digits(frac_digits(s))) by {
                        assert(frac_digits(s) == s.subrange(ie + 1, s.len() as int));
                        assert(frac_digits(s)[i - ie - 1] == s[i as int]);
                    }
                }
                return None;
            }
            proof {
                lemma_digits_push(head + s.subrange(ie + 1, i as int), s[i as int]);
                assert((head + s.subrange(ie + 1, i as int)).push(s[i as int]) =~= head
                    + s.subrange(ie + 1, i + 1));
            }
            let d = (t[i] - 0x30) as u64;
            if !overflow {
                if mantissa > (u64::MAX - d) / 10 {
                    overflow = true;
                } else {
                    mantissa = mantissa * 10 + d;
                }
            } else {
                assert(digits_value(head + s.subrange(ie + 1, i + 1)) > u64::MAX)
                    by (nonlinear_arith)
                    requires
                        digits_value(head + s.subrange(ie + 1, i + 1)) == digits_value(
                            head + s.subrange(ie + 1, i as int),
                        ) * 10 + d,
                        digits_value(head + s.subrange(ie + 1, i as int)) > u64::MAX,
                ;
            }
            i = i + 1;
        }
        scale = n - ie_exec - 1;
        proof {
            assert(frac_digits(s) =~= s.subrange(ie + 1, i as int));
        }
    } else {
        proof {
            assert(frac_digits(s) =~= Seq::<u8>::empty());
            assert(head + frac_digits(s) =~= head);
        }
    }
    proof {
        assert(all_number_digits(s) == head + frac_digits(s));
        assert(all_number_digits(s).len() == (ie_exec - start) + scale);
    }
    if ie_exec - start + scale == 0 || overflow {
        return None;
    }
    Some(Decimal { negative, mantissa, scale })
}

/// Decodes a whole probe response: the status from its last `CR`-delimited
/// token, the reading from its first. The two need not be adjacent.
pub fn parse_probe_response(buffer: &[u8]) -> (r: Result<ProbeReading, ProtocolError>)
    ensures
        r == reading_of(buffer@),
{
    let code = match ResponseCode::try_from_probe_response(buffer) {
        Some(code) => code,
        None => return Err(ProtocolError::UnknownStatus),
    };
    let end = first_token_end(buffer);
    match parse_decimal(&buffer[0..end]) {
        Some(value) => Ok(ProbeReading { value, code }),
        None => Err(ProtocolError::InvalidReading),
    }
}

} // verus!
