//! The values that travel over the link and their byte-exact codec.

use vstd::prelude::*;

verus! {

/// Highest byte value that is a valid packed channel state.
pub const STATE_MAX: u8 = 0b11;

/// Levels of the monitored channels, one bit per channel, packed in a byte.
#[derive(Debug, PartialEq, Eq, Clone, Copy)]
pub struct State {
    data: u8,
}

impl State {
    /// The packed byte: bit 0 is channel 1, bit 1 is channel 2.
    pub closed spec fn bits(&self) -> u8 {
        self.data
    }

    /// The state whose packed byte is `bits`.
    pub closed spec fn from_bits(bits: u8) -> State {
        State { data: bits }
    }

    /// Only the two low bits may be set.
    #[verifier::type_invariant]
    pub open spec fn wf(&self) -> bool {
        self.bits() <= STATE_MAX
    }

    /// The packed byte of two channel levels.
    pub open spec fn pack(channel1: bool, channel2: bool) -> u8 {
        ((if channel1 { 1int } else { 0int }) + (if channel2 { 2int } else { 0int })) as u8
    }

    /// A state is determined by its packed byte.
    pub proof fn lemma_bits(bits: u8)
        ensures
            State::from_bits(bits).bits() == bits,
    {
    }

    /// Every state is the state of its packed byte.
    pub proof fn lemma_from_bits(self)
        ensures
            State::from_bits(self.bits()) == self,
    {
    }

    /// A valid state is the state of its two channel levels.
    pub proof fn lemma_levels(self)
        requires
            self.wf(),
        ensures
            State::pack(self.spec_channel1(), self.spec_channel2()) == self.bits(),
            State::spec_new(self.spec_channel1(), self.spec_channel2()) == self,
    {
        self.lemma_from_bits();
    }

    /// The level of channel 1: bit 0 of the packed byte.
    pub open spec fn spec_channel1(&self) -> bool {
        self.bits() % 2 == 1
    }

    /// The level of channel 2: bit 1 of the packed byte.
    pub open spec fn spec_channel2(&self) -> bool {
        self.bits() / 2 % 2 == 1
    }

    /// The state in which the two channels have the given levels.
    pub open spec fn spec_new(channel1: bool, channel2: bool) -> State {
        State::from_bits(State::pack(channel1, channel2))
    }

    /// The state in which the two channels have the given levels.
    #[verifier::when_used_as_spec(spec_new)]
    pub fn new(channel1: bool, channel2: bool) -> (state: Self)
        ensures
            state == State::spec_new(channel1, channel2),
            state.bits() == State::pack(channel1, channel2),
            state.spec_channel1() == channel1,
            state.spec_channel2() == channel2,
            state.wf(),
    {
        let low: u8 = if channel1 { 1 } else { 0 };
        let high: u8 = if channel2 { 1 } else { 0 };
        assert(low | (high << 1) == low + 2 * high) by (bit_vector)
            requires
                low <= 1,
                high <= 1,
        ;
        Self { data: low | (high << 1) }
    }

    /// The packed byte.
    pub fn byte(&self) -> (byte: u8)
        ensures
            byte == self.bits(),
            byte <= STATE_MAX,
    {
        proof {
            use_type_invariant(self);
        }
        self.data
    }

    /// Whether channel 1 is high.
    #[verifier::when_used_as_spec(spec_channel1)]
    pub fn channel1(&self) -> (level: bool)
        ensures
            level == self.spec_channel1(),
    {
        let data: u8 = self.data;
        assert(data & 1 == data % 2) by (bit_vector);
        self.data & 1 == 1
    }

    /// Whether channel 2 is high.
    #[verifier::when_used_as_spec(spec_channel2)]
    pub fn channel2(&self) -> (level: bool)
        ensures
            level == self.spec_channel2(),
    {
        let data: u8 = self.data;
        assert((data >> 1) & 1 == data / 2 % 2) by (bit_vector);
        (self.data >> 1) & 1 == 1
    }
}

/// One captured event: the channel levels and the raw tick count at which
/// they were sampled.
#[derive(Debug, PartialEq, Eq, Clone, Copy)]
pub struct Reading {
    pub state: State,
    /// Timestamp in ticks of the free-running counter, not yet calibrated.
    pub time: u32,
}

impl Reading {
    /// The reading of the given channel levels at the tick count `time`.
    pub open spec fn spec_new(time: u32, channel1: bool, channel2: bool) -> Reading {
        Reading { state: State::new(channel1, channel2), time }
    }

    /// The reading of the given channel levels at the tick count `time`.
    #[verifier::when_used_as_spec(spec_new)]
    pub fn new(time: u32, channel1: bool, channel2: bool) -> (reading: Self)
        ensures
            reading == Reading::spec_new(time, channel1, channel2),
            reading.time == time,
            reading.state.bits() == State::pack(channel1, channel2),
            reading.state.channel1() == channel1,
            reading.state.channel2() == channel2,
            reading.state.wf(),
    {
        Self { state: State::new(channel1, channel2), time }
    }
}

/// A message from the device to the host.
#[derive(Debug, PartialEq, Eq, Clone, Copy)]
pub enum ClientHostMessage {
    /// The levels of the channels changed.
    Reading(Reading),
    /// The counter advances by this many ticks in a second.
    FrequencyHertz(u32),
    /// Reset the readings of the given channel.
    Reset(u8),
    /// The counter stands at this many ticks.
    CurrentTime(u32),
}

/// Why a value could not be written.
#[derive(Debug, PartialEq, Eq, Clone, Copy)]
pub enum EncodingError {
    /// The destination holds the first number of bytes where the second
    /// number was needed.
    BufferTooSmall(usize, usize),
}

/// Why no value could be read.
#[derive(Debug, PartialEq, Eq, Clone, Copy)]
pub enum DecodingError {
    /// The bytes stop before the value is complete.
    EndOfBytes,
    /// The given byte cannot stand where it was found.
    UnexpectedByte(u8, &'static str),
}

/// The four bytes of `value`, least significant first.
pub open spec fn u32_le_bytes(value: u32) -> Seq<u8> {
    seq![
        (value % 256) as u8,
        (value / 256 % 256) as u8,
        (value / 65536 % 256) as u8,
        (value / 16777216) as u8,
    ]
}

/// The number whose little-endian bytes are the first four of `bytes`.
pub open spec fn u32_from_le_bytes(bytes: Seq<u8>) -> u32
    recommends
        bytes.len() >= 4,
{
    (bytes[0] + 256 * bytes[1] + 65536 * bytes[2] + 16777216 * bytes[3]) as u32
}

/// What an undersized destination is left with: the error that reports
/// `have` bytes where `need` were asked for, and the bytes as they were.
pub open spec fn too_small(buffer: Seq<u8>, need: usize) -> (EncodingError, Seq<u8>) {
    (EncodingError::BufferTooSmall(buffer.len() as usize, need), buffer)
}

/// A value with a fixed wire image.
pub trait Message<S> {
    /// The bytes that stand for this value on the wire.
    spec fn wire(&self) -> Seq<u8>;

    /// What reading a value from the head of `bytes` gives: the number of
    /// bytes taken and the value, or the reason why there is none.
    spec fn parse(bytes: Seq<u8>) -> Result<(usize, S), DecodingError>;

    /// The error reported for a destination shorter than the wire image,
    /// and what the destination then holds.
    spec fn shortfall(&self, buffer: Seq<u8>) -> (EncodingError, Seq<u8>);

    /// Writes the wire image to the head of `buffer` and returns its
    /// length; the bytes behind it are left alone.
    fn encode(&self, buffer: &mut [u8]) -> (result: Result<usize, EncodingError>)
        ensures
            final(buffer)@.len() == old(buffer)@.len(),
            old(buffer)@.len() >= self.wire().len() ==> {
                &&& result == Ok::<usize, EncodingError>(self.wire().len() as usize)
                &&& final(buffer)@ == self.wire() + old(buffer)@.skip(self.wire().len() as int)
            },
            old(buffer)@.len() < self.wire().len() ==> {
                &&& result == Err::<usize, EncodingError>(self.shortfall(old(buffer)@).0)
                &&& final(buffer)@ == self.shortfall(old(buffer)@).1
            },
    ;

    /// Reads one value from the head of `bytes`.
    fn decode(bytes: &[u8]) -> (result: Result<(usize, S), DecodingError>)
        ensures
            result == Self::parse(bytes@),
    ;
}

/// Writes `value` at `at`, if a byte is left there.
fn put_u8(buffer: &mut [u8], at: usize, value: u8) -> (result: Result<usize, EncodingError>)
    requires
        at <= old(buffer)@.len(),
    ensures
        final(buffer)@.len() == old(buffer)@.len(),
        at < old(buffer)@.len() ==> {
            &&& result == Ok::<usize, EncodingError>(1)
            &&& final(buffer)@ == old(buffer)@.update(at as int, value)
        },
        at == old(buffer)@.len() ==> {
            &&& result == Err::<usize, EncodingError>(EncodingError::BufferTooSmall(0, 1))
            &&& final(buffer)@ == old(buffer)@
        },
{
    if buffer.len() - at < 1 {
        return Err(EncodingError::BufferTooSmall(buffer.len() - at, 1));
    }
    buffer[at] = value;
    Ok(1)
}

/// The bytes of `buffer` with `bytes` written over them from `at` on.
pub open spec fn overwrite(buffer: Seq<u8>, at: int, bytes: Seq<u8>) -> Seq<u8>
    recommends
        0 <= at,
        at + bytes.len() <= buffer.len(),
{
    buffer.take(at) + bytes + buffer.skip(at + bytes.len())
}

/// Writes `value` at `at`, least significant byte first, if four bytes are
/// left there.
fn put_u32(buffer: &mut [u8], at: usize, value: u32) -> (result: Result<usize, EncodingError>)
    requires
        at <= old(buffer)@.len(),
    ensures
        final(buffer)@.len() == old(buffer)@.len(),
        old(buffer)@.len() - at >= 4 ==> {
            &&& result == Ok::<usize, EncodingError>(4)
            &&& final(buffer)@ == overwrite(old(buffer)@, at as int, u32_le_bytes(value))
        },
        old(buffer)@.len() - at < 4 ==> {
            &&& result == Err::<usize, EncodingError>(
                EncodingError::BufferTooSmall((old(buffer)@.len() - at) as usize, 4),
            )
            &&& final(buffer)@ == old(buffer)@
        },
{
    if buffer.len() - at < 4 {
        return Err(EncodingError::BufferTooSmall(buffer.len() - at, 4));
    }
    assert(value & 0xff == value % 256) by (bit_vector);
    assert((value >> 8) & 0xff == value / 256 % 256) by (bit_vector);
    assert((value >> 16) & 0xff == value / 65536 % 256) by (bit_vector);
    assert(value >> 24 == value / 16777216 && value >> 24 < 256) by (bit_vector);
    buffer[at] = (value & 0xff) as u8;
    buffer[at + 1] = ((value >> 8) & 0xff) as u8;
    buffer[at + 2] = ((value >> 16) & 0xff) as u8;
    buffer[at + 3] = (value >> 24) as u8;
    Ok(4)
}

impl Message<Self> for u8 {
    open spec fn wire(&self) -> Seq<u8> {
        seq![*self]
    }

    open spec fn parse(bytes: Seq<u8>) -> Result<(usize, u8), DecodingError> {
        if bytes.len() < 1 {
            Err(DecodingError::EndOfBytes)
        } else {
            Ok((1usize, bytes[0]))
        }
    }

    open spec fn shortfall(&self, buffer: Seq<u8>) -> (EncodingError, Seq<u8>) {
        too_small(buffer, 1)
    }

    fn encode(&self, buffer: &mut [u8]) -> (result: Result<usize, EncodingError>) {
        put_u8(buffer, 0, *self)
    }

    fn decode(bytes: &[u8]) -> (result: Result<(usize, u8), DecodingError>) {
        if bytes.len() < 1 {
            return Err(DecodingError::EndOfBytes);
        }
        Ok((1, bytes[0]))
    }
}

impl Message<Self> for u32 {
    open spec fn wire(&self) -> Seq<u8> {
        u32_le_bytes(*self)
    }

    open spec fn parse(bytes: Seq<u8>) -> Result<(usize, u32), DecodingError> {
        if bytes.len() < 4 {
            Err(DecodingError::EndOfBytes)
        } else {
            Ok((4usize, u32_from_le_bytes(bytes)))
        }
    }

    open spec fn shortfall(&self, buffer: Seq<u8>) -> (EncodingError, Seq<u8>) {
        too_small(buffer, 4)
    }

    fn encode(&self, buffer: &mut [u8]) -> (result: Result<usize, EncodingError>) {
        put_u32(buffer, 0, *self)
    }

    fn decode(bytes: &[u8]) -> (result: Result<(usize, u32), DecodingError>) {
        if bytes.len() < 4 {
            return Err(DecodingError::EndOfBytes);
        }
        Ok((4, get_u32(bytes, 0)))
    }
}

/// Reads the four bytes at `at` as a number, least significant byte first.
fn get_u32(bytes: &[u8], at: usize) -> (value: u32)
    requires
        at + 4 <= bytes@.len(),
    ensures
        value == u32_from_le_bytes(bytes@.skip(at as int)),
{
    let b0: u8 = bytes[at];
    let b1: u8 = bytes[at + 1];
    let b2: u8 = bytes[at + 2];
    let b3: u8 = bytes[at + 3];
    assert((b0 as u32) | ((b1 as u32) << 8) | ((b2 as u32) << 16) | ((b3 as u32) << 24) == b0
        + 256 * b1 + 65536 * b2 + 16777216 * b3) by (bit_vector);
    (b0 as u32) | ((b1 as u32) << 8) | ((b2 as u32) << 16) | ((b3 as u32) << 24)
}

/// Context reported for a state byte with a bit above the two channels set.
pub const STATE_CONTEXT: &'static str = "state byte has bits set above 0b11";

/// Context reported for a tag byte that names no variant.
pub const TAG_CONTEXT: &'static str = "unexpected prefix for ClientHostMessage";

/// Tag byte of `ClientHostMessage::Reading`.
pub const TAG_READING: u8 = 1;

/// Tag byte of `ClientHostMessage::FrequencyHertz`.
pub const TAG_FREQUENCY_HERTZ: u8 = 2;

/// Tag byte of `ClientHostMessage::Reset`.
pub const TAG_RESET: u8 = 3;

/// Tag byte of `ClientHostMessage::CurrentTime`.
pub const TAG_CURRENT_TIME: u8 = 4;

impl Message<Self> for State {
    open spec fn wire(&self) -> Seq<u8> {
        seq![self.bits()]
    }

    open spec fn parse(bytes: Seq<u8>) -> Result<(usize, State), DecodingError> {
        if bytes.len() < 1 {
            Err(DecodingError::EndOfBytes)
        } else if bytes[0] > STATE_MAX {
            Err(DecodingError::UnexpectedByte(bytes[0], STATE_CONTEXT))
        } else {
            Ok((1usize, State::from_bits(bytes[0])))
        }
    }

    open spec fn shortfall(&self, buffer: Seq<u8>) -> (EncodingError, Seq<u8>) {
        too_small(buffer, 1)
    }

    fn encode(&self, buffer: &mut [u8]) -> (result: Result<usize, EncodingError>) {
        put_u8(buffer, 0, self.data)
    }

    fn decode(bytes: &[u8]) -> (result: Result<(usize, State), DecodingError>)
        ensures
            result matches Ok((_, state)) ==> state.wf(),
    {
        if bytes.len() < 1 {
            return Err(DecodingError::EndOfBytes);
        }
        let byte: u8 = bytes[0];
        if byte > STATE_MAX {
            return Err(DecodingError::UnexpectedByte(byte, STATE_CONTEXT));
        }
        Ok((1, Self { data: byte }))
    }
}

impl Reading {
    /// A reading is valid when its state is.
    pub open spec fn wf(&self) -> bool {
        self.state.wf()
    }
}

/// Writes the wire image of `reading` at `at`: the state byte, then the
/// time. An undersized destination keeps the state byte if it had room
/// for it.
fn put_reading(buffer: &mut [u8], at: usize, reading: &Reading) -> (result: Result<
    usize,
    EncodingError,
>)
    requires
        at <= old(buffer)@.len(),
    ensures
        final(buffer)@.len() == old(buffer)@.len(),
        old(buffer)@.len() - at >= 5 ==> {
            &&& result == Ok::<usize, EncodingError>(5)
            &&& final(buffer)@ == overwrite(old(buffer)@, at as int, reading.wire())
        },
        old(buffer)@.len() - at < 5 ==> {
            &&& result == Err::<usize, EncodingError>(
                reading.shortfall(old(buffer)@.skip(at as int)).0,
            )
            &&& final(buffer)@ == old(buffer)@.take(at as int) + reading.shortfall(
                old(buffer)@.skip(at as int),
            ).1
        },
{
    let room = buffer.len() - at;
    let used = match put_u8(buffer, at, reading.state.data) {
        Ok(used) => used,
        Err(error) => { return Err(error); },
    };
    assert(used <= room);
    match put_u32(buffer, at + used, reading.time) {
        Ok(more) => Ok(used + more),
        Err(error) => Err(error),
    }
}

impl Message<Self> for Reading {
    open spec fn wire(&self) -> Seq<u8> {
        self.state.wire() + self.time.wire()
    }

    open spec fn parse(bytes: Seq<u8>) -> Result<(usize, Reading), DecodingError> {
        if bytes.len() < 1 {
            Err(DecodingError::EndOfBytes)
        } else if bytes[0] > STATE_MAX {
            Err(DecodingError::UnexpectedByte(bytes[0], STATE_CONTEXT))
        } else if bytes.len() < 5 {
            Err(DecodingError::EndOfBytes)
        } else {
            Ok(
                (
                    5usize,
                    Reading {
                        state: State::from_bits(bytes[0]),
                        time: u32_from_le_bytes(bytes.skip(1)),
                    },
                ),
            )
        }
    }

    open spec fn shortfall(&self, buffer: Seq<u8>) -> (EncodingError, Seq<u8>) {
        if buffer.len() < 1 {
            too_small(buffer, 1)
        } else {
            (
                EncodingError::BufferTooSmall((buffer.len() - 1) as usize, 4),
                buffer.update(0, self.state.bits()),
            )
        }
    }

    fn encode(&self, buffer: &mut [u8]) -> (result: Result<usize, EncodingError>) {
        put_reading(buffer, 0, self)
    }

    fn decode(bytes: &[u8]) -> (result: Result<(usize, Reading), DecodingError>)
        ensures
            result matches Ok((_, reading)) ==> reading.wf(),
    {
        let (used_state, state) = match State::decode(bytes) {
            Ok(pair) => pair,
            Err(error) => { return Err(error); },
        };
        let rest = &bytes[used_state..bytes.len()];
        let (used_time, time) = match u32::decode(rest) {
            Ok(pair) => pair,
            Err(error) => { return Err(error); },
        };
        Ok((used_state + used_time, Reading { state, time }))
    }
}

impl ClientHostMessage {
    /// A message is valid when the reading it carries, if any, is.
    pub open spec fn wf(&self) -> bool {
        match *self {
            ClientHostMessage::Reading(reading) => reading.wf(),
            _ => true,
        }
    }

    /// The byte that announces this variant on the wire.
    pub open spec fn tag(&self) -> u8 {
        match *self {
            ClientHostMessage::Reading(_) => TAG_READING,
            ClientHostMessage::FrequencyHertz(_) => TAG_FREQUENCY_HERTZ,
            ClientHostMessage::Reset(_) => TAG_RESET,
            ClientHostMessage::CurrentTime(_) => TAG_CURRENT_TIME,
        }
    }

    /// The wire image of what the variant carries.
    pub open spec fn payload(&self) -> Seq<u8> {
        match *self {
            ClientHostMessage::Reading(reading) => reading.wire(),
            ClientHostMessage::FrequencyHertz(hertz) => hertz.wire(),
            ClientHostMessage::Reset(channel) => channel.wire(),
            ClientHostMessage::CurrentTime(ticks) => ticks.wire(),
        }
    }

    /// What the payload's own encoder reports for an undersized `rest`,
    /// the destination behind the tag.
    pub open spec fn payload_shortfall(&self, rest: Seq<u8>) -> (EncodingError, Seq<u8>) {
        match *self {
            ClientHostMessage::Reading(reading) => reading.shortfall(rest),
            ClientHostMessage::FrequencyHertz(hertz) => hertz.shortfall(rest),
            ClientHostMessage::Reset(channel) => channel.shortfall(rest),
            ClientHostMessage::CurrentTime(ticks) => ticks.shortfall(rest),
        }
    }
}

impl Message<Self> for ClientHostMessage {
    open spec fn wire(&self) -> Seq<u8> {
        seq![self.tag()] + self.payload()
    }

    open spec fn parse(bytes: Seq<u8>) -> Result<(usize, ClientHostMessage), DecodingError> {
        if bytes.len() < 1 {
            Err(DecodingError::EndOfBytes)
        } else if bytes[0] == TAG_READING {
            match Reading::parse(bytes.skip(1)) {
                Ok((used, reading)) => Ok(((used + 1) as usize, ClientHostMessage::Reading(reading))),
                Err(error) => Err(error),
            }
        } else if bytes[0] == TAG_FREQUENCY_HERTZ {
            match u32::parse(bytes.skip(1)) {
                Ok((used, hertz)) => Ok(
                    ((used + 1) as usize, ClientHostMessage::FrequencyHertz(hertz)),
                ),
                Err(error) => Err(error),
            }
        } else if bytes[0] == TAG_RESET {
            match u8::parse(bytes.skip(1)) {
                Ok((used, channel)) => Ok(((used + 1) as usize, ClientHostMessage::Reset(channel))),
                Err(error) => Err(error),
            }
        } else if bytes[0] == TAG_CURRENT_TIME {
            match u32::parse(bytes.skip(1)) {
                Ok((used, ticks)) => Ok(((used + 1) as usize, ClientHostMessage::CurrentTime(ticks))),
                Err(error) => Err(error),
            }
        } else {
            Err(DecodingError::UnexpectedByte(bytes[0], TAG_CONTEXT))
        }
    }

    open spec fn shortfall(&self, buffer: Seq<u8>) -> (EncodingError, Seq<u8>) {
        if buffer.len() < 1 {
            too_small(buffer, 1)
        } else {
            (
                self.payload_shortfall(buffer.skip(1)).0,
                seq![self.tag()] + self.payload_shortfall(buffer.skip(1)).1,
            )
        }
    }

    fn encode(&self, buffer: &mut [u8]) -> (result: Result<usize, EncodingError>) {
        if buffer.len() < 1 {
            return Err(EncodingError::BufferTooSmall(buffer.len(), 1));
        }
        buffer[0] = match *self {
            ClientHostMessage::Reading(_) => TAG_READING,
            ClientHostMessage::FrequencyHertz(_) => TAG_FREQUENCY_HERTZ,
            ClientHostMessage::Reset(_) => TAG_RESET,
            ClientHostMessage::CurrentTime(_) => TAG_CURRENT_TIME,
        };
        let written = match *self {
            ClientHostMessage::Reading(ref reading) => put_reading(buffer, 1, reading),
            ClientHostMessage::FrequencyHertz(hertz) => put_u32(buffer, 1, hertz),
            ClientHostMessage::Reset(channel) => put_u8(buffer, 1, channel),
            ClientHostMessage::CurrentTime(ticks) => put_u32(buffer, 1, ticks),
        };
        match written {
            Ok(used) => Ok(used + 1),
            Err(error) => Err(error),
        }
    }

    fn decode(bytes: &[u8]) -> (result: Result<(usize, ClientHostMessage), DecodingError>)
        ensures
            result matches Ok((_, message)) ==> message.wf(),
    {
        if bytes.len() < 1 {
            return Err(DecodingError::EndOfBytes);
        }
        let tag: u8 = bytes[0];
        let rest = &bytes[1..bytes.len()];
        if tag == TAG_READING {
            match Reading::decode(rest) {
                Ok((used, reading)) => Ok((used + 1, ClientHostMessage::Reading(reading))),
                Err(error) => Err(error),
            }
        } else if tag == TAG_FREQUENCY_HERTZ {
            match u32::decode(rest) {
                Ok((used, hertz)) => Ok((used + 1, ClientHostMessage::FrequencyHertz(hertz))),
                Err(error) => Err(error),
            }
        } else if tag == TAG_RESET {
            match u8::decode(rest) {
                Ok((used, channel)) => Ok((used + 1, ClientHostMessage::Reset(channel))),
                Err(error) => Err(error),
            }
        } else if tag == TAG_CURRENT_TIME {
            match u32::decode(rest) {
                Ok((used, ticks)) => Ok((used + 1, ClientHostMessage::CurrentTime(ticks))),
                Err(error) => Err(error),
            }
        } else {
            Err(DecodingError::UnexpectedByte(tag, TAG_CONTEXT))
        }
    }
}

} // verus!
