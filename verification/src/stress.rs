//! Settings and statistics of the stress server.
use vstd::prelude::*;
use vstd::utf8::encode_utf8;

use crate::address::{IpAddr, SocketAddr};
use crate::text::{join_text, same_text, TextError};
use crate::time::Duration;

verus! {

/// The opcode of the requests that the stress server answers.
pub const STRESS_OPCODE: u64 = 1;

/// The settings of a stress server.
#[derive(Debug, Clone, Copy, PartialEq, Eq, Structural)]
pub struct StressServerConfig {
    pub bind: SocketAddr,
    pub server_threads: usize,
    pub response_bytes: usize,
    pub max_concurrent_requests_per_connection: usize,
    pub read_buffer_capacity: usize,
    pub response_buffer_capacity: usize,
    pub request_body_chunk_size: usize,
    pub request_body_channel_capacity: usize,
    pub low_memory: bool,
}

/// The settings without arguments, on a machine with this many logical CPUs.
pub open spec fn default_config(cpus: usize) -> StressServerConfig {
    StressServerConfig {
        bind: SocketAddr { ip: IpAddr::V4(0x7f00_0001), port: 7878, flow_info: 0, scope_id: 0 },
        server_threads: cpus,
        response_bytes: 64,
        max_concurrent_requests_per_connection: 8,
        read_buffer_capacity: 65536,
        response_buffer_capacity: 16384,
        request_body_chunk_size: 16384,
        request_body_channel_capacity: 8,
        low_memory: false,
    }
}

impl StressServerConfig {
    /// The settings without arguments, on a machine with this many logical CPUs.
    pub fn for_cpus(cpus: usize) -> (config: Self)
        ensures
            config == default_config(cpus),
    {
        Self {
            bind: SocketAddr::new(IpAddr::V4(0x7f00_0001), 7878),
            server_threads: cpus,
            response_bytes: 64,
            max_concurrent_requests_per_connection: 8,
            read_buffer_capacity: 65536,
            response_buffer_capacity: 16384,
            request_body_chunk_size: 16384,
            request_body_channel_capacity: 8,
            low_memory: false,
        }
    }
}

/// Why arguments are refused.
#[derive(Debug)]
pub enum ArgsError {
    UnknownArgument(String),
    MissingValue(String),
    /// The value of a count is no number, or too large.
    InvalidNumber(NumberError),
    /// The value of `--bind` is no socket address.
    InvalidAddress(String),
    NoThreads,
}

impl TextError for ArgsError {
    open spec fn text_of(&self) -> Seq<char> {
        match *self {
            ArgsError::UnknownArgument(argument) => "unknown argument: "@ + argument@,
            ArgsError::MissingValue(flag) => "missing value for "@ + flag@,
            ArgsError::InvalidNumber(NumberError::Empty) => "cannot parse integer from empty string"@,
            ArgsError::InvalidNumber(NumberError::InvalidDigit) => "invalid digit found in string"@,
            ArgsError::InvalidNumber(NumberError::TooLarge) => "number too large to fit in target type"@,
            ArgsError::InvalidAddress(_) => "invalid socket address syntax"@,
            ArgsError::NoThreads => "--server-threads must be greater than zero"@,
        }
    }

    fn to_text(&self) -> (text: String) {
        match self {
            ArgsError::UnknownArgument(argument) => join_text(
                "unknown argument: ",
                argument.as_str(),
            ),
            ArgsError::MissingValue(flag) => join_text("missing value for ", flag.as_str()),
            ArgsError::InvalidNumber(NumberError::Empty) => "cannot parse integer from empty string".to_owned(),
            ArgsError::InvalidNumber(NumberError::InvalidDigit) => "invalid digit found in string".to_owned(),
            ArgsError::InvalidNumber(NumberError::TooLarge) => "number too large to fit in target type".to_owned(),
            ArgsError::InvalidAddress(_) => "invalid socket address syntax".to_owned(),
            ArgsError::NoThreads => "--server-threads must be greater than zero".to_owned(),
        }
    }
}

/// What the arguments ask for.
#[derive(Debug)]
pub enum Command {
    Help,
    Serve(StressServerConfig),
}

/// Why a text is no number.
#[derive(Debug, Clone, Copy, PartialEq, Eq, Structural)]
pub enum NumberError {
    Empty,
    InvalidDigit,
    TooLarge,
}

/// The number that decimal digits spell. They are read from left to right, and the
/// first one that is no digit, or with which the number is too large, decides.
pub open spec fn digits_value(digits: Seq<u8>) -> Result<nat, NumberError>
    decreases digits.len(),
{
    if digits.len() == 0 {
        Ok(0)
    } else {
        let last = digits.last();
        match digits_value(digits.drop_last()) {
            Err(error) => Err(error),
            Ok(value) => if !(48 <= last <= 57) {
                Err(NumberError::InvalidDigit)
            } else if 10 * value + (last - 48) > usize::MAX {
                Err(NumberError::TooLarge)
            } else {
                Ok((10 * value + (last - 48)) as nat)
            },
        }
    }
}

/// The number that a text spells: digits, with a plus sign before them or without.
pub open spec fn number_of(text: Seq<u8>) -> Result<nat, NumberError> {
    if text.len() == 0 {
        Err(NumberError::Empty)
    } else if text[0] != 43 {
        digits_value(text)
    } else if text.len() == 1 {
        Err(NumberError::InvalidDigit)
    } else {
        digits_value(text.skip(1))
    }
}

/// What is wrong with some digits is wrong with more of them.
proof fn lemma_wrong_start(digits: Seq<u8>, count: int)
    requires
        0 <= count <= digits.len(),
        digits_value(digits.take(count)) is Err,
    ensures
        digits_value(digits) == digits_value(digits.take(count)),
    decreases digits.len(),
{
    if count == digits.len() {
        assert(digits.take(count) =~= digits);
    } else {
        assert(digits.drop_last().take(count) =~= digits.take(count));
        lemma_wrong_start(digits.drop_last(), count);
    }
}

/// The number that a text spells, or why it spells none.
pub fn parse_count(text: &str) -> (result: Result<usize, NumberError>)
    ensures
        match number_of(encode_utf8(text@)) {
            Ok(value) => result is Ok && result->Ok_0 == value,
            Err(error) => result == Err::<usize, _>(error),
        },
{
    let bytes = text.as_bytes();
    if bytes.len() == 0 {
        return Err(NumberError::Empty);
    }
    let start: usize = if bytes[0] == 43 {
        1
    } else {
        0
    };
    let ghost digits = bytes@.skip(start as int);
    assert(bytes@.skip(0) =~= bytes@);
    if start == bytes.len() {
        return Err(NumberError::InvalidDigit);
    }
    let mut value: usize = 0;
    let mut index: usize = start;
    assert(digits.take(0) =~= Seq::empty());
    while index < bytes.len()
        invariant
            start <= index <= bytes.len(),
            bytes@ == encode_utf8(text@),
            digits == bytes@.skip(start as int),
            digits.len() > 0,
            number_of(bytes@) == digits_value(digits),
            digits_value(digits.take(index - start)) == Ok::<nat, NumberError>(value as nat),
        decreases bytes.len() - index,
    {
        let byte = bytes[index];
        let ghost next = digits.take(index - start + 1);
        proof {
            assert(next.drop_last() =~= digits.take(index - start));
            assert(next.last() == byte);
            if digits_value(next) is Err {
                lemma_wrong_start(digits, index - start + 1);
            }
        }
        if byte < 48 || byte > 57 {
            return Err(NumberError::InvalidDigit);
        }
        let digit: usize = (byte - 48) as usize;
        value = match value.checked_mul(10) {
            Some(tenfold) => match tenfold.checked_add(digit) {
                Some(sum) => sum,
                None => {
                    return Err(NumberError::TooLarge);
                },
            },
            None => {
                return Err(NumberError::TooLarge);
            },
        };
        index += 1;
    }
    assert(digits.take(digits.len() as int) =~= digits);
    Ok(value)
}

/// The settings that are a count.
#[derive(Debug, Clone, Copy, PartialEq, Eq, Structural)]
pub enum CountFlag {
    ServerThreads,
    ResponseBytes,
    MaxConcurrentRequestsPerConnection,
    ReadBuffer,
    ResponseBuffer,
    RequestBodyChunkSize,
    RequestBodyChannelCapacity,
}

/// What one argument is.
pub enum ArgumentKind {
    Help,
    Bind,
    Count(CountFlag),
    LowMemory,
    Unknown,
}

/// What one argument is.
pub open spec fn kind_of(argument: Seq<char>) -> ArgumentKind {
    if argument == "--help"@ || argument == "-h"@ {
        ArgumentKind::Help
    } else if argument == "--bind"@ {
        ArgumentKind::Bind
    } else if argument == "--server-threads"@ {
        ArgumentKind::Count(CountFlag::ServerThreads)
    } else if argument == "--response-bytes"@ {
        ArgumentKind::Count(CountFlag::ResponseBytes)
    } else if argument == "--max-concurrent-requests-per-connection"@ {
        ArgumentKind::Count(CountFlag::MaxConcurrentRequestsPerConnection)
    } else if argument == "--read-buffer"@ {
        ArgumentKind::Count(CountFlag::ReadBuffer)
    } else if argument == "--response-buffer"@ {
        ArgumentKind::Count(CountFlag::ResponseBuffer)
    } else if argument == "--request-body-chunk-size"@ {
        ArgumentKind::Count(CountFlag::RequestBodyChunkSize)
    } else if argument == "--request-body-channel-capacity"@ {
        ArgumentKind::Count(CountFlag::RequestBodyChannelCapacity)
    } else if argument == "--low-memory"@ {
        ArgumentKind::LowMemory
    } else {
        ArgumentKind::Unknown
    }
}

fn classify(argument: &str) -> (kind: ArgumentKind)
    ensures
        kind == kind_of(argument@),
{
    if same_text(argument, "--help") || same_text(argument, "-h") {
        ArgumentKind::Help
    } else if same_text(argument, "--bind") {
        ArgumentKind::Bind
    } else if same_text(argument, "--server-threads") {
        ArgumentKind::Count(CountFlag::ServerThreads)
    } else if same_text(argument, "--response-bytes") {
        ArgumentKind::Count(CountFlag::ResponseBytes)
    } else if same_text(argument, "--max-concurrent-requests-per-connection") {
        ArgumentKind::Count(CountFlag::MaxConcurrentRequestsPerConnection)
    } else if same_text(argument, "--read-buffer") {
        ArgumentKind::Count(CountFlag::ReadBuffer)
    } else if same_text(argument, "--response-buffer") {
        ArgumentKind::Count(CountFlag::ResponseBuffer)
    } else if same_text(argument, "--request-body-chunk-size") {
        ArgumentKind::Count(CountFlag::RequestBodyChunkSize)
    } else if same_text(argument, "--request-body-channel-capacity") {
        ArgumentKind::Count(CountFlag::RequestBodyChannelCapacity)
    } else if same_text(argument, "--low-memory") {
        ArgumentKind::LowMemory
    } else {
        ArgumentKind::Unknown
    }
}

/// The settings with one count changed.
pub open spec fn with_count(config: StressServerConfig, flag: CountFlag, count: usize) -> StressServerConfig {
    match flag {
        CountFlag::ServerThreads => StressServerConfig { server_threads: count, ..config },
        CountFlag::ResponseBytes => StressServerConfig { response_bytes: count, ..config },
        CountFlag::MaxConcurrentRequestsPerConnection => StressServerConfig {
            max_concurrent_requests_per_connection: count,
            ..config
        },
        CountFlag::ReadBuffer => StressServerConfig { read_buffer_capacity: count, ..config },
        CountFlag::ResponseBuffer => StressServerConfig { response_buffer_capacity: count, ..config },
        CountFlag::RequestBodyChunkSize => StressServerConfig {
            request_body_chunk_size: count,
            ..config
        },
        CountFlag::RequestBodyChannelCapacity => StressServerConfig {
            request_body_channel_capacity: count,
            ..config
        },
    }
}

impl StressServerConfig {
    fn set(&mut self, flag: CountFlag, count: usize)
        ensures
            *final(self) == with_count(*old(self), flag, count),
    {
        match flag {
            CountFlag::ServerThreads => {
                self.server_threads = count;
            },
            CountFlag::ResponseBytes => {
                self.response_bytes = count;
            },
            CountFlag::MaxConcurrentRequestsPerConnection => {
                self.max_concurrent_requests_per_connection = count;
            },
            CountFlag::ReadBuffer => {
                self.read_buffer_capacity = count;
            },
            CountFlag::ResponseBuffer => {
                self.response_buffer_capacity = count;
            },
            CountFlag::RequestBodyChunkSize => {
                self.request_body_chunk_size = count;
            },
            CountFlag::RequestBodyChannelCapacity => {
                self.request_body_channel_capacity = count;
            },
        }
    }
}

/// What arguments lead to. Texts stand by their characters.
pub enum Reading {
    Help,
    Serve(StressServerConfig),
    UnknownArgument(Seq<char>),
    MissingValue(Seq<char>),
    InvalidNumber(NumberError),
    InvalidAddress(Seq<char>),
    NoThreads,
}

/// What the arguments from `index` on lead to, with the settings so far. They are
/// read from left to right, and the first one that decides does so.
pub open spec fn reading(
    args: Seq<Seq<char>>,
    addresses: Seq<Option<SocketAddr>>,
    index: int,
    config: StressServerConfig,
) -> Reading
    decreases args.len() - index,
{
    if index < 0 || index >= args.len() {
        if config.server_threads == 0 {
            Reading::NoThreads
        } else {
            Reading::Serve(config)
        }
    } else {
        match kind_of(args[index]) {
            ArgumentKind::Help => Reading::Help,
            ArgumentKind::Unknown => Reading::UnknownArgument(args[index]),
            ArgumentKind::LowMemory => reading(
                args,
                addresses,
                index + 1,
                StressServerConfig { low_memory: true, ..config },
            ),
            ArgumentKind::Bind => if index + 1 >= args.len() {
                Reading::MissingValue(args[index])
            } else {
                match addresses[index + 1] {
                    Some(bind) => reading(
                        args,
                        addresses,
                        index + 2,
                        StressServerConfig { bind, ..config },
                    ),
                    None => Reading::InvalidAddress(args[index + 1]),
                }
            },
            ArgumentKind::Count(flag) => if index + 1 >= args.len() {
                Reading::MissingValue(args[index])
            } else {
                match number_of(encode_utf8(args[index + 1])) {
                    Ok(count) => reading(
                        args,
                        addresses,
                        index + 2,
                        with_count(config, flag, count as usize),
                    ),
                    Err(error) => Reading::InvalidNumber(error),
                }
            },
        }
    }
}

/// The texts of arguments.
pub open spec fn texts(args: Seq<String>) -> Seq<Seq<char>> {
    args.map_values(|arg: String| arg@)
}

/// Whether a result says what a reading says.
pub open spec fn says(result: Result<Command, ArgsError>, reading: Reading) -> bool {
    match reading {
        Reading::Help => result == Ok::<_, ArgsError>(Command::Help),
        Reading::Serve(config) => result == Ok::<_, ArgsError>(Command::Serve(config)),
        Reading::UnknownArgument(text) => result matches Err(ArgsError::UnknownArgument(own))
            && own@ == text,
        Reading::MissingValue(text) => result matches Err(ArgsError::MissingValue(own)) && own@
            == text,
        Reading::InvalidNumber(error) => result == Err::<Command, _>(
            ArgsError::InvalidNumber(error),
        ),
        Reading::InvalidAddress(text) => result matches Err(ArgsError::InvalidAddress(own)) && own@
            == text,
        Reading::NoThreads => result == Err::<Command, _>(ArgsError::NoThreads),
    }
}

/// What the arguments of a stress server ask for, on a machine with this many
/// logical CPUs. `addresses` holds what each argument is as a socket address.
pub fn parse_args(args: &Vec<String>, addresses: &Vec<Option<SocketAddr>>, cpus: usize) -> (result:
    Result<Command, ArgsError>)
    requires
        addresses.len() == args.len(),
    ensures
        says(result, reading(texts(args@), addresses@, 0, default_config(cpus))),
{
    let mut config = StressServerConfig::for_cpus(cpus);
    let mut index: usize = 0;
    while index < args.len()
        invariant
            index <= args.len(),
            addresses.len() == args.len(),
            reading(texts(args@), addresses@, index as int, config) == reading(
                texts(args@),
                addresses@,
                0,
                default_config(cpus),
            ),
        decreases args.len() - index,
    {
        let argument = args[index].as_str();
        assert(texts(args@)[index as int] == argument@);
        match classify(argument) {
            ArgumentKind::Help => {
                return Ok(Command::Help);
            },
            ArgumentKind::Unknown => {
                return Err(ArgsError::UnknownArgument(argument.to_owned()));
            },
            ArgumentKind::LowMemory => {
                config.low_memory = true;
                index += 1;
            },
            ArgumentKind::Bind => {
                if args.len() - index < 2 {
                    return Err(ArgsError::MissingValue(argument.to_owned()));
                }
                let value = args[index + 1].as_str();
                assert(texts(args@)[index + 1] == value@);
                config.bind = match addresses[index + 1] {
                    Some(bind) => bind,
                    None => {
                        return Err(ArgsError::InvalidAddress(value.to_owned()));
                    },
                };
                index += 2;
            },
            ArgumentKind::Count(flag) => {
                if args.len() - index < 2 {
                    return Err(ArgsError::MissingValue(argument.to_owned()));
                }
                let value = args[index + 1].as_str();
                assert(texts(args@)[index + 1] == value@);
                let count: usize = match parse_count(value) {
                    Ok(count) => count,
                    Err(error) => {
                        return Err(ArgsError::InvalidNumber(error));
                    },
                };
                config.set(flag, count);
                index += 2;
            },
        }
    }
    if config.server_threads == 0 {
        return Err(ArgsError::NoThreads);
    }
    Ok(Command::Serve(config))
}

/// The payload of every response: `response_bytes` times the same byte.
pub fn response_payload(config: &StressServerConfig) -> (payload: Vec<u8>)
    ensures
        payload@ == Seq::new(config.response_bytes as nat, |i: int| 0x5au8),
{
    let mut payload: Vec<u8> = Vec::new();
    let mut index: usize = 0;
    while index < config.response_bytes
        invariant
            index <= config.response_bytes,
            payload@ == Seq::new(index as nat, |i: int| 0x5au8),
        decreases config.response_bytes - index,
    {
        payload.push(0x5a);
        index += 1;
        assert(payload@ =~= Seq::new(index as nat, |i: int| 0x5au8));
    }
    payload
}

/// The counters of a stress server at one moment.
#[derive(Debug, Clone, Copy, PartialEq, Eq, Structural)]
pub struct StressServerStatsSnapshot {
    pub uptime: Duration,
    pub active_connections: u64,
    pub accepted_connections: u64,
    pub completed_connections: u64,
    pub failed_connections: u64,
    pub active_requests: u64,
    pub completed_requests: u64,
    pub failed_requests: u64,
    pub request_body_bytes: u64,
    pub response_body_bytes: u64,
}

/// What was counted between two moments, and how long that took.
#[derive(Debug, Clone, Copy, PartialEq, Eq, Structural)]
pub struct StressServerStatsDelta {
    pub elapsed: Duration,
    pub accepted_connections: u64,
    pub completed_connections: u64,
    pub failed_connections: u64,
    pub completed_requests: u64,
    pub failed_requests: u64,
    pub request_body_bytes: u64,
    pub response_body_bytes: u64,
}

/// The growth of a counter, which never goes below zero.
pub open spec fn growth(now: u64, before: u64) -> u64 {
    if now >= before {
        (now - before) as u64
    } else {
        0
    }
}

fn grown(now: u64, before: u64) -> (delta: u64)
    ensures
        delta == growth(now, before),
{
    if now >= before {
        now - before
    } else {
        0
    }
}

impl StressServerStatsSnapshot {
    /// What was counted since `previous`, or since the start.
    pub fn since(&self, previous: Option<StressServerStatsSnapshot>) -> (delta:
        StressServerStatsDelta)
        ensures
            match previous {
                Some(previous) => {
                    &&& delta.elapsed@ == if self.uptime@ >= previous.uptime@ {
                        self.uptime@ - previous.uptime@
                    } else {
                        0
                    }
                    &&& delta.accepted_connections == growth(
                        self.accepted_connections,
                        previous.accepted_connections,
                    )
                    &&& delta.completed_connections == growth(
                        self.completed_connections,
                        previous.completed_connections,
                    )
                    &&& delta.failed_connections == growth(
                        self.failed_connections,
                        previous.failed_connections,
                    )
                    &&& delta.completed_requests == growth(
                        self.completed_requests,
                        previous.completed_requests,
                    )
                    &&& delta.failed_requests == growth(
                        self.failed_requests,
                        previous.failed_requests,
                    )
                    &&& delta.request_body_bytes == growth(
                        self.request_body_bytes,
                        previous.request_body_bytes,
                    )
                    &&& delta.response_body_bytes == growth(
                        self.response_body_bytes,
                        previous.response_body_bytes,
                    )
                },
                None => delta == (StressServerStatsDelta {
                    elapsed: self.uptime,
                    accepted_connections: self.accepted_connections,
                    completed_connections: self.completed_connections,
                    failed_connections: self.failed_connections,
                    completed_requests: self.completed_requests,
                    failed_requests: self.failed_requests,
                    request_body_bytes: self.request_body_bytes,
                    response_body_bytes: self.response_body_bytes,
                }),
            },
    {
        match previous {
            Some(previous) => StressServerStatsDelta {
                elapsed: self.uptime.saturating_sub(previous.uptime),
                accepted_connections: grown(
                    self.accepted_connections,
                    previous.accepted_connections,
                ),
                completed_connections: grown(
                    self.completed_connections,
                    previous.completed_connections,
                ),
                failed_connections: grown(self.failed_connections, previous.failed_connections),
                completed_requests: grown(self.completed_requests, previous.completed_requests),
                failed_requests: grown(self.failed_requests, previous.failed_requests),
                request_body_bytes: grown(self.request_body_bytes, previous.request_body_bytes),
                response_body_bytes: grown(
                    self.response_body_bytes,
                    previous.response_body_bytes,
                ),
            },
            None => StressServerStatsDelta {
                elapsed: self.uptime,
                accepted_connections: self.accepted_connections,
                completed_connections: self.completed_connections,
                failed_connections: self.failed_connections,
                completed_requests: self.completed_requests,
                failed_requests: self.failed_requests,
                request_body_bytes: self.request_body_bytes,
                response_body_bytes: self.response_body_bytes,
            },
        }
    }
}

/// The number that decimal digits spell, however large.
pub open spec fn digits_spell(digits: Seq<u8>) -> int
    decreases digits.len(),
{
    if digits.len() == 0 {
        0
    } else {
        10 * digits_spell(digits.drop_last()) + (digits.last() - 48)
    }
}

/// Whether all bytes are decimal digits.
pub open spec fn all_digits(text: Seq<u8>) -> bool {
    forall|i: int| 0 <= i < text.len() ==> 48 <= #[trigger] text[i] <= 57
}

/// Digits are read as the number that they spell, exactly while it can be counted.
pub proof fn law_digits_are_read_as_they_spell(digits: Seq<u8>)
    ensures
        all_digits(digits) ==> digits_spell(digits) >= 0,
        all_digits(digits) && digits_spell(digits) <= usize::MAX ==> digits_value(digits) == Ok::<
            nat,
            NumberError,
        >(digits_spell(digits) as nat),
        all_digits(digits) && digits_spell(digits) > usize::MAX ==> digits_value(digits) == Err::<
            nat,
            NumberError,
        >(NumberError::TooLarge),
        !all_digits(digits) ==> digits_value(digits) is Err,
    decreases digits.len(),
{
    if digits.len() > 0 {
        let front = digits.drop_last();
        law_digits_are_read_as_they_spell(front);
        if all_digits(digits) {
            assert forall|i: int| 0 <= i < front.len() implies 48 <= #[trigger] front[i] <= 57 by {
                assert(front[i] == digits[i]);
            }
            assert(48 <= digits[digits.len() - 1] <= 57);
        } else if all_digits(front) {
            assert forall|i: int| 0 <= i < digits.len() && 48 <= digits.last() <= 57 implies 48
                <= #[trigger] digits[i] <= 57 by {
                if i < front.len() {
                    assert(digits[i] == front[i]);
                }
            }
        }
    }
}

/// The first byte that is no digit makes digits invalid, where those before it can
/// be counted.
pub proof fn law_other_bytes_are_no_digits(digits: Seq<u8>, place: int)
    requires
        0 <= place < digits.len(),
        !(48 <= digits[place] <= 57),
        all_digits(digits.take(place)),
        digits_spell(digits.take(place)) <= usize::MAX,
    ensures
        digits_value(digits) == Err::<nat, NumberError>(NumberError::InvalidDigit),
{
    let front = digits.take(place);
    let wrong = digits.take(place + 1);
    law_digits_are_read_as_they_spell(front);
    assert(wrong.drop_last() =~= front);
    assert(wrong.last() == digits[place]);
    lemma_wrong_start(digits, place + 1);
}

/// A count is written in decimal digits, with or without a plus before them. It is
/// read exactly if there are only digits and the number can be counted.
pub proof fn law_counts_are_read_in_decimal(text: Seq<u8>)
    ensures
        text.len() == 0 ==> number_of(text) == Err::<nat, NumberError>(NumberError::Empty),
        text.len() > 0 && all_digits(text) && digits_spell(text) <= usize::MAX ==> number_of(text)
            == Ok::<nat, NumberError>(digits_spell(text) as nat) && number_of(seq![43u8] + text)
            == number_of(text),
        text.len() > 0 && all_digits(text) && digits_spell(text) > usize::MAX ==> number_of(text)
            == Err::<nat, NumberError>(NumberError::TooLarge),
        text.len() > 0 && text[0] != 43 && !all_digits(text) ==> number_of(text) is Err
            && number_of(seq![43u8] + text) is Err,
        number_of(seq![43u8]) == Err::<nat, NumberError>(NumberError::InvalidDigit),
{
    law_digits_are_read_as_they_spell(text);
    let signed = seq![43u8] + text;
    assert(signed.skip(1) =~= text);
    if text.len() > 0 && all_digits(text) {
        assert(48 <= text[0]);
    }
}

/// A counted flag sets its own setting to the count and no other.
pub proof fn law_flags_set_their_own_setting(
    config: StressServerConfig,
    flag: CountFlag,
    count: usize,
)
    ensures
        ({
            let set = with_count(config, flag, count);
            &&& set.bind == config.bind
            &&& set.low_memory == config.low_memory
            &&& set.server_threads == if flag is ServerThreads {
                count
            } else {
                config.server_threads
            }
            &&& set.response_bytes == if flag is ResponseBytes {
                count
            } else {
                config.response_bytes
            }
            &&& set.max_concurrent_requests_per_connection
                == if flag is MaxConcurrentRequestsPerConnection {
                count
            } else {
                config.max_concurrent_requests_per_connection
            }
            &&& set.read_buffer_capacity == if flag is ReadBuffer {
                count
            } else {
                config.read_buffer_capacity
            }
            &&& set.response_buffer_capacity == if flag is ResponseBuffer {
                count
            } else {
                config.response_buffer_capacity
            }
            &&& set.request_body_chunk_size == if flag is RequestBodyChunkSize {
                count
            } else {
                config.request_body_chunk_size
            }
            &&& set.request_body_channel_capacity == if flag is RequestBodyChannelCapacity {
                count
            } else {
                config.request_body_channel_capacity
            }
        }),
{
}

/// An argument is known by its name alone, and one that has none of the names is
/// unknown.
pub proof fn law_arguments_are_known_by_name(argument: Seq<char>)
    ensures
        kind_of(argument) is Help <==> argument == "--help"@ || argument == "-h"@,
        kind_of(argument) is Bind ==> argument == "--bind"@,
        kind_of(argument) is LowMemory ==> argument == "--low-memory"@,
        kind_of(argument) matches ArgumentKind::Count(flag) ==> argument == match flag {
            CountFlag::ServerThreads => "--server-threads"@,
            CountFlag::ResponseBytes => "--response-bytes"@,
            CountFlag::MaxConcurrentRequestsPerConnection =>
                "--max-concurrent-requests-per-connection"@,
            CountFlag::ReadBuffer => "--read-buffer"@,
            CountFlag::ResponseBuffer => "--response-buffer"@,
            CountFlag::RequestBodyChunkSize => "--request-body-chunk-size"@,
            CountFlag::RequestBodyChannelCapacity => "--request-body-channel-capacity"@,
        },
        kind_of(argument) is Unknown <==> {
            &&& argument != "--help"@
            &&& argument != "-h"@
            &&& argument != "--bind"@
            &&& argument != "--low-memory"@
            &&& argument != "--server-threads"@
            &&& argument != "--response-bytes"@
            &&& argument != "--max-concurrent-requests-per-connection"@
            &&& argument != "--read-buffer"@
            &&& argument != "--response-buffer"@
            &&& argument != "--request-body-chunk-size"@
            &&& argument != "--request-body-channel-capacity"@
        },
{
}

/// Arguments are read from the front. A flag with a value takes the argument behind
/// it, and fails without one or with one that it cannot read; the first argument that
/// is unknown or asks for help ends the reading, and so does the end, where at least
/// one thread must be left.
pub proof fn law_arguments_are_read_from_the_front(
    args: Seq<Seq<char>>,
    addresses: Seq<Option<SocketAddr>>,
    index: int,
    config: StressServerConfig,
)
    requires
        0 <= index <= args.len(),
        addresses.len() == args.len(),
    ensures
        ({
            let outcome = reading(args, addresses, index, config);
            &&& index == args.len() && config.server_threads > 0 ==> outcome == Reading::Serve(
                config,
            )
            &&& index == args.len() && config.server_threads == 0 ==> outcome is NoThreads
            &&& index < args.len() && kind_of(args[index]) is Help ==> outcome is Help
            &&& index < args.len() && kind_of(args[index]) is Unknown ==> outcome
                == Reading::UnknownArgument(args[index])
            &&& index == args.len() - 1 && (kind_of(args[index]) is Bind || kind_of(
                args[index],
            ) is Count) ==> outcome == Reading::MissingValue(args[index])
            &&& index < args.len() && kind_of(args[index]) is LowMemory ==> outcome == reading(
                args,
                addresses,
                index + 1,
                StressServerConfig { low_memory: true, ..config },
            )
            &&& index + 1 < args.len() && kind_of(args[index]) is Bind ==> match addresses[index
                + 1] {
                None => outcome == Reading::InvalidAddress(args[index + 1]),
                Some(bind) => outcome == reading(
                    args,
                    addresses,
                    index + 2,
                    StressServerConfig { bind, ..config },
                ),
            }
            &&& index + 1 < args.len() ==> (kind_of(args[index]) matches ArgumentKind::Count(flag)
                ==> match number_of(encode_utf8(args[index + 1])) {
                Err(error) => outcome == Reading::InvalidNumber(error),
                Ok(count) => outcome == reading(
                    args,
                    addresses,
                    index + 2,
                    with_count(config, flag, count as usize),
                ),
            })
        }),
{
}

/// Statistics since an earlier moment make up, with those of that moment, what is
/// counted now; a counter that went back has not grown. Without an earlier moment
/// they are all that is counted.
pub proof fn law_growth_makes_up_the_count(
    now: StressServerStatsSnapshot,
    previous: StressServerStatsSnapshot,
    delta: StressServerStatsDelta,
    whole: StressServerStatsDelta,
)
    requires
        call_ensures(StressServerStatsSnapshot::since, (&now, Some(previous)), delta),
        call_ensures(
            StressServerStatsSnapshot::since,
            (&now, None::<StressServerStatsSnapshot>),
            whole,
        ),
    ensures
        forall|count: u64, earlier: u64|
            count >= earlier ==> #[trigger] growth(count, earlier) + earlier == count,
        forall|count: u64, earlier: u64| count < earlier ==> #[trigger] growth(count, earlier) == 0,
        now.uptime@ >= previous.uptime@ ==> delta.elapsed@ + previous.uptime@ == now.uptime@,
        now.accepted_connections >= previous.accepted_connections ==> delta.accepted_connections
            + previous.accepted_connections == now.accepted_connections,
        now.completed_connections >= previous.completed_connections ==> delta.completed_connections
            + previous.completed_connections == now.completed_connections,
        now.failed_connections >= previous.failed_connections ==> delta.failed_connections
            + previous.failed_connections == now.failed_connections,
        now.completed_requests >= previous.completed_requests ==> delta.completed_requests
            + previous.completed_requests == now.completed_requests,
        now.failed_requests >= previous.failed_requests ==> delta.failed_requests
            + previous.failed_requests == now.failed_requests,
        now.request_body_bytes >= previous.request_body_bytes ==> delta.request_body_bytes
            + previous.request_body_bytes == now.request_body_bytes,
        now.response_body_bytes >= previous.response_body_bytes ==> delta.response_body_bytes
            + previous.response_body_bytes == now.response_body_bytes,
        whole.elapsed == now.uptime,
        whole.accepted_connections == now.accepted_connections,
        whole.completed_connections == now.completed_connections,
        whole.failed_connections == now.failed_connections,
        whole.completed_requests == now.completed_requests,
        whole.failed_requests == now.failed_requests,
        whole.request_body_bytes == now.request_body_bytes,
        whole.response_body_bytes == now.response_body_bytes,
{
}

/// A response has as many bytes as were asked for, all the same.
pub proof fn law_responses_have_the_size_asked_for(config: StressServerConfig, payload: Vec<u8>)
    requires
        call_ensures(response_payload, (&config,), payload),
    ensures
        payload@.len() == config.response_bytes,
        forall|i: int| 0 <= i < payload@.len() ==> #[trigger] payload@[i] == 90,
{
}

/// By default a server has a thread for each processor and listens on port 7878 of
/// this machine alone.
pub proof fn law_servers_have_a_thread_for_each_processor(
    cpus: usize,
    config: StressServerConfig,
)
    requires
        call_ensures(StressServerConfig::for_cpus, (cpus,), config),
    ensures
        config.server_threads == cpus,
        config.bind.ip == IpAddr::V4(0x7f00_0001),
        config.bind.port == 7878,
        config.response_bytes == 64,
        !config.low_memory,
{
}

} // verus!
