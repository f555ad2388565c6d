//! Proxy configuration: the settings and their defaults, the checks on universe,
//! packet size and frame rate, and the text of each configuration error. Reading the
//! environment is the caller's part: it hands over what each variable holds.

use vstd::prelude::*;

verus! {

/// Art-Net addresses universes with 15 bits (8-bit subuni + 7-bit net).
pub const MAX_UNIVERSE: u16 = 32_767;

/// Smallest accepted number of channels per frame.
pub const MIN_PACKET_SIZE: u16 = 2;

/// Largest accepted number of channels per frame.
pub const MAX_PACKET_SIZE: u16 = 512;

/// Universe used when `UNIVERSE` is not set.
pub const DEFAULT_UNIVERSE: u16 = 0;

/// Channels per frame when `PACKET_SIZE` is not set.
pub const DEFAULT_PACKET_SIZE: u16 = 512;

/// Frame rate when `FPS` is not set.
pub const DEFAULT_FPS: u32 = 40;

/// Controller address when `TARGET_IP` is not set: 169.254.0.2.
pub const DEFAULT_TARGET_IP: [u8; 4] = [169, 254, 0, 2];

/// The environment variables the proxy reads.
#[derive(Clone, Copy, Debug, PartialEq, Eq, Structural)]
pub enum SettingKey {
    Url,
    ApiKey,
    LogLevel,
    TargetIp,
    Universe,
    PacketSize,
    Fps,
}

/// Why a variable's text is not an acceptable value.
#[derive(Clone, Copy, Debug, PartialEq, Eq, Structural)]
pub enum ParseFailure {
    /// The text is empty.
    Empty,
    /// The text holds a character that is no digit, or a sign on its own.
    InvalidDigit,
    /// The number is too large for the variable.
    TooLarge,
    /// The text is no IPv4 address.
    BadAddress,
}

/// Why a configuration was refused.
#[derive(Clone, Copy, Debug, PartialEq, Eq, Structural)]
pub enum ConfigError {
    /// A required variable is not set.
    Missing(SettingKey),
    /// A variable is set to something that does not parse, and why.
    InvalidValue(SettingKey, ParseFailure),
    /// The universe is above `MAX_UNIVERSE`.
    UniverseOutOfRange(u16),
    /// The packet size is outside `MIN_PACKET_SIZE..=MAX_PACKET_SIZE`.
    PacketSizeOutOfRange(u16),
    /// The packet size is odd.
    PacketSizeOdd(u16),
    /// The frame rate is zero.
    FpsZero,
}

/// The variable's name in the environment.
pub open spec fn key_text(key: SettingKey) -> Seq<char> {
    match key {
        SettingKey::Url => "URL"@,
        SettingKey::ApiKey => "API_KEY"@,
        SettingKey::LogLevel => "LOG_LEVEL"@,
        SettingKey::TargetIp => "TARGET_IP"@,
        SettingKey::Universe => "UNIVERSE"@,
        SettingKey::PacketSize => "PACKET_SIZE"@,
        SettingKey::Fps => "FPS"@,
    }
}

/// The character of a decimal digit `d < 10`.
pub open spec fn digit_char(d: nat) -> char {
    (d + 48) as char
}

/// `n` written in decimal, without sign or leading zeros.
pub open spec fn decimal_text(n: nat) -> Seq<char>
    decreases n,
{
    if n < 10 {
        seq![digit_char(n)]
    } else {
        decimal_text(n / 10).push(digit_char(n % 10))
    }
}

/// The text that says why a value does not parse.
pub open spec fn failure_text(f: ParseFailure) -> Seq<char> {
    match f {
        ParseFailure::Empty => "cannot parse integer from empty string"@,
        ParseFailure::InvalidDigit => "invalid digit found in string"@,
        ParseFailure::TooLarge => "number too large to fit in target type"@,
        ParseFailure::BadAddress => "invalid IPv4 address syntax"@,
    }
}

/// The message that reports `e`.
pub open spec fn error_text(e: ConfigError) -> Seq<char> {
    match e {
        ConfigError::Missing(key) => key_text(key) + " env var is required"@,
        ConfigError::InvalidValue(key, why) => "invalid value for "@ + key_text(key) + ": "@
            + failure_text(why),
        ConfigError::UniverseOutOfRange(u) => "UNIVERSE must be in 0..=32767, got "@
            + decimal_text(u as nat),
        ConfigError::PacketSizeOutOfRange(p) => "PACKET_SIZE must be in 2..=512, got "@
            + decimal_text(p as nat),
        ConfigError::PacketSizeOdd(p) => "PACKET_SIZE must be even, got "@ + decimal_text(p as nat),
        ConfigError::FpsZero => "FPS must be greater than 0"@,
    }
}

impl SettingKey {
    /// The variable's name in the environment.
    pub fn name(&self) -> (name: &'static str)
        ensures
            name@ == key_text(*self),
    {
        match self {
            SettingKey::Url => "URL",
            SettingKey::ApiKey => "API_KEY",
            SettingKey::LogLevel => "LOG_LEVEL",
            SettingKey::TargetIp => "TARGET_IP",
            SettingKey::Universe => "UNIVERSE",
            SettingKey::PacketSize => "PACKET_SIZE",
            SettingKey::Fps => "FPS",
        }
    }
}

/// The one-character text of the digit `d`.
fn digit_str(d: u32) -> (s: &'static str)
    requires
        d < 10,
    ensures
        s@ == seq![digit_char(d as nat)],
{
    proof {
        reveal_strlit("0");
        reveal_strlit("1");
        reveal_strlit("2");
        reveal_strlit("3");
        reveal_strlit("4");
        reveal_strlit("5");
        reveal_strlit("6");
        reveal_strlit("7");
        reveal_strlit("8");
        reveal_strlit("9");
    }
    if d == 0 {
        "0"
    } else if d == 1 {
        "1"
    } else if d == 2 {
        "2"
    } else if d == 3 {
        "3"
    } else if d == 4 {
        "4"
    } else if d == 5 {
        "5"
    } else if d == 6 {
        "6"
    } else if d == 7 {
        "7"
    } else if d == 8 {
        "8"
    } else {
        "9"
    }
}

/// `n` written in decimal.
pub fn decimal_string(n: u32) -> (s: String)
    ensures
        s@ == decimal_text(n as nat),
    decreases n,
{
    if n < 10 {
        String::from_str(digit_str(n))
    } else {
        let mut s = decimal_string(n / 10);
        s.append(digit_str(n % 10));
        s
    }
}

impl ParseFailure {
    /// The text that says why the value does not parse.
    pub fn text(&self) -> (t: &'static str)
        ensures
            t@ == failure_text(*self),
    {
        match self {
            ParseFailure::Empty => "cannot parse integer from empty string",
            ParseFailure::InvalidDigit => "invalid digit found in string",
            ParseFailure::TooLarge => "number too large to fit in target type",
            ParseFailure::BadAddress => "invalid IPv4 address syntax",
        }
    }
}

impl ConfigError {
    /// The message that reports this error.
    pub fn message(&self) -> (text: String)
        ensures
            text@ == error_text(*self),
    {
        match self {
            ConfigError::Missing(key) => {
                let mut s = String::from_str(key.name());
                s.append(" env var is required");
                s
            },
            ConfigError::InvalidValue(key, why) => {
                let mut s = String::from_str("invalid value for ");
                s.append(key.name());
                s.append(": ");
                s.append(why.text());
                s
            },
            ConfigError::UniverseOutOfRange(u) => {
                let mut s = String::from_str("UNIVERSE must be in 0..=32767, got ");
                s.append(decimal_string(*u as u32).as_str());
                s
            },
            ConfigError::PacketSizeOutOfRange(p) => {
                let mut s = String::from_str("PACKET_SIZE must be in 2..=512, got ");
                s.append(decimal_string(*p as u32).as_str());
                s
            },
            ConfigError::PacketSizeOdd(p) => {
                let mut s = String::from_str("PACKET_SIZE must be even, got ");
                s.append(decimal_string(*p as u32).as_str());
                s
            },
            ConfigError::FpsZero => String::from_str("FPS must be greater than 0"),
        }
    }
}

/// Accept a universe that fits the 15-bit port address.
pub fn validate_universe(universe: u16) -> (r: Result<u16, ConfigError>)
    ensures
        universe <= MAX_UNIVERSE ==> r == Ok::<u16, ConfigError>(universe),
        universe > MAX_UNIVERSE ==> r == Err::<u16, ConfigError>(
            ConfigError::UniverseOutOfRange(universe),
        ),
        r is Ok <==> universe <= 32767,
{
    if universe > MAX_UNIVERSE {
        return Err(ConfigError::UniverseOutOfRange(universe));
    }
    Ok(universe)
}

/// Accept an even packet size in `MIN_PACKET_SIZE..=MAX_PACKET_SIZE`.
pub fn validate_packet_size(packet_size: u16) -> (r: Result<u16, ConfigError>)
    ensures
        !(MIN_PACKET_SIZE <= packet_size <= MAX_PACKET_SIZE) ==> r == Err::<u16, ConfigError>(
            ConfigError::PacketSizeOutOfRange(packet_size),
        ),
        MIN_PACKET_SIZE <= packet_size <= MAX_PACKET_SIZE && packet_size % 2 == 1 ==> r == Err::<
            u16,
            ConfigError,
        >(ConfigError::PacketSizeOdd(packet_size)),
        MIN_PACKET_SIZE <= packet_size <= MAX_PACKET_SIZE && packet_size % 2 == 0 ==> r == Ok::<
            u16,
            ConfigError,
        >(packet_size),
        r is Ok <==> 2 <= packet_size <= 512 && packet_size % 2 == 0,
{
    if !(MIN_PACKET_SIZE <= packet_size && packet_size <= MAX_PACKET_SIZE) {
        return Err(ConfigError::PacketSizeOutOfRange(packet_size));
    }
    if !packet_size.is_multiple_of(2) {
        return Err(ConfigError::PacketSizeOdd(packet_size));
    }
    Ok(packet_size)
}

/// Accept any frame rate but zero.
pub fn validate_fps(fps: u32) -> (r: Result<u32, ConfigError>)
    ensures
        fps == 0 ==> r == Err::<u32, ConfigError>(ConfigError::FpsZero),
        fps != 0 ==> r == Ok::<u32, ConfigError>(fps),
        r is Ok <==> fps >= 1,
{
    if fps == 0 {
        return Err(ConfigError::FpsZero);
    }
    Ok(fps)
}

/// An ASCII decimal digit.
pub open spec fn is_decimal_digit(c: char) -> bool {
    48 <= (c as int) && (c as int) <= 57
}

/// The value of the decimal digit `c`.
pub open spec fn digit_value(c: char) -> nat {
    (c as int - 48) as nat
}

/// Reading `d` as decimal digits from left to right, stopping at the first character
/// that is no digit (`InvalidDigit`) or the first digit that takes the value above
/// `max` (`TooLarge`), whichever comes first.
pub open spec fn scan_digits(d: Seq<char>, max: nat) -> Result<nat, ParseFailure>
    decreases d.len(),
{
    if d.len() == 0 {
        Ok(0)
    } else {
        match scan_digits(d.drop_last(), max) {
            Err(e) => Err(e),
            Ok(v) => if !is_decimal_digit(d.last()) {
                Err(ParseFailure::InvalidDigit)
            } else if v * 10 + digit_value(d.last()) > max {
                Err(ParseFailure::TooLarge)
            } else {
                Ok(v * 10 + digit_value(d.last()))
            },
        }
    }
}

/// `s` without one leading `+`.
pub open spec fn unsigned_digits(s: Seq<char>) -> Seq<char> {
    if s.len() > 0 && s[0] == '+' {
        s.drop_first()
    } else {
        s
    }
}

/// An unsigned decimal number of at most `max`: an optional `+` followed by digits
/// only. Empty text is `Empty`; a sign on its own, or any other character, is
/// `InvalidDigit`; a value above `max` is `TooLarge`.
pub open spec fn parse_unsigned(s: Seq<char>, max: nat) -> Result<nat, ParseFailure> {
    if s.len() == 0 {
        Err(ParseFailure::Empty)
    } else if s.len() == 1 && (s[0] == '+' || s[0] == '-') {
        Err(ParseFailure::InvalidDigit)
    } else {
        scan_digits(unsigned_digits(s), max)
    }
}

/// What a numeric variable yields: `default` when unset, else the number it holds.
pub open spec fn number_setting(raw: Option<Seq<char>>, default: nat, max: nat) -> Result<
    nat,
    ParseFailure,
> {
    match raw {
        None => Ok(default),
        Some(s) => parse_unsigned(s, max),
    }
}

/// The text a variable holds, if it is set.
pub open spec fn raw_text(raw: Option<String>) -> Option<Seq<char>> {
    match raw {
        Some(s) => Some(s@),
        None => None,
    }
}

/// The first error, in the order the variables are read, that the given settings
/// run into; `None` when they make a valid configuration.
pub open spec fn settings_error(
    has_url: bool,
    has_api_key: bool,
    target_ip: Option<Option<[u8; 4]>>,
    universe: Option<Seq<char>>,
    packet_size: Option<Seq<char>>,
    fps: Option<Seq<char>>,
) -> Option<ConfigError> {
    let u = number_setting(universe, DEFAULT_UNIVERSE as nat, u16::MAX as nat);
    let p = number_setting(packet_size, DEFAULT_PACKET_SIZE as nat, u16::MAX as nat);
    let f = number_setting(fps, DEFAULT_FPS as nat, u32::MAX as nat);
    if !has_url {
        Some(ConfigError::Missing(SettingKey::Url))
    } else if !has_api_key {
        Some(ConfigError::Missing(SettingKey::ApiKey))
    } else if target_ip == Some(None::<[u8; 4]>) {
        Some(ConfigError::InvalidValue(SettingKey::TargetIp, ParseFailure::BadAddress))
    } else if u is Err {
        Some(ConfigError::InvalidValue(SettingKey::Universe, u->Err_0))
    } else if u->Ok_0 > MAX_UNIVERSE {
        Some(ConfigError::UniverseOutOfRange(u->Ok_0 as u16))
    } else if p is Err {
        Some(ConfigError::InvalidValue(SettingKey::PacketSize, p->Err_0))
    } else if !(MIN_PACKET_SIZE <= p->Ok_0 <= MAX_PACKET_SIZE) {
        Some(ConfigError::PacketSizeOutOfRange(p->Ok_0 as u16))
    } else if p->Ok_0 % 2 == 1 {
        Some(ConfigError::PacketSizeOdd(p->Ok_0 as u16))
    } else if f is Err {
        Some(ConfigError::InvalidValue(SettingKey::Fps, f->Err_0))
    } else if f->Ok_0 == 0 {
        Some(ConfigError::FpsZero)
    } else {
        None
    }
}

/// The digits are the characters `'0'` to `'9'` with the values 0 to 9.
pub proof fn lemma_digits()
    ensures
        forall|c: char| #[trigger] is_decimal_digit(c) <==> ('0' <= c && c <= '9'),
        digit_value('0') == 0 && digit_value('1') == 1 && digit_value('2') == 2,
        digit_value('3') == 3 && digit_value('4') == 4 && digit_value('5') == 5,
        digit_value('6') == 6 && digit_value('7') == 7 && digit_value('8') == 8,
        digit_value('9') == 9,
        digit_char(0) == '0' && digit_char(1) == '1' && digit_char(2) == '2',
        digit_char(3) == '3' && digit_char(4) == '4' && digit_char(5) == '5',
        digit_char(6) == '6' && digit_char(7) == '7' && digit_char(8) == '8',
        digit_char(9) == '9',
{
}

/// A number is written with digits only and, unless it is 0, without a leading zero.
pub proof fn lemma_decimal_text_digits(n: nat)
    ensures
        decimal_text(n).len() >= 1,
        forall|i: int|
            0 <= i < decimal_text(n).len() ==> '0' <= #[trigger] decimal_text(n)[i] && decimal_text(
                n,
            )[i] <= '9',
        n > 0 ==> decimal_text(n)[0] != '0',
    decreases n,
{
    if n >= 10 {
        lemma_decimal_text_digits(n / 10);
        let t = decimal_text(n / 10);
        assert(decimal_text(n) == t.push(digit_char(n % 10)));
        assert forall|i: int|
            0 <= i < decimal_text(n).len() implies '0' <= #[trigger] decimal_text(n)[i]
            && decimal_text(n)[i] <= '9' by {
            if i < t.len() {
                assert(decimal_text(n)[i] == t[i]);
            }
        }
    }
}

/// The character of a digit is a digit with that value.
proof fn lemma_digit_char(d: nat)
    requires
        d < 10,
    ensures
        is_decimal_digit(digit_char(d)),
        digit_value(digit_char(d)) == d,
{
    lemma_digits();
    if d == 0 {
    } else if d == 1 {
    } else if d == 2 {
    } else if d == 3 {
    } else if d == 4 {
    } else if d == 5 {
    } else if d == 6 {
    } else if d == 7 {
    } else if d == 8 {
    } else {
    }
}

/// Reading the digits of `n` back gives `n`, for every `n` up to `max`.
proof fn lemma_scan_decimal_text(n: nat, max: nat)
    requires
        n <= max,
    ensures
        scan_digits(decimal_text(n), max) == Ok::<nat, ParseFailure>(n),
    decreases n,
{
    lemma_digit_char(n % 10);
    let t = decimal_text(n);
    if n < 10 {
        assert(t == seq![digit_char(n)]);
        assert(t.drop_last() =~= Seq::<char>::empty());
        assert(scan_digits(t.drop_last(), max) == Ok::<nat, ParseFailure>(0));
        assert(t.last() == digit_char(n % 10));
        assert(0 * 10 + digit_value(t.last()) == n);
    } else {
        lemma_scan_decimal_text(n / 10, max);
        assert(t == decimal_text(n / 10).push(digit_char(n % 10)));
        assert(t.drop_last() =~= decimal_text(n / 10));
        assert(t.last() == digit_char(n % 10));
        assert((n / 10) * 10 + digit_value(t.last()) == n);
    }
}

/// Decimal text round-trips: every `n` up to `max`, written in decimal, reads back as
/// `n`, with or without a leading `+`.
pub proof fn lemma_decimal_roundtrip(n: nat, max: nat)
    requires
        n <= max,
    ensures
        parse_unsigned(decimal_text(n), max) == Ok::<nat, ParseFailure>(n),
        parse_unsigned(seq!['+'] + decimal_text(n), max) == Ok::<nat, ParseFailure>(n),
{
    lemma_decimal_text_digits(n);
    lemma_scan_decimal_text(n, max);
    let t = decimal_text(n);
    assert('0' <= t[0] && t[0] <= '9');
    assert(unsigned_digits(t) == t);
    let p = seq!['+'] + t;
    assert(p.drop_first() =~= t);
}

/// Only an optional `+` and digits are accepted, never a value above `max`, and text
/// that is empty or holds anything else is refused.
pub proof fn lemma_parse_accepts_digits_only(s: Seq<char>, max: nat)
    ensures
        parse_unsigned(s, max) is Ok ==> {
            let d = if s[0] == '+' {
                s.drop_first()
            } else {
                s
            };
            &&& parse_unsigned(s, max)->Ok_0 <= max
            &&& d.len() >= 1
            &&& forall|i: int| 0 <= i < d.len() ==> '0' <= #[trigger] d[i] && d[i] <= '9'
        },
        s.len() == 0 ==> parse_unsigned(s, max) == Err::<nat, ParseFailure>(ParseFailure::Empty),
{
    if parse_unsigned(s, max) is Ok {
        let d = unsigned_digits(s);
        lemma_scan_ok_digits(d, max);
    }
}

/// A successful reading covers only digits and stays within `max`.
proof fn lemma_scan_ok_digits(d: Seq<char>, max: nat)
    requires
        scan_digits(d, max) is Ok,
    ensures
        scan_digits(d, max)->Ok_0 <= max,
        forall|i: int| 0 <= i < d.len() ==> '0' <= #[trigger] d[i] && d[i] <= '9',
    decreases d.len(),
{
    lemma_digits();
    if d.len() > 0 {
        lemma_scan_ok_digits(d.drop_last(), max);
        assert forall|i: int| 0 <= i < d.len() implies '0' <= #[trigger] d[i] && d[i] <= '9' by {
            if i < d.len() - 1 {
                assert(d[i] == d.drop_last()[i]);
            }
        }
    }
}

/// Settings are accepted exactly when URL and API_KEY are set, TARGET_IP (if set) is an
/// address, and each numeric variable that is set reads as a number that passes its
/// check: a universe up to 32767, an even packet size from 2 to 512, a frame rate of at
/// least 1. A missing URL is reported before anything else, then a missing API_KEY.
pub proof fn lemma_settings_accepted(
    has_url: bool,
    has_api_key: bool,
    target_ip: Option<Option<[u8; 4]>>,
    universe: Option<Seq<char>>,
    packet_size: Option<Seq<char>>,
    fps: Option<Seq<char>>,
)
    ensures
        settings_error(has_url, has_api_key, target_ip, universe, packet_size, fps) is None <==> {
            &&& has_url && has_api_key
            &&& target_ip != Some(None::<[u8; 4]>)
            &&& universe is None || (parse_unsigned(universe->0, 65535) is Ok && parse_unsigned(
                universe->0,
                65535,
            )->Ok_0 <= 32767)
            &&& packet_size is None || (parse_unsigned(packet_size->0, 65535) is Ok && 2
                <= parse_unsigned(packet_size->0, 65535)->Ok_0 <= 512 && parse_unsigned(
                packet_size->0,
                65535,
            )->Ok_0 % 2 == 0)
            &&& fps is None || (parse_unsigned(fps->0, 4294967295) is Ok && parse_unsigned(
                fps->0,
                4294967295,
            )->Ok_0 >= 1)
        },
        !has_url ==> settings_error(has_url, has_api_key, target_ip, universe, packet_size, fps)
            == Some(ConfigError::Missing(SettingKey::Url)),
        has_url && !has_api_key ==> settings_error(
            has_url,
            has_api_key,
            target_ip,
            universe,
            packet_size,
            fps,
        ) == Some(ConfigError::Missing(SettingKey::ApiKey)),
{
}

/// Read `text` as an unsigned decimal number of at most `max`.
pub fn parse_number(text: &str, max: u32) -> (r: Result<u32, ParseFailure>)
    ensures
        match parse_unsigned(text@, max as nat) {
            Ok(v) => r == Ok::<u32, ParseFailure>(v as u32),
            Err(e) => r == Err::<u32, ParseFailure>(e),
        },
{
    let len = text.unicode_len();
    if len == 0 {
        return Err(ParseFailure::Empty);
    }
    let first = text.get_char(0);
    if len == 1 && (first == '+' || first == '-') {
        return Err(ParseFailure::InvalidDigit);
    }
    let start: usize = if first == '+' {
        1
    } else {
        0
    };
    let ghost d = unsigned_digits(text@);
    assert(d =~= text@.subrange(start as int, len as int));
    let mut value: u64 = 0;
    let mut i: usize = start;
    assert(d.take(0) =~= Seq::<char>::empty());
    assert(parse_unsigned(text@, max as nat) == scan_digits(d, max as nat));
    while i < len
        invariant
            parse_unsigned(text@, max as nat) == scan_digits(d, max as nat),
            start <= i <= len,
            len == text@.len(),
            d == text@.subrange(start as int, len as int),
            value <= max,
            scan_digits(d.take(i - start), max as nat) == Ok::<nat, ParseFailure>(value as nat),
        decreases len - i,
    {
        let c = text.get_char(i);
        let ghost k = (i - start) as int;
        assert(d.take(k + 1).drop_last() =~= d.take(k));
        assert(d.take(k + 1).last() == c);
        if !('0' <= c && c <= '9') {
            assert(!is_decimal_digit(c));
            assert(scan_digits(d.take(k + 1), max as nat) == Err::<nat, ParseFailure>(
                ParseFailure::InvalidDigit,
            ));
            proof {
                lemma_scan_stops(d, k + 1, max as nat);
            }
            return Err(ParseFailure::InvalidDigit);
        }
        let next: u64 = value * 10 + (c as u64 - '0' as u64);
        assert(is_decimal_digit(c));
        assert(next == value * 10 + digit_value(c));
        if next > max as u64 {
            assert(scan_digits(d.take(k + 1), max as nat) == Err::<nat, ParseFailure>(
                ParseFailure::TooLarge,
            ));
            proof {
                lemma_scan_stops(d, k + 1, max as nat);
            }
            return Err(ParseFailure::TooLarge);
        }
        value = next;
        i = i + 1;
    }
    assert(d.take(len - start) =~= d);
    Ok(value as u32)
}

/// Once reading stops at a prefix of `d`, the whole of `d` stops with the same failure.
proof fn lemma_scan_stops(d: Seq<char>, k: int, max: nat)
    requires
        0 <= k <= d.len(),
        scan_digits(d.take(k), max) is Err,
    ensures
        scan_digits(d, max) == scan_digits(d.take(k), max),
    decreases d.len() - k,
{
    if k < d.len() {
        assert(d.take(k + 1).drop_last() =~= d.take(k));
        lemma_scan_stops(d, k + 1, max);
    } else {
        assert(d.take(k) =~= d);
    }
}

/// The value of a 16-bit numeric variable, or `default` when it is unset.
pub fn u16_setting(raw: &Option<String>, default: u16, key: SettingKey) -> (r: Result<
    u16,
    ConfigError,
>)
    ensures
        match number_setting(raw_text(*raw), default as nat, u16::MAX as nat) {
            Ok(v) => r == Ok::<u16, ConfigError>(v as u16),
            Err(e) => r == Err::<u16, ConfigError>(ConfigError::InvalidValue(key, e)),
        },
{
    match raw {
        None => Ok(default),
        Some(text) => match parse_number(text.as_str(), u16::MAX as u32) {
            Ok(v) => Ok(v as u16),
            Err(e) => Err(ConfigError::InvalidValue(key, e)),
        },
    }
}

/// The value of a 32-bit numeric variable, or `default` when it is unset.
pub fn u32_setting(raw: &Option<String>, default: u32, key: SettingKey) -> (r: Result<
    u32,
    ConfigError,
>)
    ensures
        match number_setting(raw_text(*raw), default as nat, u32::MAX as nat) {
            Ok(v) => r == Ok::<u32, ConfigError>(v as u32),
            Err(e) => r == Err::<u32, ConfigError>(ConfigError::InvalidValue(key, e)),
        },
{
    match raw {
        None => Ok(default),
        Some(text) => match parse_number(text.as_str(), u32::MAX) {
            Ok(v) => Ok(v),
            Err(e) => Err(ConfigError::InvalidValue(key, e)),
        },
    }
}

/// What std's `Debug` writes for a string: the text in double quotes, with the
/// characters that need it escaped.
pub uninterp spec fn debug_quoted(s: Seq<char>) -> Seq<char>;

/// Calls std's `Debug` formatting of a `str` (`format!("{:?}", s)`). The contract
/// names its result `debug_quoted`, which depends on the text alone.
#[verifier::external_body]
fn quoted(s: &str) -> (t: String)
    ensures
        t@ == debug_quoted(s@),
{
    format!("{:?}", s)
}

/// An IPv4 address in dotted decimal.
pub open spec fn ipv4_text(ip: [u8; 4]) -> Seq<char> {
    decimal_text(ip[0] as nat) + "."@ + decimal_text(ip[1] as nat) + "."@ + decimal_text(
        ip[2] as nat,
    ) + "."@ + decimal_text(ip[3] as nat)
}

/// How a configuration is shown in logs and error reports. The API key is not among
/// the arguments: the text shows `"<redacted>"` in its place.
pub open spec fn config_debug_text(
    url: Seq<char>,
    log_level: Seq<char>,
    target_ip: [u8; 4],
    universe: u16,
    packet_size: u16,
    fps: u32,
) -> Seq<char> {
    "Config { url: "@ + debug_quoted(url) + ", api_key: \"<redacted>\", log_level: "@
        + debug_quoted(log_level) + ", target_ip: "@ + ipv4_text(target_ip) + ", universe: "@
        + decimal_text(universe as nat) + ", packet_size: "@ + decimal_text(packet_size as nat)
        + ", fps: "@ + decimal_text(fps as nat) + " }"@
}

/// Two configurations that differ in their API key alone are shown the same way, so
/// the key never reaches a log through them.
pub proof fn lemma_debug_text_ignores_api_key(a: Config, b: Config)
    requires
        a.url == b.url,
        a.log_level == b.log_level,
        a.target_ip == b.target_ip,
        a.universe == b.universe,
        a.packet_size == b.packet_size,
        a.fps == b.fps,
    ensures
        config_debug_text(a.url@, a.log_level@, a.target_ip, a.universe, a.packet_size, a.fps)
            == config_debug_text(b.url@, b.log_level@, b.target_ip, b.universe, b.packet_size, b.fps),
{
}

/// Everything the proxy is configured with.
pub struct Config {
    /// Base URL of the Aurora core.
    pub url: String,
    /// Key used to authenticate at the core.
    pub api_key: String,
    /// Log filter directive.
    pub log_level: String,
    /// IPv4 address of the Art-Net controller, as its four octets.
    pub target_ip: [u8; 4],
    /// DMX universe, at most `MAX_UNIVERSE`.
    pub universe: u16,
    /// Channels per frame: even, in `MIN_PACKET_SIZE..=MAX_PACKET_SIZE`.
    pub packet_size: u16,
    /// Frames per second, not zero.
    pub fps: u32,
}

impl Config {
    /// The checks `validate_universe`, `validate_packet_size` and `validate_fps` accept
    /// the configuration's universe, packet size and frame rate.
    pub open spec fn valid(&self) -> bool {
        &&& self.universe <= MAX_UNIVERSE
        &&& MIN_PACKET_SIZE <= self.packet_size <= MAX_PACKET_SIZE
        &&& self.packet_size % 2 == 0
        &&& self.fps > 0
    }

    /// How the configuration is shown in logs and error reports, with the API key
    /// replaced by `"<redacted>"`.
    pub fn debug_text(&self) -> (text: String)
        ensures
            text@ == config_debug_text(
                self.url@,
                self.log_level@,
                self.target_ip,
                self.universe,
                self.packet_size,
                self.fps,
            ),
    {
        let mut text = String::from_str("Config { url: ");
        text.append(quoted(self.url.as_str()).as_str());
        text.append(", api_key: \"<redacted>\", log_level: ");
        text.append(quoted(self.log_level.as_str()).as_str());
        text.append(", target_ip: ");
        text.append(decimal_string(self.target_ip[0] as u32).as_str());
        text.append(".");
        text.append(decimal_string(self.target_ip[1] as u32).as_str());
        text.append(".");
        text.append(decimal_string(self.target_ip[2] as u32).as_str());
        text.append(".");
        text.append(decimal_string(self.target_ip[3] as u32).as_str());
        text.append(", universe: ");
        text.append(decimal_string(self.universe as u32).as_str());
        text.append(", packet_size: ");
        text.append(decimal_string(self.packet_size as u32).as_str());
        text.append(", fps: ");
        text.append(decimal_string(self.fps).as_str());
        text.append(" }");
        text
    }

    /// The configuration that the variables' contents make, or the first error among
    /// them. Each argument is what one variable holds, `None` when it is unset;
    /// `target_ip` is `Some(None)` when `TARGET_IP` is set to text that is no IPv4
    /// address. URL and API_KEY are required; the others fall back to
    /// `info`, 169.254.0.2, universe 0, 512 channels and 40 frames per second.
    pub fn from_settings(
        url: Option<String>,
        api_key: Option<String>,
        log_level: Option<String>,
        target_ip: Option<Option<[u8; 4]>>,
        universe: Option<String>,
        packet_size: Option<String>,
        fps: Option<String>,
    ) -> (r: Result<Config, ConfigError>)
        ensures
            ({
                let err = settings_error(
                    url is Some,
                    api_key is Some,
                    target_ip,
                    raw_text(universe),
                    raw_text(packet_size),
                    raw_text(fps),
                );
                match r {
                    Ok(c) => {
                        &&& err is None
                        &&& c.valid()
                        &&& c.universe <= 32767
                        &&& 2 <= c.packet_size <= 512 && c.packet_size % 2 == 0
                        &&& c.fps >= 1
                        &&& log_level is None ==> c.log_level@ == "info"@
                        &&& target_ip is None ==> c.target_ip == [169u8, 254u8, 0u8, 2u8]
                        &&& universe is None ==> c.universe == 0
                        &&& packet_size is None ==> c.packet_size == 512
                        &&& fps is None ==> c.fps == 40
                        &&& c.url == url.unwrap()
                        &&& c.api_key == api_key.unwrap()
                        &&& c.log_level@ == match log_level {
                            Some(l) => l@,
                            None => "info"@,
                        }
                        &&& c.target_ip == match target_ip {
                            Some(Some(ip)) => ip,
                            _ => DEFAULT_TARGET_IP,
                        }
                        &&& c.universe as nat == number_setting(
                            raw_text(universe),
                            DEFAULT_UNIVERSE as nat,
                            u16::MAX as nat,
                        )->Ok_0
                        &&& c.packet_size as nat == number_setting(
                            raw_text(packet_size),
                            DEFAULT_PACKET_SIZE as nat,
                            u16::MAX as nat,
                        )->Ok_0
                        &&& c.fps as nat == number_setting(
                            raw_text(fps),
                            DEFAULT_FPS as nat,
                            u32::MAX as nat,
                        ).unwrap()
                    },
                    Err(e) => err == Some(e),
                }
            }),
    {
        let url = match url {
            Some(u) => u,
            None => return Err(ConfigError::Missing(SettingKey::Url)),
        };
        let api_key = match api_key {
            Some(k) => k,
            None => return Err(ConfigError::Missing(SettingKey::ApiKey)),
        };
        let log_level = match log_level {
            Some(l) => l,
            None => String::from_str("info"),
        };
        let target_ip = match target_ip {
            None => DEFAULT_TARGET_IP,
            Some(Some(ip)) => ip,
            Some(None) => return Err(
                ConfigError::InvalidValue(SettingKey::TargetIp, ParseFailure::BadAddress),
            ),
        };
        let universe = validate_universe(u16_setting(&universe, DEFAULT_UNIVERSE, SettingKey::Universe)?)?;
        let packet_size = validate_packet_size(
            u16_setting(&packet_size, DEFAULT_PACKET_SIZE, SettingKey::PacketSize)?,
        )?;
        let fps = validate_fps(u32_setting(&fps, DEFAULT_FPS, SettingKey::Fps)?)?;
        Ok(Config { url, api_key, log_level, target_ip, universe, packet_size, fps })
    }
}

} // verus!
