//! Version numbers of this build, the version record exchanged with the
//! core server, and the compatibility decisions taken on the core's reply.

use vstd::prelude::*;
use vstd::string::*;
use crate::proto::{version_reply_bytes, VersionReply as ProtoVersionReply};
use crate::text::{
    decimal, is_unsigned_text, occurs_at, parse_unsigned, parse_unsigned_bounded, push_decimal,
    unsigned_digits,
};

verus! {

pub const DATAFED_RELEASE_YEAR: u32 = 2025;

pub const DATAFED_RELEASE_MONTH: u32 = 6;

pub const DATAFED_RELEASE_DAY: u32 = 11;

pub const DATAFED_RELEASE_HOUR: u32 = 14;

pub const DATAFED_RELEASE_MINUTE: u32 = 1;

pub const DATAFED_COMMON_PROTOCOL_API_MAJOR: u32 = 1;

pub const DATAFED_COMMON_PROTOCOL_API_MINOR: u32 = 1;

pub const DATAFED_COMMON_PROTOCOL_API_PATCH: u32 = 0;

pub const DATAFED_REPO_MAJOR: u32 = 1;

pub const DATAFED_REPO_MINOR: u32 = 0;

pub const DATAFED_REPO_PATCH: u32 = 0;

/// A version number taken from an environment value when it parses as an
/// unsigned 32-bit number, `default` otherwise.
pub open spec fn env_u32(value: Option<Seq<char>>, default: u32) -> u32 {
    match value {
        Some(v) => match parse_unsigned(v, 0xffff_ffff) {
            Some(n) => n as u32,
            None => default,
        },
        None => default,
    }
}

/// The optional text as characters.
pub open spec fn opt_str_view(value: Option<&str>) -> Option<Seq<char>> {
    match value {
        Some(v) => Some(v@),
        None => None,
    }
}

/// Reads a version number from an environment value, falling back to
/// `default` when it is absent or not a number.
pub fn parse_env_u32(value: Option<&str>, default: u32) -> (r: u32)
    ensures
        r == env_u32(opt_str_view(value), default),
{
    match value {
        Some(v) => match parse_unsigned_bounded(v, 0xffff_ffff) {
            Some(n) => n as u32,
            None => default,
        },
        None => default,
    }
}

/// The repository server's major version, overridable by the `REPO_MAJOR`
/// environment value passed in.
pub fn repo_major(env_value: Option<&str>) -> (r: u32)
    ensures
        r == env_u32(opt_str_view(env_value), DATAFED_REPO_MAJOR),
{
    parse_env_u32(env_value, DATAFED_REPO_MAJOR)
}

/// The repository server's minor version, overridable by `REPO_MINOR`.
pub fn repo_minor(env_value: Option<&str>) -> (r: u32)
    ensures
        r == env_u32(opt_str_view(env_value), DATAFED_REPO_MINOR),
{
    parse_env_u32(env_value, DATAFED_REPO_MINOR)
}

/// The repository server's patch version, overridable by `REPO_PATCH`.
pub fn repo_patch(env_value: Option<&str>) -> (r: u32)
    ensures
        r == env_u32(opt_str_view(env_value), DATAFED_REPO_PATCH),
{
    parse_env_u32(env_value, DATAFED_REPO_PATCH)
}

/// The messaging API's major version, overridable by `API_MAJOR`.
pub fn api_major(env_value: Option<&str>) -> (r: u32)
    ensures
        r == env_u32(opt_str_view(env_value), DATAFED_COMMON_PROTOCOL_API_MAJOR),
{
    parse_env_u32(env_value, DATAFED_COMMON_PROTOCOL_API_MAJOR)
}

/// The messaging API's minor version, overridable by `API_MINOR`.
pub fn api_minor(env_value: Option<&str>) -> (r: u32)
    ensures
        r == env_u32(opt_str_view(env_value), DATAFED_COMMON_PROTOCOL_API_MINOR),
{
    parse_env_u32(env_value, DATAFED_COMMON_PROTOCOL_API_MINOR)
}

/// Release date and version numbers of a component.
#[derive(Debug, Clone, Copy, PartialEq, Eq, Structural)]
pub struct VersionReply {
    pub release_year: u32,
    pub release_month: u32,
    pub release_day: u32,
    pub release_hour: u32,
    pub release_minute: u32,
    pub api_major: u32,
    pub api_minor: u32,
    pub api_patch: u32,
    pub component_major: u32,
    pub component_minor: u32,
    pub component_patch: u32,
}

/// The same fields as a payload record.
pub open spec fn as_payload(v: VersionReply) -> ProtoVersionReply {
    ProtoVersionReply {
        release_year: v.release_year,
        release_month: v.release_month,
        release_day: v.release_day,
        release_hour: v.release_hour,
        release_minute: v.release_minute,
        api_major: v.api_major,
        api_minor: v.api_minor,
        api_patch: v.api_patch,
        component_major: v.component_major,
        component_minor: v.component_minor,
        component_patch: v.component_patch,
    }
}

impl VersionReply {
    /// The version of this build.
    pub fn new() -> (r: VersionReply)
        ensures
            r == (VersionReply {
                release_year: DATAFED_RELEASE_YEAR,
                release_month: DATAFED_RELEASE_MONTH,
                release_day: DATAFED_RELEASE_DAY,
                release_hour: DATAFED_RELEASE_HOUR,
                release_minute: DATAFED_RELEASE_MINUTE,
                api_major: DATAFED_COMMON_PROTOCOL_API_MAJOR,
                api_minor: DATAFED_COMMON_PROTOCOL_API_MINOR,
                api_patch: DATAFED_COMMON_PROTOCOL_API_PATCH,
                component_major: DATAFED_REPO_MAJOR,
                component_minor: DATAFED_REPO_MINOR,
                component_patch: DATAFED_REPO_PATCH,
            }),
    {
        VersionReply {
            release_year: DATAFED_RELEASE_YEAR,
            release_month: DATAFED_RELEASE_MONTH,
            release_day: DATAFED_RELEASE_DAY,
            release_hour: DATAFED_RELEASE_HOUR,
            release_minute: DATAFED_RELEASE_MINUTE,
            api_major: DATAFED_COMMON_PROTOCOL_API_MAJOR,
            api_minor: DATAFED_COMMON_PROTOCOL_API_MINOR,
            api_patch: DATAFED_COMMON_PROTOCOL_API_PATCH,
            component_major: DATAFED_REPO_MAJOR,
            component_minor: DATAFED_REPO_MINOR,
            component_patch: DATAFED_REPO_PATCH,
        }
    }

    /// The version reported by the core server.
    pub fn from_core_server(
        release_year: u32,
        release_month: u32,
        release_day: u32,
        release_hour: u32,
        release_minute: u32,
        api_major: u32,
        api_minor: u32,
        api_patch: u32,
        component_major: u32,
        component_minor: u32,
        component_patch: u32,
    ) -> (r: VersionReply)
        ensures
            r == (VersionReply {
                release_year,
                release_month,
                release_day,
                release_hour,
                release_minute,
                api_major,
                api_minor,
                api_patch,
                component_major,
                component_minor,
                component_patch,
            }),
    {
        VersionReply {
            release_year,
            release_month,
            release_day,
            release_hour,
            release_minute,
            api_major,
            api_minor,
            api_patch,
            component_major,
            component_minor,
            component_patch,
        }
    }

    /// The eleven fields as 32-bit little-endian values, 44 bytes.
    pub fn to_bytes(&self) -> (r: Vec<u8>)
        ensures
            r@ == version_reply_bytes(as_payload(*self)),
    {
        as_payload_exec(self).serialize()
    }
}

fn as_payload_exec(v: &VersionReply) -> (r: ProtoVersionReply)
    ensures
        r == as_payload(*v),
{
    ProtoVersionReply {
        release_year: v.release_year,
        release_month: v.release_month,
        release_day: v.release_day,
        release_hour: v.release_hour,
        release_minute: v.release_minute,
        api_major: v.api_major,
        api_minor: v.api_minor,
        api_patch: v.api_patch,
        component_major: v.component_major,
        component_minor: v.component_minor,
        component_patch: v.component_patch,
    }
}

/// What the server knows of the core server's version.
#[derive(Debug, Clone, Copy)]
pub struct CoreVersionInfo {
    pub version_reply: ProtoVersionReply,
    pub is_connected: bool,
}

impl CoreVersionInfo {
    /// Not yet connected; the version is this build's own.
    pub fn new() -> (r: CoreVersionInfo)
        ensures
            !r.is_connected,
            r.version_reply == ProtoVersionReply::spec_default(),
    {
        CoreVersionInfo { version_reply: ProtoVersionReply::new(), is_connected: false }
    }

    /// Records the core server's version and marks it connected.
    pub fn update_from_core(&mut self, version_reply: ProtoVersionReply)
        ensures
            final(self).version_reply == version_reply,
            final(self).is_connected,
    {
        self.version_reply = version_reply;
        self.is_connected = true;
    }

    /// Marks the core server disconnected; the version is kept.
    pub fn mark_disconnected(&mut self)
        ensures
            !final(self).is_connected,
            final(self).version_reply == old(self).version_reply,
    {
        self.is_connected = false;
    }
}

impl ProtoVersionReply {
    /// The version of this build, as `VersionReply::new` of the payloads
    /// returns it.
    pub open spec fn spec_default() -> ProtoVersionReply {
        ProtoVersionReply {
            release_year: 2025,
            release_month: 6,
            release_day: 11,
            release_hour: 14,
            release_minute: 1,
            api_major: 1,
            api_minor: 1,
            api_patch: 0,
            component_major: 1,
            component_minor: 0,
            component_patch: 0,
        }
    }
}

/// Why the core server's version was refused.
#[derive(Debug, Clone, Copy, PartialEq, Eq, Structural)]
pub enum VersionError {
    /// The core speaks another major version of the messaging API.
    IncompatibleApi { major: u32, minor: u32, patch: u32 },
}

/// What the server learns from an accepted core version.
#[derive(Debug, Clone, Copy, PartialEq, Eq, Structural)]
pub struct VersionCheck {
    /// The core's API minor version, plus nine, exceeds this build's.
    pub significant_api_change: bool,
    /// The core was released after this build.
    pub new_release_available: bool,
}

/// The release moment of `v` comes after this build's, comparing year,
/// month, day, hour and minute in that order.
pub open spec fn released_later(v: ProtoVersionReply) -> bool {
    v.release_year > DATAFED_RELEASE_YEAR || (v.release_year == DATAFED_RELEASE_YEAR && (
    v.release_month > DATAFED_RELEASE_MONTH || (v.release_month == DATAFED_RELEASE_MONTH && (
    v.release_day > DATAFED_RELEASE_DAY || (v.release_day == DATAFED_RELEASE_DAY && (
    v.release_hour > DATAFED_RELEASE_HOUR || (v.release_hour == DATAFED_RELEASE_HOUR
        && v.release_minute > DATAFED_RELEASE_MINUTE)))))))
}

/// A release moment as one number: the year weighs most, then the month,
/// day, hour and minute, each field taking 32 bits.
pub open spec fn release_stamp(year: u32, month: u32, day: u32, hour: u32, minute: u32) -> int {
    (((year as int * 0x1_0000_0000 + month as int) * 0x1_0000_0000 + day as int) * 0x1_0000_0000
        + hour as int) * 0x1_0000_0000 + minute as int
}

/// The release moment of a version reply as one number.
pub open spec fn reply_stamp(v: ProtoVersionReply) -> int {
    release_stamp(v.release_year, v.release_month, v.release_day, v.release_hour, v.release_minute)
}

proof fn lemma_stamp_step(x1: int, y1: int, x2: int, y2: int)
    requires
        0 <= y1 < 0x1_0000_0000,
        0 <= y2 < 0x1_0000_0000,
    ensures
        (x1 * 0x1_0000_0000 + y1 > x2 * 0x1_0000_0000 + y2) <==> (x1 > x2 || (x1 == x2 && y1 > y2)),
        (x1 * 0x1_0000_0000 + y1 == x2 * 0x1_0000_0000 + y2) <==> (x1 == x2 && y1 == y2),
{
    if x1 > x2 {
        assert(x1 * 0x1_0000_0000 >= x2 * 0x1_0000_0000 + 0x1_0000_0000) by (nonlinear_arith)
            requires
                x1 >= x2 + 1,
        ;
    } else if x1 < x2 {
        assert(x2 * 0x1_0000_0000 >= x1 * 0x1_0000_0000 + 0x1_0000_0000) by (nonlinear_arith)
            requires
                x2 >= x1 + 1,
        ;
    }
}

/// A newer release is reported exactly when the core's release moment is
/// later than this build's, (year, month, day, hour, minute) compared in
/// that order; a core from an earlier year never counts as newer, one from
/// a later year always does.
pub proof fn lemma_newer_release_is_later_moment(v: ProtoVersionReply)
    ensures
        released_later(v) <==> reply_stamp(v) > release_stamp(
            DATAFED_RELEASE_YEAR,
            DATAFED_RELEASE_MONTH,
            DATAFED_RELEASE_DAY,
            DATAFED_RELEASE_HOUR,
            DATAFED_RELEASE_MINUTE,
        ),
        v.release_year < DATAFED_RELEASE_YEAR ==> !released_later(v),
        v.release_year > DATAFED_RELEASE_YEAR ==> released_later(v),
{
    let a1 = v.release_year as int;
    let a2 = a1 * 0x1_0000_0000 + v.release_month as int;
    let a3 = a2 * 0x1_0000_0000 + v.release_day as int;
    let a4 = a3 * 0x1_0000_0000 + v.release_hour as int;
    let b1 = DATAFED_RELEASE_YEAR as int;
    let b2 = b1 * 0x1_0000_0000 + DATAFED_RELEASE_MONTH as int;
    let b3 = b2 * 0x1_0000_0000 + DATAFED_RELEASE_DAY as int;
    let b4 = b3 * 0x1_0000_0000 + DATAFED_RELEASE_HOUR as int;
    lemma_stamp_step(a1, v.release_month as int, b1, DATAFED_RELEASE_MONTH as int);
    lemma_stamp_step(a2, v.release_day as int, b2, DATAFED_RELEASE_DAY as int);
    lemma_stamp_step(a3, v.release_hour as int, b3, DATAFED_RELEASE_HOUR as int);
    lemma_stamp_step(a4, v.release_minute as int, b4, DATAFED_RELEASE_MINUTE as int);
}

/// A core released no earlier than one reported as newer is reported as
/// newer too.
pub proof fn lemma_newer_release_monotone(v: ProtoVersionReply, w: ProtoVersionReply)
    requires
        released_later(v),
        reply_stamp(v) <= reply_stamp(w),
    ensures
        released_later(w),
{
    lemma_newer_release_is_later_moment(v);
    lemma_newer_release_is_later_moment(w);
}

/// Judges the core server's version: another API major version is refused;
/// otherwise the result says whether the API changed significantly and
/// whether a newer release exists.
pub fn evaluate_core_version(core_version: &ProtoVersionReply) -> (r: Result<
    VersionCheck,
    VersionError,
>)
    requires
        core_version.api_major == DATAFED_COMMON_PROTOCOL_API_MAJOR ==> core_version.api_minor
            <= 0xffff_ffff - 9,
    ensures
        core_version.api_major != DATAFED_COMMON_PROTOCOL_API_MAJOR ==> r == Err::<
            VersionCheck,
            VersionError,
        >(
            VersionError::IncompatibleApi {
                major: core_version.api_major,
                minor: core_version.api_minor,
                patch: core_version.api_patch,
            },
        ),
        core_version.api_major == DATAFED_COMMON_PROTOCOL_API_MAJOR ==> r == Ok::<
            VersionCheck,
            VersionError,
        >(
            VersionCheck {
                significant_api_change: core_version.api_minor + 9
                    > DATAFED_COMMON_PROTOCOL_API_MINOR,
                new_release_available: released_later(*core_version),
            },
        ),
{
    if core_version.api_major != DATAFED_COMMON_PROTOCOL_API_MAJOR {
        return Err(
            VersionError::IncompatibleApi {
                major: core_version.api_major,
                minor: core_version.api_minor,
                patch: core_version.api_patch,
            },
        );
    }
    let significant_api_change = core_version.api_minor + 9 > DATAFED_COMMON_PROTOCOL_API_MINOR;
    let mut new_release_available = false;
    if core_version.release_year > DATAFED_RELEASE_YEAR {
        new_release_available = true;
    } else if core_version.release_year == DATAFED_RELEASE_YEAR {
        if core_version.release_month > DATAFED_RELEASE_MONTH {
            new_release_available = true;
        } else if core_version.release_month == DATAFED_RELEASE_MONTH {
            if core_version.release_day > DATAFED_RELEASE_DAY {
                new_release_available = true;
            } else if core_version.release_day == DATAFED_RELEASE_DAY {
                if core_version.release_hour > DATAFED_RELEASE_HOUR {
                    new_release_available = true;
                } else if core_version.release_hour == DATAFED_RELEASE_HOUR {
                    if core_version.release_minute > DATAFED_RELEASE_MINUTE {
                        new_release_available = true;
                    }
                }
            }
        }
    }
    Ok(VersionCheck { significant_api_change, new_release_available })
}

/// The text that refuses a core server speaking another API major version.
pub open spec fn incompatible_api_text(major: u32, minor: u32, patch: u32) -> Seq<char> {
    "Incompatible messaging API detected: major backwards breaking changes detected version ("@
        + decimal(major as nat) + "."@ + decimal(minor as nat) + "."@ + decimal(patch as nat) + ")"@
}

/// Takes the core server's answer to the version request into `info`: a
/// failed request and a core of another API major version are refused and
/// leave `info` as it was; an accepted version is recorded and marks the
/// core connected.
pub fn record_core_version(info: &mut CoreVersionInfo, reply: Result<ProtoVersionReply, String>) -> (r:
    Result<VersionCheck, String>)
    requires
        reply matches Ok(v) ==> (v.api_major == DATAFED_COMMON_PROTOCOL_API_MAJOR ==> v.api_minor
            <= 0xffff_ffff - 9),
    ensures
        match reply {
            Err(e) => r matches Err(t) && t@ == "Failed to connect to core server via C++ bridge: "@
                + e@ && *final(info) == *old(info),
            Ok(v) => if v.api_major != DATAFED_COMMON_PROTOCOL_API_MAJOR {
                r matches Err(t) && t@ == incompatible_api_text(v.api_major, v.api_minor, v.api_patch)
                    && *final(info) == *old(info)
            } else {
                &&& r == Ok::<VersionCheck, String>(
                    VersionCheck {
                        significant_api_change: v.api_minor + 9 > DATAFED_COMMON_PROTOCOL_API_MINOR,
                        new_release_available: released_later(v),
                    },
                )
                &&& final(info).is_connected
                &&& final(info).version_reply == v
            },
        },
{
    match reply {
        Err(e) => {
            let mut t = "Failed to connect to core server via C++ bridge: ".to_owned();
            t.append(e.as_str());
            Err(t)
        },
        Ok(v) => match evaluate_core_version(&v) {
            Err(VersionError::IncompatibleApi { major, minor, patch }) => {
                let mut t =
                    "Incompatible messaging API detected: major backwards breaking changes detected version ("
                    .to_owned();
                push_decimal(&mut t, major as u64);
                t.append(".");
                push_decimal(&mut t, minor as u64);
                t.append(".");
                push_decimal(&mut t, patch as u64);
                t.append(")");
                Err(t)
            },
            Ok(check) => {
                info.update_from_core(v);
                Ok(check)
            },
        },
    }
}

// ---------------------------------------------------------------------------
// Core server addresses.
// ---------------------------------------------------------------------------

/// Why a core server address was refused.
#[derive(Debug, Clone, Copy, PartialEq, Eq, Structural)]
pub enum AddressError {
    /// The address does not contain `://` exactly once.
    InvalidFormat,
    /// The scheme is not `tcp`.
    UnsupportedScheme,
    /// There is no `:` before the port.
    NoPort,
    /// The port is not a number from 0 to 65535.
    InvalidPort(PortError),
}

/// Why a port text is not a number from 0 to 65535, as integer parsing
/// tells it.
#[derive(Debug, Clone, Copy, PartialEq, Eq, Structural)]
pub enum PortError {
    /// The text is empty.
    Empty,
    /// The text holds something other than one optional `+` and digits.
    InvalidDigit,
    /// The number is above 65535.
    TooLarge,
}

/// Why the port text `s` does not parse.
pub open spec fn port_error(s: Seq<char>) -> PortError {
    if s.len() == 0 {
        PortError::Empty
    } else if unsigned_digits(s) is None {
        PortError::InvalidDigit
    } else {
        PortError::TooLarge
    }
}

/// The text integer parsing gives for each port error.
pub open spec fn port_error_text(e: PortError) -> Seq<char> {
    match e {
        PortError::Empty => "cannot parse integer from empty string"@,
        PortError::InvalidDigit => "invalid digit found in string"@,
        PortError::TooLarge => "number too large to fit in target type"@,
    }
}

impl AddressError {
    /// The text that describes the refusal.
    pub fn message(&self) -> (r: String)
        ensures
            r@ == match self {
                AddressError::InvalidFormat => "Invalid core server address format. Expected 'tcp://host:port'"@,
                AddressError::UnsupportedScheme => "Only TCP protocol is supported"@,
                AddressError::NoPort => "No port specified"@,
                AddressError::InvalidPort(e) => port_error_text(*e),
            },
    {
        match self {
            AddressError::InvalidFormat => "Invalid core server address format. Expected 'tcp://host:port'".to_owned(),
            AddressError::UnsupportedScheme => "Only TCP protocol is supported".to_owned(),
            AddressError::NoPort => "No port specified".to_owned(),
            AddressError::InvalidPort(e) => match e {
                PortError::Empty => "cannot parse integer from empty string".to_owned(),
                PortError::InvalidDigit => "invalid digit found in string".to_owned(),
                PortError::TooLarge => "number too large to fit in target type".to_owned(),
            },
        }
    }
}

/// `p` occurs in `s` at exactly one position, `i`.
pub open spec fn sole_occurrence(s: Seq<char>, p: Seq<char>, i: int) -> bool {
    occurs_at(s, p, i) && forall|j: int| occurs_at(s, p, j) ==> j == i
}

/// Position of the last `c` in `s`.
pub open spec fn last_index_of(s: Seq<char>, c: char) -> Option<int>
    decreases s.len(),
{
    if s.len() == 0 {
        None
    } else if s.last() == c {
        Some(s.len() - 1)
    } else {
        last_index_of(s.drop_last(), c)
    }
}

/// The host, port and scheme of an address written `scheme://host:port`,
/// where the port follows the last `:`.
pub open spec fn parse_address(s: Seq<char>) -> Result<(Seq<char>, u16, Seq<char>), AddressError> {
    if !(exists|i: int| sole_occurrence(s, "://"@, i)) {
        Err(AddressError::InvalidFormat)
    } else {
        address_parts(s, choose|i: int| sole_occurrence(s, "://"@, i))
    }
}

/// The host, port and scheme of an address whose `://` sits at `i`.
pub open spec fn address_parts(s: Seq<char>, i: int) -> Result<
    (Seq<char>, u16, Seq<char>),
    AddressError,
> {
    let scheme = s.subrange(0, i);
    let rest = s.subrange(i + 3, s.len() as int);
    if scheme != "tcp"@ {
        Err(AddressError::UnsupportedScheme)
    } else {
        match last_index_of(rest, ':') {
            None => Err(AddressError::NoPort),
            Some(c) => match parse_unsigned(rest.subrange(c + 1, rest.len() as int), 0xffff) {
                None => Err(
                    AddressError::InvalidPort(port_error(rest.subrange(c + 1, rest.len() as int))),
                ),
                Some(port) => Ok((rest.subrange(0, c), port as u16, scheme)),
            },
        }
    }
}

fn find_last_char(s: &str, c: char) -> (r: Option<usize>)
    ensures
        r is None <==> last_index_of(s@, c) is None,
        r matches Some(i) ==> last_index_of(s@, c) == Some(i as int) && i < s@.len(),
{
    let n = s.unicode_len();
    let mut k: usize = n;
    assert(s@.take(n as int) =~= s@);
    while k > 0
        invariant
            k <= n,
            n == s@.len(),
            last_index_of(s@.take(k as int), c) == last_index_of(s@, c),
        decreases k,
    {
        if s.get_char(k - 1) == c {
            return Some(k - 1);
        }
        assert(s@.take(k as int).drop_last() =~= s@.take(k - 1));
        k = k - 1;
    }
    None
}

/// Parses a core server address of the form `tcp://host:port` into host,
/// port and scheme.
pub fn parse_core_server_address(address: &str) -> (r: Result<(&str, u16, &str), AddressError>)
    ensures
        match parse_address(address@) {
            Ok((h, p, sch)) => r matches Ok((host, port, scheme)) && host@ == h && port == p
                && scheme@ == sch,
            Err(e) => r is Err && r->Err_0 == e,
        },
{
    let n = address.unicode_len();
    let mut count: usize = 0;
    let mut first: usize = 0;
    let mut i: usize = 0;
    proof {
        reveal_strlit("://");
        reveal_strlit("tcp");
    }
    let ghost sep = "://"@;
    assert(sep =~= seq![':', '/', '/']);
    while n >= 3 && i <= n - 3
        invariant
            n == address@.len(),
            sep == "://"@,
            sep == seq![':', '/', '/'],
            sep.len() == 3,
            i <= n + 1,
            count <= i,
            count == 0 ==> forall|j: int| 0 <= j < i ==> !occurs_at(address@, sep, j),
            count >= 1 ==> occurs_at(address@, sep, first as int) && first < i,
            count == 1 ==> forall|j: int| 0 <= j < i && j != first ==> !occurs_at(address@, sep, j),
            count >= 2 ==> exists|j: int| 0 <= j < i && j != first && occurs_at(address@, sep, j),
        decreases n + 1 - i,
    {
        let hit = address.get_char(i) == ':' && address.get_char(i + 1) == '/' && address.get_char(
            i + 2,
        ) == '/';
        assert(hit <==> occurs_at(address@, sep, i as int)) by {
            if occurs_at(address@, sep, i as int) {
                assert(address@.subrange(i as int, i + 3)[0] == address@[i as int]);
                assert(address@.subrange(i as int, i + 3)[1] == address@[i + 1]);
                assert(address@.subrange(i as int, i + 3)[2] == address@[i + 2]);
            }
            if hit {
                assert(address@.subrange(i as int, i + 3) =~= sep);
            }
        }
        if hit {
            if count == 0 {
                first = i;
            }
            if count < 2 {
                count = count + 1;
            }
        }
        i = i + 1;
    }
    assert forall|j: int| occurs_at(address@, sep, j) implies j < i by {
        assert(j + 3 <= n);
    }
    if count != 1 {
        assert(!(exists|k: int| sole_occurrence(address@, sep, k))) by {
            if count >= 2 {
                let j = choose|j: int| 0 <= j < i && j != first && occurs_at(address@, sep, j);
                assert forall|k: int| !sole_occurrence(address@, sep, k) by {
                    if sole_occurrence(address@, sep, k) {
                        assert(j == k);
                        assert(first == k);
                    }
                }
            }
        }
        return Err(AddressError::InvalidFormat);
    }
    assert(sole_occurrence(address@, sep, first as int));
    let ghost chosen = choose|k: int| sole_occurrence(address@, "://"@, k);
    assert(chosen == first);
    let scheme = address.substring_char(0, first);
    let rest = address.substring_char(first + 3, n);
    let is_tcp = scheme.unicode_len() == 3 && scheme.get_char(0) == 't' && scheme.get_char(1) == 'c'
        && scheme.get_char(2) == 'p';
    assert(is_tcp <==> scheme@ == "tcp"@) by {
        if is_tcp {
            assert(scheme@ =~= "tcp"@);
        }
    }
    if !is_tcp {
        return Err(AddressError::UnsupportedScheme);
    }
    assert(parse_address(address@) == address_parts(address@, first as int));
    match find_last_char(rest, ':') {
        None => Err(AddressError::NoPort),
        Some(c) => {
            let host = rest.substring_char(0, c);
            let port_text = rest.substring_char(c + 1, rest.unicode_len());
            match parse_unsigned_bounded(port_text, 0xffff) {
                None => {
                    let kind = if port_text.unicode_len() == 0 {
                        PortError::Empty
                    } else if !is_unsigned_text(port_text) {
                        PortError::InvalidDigit
                    } else {
                        PortError::TooLarge
                    };
                    Err(AddressError::InvalidPort(kind))
                },
                Some(port) => Ok((host, port as u16, scheme)),
            }
        },
    }
}

} // verus!
