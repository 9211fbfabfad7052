//! Types shared by the components of Shelly devices, and the device id.
use vstd::prelude::*;
use vstd::string::*;
use crate::room::{find_char, find_char_index};
use crate::text::{hex_byte, new_string, push_char, push_hex_byte, push_str};

verus! {

/// Who issued the last command to an output.
#[derive(Debug, Clone, Copy, PartialEq, Eq, Structural)]
pub enum LastCommandSource {
    Init,
    WsIn,
    Http,
    UI,
    Timer,
    Calibration,
    /// No source recorded (the empty string on the wire).
    NoSource,
}

/// Errors an output reports in its status.
#[derive(Debug, Clone, Copy, PartialEq, Eq, Structural)]
pub enum StatusError {
    Overtemp,
    Overpower,
    Overvoltage,
    Undervoltage,
    Overcurrent,
    UnsupportedLoad,
    CalibrationAbortInterrupted,
    CalibrationAbortPowerRead,
    CalibrationAbortNoLoad,
    CalibrationAbortNonDimmable,
    CalibrationAbortOverpower,
    CalibrationAbortUnsupportedLoad,
}

/// How an output follows its input.
#[derive(Debug, Clone, Copy, PartialEq, Eq, Structural, PartialOrd, Ord)]
pub enum InputMode {
    Follow,
    Flip,
    Activate,
    Detached,
    Dim,
    DualDim,
    Momentary,
    Cycle,
}

/// The state an output takes after power-up.
#[derive(Debug, Clone, Copy, PartialEq, Eq, Structural, PartialOrd, Ord)]
pub enum InitialState {
    On,
    Off,
    RestoreLast,
    MatchInput,
}

/// The Shelly device models the controller drives.
#[derive(Debug, Clone, Copy, PartialEq, Eq, Structural, PartialOrd, Ord, Hash)]
pub enum DeviceType {
    ShellyProDm2Pm,
    ShellyPro4Pm,
}

/// Which certificate authority a TLS connection trusts.
#[derive(Debug, Clone, Copy, PartialEq, Eq, Structural)]
pub enum SslCa {
    Disabled,
    User,
    BuiltIn,
}

/// How an interface obtains its IPv4 address.
#[derive(Debug, Clone, Copy, PartialEq, Eq, Structural)]
pub enum IPv4Mode {
    Dhcp,
    Static,
}

/// Answer to a `SetConfig` call.
#[derive(Debug, Clone, Copy, PartialEq, Eq, Structural)]
pub struct SetConfigResponse {
    pub restart_required: bool,
}

/// A MAC address, its six bytes in order.
#[derive(Debug, Clone, Copy, PartialEq, Eq, Structural, PartialOrd, Ord, Hash)]
pub struct MacAddress(pub u8, pub u8, pub u8, pub u8, pub u8, pub u8);

impl MacAddress {
    pub open spec fn bytes(self) -> Seq<u8> {
        seq![self.0, self.1, self.2, self.3, self.4, self.5]
    }

    /// The bytes in order.
    pub fn to_array(&self) -> (a: [u8; 6])
        ensures
            a@ == self.bytes(),
    {
        let a = [self.0, self.1, self.2, self.3, self.4, self.5];
        assert(a@ =~= self.bytes());
        a
    }
}

/// A device, identified by its model and its MAC address.
#[derive(Debug, Clone, Copy, PartialEq, Eq, Structural, PartialOrd, Ord, Hash)]
pub struct DeviceId {
    pub device_type: DeviceType,
    pub mac: MacAddress,
}

/// Why a MAC address text is not one, as the `macaddr` parser reports it.
#[derive(Debug, Clone, Copy, PartialEq, Eq, Structural)]
pub enum MacParseError {
    InvalidLength(usize),
    InvalidCharacter(char, usize),
}

/// Why a text is not a device id.
#[derive(Debug, Clone)]
pub enum DeviceIdParseError {
    /// There is no `-` between model and MAC address.
    MissingDelimiterError,
    /// The model (given back) is none of the known ones.
    ErrorParseType(String),
    /// The MAC address does not parse.
    ErrorParseMac(MacParseError),
}

/// The name a model has on the wire.
pub open spec fn device_type_text(t: DeviceType) -> Seq<char> {
    match t {
        DeviceType::ShellyProDm2Pm => "shellyprodm2pm"@,
        DeviceType::ShellyPro4Pm => "shellypro4pm"@,
    }
}

/// Lower-case hex digits of the bytes, without separators.
pub open spec fn hex_text(b: Seq<u8>) -> Seq<char>
    decreases b.len(),
{
    if b.len() == 0 {
        Seq::<char>::empty()
    } else {
        hex_byte(b[0]) + hex_text(b.drop_first())
    }
}

/// The text of a device id, as its `Display` writes it: model, `-`, MAC in
/// twelve lower-case hex digits.
pub open spec fn device_id_text(d: DeviceId) -> Seq<char> {
    device_type_text(d.device_type).push('-') + hex_text(d.mac.bytes())
}

/// Value of a lower-case hex digit, or -1 for any other character.
pub open spec fn lower_hex_value(c: char) -> int {
    if '0' <= c && c <= '9' {
        (c as int) - ('0' as int)
    } else if 'a' <= c && c <= 'f' {
        (c as int) - ('a' as int) + 10
    } else {
        -1
    }
}

/// The six bytes spelled by exactly twelve lower-case hex digits.
pub open spec fn plain_hex_mac(s: Seq<char>) -> Option<Seq<u8>> {
    if s.len() == 12 && forall|i: int| 0 <= i < 12 ==> lower_hex_value(#[trigger] s[i]) >= 0 {
        Some(
            Seq::new(
                6,
                |i: int| (16 * lower_hex_value(s[2 * i]) + lower_hex_value(s[2 * i + 1])) as u8,
            ),
        )
    } else {
        None
    }
}

/// The bytes the `macaddr` crate reads from a MAC address text, if it reads any.
pub uninterp spec fn mac_text_bytes(text: Seq<char>) -> Option<Seq<u8>>;

/// Parses a MAC address with `macaddr::MacAddr6::from_str`. Claimed: the
/// result is `Ok` exactly when the named reading succeeds and then holds its
/// six bytes, and twelve lower-case hex digits without separators read as
/// the bytes they spell (the parser's loop reads two hex digits per byte
/// when no delimiter is present and accepts `a`-`f`). The position and
/// length carried by an error are not stated.
#[verifier::external_body]
fn parse_mac(s: &str) -> (r: Result<MacAddress, MacParseError>)
    ensures
        (r is Ok) == (mac_text_bytes(s@) is Some),
        r matches Ok(b) ==> mac_text_bytes(s@) == Some(b.bytes()),
        (r is Ok) || plain_hex_mac(s@) is None,
        r matches Ok(x) ==> (plain_hex_mac(s@) is Some ==> Some(x.bytes()) == plain_hex_mac(s@)),
{
    match <macaddr::MacAddr6 as core::str::FromStr>::from_str(s) {
        Ok(m) => {
            let a = m.into_array();
            Ok(MacAddress(a[0], a[1], a[2], a[3], a[4], a[5]))
        },
        Err(macaddr::ParseError::InvalidLength(n)) => Err(MacParseError::InvalidLength(n)),
        Err(macaddr::ParseError::InvalidCharacter(c, p)) => Err(MacParseError::InvalidCharacter(c, p)),
    }
}

/// Whether two strings hold the same characters.
pub fn str_equals(a: &str, b: &str) -> (r: bool)
    ensures
        r == (a@ == b@),
{
    let n = a.unicode_len();
    if n != b.unicode_len() {
        return false;
    }
    let mut i: usize = 0;
    while i < n
        invariant
            i <= n == a@.len() == b@.len(),
            forall|j: int| 0 <= j < i ==> a@[j] == b@[j],
        decreases n - i,
    {
        if a.get_char(i) != b.get_char(i) {
            return false;
        }
        i = i + 1;
    }
    assert(a@ =~= b@);
    true
}

/// What parsing a device id gives: `None` for a missing `-`, else the
/// model (when known) and the MAC reading of what follows the first `-`.
pub open spec fn device_id_parse_spec(s: Seq<char>) -> Option<(Option<DeviceType>, Option<Seq<u8>>)> {
    let p = find_char(s, '-');
    if p >= s.len() {
        None
    } else {
        let t = s.subrange(0, p);
        let device_type = if t == "shellyprodm2pm"@ {
            Some(DeviceType::ShellyProDm2Pm)
        } else if t == "shellypro4pm"@ {
            Some(DeviceType::ShellyPro4Pm)
        } else {
            None
        };
        Some((device_type, mac_text_bytes(s.subrange(p + 1, s.len() as int))))
    }
}

impl DeviceType {
    /// The model name as written on the wire.
    pub fn name(&self) -> (s: &'static str)
        ensures
            s@ == device_type_text(*self),
    {
        match self {
            DeviceType::ShellyProDm2Pm => "shellyprodm2pm",
            DeviceType::ShellyPro4Pm => "shellypro4pm",
        }
    }
}

impl DeviceId {
    /// The text of the id: model, `-`, twelve lower-case hex digits.
    pub fn to_string(&self) -> (s: String)
        ensures
            s@ == device_id_text(*self),
    {
        let mut s = new_string();
        push_str(&mut s, self.device_type.name());
        push_char(&mut s, '-');
        let mac = self.mac.to_array();
        let ghost start = s@;
        let mut i: usize = 0;
        while i < 6
            invariant
                i <= 6,
                mac@ == self.mac.bytes(),
                start == device_type_text(self.device_type).push('-'),
                s@ == start + hex_text(mac@.subrange(0, i as int)),
            decreases 6 - i,
        {
            proof {
                lemma_hex_text_push(mac@.subrange(0, i as int), mac[i as int]);
                assert(mac@.subrange(0, i as int).push(mac[i as int]) =~= mac@.subrange(0, i + 1));
            }
            push_hex_byte(&mut s, mac[i]);
            i = i + 1;
        }
        assert(mac@.subrange(0, 6) =~= mac@);
        s
    }

    /// Parses `"<model>-<mac>"`, splitting at the first `-`.
    pub fn parse(s: &str) -> (r: Result<DeviceId, DeviceIdParseError>)
        ensures
            match device_id_parse_spec(s@) {
                None => r matches Err(DeviceIdParseError::MissingDelimiterError),
                Some((None, _)) => r matches Err(DeviceIdParseError::ErrorParseType(t)) && t@
                    == s@.subrange(0, find_char(s@, '-')),
                Some((Some(_), None)) => r matches Err(DeviceIdParseError::ErrorParseMac(_)),
                Some((Some(t), Some(m))) => r matches Ok(d) && d.device_type == t && d.mac.bytes() == m,
            },
            ((device_id_parse_spec(s@) matches Some((Some(t), _))) && plain_hex_mac(
                s@.subrange(find_char(s@, '-') + 1, s@.len() as int),
            ) is Some) ==> (r matches Ok(d) && Some(d.mac.bytes()) == plain_hex_mac(
                s@.subrange(find_char(s@, '-') + 1, s@.len() as int),
            )),
    {
        let n = s.unicode_len();
        let p = find_char_index(s, '-');
        if p >= n {
            return Err(DeviceIdParseError::MissingDelimiterError);
        }
        let type_str = s.substring_char(0, p);
        let device_type = if str_equals(type_str, "shellyprodm2pm") {
            DeviceType::ShellyProDm2Pm
        } else if str_equals(type_str, "shellypro4pm") {
            DeviceType::ShellyPro4Pm
        } else {
            let mut t = new_string();
            push_str(&mut t, type_str);
            return Err(DeviceIdParseError::ErrorParseType(t));
        };
        let mac_str = s.substring_char(p + 1, n);
        match parse_mac(mac_str) {
            Ok(mac) => Ok(DeviceId { device_type, mac }),
            Err(e) => Err(DeviceIdParseError::ErrorParseMac(e)),
        }
    }
}

proof fn lemma_hex_char_value(d: int)
    requires
        0 <= d < 16,
    ensures
        lower_hex_value(crate::text::hex_char(d)) == d,
{
}

/// The hex text of six bytes reads back, without separators, as those bytes.
pub proof fn lemma_plain_hex_mac(m: MacAddress)
    ensures
        plain_hex_mac(hex_text(m.bytes())) == Some(m.bytes()),
{
    let b = m.bytes();
    let t = hex_text(b);
    reveal_with_fuel(hex_text, 7);
    assert(b.drop_first() =~= seq![m.1, m.2, m.3, m.4, m.5]);
    assert(t =~= hex_byte(m.0) + hex_byte(m.1) + hex_byte(m.2) + hex_byte(m.3) + hex_byte(m.4)
        + hex_byte(m.5)) by {
        assert(b.drop_first().drop_first() =~= seq![m.2, m.3, m.4, m.5]);
        assert(b.drop_first().drop_first().drop_first() =~= seq![m.3, m.4, m.5]);
        assert(b.drop_first().drop_first().drop_first().drop_first() =~= seq![m.4, m.5]);
        assert(b.drop_first().drop_first().drop_first().drop_first().drop_first() =~= seq![m.5]);
        assert(b.drop_first().drop_first().drop_first().drop_first().drop_first().drop_first()
            =~= Seq::<u8>::empty());
    }
    assert forall|i: int| 0 <= i < 12 implies lower_hex_value(#[trigger] t[i]) >= 0 by {
        let k = i / 2;
        lemma_hex_char_value((b[k] / 16) as int);
        lemma_hex_char_value((b[k] % 16) as int);
    }
    assert forall|i: int| 0 <= i < 6 implies (16 * lower_hex_value(t[2 * i]) + lower_hex_value(
        t[2 * i + 1],
    )) as u8 == b[i] by {
        lemma_hex_char_value((b[i] / 16) as int);
        lemma_hex_char_value((b[i] % 16) as int);
    }
    assert(plain_hex_mac(t)->0 =~= b);
}

/// The text of a device id splits at its first `-` into the model name and
/// a plain hex MAC that reads back as the id's bytes; with the contract of
/// `DeviceId::parse` this gives back the id from its text.
pub proof fn lemma_device_id_text_roundtrip(d: DeviceId)
    ensures
        device_id_parse_spec(device_id_text(d)) matches Some((Some(t), _)) && t == d.device_type,
        plain_hex_mac(
            device_id_text(d).subrange(
                find_char(device_id_text(d), '-') + 1,
                device_id_text(d).len() as int,
            ),
        ) == Some(d.mac.bytes()),
{
    let s = device_id_text(d);
    let n = device_type_text(d.device_type);
    reveal_strlit("shellyprodm2pm");
    reveal_strlit("shellypro4pm");
    assert(forall|i: int| 0 <= i < n.len() ==> n[i] != '-');
    crate::room::lemma_find_char_skips(s, '-', 0, n.len() as int);
    assert(s[n.len() as int] == '-');
    assert(find_char(s, '-') == n.len());
    assert(s.subrange(0, n.len() as int) =~= n);
    assert(s.subrange(n.len() as int + 1, s.len() as int) =~= hex_text(d.mac.bytes()));
    lemma_plain_hex_mac(d.mac);
}

proof fn lemma_hex_text_push(b: Seq<u8>, x: u8)
    ensures
        hex_text(b.push(x)) == hex_text(b) + hex_byte(x),
    decreases b.len(),
{
    if b.len() == 0 {
        assert(b.push(x).drop_first() =~= Seq::<u8>::empty());
        reveal_with_fuel(hex_text, 2);
        assert(hex_text(b.push(x)) =~= hex_byte(x));
    } else {
        assert(b.push(x).drop_first() =~= b.drop_first().push(x));
        lemma_hex_text_push(b.drop_first(), x);
        assert(hex_text(b.push(x)) =~= hex_text(b) + hex_byte(x));
    }
}

} // verus!
