//! Components of a Shelly device, their keys and their addresses.
use vstd::prelude::*;
use vstd::string::*;
use crate::keys::{
    key_text, lemma_key_text_roundtrip, parse_key_spec, PrefixedKey, SerdeStringKey, ParseKeyError,
};
use crate::shelly::common::{device_id_text, DeviceId};
use crate::shelly::{ble, bthome, cloud, eth, input, knx, light, mqtt, switch, sys, ui, wifi, ws};
use crate::text::{new_string, push_char, push_str};

verus! {

/// An output that can be switched: a relay or a light.
#[derive(Debug, Clone, Copy, PartialEq, Eq, Structural, Hash, PartialOrd, Ord)]
pub enum SwitchingKey {
    Switch(switch::Key),
    Light(light::Key),
}

/// A text that is neither a switch key nor a light key.
#[derive(Debug, Clone, Copy, PartialEq, Eq, Structural)]
pub struct SwitchingKeyParseError;

/// The text of a switching key.
pub open spec fn switching_key_text(k: SwitchingKey) -> Seq<char> {
    match k {
        SwitchingKey::Switch(s) => key_text(s.0),
        SwitchingKey::Light(l) => key_text(l.0),
    }
}

/// What parsing a switching key gives: a switch key when the text is one,
/// else a light key when it is one, else an error.
pub open spec fn switching_key_parse_spec(s: Seq<char>) -> Option<SwitchingKey> {
    match parse_key_spec(switch::SwitchKey::prefix_text(), s) {
        Ok(v) => Some(SwitchingKey::Switch(SerdeStringKey(switch::SwitchKey { id: v }))),
        Err(_) => match parse_key_spec(light::LightKey::prefix_text(), s) {
            Ok(v) => Some(SwitchingKey::Light(SerdeStringKey(light::LightKey { id: v }))),
            Err(_) => None,
        },
    }
}

impl SwitchingKey {
    /// Parses a switching key from its text.
    pub fn parse(s: &str) -> (r: Result<SwitchingKey, SwitchingKeyParseError>)
        ensures
            match switching_key_parse_spec(s@) {
                Some(k) => r == Ok::<SwitchingKey, SwitchingKeyParseError>(k),
                None => r is Err,
            },
    {
        match SerdeStringKey::<switch::SwitchKey>::parse(s) {
            Ok(k) => Ok(SwitchingKey::Switch(k)),
            Err(_) => match SerdeStringKey::<light::LightKey>::parse(s) {
                Ok(k) => Ok(SwitchingKey::Light(k)),
                Err(_) => Err(SwitchingKeyParseError),
            },
        }
    }

    /// The text of the key.
    pub fn to_string(&self) -> (s: String)
        ensures
            s@ == switching_key_text(*self),
    {
        match self {
            SwitchingKey::Switch(k) => k.to_string(),
            SwitchingKey::Light(k) => k.to_string(),
        }
    }
}

impl core::str::FromStr for SwitchingKey {
    type Err = SwitchingKeyParseError;

    fn from_str(s: &str) -> (r: Result<SwitchingKey, SwitchingKeyParseError>)
        ensures
            match switching_key_parse_spec(s@) {
                Some(k) => r == Ok::<SwitchingKey, SwitchingKeyParseError>(k),
                None => r is Err,
            },
    {
        SwitchingKey::parse(s)
    }
}

/// Writing a switching key as text and parsing it back gives the same key.
pub proof fn lemma_switching_key_roundtrip(k: SwitchingKey)
    ensures
        switching_key_parse_spec(switching_key_text(k)) == Some(k),
{
    match k {
        SwitchingKey::Switch(s) => {
            lemma_key_text_roundtrip(s.0);
        },
        SwitchingKey::Light(l) => {
            let t = key_text(l.0);
            assert(t[0] == 'l');
            assert(t.subrange(0, 7)[0] == 'l');
            assert(t.subrange(0, 7) != switch::SwitchKey::prefix_text());
            lemma_key_text_roundtrip(l.0);
        },
    }
}

/// Key of any component of a device.
#[derive(Debug, Clone, Copy, PartialEq, Eq, Structural, Hash, PartialOrd, Ord)]
pub enum ComponentKey {
    Input(input::Key),
    Ble(ble::Key),
    Cloud(cloud::Key),
    Eth(eth::Key),
    Light(light::Key),
    Mqtt(mqtt::Key),
    Switch(switch::Key),
    Sys(sys::Key),
    Ws(ws::Key),
    Wifi(wifi::Key),
    Ui(ui::Key),
    Bthome(bthome::Key),
    Knx(knx::Key),
}

/// The text of a component key: numbered keys as `"<kind>:<n>"`, the single
/// components by the name of their key.
pub open spec fn component_key_text(k: ComponentKey) -> Seq<char> {
    match k {
        ComponentKey::Input(i) => key_text(i.0),
        ComponentKey::Ble(_) => "BLE"@,
        ComponentKey::Cloud(_) => "Cloud"@,
        ComponentKey::Eth(_) => "Eth"@,
        ComponentKey::Light(l) => key_text(l.0),
        ComponentKey::Mqtt(_) => "Mqtt"@,
        ComponentKey::Switch(s) => key_text(s.0),
        ComponentKey::Sys(_) => "Sys"@,
        ComponentKey::Ws(_) => "Ws"@,
        ComponentKey::Wifi(_) => "Wifi"@,
        ComponentKey::Ui(_) => "Ui"@,
        ComponentKey::Bthome(_) => "Bthome"@,
        ComponentKey::Knx(_) => "Knx"@,
    }
}

fn literal_string(t: &str) -> (s: String)
    ensures
        s@ == t@,
{
    let mut s = new_string();
    push_str(&mut s, t);
    s
}

impl ComponentKey {
    /// The text of the key.
    pub fn to_string(&self) -> (s: String)
        ensures
            s@ == component_key_text(*self),
    {
        match self {
            ComponentKey::Input(k) => k.to_string(),
            ComponentKey::Ble(_) => literal_string("BLE"),
            ComponentKey::Cloud(_) => literal_string("Cloud"),
            ComponentKey::Eth(_) => literal_string("Eth"),
            ComponentKey::Light(k) => k.to_string(),
            ComponentKey::Mqtt(_) => literal_string("Mqtt"),
            ComponentKey::Switch(k) => k.to_string(),
            ComponentKey::Sys(_) => literal_string("Sys"),
            ComponentKey::Ws(_) => literal_string("Ws"),
            ComponentKey::Wifi(_) => literal_string("Wifi"),
            ComponentKey::Ui(_) => literal_string("Ui"),
            ComponentKey::Bthome(_) => literal_string("Bthome"),
            ComponentKey::Knx(_) => literal_string("Knx"),
        }
    }
}

/// A component a device reports, by kind and key (what the controller reads
/// of a component entry).
#[derive(Debug, Clone, Copy, PartialEq, Eq, Structural)]
pub enum ComponentEntry {
    Input(input::Key),
    Ble(ble::Key),
    Cloud(cloud::Key),
    Eth(eth::Key),
    Light(light::Key),
    Mqtt(mqtt::Key),
    Switch(switch::Key),
    Sys(sys::Key),
    Ws(ws::Key),
    Wifi(wifi::Key),
    Ui(ui::Key),
    Bthome(bthome::Key),
    Knx(knx::Key),
}

pub open spec fn entry_key(e: ComponentEntry) -> ComponentKey {
    match e {
        ComponentEntry::Input(k) => ComponentKey::Input(k),
        ComponentEntry::Ble(k) => ComponentKey::Ble(k),
        ComponentEntry::Cloud(k) => ComponentKey::Cloud(k),
        ComponentEntry::Eth(k) => ComponentKey::Eth(k),
        ComponentEntry::Light(k) => ComponentKey::Light(k),
        ComponentEntry::Mqtt(k) => ComponentKey::Mqtt(k),
        ComponentEntry::Switch(k) => ComponentKey::Switch(k),
        ComponentEntry::Sys(k) => ComponentKey::Sys(k),
        ComponentEntry::Ws(k) => ComponentKey::Ws(k),
        ComponentEntry::Wifi(k) => ComponentKey::Wifi(k),
        ComponentEntry::Ui(k) => ComponentKey::Ui(k),
        ComponentEntry::Bthome(k) => ComponentKey::Bthome(k),
        ComponentEntry::Knx(k) => ComponentKey::Knx(k),
    }
}

pub open spec fn entry_type_name(e: ComponentEntry) -> Seq<char> {
    match e {
        ComponentEntry::Input(_) => "Input"@,
        ComponentEntry::Ble(_) => "Ble"@,
        ComponentEntry::Cloud(_) => "Cloud"@,
        ComponentEntry::Eth(_) => "Eth"@,
        ComponentEntry::Light(_) => "Light"@,
        ComponentEntry::Mqtt(_) => "Mqtt"@,
        ComponentEntry::Switch(_) => "Switch"@,
        ComponentEntry::Sys(_) => "Sys"@,
        ComponentEntry::Ws(_) => "Ws"@,
        ComponentEntry::Wifi(_) => "Wifi"@,
        ComponentEntry::Ui(_) => "Ui"@,
        ComponentEntry::Bthome(_) => "Bthome"@,
        ComponentEntry::Knx(_) => "Knx"@,
    }
}

impl ComponentEntry {
    /// The key of the component, of the matching kind.
    pub fn key(&self) -> (k: ComponentKey)
        ensures
            k == entry_key(*self),
    {
        match self {
            ComponentEntry::Input(k) => ComponentKey::Input(*k),
            ComponentEntry::Ble(k) => ComponentKey::Ble(*k),
            ComponentEntry::Cloud(k) => ComponentKey::Cloud(*k),
            ComponentEntry::Eth(k) => ComponentKey::Eth(*k),
            ComponentEntry::Light(k) => ComponentKey::Light(*k),
            ComponentEntry::Mqtt(k) => ComponentKey::Mqtt(*k),
            ComponentEntry::Switch(k) => ComponentKey::Switch(*k),
            ComponentEntry::Sys(k) => ComponentKey::Sys(*k),
            ComponentEntry::Ws(k) => ComponentKey::Ws(*k),
            ComponentEntry::Wifi(k) => ComponentKey::Wifi(*k),
            ComponentEntry::Ui(k) => ComponentKey::Ui(*k),
            ComponentEntry::Bthome(k) => ComponentKey::Bthome(*k),
            ComponentEntry::Knx(k) => ComponentKey::Knx(*k),
        }
    }

    /// The name of the kind of component.
    pub fn kind_name(&self) -> (n: &'static str)
        ensures
            n@ == entry_type_name(*self),
    {
        match self {
            ComponentEntry::Input(_) => "Input",
            ComponentEntry::Ble(_) => "Ble",
            ComponentEntry::Cloud(_) => "Cloud",
            ComponentEntry::Eth(_) => "Eth",
            ComponentEntry::Light(_) => "Light",
            ComponentEntry::Mqtt(_) => "Mqtt",
            ComponentEntry::Switch(_) => "Switch",
            ComponentEntry::Sys(_) => "Sys",
            ComponentEntry::Ws(_) => "Ws",
            ComponentEntry::Wifi(_) => "Wifi",
            ComponentEntry::Ui(_) => "Ui",
            ComponentEntry::Bthome(_) => "Bthome",
            ComponentEntry::Knx(_) => "Knx",
        }
    }
}

/// A component of a specific device.
#[derive(Debug, Clone, Copy, PartialEq, Eq, Structural, Hash, PartialOrd, Ord)]
pub struct ComponentAddress {
    pub device: DeviceId,
    pub key: ComponentKey,
}

impl ComponentAddress {
    /// The text of the address: `"<device>:<key>"`.
    pub fn to_string(&self) -> (s: String)
        ensures
            s@ == device_id_text(self.device).push(':') + component_key_text(self.key),
    {
        let mut s = self.device.to_string();
        push_char(&mut s, ':');
        let k = self.key.to_string();
        push_str(&mut s, k.as_str());
        s
    }
}

/// A page of the components of a device, as `shelly.getcomponents` answers.
#[derive(Debug, Clone)]
pub struct GetComponentsResponse {
    pub components: Vec<ComponentEntry>,
    pub cfg_rev: u16,
    pub offset: u16,
    pub total: u16,
}

impl GetComponentsResponse {
    pub fn components(&self) -> (c: &Vec<ComponentEntry>)
        ensures
            c@ == self.components@,
    {
        &self.components
    }

    pub fn cfg_rev(&self) -> (r: u16)
        ensures
            r == self.cfg_rev,
    {
        self.cfg_rev
    }

    pub fn offset(&self) -> (r: u16)
        ensures
            r == self.offset,
    {
        self.offset
    }

    pub fn total(&self) -> (r: u16)
        ensures
            r == self.total,
    {
        self.total
    }

    /// After adding this page to the `collected` entries: `None` when all
    /// `total` components are known, else the offset of the next page
    /// (`offset` advanced by the size of this page).
    pub fn next_offset(&self, collected: usize, offset: u16) -> (r: Option<u16>)
        requires
            self.total as int > collected ==> offset + self.components@.len() <= u16::MAX,
        ensures
            r == (if self.total as int <= collected {
                None
            } else {
                Some((offset + self.components@.len()) as u16)
            }),
    {
        if (self.total as usize) <= collected {
            None
        } else {
            Some(offset + self.components.len() as u16)
        }
    }
}

} // verus!
