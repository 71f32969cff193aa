//! Identifiers: of an engine, of the entities created inside it, and the keys
//! under which notifications are routed.

use vstd::prelude::*;
use vstd::string::*;

verus! {

/// The lower-case character that stands for a hexadecimal digit.
pub open spec fn hex_digit_char(d: nat) -> char {
    if d == 0 {
        '0'
    } else if d == 1 {
        '1'
    } else if d == 2 {
        '2'
    } else if d == 3 {
        '3'
    } else if d == 4 {
        '4'
    } else if d == 5 {
        '5'
    } else if d == 6 {
        '6'
    } else if d == 7 {
        '7'
    } else if d == 8 {
        '8'
    } else if d == 9 {
        '9'
    } else if d == 10 {
        'a'
    } else if d == 11 {
        'b'
    } else if d == 12 {
        'c'
    } else if d == 13 {
        'd'
    } else if d == 14 {
        'e'
    } else {
        'f'
    }
}

/// How many hyphens stand before position `at` of a UUID's text.
pub open spec fn hyphens_before(at: int) -> int {
    if at > 23 {
        4
    } else if at > 18 {
        3
    } else if at > 13 {
        2
    } else if at > 8 {
        1
    } else {
        0
    }
}

/// The character at position `at` of the text of the UUID whose 128 bits
/// are `value`: a hyphen at the positions 8, 13, 18 and 23, and elsewhere
/// the next hexadecimal digit of `value`, the most significant first.
pub open spec fn uuid_char(value: u128, at: int) -> char {
    if at == 8 || at == 13 || at == 18 || at == 23 {
        '-'
    } else {
        let digit = at - hyphens_before(at);
        hex_digit_char(((value >> ((4 * (31 - digit)) as u128)) & 0xf) as nat)
    }
}

/// The text of the UUID whose 128 bits are `value`: its 32 hexadecimal
/// digits in lower case, in groups of 8, 4, 4, 4 and 12 with hyphens
/// between them.
pub open spec fn uuid_text(value: u128) -> Seq<char> {
    Seq::new(36, |at: int| uuid_char(value, at))
}

/// Whether `value` carries the marks of a random UUID: version four in its
/// version digit and the two variant bits set to one and zero.
pub open spec fn is_random_uuid(value: u128) -> bool {
    value & 0x0000_0000_0000_f000_c000_0000_0000_0000u128
        == 0x0000_0000_0000_4000_8000_0000_0000_0000u128
}

/// `Uuid::new_v4` of the `uuid` crate, read as 128 bits by `Uuid::as_u128`.
/// The value is random; all that is claimed of it is that its version digit
/// and variant bits are those of a random UUID.
#[verifier::external_body]
fn random_uuid() -> (value: u128)
    ensures
        is_random_uuid(value),
{
    uuid::Uuid::new_v4().as_u128()
}

/// `Display` of the `uuid` crate's `Uuid`, on the UUID that `Uuid::from_u128`
/// makes of `value`. What is claimed of it is that it writes the hyphenated
/// lower-case form, which `uuid_text` spells out.
#[verifier::external_body]
fn uuid_to_string(value: u128) -> (text: String)
    ensures
        text@ == uuid_text(value),
{
    uuid::Uuid::from_u128(value).to_string()
}

/// Identifier of an engine.
#[derive(Debug, Copy, Clone, PartialEq, Eq, Structural, Hash)]
pub struct WorkerId {
    /// The 128 bits of the identifier.
    pub value: u128,
}

impl WorkerId {
    /// Makes a fresh random identifier.
    pub fn new() -> (id: Self)
        ensures
            is_random_uuid(id.value),
    {
        WorkerId { value: random_uuid() }
    }

    /// The identifier as text.
    pub fn to_text(&self) -> (text: String)
        ensures
            text@ == uuid_text(self.value),
    {
        uuid_to_string(self.value)
    }
}

/// Identifier of a router.
#[derive(Debug, Copy, Clone, PartialEq, Eq, Structural, Hash)]
pub struct RouterId {
    /// The 128 bits of the identifier.
    pub value: u128,
}

impl RouterId {
    /// Makes a fresh random identifier.
    pub fn new() -> (id: Self)
        ensures
            is_random_uuid(id.value),
    {
        RouterId { value: random_uuid() }
    }

    /// The identifier as text.
    pub fn to_text(&self) -> (text: String)
        ensures
            text@ == uuid_text(self.value),
    {
        uuid_to_string(self.value)
    }

    /// The key under which notifications about this router are routed.
    pub fn target(&self) -> (target: SubscriptionTarget)
        ensures
            target@ == TargetKey::Uuid(self.value),
    {
        SubscriptionTarget::Uuid(self.value)
    }
}

/// Identifier of a WebRTC server.
#[derive(Debug, Copy, Clone, PartialEq, Eq, Structural, Hash)]
pub struct WebRtcServerId {
    /// The 128 bits of the identifier.
    pub value: u128,
}

impl WebRtcServerId {
    /// Makes a fresh random identifier.
    pub fn new() -> (id: Self)
        ensures
            is_random_uuid(id.value),
    {
        WebRtcServerId { value: random_uuid() }
    }

    /// The identifier as text.
    pub fn to_text(&self) -> (text: String)
        ensures
            text@ == uuid_text(self.value),
    {
        uuid_to_string(self.value)
    }

    /// The key under which notifications about this server are routed.
    pub fn target(&self) -> (target: SubscriptionTarget)
        ensures
            target@ == TargetKey::Uuid(self.value),
    {
        SubscriptionTarget::Uuid(self.value)
    }
}

/// What a routing key is, as a mathematical value.
pub enum TargetKey {
    /// An entity, by its identifier.
    Uuid(u128),
    /// A fixed text, such as a process identifier.
    Text(Seq<char>),
}

/// Routing key for notifications.
#[derive(Debug, PartialEq, Eq)]
pub enum SubscriptionTarget {
    /// An entity, by its identifier.
    Uuid(u128),
    /// A fixed text, such as a process identifier.
    String(String),
}

impl View for SubscriptionTarget {
    type V = TargetKey;

    open spec fn view(&self) -> TargetKey {
        match self {
            SubscriptionTarget::Uuid(value) => TargetKey::Uuid(*value),
            SubscriptionTarget::String(text) => TargetKey::Text(text@),
        }
    }
}

impl SubscriptionTarget {
    /// Whether two keys address the same recipient.
    pub fn same_as(&self, other: &SubscriptionTarget) -> (same: bool)
        ensures
            same == (self@ == other@),
    {
        match (self, other) {
            (SubscriptionTarget::Uuid(a), SubscriptionTarget::Uuid(b)) => *a == *b,
            (SubscriptionTarget::String(a), SubscriptionTarget::String(b)) => a.eq(b),
            _ => false,
        }
    }

    /// A copy of the key.
    pub fn duplicate(&self) -> (copy: SubscriptionTarget)
        ensures
            copy@ == self@,
    {
        match self {
            SubscriptionTarget::Uuid(value) => SubscriptionTarget::Uuid(*value),
            SubscriptionTarget::String(text) => SubscriptionTarget::String(text.clone()),
        }
    }
}

} // verus!
