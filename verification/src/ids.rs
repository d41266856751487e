use vstd::prelude::*;

verus! {

/// Unique identifier for a message: 128 random bits, compared by value.
///
/// The canonical textual form (the wire identifier) is [`uuid_text`],
/// produced by [`MessageId::text`].
#[derive(Clone, Copy, Debug, Hash, PartialEq, Eq, Structural)]
pub struct MessageId(pub u128);

/// Unique identifier for a queue: 128 random bits, compared by value.
#[derive(Clone, Copy, Debug, Hash, PartialEq, Eq, Structural)]
pub struct QueueId(pub u128);

/// The hexadecimal digit for one value below 16, lower case.
pub open spec fn hex_digit(n: u128) -> char {
    if n == 0 {
        '0'
    } else if n == 1 {
        '1'
    } else if n == 2 {
        '2'
    } else if n == 3 {
        '3'
    } else if n == 4 {
        '4'
    } else if n == 5 {
        '5'
    } else if n == 6 {
        '6'
    } else if n == 7 {
        '7'
    } else if n == 8 {
        '8'
    } else if n == 9 {
        '9'
    } else if n == 10 {
        'a'
    } else if n == 11 {
        'b'
    } else if n == 12 {
        'c'
    } else if n == 13 {
        'd'
    } else if n == 14 {
        'e'
    } else {
        'f'
    }
}

/// How many hyphens precede position `i` of the 36-character identifier text.
pub open spec fn hyphens_before(i: int) -> int {
    if i < 8 {
        0
    } else if i < 13 {
        1
    } else if i < 18 {
        2
    } else if i < 23 {
        3
    } else {
        4
    }
}

/// The canonical textual form of a 128-bit identifier: 32 lower-case
/// hexadecimal digits, most significant nibble first, with hyphens after
/// digits 8, 12, 16 and 20.
pub open spec fn uuid_text(bits: u128) -> Seq<char> {
    Seq::new(
        36,
        |i: int|
            if i == 8 || i == 13 || i == 18 || i == 23 {
                '-'
            } else {
                hex_digit((bits >> ((124 - 4 * (i - hyphens_before(i))) as u128)) & 0xf)
            },
    )
}

/// Fresh random identifier bits.
///
/// Relies on `uuid::Uuid::new_v4` for a fresh random value; nothing is
/// assumed about the bits that come back.
#[verifier::external_body]
pub(crate) fn random_uuid_bits() -> u128 {
    uuid::Uuid::new_v4().as_u128()
}

/// The canonical textual form of identifier bits.
///
/// Relies on uuid's hyphenated `Display` (via `Uuid::from_u128` and
/// `to_string`): 32 lower-case hexadecimal digits of the value, most
/// significant first, in groups of 8-4-4-4-12.
#[verifier::external_body]
fn uuid_text_exec(bits: u128) -> (r: String)
    ensures
        r@ == uuid_text(bits),
{
    uuid::Uuid::from_u128(bits).to_string()
}

impl MessageId {
    /// A fresh random message identifier.
    pub fn new() -> Self {
        MessageId(random_uuid_bits())
    }

    /// The canonical textual form of this identifier.
    pub fn text(&self) -> (r: String)
        ensures
            r@ == uuid_text(self.0),
    {
        uuid_text_exec(self.0)
    }
}

impl QueueId {
    /// A fresh random queue identifier.
    pub fn new() -> Self {
        QueueId(random_uuid_bits())
    }

    /// The canonical textual form of this identifier.
    pub fn text(&self) -> (r: String)
        ensures
            r@ == uuid_text(self.0),
    {
        uuid_text_exec(self.0)
    }
}

} // verus!
