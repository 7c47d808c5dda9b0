//! Bomb-wide facts that edgework conditions read: the serial number and the port plates.
use vstd::prelude::*;

verus! {

/// The kinds of port a port plate can hold.
#[derive(Debug, Clone, Copy, PartialEq, Eq, Structural)]
pub enum PortType {
    Serial,
    Parallel,
    DVI,
    PS2,
    RJ45,
    StereoRCA,
}

impl PortType {
    /// Every port type, in catalog order.
    pub open spec fn all() -> Seq<PortType> {
        seq![
            PortType::Serial,
            PortType::Parallel,
            PortType::DVI,
            PortType::PS2,
            PortType::RJ45,
            PortType::StereoRCA,
        ]
    }

    /// Every port type, in catalog order.
    pub fn all_types() -> (r: Vec<PortType>)
        ensures
            r@ == Self::all(),
    {
        let r = vec![
            PortType::Serial,
            PortType::Parallel,
            PortType::DVI,
            PortType::PS2,
            PortType::RJ45,
            PortType::StereoRCA,
        ];
        assert(r@ =~= Self::all());
        r
    }
}

/// One port plate: empty, or holding some port types.
#[derive(Debug, PartialEq, Eq)]
pub struct PortPlate {
    ports: Vec<PortType>,
}

impl View for PortPlate {
    type V = Seq<PortType>;

    closed spec fn view(&self) -> Seq<PortType> {
        self.ports@
    }
}

impl PortPlate {
    /// A plate holding `ports`.
    pub fn new(ports: Vec<PortType>) -> (r: PortPlate)
        ensures
            r@ == ports@,
    {
        PortPlate { ports }
    }

    /// Whether the plate holds no port.
    pub fn is_empty(&self) -> (r: bool)
        ensures
            r == (self@.len() == 0),
    {
        self.ports.len() == 0
    }

    /// Whether the plate holds a port of type `port`.
    pub fn has(&self, port: PortType) -> (r: bool)
        ensures
            r == self@.contains(port),
    {
        let mut i: usize = 0;
        while i < self.ports.len()
            invariant
                i <= self.ports@.len(),
                forall|j: int| 0 <= j < i ==> self.ports@[j] != port,
            decreases self.ports@.len() - i,
        {
            if self.ports[i] == port {
                return true;
            }
            i += 1;
        }
        false
    }
}

pub const ASCII_0: u8 = 48;

pub const ASCII_9: u8 = 57;

pub const ASCII_UPPER_A: u8 = 65;

pub const ASCII_UPPER_Z: u8 = 90;

pub const ASCII_LOWER_A: u8 = 97;

pub const ASCII_LOWER_Z: u8 = 122;

pub open spec fn is_ascii_digit(b: u8) -> bool {
    ASCII_0 <= b <= ASCII_9
}

pub open spec fn is_ascii_uppercase(b: u8) -> bool {
    ASCII_UPPER_A <= b <= ASCII_UPPER_Z
}

pub open spec fn is_ascii_alphanumeric(b: u8) -> bool {
    is_ascii_digit(b) || is_ascii_uppercase(b) || (ASCII_LOWER_A <= b <= ASCII_LOWER_Z)
}

/// A serial number: ASCII text that starts with a letter or digit and ends with a digit.
#[derive(Debug, PartialEq, Eq)]
pub struct SerialNumber {
    bytes: Vec<u8>,
}

impl View for SerialNumber {
    type V = Seq<u8>;

    closed spec fn view(&self) -> Seq<u8> {
        self.bytes@
    }
}

impl SerialNumber {
    #[verifier::type_invariant]
    spec fn well_formed(self) -> bool {
        &&& 0 < self.bytes@.len()
        &&& is_ascii_alphanumeric(self.bytes@[0])
        &&& is_ascii_digit(self.bytes@.last())
    }

    /// What a serial number must look like.
    pub open spec fn valid(text: Seq<u8>) -> bool {
        &&& 0 < text.len()
        &&& is_ascii_alphanumeric(text[0])
        &&& is_ascii_digit(text.last())
    }

    /// The serial number spelled by `text`, if it is a valid one.
    pub fn new(text: Vec<u8>) -> (r: Option<SerialNumber>)
        ensures
            r is Some <==> Self::valid(text@),
            r matches Some(s) ==> s@ == text@,
    {
        let n = text.len();
        if n == 0 {
            return None;
        }
        let first = text[0];
        let last = text[n - 1];
        let first_ok = (ASCII_0 <= first && first <= ASCII_9) || (ASCII_UPPER_A <= first && first
            <= ASCII_UPPER_Z) || (ASCII_LOWER_A <= first && first <= ASCII_LOWER_Z);
        if first_ok && ASCII_0 <= last && last <= ASCII_9 {
            Some(SerialNumber { bytes: text })
        } else {
            None
        }
    }

    /// The value of the last digit.
    pub open spec fn spec_last_digit(self) -> int {
        self@.last() - ASCII_0
    }

    /// Whether the first character is an uppercase letter.
    pub fn starts_with_letter(&self) -> (r: bool)
        ensures
            r == is_ascii_uppercase(self@[0]),
    {
        proof {
            use_type_invariant(self);
        }
        let b = self.bytes[0];
        ASCII_UPPER_A <= b && b <= ASCII_UPPER_Z
    }

    /// The value of the trailing digit.
    pub fn last_digit(&self) -> (r: u8)
        ensures
            r == self.spec_last_digit(),
            r <= 9,
    {
        proof {
            use_type_invariant(self);
        }
        self.bytes[self.bytes.len() - 1] - ASCII_0
    }
}

/// The bomb-wide facts that edgework conditions are evaluated against.
#[derive(Debug, PartialEq, Eq)]
pub struct Edgework {
    pub serial_number: SerialNumber,
    pub port_plates: Vec<PortPlate>,
}

} // verus!
