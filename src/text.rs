//! How colors, conditions and solutions read in the manual.
use vstd::prelude::*;
use vstd::string::*;

use crate::edgework::PortType;
use crate::wires::{Color, EdgeworkQuery, Solution, WireQuery, WireQueryType};

verus! {

/// The decimal digit `d`.
pub open spec fn digit_char(d: nat) -> char {
    seq!['0', '1', '2', '3', '4', '5', '6', '7', '8', '9'][d as int]
}

/// `n` written in decimal.
pub open spec fn decimal(n: nat) -> Seq<char>
    decreases n,
{
    if n < 10 {
        seq![digit_char(n)]
    } else {
        decimal(n / 10) + seq![digit_char(n % 10)]
    }
}

/// The English ordinal suffix of `n`.
pub open spec fn ordinal_suffix(n: nat) -> Seq<char> {
    if 11 <= n % 100 <= 13 {
        "th"@
    } else if n % 10 == 1 {
        "st"@
    } else if n % 10 == 2 {
        "nd"@
    } else if n % 10 == 3 {
        "rd"@
    } else {
        "th"@
    }
}

/// Relies on the `Display` of `ordinal::Ordinal`: the number in decimal followed by its
/// suffix, chosen from the number modulo 100 and modulo 10.
#[verifier::external_body]
fn ordinal_text(n: u16) -> (r: String)
    ensures
        r@ == decimal(n as nat) + ordinal_suffix(n as nat),
{
    ordinal::Ordinal(n).to_string()
}

impl Color {
    /// The color's name, in lower case.
    pub open spec fn name(self) -> Seq<char> {
        match self {
            Color::Black => "black"@,
            Color::Blue => "blue"@,
            Color::Red => "red"@,
            Color::White => "white"@,
            Color::Yellow => "yellow"@,
        }
    }

    /// The color's name, in lower case.
    pub fn as_str(&self) -> (r: &'static str)
        ensures
            r@ == self.name(),
    {
        match self {
            Color::Black => "black",
            Color::Blue => "blue",
            Color::Red => "red",
            Color::White => "white",
            Color::Yellow => "yellow",
        }
    }

    /// The color's name, in lower case.
    pub fn to_string(&self) -> (r: String)
        ensures
            r@ == self.name(),
    {
        String::from_str(self.as_str())
    }
}

impl PortType {
    /// The port's name.
    pub open spec fn name(self) -> Seq<char> {
        match self {
            PortType::Serial => "Serial"@,
            PortType::Parallel => "Parallel"@,
            PortType::DVI => "DVI"@,
            PortType::PS2 => "PS2"@,
            PortType::RJ45 => "RJ45"@,
            PortType::StereoRCA => "StereoRCA"@,
        }
    }

    /// The port's name.
    pub fn as_str(&self) -> (r: &'static str)
        ensures
            r@ == self.name(),
    {
        match self {
            PortType::Serial => "Serial",
            PortType::Parallel => "Parallel",
            PortType::DVI => "DVI",
            PortType::PS2 => "PS2",
            PortType::RJ45 => "RJ45",
            PortType::StereoRCA => "StereoRCA",
        }
    }
}

impl WireQuery {
    /// How the condition reads in the manual.
    pub open spec fn text(self) -> Seq<char> {
        let c = self.color.name();
        match self.query_type {
            WireQueryType::ExactlyOneOfColor => "there is exactly one "@ + c + " wire"@,
            WireQueryType::MoreThanOneOfColor => "there is more than one "@ + c + " wire"@,
            WireQueryType::ExactlyZeroOfColor => "there are no "@ + c + " wires"@,
            WireQueryType::LastWireIs => "the last wire is "@ + c,
        }
    }

    /// How the condition reads in the manual.
    pub fn to_string(&self) -> (r: String)
        ensures
            r@ == self.text(),
    {
        let color = self.color.as_str();
        match self.query_type {
            WireQueryType::ExactlyOneOfColor => String::from_str("there is exactly one ").concat(
                color,
            ).concat(" wire"),
            WireQueryType::MoreThanOneOfColor => String::from_str(
                "there is more than one ",
            ).concat(color).concat(" wire"),
            WireQueryType::ExactlyZeroOfColor => String::from_str("there are no ").concat(
                color,
            ).concat(" wires"),
            WireQueryType::LastWireIs => String::from_str("the last wire is ").concat(color),
        }
    }
}

impl EdgeworkQuery {
    /// How the condition reads in the manual.
    pub open spec fn text(self) -> Seq<char> {
        match self {
            EdgeworkQuery::SerialStartsWithLetter => "the serial number starts with a letter"@,
            EdgeworkQuery::SerialOdd => "the last digit of the serial number is odd"@,
            EdgeworkQuery::HasEmptyPortPlate => "there is an empty port plate present on the bomb"@,
            EdgeworkQuery::PortPresent(port) => "there is a "@ + port.name()
                + " port present on the bomb"@,
        }
    }

    /// How the condition reads in the manual.
    pub fn to_string(&self) -> (r: String)
        ensures
            r@ == self.text(),
    {
        match self {
            EdgeworkQuery::SerialStartsWithLetter => String::from_str(
                "the serial number starts with a letter",
            ),
            EdgeworkQuery::SerialOdd => String::from_str(
                "the last digit of the serial number is odd",
            ),
            EdgeworkQuery::HasEmptyPortPlate => String::from_str(
                "there is an empty port plate present on the bomb",
            ),
            EdgeworkQuery::PortPresent(port) => String::from_str("there is a ").concat(
                port.as_str(),
            ).concat(" port present on the bomb"),
        }
    }
}

impl Solution {
    /// How the solution reads in the manual; positions count from one.
    pub open spec fn text(self) -> Seq<char> {
        match self {
            Solution::Index(n) => "cut the "@ + decimal((n + 1) as nat) + ordinal_suffix((n + 1) as nat)
                + " wire"@,
            Solution::TheOneOfColor(c) => "cut the "@ + c.name() + " wire"@,
            Solution::FirstOfColor(c) => "cut the first "@ + c.name() + " wire"@,
            Solution::LastOfColor(c) => "cut the last "@ + c.name() + " wire"@,
        }
    }

    /// How the solution reads in the manual; positions count from one.
    pub fn to_string(&self) -> (r: String)
        ensures
            r@ == self.text(),
    {
        match self {
            Solution::Index(n) => {
                let ordinal = ordinal_text(*n as u16 + 1);
                String::from_str("cut the ").concat(ordinal.as_str()).concat(" wire")
            },
            Solution::TheOneOfColor(color) => String::from_str("cut the ").concat(
                color.as_str(),
            ).concat(" wire"),
            Solution::FirstOfColor(color) => String::from_str("cut the first ").concat(
                color.as_str(),
            ).concat(" wire"),
            Solution::LastOfColor(color) => String::from_str("cut the last ").concat(
                color.as_str(),
            ).concat(" wire"),
        }
    }
}

} // verus!
