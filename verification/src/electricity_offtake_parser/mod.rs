//! Elexon electricity offtake files.
//!
//! The file is a pipe separated list of offtake values for a given day in a
//! specific location. A single line looks like `DPP|1|20230401|.0000491`,
//! which is `identifier|location|date|value`. The lines are grouped into
//! profile class groups, each opened by a line such as `PFC|1`, where the
//! number is the profile class.
pub mod laws;
pub mod parser;

use crate::calendar::{Date, DateTime};
use crate::text::{ascii_text, lemma_ascii_str_bytes};
use vstd::prelude::*;

verus! {

/// A whole electricity flow file: its header, its profile groups and its
/// trailer.
#[derive(Debug, PartialEq)]
pub struct WrappedFile {
    pub header: HeaderLine,
    pub file: OfftakeFile,
    pub trailer: TrailerLine,
}

/// The header line; only its date and time are kept.
#[derive(Debug, Clone, Copy, PartialEq, Eq)]
pub struct HeaderLine {
    pub date_time: DateTime,
}

/// The trailer line; nothing of it is kept.
#[derive(Debug, Clone, Copy, PartialEq, Eq)]
pub struct TrailerLine {}

/// The profile groups of a file, in file order.
#[derive(Debug, PartialEq)]
pub struct OfftakeFile {
    pub profile_groups: Vec<ProfileGroups>,
}

/// One profile class and its offtake rows, in file order.
#[derive(Debug, PartialEq)]
pub struct ProfileGroups {
    pub profile_class: ProfileClass,
    pub values: Vec<OfftakeRow>,
}

/// One offtake line. The value is the text of the decimal number, exactly as
/// it stands in the file.
#[derive(Debug, Clone, PartialEq)]
pub struct OfftakeRow {
    pub location: Location,
    pub day: Date,
    pub value: String,
}

/// The profile classes, numbered 1 to 8.
#[derive(Debug, Clone, Copy, PartialEq, Eq)]
pub enum ProfileClass {
    Class1,
    Class2,
    Class3,
    Class4,
    Class5,
    Class6,
    Class7,
    Class8,
}

/// The locations, numbered 1 to 50.
#[derive(Debug, Clone, Copy, PartialEq, Eq)]
pub enum Location {
    Location1,
    Location2,
    Location3,
    Location4,
    Location5,
    Location6,
    Location7,
    Location8,
    Location9,
    Location10,
    Location11,
    Location12,
    Location13,
    Location14,
    Location15,
    Location16,
    Location17,
    Location18,
    Location19,
    Location20,
    Location21,
    Location22,
    Location23,
    Location24,
    Location25,
    Location26,
    Location27,
    Location28,
    Location29,
    Location30,
    Location31,
    Location32,
    Location33,
    Location34,
    Location35,
    Location36,
    Location37,
    Location38,
    Location39,
    Location40,
    Location41,
    Location42,
    Location43,
    Location44,
    Location45,
    Location46,
    Location47,
    Location48,
    Location49,
    Location50,
}

/// The content of an [`OfftakeRow`].
pub struct OfftakeRowView {
    pub location: Location,
    pub day: Date,
    pub value: Seq<char>,
}

/// The content of a [`ProfileGroups`].
pub struct ProfileGroupsView {
    pub profile_class: ProfileClass,
    pub values: Seq<OfftakeRowView>,
}

/// The content of a [`WrappedFile`].
pub struct WrappedFileView {
    pub header: HeaderLine,
    pub profile_groups: Seq<ProfileGroupsView>,
    pub trailer: TrailerLine,
}

impl DeepView for HeaderLine {
    type V = HeaderLine;

    open spec fn deep_view(&self) -> HeaderLine {
        *self
    }
}

impl DeepView for TrailerLine {
    type V = TrailerLine;

    open spec fn deep_view(&self) -> TrailerLine {
        *self
    }
}

impl DeepView for ProfileClass {
    type V = ProfileClass;

    open spec fn deep_view(&self) -> ProfileClass {
        *self
    }
}

impl DeepView for Location {
    type V = Location;

    open spec fn deep_view(&self) -> Location {
        *self
    }
}

impl DeepView for OfftakeRow {
    type V = OfftakeRowView;

    open spec fn deep_view(&self) -> OfftakeRowView {
        OfftakeRowView { location: self.location, day: self.day, value: self.value@ }
    }
}

impl DeepView for ProfileGroups {
    type V = ProfileGroupsView;

    open spec fn deep_view(&self) -> ProfileGroupsView {
        ProfileGroupsView { profile_class: self.profile_class, values: self.values.deep_view() }
    }
}

impl DeepView for OfftakeFile {
    type V = Seq<ProfileGroupsView>;

    open spec fn deep_view(&self) -> Seq<ProfileGroupsView> {
        self.profile_groups.deep_view()
    }
}

impl DeepView for WrappedFile {
    type V = WrappedFileView;

    open spec fn deep_view(&self) -> WrappedFileView {
        WrappedFileView {
            header: self.header,
            profile_groups: self.file.profile_groups.deep_view(),
            trailer: self.trailer,
        }
    }
}

/// The profile class that the text `t` names: `1` to `8`.
pub open spec fn profile_class_from_text(t: Seq<char>) -> Option<ProfileClass> {
    if t.len() != 1 {
        None
    } else if t[0] == '1' {
        Some(ProfileClass::Class1)
    } else if t[0] == '2' {
        Some(ProfileClass::Class2)
    } else if t[0] == '3' {
        Some(ProfileClass::Class3)
    } else if t[0] == '4' {
        Some(ProfileClass::Class4)
    } else if t[0] == '5' {
        Some(ProfileClass::Class5)
    } else if t[0] == '6' {
        Some(ProfileClass::Class6)
    } else if t[0] == '7' {
        Some(ProfileClass::Class7)
    } else if t[0] == '8' {
        Some(ProfileClass::Class8)
    } else {
        None
    }
}

/// The message for a text that names no profile class.
pub open spec fn profile_class_error(t: Seq<char>) -> Seq<char> {
    "cannot parse "@ + t + " into a profile class"@
}

/// The value of a decimal digit.
pub open spec fn digit_value(c: char) -> int {
    c as int - 48
}

/// The location numbered `n`, for `n` from 1 to 50.
pub open spec fn location_numbered(n: int) -> Location {
    if n == 1 {
        Location::Location1
    } else if n == 2 {
        Location::Location2
    } else if n == 3 {
        Location::Location3
    } else if n == 4 {
        Location::Location4
    } else if n == 5 {
        Location::Location5
    } else if n == 6 {
        Location::Location6
    } else if n == 7 {
        Location::Location7
    } else if n == 8 {
        Location::Location8
    } else if n == 9 {
        Location::Location9
    } else if n == 10 {
        Location::Location10
    } else if n == 11 {
        Location::Location11
    } else if n == 12 {
        Location::Location12
    } else if n == 13 {
        Location::Location13
    } else if n == 14 {
        Location::Location14
    } else if n == 15 {
        Location::Location15
    } else if n == 16 {
        Location::Location16
    } else if n == 17 {
        Location::Location17
    } else if n == 18 {
        Location::Location18
    } else if n == 19 {
        Location::Location19
    } else if n == 20 {
        Location::Location20
    } else if n == 21 {
        Location::Location21
    } else if n == 22 {
        Location::Location22
    } else if n == 23 {
        Location::Location23
    } else if n == 24 {
        Location::Location24
    } else if n == 25 {
        Location::Location25
    } else if n == 26 {
        Location::Location26
    } else if n == 27 {
        Location::Location27
    } else if n == 28 {
        Location::Location28
    } else if n == 29 {
        Location::Location29
    } else if n == 30 {
        Location::Location30
    } else if n == 31 {
        Location::Location31
    } else if n == 32 {
        Location::Location32
    } else if n == 33 {
        Location::Location33
    } else if n == 34 {
        Location::Location34
    } else if n == 35 {
        Location::Location35
    } else if n == 36 {
        Location::Location36
    } else if n == 37 {
        Location::Location37
    } else if n == 38 {
        Location::Location38
    } else if n == 39 {
        Location::Location39
    } else if n == 40 {
        Location::Location40
    } else if n == 41 {
        Location::Location41
    } else if n == 42 {
        Location::Location42
    } else if n == 43 {
        Location::Location43
    } else if n == 44 {
        Location::Location44
    } else if n == 45 {
        Location::Location45
    } else if n == 46 {
        Location::Location46
    } else if n == 47 {
        Location::Location47
    } else if n == 48 {
        Location::Location48
    } else if n == 49 {
        Location::Location49
    } else {
        Location::Location50
    }
}

/// The location that the text `t` names: a decimal number from 1 to 50,
/// written without leading zeros.
pub open spec fn location_from_text(t: Seq<char>) -> Option<Location> {
    if t.len() == 1 && '1' <= t[0] <= '9' {
        Some(location_numbered(digit_value(t[0])))
    } else if t.len() == 2 && '1' <= t[0] <= '9' && '0' <= t[1] <= '9' && 10 * digit_value(t[0])
        + digit_value(t[1]) <= 50 {
        Some(location_numbered(10 * digit_value(t[0]) + digit_value(t[1])))
    } else {
        None
    }
}

/// The message for a text that names no location.
pub open spec fn location_error(t: Seq<char>) -> Seq<char> {
    "cannot parse "@ + t + " into a location"@
}

impl Location {
    /// The number of a location, from 1 to 50.
    pub open spec fn number(self) -> int {
        match self {
            Location::Location1 => 1,
            Location::Location2 => 2,
            Location::Location3 => 3,
            Location::Location4 => 4,
            Location::Location5 => 5,
            Location::Location6 => 6,
            Location::Location7 => 7,
            Location::Location8 => 8,
            Location::Location9 => 9,
            Location::Location10 => 10,
            Location::Location11 => 11,
            Location::Location12 => 12,
            Location::Location13 => 13,
            Location::Location14 => 14,
            Location::Location15 => 15,
            Location::Location16 => 16,
            Location::Location17 => 17,
            Location::Location18 => 18,
            Location::Location19 => 19,
            Location::Location20 => 20,
            Location::Location21 => 21,
            Location::Location22 => 22,
            Location::Location23 => 23,
            Location::Location24 => 24,
            Location::Location25 => 25,
            Location::Location26 => 26,
            Location::Location27 => 27,
            Location::Location28 => 28,
            Location::Location29 => 29,
            Location::Location30 => 30,
            Location::Location31 => 31,
            Location::Location32 => 32,
            Location::Location33 => 33,
            Location::Location34 => 34,
            Location::Location35 => 35,
            Location::Location36 => 36,
            Location::Location37 => 37,
            Location::Location38 => 38,
            Location::Location39 => 39,
            Location::Location40 => 40,
            Location::Location41 => 41,
            Location::Location42 => 42,
            Location::Location43 => 43,
            Location::Location44 => 44,
            Location::Location45 => 45,
            Location::Location46 => 46,
            Location::Location47 => 47,
            Location::Location48 => 48,
            Location::Location49 => 49,
            Location::Location50 => 50,
        }
    }
}

/// Every text that names a profile class or a location is ASCII.
proof fn lemma_named_texts_are_ascii(t: Seq<char>)
    requires
        profile_class_from_text(t) is Some || location_from_text(t) is Some,
    ensures
        vstd::utf8::is_ascii_chars(t),
{
}

fn location_from_number(n: u8) -> (r: Location)
    requires
        1 <= n <= 50,
    ensures
        r == location_numbered(n as int),
{
    match n {
        1 => Location::Location1,
        2 => Location::Location2,
        3 => Location::Location3,
        4 => Location::Location4,
        5 => Location::Location5,
        6 => Location::Location6,
        7 => Location::Location7,
        8 => Location::Location8,
        9 => Location::Location9,
        10 => Location::Location10,
        11 => Location::Location11,
        12 => Location::Location12,
        13 => Location::Location13,
        14 => Location::Location14,
        15 => Location::Location15,
        16 => Location::Location16,
        17 => Location::Location17,
        18 => Location::Location18,
        19 => Location::Location19,
        20 => Location::Location20,
        21 => Location::Location21,
        22 => Location::Location22,
        23 => Location::Location23,
        24 => Location::Location24,
        25 => Location::Location25,
        26 => Location::Location26,
        27 => Location::Location27,
        28 => Location::Location28,
        29 => Location::Location29,
        30 => Location::Location30,
        31 => Location::Location31,
        32 => Location::Location32,
        33 => Location::Location33,
        34 => Location::Location34,
        35 => Location::Location35,
        36 => Location::Location36,
        37 => Location::Location37,
        38 => Location::Location38,
        39 => Location::Location39,
        40 => Location::Location40,
        41 => Location::Location41,
        42 => Location::Location42,
        43 => Location::Location43,
        44 => Location::Location44,
        45 => Location::Location45,
        46 => Location::Location46,
        47 => Location::Location47,
        48 => Location::Location48,
        49 => Location::Location49,
        _ => Location::Location50,
    }
}

impl ProfileClass {
    /// The profile class that the ASCII digits `b` name.
    pub fn from_digits(b: &[u8]) -> (r: Option<ProfileClass>)
        ensures
            r == profile_class_from_text(ascii_text(b@)),
    {
        if b.len() != 1 {
            return None;
        }
        assert(ascii_text(b@) =~= seq![b@[0] as char]);
        match b[0] {
            49u8 => Some(ProfileClass::Class1),
            50u8 => Some(ProfileClass::Class2),
            51u8 => Some(ProfileClass::Class3),
            52u8 => Some(ProfileClass::Class4),
            53u8 => Some(ProfileClass::Class5),
            54u8 => Some(ProfileClass::Class6),
            55u8 => Some(ProfileClass::Class7),
            56u8 => Some(ProfileClass::Class8),
            _ => None,
        }
    }

    /// The profile class that `s` names: `1` to `8`.
    pub fn from_str(s: &str) -> (r: Result<ProfileClass, String>)
        ensures
            match r {
                Ok(c) => profile_class_from_text(s@) == Some(c),
                Err(m) => profile_class_from_text(s@) is None && m@ == profile_class_error(s@),
            },
    {
        if s.is_ascii() {
            proof {
                lemma_ascii_str_bytes(s);
            }
            if let Some(c) = ProfileClass::from_digits(s.as_bytes()) {
                return Ok(c);
            }
        } else {
            proof {
                if profile_class_from_text(s@) is Some {
                    lemma_named_texts_are_ascii(s@);
                }
            }
        }
        let mut m = String::from_str("cannot parse ");
        m.append(s);
        m.append(" into a profile class");
        Err(m)
    }
}

impl Location {
    /// The location that the ASCII digits `b` name.
    pub fn from_digits(b: &[u8]) -> (r: Option<Location>)
        ensures
            r == location_from_text(ascii_text(b@)),
    {
        let t = Ghost(ascii_text(b@));
        if b.len() == 1 && 49 <= b[0] && b[0] <= 57 {
            assert(t@[0] == b@[0] as char);
            Some(location_from_number(b[0] - 48))
        } else if b.len() == 2 && 49 <= b[0] && b[0] <= 57 && 48 <= b[1] && b[1] <= 57 {
            assert(t@[0] == b@[0] as char && t@[1] == b@[1] as char);
            let n = (b[0] - 48) * 10 + (b[1] - 48);
            if n <= 50 {
                Some(location_from_number(n))
            } else {
                None
            }
        } else {
            assert(b@.len() == 1 ==> t@[0] == b@[0] as char);
            assert(b@.len() == 2 ==> t@[0] == b@[0] as char && t@[1] == b@[1] as char);
            None
        }
    }

    /// The location that `s` names: a decimal number from 1 to 50, written
    /// without leading zeros.
    pub fn from_str(s: &str) -> (r: Result<Location, String>)
        ensures
            match r {
                Ok(l) => location_from_text(s@) == Some(l),
                Err(m) => location_from_text(s@) is None && m@ == location_error(s@),
            },
    {
        if s.is_ascii() {
            proof {
                lemma_ascii_str_bytes(s);
            }
            if let Some(l) = Location::from_digits(s.as_bytes()) {
                return Ok(l);
            }
        } else {
            proof {
                if location_from_text(s@) is Some {
                    lemma_named_texts_are_ascii(s@);
                }
            }
        }
        let mut m = String::from_str("cannot parse ");
        m.append(s);
        m.append(" into a location");
        Err(m)
    }
}

} // verus!
