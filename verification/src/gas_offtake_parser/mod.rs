//! Gas offtake files: seasonal composite weather variables, and the annual
//! load profile and daily adjustment factor rows with the codes they use.
pub mod laws;
pub mod parser;

use crate::calendar::Date;
use crate::text::{ascii_text, lemma_ascii_str_bytes};
use vstd::prelude::*;

verus! {

/// A file of seasonal composite weather variable rows, in file order.
pub type SCWVFile = Vec<SeasonalCompositeWeatherVariableRow>;

/// One row of seasonal composite weather variables: a date and one value for
/// each local distribution zone. Every value is the text of the decimal
/// number, exactly as it stands in the file.
#[derive(Debug, Clone, PartialEq)]
pub struct SeasonalCompositeWeatherVariableRow {
    pub date: Date,
    pub sc: String,
    pub no: String,
    pub nw: String,
    pub ne: String,
    pub em: String,
    pub wm: String,
    pub wn: String,
    pub ws: String,
    pub ea: String,
    pub nt: String,
    pub se: String,
    pub so: String,
    pub sw: String,
}

/// The content of a [`SeasonalCompositeWeatherVariableRow`]: the date and the
/// values in the order sc, no, nw, ne, em, wm, wn, ws, ea, nt, se, so, sw.
pub struct SeasonalCompositeWeatherVariableRowView {
    pub date: Date,
    pub values: Seq<Seq<char>>,
}

impl DeepView for SeasonalCompositeWeatherVariableRow {
    type V = SeasonalCompositeWeatherVariableRowView;

    open spec fn deep_view(&self) -> SeasonalCompositeWeatherVariableRowView {
        SeasonalCompositeWeatherVariableRowView {
            date: self.date,
            values: seq![self.sc@, self.no@, self.nw@, self.ne@, self.em@, self.wm@, self.wn@, self.ws@, self.ea@, self.nt@, self.se@, self.so@, self.sw@],
        }
    }
}

impl SeasonalCompositeWeatherVariableRow {
    /// A row with the date `date` and the values `values` in the order sc,
    /// no, nw, ne, em, wm, wn, ws, ea, nt, se, so, sw.
    pub fn new_from_array(date: Date, values: [&str; 13]) -> (r: Self)
        ensures
            r.deep_view() == (SeasonalCompositeWeatherVariableRowView {
                date,
                values: Seq::new(13, |i: int| values@[i]@),
            }),
    {
        let r = Self {
            date,
            sc: String::from_str(values[0]),
            no: String::from_str(values[1]),
            nw: String::from_str(values[2]),
            ne: String::from_str(values[3]),
            em: String::from_str(values[4]),
            wm: String::from_str(values[5]),
            wn: String::from_str(values[6]),
            ws: String::from_str(values[7]),
            ea: String::from_str(values[8]),
            nt: String::from_str(values[9]),
            se: String::from_str(values[10]),
            so: String::from_str(values[11]),
            sw: String::from_str(values[12]),
        };
        assert(r.deep_view().values =~= Seq::new(13, |i: int| values@[i]@));
        r
    }
}

/// A file of annual load profile and daily adjustment factor rows.
pub type ALPDAFFile = Vec<ALPDAFRow>;

/// An annual load profile and daily adjustment factor for a zone, a category
/// of end user and a date. The two numbers are the texts of the decimal
/// numbers.
#[derive(Debug, PartialEq)]
pub struct ALPDAFRow {
    pub ldz: LocalDistributionZone,
    pub end_user_category: EndUserCategory,
    pub date: Date,
    pub annual_load_profile: String,
    pub daily_adjustment_factor: String,
}

/// The local distribution zones.
#[derive(Debug, Clone, Copy, PartialEq, Eq)]
pub enum LocalDistributionZone {
    SC,
    NO,
    NE,
    NW,
    WN,
    WM,
    EM,
    EA,
    WS,
    SW,
    SO,
    SE,
    NT,
    LC,
    LO,
    LS,
    LT,
    LW,
}

/// The end user category depends on the annual quantity, the winter
/// consumption and the region of a meter point. For example `E2201BND` is
/// domestic, not prepayment, between 0 and 73.2 MWh a year; `E2202BPI` is
/// industrial and commercial, prepayment, between 73.2 and 293 MWh a year.
#[derive(Debug, Clone, Copy, PartialEq, Eq)]
pub struct EndUserCategory {
    pub band: Band,
    pub user_group: UserGroup,
}

impl EndUserCategory {
    pub fn new(band: Band, user_group: UserGroup) -> (r: Self)
        ensures
            r == (EndUserCategory { band, user_group }),
    {
        Self { band, user_group }
    }
}

/// The consumption bands, `01` to `09`.
#[derive(Debug, Clone, Copy, PartialEq, Eq)]
pub enum Band {
    One,
    Two,
    Three,
    Four,
    Five,
    Six,
    Seven,
    Eight,
    Nine,
}

/// The kind of consumer and meter of an end user category.
#[derive(Debug, Clone, Copy, PartialEq, Eq)]
pub struct UserGroup {
    pub consumer_type: ConsumerType,
    pub meter_type: MeterType,
}

/// Domestic consumers, or large scale industrial and commercial sites.
#[derive(Debug, Clone, Copy, PartialEq, Eq)]
pub enum ConsumerType {
    Domestic,
    Industry,
}

#[derive(Debug, Clone, Copy, PartialEq, Eq)]
pub enum MeterType {
    Prepayment,
    Credit,
}

/// The zone that the text `t` names: its two-letter code.
pub open spec fn zone_from_text(t: Seq<char>) -> Option<LocalDistributionZone> {
    if t.len() != 2 {
        None
    } else if t[0] == 'S' && t[1] == 'C' {
        Some(LocalDistributionZone::SC)
    } else if t[0] == 'N' && t[1] == 'O' {
        Some(LocalDistributionZone::NO)
    } else if t[0] == 'N' && t[1] == 'E' {
        Some(LocalDistributionZone::NE)
    } else if t[0] == 'N' && t[1] == 'W' {
        Some(LocalDistributionZone::NW)
    } else if t[0] == 'W' && t[1] == 'N' {
        Some(LocalDistributionZone::WN)
    } else if t[0] == 'W' && t[1] == 'M' {
        Some(LocalDistributionZone::WM)
    } else if t[0] == 'E' && t[1] == 'M' {
        Some(LocalDistributionZone::EM)
    } else if t[0] == 'E' && t[1] == 'A' {
        Some(LocalDistributionZone::EA)
    } else if t[0] == 'W' && t[1] == 'S' {
        Some(LocalDistributionZone::WS)
    } else if t[0] == 'S' && t[1] == 'W' {
        Some(LocalDistributionZone::SW)
    } else if t[0] == 'S' && t[1] == 'O' {
        Some(LocalDistributionZone::SO)
    } else if t[0] == 'S' && t[1] == 'E' {
        Some(LocalDistributionZone::SE)
    } else if t[0] == 'N' && t[1] == 'T' {
        Some(LocalDistributionZone::NT)
    } else if t[0] == 'L' && t[1] == 'C' {
        Some(LocalDistributionZone::LC)
    } else if t[0] == 'L' && t[1] == 'O' {
        Some(LocalDistributionZone::LO)
    } else if t[0] == 'L' && t[1] == 'S' {
        Some(LocalDistributionZone::LS)
    } else if t[0] == 'L' && t[1] == 'T' {
        Some(LocalDistributionZone::LT)
    } else if t[0] == 'L' && t[1] == 'W' {
        Some(LocalDistributionZone::LW)
    } else {
        None
    }
}

/// The names of the zones, in the order they are declared, as `Debug`
/// writes a list of them.
pub open spec fn zone_names_debug() -> Seq<char> {
    "[\"SC\", \"NO\", \"NE\", \"NW\", \"WN\", \"WM\", \"EM\", \"EA\", \"WS\", \"SW\", \"SO\", \"SE\", \"NT\", \"LC\", \"LO\", \"LS\", \"LT\", \"LW\"]"@
}

/// The message for a text that names no zone.
pub open spec fn zone_error(t: Seq<char>) -> Seq<char> {
    "cannot parse "@ + t + " into a local distribution zone, should be one of "@ + zone_names_debug()
}

/// The band that the text `t` names: `01` to `09`.
pub open spec fn band_from_text(t: Seq<char>) -> Option<Band> {
    if t.len() != 2 || t[0] != '0' {
        None
    } else if t[1] == '1' {
        Some(Band::One)
    } else if t[1] == '2' {
        Some(Band::Two)
    } else if t[1] == '3' {
        Some(Band::Three)
    } else if t[1] == '4' {
        Some(Band::Four)
    } else if t[1] == '5' {
        Some(Band::Five)
    } else if t[1] == '6' {
        Some(Band::Six)
    } else if t[1] == '7' {
        Some(Band::Seven)
    } else if t[1] == '8' {
        Some(Band::Eight)
    } else if t[1] == '9' {
        Some(Band::Nine)
    } else {
        None
    }
}

/// The message for a text that names no band.
pub open spec fn band_error(t: Seq<char>) -> Seq<char> {
    "unknown end user group band "@ + t
}

/// The user group that the text `t` names.
pub open spec fn user_group_from_text(t: Seq<char>) -> Option<UserGroup> {
    if t.len() == 3 && t[0] == 'B' && t[1] == 'N' && t[2] == 'D' {
        Some(UserGroup { consumer_type: ConsumerType::Domestic, meter_type: MeterType::Credit })
    } else if t.len() == 3 && t[0] == 'B' && t[1] == 'P' && t[2] == 'D' {
        Some(UserGroup { consumer_type: ConsumerType::Domestic, meter_type: MeterType::Prepayment })
    } else if t.len() == 3 && t[0] == 'B' && t[1] == 'N' && t[2] == 'I' {
        Some(UserGroup { consumer_type: ConsumerType::Industry, meter_type: MeterType::Credit })
    } else if t.len() == 3 && t[0] == 'B' && t[1] == 'P' && t[2] == 'I' {
        Some(UserGroup { consumer_type: ConsumerType::Industry, meter_type: MeterType::Prepayment })
    } else if t.len() == 1 && t[0] == 'B' {
        Some(UserGroup { consumer_type: ConsumerType::Industry, meter_type: MeterType::Credit })
    } else if t.len() == 3 && t[0] == 'W' && t[1] == '0' && t[2] == '1' {
        Some(UserGroup { consumer_type: ConsumerType::Industry, meter_type: MeterType::Credit })
    } else if t.len() == 3 && t[0] == 'W' && t[1] == '0' && t[2] == '2' {
        Some(UserGroup { consumer_type: ConsumerType::Industry, meter_type: MeterType::Credit })
    } else if t.len() == 3 && t[0] == 'W' && t[1] == '0' && t[2] == '3' {
        Some(UserGroup { consumer_type: ConsumerType::Industry, meter_type: MeterType::Credit })
    } else if t.len() == 3 && t[0] == 'W' && t[1] == '0' && t[2] == '4' {
        Some(UserGroup { consumer_type: ConsumerType::Industry, meter_type: MeterType::Credit })
    } else {
        None
    }
}

/// The message for a text that names no user group.
pub open spec fn user_group_error(t: Seq<char>) -> Seq<char> {
    "unknown consumer meter group "@ + t + " "@
}

proof fn lemma_codes_are_ascii(t: Seq<char>)
    requires
        zone_from_text(t) is Some || band_from_text(t) is Some || user_group_from_text(t) is Some,
    ensures
        vstd::utf8::is_ascii_chars(t),
{
}

impl LocalDistributionZone {
    fn from_ascii(b: &[u8]) -> (r: Option<LocalDistributionZone>)
        ensures
            r == zone_from_text(ascii_text(b@)),
    {
        let ghost t = ascii_text(b@);
        if b.len() != 2 {
            return None;
        }
        assert(t[0] == b@[0] as char && t[1] == b@[1] as char);
        if b[0] == 83u8 && b[1] == 67u8 {
            Some(LocalDistributionZone::SC)
        } else if b[0] == 78u8 && b[1] == 79u8 {
            Some(LocalDistributionZone::NO)
        } else if b[0] == 78u8 && b[1] == 69u8 {
            Some(LocalDistributionZone::NE)
        } else if b[0] == 78u8 && b[1] == 87u8 {
            Some(LocalDistributionZone::NW)
        } else if b[0] == 87u8 && b[1] == 78u8 {
            Some(LocalDistributionZone::WN)
        } else if b[0] == 87u8 && b[1] == 77u8 {
            Some(LocalDistributionZone::WM)
        } else if b[0] == 69u8 && b[1] == 77u8 {
            Some(LocalDistributionZone::EM)
        } else if b[0] == 69u8 && b[1] == 65u8 {
            Some(LocalDistributionZone::EA)
        } else if b[0] == 87u8 && b[1] == 83u8 {
            Some(LocalDistributionZone::WS)
        } else if b[0] == 83u8 && b[1] == 87u8 {
            Some(LocalDistributionZone::SW)
        } else if b[0] == 83u8 && b[1] == 79u8 {
            Some(LocalDistributionZone::SO)
        } else if b[0] == 83u8 && b[1] == 69u8 {
            Some(LocalDistributionZone::SE)
        } else if b[0] == 78u8 && b[1] == 84u8 {
            Some(LocalDistributionZone::NT)
        } else if b[0] == 76u8 && b[1] == 67u8 {
            Some(LocalDistributionZone::LC)
        } else if b[0] == 76u8 && b[1] == 79u8 {
            Some(LocalDistributionZone::LO)
        } else if b[0] == 76u8 && b[1] == 83u8 {
            Some(LocalDistributionZone::LS)
        } else if b[0] == 76u8 && b[1] == 84u8 {
            Some(LocalDistributionZone::LT)
        } else if b[0] == 76u8 && b[1] == 87u8 {
            Some(LocalDistributionZone::LW)
        } else {
            None
        }
    }

    /// The zone that `s` names: its two-letter code.
    pub fn from_str(s: &str) -> (r: Result<LocalDistributionZone, String>)
        ensures
            match r {
                Ok(z) => zone_from_text(s@) == Some(z),
                Err(m) => zone_from_text(s@) is None && m@ == zone_error(s@),
            },
    {
        if s.is_ascii() {
            proof {
                lemma_ascii_str_bytes(s);
            }
            if let Some(z) = LocalDistributionZone::from_ascii(s.as_bytes()) {
                return Ok(z);
            }
        } else {
            proof {
                if zone_from_text(s@) is Some {
                    lemma_codes_are_ascii(s@);
                }
            }
        }
        let mut m = String::from_str("cannot parse ");
        m.append(s);
        m.append(" into a local distribution zone, should be one of ");
        m.append("[\"SC\", \"NO\", \"NE\", \"NW\", \"WN\", \"WM\", \"EM\", \"EA\", \"WS\", \"SW\", \"SO\", \"SE\", \"NT\", \"LC\", \"LO\", \"LS\", \"LT\", \"LW\"]");
        Err(m)
    }
}

impl Band {
    fn from_ascii(b: &[u8]) -> (r: Option<Band>)
        ensures
            r == band_from_text(ascii_text(b@)),
    {
        let ghost t = ascii_text(b@);
        if b.len() != 2 || b[0] != 48u8 {
            assert(b@.len() == 2 ==> t[0] == b@[0] as char);
            return None;
        }
        assert(t[0] == b@[0] as char && t[1] == b@[1] as char);
        match b[1] {
            49u8 => Some(Band::One),
            50u8 => Some(Band::Two),
            51u8 => Some(Band::Three),
            52u8 => Some(Band::Four),
            53u8 => Some(Band::Five),
            54u8 => Some(Band::Six),
            55u8 => Some(Band::Seven),
            56u8 => Some(Band::Eight),
            57u8 => Some(Band::Nine),
            _ => None,
        }
    }

    /// The band that `s` names: `01` to `09`.
    pub fn from_str(s: &str) -> (r: Result<Band, String>)
        ensures
            match r {
                Ok(b) => band_from_text(s@) == Some(b),
                Err(m) => band_from_text(s@) is None && m@ == band_error(s@),
            },
    {
        if s.is_ascii() {
            proof {
                lemma_ascii_str_bytes(s);
            }
            if let Some(b) = Band::from_ascii(s.as_bytes()) {
                return Ok(b);
            }
        } else {
            proof {
                if band_from_text(s@) is Some {
                    lemma_codes_are_ascii(s@);
                }
            }
        }
        let mut m = String::from_str("unknown end user group band ");
        m.append(s);
        Err(m)
    }
}

impl UserGroup {
    fn from_ascii(b: &[u8]) -> (r: Option<UserGroup>)
        ensures
            r == user_group_from_text(ascii_text(b@)),
    {
        let ghost t = ascii_text(b@);
        assert(forall|i: int| 0 <= i < b@.len() ==> t[i] == b@[i] as char);
        if b.len() == 3 && b[0] == 66u8 && b[1] == 78u8 && b[2] == 68u8 {
            Some(UserGroup { consumer_type: ConsumerType::Domestic, meter_type: MeterType::Credit })
        } else if b.len() == 3 && b[0] == 66u8 && b[1] == 80u8 && b[2] == 68u8 {
            Some(UserGroup { consumer_type: ConsumerType::Domestic, meter_type: MeterType::Prepayment })
        } else if b.len() == 3 && b[0] == 66u8 && b[1] == 78u8 && b[2] == 73u8 {
            Some(UserGroup { consumer_type: ConsumerType::Industry, meter_type: MeterType::Credit })
        } else if b.len() == 3 && b[0] == 66u8 && b[1] == 80u8 && b[2] == 73u8 {
            Some(UserGroup { consumer_type: ConsumerType::Industry, meter_type: MeterType::Prepayment })
        } else if b.len() == 1 && b[0] == 66u8 {
            Some(UserGroup { consumer_type: ConsumerType::Industry, meter_type: MeterType::Credit })
        } else if b.len() == 3 && b[0] == 87u8 && b[1] == 48u8 && b[2] == 49u8 {
            Some(UserGroup { consumer_type: ConsumerType::Industry, meter_type: MeterType::Credit })
        } else if b.len() == 3 && b[0] == 87u8 && b[1] == 48u8 && b[2] == 50u8 {
            Some(UserGroup { consumer_type: ConsumerType::Industry, meter_type: MeterType::Credit })
        } else if b.len() == 3 && b[0] == 87u8 && b[1] == 48u8 && b[2] == 51u8 {
            Some(UserGroup { consumer_type: ConsumerType::Industry, meter_type: MeterType::Credit })
        } else if b.len() == 3 && b[0] == 87u8 && b[1] == 48u8 && b[2] == 52u8 {
            Some(UserGroup { consumer_type: ConsumerType::Industry, meter_type: MeterType::Credit })
        } else {
            None
        }
    }

    /// The user group that `s` names.
    pub fn from_str(s: &str) -> (r: Result<UserGroup, String>)
        ensures
            match r {
                Ok(g) => user_group_from_text(s@) == Some(g),
                Err(m) => user_group_from_text(s@) is None && m@ == user_group_error(s@),
            },
    {
        if s.is_ascii() {
            proof {
                lemma_ascii_str_bytes(s);
            }
            if let Some(g) = UserGroup::from_ascii(s.as_bytes()) {
                return Ok(g);
            }
        } else {
            proof {
                if user_group_from_text(s@) is Some {
                    lemma_codes_are_ascii(s@);
                }
            }
        }
        let mut m = String::from_str("unknown consumer meter group ");
        m.append(s);
        m.append(" ");
        Err(m)
    }
}

} // verus!
