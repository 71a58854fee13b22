//! The `ord` server: the addresses that it is asked at, and what is made of its
//! answers.

use vstd::prelude::*;
use vstd::string::StringExecFns;

use crate::decimal::decimal;
use crate::decimal::decimal_string;
use crate::json::bool_field;
use crate::json::bool_member;
use crate::json::json_model;
use crate::json::json_text;
use crate::json::member;
use crate::json::parse_json;
use crate::json::str_member;
use crate::json::string_field;
use crate::json::u64_field;
use crate::json::u64_member;
use crate::json::JsonModel;
use crate::text::text_of;
use crate::text::trim_end_slashes;
use crate::text::without_trailing;

verus! {

/// What the server says of itself.
#[derive(Debug, Clone, Copy, PartialEq, Eq, Structural)]
pub struct OrdStatus {
    pub height: u32,
    pub inscriptions: u64,
    pub sat_index: bool,
    pub inscription_index: bool,
}

/// Why an answer of the server cannot be used.
#[derive(Debug, Clone, Copy, PartialEq, Eq, Structural)]
pub enum OrdError {
    NotJson,
    MissingHeight,
    MissingInscriptions,
    MissingSatIndex,
    MissingInscriptionIndex,
}

impl OrdError {
    /// What is wrong, in words.
    pub open spec fn text(self) -> Seq<char> {
        match self {
            OrdError::NotJson => "ord answer is not JSON"@,
            OrdError::MissingHeight => "ord /status missing height"@,
            OrdError::MissingInscriptions => "ord /status missing inscriptions"@,
            OrdError::MissingSatIndex => "ord /status missing sat_index"@,
            OrdError::MissingInscriptionIndex => "ord /status missing inscription_index"@,
        }
    }

    /// What is wrong, in words.
    pub fn message(&self) -> (m: &'static str)
        ensures
            m@ == self.text(),
    {
        match self {
            OrdError::NotJson => "ord answer is not JSON",
            OrdError::MissingHeight => "ord /status missing height",
            OrdError::MissingInscriptions => "ord /status missing inscriptions",
            OrdError::MissingSatIndex => "ord /status missing sat_index",
            OrdError::MissingInscriptionIndex => "ord /status missing inscription_index",
        }
    }
}

/// The address of the server's status.
pub fn status_url(base: &str) -> (url: String)
    ensures
        url@ == without_trailing(base@, '/') + "/status"@,
{
    let mut url = trim_end_slashes(base).to_owned();
    url.append("/status");
    url
}

/// The address of the inscription with the number `n`.
pub fn inscription_url(base: &str, n: u64) -> (url: String)
    ensures
        url@ == without_trailing(base@, '/') + "/inscription/"@ + decimal(n as nat),
{
    let mut url = trim_end_slashes(base).to_owned();
    url.append("/inscription/");
    url.append(decimal_string(n).as_str());
    url
}

/// The members of a status answer that are read, each where it is there with
/// the right type.
#[derive(Debug, Clone, Copy, PartialEq, Eq, Structural)]
pub struct StatusFields {
    pub height: Option<u64>,
    pub inscriptions: Option<u64>,
    pub sat_index: Option<bool>,
    pub inscription_index: Option<bool>,
}

/// The members of a status answer that are read.
pub open spec fn status_fields(v: JsonModel) -> StatusFields {
    StatusFields {
        height: u64_member(v, "height"@),
        inscriptions: u64_member(v, "inscriptions"@),
        sat_index: bool_member(v, "sat_index"@),
        inscription_index: bool_member(v, "inscription_index"@),
    }
}

/// The status that the members of an answer give. All are needed; of the
/// height, the lowest 32 bits are kept.
pub open spec fn status_of(f: StatusFields) -> Result<OrdStatus, OrdError> {
    match (f.height, f.inscriptions, f.sat_index, f.inscription_index) {
        (Some(height), Some(inscriptions), Some(sat_index), Some(inscription_index)) => Ok(
            OrdStatus {
                height: (height % 0x1_0000_0000) as u32,
                inscriptions,
                sat_index,
                inscription_index,
            },
        ),
        (None, _, _, _) => Err(OrdError::MissingHeight),
        (_, None, _, _) => Err(OrdError::MissingInscriptions),
        (_, _, None, _) => Err(OrdError::MissingSatIndex),
        (_, _, _, None) => Err(OrdError::MissingInscriptionIndex),
    }
}

/// The status that the members of an answer give.
pub fn ord_status_from_fields(f: StatusFields) -> (r: Result<OrdStatus, OrdError>)
    ensures
        r == status_of(f),
{
    let height: u64 = match f.height {
        Some(h) => h,
        None => {
            return Err(OrdError::MissingHeight);
        },
    };
    let inscriptions: u64 = match f.inscriptions {
        Some(n) => n,
        None => {
            return Err(OrdError::MissingInscriptions);
        },
    };
    let sat_index = match f.sat_index {
        Some(b) => b,
        None => {
            return Err(OrdError::MissingSatIndex);
        },
    };
    let inscription_index = match f.inscription_index {
        Some(b) => b,
        None => {
            return Err(OrdError::MissingInscriptionIndex);
        },
    };
    Ok(
        OrdStatus {
            height: (height % 0x1_0000_0000) as u32,
            inscriptions,
            sat_index,
            inscription_index,
        },
    )
}

/// The status that the body of an answer gives.
pub fn ord_status(body: &[u8]) -> (r: Result<OrdStatus, OrdError>)
    ensures
        r == match json_text(body@) {
            Some(v) => status_of(status_fields(v)),
            None => Err(OrdError::NotJson),
        },
{
    match parse_json(body) {
        Some(v) => ord_status_from_fields(
            StatusFields {
                height: u64_field(&v, "height"),
                inscriptions: u64_field(&v, "inscriptions"),
                sat_index: bool_field(&v, "sat_index"),
                inscription_index: bool_field(&v, "inscription_index"),
            },
        ),
        None => Err(OrdError::NotJson),
    }
}

/// The inscription that the body of an answer holds. A null stands for an
/// inscription that the server does not have.
pub fn ord_inscription_by_number(body: &[u8]) -> (r: Result<Option<serde_json::Value>, OrdError>)
    ensures
        match r {
            Ok(Some(v)) => json_text(body@) == Some(json_model(v)) && !(json_model(v) is Null),
            Ok(None) => json_text(body@) == Some(JsonModel::Null),
            Err(e) => json_text(body@) is None && e is NotJson,
        },
{
    match parse_json(body) {
        Some(v) => if v.is_null() {
            Ok(None)
        } else {
            Ok(Some(v))
        },
        None => Err(OrdError::NotJson),
    }
}

/// Why the JSON of an inscription cannot be used.
#[derive(Debug, Clone, Copy, PartialEq, Eq, Structural)]
pub enum ExtractError {
    MissingId,
    MissingSat,
}

impl ExtractError {
    /// What is wrong, in words.
    pub open spec fn text(self) -> Seq<char> {
        match self {
            ExtractError::MissingId => "inscription JSON missing `id`"@,
            ExtractError::MissingSat => "inscription JSON missing sat number field (sat/sat_number/satpoint.sat)"@,
        }
    }

    /// What is wrong, in words.
    pub fn message(&self) -> (m: &'static str)
        ensures
            m@ == self.text(),
    {
        match self {
            ExtractError::MissingId => "inscription JSON missing `id`",
            ExtractError::MissingSat => "inscription JSON missing sat number field (sat/sat_number/satpoint.sat)",
        }
    }
}

/// The members of an inscription that are read, each where it is there with the
/// right type.
#[derive(Debug)]
pub struct InscriptionFields {
    pub id: Option<String>,
    pub inscription_id: Option<String>,
    pub sat: Option<u64>,
    pub sat_number: Option<u64>,
    pub satpoint_sat: Option<u64>,
}

/// [`InscriptionFields`] as the proofs see them.
pub struct InscriptionModel {
    pub id: Option<Seq<char>>,
    pub inscription_id: Option<Seq<char>>,
    pub sat: Option<u64>,
    pub sat_number: Option<u64>,
    pub satpoint_sat: Option<u64>,
}

impl View for InscriptionFields {
    type V = InscriptionModel;

    open spec fn view(&self) -> InscriptionModel {
        InscriptionModel {
            id: text_of(self.id),
            inscription_id: text_of(self.inscription_id),
            sat: self.sat,
            sat_number: self.sat_number,
            satpoint_sat: self.satpoint_sat,
        }
    }
}

/// The members of an inscription that are read.
pub open spec fn inscription_fields(v: JsonModel) -> InscriptionModel {
    InscriptionModel {
        id: str_member(v, "id"@),
        inscription_id: str_member(v, "inscription_id"@),
        sat: u64_member(v, "sat"@),
        sat_number: u64_member(v, "sat_number"@),
        satpoint_sat: match v.member("satpoint"@) {
            Some(satpoint) => u64_member(satpoint, "sat"@),
            None => None,
        },
    }
}

/// The first of the two that is there.
pub open spec fn first_of<T>(a: Option<T>, b: Option<T>) -> Option<T> {
    if a is Some {
        a
    } else {
        b
    }
}

/// The id and the sat that the members of an inscription give: the id stands
/// under one of two names, the sat in one of three places, and the first that
/// is there counts. A missing id is noticed before a missing sat.
pub open spec fn id_and_sat_of(f: InscriptionModel) -> Result<(Seq<char>, u64), ExtractError> {
    let id = first_of(f.id, f.inscription_id);
    let sat = first_of(f.sat, first_of(f.sat_number, f.satpoint_sat));
    match (id, sat) {
        (Some(id), Some(sat)) => Ok((id, sat)),
        (None, _) => Err(ExtractError::MissingId),
        (_, None) => Err(ExtractError::MissingSat),
    }
}

/// What was extracted, as the proofs see it.
pub open spec fn extracted(r: Result<(String, u64), ExtractError>) -> Result<
    (Seq<char>, u64),
    ExtractError,
> {
    match r {
        Ok((id, sat)) => Ok((id@, sat)),
        Err(e) => Err(e),
    }
}

/// The id and the sat that the members of an inscription give.
pub fn id_and_sat_from_fields(f: InscriptionFields) -> (r: Result<(String, u64), ExtractError>)
    ensures
        extracted(r) == id_and_sat_of(f@),
        match r {
            Ok((id, sat)) => {
                &&& f.id is Some ==> id@ == (f.id->0)@
                &&& f.id is None ==> f.inscription_id is Some && id@ == (f.inscription_id->0)@
                &&& f.sat is Some ==> sat == f.sat->0
                &&& f.sat is None && f.sat_number is Some ==> sat == f.sat_number->0
                &&& f.sat is None && f.sat_number is None ==> f.satpoint_sat == Some(sat)
            },
            Err(ExtractError::MissingId) => f.id is None && f.inscription_id is None,
            Err(ExtractError::MissingSat) => {
                &&& f.id is Some || f.inscription_id is Some
                &&& f.sat is None && f.sat_number is None && f.satpoint_sat is None
            },
        },
{
    let inscription_id = match f.id {
        Some(id) => id,
        None => match f.inscription_id {
            Some(id) => id,
            None => {
                return Err(ExtractError::MissingId);
            },
        },
    };
    let sat: u64 = match f.sat {
        Some(sat) => sat,
        None => match f.sat_number {
            Some(sat) => sat,
            None => match f.satpoint_sat {
                Some(sat) => sat,
                None => {
                    return Err(ExtractError::MissingSat);
                },
            },
        },
    };
    Ok((inscription_id, sat))
}

/// The id and the sat of an inscription.
pub fn extract_inscription_id_and_sat(v: &serde_json::Value) -> (r: Result<
    (String, u64),
    ExtractError,
>)
    ensures
        extracted(r) == id_and_sat_of(inscription_fields(json_model(*v))),
        match r {
            Ok((id, sat)) => {
                let j = json_model(*v);
                &&& str_member(j, "id"@) == Some(id@) || (str_member(j, "id"@) is None
                    && str_member(j, "inscription_id"@) == Some(id@))
                &&& u64_member(j, "sat"@) == Some(sat) || (u64_member(j, "sat"@) is None
                    && u64_member(j, "sat_number"@) == Some(sat)) || (u64_member(j, "sat"@) is None
                    && u64_member(j, "sat_number"@) is None && j.member("satpoint"@) is Some
                    && u64_member(j.member("satpoint"@)->0, "sat"@) == Some(sat))
            },
            Err(_) => true,
        },
{
    let satpoint_sat = match member(v, "satpoint") {
        Some(satpoint) => u64_field(satpoint, "sat"),
        None => None,
    };
    id_and_sat_from_fields(
        InscriptionFields {
            id: string_field(v, "id"),
            inscription_id: string_field(v, "inscription_id"),
            sat: u64_field(v, "sat"),
            sat_number: u64_field(v, "sat_number"),
            satpoint_sat,
        },
    )
}

/// The status is what the four members of the answer say, of the height the
/// lowest 32 bits; the first of them that is missing is told.
pub proof fn law_status_is_what_the_members_say(
    v: JsonModel,
    height: u64,
    inscriptions: u64,
    sat_index: bool,
    inscription_index: bool,
)
    ensures
        ({
            let r = status_of(status_fields(v));
            let h = u64_member(v, "height"@);
            let n = u64_member(v, "inscriptions"@);
            let s = bool_member(v, "sat_index"@);
            let i = bool_member(v, "inscription_index"@);
            &&& h == Some(height) && n == Some(inscriptions) && s == Some(sat_index) && i == Some(
                inscription_index,
            ) ==> (r matches Ok(st) && st.height as int == height as int % 0x1_0000_0000
                && st.inscriptions == inscriptions && st.sat_index == sat_index
                && st.inscription_index == inscription_index)
            &&& h is None <==> r == Err::<OrdStatus, OrdError>(OrdError::MissingHeight)
            &&& h is Some && n is None <==> r == Err::<OrdStatus, OrdError>(
                OrdError::MissingInscriptions,
            )
            &&& h is Some && n is Some && s is None <==> r == Err::<OrdStatus, OrdError>(
                OrdError::MissingSatIndex,
            )
            &&& h is Some && n is Some && s is Some && i is None <==> r == Err::<
                OrdStatus,
                OrdError,
            >(OrdError::MissingInscriptionIndex)
        }),
{
}

/// The id of an inscription is the string under `id`, whole and unchanged, or
/// the one under `inscription_id` where there is none; the sat is the integer
/// under `sat`, or under `sat_number`, or under `sat` of `satpoint`, the first
/// that is there. There is no id, or no sat, if and only if all of these are
/// missing.
pub proof fn law_id_and_sat_are_members(v: JsonModel, id: Seq<char>, sat: u64)
    ensures
        ({
            let r = id_and_sat_of(inscription_fields(v));
            let a = str_member(v, "id"@);
            let b = str_member(v, "inscription_id"@);
            let x = u64_member(v, "sat"@);
            let y = u64_member(v, "sat_number"@);
            let z = if v.member("satpoint"@) is Some {
                u64_member(v.member("satpoint"@)->0, "sat"@)
            } else {
                None
            };
            &&& r == Ok::<(Seq<char>, u64), ExtractError>((id, sat)) <==> {
                &&& a == Some(id) || (a is None && b == Some(id))
                &&& x == Some(sat) || (x is None && y == Some(sat)) || (x is None && y is None && z
                    == Some(sat))
            }
            &&& r == Err::<(Seq<char>, u64), ExtractError>(ExtractError::MissingId) <==> a is None
                && b is None
            &&& r == Err::<(Seq<char>, u64), ExtractError>(ExtractError::MissingSat) <==> (a is Some
                || b is Some) && x is None && y is None && z is None
        }),
{
}

} // verus!
