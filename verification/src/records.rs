//! The encounter record, the one table the pool's consumers work on.
//!
//! The record is modeled with plain values: the timestamp is microseconds
//! since the Unix epoch, so date arithmetic and conversion stay with the
//! process's clock library at the edge.

use vstd::prelude::*;
use vstd::string::StringExecFns;

verus! {

/// The penalty handed out for an encounter.
#[derive(Clone, Copy, Debug, PartialEq, Eq, Structural)]
pub enum PenaltyEnum {
    /// Pat the penguin.
    PatPenguin,
    /// Become penguin, for good.
    BecomePenguinGood,
    /// Jail.
    Jail,
    /// Sacrifice.
    Sacrifice,
    /// Worship Tux.
    WorshipTux,
}

impl PenaltyEnum {
    /// The display label of each penalty.
    pub open spec fn label_text(self) -> Seq<char> {
        match self {
            PenaltyEnum::PatPenguin => "Pat Penguin"@,
            PenaltyEnum::BecomePenguinGood => "Become Penguin Good"@,
            PenaltyEnum::Jail => "Jail"@,
            PenaltyEnum::Sacrifice => "Sacrifice"@,
            PenaltyEnum::WorshipTux => "Worship Tux"@,
        }
    }

    /// The display label as a value.
    pub fn label(&self) -> (r: String)
        ensures
            r@ == self.label_text(),
    {
        match self {
            PenaltyEnum::PatPenguin => String::from_str("Pat Penguin"),
            PenaltyEnum::BecomePenguinGood => String::from_str("Become Penguin Good"),
            PenaltyEnum::Jail => String::from_str("Jail"),
            PenaltyEnum::Sacrifice => String::from_str("Sacrifice"),
            PenaltyEnum::WorshipTux => String::from_str("Worship Tux"),
        }
    }
}

/// One stored encounter, as read back from the table.
#[derive(Debug)]
pub struct PenguinEncounter {
    /// The row's key.
    pub id: i32,
    /// Who was encountered.
    pub name: String,
    /// Where.
    pub location: String,
    /// The penalty handed out.
    pub penalty: PenaltyEnum,
    /// When, in microseconds since the Unix epoch.
    pub date_time_micros: i64,
}

/// The insert payload for one new encounter (the key is assigned by the
/// store).
#[derive(Debug)]
pub struct CreatePenguinEncounter {
    /// Who was encountered.
    pub name: String,
    /// Where.
    pub location: String,
    /// The penalty handed out.
    pub penalty: PenaltyEnum,
    /// When, in microseconds since the Unix epoch.
    pub date_time_micros: i64,
}

impl CreatePenguinEncounter {
    /// Assemble the insert payload.
    pub fn new(name: String, location: String, penalty: PenaltyEnum, date_time_micros: i64) -> (r:
        CreatePenguinEncounter)
        ensures
            r.name@ == name@,
            r.location@ == location@,
            r.penalty == penalty,
            r.date_time_micros == date_time_micros,
    {
        CreatePenguinEncounter { name, location, penalty, date_time_micros }
    }
}

} // verus!
