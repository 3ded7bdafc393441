//! The endpoints a hierarchy of agents runs on.
//!
//! Different levels of a hierarchy run on different hardware: a large model
//! coordinating, small models on nearby GPUs doing the legwork. Wiring that up by
//! hand means writing provider blocks, guessing wire protocols, and remembering to
//! authorize each endpoint for agent routing.
//!
//! * [`probe`] asks an endpoint what it is;
//! * [`setup`] and [`commands`] write what was found into the configuration, and
//!   [`listing`] shows what is there;
//! * [`team`] installs the roles of a lead and its workers, whose files [`role_files`]
//!   writes, and [`workers`] chooses what the workers run on;
//! * [`checks`] and [`doctor`] tell whether the result will run;
//! * [`findings`], [`outcomes`] and [`diagnosis`] state what a probe finds, what the
//!   commands write and choose, and what the report says.

pub mod checks;
pub mod commands;
pub mod config;
pub mod diagnosis;
pub mod doctor;
pub mod findings;
pub mod laws;
pub mod listing;
pub mod outcomes;
pub mod probe;
pub mod role_files;
pub mod setup;
pub mod team;
pub mod toml_reader;
pub mod urls;
pub mod workers;

use vstd::prelude::*;
use crate::text::chars_of;

verus! {

/// A character that may stand in a provider id.
pub open spec fn id_char(c: char) -> bool {
    'a' <= c <= 'z' || 'A' <= c <= 'Z' || '0' <= c <= '9' || c == '-' || c == '_'
}

/// A provider id that can be written to the configuration.
pub open spec fn valid_provider_id(id: Seq<char>) -> bool {
    id.len() > 0 && forall|i: int| 0 <= i < id.len() ==> id_char(#[trigger] id[i])
}

/// Checks a provider id.
pub fn validate_provider_id(id: &str) -> (checked: Result<(), String>)
    ensures
        checked is Ok <==> valid_provider_id(id@),
        checked matches Err(message) ==> message@
            == "provider id must be non-empty and use only letters, digits, `-` and `_`"@,
{
    let chars = chars_of(id);
    let mut valid = chars.len() > 0;
    for i in 0..chars.len()
        invariant
            chars@ == id@,
            valid == (id@.len() > 0 && forall|j: int| 0 <= j < i ==> id_char(#[trigger] id@[j])),
    {
        let c: char = chars[i];
        valid = valid && (('a' <= c && c <= 'z') || ('A' <= c && c <= 'Z') || ('0' <= c && c <= '9')
            || c == '-' || c == '_');
    }
    if valid {
        Ok(())
    } else {
        Err("provider id must be non-empty and use only letters, digits, `-` and `_`".to_owned())
    }
}

} // verus!
