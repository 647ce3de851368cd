//! The gameplay modes.

use vstd::prelude::*;
use crate::text::same_text;

verus! {

#[derive(Clone, Copy, Debug, PartialEq, Eq, Structural, PartialOrd, Ord, Hash)]
pub enum Mode {
    Vanilla,
    Modded,
}

/// Why a value does not name a mode.
#[derive(Debug)]
pub enum ModeError {
    /// No mode has this numeric ID.
    UnknownId(u64),
    /// No mode has this name.
    UnknownName(String),
}

impl Mode {
    pub open spec fn spec_api(self) -> Seq<char> {
        match self {
            Mode::Vanilla => "kz_vanilla"@,
            Mode::Modded => "kz_modded"@,
        }
    }

    pub open spec fn spec_id(self) -> u8 {
        match self {
            Mode::Vanilla => 1,
            Mode::Modded => 2,
        }
    }

    /// The name under which the API writes this mode.
    pub fn api(&self) -> (r: &'static str)
        ensures
            r@ == self.spec_api(),
    {
        match self {
            Mode::Vanilla => "kz_vanilla",
            Mode::Modded => "kz_modded",
        }
    }

    /// The name of the variant, as it is displayed.
    pub fn name(&self) -> (r: &'static str)
        ensures
            r@ == match self {
                Mode::Vanilla => "Vanilla"@,
                Mode::Modded => "Modded"@,
            },
    {
        match self {
            Mode::Vanilla => "Vanilla",
            Mode::Modded => "Modded",
        }
    }

    /// The numeric ID of the mode.
    pub fn id(&self) -> (r: u8)
        ensures
            r == self.spec_id(),
    {
        match self {
            Mode::Vanilla => 1,
            Mode::Modded => 2,
        }
    }

    /// The mode with numeric ID `value`.
    pub fn from_id(value: u64) -> (r: Result<Mode, ModeError>)
        ensures
            value == 1 <==> r == Ok::<Mode, ModeError>(Mode::Vanilla),
            value == 2 <==> r == Ok::<Mode, ModeError>(Mode::Modded),
            value != 1 && value != 2 <==> r == Err::<Mode, ModeError>(ModeError::UnknownId(value)),
    {
        if value == 1 {
            Ok(Mode::Vanilla)
        } else if value == 2 {
            Ok(Mode::Modded)
        } else {
            Err(ModeError::UnknownId(value))
        }
    }

    /// The mode that `input` names: its API name, its short name or its
    /// abbreviation.
    pub fn parse(input: &str) -> (r: Result<Mode, ModeError>)
        ensures
            is_vanilla_name(input@) ==> r == Ok::<Mode, ModeError>(Mode::Vanilla),
            is_modded_name(input@) ==> r == Ok::<Mode, ModeError>(Mode::Modded),
            !is_vanilla_name(input@) && !is_modded_name(input@) ==> (r is Err && (r->Err_0
                matches ModeError::UnknownName(s) && s@ == input@)),
    {
        proof {
            reveal_strlit("kz_vanilla");
            reveal_strlit("vanilla");
            reveal_strlit("vnl");
            reveal_strlit("kz_modded");
            reveal_strlit("modded");
            reveal_strlit("mod");
            assert("mod"@[0] != "vnl"@[0]);
            assert("kz_modded"@.len() == 9 && "modded"@.len() == 6 && "mod"@.len() == 3);
            assert("kz_vanilla"@.len() == 10 && "vanilla"@.len() == 7 && "vnl"@.len() == 3);
            assert(is_modded_name(input@) ==> !is_vanilla_name(input@));
        }
        if same_text(input, "kz_vanilla") || same_text(input, "vanilla") || same_text(input, "vnl") {
            Ok(Mode::Vanilla)
        } else if same_text(input, "kz_modded") || same_text(input, "modded") || same_text(
            input,
            "mod",
        ) {
            Ok(Mode::Modded)
        } else {
            Err(ModeError::UnknownName(input.to_owned()))
        }
    }
}

pub open spec fn is_vanilla_name(s: Seq<char>) -> bool {
    s == "kz_vanilla"@ || s == "vanilla"@ || s == "vnl"@
}

pub open spec fn is_modded_name(s: Seq<char>) -> bool {
    s == "kz_modded"@ || s == "modded"@ || s == "mod"@
}

impl Default for Mode {
    fn default() -> (r: Mode)
        ensures
            r == Mode::Vanilla,
    {
        Mode::Vanilla
    }
}

} // verus!
