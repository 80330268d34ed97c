//! The decision logic of the settings-update command: reading each
//! recognized flag out of a parsed flag set and producing the updated
//! settings record, or the exact error message.

use vstd::prelude::*;

use crate::enums::{AssemblingMachineLevel, FurnaceLevel};
use crate::flags::Flags;
use crate::strutil::{eq_ignore_ascii_case, lower_seq, str_eq};
use crate::user_settings::UserSettings;

verus! {

/// The stored value of a flag: `None` when absent, `Some(None)` when
/// given without a value.
pub open spec fn spec_flag_lookup(
    m: Map<Seq<char>, Option<Seq<char>>>,
    name: Seq<char>,
) -> Option<Option<Seq<char>>> {
    if m.dom().contains(name) {
        Some(m[name])
    } else {
        None
    }
}

pub open spec fn spec_assembling_level(
    current: AssemblingMachineLevel,
    m: Map<Seq<char>, Option<Seq<char>>>,
) -> Result<AssemblingMachineLevel, Seq<char>> {
    match spec_flag_lookup(m, "a"@) {
        None => Ok(current),
        Some(None) => Err("No value found for -a flag"@),
        Some(Some(v)) => if lower_seq(v) == "1"@ {
            Ok(AssemblingMachineLevel::One)
        } else if lower_seq(v) == "2"@ {
            Ok(AssemblingMachineLevel::Two)
        } else if lower_seq(v) == "3"@ {
            Ok(AssemblingMachineLevel::Three)
        } else {
            Err("Error: Invalid assembling machine level *"@ + v + "*"@)
        },
    }
}

pub open spec fn spec_furnace_level(
    current: FurnaceLevel,
    m: Map<Seq<char>, Option<Seq<char>>>,
) -> Result<FurnaceLevel, Seq<char>> {
    match spec_flag_lookup(m, "f"@) {
        None => Ok(current),
        Some(None) => Err("No value found for -f flag"@),
        Some(Some(v)) => if lower_seq(v) == "stone"@ {
            Ok(FurnaceLevel::Stone)
        } else if lower_seq(v) == "steel"@ {
            Ok(FurnaceLevel::Steel)
        } else {
            Err("Error: Invalid furnace level flag *"@ + v + "*"@)
        },
    }
}

/// A boolean flag reading: `true` and `false` in any letter case.
pub open spec fn spec_bool_flag(
    current: bool,
    m: Map<Seq<char>, Option<Seq<char>>>,
    name: Seq<char>,
    missing_value: Seq<char>,
    invalid_prefix: Seq<char>,
) -> Result<bool, Seq<char>> {
    match spec_flag_lookup(m, name) {
        None => Ok(current),
        Some(None) => Err(missing_value),
        Some(Some(v)) => if lower_seq(v) == "true"@ {
            Ok(true)
        } else if lower_seq(v) == "false"@ {
            Ok(false)
        } else {
            Err(invalid_prefix + v + "*"@)
        },
    }
}

impl Flags {
    /// Reads one flag as its raw value string.
    fn value_of(&self, name: &str) -> (r: Option<Option<String>>)
        requires
            self.wf(),
        ensures
            match r {
                Some(v) => spec_flag_lookup(self@, name@) == Some(crate::flags::opt_view(v)),
                None => spec_flag_lookup(self@, name@) is None,
            },
    {
        self.get(name)
    }
}

/// The flag names the settings-update command recognizes.
pub open spec fn known_flag(name: Seq<char>) -> bool {
    ||| name == "a"@
    ||| name == "f"@
    ||| name == "w"@
    ||| name == "ignore-furnace"@
    ||| name == "ignore-raw"@
}

/// Position `i` holds the first flag the settings-update command does not
/// recognize.
pub open spec fn first_unknown_at(s: Seq<(String, Option<String>)>, i: int) -> bool {
    &&& 0 <= i < s.len()
    &&& !known_flag(s[i].0@)
    &&& forall|j: int| 0 <= j < i ==> known_flag((#[trigger] s[j]).0@)
}

/// The first stored flag that the settings-update command does not
/// recognize, in storage order.
pub fn first_unknown_flag(flags: &Flags) -> (r: Option<String>)
    ensures
        match r {
            Some(name) => exists|i: int|
                #[trigger] first_unknown_at(flags.entries@, i) && flags.entries@[i].0@ == name@,
            None => forall|i: int|
                0 <= i < flags.entries@.len() ==> known_flag((#[trigger] flags.entries@[i]).0@),
        },
{
    let n = flags.entries.len();
    let mut i: usize = 0;
    while i < n
        invariant
            0 <= i <= n,
            n == flags.entries@.len(),
            forall|j: int| 0 <= j < i ==> known_flag((#[trigger] flags.entries@[j]).0@),
        decreases n - i,
    {
        let name = flags.entries[i].0.as_str();
        let known = str_eq(name, "a") || str_eq(name, "f") || str_eq(name, "w") || str_eq(
            name,
            "ignore-furnace",
        ) || str_eq(name, "ignore-raw");
        if !known {
            proof {
                assert(first_unknown_at(flags.entries@, i as int));
            }
            return Some(flags.entries[i].0.clone());
        }
        i += 1;
    }
    None
}

/// The assembling-machine tier requested by the `-a` flag, or the current
/// one when the flag is absent.
pub fn get_assembling_machine_level(user_settings: &UserSettings, flags: &Flags) -> (r: Result<
    AssemblingMachineLevel,
    String,
>)
    requires
        flags.wf(),
    ensures
        match r {
            Ok(level) => spec_assembling_level(user_settings.assembling_machine_level, flags@)
                == Ok::<_, Seq<char>>(level),
            Err(msg) => spec_assembling_level(user_settings.assembling_machine_level, flags@)
                == Err::<AssemblingMachineLevel, _>(msg@),
        },
{
    proof {
        lower_lit_digits();
    }
    match flags.value_of("a") {
        Some(possible_flag_value) => match possible_flag_value {
            Some(flag_value) => {
                if eq_ignore_ascii_case(flag_value.as_str(), "1") {
                    Ok(AssemblingMachineLevel::One)
                } else if eq_ignore_ascii_case(flag_value.as_str(), "2") {
                    Ok(AssemblingMachineLevel::Two)
                } else if eq_ignore_ascii_case(flag_value.as_str(), "3") {
                    Ok(AssemblingMachineLevel::Three)
                } else {
                    let mut msg = "Error: Invalid assembling machine level *".to_owned();
                    msg.append(flag_value.as_str());
                    msg.append("*");
                    Err(msg)
                }
            },
            None => Err("No value found for -a flag".to_owned()),
        },
        None => Ok(user_settings.assembling_machine_level),
    }
}

/// Lower-casing leaves digits and already-lower-case words unchanged.
proof fn lower_lit_digits()
    ensures
        lower_seq("1"@) == "1"@,
        lower_seq("2"@) == "2"@,
        lower_seq("3"@) == "3"@,
        lower_seq("stone"@) == "stone"@,
        lower_seq("steel"@) == "steel"@,
        lower_seq("true"@) == "true"@,
        lower_seq("false"@) == "false"@,
{
    reveal_strlit("1");
    reveal_strlit("2");
    reveal_strlit("3");
    reveal_strlit("stone");
    reveal_strlit("steel");
    reveal_strlit("true");
    reveal_strlit("false");
    assert(lower_seq("1"@) =~= "1"@);
    assert(lower_seq("2"@) =~= "2"@);
    assert(lower_seq("3"@) =~= "3"@);
    assert(lower_seq("stone"@) =~= "stone"@);
    assert(lower_seq("steel"@) =~= "steel"@);
    assert(lower_seq("true"@) =~= "true"@);
    assert(lower_seq("false"@) =~= "false"@);
}

/// The furnace tier requested by the `-f` flag, or the current one when
/// the flag is absent.
pub fn get_furnace_level(user_settings: &UserSettings, flags: &Flags) -> (r: Result<
    FurnaceLevel,
    String,
>)
    requires
        flags.wf(),
    ensures
        match r {
            Ok(level) => spec_furnace_level(user_settings.furnace_level, flags@) == Ok::<
                _,
                Seq<char>,
            >(level),
            Err(msg) => spec_furnace_level(user_settings.furnace_level, flags@) == Err::<
                FurnaceLevel,
                _,
            >(msg@),
        },
{
    proof {
        lower_lit_digits();
    }
    match flags.value_of("f") {
        Some(possible_flag_value) => match possible_flag_value {
            Some(flag_value) => {
                if eq_ignore_ascii_case(flag_value.as_str(), "stone") {
                    Ok(FurnaceLevel::Stone)
                } else if eq_ignore_ascii_case(flag_value.as_str(), "steel") {
                    Ok(FurnaceLevel::Steel)
                } else {
                    let mut msg = "Error: Invalid furnace level flag *".to_owned();
                    msg.append(flag_value.as_str());
                    msg.append("*");
                    Err(msg)
                }
            },
            None => Err("No value found for -f flag".to_owned()),
        },
        None => Ok(user_settings.furnace_level),
    }
}

/// One boolean settings flag: accepts `true` and `false` in any letter
/// case.
fn get_bool_flag(
    current: bool,
    flags: &Flags,
    name: &str,
    missing_value: &str,
    invalid_prefix: &str,
) -> (r: Result<bool, String>)
    requires
        flags.wf(),
    ensures
        match r {
            Ok(b) => spec_bool_flag(current, flags@, name@, missing_value@, invalid_prefix@)
                == Ok::<_, Seq<char>>(b),
            Err(msg) => spec_bool_flag(current, flags@, name@, missing_value@, invalid_prefix@)
                == Err::<bool, _>(msg@),
        },
{
    proof {
        lower_lit_digits();
    }
    match flags.value_of(name) {
        Some(possible_flag_value) => match possible_flag_value {
            Some(flag_value) => {
                if eq_ignore_ascii_case(flag_value.as_str(), "true") {
                    Ok(true)
                } else if eq_ignore_ascii_case(flag_value.as_str(), "false") {
                    Ok(false)
                } else {
                    let mut msg = invalid_prefix.to_owned();
                    msg.append(flag_value.as_str());
                    msg.append("*");
                    Err(msg)
                }
            },
            None => Err(missing_value.to_owned()),
        },
        None => Ok(current),
    }
}

/// The whole-numbers switch requested by the `-w` flag.
pub fn get_whole_number(user_settings: &UserSettings, flags: &Flags) -> (r: Result<bool, String>)
    requires
        flags.wf(),
    ensures
        match r {
            Ok(b) => spec_bool_flag(
                user_settings.whole_numbers,
                flags@,
                "w"@,
                "No value found for -w flag"@,
                "Error: Invalid whole flag *"@,
            ) == Ok::<_, Seq<char>>(b),
            Err(msg) => spec_bool_flag(
                user_settings.whole_numbers,
                flags@,
                "w"@,
                "No value found for -w flag"@,
                "Error: Invalid whole flag *"@,
            ) == Err::<bool, _>(msg@),
        },
{
    get_bool_flag(
        user_settings.whole_numbers,
        flags,
        "w",
        "No value found for -w flag",
        "Error: Invalid whole flag *",
    )
}

/// The furnace-exclusion switch requested by the `-ignore-furnace` flag.
pub fn get_ignore_furnace(user_settings: &UserSettings, flags: &Flags) -> (r: Result<bool, String>)
    requires
        flags.wf(),
    ensures
        match r {
            Ok(b) => spec_bool_flag(
                user_settings.ignore_furnaces_for_ratio,
                flags@,
                "ignore-furnace"@,
                "Error: No value found for -ignore-furnace flag"@,
                "Invalid ignore furnace flag *"@,
            ) == Ok::<_, Seq<char>>(b),
            Err(msg) => spec_bool_flag(
                user_settings.ignore_furnaces_for_ratio,
                flags@,
                "ignore-furnace"@,
                "Error: No value found for -ignore-furnace flag"@,
                "Invalid ignore furnace flag *"@,
            ) == Err::<bool, _>(msg@),
        },
{
    get_bool_flag(
        user_settings.ignore_furnaces_for_ratio,
        flags,
        "ignore-furnace",
        "Error: No value found for -ignore-furnace flag",
        "Invalid ignore furnace flag *",
    )
}

/// The raw-material-exclusion switch requested by the `-ignore-raw` flag.
pub fn get_ignore_raw(user_settings: &UserSettings, flags: &Flags) -> (r: Result<bool, String>)
    requires
        flags.wf(),
    ensures
        match r {
            Ok(b) => spec_bool_flag(
                user_settings.ignore_raw_for_ratio,
                flags@,
                "ignore-raw"@,
                "Error: No value found for -ignore-raw flag"@,
                "Invalid ignore raw flag *"@,
            ) == Ok::<_, Seq<char>>(b),
            Err(msg) => spec_bool_flag(
                user_settings.ignore_raw_for_ratio,
                flags@,
                "ignore-raw"@,
                "Error: No value found for -ignore-raw flag"@,
                "Invalid ignore raw flag *"@,
            ) == Err::<bool, _>(msg@),
        },
{
    get_bool_flag(
        user_settings.ignore_raw_for_ratio,
        flags,
        "ignore-raw",
        "Error: No value found for -ignore-raw flag",
        "Invalid ignore raw flag *",
    )
}

/// Applies every recognized settings flag to `user_settings` and returns
/// the updated record, or the first error among the five readings.
pub fn apply_update_flags(user_settings: &UserSettings, flags: &Flags) -> (r: Result<
    UserSettings,
    String,
>)
    requires
        flags.wf(),
    ensures
        match r {
            Ok(updated) => {
                &&& spec_assembling_level(user_settings.assembling_machine_level, flags@)
                    == Ok::<_, Seq<char>>(updated.assembling_machine_level)
                &&& spec_furnace_level(user_settings.furnace_level, flags@) == Ok::<
                    _,
                    Seq<char>,
                >(updated.furnace_level)
                &&& spec_bool_flag(
                    user_settings.whole_numbers,
                    flags@,
                    "w"@,
                    "No value found for -w flag"@,
                    "Error: Invalid whole flag *"@,
                ) == Ok::<_, Seq<char>>(updated.whole_numbers)
                &&& spec_bool_flag(
                    user_settings.ignore_furnaces_for_ratio,
                    flags@,
                    "ignore-furnace"@,
                    "Error: No value found for -ignore-furnace flag"@,
                    "Invalid ignore furnace flag *"@,
                ) == Ok::<_, Seq<char>>(updated.ignore_furnaces_for_ratio)
                &&& spec_bool_flag(
                    user_settings.ignore_raw_for_ratio,
                    flags@,
                    "ignore-raw"@,
                    "Error: No value found for -ignore-raw flag"@,
                    "Invalid ignore raw flag *"@,
                ) == Ok::<_, Seq<char>>(updated.ignore_raw_for_ratio)
            },
            Err(_) => {
                ||| spec_assembling_level(user_settings.assembling_machine_level, flags@) is Err
                ||| spec_furnace_level(user_settings.furnace_level, flags@) is Err
                ||| spec_bool_flag(
                    user_settings.whole_numbers,
                    flags@,
                    "w"@,
                    "No value found for -w flag"@,
                    "Error: Invalid whole flag *"@,
                ) is Err
                ||| spec_bool_flag(
                    user_settings.ignore_furnaces_for_ratio,
                    flags@,
                    "ignore-furnace"@,
                    "Error: No value found for -ignore-furnace flag"@,
                    "Invalid ignore furnace flag *"@,
                ) is Err
                ||| spec_bool_flag(
                    user_settings.ignore_raw_for_ratio,
                    flags@,
                    "ignore-raw"@,
                    "Error: No value found for -ignore-raw flag"@,
                    "Invalid ignore raw flag *"@,
                ) is Err
            },
        },
{
    let assembling_machine_level = match get_assembling_machine_level(user_settings, flags) {
        Ok(v) => v,
        Err(why) => {
            return Err(why);
        },
    };
    let furnace_level = match get_furnace_level(user_settings, flags) {
        Ok(v) => v,
        Err(why) => {
            return Err(why);
        },
    };
    let whole_numbers = match get_whole_number(user_settings, flags) {
        Ok(v) => v,
        Err(why) => {
            return Err(why);
        },
    };
    let ignore_furnaces_for_ratio = match get_ignore_furnace(user_settings, flags) {
        Ok(v) => v,
        Err(why) => {
            return Err(why);
        },
    };
    let ignore_raw_for_ratio = match get_ignore_raw(user_settings, flags) {
        Ok(v) => v,
        Err(why) => {
            return Err(why);
        },
    };
    Ok(
        UserSettings {
            assembling_machine_level,
            furnace_level,
            whole_numbers,
            ignore_furnaces_for_ratio,
            ignore_raw_for_ratio,
        },
    )
}

} // verus!
