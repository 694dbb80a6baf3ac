//! The sectioned key-value configuration format, as its parser hands it over:
//! sections in file order, each with its properties in file order. A lookup
//! takes the first section of the given name and, in it, the first property of
//! the given key.

use vstd::prelude::*;
use crate::config::ConfigError;
use crate::profiles::{pairs_map, ProfileTable};
use crate::text::same_text;

verus! {

/// One section: its name (none for the properties before the first header)
/// and its `(key, value)` properties.
#[derive(Debug)]
pub struct IniSection {
    pub name: Option<String>,
    pub properties: Vec<(String, String)>,
}

pub open spec fn section_named(s: IniSection, n: Seq<char>) -> bool {
    s.name matches Some(x) && x@ == n
}

/// Index of the first section named `n` at or after `i`, or -1.
pub open spec fn first_section_from(secs: Seq<IniSection>, n: Seq<char>, i: int) -> int
    decreases secs.len() - i,
{
    if i < 0 || i >= secs.len() {
        -1
    } else if section_named(secs[i], n) {
        i
    } else {
        first_section_from(secs, n, i + 1)
    }
}

/// Value of the first property with key `k` at or after `i`.
pub open spec fn first_value_from(props: Seq<(String, String)>, k: Seq<char>, i: int) -> Option<
    Seq<char>,
>
    decreases props.len() - i,
{
    if i < 0 || i >= props.len() {
        None
    } else if props[i].0@ == k {
        Some(props[i].1@)
    } else {
        first_value_from(props, k, i + 1)
    }
}

/// The value of `key` in the first section named `section`.
pub open spec fn ini_value(secs: Seq<IniSection>, section: Seq<char>, key: Seq<char>) -> Option<
    Seq<char>,
> {
    let i = first_section_from(secs, section, 0);
    if i < 0 {
        None
    } else {
        first_value_from(secs[i].properties@, key, 0)
    }
}

/// The section name that holds the profile `<name>`, `profile <name>`.
pub open spec fn is_profile_section(n: Seq<char>) -> bool {
    n.len() >= 8 && n.take(8) == "profile "@
}

/// The profile that the section `profile <name>` holds: `<name>`.
pub open spec fn profile_of_section(n: Seq<char>) -> Seq<char> {
    n.skip(8)
}

/// The profiles that the first `upto` sections define: a section named
/// `profile <name>` with a `role_arn` defines the profile `<name>`. Other
/// sections, and those without `role_arn`, define none.
pub open spec fn ini_profile_pairs(secs: Seq<IniSection>, upto: int) -> Seq<(Seq<char>, Seq<char>)>
    decreases upto,
{
    if upto <= 0 || upto > secs.len() {
        Seq::empty()
    } else {
        let prev = ini_profile_pairs(secs, upto - 1);
        match secs[upto - 1].name {
            Some(n) => if is_profile_section(n@) {
                match ini_value(secs, n@, "role_arn"@) {
                    Some(v) => prev.push((profile_of_section(n@), v)),
                    None => prev,
                }
            } else {
                prev
            },
            None => prev,
        }
    }
}

/// The profile that `n` names when it is `profile <name>`.
pub fn section_profile(n: &str) -> (r: Option<String>)
    ensures
        match r {
            Some(p) => is_profile_section(n@) && p@ == profile_of_section(n@),
            None => !is_profile_section(n@),
        },
{
    proof {
        reveal_strlit("profile ");
    }
    let len = n.unicode_len();
    if len < 8 {
        return None;
    }
    if same_text(n.substring_char(0, 8), "profile ") {
        Some(String::from_str(n.substring_char(8, len)))
    } else {
        None
    }
}

/// The value of `key` in the first section named `section`.
pub fn ini_lookup(secs: &Vec<IniSection>, section: &str, key: &str) -> (r: Option<String>)
    ensures
        match r {
            Some(v) => ini_value(secs@, section@, key@) == Some(v@),
            None => ini_value(secs@, section@, key@) is None,
        },
{
    let mut i: usize = 0;
    while i < secs.len()
        invariant
            i <= secs@.len(),
            first_section_from(secs@, section@, 0) == first_section_from(secs@, section@, i as int),
        decreases secs@.len() - i,
    {
        let found = match &secs[i].name {
            Some(n) => same_text(n.as_str(), section),
            None => false,
        };
        if found {
            assert(section_named(secs@[i as int], section@));
            let props = &secs[i].properties;
            assert(props@ == secs@[i as int].properties@);
            let mut j: usize = 0;
            while j < props.len()
                invariant
                    j <= props@.len(),
                    i < secs@.len(),
                    section_named(secs@[i as int], section@),
                    props@ == secs@[i as int].properties@,
                    first_section_from(secs@, section@, 0) == first_section_from(
                        secs@,
                        section@,
                        i as int,
                    ),
                    first_value_from(props@, key@, 0) == first_value_from(props@, key@, j as int),
                decreases props@.len() - j,
            {
                if same_text(props[j].0.as_str(), key) {
                    let v = props[j].1.clone();
                    assert(first_section_from(secs@, section@, i as int) == i);
                    assert(first_value_from(props@, key@, j as int) == Some(props@[j as int].1@));
                    return Some(v);
                }
                j = j + 1;
            }
            return None;
        }
        i = i + 1;
    }
    None
}

/// The profile table that the sections define (see `ini_profile_pairs`); a
/// later section replaces an earlier one that names the same profile.
pub fn profiles_from_ini(secs: &Vec<IniSection>) -> (r: ProfileTable)
    ensures
        r.wf(),
        r@ == pairs_map(ini_profile_pairs(secs@, secs@.len() as int)),
{
    let mut table = ProfileTable::new();
    let mut i: usize = 0;
    while i < secs.len()
        invariant
            i <= secs@.len(),
            table.wf(),
            table@ == pairs_map(ini_profile_pairs(secs@, i as int)),
        decreases secs@.len() - i,
    {
        let ghost prev = ini_profile_pairs(secs@, i as int);
        assert(ini_profile_pairs(secs@, i + 1) == match secs@[i as int].name {
            Some(n) => if is_profile_section(n@) {
                match ini_value(secs@, n@, "role_arn"@) {
                    Some(v) => prev.push((profile_of_section(n@), v)),
                    None => prev,
                }
            } else {
                prev
            },
            None => prev,
        });
        match &secs[i].name {
            Some(n) => match ini_lookup(secs, n.as_str(), "role_arn") {
                Some(v) => match section_profile(n.as_str()) {
                    Some(name) => {
                        table.insert(name, v);
                        assert(pairs_map(prev.push((name@, v@))) == pairs_map(prev).insert(
                            name@,
                            v@,
                        )) by {
                            assert(prev.push((name@, v@)).drop_last() == prev);
                        }
                    },
                    None => {},
                },
                None => {},
            },
            None => {},
        }
        i = i + 1;
    }
    table
}

/// The MFA serial number of the profile `profile`: the `serial_number` of
/// the section `profile <profile>`.
pub fn serial_from_ini(secs: &Vec<IniSection>, profile: &str) -> (r: Result<String, ConfigError>)
    ensures
        match ini_value(secs@, "profile "@ + profile@, "serial_number"@) {
            Some(v) => r matches Ok(s) && s@ == v,
            None => r matches Err(ConfigError::SerialMissing(p)) && p@ == profile@,
        },
{
    let section = String::from_str("profile ").concat(profile);
    match ini_lookup(secs, section.as_str(), "serial_number") {
        Some(v) => Ok(v),
        None => Err(ConfigError::SerialMissing(String::from_str(profile))),
    }
}

} // verus!
