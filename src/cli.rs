//! The invocation's inputs, checked once before any file or network access,
//! and the choice of where the role and the MFA serial number come from.

use vstd::prelude::*;
use crate::config::{extension_of, path_extension, ConfigError};
use crate::ini::{ini_value, serial_from_ini, IniSection};
use crate::profiles::ProfileTable;
use crate::mfa::{code_view, is_six_digit_code, mfa_code, opt_view, totp_code, MfaError};

verus! {

/// How the credentials are rendered.
#[derive(PartialEq, Eq, Structural, Clone, Copy, Debug)]
pub enum Format {
    Json,
    Bash,
    Zsh,
    Fish,
    PowerShell,
}

/// Conflicting or missing inputs.
#[derive(PartialEq, Eq, Structural, Clone, Copy, Debug)]
pub enum UsageError {
    /// No input at all was given.
    MissingArguments,
    /// A serial number was given without a code or a secret.
    MissingMfaCode,
    /// No MFA input at all: no serial number, account profile, code or secret.
    MissingMfa,
    /// An explicit role was given together with a profile name or a config file.
    RoleConflict,
    /// Both a code and a secret were given.
    CodeAndSecret,
}

pub open spec fn usage_message(e: UsageError) -> Seq<char> {
    match e {
        UsageError::MissingArguments => "Required arguments are missing"@,
        UsageError::MissingMfaCode => "Require one of --totp-code or --totp-secret if set --serial-number"@,
        UsageError::MissingMfa => "Require --serial-number or --aws-profile, and --totp-code or --totp-secret"@,
        UsageError::RoleConflict => "--role-arn cannot be used with --profile-name or --config"@,
        UsageError::CodeAndSecret => "--totp-code cannot be used with --totp-secret"@,
    }
}

impl UsageError {
    pub fn message(&self) -> (r: String)
        ensures
            r@ == usage_message(*self),
    {
        match self {
            UsageError::MissingArguments => String::from_str("Required arguments are missing"),
            UsageError::MissingMfaCode => String::from_str(
                "Require one of --totp-code or --totp-secret if set --serial-number",
            ),
            UsageError::MissingMfa => String::from_str(
                "Require --serial-number or --aws-profile, and --totp-code or --totp-secret",
            ),
            UsageError::RoleConflict => String::from_str(
                "--role-arn cannot be used with --profile-name or --config",
            ),
            UsageError::CodeAndSecret => String::from_str(
                "--totp-code cannot be used with --totp-secret",
            ),
        }
    }
}

/// Where the role identifier comes from.
#[derive(Debug)]
pub enum RoleSource {
    /// Given explicitly; used as it is.
    Explicit(String),
    /// The role of this profile in the configuration.
    Profile(String),
    /// Picked interactively among the configured profiles.
    Pick,
}

/// Where the MFA serial number comes from.
#[derive(Debug)]
pub enum SerialSource {
    /// Given explicitly.
    Explicit(String),
    /// The `serial_number` of the profile in the given sectioned file.
    File { path: String, profile: String },
    /// The `serial_number` of the profile in the default sectioned file.
    DefaultFile { profile: String },
    /// No source.
    Missing,
}

/// The inputs of one invocation.
pub struct Cli {
    /// Profile of the account that holds the MFA device.
    pub aws_profile: Option<String>,
    pub profile_name: Option<String>,
    pub role_arn: Option<String>,
    pub config: Option<String>,
    /// Session length in seconds, as `parse_duration` gives it.
    pub duration: i32,
    pub serial_number: Option<String>,
    /// Base32 shared secret of the MFA device.
    pub totp_secret: Option<String>,
    /// A code generated elsewhere.
    pub totp_code: Option<String>,
    /// Render the credentials so; `None` runs `args` as a command.
    pub format: Option<Format>,
    pub verbose: bool,
    pub args: Vec<String>,
}

/// What `validate_arguments` reports for these inputs.
pub open spec fn usage_check(c: Cli) -> Option<UsageError> {
    if c.role_arn is Some && (c.profile_name is Some || c.config is Some) {
        Some(UsageError::RoleConflict)
    } else if c.totp_code is Some && c.totp_secret is Some {
        Some(UsageError::CodeAndSecret)
    } else if c.aws_profile is None && c.config is None && c.profile_name is None && c.role_arn is None
        && c.serial_number is None && c.totp_code is None && c.totp_secret is None {
        Some(UsageError::MissingArguments)
    } else if c.serial_number is None && c.aws_profile is None && c.totp_code is None
        && c.totp_secret is None {
        Some(UsageError::MissingMfa)
    } else if c.serial_number is Some && c.totp_code is None && c.totp_secret is None {
        Some(UsageError::MissingMfaCode)
    } else {
        None
    }
}

/// Where the role comes from: the explicit role first, then a profile name,
/// else the interactive picker.
pub open spec fn role_source_of(c: Cli) -> RoleSource {
    match c.role_arn {
        Some(a) => RoleSource::Explicit(a),
        None => match c.profile_name {
            Some(n) => RoleSource::Profile(n),
            None => RoleSource::Pick,
        },
    }
}

impl Cli {
    /// Refuses conflicting inputs (an explicit role with a profile name or a
    /// config file; a code with a secret), no inputs at all, no MFA input at
    /// all, and a serial number without a code or a secret.
    pub fn validate_arguments(&self) -> (r: Result<(), UsageError>)
        ensures
            match usage_check(*self) {
                Some(e) => r == Err::<(), UsageError>(e),
                None => r is Ok,
            },
    {
        if self.role_arn.is_some() && (self.profile_name.is_some() || self.config.is_some()) {
            Err(UsageError::RoleConflict)
        } else if self.totp_code.is_some() && self.totp_secret.is_some() {
            Err(UsageError::CodeAndSecret)
        } else if self.aws_profile.is_none() && self.config.is_none() && self.profile_name.is_none()
            && self.role_arn.is_none() && self.serial_number.is_none() && self.totp_code.is_none()
            && self.totp_secret.is_none() {
            Err(UsageError::MissingArguments)
        } else if self.serial_number.is_none() && self.aws_profile.is_none()
            && self.totp_code.is_none() && self.totp_secret.is_none() {
            Err(UsageError::MissingMfa)
        } else if self.serial_number.is_some() && self.totp_code.is_none()
            && self.totp_secret.is_none() {
            Err(UsageError::MissingMfaCode)
        } else {
            Ok(())
        }
    }

    /// Where the role comes from (see `role_source_of`).
    pub fn role_source(&self) -> (r: RoleSource)
        ensures
            match (r, role_source_of(*self)) {
                (RoleSource::Explicit(a), RoleSource::Explicit(b)) => a@ == b@,
                (RoleSource::Profile(a), RoleSource::Profile(b)) => a@ == b@,
                (RoleSource::Pick, RoleSource::Pick) => true,
                _ => false,
            },
    {
        match &self.role_arn {
            Some(a) => RoleSource::Explicit(a.clone()),
            None => match &self.profile_name {
                Some(n) => RoleSource::Profile(n.clone()),
                None => RoleSource::Pick,
            },
        }
    }

    /// Where the MFA serial number comes from: the explicit one first; else,
    /// with an account profile, that profile's section in the given config
    /// file when the file has no extension, or in the default sectioned file.
    pub fn serial_source(&self) -> (r: SerialSource)
        ensures
            self.serial_number matches Some(s) ==> (r matches SerialSource::Explicit(x) && x@
                == s@),
            self.serial_number is None && self.aws_profile is None ==> r is Missing,
            self.serial_number is None && self.aws_profile is Some && self.config is Some
                && extension_of(self.config->0@) is None ==> (r matches SerialSource::File {
                path,
                profile,
            } && path@ == self.config->0@ && profile@ == self.aws_profile->0@),
            self.serial_number is None && self.aws_profile is Some && (self.config is None
                || extension_of(self.config->0@) is Some) ==> (r matches SerialSource::DefaultFile {
                profile,
            } && profile@ == self.aws_profile->0@),
    {
        if let Some(s) = &self.serial_number {
            return SerialSource::Explicit(s.clone());
        }
        match &self.aws_profile {
            None => SerialSource::Missing,
            Some(p) => {
                if let Some(path) = &self.config {
                    if path_extension(path.as_str()).is_none() {
                        return SerialSource::File { path: path.clone(), profile: p.clone() };
                    }
                }
                SerialSource::DefaultFile { profile: p.clone() }
            },
        }
    }

    /// The role to assume: the explicit one as it is; else the role of the
    /// named profile in `table`; else the role that the picker returned in
    /// `picked`, none (or an empty choice) meaning that the selection was
    /// cancelled.
    pub fn role_from_table(&self, table: &ProfileTable, picked: Option<String>) -> (r: Result<
        String,
        ConfigError,
    >)
        requires
            table.wf(),
        ensures
            self.role_arn matches Some(a) ==> (r matches Ok(x) && x@ == a@),
            self.role_arn is None && self.profile_name is Some && table@.contains_key(
                self.profile_name->0@,
            ) ==> (r matches Ok(x) && x@ == table@[self.profile_name->0@]),
            self.role_arn is None && self.profile_name is Some && !table@.contains_key(
                self.profile_name->0@,
            ) ==> (r matches Err(ConfigError::ProfileNotFound(n)) && n@ == self.profile_name->0@),
            self.role_arn is None && self.profile_name is None ==> match picked {
                Some(p) if p@.len() > 0 => r matches Ok(x) && x@ == p@,
                _ => r matches Err(ConfigError::SelectionCancelled),
            },
    {
        match self.role_source() {
            RoleSource::Explicit(a) => Ok(a),
            RoleSource::Profile(n) => table.lookup(n.as_str()),
            RoleSource::Pick => match picked {
                Some(p) => if p.as_str().unicode_len() > 0 {
                    Ok(p)
                } else {
                    Err(ConfigError::SelectionCancelled)
                },
                None => Err(ConfigError::SelectionCancelled),
            },
        }
    }

    /// The MFA serial number from its source (see `serial_source`), `sections`
    /// being the sectioned file that the source names, as parsed.
    pub fn serial_number_from(&self, source: &SerialSource, sections: &Vec<IniSection>) -> (r: Result<
        String,
        ConfigError,
    >)
        ensures
            source matches SerialSource::Explicit(s) ==> (r matches Ok(x) && x@ == s@),
            source is Missing ==> r matches Err(ConfigError::NoSerialSource),
            match source {
                SerialSource::File { profile, .. } | SerialSource::DefaultFile { profile } =>
                    match ini_value(sections@, "profile "@ + profile@, "serial_number"@) {
                        Some(v) => r matches Ok(x) && x@ == v,
                        None => r matches Err(ConfigError::SerialMissing(p)) && p@ == profile@,
                    },
                _ => true,
            },
    {
        match source {
            SerialSource::Explicit(s) => Ok(s.clone()),
            SerialSource::File { profile, .. } => serial_from_ini(sections, profile.as_str()),
            SerialSource::DefaultFile { profile } => serial_from_ini(sections, profile.as_str()),
            SerialSource::Missing => Err(ConfigError::NoSerialSource),
        }
    }

    /// The MFA code at unix time `now_secs` (see `totp_code`).
    pub fn totp_code(&self, now_secs: u64) -> (r: Result<String, MfaError>)
        ensures
            code_view(r) == mfa_code(
                opt_view(self.totp_code),
                opt_view(self.totp_secret),
                now_secs as int,
            ),
            self.totp_code is None ==> (r matches Ok(c) ==> is_six_digit_code(c@)),
    {
        totp_code(&self.totp_code, &self.totp_secret, now_secs)
    }
}

/// An explicit role is used as it is, whatever profile name or configuration
/// comes with it; and with a profile name or a config file it is a usage
/// error.
pub proof fn lemma_explicit_role_wins(c: Cli)
    requires
        c.role_arn is Some,
    ensures
        role_source_of(c) matches RoleSource::Explicit(a) && a == c.role_arn->0,
        c.profile_name is Some || c.config is Some ==> usage_check(c) == Some(
            UsageError::RoleConflict,
        ),
{
}

} // verus!
