//! The persisted configuration: its validation rules, the profile learned
//! for each operating system, and scoped updates.
use std::collections::BTreeMap;
use vstd::prelude::*;
use vstd::utf8::encode_utf8;

use crate::protocol::PROFILE_COUNT;

verus! {

/// Smallest accepted delay between firmware commands.
pub const MIN_COMMAND_DELAY_MS: u64 = 10;
/// Largest accepted delay between firmware commands.
pub const MAX_COMMAND_DELAY_MS: u64 = 5000;
/// Smallest accepted delay between enforcement attempts.
pub const MIN_ENFORCE_INTERVAL_MS: u64 = 1000;
/// Largest accepted delay between enforcement attempts.
pub const MAX_ENFORCE_INTERVAL_MS: u64 = 3600000;
/// Largest accepted profile name, in UTF-8 bytes.
pub const MAX_PROFILE_NAME_BYTES: usize = 256;

/// The operating system the tool runs on.
#[derive(Clone, Copy, Debug, PartialEq, Eq, Structural)]
pub enum HostOs {
    Windows,
    MacOs,
    /// Any other system: no profile can be stored for it.
    Other,
}

/// The human-facing profile number (P1-P4) learned for each system.
#[derive(Clone, Copy, Debug, Default, PartialEq, Eq, Structural)]
pub struct Profiles {
    pub windows: Option<u8>,
    pub macos: Option<u8>,
}

/// The configuration file's contents.
#[derive(Clone, Debug)]
pub struct Config {
    /// Apply the saved OS profile automatically.
    pub enabled: bool,
    /// Show the app icon in the Windows tray or macOS menu bar.
    pub show_status_icon: bool,
    pub profiles: Profiles,
    /// Last profile names read from the keyboard or Wootility cache,
    /// keyed by human-facing profile number.
    pub profile_names: BTreeMap<u8, String>,
    /// Refresh the profile's RGB state after switching (legacy devices).
    pub refresh_lighting: bool,
    /// Delay between firmware commands.
    pub command_delay_ms: u64,
    /// Reapply if the profile changes while the keyboard stays connected.
    pub enforce: bool,
    /// Minimum delay between enforcement attempts.
    pub enforce_interval_ms: u64,
}

/// Why a profile name is not accepted.
#[derive(Clone, Copy, Debug, PartialEq, Eq, Structural)]
pub enum NameError {
    Empty,
    /// Longer than `MAX_PROFILE_NAME_BYTES` UTF-8 bytes.
    TooLong,
    ControlCharacter,
}

/// Why a configuration, or a request against it, is not accepted.
#[derive(Clone, Copy, Debug, PartialEq, Eq, Structural)]
pub enum ConfigError {
    /// A profile number outside P1-P4.
    ProfileOutOfRange(u8),
    InvalidWindowsProfile(u8),
    InvalidMacosProfile(u8),
    CommandDelayOutOfRange(u64),
    EnforceIntervalOutOfRange(u64),
    /// A cached profile name is stored under a number outside P1-P4.
    InvalidCachedIndex(u8),
    InvalidCachedName(NameError),
    /// The running system has no profile slot in the configuration.
    UnsupportedOs,
    /// No profile has been learned for the running system.
    NoProfileLearned,
}

/// Unicode general category `Cc`, the characters `char::is_control` accepts.
pub open spec fn is_control(c: char) -> bool {
    (c as u32) <= 0x1F || (0x7F <= (c as u32) && (c as u32) <= 0x9F)
}

/// `char::is_control`.
pub fn char_is_control(c: char) -> (r: bool)
    ensures
        r == is_control(c),
{
    let u = c as u32;
    u <= 0x1F || (0x7F <= u && u <= 0x9F)
}

/// The first rule a profile name breaks, if any.
pub open spec fn name_error(name: Seq<char>) -> Option<NameError> {
    if name.len() == 0 {
        Some(NameError::Empty)
    } else if encode_utf8(name).len() > MAX_PROFILE_NAME_BYTES {
        Some(NameError::TooLong)
    } else if exists|i: int| 0 <= i < name.len() && is_control(#[trigger] name[i]) {
        Some(NameError::ControlCharacter)
    } else {
        None
    }
}

/// A profile name must be non-empty, at most 256 UTF-8 bytes long, and free
/// of control characters.
pub fn validate_profile_name(name: &str) -> (r: Result<(), NameError>)
    ensures
        match name_error(name@) {
            None => r is Ok,
            Some(e) => r == Err::<(), NameError>(e),
        },
{
    if name.is_empty() {
        return Err(NameError::Empty);
    }
    if name.as_bytes().len() > MAX_PROFILE_NAME_BYTES {
        return Err(NameError::TooLong);
    }
    for c in it: name.chars()
        invariant
            it.seq() == name@,
            name@.len() > 0,
            encode_utf8(name@).len() <= MAX_PROFILE_NAME_BYTES,
            forall|j: int| 0 <= j < it.index() ==> !is_control(#[trigger] name@[j]),
    {
        if char_is_control(c) {
            assert(is_control(name@[it.index() as int]));
            return Err(NameError::ControlCharacter);
        }
    }
    Ok(())
}


/// A human-facing profile number is one of P1-P4.
pub open spec fn valid_human_profile(profile: int) -> bool {
    1 <= profile <= PROFILE_COUNT
}

/// Accepts the human-facing profile numbers P1-P4.
pub fn validate_human_profile(profile: u8) -> (r: Result<(), ConfigError>)
    ensures
        valid_human_profile(profile as int) ==> r is Ok,
        !valid_human_profile(profile as int) ==> r == Err::<(), ConfigError>(
            ConfigError::ProfileOutOfRange(profile),
        ),
{
    if 1 <= profile && profile <= PROFILE_COUNT {
        Ok(())
    } else {
        Err(ConfigError::ProfileOutOfRange(profile))
    }
}

/// The first cached name, scanning profile numbers upward from `k`, that
/// is stored under an invalid number or is itself invalid.
pub open spec fn cached_names_error(names: Map<u8, String>, k: int) -> Option<ConfigError>
    decreases 256 - k,
{
    if k < 0 || k >= 256 {
        None
    } else if names.contains_key(k as u8) && !valid_human_profile(k) {
        Some(ConfigError::InvalidCachedIndex(k as u8))
    } else if names.contains_key(k as u8) && name_error(names[k as u8]@) is Some {
        Some(ConfigError::InvalidCachedName(name_error(names[k as u8]@)->0))
    } else {
        cached_names_error(names, k + 1)
    }
}

/// The first rule a configuration breaks, if any, in the order the rules
/// are checked: the Windows profile, the macOS profile, the command delay,
/// the enforcement interval, then the cached names by profile number.
pub open spec fn config_error(c: Config) -> Option<ConfigError> {
    if c.profiles.windows is Some && !valid_human_profile(c.profiles.windows->0 as int) {
        Some(ConfigError::InvalidWindowsProfile(c.profiles.windows->0))
    } else if c.profiles.macos is Some && !valid_human_profile(c.profiles.macos->0 as int) {
        Some(ConfigError::InvalidMacosProfile(c.profiles.macos->0))
    } else if !(MIN_COMMAND_DELAY_MS <= c.command_delay_ms <= MAX_COMMAND_DELAY_MS) {
        Some(ConfigError::CommandDelayOutOfRange(c.command_delay_ms))
    } else if !(MIN_ENFORCE_INTERVAL_MS <= c.enforce_interval_ms <= MAX_ENFORCE_INTERVAL_MS) {
        Some(ConfigError::EnforceIntervalOutOfRange(c.enforce_interval_ms))
    } else {
        cached_names_error(c.profile_names@, 0)
    }
}

/// A configuration is valid when it breaks none of the rules.
pub open spec fn config_valid(c: Config) -> bool {
    config_error(c) is None
}

impl Config {
    /// Checks the configuration against its rules and reports the first
    /// one it breaks.
    pub fn validate(&self) -> (r: Result<(), ConfigError>)
        ensures
            match config_error(*self) {
                None => r is Ok,
                Some(e) => r == Err::<(), ConfigError>(e),
            },
    {
        if let Some(profile) = self.profiles.windows {
            if validate_human_profile(profile).is_err() {
                return Err(ConfigError::InvalidWindowsProfile(profile));
            }
        }
        if let Some(profile) = self.profiles.macos {
            if validate_human_profile(profile).is_err() {
                return Err(ConfigError::InvalidMacosProfile(profile));
            }
        }
        if !(MIN_COMMAND_DELAY_MS <= self.command_delay_ms && self.command_delay_ms
            <= MAX_COMMAND_DELAY_MS) {
            return Err(ConfigError::CommandDelayOutOfRange(self.command_delay_ms));
        }
        if !(MIN_ENFORCE_INTERVAL_MS <= self.enforce_interval_ms && self.enforce_interval_ms
            <= MAX_ENFORCE_INTERVAL_MS) {
            return Err(ConfigError::EnforceIntervalOutOfRange(self.enforce_interval_ms));
        }
        let mut k: u16 = 0;
        while k < 256
            invariant
                k <= 256,
                cached_names_error(self.profile_names@, k as int) == config_error(*self),
            decreases 256 - k,
        {
            let key = k as u8;
            match self.profile_names.get(&key) {
                Some(name) => {
                    if validate_human_profile(key).is_err() {
                        return Err(ConfigError::InvalidCachedIndex(key));
                    }
                    match validate_profile_name(name.as_str()) {
                        Err(e) => {
                            return Err(ConfigError::InvalidCachedName(e));
                        },
                        Ok(()) => {},
                    }
                },
                None => {},
            }
            k += 1;
        }
        Ok(())
    }
}


/// The profile number stored for `os`, if the system has a slot.
pub open spec fn stored_profile(c: Config, os: HostOs) -> Option<u8> {
    match os {
        HostOs::Windows => c.profiles.windows,
        HostOs::MacOs => c.profiles.macos,
        HostOs::Other => None,
    }
}

/// What `configured_profile` answers: the zero-based slot learned for `os`.
pub open spec fn configured_profile_spec(c: Config, os: HostOs) -> Result<u8, ConfigError> {
    match os {
        HostOs::Other => Err(ConfigError::UnsupportedOs),
        _ => match stored_profile(c, os) {
            None => Err(ConfigError::NoProfileLearned),
            Some(p) => if valid_human_profile(p as int) {
                Ok((p - 1) as u8)
            } else {
                Err(ConfigError::ProfileOutOfRange(p))
            },
        },
    }
}

impl Config {
    /// The zero-based onboard slot learned for `os`.
    pub fn configured_profile(&self, os: HostOs) -> (r: Result<u8, ConfigError>)
        ensures
            r == configured_profile_spec(*self, os),
    {
        let profile = match os {
            HostOs::Windows => self.profiles.windows,
            HostOs::MacOs => self.profiles.macos,
            HostOs::Other => {
                return Err(ConfigError::UnsupportedOs);
            },
        };
        match profile {
            None => Err(ConfigError::NoProfileLearned),
            Some(p) => {
                validate_human_profile(p)?;
                Ok(p - 1)
            },
        }
    }

    /// Remembers `human_profile` (P1-P4) for `os`.
    pub fn learn_for_current_os(&mut self, os: HostOs, human_profile: u8) -> (r: Result<
        (),
        ConfigError,
    >)
        ensures
            !valid_human_profile(human_profile as int) ==> r == Err::<(), ConfigError>(
                ConfigError::ProfileOutOfRange(human_profile),
            ) && *final(self) == *old(self),
            valid_human_profile(human_profile as int) && os == HostOs::Other ==> r == Err::<
                (),
                ConfigError,
            >(ConfigError::UnsupportedOs) && *final(self) == *old(self),
            valid_human_profile(human_profile as int) && os == HostOs::Windows ==> r is Ok
                && *final(self) == (Config {
                profiles: Profiles { windows: Some(human_profile), ..old(self).profiles },
                ..*old(self)
            }),
            valid_human_profile(human_profile as int) && os == HostOs::MacOs ==> r is Ok
                && *final(self) == (Config {
                profiles: Profiles { macos: Some(human_profile), ..old(self).profiles },
                ..*old(self)
            }),
    {
        validate_human_profile(human_profile)?;
        match os {
            HostOs::Windows => {
                self.profiles.windows = Some(human_profile);
                Ok(())
            },
            HostOs::MacOs => {
                self.profiles.macos = Some(human_profile);
                Ok(())
            },
            HostOs::Other => Err(ConfigError::UnsupportedOs),
        }
    }
}

/// Default for the boolean switches that start enabled.
pub fn default_true() -> (r: bool)
    ensures
        r,
{
    true
}

/// Default delay between firmware commands.
pub fn default_command_delay_ms() -> (r: u64)
    ensures
        r == 250,
{
    250
}

/// Default minimum delay between enforcement attempts.
pub fn default_enforce_interval_ms() -> (r: u64)
    ensures
        r == 5000,
{
    5000
}

/// The configuration used when none has been saved.
pub open spec fn is_default_config(c: Config) -> bool {
    &&& c.enabled
    &&& c.show_status_icon
    &&& c.profiles == Profiles { windows: None, macos: None }
    &&& c.profile_names@ == Map::<u8, String>::empty()
    &&& c.refresh_lighting
    &&& c.command_delay_ms == 250
    &&& !c.enforce
    &&& c.enforce_interval_ms == 5000
}

/// The configuration used when none has been saved.
pub fn default_config() -> (c: Config)
    ensures
        is_default_config(c),
        config_valid(c),
{
    let c = Config {
        enabled: default_true(),
        show_status_icon: default_true(),
        profiles: Profiles { windows: None, macos: None },
        profile_names: BTreeMap::new(),
        refresh_lighting: default_true(),
        command_delay_ms: default_command_delay_ms(),
        enforce: false,
        enforce_interval_ms: default_enforce_interval_ms(),
    };
    assert forall|k: int| #![trigger cached_names_error(c.profile_names@, k)] 0 <= k <= 256 implies cached_names_error(c.profile_names@, k) is None by {
        lemma_no_cached_error_in_empty(c.profile_names@, k);
    }
    c
}

proof fn lemma_no_cached_error_in_empty(names: Map<u8, String>, k: int)
    requires
        names == Map::<u8, String>::empty(),
    ensures
        cached_names_error(names, k) is None,
    decreases 256 - k,
{
    if 0 <= k < 256 {
        lemma_no_cached_error_in_empty(names, k + 1);
    }
}


/// A scoped change to the configuration.
#[derive(Clone, Debug)]
pub enum ConfigChange {
    SetEnabled(bool),
    SetEnforce(bool),
    SetShowStatusIcon(bool),
    SetProfileNames(BTreeMap<u8, String>),
    /// Remember a human-facing profile number for a system.
    Learn(HostOs, u8),
}

/// The configuration after `change`, before validation.
pub open spec fn changed_config(c: Config, change: ConfigChange) -> Result<Config, ConfigError> {
    match change {
        ConfigChange::SetEnabled(b) => Ok(Config { enabled: b, ..c }),
        ConfigChange::SetEnforce(b) => Ok(Config { enforce: b, ..c }),
        ConfigChange::SetShowStatusIcon(b) => Ok(Config { show_status_icon: b, ..c }),
        ConfigChange::SetProfileNames(names) => Ok(Config { profile_names: names, ..c }),
        ConfigChange::Learn(os, p) => if !valid_human_profile(p as int) {
            Err(ConfigError::ProfileOutOfRange(p))
        } else {
            match os {
                HostOs::Windows => Ok(
                    Config { profiles: Profiles { windows: Some(p), ..c.profiles }, ..c },
                ),
                HostOs::MacOs => Ok(
                    Config { profiles: Profiles { macos: Some(p), ..c.profiles }, ..c },
                ),
                HostOs::Other => Err(ConfigError::UnsupportedOs),
            }
        },
    }
}

/// What `update_config` answers: the changed configuration when the change
/// applies and the result is valid, otherwise the first error.
pub open spec fn update_result(c: Config, change: ConfigChange) -> Result<Config, ConfigError> {
    match changed_config(c, change) {
        Err(e) => Err(e),
        Ok(c2) => match config_error(c2) {
            Some(e) => Err(e),
            None => Ok(c2),
        },
    }
}

/// Applies a scoped change to the loaded configuration and validates the
/// result before it may be written back. Settings that the change does not
/// name keep their loaded values.
pub fn update_config(current: Config, change: ConfigChange) -> (r: Result<Config, ConfigError>)
    ensures
        r == update_result(current, change),
{
    let mut config = current;
    match change {
        ConfigChange::SetEnabled(b) => {
            config.enabled = b;
        },
        ConfigChange::SetEnforce(b) => {
            config.enforce = b;
        },
        ConfigChange::SetShowStatusIcon(b) => {
            config.show_status_icon = b;
        },
        ConfigChange::SetProfileNames(names) => {
            config.profile_names = names;
        },
        ConfigChange::Learn(os, p) => {
            config.learn_for_current_os(os, p)?;
        },
    }
    config.validate()?;
    Ok(config)
}

/// A scoped update that succeeds changes only the setting it names.
pub proof fn lemma_scoped_update_preserves_other_settings(c: Config, change: ConfigChange)
    requires
        update_result(c, change) is Ok,
    ensures
        ({
            let c2 = update_result(c, change)->Ok_0;
            &&& (change is SetEnabled ==> c2 == Config { enabled: change->SetEnabled_0, ..c })
            &&& (change is SetEnforce ==> c2 == Config { enforce: change->SetEnforce_0, ..c })
            &&& (change is SetShowStatusIcon ==> c2 == Config {
                show_status_icon: change->SetShowStatusIcon_0,
                ..c
            })
            &&& (change is SetProfileNames ==> c2 == Config {
                profile_names: change->SetProfileNames_0,
                ..c
            })
            &&& (change is Learn ==> c2 == Config { profiles: c2.profiles, ..c })
        }),
{
}

proof fn lemma_cached_names_error_none(names: Map<u8, String>, k: int)
    requires
        0 <= k <= 256,
    ensures
        cached_names_error(names, k) is None <==> forall|key: u8|
            k <= key && #[trigger] names.contains_key(key) ==> valid_human_profile(key as int)
                && name_error(names[key]@) is None,
    decreases 256 - k,
{
    if k < 256 {
        lemma_cached_names_error_none(names, k + 1);
        if cached_names_error(names, k) is None {
            assert forall|key: u8|
                k <= key && #[trigger] names.contains_key(key) implies valid_human_profile(key as int)
                && name_error(names[key]@) is None by {
                if key as int == k {
                    assert(key == k as u8);
                }
            }
        } else {
            if !(names.contains_key(k as u8) && !valid_human_profile(k))
                && !(names.contains_key(k as u8) && name_error(names[k as u8]@) is Some) {
                let key = choose|key: u8|
                    !(k + 1 <= key && #[trigger] names.contains_key(key) ==> valid_human_profile(
                        key as int,
                    ) && name_error(names[key]@) is None);
                assert(k <= key);
            } else {
                assert((k as u8) as int == k);
            }
        }
    }
}

/// The configuration rules: a configuration is accepted exactly when each
/// stored system profile is P1-P4, the command delay is 10-5000 ms, the
/// enforcement interval is 1-3600 s, and every cached name is a valid
/// profile name stored under P1-P4.
pub proof fn lemma_config_rules(c: Config)
    ensures
        config_error(c) is None <==> {
            &&& (c.profiles.windows matches Some(p) ==> 1 <= p <= 4)
            &&& (c.profiles.macos matches Some(p) ==> 1 <= p <= 4)
            &&& 10 <= c.command_delay_ms <= 5000
            &&& 1000 <= c.enforce_interval_ms <= 3600000
            &&& forall|key: u8|
                #[trigger] c.profile_names@.contains_key(key) ==> 1 <= key <= 4 && name_error(
                    c.profile_names@[key]@,
                ) is None
        },
{
    lemma_cached_names_error_none(c.profile_names@, 0);
}

/// Learning a profile for one system stores it for that system only: a
/// successful `Learn(os, p)` needs a profile P1-P4 and a system with a slot,
/// stores `p` in that system's slot, and leaves the other system's slot and
/// every other setting as they were.
pub proof fn lemma_learn_keeps_other_systems(c: Config, os: HostOs, p: u8)
    ensures
        update_result(c, ConfigChange::Learn(os, p)) matches Ok(c2) ==> {
            &&& 1 <= p <= 4
            &&& os != HostOs::Other
            &&& os == HostOs::Windows ==> c2.profiles.windows == Some(p) && c2.profiles.macos
                == c.profiles.macos
            &&& os == HostOs::MacOs ==> c2.profiles.macos == Some(p) && c2.profiles.windows
                == c.profiles.windows
            &&& c2 == (Config { profiles: c2.profiles, ..c })
        },
{
}

/// What a read gives back of a learn: after a successful `Learn(os, p)`,
/// the configured profile for `os` is slot `p - 1`, and the configured
/// profile for any other system is what it was before.
pub proof fn lemma_learned_profile_is_configured(c: Config, os: HostOs, p: u8, other: HostOs)
    requires
        other != os,
    ensures
        update_result(c, ConfigChange::Learn(os, p)) matches Ok(c2) ==> {
            &&& configured_profile_spec(c2, os) == Ok::<u8, ConfigError>((p - 1) as u8)
            &&& configured_profile_spec(c2, other) == configured_profile_spec(c, other)
        },
{
}

/// Turns periodic enforcement on or off.
pub fn set_enforcement(config: Config, enabled: bool) -> (r: Result<Config, ConfigError>)
    ensures
        r == update_result(config, ConfigChange::SetEnforce(enabled)),
{
    update_config(config, ConfigChange::SetEnforce(enabled))
}

/// Shows or hides the app's tray or menu-bar icon.
pub fn set_status_icon(config: Config, visible: bool) -> (r: Result<Config, ConfigError>)
    ensures
        r == update_result(config, ConfigChange::SetShowStatusIcon(visible)),
{
    update_config(config, ConfigChange::SetShowStatusIcon(visible))
}

/// What to do after automatic switching was turned on or off.
pub struct AutomaticSwitching {
    /// The configuration to write back.
    pub config: Config,
    /// The human-facing profile to apply now, if one is learned.
    pub apply_profile: Option<u8>,
    /// Whether the background watcher must be started.
    pub start_watcher: bool,
}

/// Turns automatic switching on or off. When it is turned on, the learned
/// profile is applied at once and the background watcher is started.
pub fn set_automatic_switching(config: Config, os: HostOs, enabled: bool) -> (r: Result<
    AutomaticSwitching,
    ConfigError,
>)
    ensures
        match update_result(config, ConfigChange::SetEnabled(enabled)) {
            Err(e) => r matches Err(e2) && e2 == e,
            Ok(c2) => r matches Ok(plan) && plan.config == c2 && plan.start_watcher == enabled
                && plan.apply_profile == (if enabled && configured_profile_spec(c2, os) is Ok {
                Some((configured_profile_spec(c2, os)->Ok_0 + 1) as u8)
            } else {
                None
            }),
        },
{
    let updated = update_config(config, ConfigChange::SetEnabled(enabled))?;
    let mut apply_profile: Option<u8> = None;
    if enabled {
        match updated.configured_profile(os) {
            Ok(profile) => {
                apply_profile = Some(profile + 1);
            },
            Err(_) => {},
        }
    }
    Ok(AutomaticSwitching { config: updated, apply_profile, start_watcher: enabled })
}

/// The map that collecting `pairs` into a `BTreeMap` builds: later pairs
/// replace earlier ones with the same key.
pub open spec fn pairs_to_map(pairs: Seq<(u8, String)>) -> Map<u8, String>
    decreases pairs.len(),
{
    if pairs.len() == 0 {
        Map::empty()
    } else {
        pairs_to_map(pairs.drop_last()).insert(pairs.last().0, pairs.last().1)
    }
}

/// Replaces the cached profile names with the ones just discovered.
pub fn cache_profile_names(config: &mut Config, profiles: &[(u8, String)])
    ensures
        final(config).profile_names@ == pairs_to_map(profiles@),
        *final(config) == (Config { profile_names: final(config).profile_names, ..*old(config) }),
{
    let mut names: BTreeMap<u8, String> = BTreeMap::new();
    let mut i: usize = 0;
    while i < profiles.len()
        invariant
            i <= profiles@.len(),
            names@ == pairs_to_map(profiles@.subrange(0, i as int)),
        decreases profiles@.len() - i,
    {
        let index = profiles[i].0;
        let name = profiles[i].1.clone();
        names.insert(index, name);
        assert(profiles@.subrange(0, i + 1).drop_last() == profiles@.subrange(0, i as int));
        i += 1;
    }
    assert(profiles@.subrange(0, profiles@.len() as int) == profiles@);
    config.profile_names = names;
}

} // verus!
