//! User configuration pieces that carry their own rules: notification
//! settings with the sound volume added in the current shape, and the
//! defaults that hold when a field is absent.

use vstd::prelude::*;

verus! {

/// The default branch prefix of managed branches.
pub fn default_git_branch_prefix() -> (r: String)
    ensures
        r@ == "af"@,
{
    String::from_str("af")
}

/// The default notification volume, in percent.
pub fn default_sound_volume() -> (r: u8)
    ensures
        r == 100,
{
    100
}

/// A notification sound.
#[derive(Debug, Clone, Copy, PartialEq, Eq, Structural)]
pub enum SoundFile {
    AbstractSound1,
    GenieNotify1,
}

/// Notification settings, volume included.
#[derive(Debug, Clone)]
pub struct NotificationConfig {
    pub sound_enabled: bool,
    pub push_enabled: bool,
    pub sound_file: SoundFile,
    /// Volume in percent, 0 to 100.
    pub sound_volume: u8,
}

impl Default for NotificationConfig {
    /// Sounds and push on, at full volume.
    fn default() -> (r: Self)
        ensures
            r.sound_enabled,
            r.push_enabled,
            r.sound_file == SoundFile::GenieNotify1,
            r.sound_volume == 100,
    {
        NotificationConfig {
            sound_enabled: true,
            push_enabled: true,
            sound_file: SoundFile::GenieNotify1,
            sound_volume: default_sound_volume(),
        }
    }
}

/// Notification settings as the previous configuration shape stored them,
/// before a volume existed.
#[derive(Debug, Clone)]
pub struct PreviousNotificationConfig {
    pub sound_enabled: bool,
    pub push_enabled: bool,
    pub sound_file: SoundFile,
}

impl vstd::std_specs::convert::FromSpecImpl<PreviousNotificationConfig> for NotificationConfig {
    open spec fn obeys_from_spec() -> bool {
        true
    }

    open spec fn from_spec(old_config: PreviousNotificationConfig) -> NotificationConfig {
        NotificationConfig {
            sound_enabled: old_config.sound_enabled,
            push_enabled: old_config.push_enabled,
            sound_file: old_config.sound_file,
            sound_volume: 100,
        }
    }
}

impl From<PreviousNotificationConfig> for NotificationConfig {
    /// Migration keeps every stored field and takes full volume for the new
    /// one, for backward compatibility.
    fn from(old_config: PreviousNotificationConfig) -> (r: NotificationConfig) {
        NotificationConfig {
            sound_enabled: old_config.sound_enabled,
            push_enabled: old_config.push_enabled,
            sound_file: old_config.sound_file,
            sound_volume: default_sound_volume(),
        }
    }
}

} // verus!
