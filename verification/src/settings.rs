//! Project and global settings, and the resolution of the effective Omni
//! configuration: a project override replaces the global configuration, and
//! each level's enabled flag governs its own configuration.

use vstd::prelude::*;

use crate::omni::OmniConfig;
use crate::text::clone_opt_string;

verus! {

/// Forge-specific settings of a project, or the global ones.
#[derive(Debug, Clone)]
pub struct ForgeProjectSettings {
    pub omni_enabled: bool,
    pub omni_config: Option<OmniConfig>,
}

impl Default for ForgeProjectSettings {
    /// Notifications off, nothing configured.
    fn default() -> (r: Self)
        ensures
            !r.omni_enabled,
            r.omni_config is None,
    {
        ForgeProjectSettings { omni_enabled: false, omni_config: None }
    }
}

/// A configuration with nothing set.
pub open spec fn spec_default_omni() -> OmniConfig {
    OmniConfig {
        enabled: false,
        host: None,
        api_key: None,
        instance: None,
        recipient: None,
        recipient_type: None,
    }
}

/// `c` with its enabled flag replaced.
pub open spec fn spec_with_enabled(c: OmniConfig, enabled: bool) -> OmniConfig {
    OmniConfig {
        enabled: enabled,
        host: c.host,
        api_key: c.api_key,
        instance: c.instance,
        recipient: c.recipient,
        recipient_type: c.recipient_type,
    }
}

/// The Omni configuration in effect: the global configuration under the
/// global enabled flag; when project settings exist, their configuration
/// (falling back to the global one) under the project's enabled flag.
pub open spec fn spec_effective_omni(
    global: ForgeProjectSettings,
    project: Option<ForgeProjectSettings>,
) -> OmniConfig {
    let base0 = match global.omni_config {
        Some(c) => c,
        None => spec_default_omni(),
    };
    let base = spec_with_enabled(base0, global.omni_enabled);
    match project {
        Some(p) => {
            let c0 = match p.omni_config {
                Some(c) => c,
                None => base,
            };
            spec_with_enabled(c0, p.omni_enabled)
        },
        None => base,
    }
}

fn copy_omni_config(c: &OmniConfig) -> (r: OmniConfig)
    ensures
        r == *c,
{
    OmniConfig {
        enabled: c.enabled,
        host: clone_opt_string(&c.host),
        api_key: clone_opt_string(&c.api_key),
        instance: clone_opt_string(&c.instance),
        recipient: clone_opt_string(&c.recipient),
        recipient_type: c.recipient_type,
    }
}

/// Resolve the effective Omni configuration for a project.
pub fn effective_omni_config(
    global: &ForgeProjectSettings,
    project: Option<&ForgeProjectSettings>,
) -> (r: OmniConfig)
    ensures
        r == spec_effective_omni(
            *global,
            match project {
                Some(p) => Some(*p),
                None => None,
            },
        ),
{
    let mut config = match &global.omni_config {
        Some(c) => copy_omni_config(c),
        None => OmniConfig::default(),
    };
    config.enabled = global.omni_enabled;
    if let Some(p) = project {
        let mut project_omni = match &p.omni_config {
            Some(c) => copy_omni_config(c),
            None => config,
        };
        project_omni.enabled = p.omni_enabled;
        return project_omni;
    }
    config
}

} // verus!
