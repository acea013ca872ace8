//! Omni notification rules: the configuration shape, instance records, and
//! the decision of what to send for a finished task. The HTTP transport is
//! the caller's part.

use vstd::prelude::*;

use crate::text::{chars_vec, string_from_chars};

verus! {

/// How the configured recipient is addressed.
#[derive(Debug, Clone, Copy, PartialEq, Eq, Structural)]
pub enum RecipientType {
    PhoneNumber,
    UserId,
}

/// Omni configuration, as a project or the global settings carry it.
#[derive(Debug, Clone)]
pub struct OmniConfig {
    pub enabled: bool,
    pub host: Option<String>,
    pub api_key: Option<String>,
    pub instance: Option<String>,
    pub recipient: Option<String>,
    pub recipient_type: Option<RecipientType>,
}

impl Default for OmniConfig {
    /// Disabled, with nothing configured.
    fn default() -> (r: Self)
        ensures
            !r.enabled,
            r.host is None,
            r.api_key is None,
            r.instance is None,
            r.recipient is None,
            r.recipient_type is None,
    {
        OmniConfig {
            enabled: false,
            host: None,
            api_key: None,
            instance: None,
            recipient: None,
            recipient_type: None,
        }
    }
}

/// A messaging channel as the Omni service reports it.
#[derive(Debug, Clone)]
pub struct OmniInstance {
    pub instance_name: String,
    pub channel_type: String,
    pub display_name: String,
    pub status: String,
    pub is_healthy: bool,
}

/// The wire form of an instance, before conversion.
#[derive(Debug)]
pub struct RawOmniInstance {
    pub instance_name: String,
    pub channel_type: String,
    pub display_name: String,
    pub status: String,
    pub is_healthy: bool,
}

impl vstd::std_specs::convert::FromSpecImpl<RawOmniInstance> for OmniInstance {
    open spec fn obeys_from_spec() -> bool {
        true
    }

    open spec fn from_spec(raw: RawOmniInstance) -> OmniInstance {
        OmniInstance {
            instance_name: raw.instance_name,
            channel_type: raw.channel_type,
            display_name: raw.display_name,
            status: raw.status,
            is_healthy: raw.is_healthy,
        }
    }
}

impl From<RawOmniInstance> for OmniInstance {
    /// Field-for-field conversion from the wire form.
    fn from(raw: RawOmniInstance) -> (r: OmniInstance) {
        OmniInstance {
            instance_name: raw.instance_name,
            channel_type: raw.channel_type,
            display_name: raw.display_name,
            status: raw.status,
            is_healthy: raw.is_healthy,
        }
    }
}

/// A send-text call: exactly one of the two recipient fields is set.
#[derive(Debug, Clone)]
pub struct SendTextRequest {
    pub phone_number: Option<String>,
    pub user_id: Option<String>,
    pub text: String,
}

/// What the Omni service answers to a send.
#[derive(Debug, Clone)]
pub struct SendTextResponse {
    pub success: bool,
    pub message_id: Option<String>,
    pub status: String,
    pub error: Option<String>,
}

/// Failure cases of notification planning.
#[derive(Debug, Clone, Copy, PartialEq, Eq, Structural)]
pub enum OmniError {
    /// Notifications are enabled but no instance is configured.
    NoInstance,
    /// Notifications are enabled but no recipient is configured.
    NoRecipient,
}

/// The text of a task notification.
pub open spec fn spec_notification_text(
    title: Seq<char>,
    status: Seq<char>,
    url: Option<Seq<char>>,
) -> Seq<char> {
    "🎯 Task Complete: "@ + title + "\n\nStatus: "@ + status + "\n"@ + match url {
        Some(u) => "URL: "@ + u,
        None => Seq::empty(),
    }
}

/// Build the message text of a task notification.
pub fn build_notification_message(
    task_title: &str,
    task_status: &str,
    task_url: Option<&str>,
) -> (r: String)
    ensures
        r@ == spec_notification_text(
            task_title@,
            task_status@,
            match task_url {
                Some(u) => Some(u@),
                None => None,
            },
        ),
{
    let mut text = chars_vec("🎯 Task Complete: ");
    let mut title = chars_vec(task_title);
    let mut mid = chars_vec("\n\nStatus: ");
    let mut status = chars_vec(task_status);
    let mut nl = chars_vec("\n");
    text.append(&mut title);
    text.append(&mut mid);
    text.append(&mut status);
    text.append(&mut nl);
    if let Some(u) = task_url {
        let mut url_label = chars_vec("URL: ");
        let mut url = chars_vec(u);
        text.append(&mut url_label);
        text.append(&mut url);
        proof {
            assert(text@ =~= spec_notification_text(task_title@, task_status@, Some(u@)));
        }
    } else {
        proof {
            assert(text@ =~= spec_notification_text(task_title@, task_status@, None));
        }
    }
    string_from_chars(&text)
}

/// Decide a task notification. Disabled configurations are a silent no-op;
/// an enabled configuration without instance or recipient is an error; and
/// otherwise the instance and the request to send are returned, addressed by
/// phone number unless the recipient type says user id.
pub fn plan_task_notification(
    config: &OmniConfig,
    task_title: &str,
    task_status: &str,
    task_url: Option<&str>,
) -> (r: Result<Option<(String, SendTextRequest)>, OmniError>)
    ensures
        !config.enabled ==> r matches Ok(None),
        config.enabled && config.instance is None ==> (r matches Err(e) && e is NoInstance),
        config.enabled && config.instance is Some && config.recipient is None ==> (r matches Err(e)
            && e is NoRecipient),
        config.enabled && config.instance is Some && config.recipient is Some ==> (r matches Ok(
            Some((instance, req)),
        ) && {
            let text = spec_notification_text(
                task_title@,
                task_status@,
                match task_url {
                    Some(u) => Some(u@),
                    None => None,
                },
            );
            &&& instance == config.instance->0
            &&& req.text@ == text
            &&& (match config.recipient_type {
                Some(RecipientType::UserId) => req.phone_number is None && req.user_id == Some(
                    config.recipient->0,
                ),
                _ => req.phone_number == Some(config.recipient->0) && req.user_id is None,
            })
        }),
{
    if !config.enabled {
        return Ok(None);
    }
    let instance = match &config.instance {
        Some(i) => i.clone(),
        None => {
            return Err(OmniError::NoInstance);
        },
    };
    let recipient = match &config.recipient {
        Some(rcpt) => rcpt.clone(),
        None => {
            return Err(OmniError::NoRecipient);
        },
    };
    let text = build_notification_message(task_title, task_status, task_url);
    let request = match config.recipient_type {
        Some(RecipientType::UserId) => SendTextRequest {
            phone_number: None,
            user_id: Some(recipient),
            text,
        },
        _ => SendTextRequest { phone_number: Some(recipient), user_id: None, text },
    };
    Ok(Some((instance, request)))
}

} // verus!
