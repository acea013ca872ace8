use forge_core::belt::{
    executor_catalog, filter_task_rows, join_url, negotiate_protocol_version,
    normalize_executor_name, resolve_by_name, BeltError, NamedRecord, TaskRow,
};
use forge_core::logs::attempt_status_label;
use forge_core::config::{
    default_git_branch_prefix, default_sound_volume, NotificationConfig,
    PreviousNotificationConfig, SoundFile,
};
use forge_core::lifecycle::TaskStatus;
use forge_core::logs::{conversation_turns, extract_last_response, LogMessage};
use forge_core::omni::{
    build_notification_message, plan_task_notification, OmniConfig, OmniError, OmniInstance,
    RawOmniInstance, RecipientType, SendTextRequest,
};
use forge_core::profiles::{
    classify_forge_config, derive_variant_name, extract_frontmatter, is_documentation_file,
    is_excluded_collective_dir, is_excluded_scan_dir, merge_profiles, namespaced_key, AgentType,
    ForgeConfigShape, ProfileEntry,
};
use forge_core::settings::{effective_omni_config, ForgeProjectSettings};

#[test]
fn test_omni_config_defaults() {
    let config = OmniConfig {
        enabled: false,
        host: Some("https://omni.example.com".to_string()),
        api_key: Some("secret-key".to_string()),
        instance: None,
        recipient: None,
        recipient_type: None,
    };

    assert!(!config.enabled);
    assert_eq!(config.host, Some("https://omni.example.com".to_string()));
    assert!(config.instance.is_none());
    assert!(config.recipient.is_none());
    assert!(config.recipient_type.is_none());
}

#[test]
fn test_raw_instance_conversion() {
    let raw = RawOmniInstance {
        instance_name: "felipe0008".to_string(),
        channel_type: "whatsapp".to_string(),
        display_name: "WhatsApp - felipe0008".to_string(),
        status: "connected".to_string(),
        is_healthy: true,
    };

    let instance: OmniInstance = raw.into();
    assert_eq!(instance.instance_name, "felipe0008");
    assert_eq!(instance.channel_type, "whatsapp");
    assert_eq!(instance.display_name, "WhatsApp - felipe0008");
    assert_eq!(instance.status, "connected");
    assert!(instance.is_healthy);

    let raw = RawOmniInstance {
        instance_name: "discord-bot".to_string(),
        channel_type: "discord".to_string(),
        display_name: "Discord - discord-bot".to_string(),
        status: "not_found".to_string(),
        is_healthy: false,
    };

    let instance: OmniInstance = raw.into();
    assert_eq!(instance.display_name, "Discord - discord-bot");
    assert_eq!(instance.status, "not_found");
    assert!(!instance.is_healthy);
}

fn enabled_config(recipient_type: Option<RecipientType>) -> OmniConfig {
    OmniConfig {
        enabled: true,
        host: Some("https://omni.test".to_string()),
        api_key: Some("SECRET-REDACTED".to_string()),
        instance: Some("forge".to_string()),
        recipient: Some("+14155552671".to_string()),
        recipient_type,
    }
}

#[test]
fn notification_disabled_is_silent_noop() {
    let config = OmniConfig::default();
    let plan = plan_task_notification(&config, "Fix login", "done", None).unwrap();
    assert!(plan.is_none());
}

#[test]
fn notification_missing_pieces_are_errors() {
    let mut config = enabled_config(None);
    config.instance = None;
    assert_eq!(
        plan_task_notification(&config, "t", "done", None).unwrap_err(),
        OmniError::NoInstance
    );

    let mut config = enabled_config(None);
    config.recipient = None;
    assert_eq!(
        plan_task_notification(&config, "t", "done", None).unwrap_err(),
        OmniError::NoRecipient
    );
}

#[test]
fn notification_addresses_recipient_by_type() {
    let (instance, request) = plan_task_notification(
        &enabled_config(Some(RecipientType::PhoneNumber)),
        "Fix login",
        "done",
        Some("https://forge.test/tasks/1"),
    )
    .unwrap()
    .unwrap();
    assert_eq!(instance, "forge");
    assert_eq!(request.phone_number.as_deref(), Some("+14155552671"));
    assert!(request.user_id.is_none());
    assert_eq!(
        request.text,
        "🎯 Task Complete: Fix login\n\nStatus: done\nURL: https://forge.test/tasks/1"
    );

    let (_, by_user) = plan_task_notification(
        &enabled_config(Some(RecipientType::UserId)),
        "Fix login",
        "done",
        None,
    )
    .unwrap()
    .unwrap();
    assert!(by_user.phone_number.is_none());
    assert_eq!(by_user.user_id.as_deref(), Some("+14155552671"));

    // No recipient type defaults to a phone number.
    let (_, by_default) =
        plan_task_notification(&enabled_config(None), "Fix login", "done", None)
            .unwrap()
            .unwrap();
    assert!(by_default.phone_number.is_some());

    let _unused: SendTextRequest = request;
}

#[test]
fn notification_message_without_url_ends_after_status() {
    let text = build_notification_message("Tidy", "done", None);
    assert_eq!(text, "🎯 Task Complete: Tidy\n\nStatus: done\n");
}

#[test]
fn effective_omni_config_project_overrides_global() {
    let global = ForgeProjectSettings {
        omni_enabled: true,
        omni_config: Some(OmniConfig {
            enabled: true,
            host: Some("https://global.omni".to_string()),
            api_key: Some("global-key".to_string()),
            instance: Some("global".to_string()),
            recipient: Some("global-recipient".to_string()),
            recipient_type: Some(RecipientType::PhoneNumber),
        }),
    };
    let project = ForgeProjectSettings {
        omni_enabled: true,
        omni_config: Some(OmniConfig {
            enabled: true,
            host: Some("https://project.omni".to_string()),
            api_key: Some("project-key".to_string()),
            instance: Some("project".to_string()),
            recipient: Some("project-recipient".to_string()),
            recipient_type: Some(RecipientType::UserId),
        }),
    };

    let config = effective_omni_config(&global, Some(&project));
    assert_eq!(config.host.as_deref(), Some("https://project.omni"));
    assert_eq!(config.api_key.as_deref(), Some("project-key"));
    assert_eq!(config.instance.as_deref(), Some("project"));
    assert_eq!(config.recipient.as_deref(), Some("project-recipient"));
    assert!(matches!(config.recipient_type, Some(RecipientType::UserId)));
}

#[test]
fn effective_omni_config_falls_back_to_global() {
    let global = ForgeProjectSettings {
        omni_enabled: true,
        omni_config: Some(OmniConfig {
            enabled: false,
            host: Some("https://global.omni".to_string()),
            api_key: None,
            instance: Some("global".to_string()),
            recipient: None,
            recipient_type: None,
        }),
    };
    // The global enabled flag governs the global configuration.
    let alone = effective_omni_config(&global, None);
    assert!(alone.enabled);
    assert_eq!(alone.host.as_deref(), Some("https://global.omni"));

    // A project without its own configuration inherits the global one, under
    // the project's enabled flag.
    let project = ForgeProjectSettings { omni_enabled: false, omni_config: None };
    let merged = effective_omni_config(&global, Some(&project));
    assert!(!merged.enabled);
    assert_eq!(merged.instance.as_deref(), Some("global"));
}

#[test]
fn notification_config_defaults_and_migration() {
    assert_eq!(default_git_branch_prefix(), "af");
    assert_eq!(default_sound_volume(), 100);

    let fresh = NotificationConfig::default();
    assert!(fresh.sound_enabled);
    assert!(fresh.push_enabled);
    assert_eq!(fresh.sound_file, SoundFile::GenieNotify1);
    assert_eq!(fresh.sound_volume, 100);

    let stored = PreviousNotificationConfig {
        sound_enabled: true,
        push_enabled: false,
        sound_file: SoundFile::AbstractSound1,
    };
    let migrated: NotificationConfig = stored.into();
    assert!(migrated.sound_enabled);
    assert!(!migrated.push_enabled);
    assert_eq!(migrated.sound_file, SoundFile::AbstractSound1);
    // Default to full volume for backward compatibility.
    assert_eq!(migrated.sound_volume, 100);
}

#[test]
fn belt_error_builders() {
    let err = BeltError::new("Task not found")
        .with_details("no task with that title")
        .with_suggestions(vec!["call the listing first".to_string()]);
    assert!(!err.success);
    assert_eq!(err.error, "Task not found");
    assert_eq!(err.details.as_deref(), Some("no task with that title"));
    assert_eq!(err.suggestions, vec!["call the listing first".to_string()]);
}

#[test]
fn join_url_tolerates_slashes() {
    assert_eq!(join_url("http://a/", "/api/tasks"), "http://a/api/tasks");
    assert_eq!(join_url("http://a", "api/tasks"), "http://a/api/tasks");
    assert_eq!(join_url("http://a//", "//api"), "http://a/api");
}

#[test]
fn protocol_negotiation_picks_newest_supported() {
    let supported = vec![20250326u64, 20241105u64];
    // A newer client gets the newest supported version.
    assert_eq!(negotiate_protocol_version(20250601, &supported), Some(20250326));
    // An exact match is taken.
    assert_eq!(negotiate_protocol_version(20241105, &supported), Some(20241105));
    // A requested version between the two gets the older one.
    assert_eq!(negotiate_protocol_version(20250101, &supported), Some(20241105));
    // Anything older than the minimum is refused.
    assert_eq!(negotiate_protocol_version(20240101, &supported), None);
}

#[test]
fn executor_names_are_normalized_before_lookup() {
    assert_eq!(normalize_executor_name("cursor-agent"), "CURSOR_AGENT");
    assert_eq!(normalize_executor_name("Cursor_Agent"), "CURSOR_AGENT");
    assert_eq!(normalize_executor_name("CODEX"), "CODEX");
}

#[test]
fn executor_catalog_lists_the_known_agents() {
    let catalog = executor_catalog();
    let names: Vec<&str> = catalog.iter().map(|e| e.name.as_str()).collect();
    assert_eq!(names, vec!["CLAUDE_CODE", "CODEX", "GEMINI", "CURSOR_AGENT", "OPENCODE"]);
    assert!(catalog.iter().all(|e| e.variants == vec!["DEFAULT".to_string()]));
    assert!(catalog.iter().all(|e| !e.description.is_empty()));
}

#[test]
fn attempt_status_label_tracks_processes() {
    assert_eq!(attempt_status_label(false), "pending");
    assert_eq!(attempt_status_label(true), "running");
}

#[test]
fn resolve_by_name_is_case_insensitive() {
    let entries = vec![
        NamedRecord { id: 1, name: "Forge".to_string() },
        NamedRecord { id: 2, name: "demo".to_string() },
    ];
    assert_eq!(resolve_by_name(&entries, "forge"), Some(1));
    assert_eq!(resolve_by_name(&entries, "DEMO"), Some(2));
    assert_eq!(resolve_by_name(&entries, "missing"), None);
}

#[test]
fn task_rows_filtered_by_status_and_capped() {
    let rows = vec![
        TaskRow { id: 1, status: TaskStatus::Todo, has_active_attempt: false },
        TaskRow { id: 2, status: TaskStatus::Done, has_active_attempt: false },
        TaskRow { id: 3, status: TaskStatus::Todo, has_active_attempt: true },
        TaskRow { id: 4, status: TaskStatus::Todo, has_active_attempt: false },
    ];
    let todos = filter_task_rows(&rows, Some(TaskStatus::Todo), 2);
    let ids: Vec<u64> = todos.iter().map(|r| r.id).collect();
    assert_eq!(ids, vec![1, 3]);

    let all = filter_task_rows(&rows, None, 50);
    assert_eq!(all.len(), 4);
}

#[test]
fn last_response_comes_from_latest_assistant_message() {
    let messages = vec![
        LogMessage { role: "user".to_string(), content: "fix the bug".to_string() },
        LogMessage { role: "assistant".to_string(), content: "looking".to_string() },
        LogMessage { role: "user".to_string(), content: "thanks".to_string() },
        LogMessage { role: "assistant".to_string(), content: "done".to_string() },
        LogMessage { role: "user".to_string(), content: "great".to_string() },
    ];
    assert_eq!(extract_last_response(&messages).as_deref(), Some("done"));

    let none = vec![LogMessage { role: "user".to_string(), content: "hello".to_string() }];
    assert!(extract_last_response(&none).is_none());

    let turns = conversation_turns(&messages);
    assert_eq!(turns.len(), 5);
    assert_eq!(turns[1].role, "assistant");
    assert_eq!(turns[1].content, "looking");
    assert!(turns[1].timestamp.is_none());
}

#[test]
fn variant_names_are_upper_snake_with_project_prefix() {
    // These would all fail if the case conversion handed its input back
    // unchanged.
    assert_eq!(
        derive_variant_name("my-project", "implementor", Some("code"), AgentType::Agent),
        "MY_PROJECT_CODE_IMPLEMENTOR"
    );
    assert_eq!(
        derive_variant_name("my-project", "master", None, AgentType::Neuron),
        "MY_PROJECT_MASTER"
    );
    assert_eq!(
        derive_variant_name("demoApp", "helper", None, AgentType::Agent),
        "DEMO_APP_HELPER"
    );
}

#[test]
fn namespaced_keys_follow_the_scan_layout() {
    assert_eq!(namespaced_key(Some("code"), AgentType::Agent, "implementor"), "code/implementor");
    assert_eq!(namespaced_key(None, AgentType::Neuron, "master"), "neurons/master");
    assert_eq!(namespaced_key(Some("code"), AgentType::Neuron, "master"), "neurons/master");
    assert_eq!(namespaced_key(None, AgentType::Agent, "helper"), "agents/helper");
}

#[test]
fn scan_skips_excluded_dirs_and_docs() {
    assert!(is_excluded_scan_dir("node_modules"));
    assert!(is_excluded_scan_dir(".git"));
    assert!(is_excluded_scan_dir("backups"));
    assert!(!is_excluded_scan_dir("agents"));

    assert!(is_documentation_file("README"));
    assert!(is_documentation_file("readme"));
    assert!(is_documentation_file("Agents"));
    assert!(!is_documentation_file("implementor"));
}

fn entry(executor: &str, variant: &str, config: u64) -> ProfileEntry {
    ProfileEntry { executor: executor.to_string(), variant: variant.to_string(), config }
}

#[test]
fn workspace_profiles_override_base_profiles() {
    let base = vec![entry("CODEX", "DEFAULT", 1), entry("GEMINI", "DEFAULT", 2)];
    let overrides = vec![entry("CODEX", "DEFAULT", 10), entry("CODEX", "REVIEW", 11)];
    let merged = merge_profiles(&base, &overrides);
    let keys: Vec<(String, String, u64)> = merged
        .iter()
        .map(|e| (e.executor.clone(), e.variant.clone(), e.config))
        .collect();
    // The workspace entries win; the untouched base entry survives.
    assert_eq!(
        keys,
        vec![
            ("CODEX".to_string(), "DEFAULT".to_string(), 10),
            ("CODEX".to_string(), "REVIEW".to_string(), 11),
            ("GEMINI".to_string(), "DEFAULT".to_string(), 2),
        ]
    );
}

#[test]
fn frontmatter_splits_metadata_from_body() {
    let content = "---\nname: helper\ndescription: a helper\n---\n\nDo the helpful thing.\n";
    let (front, body) = extract_frontmatter(content).unwrap();
    assert_eq!(front, "name: helper\ndescription: a helper");
    assert_eq!(body, "Do the helpful thing.");

    // No frontmatter: the whole file is body.
    assert!(extract_frontmatter("just instructions").is_none());
    // An opener without a closer has no frontmatter either.
    assert!(extract_frontmatter("---\nname: x\nno closer").is_none());
}

#[test]
fn frontmatter_accepts_crlf_line_endings() {
    let content = "---\r\nname: helper\r\n---\r\n\r\nDo the helpful thing.\r\n";
    let (front, body) = extract_frontmatter(content).unwrap();
    assert_eq!(front, "name: helper");
    assert_eq!(body, "Do the helpful thing.");

    // Mixed endings work too: the carriage return before a closing marker
    // belongs to the marker, not to the metadata.
    let mixed = "---\nname: x\r\n---\nbody";
    let (front, body) = extract_frontmatter(mixed).unwrap();
    assert_eq!(front, "name: x");
    assert_eq!(body, "body");
}

#[test]
fn collective_discovery_has_its_own_ignore_list() {
    assert!(is_excluded_collective_dir("teams"));
    assert!(is_excluded_collective_dir("specs"));
    assert!(is_excluded_collective_dir(".git"));
    assert!(!is_excluded_collective_dir("code"));
    // The two lists differ: backups only matters to the file scan.
    assert!(!is_excluded_collective_dir("backups"));
    assert!(is_excluded_scan_dir("backups"));
    assert!(!is_excluded_scan_dir("teams"));
}

#[test]
fn forge_config_shape_classification() {
    let empty: Vec<String> = vec![];
    assert_eq!(classify_forge_config(&empty), ForgeConfigShape::Empty);

    let per = vec!["CLAUDE_CODE".to_string(), "CODEX".to_string()];
    assert_eq!(classify_forge_config(&per), ForgeConfigShape::PerExecutor);

    let flat = vec!["model".to_string(), "yolo".to_string()];
    assert_eq!(classify_forge_config(&flat), ForgeConfigShape::Flat);

    let unknown = vec!["something".to_string()];
    assert_eq!(classify_forge_config(&unknown), ForgeConfigShape::Unknown);

    let mixed = vec!["CLAUDE_CODE".to_string(), "model".to_string()];
    assert_eq!(classify_forge_config(&mixed), ForgeConfigShape::Mixed);
}
