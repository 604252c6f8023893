use plexi::config::{
    build_channel_from, config_dir_name_for, profile_override, AiConfig, BetaConfig, LevelFilter, LogConfig, OpenRouterBackendConfig,
    QuickNoteConfig, QuickNoteDestinationConfig, ThemeConfig, VoiceConfig, VoiceTtsConfig,
};

#[test]
fn log_overlay_prefers_project_values() {
    let mut global = LogConfig { level: Some("info".into()), retention_days: Some(30) };
    global.overlay(LogConfig { level: Some("debug".into()), retention_days: None });
    assert_eq!(global.level.as_deref(), Some("debug"));
    assert_eq!(global.retention_days, Some(30));
}

#[test]
fn theme_overlay_keeps_unset_values() {
    let mut global = ThemeConfig::default();
    global.accent = Some("#cccccc".into());
    global.bg_darkest = Some("#000000".into());
    let mut project = ThemeConfig::default();
    project.accent = Some("#ffffff".into());
    global.overlay(project);
    assert_eq!(global.accent.as_deref(), Some("#ffffff"));
    assert_eq!(global.bg_darkest.as_deref(), Some("#000000"));
}

#[test]
fn ai_overlay_merges_nested_tables() {
    let mut base = AiConfig {
        backend: Some("openrouter".into()),
        openrouter: Some(OpenRouterBackendConfig {
            api_key_env: Some("OPENROUTER_API_KEY".into()),
            model_low: Some("a".into()),
            model_medium: None,
            model_high: None,
        }),
        ollama: None,
    };
    base.overlay(AiConfig {
        backend: None,
        openrouter: Some(OpenRouterBackendConfig {
            api_key_env: None,
            model_low: Some("b".into()),
            model_medium: Some("m".into()),
            model_high: None,
        }),
        ollama: None,
    });
    assert_eq!(base.backend.as_deref(), Some("openrouter"));
    let o = base.openrouter.unwrap();
    assert_eq!(o.api_key_env.as_deref(), Some("OPENROUTER_API_KEY"));
    assert_eq!(o.model_low.as_deref(), Some("b"));
    assert_eq!(o.model_medium.as_deref(), Some("m"));
}

#[test]
fn voice_overlay_and_enabled() {
    let mut base = VoiceConfig {
        enabled: Some(true),
        tts: Some(VoiceTtsConfig {
            provider: Some("google".into()),
            model: Some("gemini-2.5-flash".into()),
            api_key_env: None,
        }),
        agent: None,
    };
    base.overlay(VoiceConfig {
        enabled: None,
        tts: Some(VoiceTtsConfig { provider: None, model: Some("gemini-2.0-flash".into()), api_key_env: None }),
        agent: None,
    });
    assert!(base.is_enabled());
    let tts = base.tts.as_ref().unwrap();
    assert_eq!(tts.model.as_deref(), Some("gemini-2.0-flash"));
    assert_eq!(tts.provider.as_deref(), Some("google"));
    assert!(!VoiceConfig::default().is_enabled());
    let off = VoiceConfig { enabled: Some(false), tts: None, agent: None };
    assert!(!off.is_enabled());
}

#[test]
fn level_filter_names() {
    let lf = |s: Option<&str>| LogConfig { level: s.map(String::from), retention_days: None }.level_filter();
    assert_eq!(lf(Some("error")), Some(LevelFilter::Error));
    assert_eq!(lf(Some("warn")), Some(LevelFilter::Warn));
    assert_eq!(lf(Some("info")), Some(LevelFilter::Info));
    assert_eq!(lf(Some("debug")), Some(LevelFilter::Debug));
    assert_eq!(lf(Some("trace")), None);
    assert_eq!(lf(None), None);
}

#[test]
fn quick_note_overlay_replaces_only_nonempty() {
    let dest = |k: u8| QuickNoteDestinationConfig {
        key: k,
        label: format!("d{k}"),
        dest_type: Some("backlog".into()),
        path: None,
        command: None,
        position: None,
        options: None,
    };
    let mut base = QuickNoteConfig { destinations: vec![dest(1)] };
    base.overlay(QuickNoteConfig { destinations: vec![] });
    assert_eq!(base.destinations.len(), 1);
    base.overlay(QuickNoteConfig { destinations: vec![dest(2), dest(3)] });
    assert_eq!(base.destinations.len(), 2);
    assert_eq!(base.destinations[0].key, 2);
}

#[test]
fn beta_overlay() {
    let mut b = BetaConfig { crt: Some(false), ghost_mode: None };
    b.overlay(BetaConfig { crt: None, ghost_mode: Some(true) });
    assert_eq!(b.crt, Some(false));
    assert_eq!(b.ghost_mode, Some(true));
}

#[test]
fn profile_names() {
    assert_eq!(profile_override(None), None);
    assert_eq!(profile_override(Some(String::new())), None);
    assert_eq!(profile_override(Some("default".into())), None);
    assert_eq!(profile_override(Some("work".into())), Some("work".to_string()));
}

#[test]
fn profile_directory_names() {
    assert_eq!(config_dir_name_for(Some("work"), Some("plexi-alpha")), ".plexi-work");
    assert_eq!(config_dir_name_for(None, Some("plexi-alpha")), ".plexi-alpha");
    assert_eq!(config_dir_name_for(None, Some("plexi-beta")), ".plexi-beta");
    assert_eq!(config_dir_name_for(None, Some("plexi-v3")), ".plexi-v3");
    assert_eq!(config_dir_name_for(None, Some("plexi-pr-42")), ".plexi-pr-42");
    assert_eq!(config_dir_name_for(None, Some("plexi")), ".plexi");
    assert_eq!(config_dir_name_for(None, None), ".plexi");
    assert_eq!(build_channel_from("plexi-pr-7"), Some("pr-7".to_string()));
    assert_eq!(build_channel_from("plexi-alpha"), Some("alpha".to_string()));
    assert_eq!(build_channel_from("plexi"), None);
}
