use excel_agent::models::{
    clone_opt, clone_pairs, find_profile, ActionStatus, AppConfig, ChatMessage, ModelProfile,
    WindowMode,
};

fn profile(id: &str, name: &str) -> ModelProfile {
    ModelProfile {
        id: id.to_string(),
        name: name.to_string(),
        base_url: "https://example.test/v1".to_string(),
        model_id: "m".to_string(),
        api_key: "k".to_string(),
    }
}

#[test]
fn new_message_is_plain() {
    let message = ChatMessage::new(4, "hello", true);
    assert_eq!(
        message,
        ChatMessage {
            id: 4,
            text: "hello".to_string(),
            is_user: true,
            table: None,
            temp_id: None,
            status: ActionStatus::Idle,
            image: None,
            pending_code: None,
            backup_paths: None,
        }
    );
}

#[test]
fn loading_message_is_the_placeholder() {
    let message = ChatMessage::loading(9);
    assert_eq!(message.id, 9);
    assert_eq!(message.text, "正在思考...");
    assert!(!message.is_user);
    assert_eq!(message.status, ActionStatus::Loading);
    assert_eq!(message.pending_code, None);
    assert_eq!(message.backup_paths, None);
    assert_eq!(message.table, None);
    assert_eq!(message.image, None);
    assert_eq!(message.temp_id, None);
}

#[test]
fn message_clone_is_equal() {
    let mut message = ChatMessage::new(1, "log", false);
    message.status = ActionStatus::Error("bad".to_string());
    message.pending_code = Some("code".to_string());
    message.table = Some("<table/>".to_string());
    message.backup_paths = Some(vec![("a".to_string(), "b".to_string())]);
    assert_eq!(message.clone(), message);
    assert_eq!(ActionStatus::Undone.clone(), ActionStatus::Undone);
}

#[test]
fn copies_of_options_and_pairs() {
    assert_eq!(clone_opt(&None), None);
    assert_eq!(clone_opt(&Some("x".to_string())), Some("x".to_string()));
    let pairs = vec![("a".to_string(), "b".to_string()), ("c".to_string(), "d".to_string())];
    assert_eq!(clone_pairs(&pairs), pairs);
    assert!(clone_pairs(&Vec::new()).is_empty());
}

#[test]
fn window_modes_compare() {
    assert_eq!(WindowMode::Widget, WindowMode::Widget);
    assert_ne!(WindowMode::Main, WindowMode::Settings);
}

#[test]
fn new_profile_is_blank_with_a_fresh_id() {
    let a = ModelProfile::new();
    let b = ModelProfile::new();
    assert_eq!(a.id.chars().count(), 36);
    assert_eq!(a.id.as_bytes()[8], b'-');
    assert_ne!(a.id, b.id);
    assert_eq!(a.name, "New Profile");
    assert_eq!(a.base_url, "https://api.openai.com/v1");
    assert_eq!(a.model_id, "gpt-3.5-turbo");
    assert_eq!(a.api_key, "");
}

#[test]
fn default_config_has_one_active_profile() {
    let config = AppConfig::default();
    assert_eq!(
        config,
        AppConfig {
            profiles: vec![ModelProfile {
                id: "default".to_string(),
                name: "Moonshot".to_string(),
                base_url: "https://api.moonshot.cn/v1".to_string(),
                model_id: "moonshot-v1-8k".to_string(),
                api_key: String::new(),
            }],
            active_profile_id: Some("default".to_string()),
            custom_prompt: None,
        }
    );
    assert_eq!(config.active_profile(), config.profiles[0]);
}

#[test]
fn active_profile_is_the_first_with_the_active_id() {
    let config = AppConfig {
        profiles: vec![profile("a", "one"), profile("b", "two"), profile("b", "three")],
        active_profile_id: Some("b".to_string()),
        custom_prompt: None,
    };
    assert_eq!(config.active_profile(), profile("b", "two"));
}

#[test]
fn active_profile_falls_back_to_the_first() {
    let mut config = AppConfig {
        profiles: vec![profile("a", "one"), profile("b", "two")],
        active_profile_id: Some("zzz".to_string()),
        custom_prompt: None,
    };
    assert_eq!(config.active_profile(), profile("a", "one"));
    config.active_profile_id = None;
    assert_eq!(config.active_profile(), profile("a", "one"));
}

#[test]
fn active_profile_of_an_empty_config_is_blank() {
    let config = AppConfig { profiles: vec![], active_profile_id: Some("a".to_string()), custom_prompt: None };
    let blank = config.active_profile();
    assert_eq!(blank.name, "New Profile");
    assert_eq!(blank.id.len(), 36);
}

#[test]
fn find_profile_returns_the_first_position() {
    let profiles = vec![profile("a", "one"), profile("b", "two"), profile("b", "three")];
    assert_eq!(find_profile(&profiles, &"b".to_string()), Some(1));
    assert_eq!(find_profile(&profiles, &"a".to_string()), Some(0));
    assert_eq!(find_profile(&profiles, &"c".to_string()), None);
}

#[test]
fn replace_profile_by_id() {
    let mut config = AppConfig {
        profiles: vec![profile("a", "one"), profile("b", "two")],
        active_profile_id: Some("a".to_string()),
        custom_prompt: None,
    };
    assert!(config.replace_profile(profile("b", "renamed")));
    assert_eq!(config.profiles, vec![profile("a", "one"), profile("b", "renamed")]);
    assert!(!config.replace_profile(profile("c", "ghost")));
    assert_eq!(config.profiles, vec![profile("a", "one"), profile("b", "renamed")]);
    assert_eq!(config.active_profile_id, Some("a".to_string()));
}

#[test]
fn add_profile_makes_it_active() {
    let mut config = AppConfig::default();
    config.add_profile();
    assert_eq!(config.profiles.len(), 2);
    assert_eq!(config.profiles[1].name, "New Profile");
    assert_eq!(config.active_profile_id, Some(config.profiles[1].id.clone()));
    assert_eq!(config.active_profile(), config.profiles[1]);
}

#[test]
fn delete_profile_keeps_the_last_one() {
    let mut config = AppConfig::default();
    assert!(!config.delete_profile(&"default".to_string()));
    assert_eq!(config, AppConfig::default());
}

#[test]
fn delete_active_profile_activates_the_first_left() {
    let mut config = AppConfig {
        profiles: vec![profile("a", "one"), profile("b", "two"), profile("c", "three")],
        active_profile_id: Some("a".to_string()),
        custom_prompt: Some("p".to_string()),
    };
    assert!(config.delete_profile(&"a".to_string()));
    assert_eq!(config.profiles, vec![profile("b", "two"), profile("c", "three")]);
    assert_eq!(config.active_profile_id, Some("b".to_string()));
    assert_eq!(config.custom_prompt, Some("p".to_string()));
}

#[test]
fn delete_inactive_profile_keeps_the_active_id() {
    let mut config = AppConfig {
        profiles: vec![profile("a", "one"), profile("b", "two")],
        active_profile_id: Some("a".to_string()),
        custom_prompt: None,
    };
    assert!(config.delete_profile(&"b".to_string()));
    assert_eq!(config.profiles, vec![profile("a", "one")]);
    assert_eq!(config.active_profile_id, Some("a".to_string()));
    assert!(config.delete_profile(&"zzz".to_string()) == false);
}

#[test]
fn delete_of_an_unknown_id_changes_nothing() {
    let mut config = AppConfig {
        profiles: vec![profile("a", "one"), profile("b", "two")],
        active_profile_id: None,
        custom_prompt: None,
    };
    assert!(config.delete_profile(&"zzz".to_string()));
    assert_eq!(config.profiles, vec![profile("a", "one"), profile("b", "two")]);
    assert_eq!(config.active_profile_id, None);
}
