use excel_agent::markdown::replace_all;
use excel_agent::models::{AppConfig, ModelProfile};
use excel_agent::prompts::{
    code_request, completion_endpoint, failed_preview, fill_template, plan_request, skipped_plan,
    ModelRequest,
};

#[test]
fn failed_preview_wraps_the_error() {
    assert_eq!(failed_preview("no such file"), "{'status': 'error', 'msg': 'no such file'}");
    assert_eq!(failed_preview("x"), format!("{{'status': 'error', 'msg': '{}'}}", "x"));
}

#[test]
fn planning_is_skipped_without_template() {
    assert_eq!(plan_request("", "sum column A", "preview"), None);
    assert_eq!(skipped_plan(), "{}");
}

#[test]
fn planning_request_has_query_and_preview() {
    assert_eq!(
        plan_request("You are a planner.", "sum column A", "{\"rows\": 3}"),
        Some(ModelRequest {
            system: "You are a planner.".to_string(),
            user: "User Query: sum column A\nCSV Preview:\n{\"rows\": 3}".to_string(),
        })
    );
}

#[test]
fn coding_request_fills_the_template() {
    assert_eq!(
        code_request(
            "Write to r\"{file_path}\" and back up {file_path}.",
            "unused",
            "sum column A",
            "C:\\data\\book.xlsx",
            "{\"header\": 1}"
        ),
        ModelRequest {
            system: "Write to r\"C:\\\\data\\\\book.xlsx\" and back up C:\\\\data\\\\book.xlsx."
                .to_string(),
            user: "Structure Config: {\"header\": 1}\nUser Query: sum column A".to_string(),
        }
    );
}

#[test]
fn coding_request_without_template_falls_back() {
    assert_eq!(
        code_request("", "You are helpful.", "sum column A", "/tmp/book.xlsx", "{}"),
        ModelRequest {
            system: "You are helpful.".to_string(),
            user: "sum column A\n\nContext:\nTarget File: /tmp/book.xlsx\nStructure Hint: {}"
                .to_string(),
        }
    );
}

#[test]
fn fill_template_agrees_with_the_standard_library() {
    let templates = ["", "{file_path}", "a {file_path} b {file_path}", "{file_path", "{{file_path}}"];
    let paths = ["", "C:\\a\\b.xlsx", "/unix/path.xlsx", "\\\\server\\share\\x", "{file_path}"];
    for template in templates {
        for path in paths {
            assert_eq!(
                fill_template(template, path),
                template.replace("{file_path}", &path.replace("\\", "\\\\")),
                "on {:?} with {:?}",
                template,
                path
            );
        }
    }
}

#[test]
fn replace_all_agrees_with_the_standard_library() {
    let cases = [
        ("aaaa", "aa", "b"),
        ("aaa", "aa", "aaa"),
        ("hello world", "o", "0"),
        ("hello", "xyz", "!"),
        ("", "a", "b"),
        ("abc", "abc", ""),
        ("表格 表格", "表格", "sheet"),
    ];
    for (text, word, with) in cases {
        assert_eq!(replace_all(text, word, with), text.replace(word, with));
    }
    assert_eq!(replace_all("abc", "", "x"), "abc");
}

#[test]
fn endpoint_ignores_trailing_slashes() {
    assert_eq!(
        completion_endpoint("https://api.moonshot.cn/v1"),
        "https://api.moonshot.cn/v1/chat/completions"
    );
    assert_eq!(
        completion_endpoint("https://api.moonshot.cn/v1///"),
        "https://api.moonshot.cn/v1/chat/completions"
    );
    assert_eq!(completion_endpoint(""), "/chat/completions");
    assert_eq!(completion_endpoint("///"), "/chat/completions");
    for base in ["http://x/", "http://x", "a/b/c//", "/"] {
        assert_eq!(
            completion_endpoint(base),
            format!("{}/chat/completions", base.trim_end_matches('/'))
        );
    }
}

fn profile(id: &str, key: &str) -> ModelProfile {
    ModelProfile {
        id: id.to_string(),
        name: "n".to_string(),
        base_url: "u".to_string(),
        model_id: "m".to_string(),
        api_key: key.to_string(),
    }
}

#[test]
fn usable_profile_needs_an_active_profile_with_a_key() {
    let mut config = AppConfig {
        profiles: vec![profile("a", ""), profile("b", "secret")],
        active_profile_id: Some("b".to_string()),
        custom_prompt: None,
    };
    assert_eq!(config.usable_profile(), Some(profile("b", "secret")));
    config.active_profile_id = Some("a".to_string());
    assert_eq!(config.usable_profile(), None);
    config.active_profile_id = Some("zzz".to_string());
    assert_eq!(config.usable_profile(), None);
    config.active_profile_id = None;
    assert_eq!(config.usable_profile(), None);
    assert_eq!(AppConfig::default().usable_profile(), None);
}
