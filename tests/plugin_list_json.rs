use agent_skills_guard::terminal::{json_candidates, strip_terminal_escapes};

fn has_plugin_list_fields(v: &serde_json::Value) -> bool {
    match v.as_object() {
        Some(obj) => {
            obj.contains_key("installed")
                || obj.contains_key("available")
                || obj.contains_key("installedPlugins")
                || obj.contains_key("availablePlugins")
        }
        None => false,
    }
}

fn first_plugin_list(output: &str) -> serde_json::Value {
    let cleaned = strip_terminal_escapes(output);
    for (s, e) in json_candidates(&cleaned) {
        let v: serde_json::Value = serde_json::from_str(&cleaned[s..e]).unwrap();
        if has_plugin_list_fields(&v) {
            return v;
        }
    }
    panic!("no plugin list in output");
}

#[test]
fn parse_claude_plugin_list_with_available_from_powershell_output() {
    let output = r#"PS C:\Users\Bruce> agent plugin list --json --available
{
  "installed": [
    {
      "id": "superpowers@superpowers-marketplace",
      "version": "4.0.3",
      "scope": "user",
      "enabled": false,
      "installPath": "C:\\Users\\Bruce\\.agent\\plugins\\cache\\superpowers-marketplace\\superpowers\\4.0.3",
      "installedAt": "2025-12-26T01:58:19.521Z",
      "lastUpdated": "2026-01-14T01:51:11.830Z"
    }
  ],
  "available": [
    {
      "pluginId": "superpowers@agent-plugins-official",
      "name": "superpowers",
      "marketplaceName": "agent-plugins-official",
      "version": "4.0.4",
      "source": {
        "source": "url",
        "url": "https://github.com/obra/superpowers.git"
      },
      "installCount": 123
    }
  ]
}
PS C:\Users\Bruce> "#;

    let payload = first_plugin_list(output);
    let installed = payload["installed"].as_array().unwrap();
    let available = payload["available"].as_array().unwrap();
    assert_eq!(installed.len(), 1);
    assert_eq!(installed[0]["id"], "superpowers@superpowers-marketplace");
    assert_eq!(available.len(), 1);
    assert_eq!(available[0]["pluginId"], "superpowers@agent-plugins-official");
    assert_eq!(available[0]["marketplaceName"].as_str(), Some("agent-plugins-official"));
    assert_eq!(available[0]["version"].as_str(), Some("4.0.4"));
}

#[test]
fn parse_claude_plugin_list_with_available_accepts_snake_case_fields() {
    let output = r#"
noise before json...
{
  "installed": [
    {
      "id": "foo@bar",
      "version": "1.0.0",
      "install_path": "/Users/a/.agent/plugins/cache/bar/foo/1.0.0",
      "installed_at": "2026-01-01T00:00:00Z",
      "last_updated": "2026-01-02T00:00:00Z"
    }
  ],
  "available": [
    {
      "plugin_id": "foo@bar",
      "marketplace_name": "bar",
      "version": "1.0.1"
    }
  ]
}
noise after json..."#;

    let payload = first_plugin_list(output);
    let installed = payload["installed"].as_array().unwrap();
    let available = payload["available"].as_array().unwrap();
    assert_eq!(installed.len(), 1);
    assert_eq!(
        installed[0]["install_path"].as_str(),
        Some("/Users/a/.agent/plugins/cache/bar/foo/1.0.0")
    );
    assert_eq!(available.len(), 1);
    assert_eq!(available[0]["plugin_id"], "foo@bar");
    assert_eq!(available[0]["marketplace_name"].as_str(), Some("bar"));
    assert_eq!(available[0]["version"].as_str(), Some("1.0.1"));
}

#[test]
fn parse_claude_plugin_list_with_available_skips_unrelated_json() {
    let output = r#"
{"event":"progress","message":"fetching"}
{
  "installed": [
    {
      "id": "sample@market",
      "version": "1.0.0"
    }
  ],
  "available": [
    {
      "pluginId": "sample@market",
      "marketplaceName": "market",
      "version": "1.1.0"
    }
  ]
}
"#;

    let cleaned = strip_terminal_escapes(output);
    assert_eq!(json_candidates(&cleaned).len(), 2);
    let payload = first_plugin_list(output);
    let installed = payload["installed"].as_array().unwrap();
    let available = payload["available"].as_array().unwrap();
    assert_eq!(installed.len(), 1);
    assert_eq!(installed[0]["id"], "sample@market");
    assert_eq!(available.len(), 1);
    assert_eq!(available[0]["pluginId"], "sample@market");
    assert_eq!(available[0]["version"].as_str(), Some("1.1.0"));
}
