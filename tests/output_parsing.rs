use agent_skills_guard::outcome::{
    parse_marketplace_add_output, parse_marketplace_remove_output, parse_marketplace_update_output,
    parse_plugin_install_output, parse_plugin_uninstall_output, parse_plugin_update_output,
    is_workspace_trust_prompt, CommandOutcome,
};
use agent_skills_guard::terminal::{extract_json_payload, json_candidates, strip_terminal_escapes};

#[test]
fn extracts_object_from_prompt_noise() {
    let output = "PS> \u{1b}[32m{\"installed\":[],\"available\":[]}\u{1b}[0m\nPS>";
    let cleaned = strip_terminal_escapes(output);
    assert_eq!(cleaned, "PS> {\"installed\":[],\"available\":[]}\nPS>");
    assert_eq!(
        extract_json_payload(&cleaned).as_deref(),
        Some("{\"installed\":[],\"available\":[]}")
    );
    let spans = json_candidates(&cleaned);
    assert_eq!(spans.len(), 1);
    let (s, e) = spans[0];
    assert_eq!(&cleaned[s..e], "{\"installed\":[],\"available\":[]}");
}

#[test]
fn install_output_classification() {
    assert_eq!(
        parse_plugin_install_output("Successfully installed plugin foo"),
        CommandOutcome { success: true, already: false }
    );
    assert_eq!(
        parse_plugin_install_output("Plugin is already installed"),
        CommandOutcome { success: true, already: true }
    );
    assert_eq!(
        parse_plugin_install_output("Error: could not install"),
        CommandOutcome { success: false, already: false }
    );
    assert_eq!(
        parse_plugin_install_output("nothing recognizable"),
        CommandOutcome { success: false, already: false }
    );
}

#[test]
fn marketplace_add_already_counts_as_success() {
    assert_eq!(
        parse_marketplace_add_output("Failed to add: marketplace already installed"),
        CommandOutcome { success: true, already: true }
    );
    assert_eq!(
        parse_marketplace_add_output("Marketplace added"),
        CommandOutcome { success: true, already: false }
    );
}

#[test]
fn uninstall_and_remove_are_idempotent() {
    assert_eq!(
        parse_plugin_uninstall_output("Plugin not found in installed plugins"),
        CommandOutcome { success: true, already: true }
    );
    assert_eq!(
        parse_marketplace_remove_output("Marketplace 'x' not found"),
        CommandOutcome { success: true, already: true }
    );
    assert!(!parse_marketplace_remove_output("Error: permission denied").success);
}

#[test]
fn update_outputs() {
    assert_eq!(parse_plugin_update_output("Already at the latest version"), "already_latest");
    assert_eq!(parse_plugin_update_output("Plugin updated"), "updated");
    assert_eq!(parse_plugin_update_output("boom"), "failed");
    assert!(parse_marketplace_update_output("Successfully updated marketplace x"));
    assert!(!parse_marketplace_update_output("Failed to update marketplace"));
}

#[test]
fn trust_prompt_detection() {
    assert!(is_workspace_trust_prompt("Quick safety check: do you trust this folder?"));
    assert!(is_workspace_trust_prompt("Do you TRUST THIS FOLDER? Press Enter to confirm"));
    assert!(!is_workspace_trust_prompt("installing plugin"));
}
