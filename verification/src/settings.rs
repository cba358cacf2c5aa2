//! The settings of the program.

use vstd::prelude::*;
use std::path::PathBuf;
use crate::paths::{chars_or_nothing, text_or_nothing};
use crate::text::views;

verus! {

/// The settings of the program.
pub struct Settings {
    pub language: String,
    pub workspace_path: String,
    pub binary_mode: String,
    pub custom_binary_path: String,
    pub provider: String,
    pub model: String,
    pub base_url: String,
    pub mcp_config_path: String,
    pub skills_dir: String,
    pub skills_enabled: bool,
    pub mcp_enabled: bool,
    pub allow_shell: bool,
    pub max_subagents: i32,
    pub harness_enabled: bool,
    pub launch_action: String,
    pub remember_workspace: bool,
    pub enabled_skills: Vec<String>,
    pub enabled_mcp_servers: Vec<String>,
    pub mobile_bridge_enabled: bool,
    pub mobile_bridge_host: String,
    pub mobile_bridge_port: i32,
    pub mobile_bridge_token: String,
    pub mobile_remote_control_enabled: bool,
    pub update_push_enabled: bool,
}

/// The settings are those of a fresh start, all but the workspace.
pub open spec fn fresh(s: Settings) -> bool {
    &&& s.language@ == "zh"@
    &&& s.binary_mode@ == "bundled"@
    &&& s.custom_binary_path@.len() == 0
    &&& s.provider@ == "deepseek"@
    &&& s.model@ == "deepseek-v4-pro"@
    &&& s.base_url@ == "https://api.deepseek.com"@
    &&& s.mcp_config_path@.len() == 0
    &&& s.skills_dir@.len() == 0
    &&& s.skills_enabled
    &&& !s.mcp_enabled
    &&& !s.allow_shell
    &&& s.max_subagents == 10
    &&& !s.harness_enabled
    &&& s.launch_action@ == "tui"@
    &&& s.remember_workspace
    &&& views(s.enabled_skills@) == seq![
        "superpowers"@,
        "ui-ux-design"@,
        "cron-scheduler"@,
        "skill-downloader"@,
    ]
    &&& s.enabled_mcp_servers@.len() == 0
    &&& !s.mobile_bridge_enabled
    &&& s.mobile_bridge_host@ == "127.0.0.1"@
    &&& s.mobile_bridge_port == 8765
    &&& s.mobile_bridge_token@.len() == 0
    &&& !s.mobile_remote_control_enabled
    &&& !s.update_push_enabled
}

impl Settings {
    /// The settings of a fresh start in a workspace.
    pub fn in_workspace(workspace_path: String) -> (r: Settings)
        ensures
            fresh(r),
            r.workspace_path == workspace_path,
    {
        let mut skills: Vec<String> = Vec::new();
        skills.push("superpowers".to_string());
        skills.push("ui-ux-design".to_string());
        skills.push("cron-scheduler".to_string());
        skills.push("skill-downloader".to_string());
        assert(views(skills@) =~= seq![
            "superpowers"@,
            "ui-ux-design"@,
            "cron-scheduler"@,
            "skill-downloader"@,
        ]);
        Settings {
            language: "zh".to_string(),
            workspace_path,
            binary_mode: "bundled".to_string(),
            custom_binary_path: String::new(),
            provider: "deepseek".to_string(),
            model: "deepseek-v4-pro".to_string(),
            base_url: "https://api.deepseek.com".to_string(),
            mcp_config_path: String::new(),
            skills_dir: String::new(),
            skills_enabled: true,
            mcp_enabled: false,
            allow_shell: false,
            max_subagents: 10,
            harness_enabled: false,
            launch_action: "tui".to_string(),
            remember_workspace: true,
            enabled_skills: skills,
            enabled_mcp_servers: Vec::new(),
            mobile_bridge_enabled: false,
            mobile_bridge_host: "127.0.0.1".to_string(),
            mobile_bridge_port: 8765,
            mobile_bridge_token: String::new(),
            mobile_remote_control_enabled: false,
            update_push_enabled: false,
        }
    }
}

impl Default for Settings {
    /// The settings of a fresh start, with the home directory as the workspace.
    fn default() -> (r: Self)
        ensures
            fresh(r),
            exists|home: Option<PathBuf>| r.workspace_path@ == #[trigger] chars_or_nothing(home),
    {
        Settings::in_workspace(text_or_nothing(dirs::home_dir()))
    }
}

/// How a terminal is started.
pub struct TerminalOptions {
    pub cols: i32,
    pub rows: i32,
    pub workspace_path: String,
    pub launch_action: String,
    pub agent_prompt: String,
}

/// Fresh settings allow nothing that has to be allowed: no commands, no tools and no access
/// from elsewhere. They name the usual service, and switch the skills on.
pub proof fn law_fresh_settings_allow_little(s: Settings)
    requires
        fresh(s),
    ensures
        !s.allow_shell && !s.mcp_enabled && !s.mobile_bridge_enabled
            && !s.mobile_remote_control_enabled && !s.update_push_enabled && !s.harness_enabled,
        s.provider@ == "deepseek"@ && s.model@ == "deepseek-v4-pro"@ && s.base_url@
            == "https://api.deepseek.com"@,
        s.language@ == "zh"@ && s.binary_mode@ == "bundled"@ && s.launch_action@ == "tui"@,
        s.mobile_bridge_host@ == "127.0.0.1"@ && s.mobile_bridge_port == 8765
            && s.mobile_bridge_token@.len() == 0,
        s.skills_enabled && s.remember_workspace && s.max_subagents == 10,
        views(s.enabled_skills@).len() == 4 && s.enabled_mcp_servers@.len() == 0,
        s.custom_binary_path@.len() == 0 && s.mcp_config_path@.len() == 0 && s.skills_dir@.len()
            == 0,
{
}

} // verus!
