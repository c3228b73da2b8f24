use cron_engine::formats::PluginFormat;

#[test]
fn test_plugin_format_display() {
    assert_eq!(PluginFormat::Skill.to_string(), "skill");
    assert_eq!(PluginFormat::ClaudeCode.to_string(), "claude_code");
    assert_eq!(PluginFormat::Codex.to_string(), "codex");
    assert_eq!(PluginFormat::Generic.to_string(), "generic");
}

#[test]
fn plugin_format_default_is_skill() {
    assert_eq!(PluginFormat::default(), PluginFormat::Skill);
}

#[test]
fn plugin_format_name_round_trip() {
    for format in [
        PluginFormat::Skill,
        PluginFormat::ClaudeCode,
        PluginFormat::Codex,
        PluginFormat::Generic,
    ] {
        assert_eq!(PluginFormat::from_name(format.as_str()), Some(format));
    }
    assert_eq!(PluginFormat::from_name("Skill"), None);
    assert_eq!(PluginFormat::from_name(""), None);
}
