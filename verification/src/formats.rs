//! Plugin format shared by the skills and plugins subsystems.

use vstd::prelude::*;

verus! {

/// Detected format of a plugin repository.
#[derive(Debug, Clone, Copy, PartialEq, Eq, Structural)]
pub enum PluginFormat {
    /// Native `SKILL.md` format (single or multi-skill repo).
    Skill,
    /// A `plugin.json` beside `agents/`, `commands/` and `skills/`.
    ClaudeCode,
    /// Codex plugin: `codex-plugin.json` or `.codex/plugin.json`.
    Codex,
    /// Fallback: `.md` files treated as generic skill prompts.
    Generic,
}

impl Default for PluginFormat {
    fn default() -> (r: Self)
        ensures
            r == PluginFormat::Skill,
    {
        PluginFormat::Skill
    }
}

impl PluginFormat {
    /// The name of the format, in snake case.
    pub open spec fn name(self) -> Seq<char> {
        match self {
            PluginFormat::Skill => "skill"@,
            PluginFormat::ClaudeCode => "claude_code"@,
            PluginFormat::Codex => "codex"@,
            PluginFormat::Generic => "generic"@,
        }
    }

    pub fn as_str(&self) -> (r: &'static str)
        ensures
            r@ == self.name(),
    {
        match self {
            PluginFormat::Skill => "skill",
            PluginFormat::ClaudeCode => "claude_code",
            PluginFormat::Codex => "codex",
            PluginFormat::Generic => "generic",
        }
    }

    /// The name of the format as an owned string.
    pub fn to_string(&self) -> (r: String)
        ensures
            r@ == self.name(),
    {
        self.as_str().to_owned()
    }

    /// The format that `name` names, if any.
    pub fn from_name(name: &str) -> (r: Option<PluginFormat>)
        ensures
            match r {
                Some(f) => f.name() == name@,
                None => forall|f: PluginFormat| f.name() != name@,
            },
    {
        let given = name.to_owned();
        if given == "skill".to_owned() {
            Some(PluginFormat::Skill)
        } else if given == "claude_code".to_owned() {
            Some(PluginFormat::ClaudeCode)
        } else if given == "codex".to_owned() {
            Some(PluginFormat::Codex)
        } else if given == "generic".to_owned() {
            Some(PluginFormat::Generic)
        } else {
            None
        }
    }
}

/// Different formats have different names, so a name read back gives the format it came
/// from.
pub proof fn lemma_names_distinct(a: PluginFormat, b: PluginFormat)
    requires
        a.name() == b.name(),
    ensures
        a == b,
{
    reveal_strlit("skill");
    reveal_strlit("claude_code");
    reveal_strlit("codex");
    reveal_strlit("generic");
    assert("skill"@.len() == 5 && "skill"@[0] == 's');
    assert("claude_code"@.len() == 11);
    assert("codex"@.len() == 5 && "codex"@[0] == 'c');
    assert("generic"@.len() == 7);
}

} // verus!
