//! Configuration values: theme, keybinding overrides and user-defined
//! command definitions, with validation that collects issues without ever
//! blocking startup.

use vstd::prelude::*;

use crate::keys::{spec_events_from, spec_has_dup_key, spec_overrides_ok};
use crate::text::{spec_trim, str_chars, str_eq, trim_chars};

verus! {

/// Where a user-defined command may run, deciding which template variables
/// are required.
#[derive(Debug, Clone, Copy, PartialEq, Eq, Structural)]
pub enum CommandContext {
    Repo,
    File,
    Revision,
}

/// One user-defined command.
#[derive(Debug, Clone)]
pub struct CustomCommand {
    pub id: String,
    pub title: String,
    pub context: CommandContext,
    pub command: String,
    pub args: Vec<String>,
    pub env: Vec<(String, String)>,
    pub show_output: bool,
    pub needs_confirmation: bool,
}

/// The configuration: a theme name, keybinding overrides and user-defined
/// commands.
#[derive(Debug, Clone)]
pub struct AppConfig {
    pub theme: String,
    pub keybinds: Vec<(String, String)>,
    pub custom_commands: Vec<CustomCommand>,
}

/// The default theme name.
pub fn default_theme() -> (r: String)
    ensures
        r@ == "auto"@,
{
    "auto".to_owned()
}

/// Whether a command's output is shown by default.
pub fn default_show_output() -> (r: bool)
    ensures
        r,
{
    true
}

impl Default for AppConfig {
    fn default() -> (r: AppConfig)
        ensures
            r.theme@ == "auto"@,
            r.keybinds@.len() == 0,
            r.custom_commands@.len() == 0,
    {
        AppConfig { theme: default_theme(), keybinds: Vec::new(), custom_commands: Vec::new() }
    }
}

/// What loading the configuration produced: the value, the path it came
/// from, and the issues found on the way.
#[derive(Debug, Clone)]
pub struct ConfigLoadReport {
    pub config: AppConfig,
    pub path: Option<String>,
    pub issues: Vec<String>,
}

/// A valid theme name: auto, light or dark, ignoring surrounding whitespace.
pub open spec fn spec_theme_ok(theme: Seq<char>) -> bool {
    spec_trim(theme) == "auto"@ || spec_trim(theme) == "light"@ || spec_trim(theme) == "dark"@
}

/// A structurally valid command definition: id, title and command line all
/// non-blank, no blank argument, no blank environment key.
pub open spec fn spec_command_ok(c: CustomCommand) -> bool {
    &&& spec_trim(c.id@).len() > 0
    &&& spec_trim(c.title@).len() > 0
    &&& spec_trim(c.command@).len() > 0
    &&& (forall|i: int| 0 <= i < c.args@.len() ==> spec_trim((#[trigger] c.args@[i])@).len() > 0)
    &&& (forall|i: int|
        0 <= i < c.env@.len() ==> spec_trim((#[trigger] c.env@[i]).0@).len() > 0)
}

/// A sound configuration: a valid theme, valid keybinding overrides that
/// bind no key twice, and structurally sound command definitions with
/// distinct ids.
pub open spec fn spec_config_ok(config: &AppConfig) -> bool {
    &&& spec_theme_ok(config.theme@)
    &&& spec_overrides_ok(config.keybinds@.map_values(|p: (String, String)| (p.0@, p.1@)))
    &&& !spec_has_dup_key(
        spec_events_from(config.keybinds@.map_values(|p: (String, String)| (p.0@, p.1@)), 0),
    )
    &&& (forall|i: int|
        0 <= i < config.custom_commands@.len() ==> spec_command_ok(
            #[trigger] config.custom_commands@[i],
        ))
    &&& (forall|i: int, j: int|
        0 <= i < j < config.custom_commands@.len() ==> (#[trigger] config.custom_commands@[i]).id@
            != (#[trigger] config.custom_commands@[j]).id@)
}

/// Validates the configuration: an invalid theme, an invalid keybinding
/// override, and each structural fault of a command definition (or a
/// duplicate id) contribute one issue each. No issue means — and requires —
/// that the whole configuration is sound.
pub fn validate_config(config: &AppConfig) -> (r: Vec<String>)
    ensures
        (r@.len() == 0) == spec_config_ok(config),
{
    let mut issues: Vec<String> = Vec::new();
    let theme_chars = str_chars(config.theme.as_str());
    let theme_trimmed = trim_chars(&theme_chars);
    let theme_s = crate::text::chars_string(&theme_trimmed);
    if str_eq(theme_s.as_str(), "auto") || str_eq(theme_s.as_str(), "light") || str_eq(
        theme_s.as_str(),
        "dark",
    ) {
    } else {
        let mut msg = "invalid theme '".to_owned();
        msg.append(theme_s.as_str());
        msg.append("' (expected: auto, light, dark)");
        issues.push(msg);
    }

    let ghost theme_bad = !spec_theme_ok(config.theme@);
    proof {
        assert((issues@.len() == 0) == !theme_bad);
    }
    let key_issues = crate::keys::validate_key_overrides(&config.keybinds);
    let ghost keys_ok = spec_overrides_ok(
        config.keybinds@.map_values(|p: (String, String)| (p.0@, p.1@)),
    ) && !spec_has_dup_key(
        spec_events_from(config.keybinds@.map_values(|p: (String, String)| (p.0@, p.1@)), 0),
    );
    let kn = key_issues.len();
    let mut ki: usize = 0;
    while ki < kn
        invariant
            0 <= ki <= kn,
            kn == key_issues@.len(),
            theme_bad == !spec_theme_ok(config.theme@),
            keys_ok == (kn == 0),
            (issues@.len() == 0) == (!theme_bad && ki == 0),
        decreases kn - ki,
    {
        issues.push(key_issues[ki].clone());
        ki = ki + 1;
    }
    proof {
        assert((issues@.len() == 0) == (!theme_bad && keys_ok));
    }

    let cn = config.custom_commands.len();
    let mut ci: usize = 0;
    while ci < cn
        invariant
            0 <= ci <= cn,
            cn == config.custom_commands@.len(),
            theme_bad == !spec_theme_ok(config.theme@),
            keys_ok == (spec_overrides_ok(
                config.keybinds@.map_values(|p: (String, String)| (p.0@, p.1@)),
            ) && !spec_has_dup_key(
                spec_events_from(
                    config.keybinds@.map_values(|p: (String, String)| (p.0@, p.1@)),
                    0,
                ),
            )),
            (issues@.len() == 0) == (!theme_bad && keys_ok && (forall|i: int|
                0 <= i < ci ==> spec_command_ok(#[trigger] config.custom_commands@[i])) && (
            forall|i: int, j: int|
                0 <= i < j < ci ==> (#[trigger] config.custom_commands@[i]).id@ != (
                #[trigger] config.custom_commands@[j]).id@)),
        decreases cn - ci,
    {
        let command = &config.custom_commands[ci];
        let id_chars = str_chars(command.id.as_str());
        let id_trim = trim_chars(&id_chars);
        if id_trim.len() == 0 {
            issues.push("custom command has empty id".to_owned());
        }
        let title_chars = str_chars(command.title.as_str());
        let title_trim = trim_chars(&title_chars);
        if title_trim.len() == 0 {
            let mut msg = "custom command '".to_owned();
            msg.append(command.id.as_str());
            msg.append("' has empty title");
            issues.push(msg);
        }
        let cmd_chars = str_chars(command.command.as_str());
        let cmd_trim = trim_chars(&cmd_chars);
        if cmd_trim.len() == 0 {
            let mut msg = "custom command '".to_owned();
            msg.append(command.id.as_str());
            msg.append("' has empty command");
            issues.push(msg);
        }
        let an = command.args.len();
        let mut ai: usize = 0;
        let mut bad_arg = false;
        while ai < an
            invariant
                0 <= ai <= an,
                an == command.args@.len(),
                command.args@ == config.custom_commands@[ci as int].args@,
                0 <= ci < cn,
                cn == config.custom_commands@.len(),
                bad_arg == (exists|i: int|
                    0 <= i < ai && spec_trim((#[trigger] command.args@[i])@).len() == 0),
            decreases an - ai,
        {
            let arg_chars = str_chars(command.args[ai].as_str());
            let arg_trim = trim_chars(&arg_chars);
            if arg_trim.len() == 0 {
                proof {
                    assert(spec_trim(command.args@[ai as int]@).len() == 0);
                }
                bad_arg = true;
            }
            ai = ai + 1;
        }
        if bad_arg {
            let mut msg = "custom command '".to_owned();
            msg.append(command.id.as_str());
            msg.append("' has an empty arg entry");
            issues.push(msg);
        }
        let en = command.env.len();
        let mut ei: usize = 0;
        let mut bad_env = false;
        while ei < en
            invariant
                0 <= ei <= en,
                en == command.env@.len(),
                command.env@ == config.custom_commands@[ci as int].env@,
                0 <= ci < cn,
                cn == config.custom_commands@.len(),
                bad_env == (exists|i: int|
                    0 <= i < ei && spec_trim((#[trigger] command.env@[i]).0@).len() == 0),
            decreases en - ei,
        {
            let key_chars = str_chars(command.env[ei].0.as_str());
            let key_trim = trim_chars(&key_chars);
            if key_trim.len() == 0 {
                proof {
                    assert(spec_trim(command.env@[ei as int].0@).len() == 0);
                }
                bad_env = true;
            }
            ei = ei + 1;
        }
        if bad_env {
            let mut msg = "custom command '".to_owned();
            msg.append(command.id.as_str());
            msg.append("' has empty env key");
            issues.push(msg);
        }
        // duplicate id among the earlier commands
        let mut dup = false;
        if id_trim.len() > 0 {
            let mut di: usize = 0;
            while di < ci
                invariant
                    0 <= di <= ci < cn,
                    cn == config.custom_commands@.len(),
                    command.id@ == config.custom_commands@[ci as int].id@,
                    dup == (exists|e: int|
                        0 <= e < di && (#[trigger] config.custom_commands@[e]).id@
                            == config.custom_commands@[ci as int].id@),
                decreases ci - di,
            {
                if str_eq(config.custom_commands[di].id.as_str(), command.id.as_str()) {
                    proof {
                        assert(config.custom_commands@[di as int].id@
                            == config.custom_commands@[ci as int].id@);
                    }
                    dup = true;
                }
                di = di + 1;
            }
            if dup {
                let mut msg = "duplicate custom command id '".to_owned();
                msg.append(command.id.as_str());
                msg.append("'");
                issues.push(msg);
                proof {
                    let e = choose|e: int|
                        0 <= e < ci && (#[trigger] config.custom_commands@[e]).id@
                            == config.custom_commands@[ci as int].id@;
                    assert(!(forall|i: int, j: int|
                        0 <= i < j < ci + 1 ==> (#[trigger] config.custom_commands@[i]).id@ != (
                        #[trigger] config.custom_commands@[j]).id@));
                }
            }
        }
        proof {
            let cmds = config.custom_commands@;
            if issues@.len() == 0 {
                assert(spec_command_ok(cmds[ci as int]));
                assert forall|i: int|
                    0 <= i < ci + 1 implies spec_command_ok(#[trigger] cmds[i]) by {}
                assert forall|i: int, j: int|
                    0 <= i < j < ci + 1 implies (#[trigger] cmds[i]).id@ != (
                #[trigger] cmds[j]).id@ by {
                    if j == ci {
                        assert(cmds[i].id@ != cmds[ci as int].id@);
                    }
                }
            } else {
                // whatever raised the issue falsifies the whole conjunction
                assert(!((forall|i: int| 0 <= i < ci + 1 ==> spec_command_ok(#[trigger] cmds[i]))
                    && (forall|i: int, j: int|
                    0 <= i < j < ci + 1 ==> (#[trigger] cmds[i]).id@ != (#[trigger] cmds[j]).id@)
                    && !theme_bad && keys_ok)) by {
                    if !theme_bad && keys_ok && (forall|i: int|
                        0 <= i < ci ==> spec_command_ok(#[trigger] cmds[i])) && (forall|
                        i: int,
                        j: int,
                    |
                        0 <= i < j < ci ==> (#[trigger] cmds[i]).id@ != (#[trigger] cmds[j]).id@) {
                        // the issue came from this command: a structural fault
                        // or a duplicate id
                        assert(!spec_command_ok(cmds[ci as int]) || exists|e: int|
                            0 <= e < ci && (#[trigger] cmds[e]).id@ == cmds[ci as int].id@);
                    }
                }
            }
        }
        ci = ci + 1;
    }
    issues
}

} // verus!
