//! The agents' front-ends: how each command line is built, and the plain-text agents' output.
use vstd::prelude::*;
use vstd::string::*;
use crate::diff::{decimal, format_decimal};
use crate::entry::{ConversationPatch, NormalizedEntry, NormalizedEntryType};
use crate::index::EntryIndexProvider;
use crate::text::{has_prefix, starts_with, trim, trimmed};

verus! {

/// The text of a shell word quoted as `shlex` quotes it.
pub uninterp spec fn shell_quoted(s: Seq<char>) -> Seq<char>;

/// Relies on `shlex::try_quote`: it fails only on a non-empty word that holds a nul character,
/// and otherwise gives the word quoted for a POSIX shell.
#[verifier::external_body]
fn shell_quote(s: &str) -> (r: Option<String>)
    ensures
        r is None <==> (s@.len() > 0 && s@.contains('\0')),
        r matches Some(q) ==> q@ == shell_quoted(s@),
{
    match shlex::try_quote(s) {
        Ok(q) => Some(q.into_owned()),
        Err(_) => None,
    }
}

/// The text without its ANSI escape sequences, as `strip_ansi_escapes` gives it.
pub uninterp spec fn ansi_stripped(s: Seq<char>) -> Seq<char>;

/// Relies on `strip_ansi_escapes::strip_str`: the text without its ANSI escape sequences.
#[verifier::external_body]
fn strip_ansi(s: &str) -> (r: String)
    ensures
        r@ == ansi_stripped(s@),
{
    strip_ansi_escapes::strip_str(s)
}

/// How the deployment runs an agent: its command, the command that runs it behind its code
/// router, and its approval hook script as the agent's shell names it.
#[derive(Clone, Debug, PartialEq)]
pub struct AgentProfile {
    pub command: String,
    pub router_command: String,
    pub hook_script: String,
}

pub open spec fn base_command_text(router: bool, profile: AgentProfile) -> Seq<char> {
    if router {
        profile.router_command@
    } else {
        profile.command@
    }
}

/// The command that runs the agent, directly or behind its code router.
pub fn base_command(router: bool, profile: &AgentProfile) -> (r: &str)
    ensures
        r@ == base_command_text(router, *profile),
{
    if router {
        profile.router_command.as_str()
    } else {
        profile.command.as_str()
    }
}

/// Overrides of an agent's command line.
#[derive(Clone, Debug, PartialEq, Default)]
pub struct CmdOverrides {
    pub base_command_override: Option<String>,
    pub additional_params: Option<Vec<String>>,
}

/// Text added at the end of every prompt.
#[derive(Clone, Debug, PartialEq, Default)]
pub struct AppendPrompt {
    pub text: Option<String>,
}

impl AppendPrompt {
    /// The prompt, followed by the text to append, if any.
    pub fn combine_prompt(&self, prompt: &str) -> (r: String)
        ensures
            r@ == prompt@ + (match self.text {
                Some(t) => t@,
                None => Seq::empty(),
            }),
    {
        let mut s = String::from_str(prompt);
        if let Some(t) = &self.text {
            s.append(t.as_str());
        }
        s
    }
}

pub open spec fn views(v: Seq<String>) -> Seq<Seq<char>> {
    v.map_values(|s: String| s@)
}

/// A command line: a base command and its parameters.
pub struct CommandBuilder {
    pub base: String,
    pub params: Vec<String>,
}

/// The words `ws`, one after the other, each after a space.
pub open spec fn spaced(ws: Seq<Seq<char>>) -> Seq<char>
    decreases ws.len(),
{
    if ws.len() == 0 {
        Seq::empty()
    } else {
        spaced(ws.drop_last()) + " "@ + ws.last()
    }
}

impl CommandBuilder {
    pub fn new(base: &str) -> (r: CommandBuilder)
        ensures
            r.base@ == base@,
            r.params@.len() == 0,
    {
        CommandBuilder { base: String::from_str(base), params: Vec::new() }
    }

    pub fn param(&mut self, p: &str)
        ensures
            final(self).base == old(self).base,
            views(final(self).params@) == views(old(self).params@).push(p@),
    {
        let ghost before = self.params@;
        self.params.push(String::from_str(p));
        assert(views(self.params@) =~= views(before).push(p@));
    }

    /// The command line: the base command and each parameter, separated by spaces.
    pub fn build_initial(&self) -> (r: String)
        ensures
            r@ == self.base@ + spaced(views(self.params@)),
    {
        let mut s = self.base.clone();
        let mut k: usize = 0;
        while k < self.params.len()
            invariant
                k <= self.params.len(),
                s@ == self.base@ + spaced(views(self.params@.subrange(0, k as int))),
            decreases self.params.len() - k,
        {
            let ghost pre = views(self.params@.subrange(0, k as int));
            assert(views(self.params@.subrange(0, k + 1)).drop_last() =~= pre);
            assert(views(self.params@.subrange(0, k + 1)).last() == self.params@[k as int]@);
            s.append(" ");
            s.append(self.params[k].as_str());
            k = k + 1;
        }
        assert(self.params@.subrange(0, k as int) =~= self.params@);
        s
    }

    /// The command line of a follow-up run: the initial one with `extra` parameters after it.
    pub fn build_follow_up(&self, extra: &Vec<String>) -> (r: String)
        ensures
            r@ == self.base@ + spaced(views(self.params@)) + spaced(views(extra@)),
    {
        let mut s = self.build_initial();
        let ghost head = s@;
        let mut k: usize = 0;
        while k < extra.len()
            invariant
                k <= extra.len(),
                s@ == head + spaced(views(extra@.subrange(0, k as int))),
            decreases extra.len() - k,
        {
            let ghost pre = views(extra@.subrange(0, k as int));
            assert(views(extra@.subrange(0, k + 1)).drop_last() =~= pre);
            assert(views(extra@.subrange(0, k + 1)).last() == extra@[k as int]@);
            s.append(" ");
            s.append(extra[k].as_str());
            k = k + 1;
        }
        assert(extra@.subrange(0, k as int) =~= extra@);
        s
    }
}

/// Applies the overrides: another base command, and parameters added at the end.
pub fn apply_overrides(builder: CommandBuilder, cmd: &CmdOverrides) -> (r: CommandBuilder)
    ensures
        r.base@ == (match cmd.base_command_override {
            Some(b) => b@,
            None => builder.base@,
        }),
        views(r.params@) == views(builder.params@) + (match cmd.additional_params {
            Some(ps) => views(ps@),
            None => Seq::empty(),
        }),
{
    let mut b = builder;
    if let Some(base) = &cmd.base_command_override {
        b.base = base.clone();
    }
    let ghost start = views(b.params@);
    match &cmd.additional_params {
        Some(ps) => {
            let mut k: usize = 0;
            while k < ps.len()
                invariant
                    k <= ps.len(),
                    views(b.params@) == start + views(ps@.subrange(0, k as int)),
                    b.base@ == (match cmd.base_command_override {
                        Some(x) => x@,
                        None => builder.base@,
                    }),
                decreases ps.len() - k,
            {
                assert(views(ps@.subrange(0, k + 1)) =~= views(ps@.subrange(0, k as int)).push(ps@[k as int]@));
                b.param(ps[k].as_str());
                k = k + 1;
            }
            assert(ps@.subrange(0, k as int) =~= ps@);
        },
        None => {
            assert(start + Seq::<Seq<char>>::empty() =~= start);
        },
    }
    b
}

/// Seconds that the approval service waits for a user's decision.
pub const APPROVAL_TIMEOUT_SECONDS: u64 = 300;

/// The hook settings that make the agent run `hook` to ask the backend on `backend_port`
/// before it uses a tool (only before it leaves plan mode, with `plan`).
pub open spec fn settings_text(plan: bool, backend_port: u16, hook: Seq<char>) -> Seq<char> {
    let matcher = if plan { "^ExitPlanMode$"@ } else { "^(?!(Glob|Grep|NotebookRead|Read|Task|TodoWrite)$).*"@ };
    let command = hook + " --timeout-seconds "@ + decimal(305) + " --poll-interval 5 --backend-port "@
        + decimal(backend_port as nat) + " --feedback-marker 'User feedback: '"@;
    "{\"hooks\":{\"PreToolUse\":[{\"hooks\":[{\"command\":"@ + json_quoted(command) + ",\"timeout\":"@
        + decimal(310) + ",\"type\":\"command\"}],\"matcher\":\""@ + matcher + "\"}]}}"@
}

/// A character as it stands inside a JSON string that serde_json writes: a quote, a backslash
/// and the control characters are escaped (by their short escapes where JSON has one, else as
/// `\u00XX` in lower-case hex); every other character stands for itself.
pub open spec fn json_escape(c: char) -> Seq<char> {
    if c == '"' {
        seq!['\\', '"']
    } else if c == '\\' {
        seq!['\\', '\\']
    } else if c == '\x08' {
        seq!['\\', 'b']
    } else if c == '\t' {
        seq!['\\', 't']
    } else if c == '\n' {
        seq!['\\', 'n']
    } else if c == '\x0C' {
        seq!['\\', 'f']
    } else if c == '\r' {
        seq!['\\', 'r']
    } else if (c as u32) < 0x20 {
        seq!['\\', 'u', '0', '0', "0123456789abcdef"@[(c as u32 / 16) as int], "0123456789abcdef"@[(c as u32 % 16) as int]]
    } else {
        seq![c]
    }
}

/// The characters of `s`, each as it stands inside a JSON string.
pub open spec fn json_escaped(s: Seq<char>) -> Seq<char>
    decreases s.len(),
{
    if s.len() == 0 {
        Seq::empty()
    } else {
        json_escaped(s.drop_last()) + json_escape(s.last())
    }
}

/// A text written as a JSON string, quotes included, as serde_json writes it.
pub open spec fn json_quoted(s: Seq<char>) -> Seq<char> {
    seq!['"'] + json_escaped(s) + seq!['"']
}

/// Relies on `serde_json::to_string` of a `str` (its `format_escaped_str` and `ESCAPE` table):
/// the text between quotes, each character escaped as `json_escape` says; writing into memory
/// does not fail.
#[verifier::external_body]
fn json_string(s: &str) -> (r: String)
    ensures
        r@ == json_quoted(s@),
{
    serde_json::to_string(s).unwrap_or_default()
}

pub fn settings_json(plan: bool, backend_port: u16, hook: &str) -> (r: String)
    ensures
        r@ == settings_text(plan, backend_port, hook@),
{
    let backend_timeout: u64 = APPROVAL_TIMEOUT_SECONDS + 5;
    let mut command = String::from_str(hook);
    command.append(" --timeout-seconds ");
    command.append(format_decimal(backend_timeout as usize).as_str());
    command.append(" --poll-interval 5 --backend-port ");
    command.append(format_decimal(backend_port as usize).as_str());
    command.append(" --feedback-marker 'User feedback: '");
    let mut s = String::from_str("{\"hooks\":{\"PreToolUse\":[{\"hooks\":[{\"command\":");
    s.append(json_string(command.as_str()).as_str());
    s.append(",\"timeout\":");
    s.append(format_decimal((APPROVAL_TIMEOUT_SECONDS + 10) as usize).as_str());
    s.append(",\"type\":\"command\"}],\"matcher\":\"");
    if plan {
        s.append("^ExitPlanMode$");
    } else {
        s.append("^(?!(Glob|Grep|NotebookRead|Read|Task|TodoWrite)$).*");
    }
    s.append("\"}]}}");
    s
}

/// Options of the stream-JSON coding agent.
#[derive(Clone, Debug, PartialEq)]
pub struct ClaudeCode {
    pub append_prompt: AppendPrompt,
    pub claude_code_router: Option<bool>,
    pub plan: Option<bool>,
    pub approvals: Option<bool>,
    pub model: Option<String>,
    pub dangerously_skip_permissions: Option<bool>,
    pub cmd: CmdOverrides,
}

pub open spec fn flag(o: Option<bool>) -> bool {
    o == Some(true)
}

impl ClaudeCode {
    /// The command line for the deployment's `profile`, with the hook settings for the backend
    /// on `backend_port` when plans or approvals need them (and the port is known).
    pub fn build_command_builder(&self, profile: &AgentProfile, backend_port: Option<u16>) -> (r: CommandBuilder)
        ensures
            ({
                let text = settings_text(flag(self.plan), backend_port->0, profile.hook_script@);
                let settings = if (flag(self.plan) || flag(self.approvals)) && backend_port is Some
                    && !text.contains('\0') {
                    seq!["--settings"@, shell_quoted(text)]
                } else {
                    Seq::empty()
                };
                let params = seq!["-p"@] + (if flag(self.plan) { seq!["--permission-mode=plan"@] } else { Seq::empty() })
                    + settings
                    + (if flag(self.dangerously_skip_permissions) { seq!["--dangerously-skip-permissions"@] } else { Seq::empty() })
                    + (match self.model {
                        Some(m) => seq!["--model"@, m@],
                        None => Seq::empty(),
                    })
                    + seq!["--verbose"@, "--output-format=stream-json"@, "--include-partial-messages"@];
                &&& r.base@ == (match self.cmd.base_command_override {
                    Some(b) => b@,
                    None => base_command_text(flag(self.claude_code_router), *profile),
                })
                &&& views(r.params@) == params + (match self.cmd.additional_params {
                    Some(ps) => views(ps@),
                    None => Seq::empty(),
                })
            }),
    {
        let router = self.claude_code_router == Some(true);
        let plan = self.plan == Some(true);
        let approvals = self.approvals == Some(true);
        let mut b = CommandBuilder::new(base_command(router, profile));
        b.param("-p");
        if plan {
            b.param("--permission-mode=plan");
        }
        if plan || approvals {
            if let Some(port) = backend_port {
                let settings = settings_json(plan, port, profile.hook_script.as_str());
                if let Some(quoted) = shell_quote(settings.as_str()) {
                    b.param("--settings");
                    b.param(quoted.as_str());
                }
            }
        }
        if self.dangerously_skip_permissions == Some(true) {
            b.param("--dangerously-skip-permissions");
        }
        if let Some(model) = &self.model {
            b.param("--model");
            b.param(model.as_str());
        }
        b.param("--verbose");
        b.param("--output-format=stream-json");
        b.param("--include-partial-messages");
        apply_overrides(b, &self.cmd)
    }
}

} // verus!

verus! {

/// The script that runs `command` in plan mode and stops it once the approval of its plan has
/// timed out.
pub open spec fn watchkill_text(quoted: Seq<char>) -> Seq<char> {
    "#!/usr/bin/env bash\nset -euo pipefail\n\nword=\"Approval request timed out\"\n\nexit_code=0\nwhile IFS= read -r line; do\n    printf '%s\\n' \"$line\"\n    if [[ $line == *\"$word\"* ]]; then\n        exit 0\n    fi\ndone < <(bash -lc "@
        + quoted + " <&0 2>&1)\n\nexit_code=${PIPESTATUS[0]}\nexit \"$exit_code\"\n"@
}

pub fn create_watchkill_script(command: &str) -> (r: String)
    requires
        !(command@.len() > 0 && command@.contains('\0')),
    ensures
        r@ == watchkill_text(shell_quoted(command@)),
{
    let quoted = match shell_quote(command) {
        Some(q) => q,
        None => String::new(),
    };
    let mut s = String::from_str(
        "#!/usr/bin/env bash\nset -euo pipefail\n\nword=\"Approval request timed out\"\n\nexit_code=0\nwhile IFS= read -r line; do\n    printf '%s\\n' \"$line\"\n    if [[ $line == *\"$word\"* ]]; then\n        exit 0\n    fi\ndone < <(bash -lc ",
    );
    s.append(quoted.as_str());
    s.append(" <&0 2>&1)\n\nexit_code=${PIPESTATUS[0]}\nexit \"$exit_code\"\n");
    s
}

/// Options of the GitHub Copilot agent.
#[derive(Clone, Debug, PartialEq)]
pub struct Copilot {
    pub append_prompt: AppendPrompt,
    pub model: Option<String>,
    pub allow_all_tools: Option<bool>,
    pub allow_tool: Option<String>,
    pub deny_tool: Option<String>,
    pub add_dir: Option<Vec<String>>,
    pub disable_mcp_server: Option<Vec<String>>,
    pub cmd: CmdOverrides,
}

/// Each of `vs` after the flag `f`.
pub open spec fn flagged(f: Seq<char>, vs: Seq<Seq<char>>) -> Seq<Seq<char>>
    decreases vs.len(),
{
    if vs.len() == 0 {
        Seq::empty()
    } else {
        flagged(f, vs.drop_last()) + seq![f, vs.last()]
    }
}

pub open spec fn opt_flagged(f: Seq<char>, o: Option<Vec<String>>) -> Seq<Seq<char>> {
    match o {
        Some(v) => flagged(f, views(v@)),
        None => Seq::empty(),
    }
}

pub open spec fn opt_pair(f: Seq<char>, o: Option<String>) -> Seq<Seq<char>> {
    match o {
        Some(v) => seq![f, v@],
        None => Seq::empty(),
    }
}

fn add_flagged(b: &mut CommandBuilder, f: &str, vs: &Vec<String>)
    ensures
        final(b).base == old(b).base,
        views(final(b).params@) == views(old(b).params@) + flagged(f@, views(vs@)),
{
    let ghost start = views(b.params@);
    let mut k: usize = 0;
    while k < vs.len()
        invariant
            k <= vs.len(),
            b.base == old(b).base,
            start == views(old(b).params@),
            views(b.params@) == start + flagged(f@, views(vs@.subrange(0, k as int))),
        decreases vs.len() - k,
    {
        let ghost pre = views(vs@.subrange(0, k as int));
        assert(views(vs@.subrange(0, k + 1)).drop_last() =~= pre);
        assert(views(vs@.subrange(0, k + 1)).last() == vs@[k as int]@);
        b.param(f);
        b.param(vs[k].as_str());
        assert(start + flagged(f@, views(vs@.subrange(0, k + 1))) =~= start + flagged(f@, pre) + seq![f@, vs@[k as int]@]);
        k = k + 1;
    }
    assert(vs@.subrange(0, k as int) =~= vs@);
}

impl Copilot {
    /// The command line, writing its logs to `log_dir`.
    pub fn build_command_builder(&self, log_dir: &str) -> (r: CommandBuilder)
        ensures
            r.base@ == (match self.cmd.base_command_override {
                Some(b) => b@,
                None => "npx -y @github/copilot@0.0.337"@,
            }),
            views(r.params@) == seq!["--no-color"@, "--log-level"@, "debug"@, "--log-dir"@, log_dir@]
                + (if flag(self.allow_all_tools) { seq!["--allow-all-tools"@] } else { Seq::empty() })
                + opt_pair("--model"@, self.model)
                + opt_pair("--allow-tool"@, self.allow_tool)
                + opt_pair("--deny-tool"@, self.deny_tool)
                + opt_flagged("--add-dir"@, self.add_dir)
                + opt_flagged("--disable-mcp-server"@, self.disable_mcp_server)
                + (match self.cmd.additional_params {
                    Some(ps) => views(ps@),
                    None => Seq::empty(),
                }),
    {
        let mut b = CommandBuilder::new("npx -y @github/copilot@0.0.337");
        b.param("--no-color");
        b.param("--log-level");
        b.param("debug");
        b.param("--log-dir");
        b.param(log_dir);
        let ghost p0 = views(b.params@);
        assert(p0 =~= seq!["--no-color"@, "--log-level"@, "debug"@, "--log-dir"@, log_dir@]);
        if self.allow_all_tools == Some(true) {
            b.param("--allow-all-tools");
        }
        let ghost p1 = views(b.params@);
        assert(p1 =~= p0 + (if flag(self.allow_all_tools) { seq!["--allow-all-tools"@] } else { Seq::empty() }));
        add_opt_pair(&mut b, "--model", &self.model);
        add_opt_pair(&mut b, "--allow-tool", &self.allow_tool);
        add_opt_pair(&mut b, "--deny-tool", &self.deny_tool);
        add_opt_flagged(&mut b, "--add-dir", &self.add_dir);
        add_opt_flagged(&mut b, "--disable-mcp-server", &self.disable_mcp_server);
        apply_overrides(b, &self.cmd)
    }
}

fn add_opt_pair(b: &mut CommandBuilder, f: &str, o: &Option<String>)
    ensures
        final(b).base == old(b).base,
        views(final(b).params@) == views(old(b).params@) + opt_pair(f@, *o),
{
    match o {
        Some(v) => {
            let ghost start = views(b.params@);
            b.param(f);
            b.param(v.as_str());
            assert(views(b.params@) =~= start + seq![f@, v@]);
        },
        None => {
            assert(views(b.params@) + Seq::<Seq<char>>::empty() =~= views(b.params@));
        },
    }
}

fn add_opt_flagged(b: &mut CommandBuilder, f: &str, o: &Option<Vec<String>>)
    ensures
        final(b).base == old(b).base,
        views(final(b).params@) == views(old(b).params@) + opt_flagged(f@, *o),
{
    match o {
        Some(vs) => add_flagged(b, f, vs),
        None => {
            assert(views(b.params@) + Seq::<Seq<char>>::empty() =~= views(b.params@));
        },
    }
}

/// The marker line by which the session id of a Copilot run is passed along its output.
pub open spec fn session_prefix() -> Seq<char> {
    "[copilot-session] "@
}

/// A line of Copilot's output: the session marker, or text.
#[derive(Clone, Debug, PartialEq)]
pub enum CopilotLine {
    SessionId(String),
    Text(String),
}

/// Reads a line of Copilot's output: after the session marker stands the session id.
pub fn copilot_line(line: &str) -> (r: CopilotLine)
    ensures
        has_prefix(line@, session_prefix()) ==> (r matches CopilotLine::SessionId(id)
            && id@ == trimmed(line@.subrange(18, line@.len() as int))),
        !has_prefix(line@, session_prefix()) ==> (r matches CopilotLine::Text(t) && t@ == line@),
{
    if starts_with(line, "[copilot-session] ") {
        proof {
            reveal_strlit("[copilot-session] ");
        }
        let n = line.unicode_len();
        let rest = line.substring_char(18, n);
        CopilotLine::SessionId(trim(rest))
    } else {
        CopilotLine::Text(String::from_str(line))
    }
}

/// The patch for a line of plain-text output: the line, without ANSI escapes, as an assistant
/// message.
pub fn plain_text_line_patch(line: &str, entry_index_provider: &mut EntryIndexProvider) -> (r: ConversationPatch)
    requires
        old(entry_index_provider).has_room(1),
    ensures
        r matches ConversationPatch::Add { index, entry } && index == old(entry_index_provider).view_index()
            && entry.entry_type is AssistantMessage && entry.content@ == ansi_stripped(line@),
        final(entry_index_provider).view_index() == old(entry_index_provider).view_index() + 1,
{
    let index = entry_index_provider.next();
    ConversationPatch::Add {
        index,
        entry: NormalizedEntry { entry_type: NormalizedEntryType::AssistantMessage, content: strip_ansi(line) },
    }
}

/// The patch for a line of error output: nothing for a blank line; else the line, without ANSI
/// escapes, as an error.
pub fn stderr_line_patch(line: &str, entry_index_provider: &mut EntryIndexProvider) -> (r: Option<ConversationPatch>)
    requires
        old(entry_index_provider).has_room(1),
    ensures
        r is None <==> trimmed(line@).len() == 0,
        r is None ==> final(entry_index_provider).view_index() == old(entry_index_provider).view_index(),
        r matches Some(p) ==> (p matches ConversationPatch::Add { index, entry } && index == old(entry_index_provider).view_index()
            && entry.entry_type is ErrorMessage && entry.content@ == ansi_stripped(line@)
            && final(entry_index_provider).view_index() == old(entry_index_provider).view_index() + 1),
{
    if trim(line).as_str().unicode_len() == 0 {
        return None;
    }
    let index = entry_index_provider.next();
    Some(ConversationPatch::Add {
        index,
        entry: NormalizedEntry { entry_type: NormalizedEntryType::ErrorMessage, content: strip_ansi(line) },
    })
}

/// Where the configuration lives in the asset directory.
pub open spec fn joined_path(dir: Seq<char>, name: Seq<char>) -> Seq<char> {
    if dir.len() == 0 || dir.last() == '/' {
        dir + name
    } else {
        dir + "/"@ + name
    }
}

fn join_path(dir: &str, name: &str) -> (r: String)
    ensures
        r@ == joined_path(dir@, name@),
{
    let n = dir.unicode_len();
    let mut s = String::from_str(dir);
    if n > 0 && dir.get_char(n - 1) != '/' {
        s.append("/");
    }
    s.append(name);
    s
}

/// The configuration file in the asset directory `asset_dir`.
pub fn config_path(asset_dir: &str) -> (r: String)
    ensures
        r@ == joined_path(asset_dir@, "config.json"@),
{
    join_path(asset_dir, "config.json")
}

/// The profiles file in the asset directory `asset_dir`.
pub fn profiles_path(asset_dir: &str) -> (r: String)
    ensures
        r@ == joined_path(asset_dir@, "profiles.json"@),
{
    join_path(asset_dir, "profiles.json")
}

} // verus!
