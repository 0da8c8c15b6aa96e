//! How far the agent may act on its own: the modes to choose from, what each means in the
//! settings, and which one the settings amount to.
use serde_json::Value;
use vstd::prelude::*;

verus! {

/// How far the agent may act on its own.
#[derive(Clone, Copy, Debug, PartialEq, Eq, Structural)]
pub enum ActionApprovalMode {
    Ask,
    Approve,
    FullAccess,
    /// Whatever the settings say.
    Custom,
}

/// The icon of a mode.
#[derive(Clone, Copy, Debug, PartialEq, Eq, Structural)]
pub enum ApprovalIcon {
    LockOutlined,
    UserCheck,
    Public,
    Settings,
}

impl ActionApprovalMode {
    pub open spec fn title_text(self) -> Seq<char> {
        match self {
            ActionApprovalMode::Ask => "Ask for approval"@,
            ActionApprovalMode::Approve => "Approve for me"@,
            ActionApprovalMode::FullAccess => "Full access"@,
            ActionApprovalMode::Custom => "Custom (settings.json)"@,
        }
    }

    pub open spec fn description_text(self) -> Seq<char> {
        match self {
            ActionApprovalMode::Ask =>
                "Always ask before tool actions, network access, and sandbox escapes."@,
            ActionApprovalMode::Approve =>
                "Only ask for actions detected as potentially unsafe."@,
            ActionApprovalMode::FullAccess =>
                "Unrestricted access to the internet and any file on your computer."@,
            ActionApprovalMode::Custom => "Uses permissions defined in settings.json."@,
        }
    }

    pub open spec fn its_icon(self) -> ApprovalIcon {
        match self {
            ActionApprovalMode::Ask => ApprovalIcon::LockOutlined,
            ActionApprovalMode::Approve => ApprovalIcon::UserCheck,
            ActionApprovalMode::FullAccess => ApprovalIcon::Public,
            ActionApprovalMode::Custom => ApprovalIcon::Settings,
        }
    }

    /// The mode after this one; the first comes after the last.
    pub open spec fn following(self) -> Self {
        match self {
            ActionApprovalMode::Ask => ActionApprovalMode::Approve,
            ActionApprovalMode::Approve => ActionApprovalMode::FullAccess,
            ActionApprovalMode::FullAccess => ActionApprovalMode::Custom,
            ActionApprovalMode::Custom => ActionApprovalMode::Ask,
        }
    }

    pub fn title(self) -> (title: &'static str)
        ensures
            title@ == self.title_text(),
    {
        match self {
            ActionApprovalMode::Ask => "Ask for approval",
            ActionApprovalMode::Approve => "Approve for me",
            ActionApprovalMode::FullAccess => "Full access",
            ActionApprovalMode::Custom => "Custom (settings.json)",
        }
    }

    pub fn description(self) -> (description: &'static str)
        ensures
            description@ == self.description_text(),
    {
        match self {
            ActionApprovalMode::Ask =>
                "Always ask before tool actions, network access, and sandbox escapes.",
            ActionApprovalMode::Approve => "Only ask for actions detected as potentially unsafe.",
            ActionApprovalMode::FullAccess =>
                "Unrestricted access to the internet and any file on your computer.",
            ActionApprovalMode::Custom => "Uses permissions defined in settings.json.",
        }
    }

    pub fn icon(self) -> (icon: ApprovalIcon)
        ensures
            icon == self.its_icon(),
    {
        match self {
            ActionApprovalMode::Ask => ApprovalIcon::LockOutlined,
            ActionApprovalMode::Approve => ApprovalIcon::UserCheck,
            ActionApprovalMode::FullAccess => ApprovalIcon::Public,
            ActionApprovalMode::Custom => ApprovalIcon::Settings,
        }
    }
}

/// The modes, in the order in which they are offered.
pub open spec fn approval_modes() -> Seq<ActionApprovalMode> {
    seq![
        ActionApprovalMode::Ask,
        ActionApprovalMode::Approve,
        ActionApprovalMode::FullAccess,
        ActionApprovalMode::Custom,
    ]
}

/// Lists the modes.
pub fn action_approval_modes() -> (modes: Vec<ActionApprovalMode>)
    ensures
        modes@ == approval_modes(),
{
    let modes = vec![
        ActionApprovalMode::Ask,
        ActionApprovalMode::Approve,
        ActionApprovalMode::FullAccess,
        ActionApprovalMode::Custom,
    ];
    assert(modes@ =~= approval_modes());
    modes
}

/// What happens to a tool action that no rule speaks of.
#[derive(Clone, Copy, Debug, PartialEq, Eq, Structural)]
pub enum ToolPermissionMode {
    Allow,
    Deny,
    Confirm,
}

/// What tools may do.
#[derive(Debug)]
pub struct ToolPermissions {
    pub default: ToolPermissionMode,
    /// The rules for single tools, by their names.
    pub tools: Vec<(String, Value)>,
}

/// What the sandbox lets through.
#[derive(Debug)]
pub struct SandboxPermissions {
    pub allow_unsandboxed: bool,
    pub allow_all_hosts: bool,
    pub allow_fs_write_all: bool,
    pub network_hosts: Vec<String>,
    pub write_paths: Vec<String>,
}

/// The settings of the agent that the modes are about.
#[derive(Debug)]
pub struct AgentSettings {
    pub tool_permissions: ToolPermissions,
    pub sandbox_permissions: SandboxPermissions,
}

impl SandboxPermissions {
    /// Whether the sandbox lets nothing through.
    pub open spec fn is_restrictive(&self) -> bool {
        &&& !self.allow_unsandboxed
        &&& !self.allow_all_hosts
        &&& !self.allow_fs_write_all
        &&& self.network_hosts@.len() == 0
        &&& self.write_paths@.len() == 0
    }
}

/// The mode that settings amount to.
pub open spec fn mode_of(settings: AgentSettings) -> ActionApprovalMode {
    let sandbox = settings.sandbox_permissions;
    let default = settings.tool_permissions.default;
    if settings.tool_permissions.tools@.len() > 0 {
        ActionApprovalMode::Custom
    } else if default == ToolPermissionMode::Confirm && sandbox.is_restrictive() {
        ActionApprovalMode::Ask
    } else if default == ToolPermissionMode::Allow && sandbox.is_restrictive() {
        ActionApprovalMode::Approve
    } else if default == ToolPermissionMode::Allow && sandbox.allow_unsandboxed {
        ActionApprovalMode::FullAccess
    } else {
        ActionApprovalMode::Custom
    }
}

/// Tells which mode settings amount to.
pub fn current_action_approval_mode(settings: &AgentSettings) -> (mode: ActionApprovalMode)
    ensures
        mode == mode_of(*settings),
{
    if settings.tool_permissions.tools.len() > 0 {
        return ActionApprovalMode::Custom;
    }
    let sandbox = &settings.sandbox_permissions;
    let restrictive_sandbox = !sandbox.allow_unsandboxed && !sandbox.allow_all_hosts
        && !sandbox.allow_fs_write_all && sandbox.network_hosts.len() == 0
        && sandbox.write_paths.len() == 0;
    match settings.tool_permissions.default {
        ToolPermissionMode::Confirm => if restrictive_sandbox {
            ActionApprovalMode::Ask
        } else {
            ActionApprovalMode::Custom
        },
        ToolPermissionMode::Allow => if restrictive_sandbox {
            ActionApprovalMode::Approve
        } else if sandbox.allow_unsandboxed {
            ActionApprovalMode::FullAccess
        } else {
            ActionApprovalMode::Custom
        },
        ToolPermissionMode::Deny => ActionApprovalMode::Custom,
    }
}

/// What the user's settings say of tools; what is missing is as by default.
#[derive(Debug)]
pub struct ToolPermissionsContent {
    pub default: Option<ToolPermissionMode>,
    pub tools: Vec<(String, Value)>,
}

/// What the user's settings say of the sandbox; what is missing is as by default.
#[derive(Debug)]
pub struct SandboxPermissionsContent {
    pub allow_unsandboxed: Option<bool>,
    pub allow_all_hosts: Option<bool>,
    pub allow_fs_write_all: Option<bool>,
    pub network_hosts: Option<Vec<String>>,
    pub write_paths: Option<Vec<String>>,
}

/// What the user's settings say of the agent, as far as the modes are about it.
#[derive(Debug)]
pub struct AgentSettingsContent {
    pub default_profile: Option<String>,
    pub tool_permissions: Option<ToolPermissionsContent>,
    pub sandbox_permissions: Option<SandboxPermissionsContent>,
}

/// The permissions that a mode other than [`ActionApprovalMode::Custom`] stands for.
pub open spec fn is_set_to(
    content: AgentSettingsContent,
    mode: ActionApprovalMode,
    write_profile: Seq<char>,
) -> bool {
    let full_access = mode == ActionApprovalMode::FullAccess;
    &&& content.default_profile matches Some(profile)
    &&& profile@ == write_profile
    &&& content.tool_permissions matches Some(tools)
    &&& tools.default == Some(
        if mode == ActionApprovalMode::Ask {
            ToolPermissionMode::Confirm
        } else {
            ToolPermissionMode::Allow
        },
    )
    &&& tools.tools@.len() == 0
    &&& content.sandbox_permissions matches Some(sandbox)
    &&& sandbox.allow_unsandboxed == Some(full_access)
    &&& sandbox.allow_all_hosts == Some(full_access)
    &&& sandbox.allow_fs_write_all == Some(full_access)
    &&& sandbox.network_hosts is None
    &&& sandbox.write_paths is None
}

/// Writes a mode into the user's settings. The mode that is whatever the settings say
/// leaves them as they are.
pub fn set_action_approval_mode(
    agent: &mut Option<AgentSettingsContent>,
    mode: ActionApprovalMode,
    write_profile: &str,
)
    ensures
        if mode == ActionApprovalMode::Custom {
            *final(agent) == *old(agent)
        } else {
            *final(agent) matches Some(content) && is_set_to(content, mode, write_profile@)
        },
{
    let default = match mode {
        ActionApprovalMode::Ask => ToolPermissionMode::Confirm,
        ActionApprovalMode::Approve => ToolPermissionMode::Allow,
        ActionApprovalMode::FullAccess => ToolPermissionMode::Allow,
        ActionApprovalMode::Custom => {
            return;
        },
    };
    let full_access = match mode {
        ActionApprovalMode::FullAccess => true,
        _ => false,
    };
    *agent = Some(
        AgentSettingsContent {
            default_profile: Some(write_profile.to_string()),
            tool_permissions: Some(
                ToolPermissionsContent { default: Some(default), tools: Vec::new() },
            ),
            sandbox_permissions: Some(
                SandboxPermissionsContent {
                    allow_unsandboxed: Some(full_access),
                    allow_all_hosts: Some(full_access),
                    allow_fs_write_all: Some(full_access),
                    network_hosts: None,
                    write_paths: None,
                },
            ),
        },
    );
}

/// Whether settings follow what the user's settings say, where by default no hosts and no
/// paths are let through and no rules speak of single tools.
pub open spec fn follows(settings: AgentSettings, content: AgentSettingsContent) -> bool {
    &&& content.tool_permissions matches Some(tools) ==> {
        &&& tools.default matches Some(default) ==> settings.tool_permissions.default == default
        &&& settings.tool_permissions.tools@ == tools.tools@
    }
    &&& content.sandbox_permissions matches Some(sandbox) ==> {
        &&& sandbox.allow_unsandboxed matches Some(allow)
            ==> settings.sandbox_permissions.allow_unsandboxed == allow
        &&& sandbox.allow_all_hosts matches Some(allow)
            ==> settings.sandbox_permissions.allow_all_hosts == allow
        &&& sandbox.allow_fs_write_all matches Some(allow)
            ==> settings.sandbox_permissions.allow_fs_write_all == allow
        &&& settings.sandbox_permissions.network_hosts@ == (match sandbox.network_hosts {
            Some(hosts) => hosts@,
            None => Seq::empty(),
        })
        &&& settings.sandbox_permissions.write_paths@ == (match sandbox.write_paths {
            Some(paths) => paths@,
            None => Seq::empty(),
        })
    }
}

/// The mode that was set is the one that the settings then amount to.
pub proof fn set_mode_is_current(
    content: AgentSettingsContent,
    settings: AgentSettings,
    mode: ActionApprovalMode,
    write_profile: Seq<char>,
)
    requires
        mode != ActionApprovalMode::Custom,
        is_set_to(content, mode, write_profile),
        follows(settings, content),
    ensures
        mode_of(settings) == mode,
{
}

/// Going on four times leads back.
pub proof fn modes_go_round(mode: ActionApprovalMode)
    ensures
        mode.following().following().following().following() == mode,
        mode.following() != mode,
        mode.following().following() != mode,
        approval_modes().contains(mode),
{
    assert(approval_modes()[0] == ActionApprovalMode::Ask);
    assert(approval_modes()[1] == ActionApprovalMode::Approve);
    assert(approval_modes()[2] == ActionApprovalMode::FullAccess);
    assert(approval_modes()[3] == ActionApprovalMode::Custom);
}

/// A row of the menu of modes.
#[derive(Clone, Copy, Debug, PartialEq, Eq)]
pub struct ApprovalRow {
    pub mode: ActionApprovalMode,
    pub title: &'static str,
    pub description: &'static str,
    pub icon: ApprovalIcon,
    /// Whether the row is ticked.
    pub selected: bool,
}

/// Whether a row shows a mode.
pub open spec fn shows_mode(
    row: ApprovalRow,
    mode: ActionApprovalMode,
    current_mode: ActionApprovalMode,
) -> bool {
    &&& row.mode == mode
    &&& row.title@ == mode.title_text()
    &&& row.description@ == mode.description_text()
    &&& row.icon == mode.its_icon()
    &&& row.selected == (mode == current_mode)
}

/// Lists the rows of the menu of modes.
pub fn action_approval_menu(current_mode: ActionApprovalMode) -> (rows: Vec<ApprovalRow>)
    ensures
        rows@.len() == approval_modes().len(),
        forall|i: int|
            0 <= i < rows@.len() ==> shows_mode(
                #[trigger] rows@[i],
                approval_modes()[i],
                current_mode,
            ),
{
    let modes = action_approval_modes();
    let mut rows: Vec<ApprovalRow> = Vec::new();
    let mut i: usize = 0;
    while i < modes.len()
        invariant
            modes@ == approval_modes(),
            i <= modes.len(),
            rows@.len() == i,
            forall|j: int|
                0 <= j < i ==> shows_mode(#[trigger] rows@[j], approval_modes()[j], current_mode),
        decreases modes.len() - i,
    {
        let mode = modes[i];
        rows.push(
            ApprovalRow {
                mode,
                title: mode.title(),
                description: mode.description(),
                icon: mode.icon(),
                selected: mode == current_mode,
            },
        );
        i += 1;
    }
    rows
}

/// What choosing a row does.
#[derive(Clone, Copy, Debug, PartialEq, Eq)]
pub enum MenuAction {
    /// The settings are opened at a path.
    OpenSettings(&'static str),
    SetMode(ActionApprovalMode),
}

/// Decides what choosing a mode does.
pub fn choose_mode(mode: ActionApprovalMode) -> (action: MenuAction)
    ensures
        match action {
            MenuAction::OpenSettings(path) => mode == ActionApprovalMode::Custom && path@
                == "agent.tool_permissions"@,
            MenuAction::SetMode(set) => mode != ActionApprovalMode::Custom && set == mode,
        },
{
    match mode {
        ActionApprovalMode::Custom => MenuAction::OpenSettings("agent.tool_permissions"),
        _ => MenuAction::SetMode(mode),
    }
}

/// What the selector shows.
#[derive(Clone, Copy, Debug, PartialEq, Eq)]
pub enum SelectorContent {
    /// Nothing, since no model is selected.
    Nothing,
    /// A button that cannot be pressed.
    ToolsUnsupported { label: &'static str, tooltip: &'static str },
    /// A button that opens the menu.
    Selector { label: &'static str, points_up: bool },
}

/// The selector of modes.
#[derive(Debug, PartialEq, Eq)]
pub struct ProfileSelector {
    /// Whether the menu is open.
    pub menu_is_deployed: bool,
}

impl ProfileSelector {
    pub fn new() -> (selector: Self)
        ensures
            !selector.menu_is_deployed,
    {
        ProfileSelector { menu_is_deployed: false }
    }

    /// The mode to set when the user asks for the next one; none where the model has no
    /// tools.
    pub fn cycle_profile(&self, profiles_supported: bool, settings: &AgentSettings) -> (next: Option<
        ActionApprovalMode,
    >)
        ensures
            next == (if profiles_supported {
                Some(mode_of(*settings).following())
            } else {
                None
            }),
    {
        if !profiles_supported {
            return None;
        }
        let modes = action_approval_modes();
        let current_mode = current_action_approval_mode(settings);
        let mut current_index: usize = 0;
        let mut i: usize = 0;
        while i < modes.len()
            invariant
                modes@ == approval_modes(),
                i <= modes.len(),
                current_index < 4,
                forall|j: int| 0 <= j < i && modes@[j] == current_mode ==> current_index == j,
            decreases modes.len() - i,
        {
            if modes[i] == current_mode {
                current_index = i;
            }
            i += 1;
        }
        assert(modes@[0] == current_mode || modes@[1] == current_mode || modes@[2] == current_mode
            || modes@[3] == current_mode);
        Some(modes[(current_index + 1) % modes.len()])
    }

    /// What the selector shows.
    pub fn content(
        &self,
        model_selected: bool,
        profiles_supported: bool,
        settings: &AgentSettings,
    ) -> (content: SelectorContent)
        ensures
            match content {
                SelectorContent::Nothing => !model_selected,
                SelectorContent::ToolsUnsupported { label, tooltip } => model_selected
                    && !profiles_supported && label@ == "Tools Unsupported"@ && tooltip@
                    == "This model does not support tools."@,
                SelectorContent::Selector { label, points_up } => model_selected
                    && profiles_supported && label@ == mode_of(*settings).title_text() && points_up
                    == self.menu_is_deployed,
            },
    {
        if !model_selected {
            SelectorContent::Nothing
        } else if !profiles_supported {
            SelectorContent::ToolsUnsupported {
                label: "Tools Unsupported",
                tooltip: "This model does not support tools.",
            }
        } else {
            SelectorContent::Selector {
                label: current_action_approval_mode(settings).title(),
                points_up: self.menu_is_deployed,
            }
        }
    }
}

/// What the modes mean: the agent asks where tools need confirmation and the sandbox lets
/// nothing through, is approved where tools are allowed and the sandbox lets nothing through,
/// and has full access where tools are allowed outside the sandbox. Rules for single tools,
/// and everything else, make the settings custom.
pub proof fn modes_mean_permissions(settings: AgentSettings)
    ensures
        ({
            let tools = settings.tool_permissions;
            let sandbox = settings.sandbox_permissions;
            let nothing_through = !sandbox.allow_unsandboxed && !sandbox.allow_all_hosts
                && !sandbox.allow_fs_write_all && sandbox.network_hosts@.len() == 0
                && sandbox.write_paths@.len() == 0;
            let mode = mode_of(settings);
            &&& mode == ActionApprovalMode::Ask <==> (tools.tools@.len() == 0 && tools.default
                == ToolPermissionMode::Confirm && nothing_through)
            &&& mode == ActionApprovalMode::Approve <==> (tools.tools@.len() == 0 && tools.default
                == ToolPermissionMode::Allow && nothing_through)
            &&& mode == ActionApprovalMode::FullAccess <==> (tools.tools@.len() == 0
                && tools.default == ToolPermissionMode::Allow && sandbox.allow_unsandboxed)
            &&& tools.tools@.len() > 0 ==> mode == ActionApprovalMode::Custom
            &&& tools.default == ToolPermissionMode::Deny ==> mode == ActionApprovalMode::Custom
            &&& sandbox.is_restrictive() <==> nothing_through
        }),
{
}

/// Writing a mode sets each permission: tools are confirmed only in the mode that asks, the
/// sandbox is opened only by full access, and no rules, hosts or paths are left.
pub proof fn setting_a_mode_sets_every_permission(
    content: AgentSettingsContent,
    mode: ActionApprovalMode,
    write_profile: Seq<char>,
)
    requires
        is_set_to(content, mode, write_profile),
    ensures
        content.default_profile is Some && content.default_profile->0@ == write_profile,
        content.tool_permissions is Some,
        content.tool_permissions->0.tools@.len() == 0,
        mode == ActionApprovalMode::Ask ==> content.tool_permissions->0.default == Some(
            ToolPermissionMode::Confirm,
        ),
        mode == ActionApprovalMode::Approve ==> content.tool_permissions->0.default == Some(
            ToolPermissionMode::Allow,
        ),
        mode == ActionApprovalMode::FullAccess ==> content.tool_permissions->0.default == Some(
            ToolPermissionMode::Allow,
        ),
        content.sandbox_permissions is Some,
        ({
            let sandbox = content.sandbox_permissions->0;
            &&& sandbox.allow_unsandboxed == Some(mode == ActionApprovalMode::FullAccess)
            &&& sandbox.allow_all_hosts == Some(mode == ActionApprovalMode::FullAccess)
            &&& sandbox.allow_fs_write_all == Some(mode == ActionApprovalMode::FullAccess)
            &&& sandbox.network_hosts is None
            &&& sandbox.write_paths is None
        }),
{
}

/// The next mode is the one that is offered next, and after the last the first; the modes are
/// offered from the one that asks most to the one that asks least, and then the custom one.
pub proof fn modes_follow_as_offered(i: int)
    requires
        0 <= i < approval_modes().len(),
    ensures
        approval_modes().len() == 4,
        approval_modes()[i].following() == approval_modes()[(i + 1) % 4],
        approval_modes()[0] == ActionApprovalMode::Ask,
        approval_modes()[1] == ActionApprovalMode::Approve,
        approval_modes()[2] == ActionApprovalMode::FullAccess,
        approval_modes()[3] == ActionApprovalMode::Custom,
{
}

/// Each mode has a title, a description and an icon of its own.
pub proof fn modes_are_told_apart(a: ActionApprovalMode, b: ActionApprovalMode)
    ensures
        a.title_text() == b.title_text() <==> a == b,
        a.description_text() == b.description_text() <==> a == b,
        a.its_icon() == b.its_icon() <==> a == b,
        a.its_icon() is LockOutlined <==> a == ActionApprovalMode::Ask,
        a.its_icon() is UserCheck <==> a == ActionApprovalMode::Approve,
        a.its_icon() is Public <==> a == ActionApprovalMode::FullAccess,
        a.its_icon() is Settings <==> a == ActionApprovalMode::Custom,
        a.title_text() == "Ask for approval"@ <==> a == ActionApprovalMode::Ask,
        a.title_text() == "Approve for me"@ <==> a == ActionApprovalMode::Approve,
        a.title_text() == "Full access"@ <==> a == ActionApprovalMode::FullAccess,
        a.title_text() == "Custom (settings.json)"@ <==> a == ActionApprovalMode::Custom,
        a.description_text()
            == "Always ask before tool actions, network access, and sandbox escapes."@ <==> a
            == ActionApprovalMode::Ask,
        a.description_text() == "Only ask for actions detected as potentially unsafe."@ <==> a
            == ActionApprovalMode::Approve,
        a.description_text()
            == "Unrestricted access to the internet and any file on your computer."@ <==> a
            == ActionApprovalMode::FullAccess,
        a.description_text() == "Uses permissions defined in settings.json."@ <==> a
            == ActionApprovalMode::Custom,
{
    reveal_strlit("Ask for approval");
    reveal_strlit("Approve for me");
    reveal_strlit("Full access");
    reveal_strlit("Custom (settings.json)");
    reveal_strlit("Always ask before tool actions, network access, and sandbox escapes.");
    reveal_strlit("Only ask for actions detected as potentially unsafe.");
    reveal_strlit("Unrestricted access to the internet and any file on your computer.");
    reveal_strlit("Uses permissions defined in settings.json.");
    assert("Ask for approval"@.len() == 16);
    assert("Approve for me"@.len() == 14);
    assert("Full access"@.len() == 11);
    assert("Custom (settings.json)"@.len() == 22);
    assert("Always ask before tool actions, network access, and sandbox escapes."@.len() == 68);
    assert("Only ask for actions detected as potentially unsafe."@.len() == 52);
    assert("Unrestricted access to the internet and any file on your computer."@.len() == 66);
    assert("Uses permissions defined in settings.json."@.len() == 42);
}

/// A row shows its own mode, and is ticked exactly where that is the current one.
pub proof fn rows_show_their_mode(
    row: ApprovalRow,
    mode: ActionApprovalMode,
    current_mode: ActionApprovalMode,
)
    requires
        shows_mode(row, mode, current_mode),
    ensures
        row.mode == mode,
        row.title@ == mode.title_text(),
        row.description@ == mode.description_text(),
        row.icon == mode.its_icon(),
        row.selected <==> mode == current_mode,
{
}

} // verus!
