//! The workbench around the editor: tabs, the footer, the home screen and
//! saved workspaces, and what the application is asked to do.
use vstd::prelude::*;

use crate::command_palette::CommandId;
use crate::editor::Position;
use crate::editor_command::{palette_command, EditorCommand};
use crate::git::{contains_ci_spec, contains_case_insensitive};
use crate::paths::{path_file_name, spec_path_file_name};
use crate::text::{chars_of, decimal, push_decimal, push_str_chars, string_of, trim, trim_chars};

verus! {

/// The full-screen views besides the tabs.
#[derive(Clone, Copy, Debug, PartialEq, Eq, Structural)]
pub enum ActiveView {
    Shells,
    Home,
    Settings,
    Appearances,
}

/// The kinds of tab.
#[derive(Clone, Copy, Debug, PartialEq, Eq, Structural)]
pub enum TabKind {
    Home,
    Terminal,
    Stacker,
    Sketch,
    Git,
    Appearances,
    Settings,
}

/// A tab a saved workspace opens.
#[derive(Clone, Copy, Debug, PartialEq, Eq, Structural)]
pub enum TabEntry {
    Terminal,
    Stacker,
    Sketch,
    Git,
}

/// A saved workspace: a named set of tabs, with a theme and a project.
#[derive(Clone, Debug, PartialEq, Eq)]
pub struct SavedWorkspace {
    pub name: String,
    pub theme: Option<String>,
    pub project_path: Option<String>,
    pub tabs: Vec<TabEntry>,
}

/// What the application is asked to do.
#[derive(Clone, Debug, PartialEq, Eq)]
pub enum AppCommand {
    PickOpenProject,
    NewTerminalTab,
    CloseTab(usize),
    SwitchTab(usize),
    ToggleSidebar,
    ToggleFps,
    OpenSingletonTab(TabKind),
    CopyToClipboard(String),
    OpenProject(String),
    LaunchWorkspace(SavedWorkspace),
}

/// A prompt queued for the terminal, shown as a chip in the footer.
#[derive(Clone, Debug, PartialEq, Eq)]
pub struct FooterQueuePrompt {
    pub letter: char,
    pub preview: String,
    pub clipboard_text: String,
}

/// What a click in the footer asks for.
#[derive(Clone, Debug, PartialEq, Eq)]
pub enum FooterAction {
    /// Show an overlay view.
    ShowOverlay(ActiveView),
    /// Open or focus a singleton tab.
    OpenSingletonTab(TabKind),
    /// Create a new terminal tab.
    NewTerminalTab,
    /// Copy a queued prompt into the clipboard.
    CopyQueuedPrompt(String),
}

/// What the home screen asks for.
pub struct HomeAction {
    pub nav_target: Option<ActiveView>,
    pub open_project: Option<String>,
    pub launch_workspace: Option<SavedWorkspace>,
}

/// What the settings screen asks for.
pub struct SettingsRenderOutput {
    pub launch_workspace: Option<SavedWorkspace>,
}

/// What the workspace section of the settings asks for.
pub enum WorkspaceAction {
    Launch(SavedWorkspace),
}

/// How a palette command is carried out: by the editor, by the
/// application, by toggling the effects, or not at all.
#[derive(Clone, Debug, PartialEq, Eq)]
pub enum PaletteDispatch {
    Editor(EditorCommand),
    App(AppCommand),
    ToggleEffects,
    Nothing,
}

/// The tab kinds that exist at most once.
pub open spec fn is_singleton(kind: TabKind) -> bool {
    kind == TabKind::Stacker || kind == TabKind::Sketch
}

/// The active tab, when it is a singleton tab.
pub fn active_singleton_tab(active_tab_kind: Option<TabKind>) -> (r: Option<TabKind>)
    ensures
        r == (match active_tab_kind {
            Some(k) => if is_singleton(k) {
                Some(k)
            } else {
                None
            },
            None => None,
        }),
{
    match active_tab_kind {
        Some(TabKind::Stacker) => Some(TabKind::Stacker),
        Some(TabKind::Sketch) => Some(TabKind::Sketch),
        _ => None,
    }
}

/// Whether something covers the terminal: an overlay view, or any tab but
/// a terminal.
pub fn settings_open(active_view: ActiveView, active_tab_kind: Option<TabKind>) -> (b: bool)
    ensures
        b == (active_view == ActiveView::Home || active_view == ActiveView::Appearances
            || active_view == ActiveView::Settings || active_tab_kind != Some(TabKind::Terminal)),
{
    match active_view {
        ActiveView::Home | ActiveView::Appearances | ActiveView::Settings => true,
        ActiveView::Shells => match active_tab_kind {
            Some(TabKind::Terminal) => false,
            _ => true,
        },
    }
}

/// Whether the active tab takes the keyboard away from the terminal: only
/// the sketch tab does.
pub fn captures_terminal_input(active_tab_kind: Option<TabKind>) -> (b: bool)
    ensures
        b == (active_tab_kind == Some(TabKind::Sketch)),
{
    match active_tab_kind {
        Some(TabKind::Sketch) => true,
        _ => false,
    }
}

/// The plain part of the window's interface state: the tab whose name is
/// being edited, the tab bar's context, and whether the terminal panel is
/// open.
#[derive(Clone, Debug)]
pub struct UiState {
    pub editing_tab: Option<usize>,
    pub editing_tab_text: String,
    pub tab_count: usize,
    pub active_tab_index: usize,
    pub terminal_panel_open: bool,
}

impl UiState {
    /// No tab being renamed, no tabs, the terminal panel closed.
    pub fn new() -> (s: Self)
        ensures
            s.editing_tab is None,
            s.editing_tab_text@.len() == 0,
            s.tab_count == 0,
            s.active_tab_index == 0,
            !s.terminal_panel_open,
    {
        UiState {
            editing_tab: None,
            editing_tab_text: String::new(),
            tab_count: 0,
            active_tab_index: 0,
            terminal_panel_open: false,
        }
    }

    /// Opens the terminal panel when it is closed, and closes it when open.
    pub fn toggle_terminal_panel(&mut self)
        ensures
            final(self).terminal_panel_open == !old(self).terminal_panel_open,
            final(self).editing_tab == old(self).editing_tab,
            final(self).editing_tab_text@ == old(self).editing_tab_text@,
            final(self).tab_count == old(self).tab_count,
            final(self).active_tab_index == old(self).active_tab_index,
    {
        self.terminal_panel_open = !self.terminal_panel_open;
    }

    /// Starts editing the name of tab `tab_index`, beginning from its
    /// current name, or from nothing when it has none.
    pub fn start_editing_tab(&mut self, tab_index: usize, current_name: Option<&str>)
        ensures
            final(self).editing_tab == Some(tab_index),
            final(self).editing_tab_text@ == match current_name {
                Some(n) => n@,
                None => Seq::<char>::empty(),
            },
            final(self).tab_count == old(self).tab_count,
            final(self).active_tab_index == old(self).active_tab_index,
            final(self).terminal_panel_open == old(self).terminal_panel_open,
    {
        self.editing_tab = Some(tab_index);
        self.editing_tab_text = match current_name {
            Some(n) => n.to_string(),
            None => String::new(),
        };
    }

    /// Stops editing a tab's name without keeping what was typed.
    pub fn cancel_editing_tab(&mut self)
        ensures
            final(self).editing_tab is None,
            final(self).editing_tab_text@.len() == 0,
            final(self).tab_count == old(self).tab_count,
            final(self).active_tab_index == old(self).active_tab_index,
            final(self).terminal_panel_open == old(self).terminal_panel_open,
    {
        self.editing_tab = None;
        self.editing_tab_text = String::new();
    }

    /// Records how many tabs there are and which one is active.
    pub fn set_tab_context(&mut self, tab_count: usize, active_tab_index: usize)
        ensures
            final(self).tab_count == tab_count,
            final(self).active_tab_index == active_tab_index,
            final(self).editing_tab == old(self).editing_tab,
            final(self).editing_tab_text@ == old(self).editing_tab_text@,
            final(self).terminal_panel_open == old(self).terminal_panel_open,
    {
        self.tab_count = tab_count;
        self.active_tab_index = active_tab_index;
    }
}

/// The command that opens `project`, if one was picked.
pub open spec fn project_commands(project: Option<String>) -> Seq<AppCommand> {
    match project {
        Some(p) => seq![AppCommand::OpenProject(p)],
        None => Seq::empty(),
    }
}

/// The command that launches `workspace`, if one was picked.
pub open spec fn workspace_commands(workspace: Option<SavedWorkspace>) -> Seq<AppCommand> {
    match workspace {
        Some(w) => seq![AppCommand::LaunchWorkspace(w)],
        None => Seq::empty(),
    }
}

/// Carries out what the home screen asked for: a navigation target
/// replaces the current one, and opening a project or launching a
/// workspace become application commands, in that order.
pub fn apply_home_action(
    action: HomeAction,
    nav_target: &mut Option<ActiveView>,
    commands: &mut Vec<AppCommand>,
)
    ensures
        *final(nav_target) == (if action.nav_target is Some {
            action.nav_target
        } else {
            *old(nav_target)
        }),
        final(commands)@ == old(commands)@ + project_commands(action.open_project)
            + workspace_commands(action.launch_workspace),
{
    let ghost start = commands@;
    let ghost a = project_commands(action.open_project);
    let ghost b = workspace_commands(action.launch_workspace);
    if action.nav_target.is_some() {
        *nav_target = action.nav_target;
    }
    match action.open_project {
        Some(p) => {
            commands.push(AppCommand::OpenProject(p));
        },
        None => {},
    }
    assert(commands@ =~= start + a);
    let ghost mid = commands@;
    match action.launch_workspace {
        Some(w) => {
            commands.push(AppCommand::LaunchWorkspace(w));
        },
        None => {},
    }
    assert(commands@ =~= mid + b);
}

/// The settings surfaces push their configuration to the application
/// every frame.
pub fn settings_surface_active(active_tab_kind: Option<TabKind>) -> (b: bool)
    ensures
        b == (active_tab_kind == Some(TabKind::Appearances) || active_tab_kind == Some(
            TabKind::Settings,
        )),
{
    match active_tab_kind {
        Some(TabKind::Appearances) | Some(TabKind::Settings) => true,
        _ => false,
    }
}

/// Carries out a footer click: an overlay becomes the navigation target;
/// tab requests and clipboard copies become application commands.
pub fn apply_footer_action(
    action: FooterAction,
    nav_target: &mut Option<ActiveView>,
    commands: &mut Vec<AppCommand>,
)
    ensures
        match action {
            FooterAction::ShowOverlay(view) => *final(nav_target) == Some(view)
                && final(commands)@ == old(commands)@,
            FooterAction::OpenSingletonTab(kind) => *final(nav_target) == *old(nav_target)
                && final(commands)@ == old(commands)@.push(AppCommand::OpenSingletonTab(kind)),
            FooterAction::NewTerminalTab => *final(nav_target) == *old(nav_target)
                && final(commands)@ == old(commands)@.push(AppCommand::NewTerminalTab),
            FooterAction::CopyQueuedPrompt(text) => *final(nav_target) == *old(nav_target)
                && final(commands)@ == old(commands)@.push(AppCommand::CopyToClipboard(text)),
        },
{
    match action {
        FooterAction::ShowOverlay(view) => {
            *nav_target = Some(view);
        },
        FooterAction::OpenSingletonTab(kind) => {
            commands.push(AppCommand::OpenSingletonTab(kind));
        },
        FooterAction::NewTerminalTab => {
            commands.push(AppCommand::NewTerminalTab);
        },
        FooterAction::CopyQueuedPrompt(text) => {
            commands.push(AppCommand::CopyToClipboard(text));
        },
    }
}

/// The tab a step to the previous tab lands on: the one before, wrapping
/// from the first to the last.
pub open spec fn previous_tab(active: usize, count: usize) -> usize {
    if active >= 1 {
        (active - 1) as usize
    } else {
        (count - 1) as usize
    }
}

/// How the palette command `id` is carried out, with `active_tab_index`
/// the active tab among `tab_count` tabs.
pub open spec fn dispatch_spec(id: CommandId, active_tab_index: usize, tab_count: usize) -> PaletteDispatch {
    match palette_command(id) {
        Some(c) => PaletteDispatch::Editor(c),
        None => match id {
            CommandId::OpenWorkspace => PaletteDispatch::App(AppCommand::PickOpenProject),
            CommandId::NewTab | CommandId::ToggleTerminal => PaletteDispatch::App(
                AppCommand::NewTerminalTab,
            ),
            CommandId::CloseTab => PaletteDispatch::App(AppCommand::CloseTab(active_tab_index)),
            CommandId::NextTab => if tab_count > 0 {
                PaletteDispatch::App(
                    AppCommand::SwitchTab(((active_tab_index + 1) % (tab_count as int)) as usize),
                )
            } else {
                PaletteDispatch::Nothing
            },
            CommandId::PrevTab => if tab_count > 0 {
                PaletteDispatch::App(AppCommand::SwitchTab(previous_tab(active_tab_index, tab_count)))
            } else {
                PaletteDispatch::Nothing
            },
            CommandId::ToggleSidebar => PaletteDispatch::App(AppCommand::ToggleSidebar),
            CommandId::ToggleFps => PaletteDispatch::App(AppCommand::ToggleFps),
            CommandId::ToggleEffects => PaletteDispatch::ToggleEffects,
            _ => PaletteDispatch::Nothing,
        },
    }
}

/// How the palette command `id` is carried out: editor commands go to the
/// editor; the others become application commands.
pub fn palette_dispatch(id: CommandId, active_tab_index: usize, tab_count: usize) -> (r:
    PaletteDispatch)
    requires
        active_tab_index < usize::MAX,
    ensures
        r == dispatch_spec(id, active_tab_index, tab_count),
{
    match EditorCommand::from_palette(id) {
        Some(c) => {
            return PaletteDispatch::Editor(c);
        },
        None => {},
    }
    match id {
        CommandId::OpenWorkspace => PaletteDispatch::App(AppCommand::PickOpenProject),
        CommandId::NewTab | CommandId::ToggleTerminal => PaletteDispatch::App(
            AppCommand::NewTerminalTab,
        ),
        CommandId::CloseTab => PaletteDispatch::App(AppCommand::CloseTab(active_tab_index)),
        CommandId::NextTab => if tab_count > 0 {
            PaletteDispatch::App(AppCommand::SwitchTab((active_tab_index + 1) % tab_count))
        } else {
            PaletteDispatch::Nothing
        },
        CommandId::PrevTab => if tab_count > 0 {
            let target = if active_tab_index >= 1 {
                active_tab_index - 1
            } else {
                tab_count - 1
            };
            PaletteDispatch::App(AppCommand::SwitchTab(target))
        } else {
            PaletteDispatch::Nothing
        },
        CommandId::ToggleSidebar => PaletteDispatch::App(AppCommand::ToggleSidebar),
        CommandId::ToggleFps => PaletteDispatch::App(AppCommand::ToggleFps),
        CommandId::ToggleEffects => PaletteDispatch::ToggleEffects,
        _ => PaletteDispatch::Nothing,
    }
}

/// Stepping to the next tab and back to the previous one returns to the
/// starting tab.
pub proof fn law_next_then_previous_tab(active: usize, count: usize)
    requires
        active < count,
    ensures
        previous_tab(((active + 1) % (count as int)) as usize, count) == active,
{
    if active + 1 < count {
        vstd::arithmetic::div_mod::lemma_small_mod((active + 1) as nat, count as nat);
    } else {
        vstd::arithmetic::div_mod::lemma_mod_self_0(count as int);
    }
}

/// The text of a queued prompt's chip: its letter, a colon and its preview.
pub fn queue_chip_label(prompt: &FooterQueuePrompt) -> (r: String)
    ensures
        r@ == seq![prompt.letter] + ": "@ + prompt.preview@,
{
    let mut v: Vec<char> = Vec::new();
    v.push(prompt.letter);
    push_str_chars(&mut v, ": ");
    push_str_chars(&mut v, prompt.preview.as_str());
    assert(v@ =~= seq![prompt.letter] + ": "@ + prompt.preview@);
    string_of(v.as_slice())
}

/// The singleton tab buttons of the footer, with their labels, in order.
pub fn footer_singletons() -> (v: Vec<(&'static str, TabKind)>)
    ensures
        v@ == seq![
            ("Stacker", TabKind::Stacker),
            ("Sketch", TabKind::Sketch),
            ("Git", TabKind::Git),
            ("Appearances", TabKind::Appearances),
            ("Settings", TabKind::Settings),
        ],
{
    let v = vec![
        ("Stacker", TabKind::Stacker),
        ("Sketch", TabKind::Sketch),
        ("Git", TabKind::Git),
        ("Appearances", TabKind::Appearances),
        ("Settings", TabKind::Settings),
    ];
    assert(v@ =~= seq![
        ("Stacker", TabKind::Stacker),
        ("Sketch", TabKind::Sketch),
        ("Git", TabKind::Git),
        ("Appearances", TabKind::Appearances),
        ("Settings", TabKind::Settings),
    ]);
    v
}

/// The tab a label of the workspace form stands for; anything unknown is a
/// terminal.
pub open spec fn tab_entry_spec(label: Seq<char>) -> TabEntry {
    if label == "Stacker"@ {
        TabEntry::Stacker
    } else if label == "Sketch"@ {
        TabEntry::Sketch
    } else if label == "Git"@ {
        TabEntry::Git
    } else {
        TabEntry::Terminal
    }
}

/// The tab a label of the workspace form stands for.
pub fn tab_entry_for_label(label: &str) -> (t: TabEntry)
    ensures
        t == tab_entry_spec(label@),
{
    let l = label.to_string();
    if l == "Stacker".to_string() {
        TabEntry::Stacker
    } else if l == "Sketch".to_string() {
        TabEntry::Sketch
    } else if l == "Git".to_string() {
        TabEntry::Git
    } else {
        TabEntry::Terminal
    }
}

/// The workspace the form describes, when its trimmed name is not empty:
/// the trimmed name, the theme unless empty, the trimmed project path
/// unless empty, and a tab for each label.
pub fn workspace_from_form(name: &str, theme: &str, project: &str, tab_labels: &[String]) -> (r:
    Option<SavedWorkspace>)
    ensures
        match r {
            None => trim(name@).len() == 0,
            Some(ws) => {
                &&& trim(name@).len() > 0
                &&& ws.name@ == trim(name@)
                &&& match ws.theme {
                    Some(t) => theme@.len() > 0 && t@ == theme@,
                    None => theme@.len() == 0,
                }
                &&& match ws.project_path {
                    Some(p) => trim(project@).len() > 0 && p@ == trim(project@),
                    None => trim(project@).len() == 0,
                }
                &&& ws.tabs@.len() == tab_labels@.len()
                &&& forall|i: int|
                    0 <= i < tab_labels@.len() ==> ws.tabs@[i] == tab_entry_spec(
                        #[trigger] tab_labels@[i]@,
                    )
            },
        },
{
    let nv = chars_of(name);
    let trimmed_name = trim_chars(nv.as_slice());
    if trimmed_name.len() == 0 {
        return None;
    }
    let tv = chars_of(theme);
    let theme_opt = if tv.len() == 0 {
        None
    } else {
        Some(theme.to_string())
    };
    let pv = chars_of(project);
    let trimmed_project = trim_chars(pv.as_slice());
    let project_opt = if trimmed_project.len() == 0 {
        None
    } else {
        Some(string_of(trimmed_project.as_slice()))
    };
    let mut tabs: Vec<TabEntry> = Vec::new();
    let mut i: usize = 0;
    while i < tab_labels.len()
        invariant
            i <= tab_labels.len(),
            tabs@.len() == i,
            forall|j: int| 0 <= j < i ==> tabs@[j] == tab_entry_spec(#[trigger] tab_labels@[j]@),
        decreases tab_labels.len() - i,
    {
        tabs.push(tab_entry_for_label(tab_labels[i].as_str()));
        i += 1;
    }
    Some(
        SavedWorkspace {
            name: string_of(trimmed_name.as_slice()),
            theme: theme_opt,
            project_path: project_opt,
            tabs,
        },
    )
}

/// The file name of a path, or "?" when it has none.
pub open spec fn project_name(path: Seq<char>) -> Seq<char> {
    match spec_path_file_name(path) {
        Some(n) => n,
        None => "?"@,
    }
}

/// The tab count of a workspace, with its noun: "1 tab", "3 tabs".
pub open spec fn tab_count_text(n: nat) -> Seq<char> {
    decimal(n) + if n == 1 {
        " tab"@
    } else {
        " tabs"@
    }
}

/// The details line of a workspace in the settings: its theme, its
/// project's name and its tab count, separated by bars.
pub open spec fn workspace_details_spec(ws: SavedWorkspace) -> Seq<char> {
    (match ws.theme {
        Some(t) => "Theme: "@ + t@ + "  |  "@,
        None => Seq::empty(),
    }) + (match ws.project_path {
        Some(p) => "Project: "@ + project_name(p@) + "  |  "@,
        None => Seq::empty(),
    }) + tab_count_text(ws.tabs@.len())
}

/// The details line of a workspace in the settings.
pub fn workspace_details(ws: &SavedWorkspace) -> (r: String)
    ensures
        r@ == workspace_details_spec(*ws),
{
    let mut v: Vec<char> = Vec::new();
    match &ws.theme {
        Some(t) => {
            push_str_chars(&mut v, "Theme: ");
            push_str_chars(&mut v, t.as_str());
            push_str_chars(&mut v, "  |  ");
            assert(v@ =~= "Theme: "@ + t@ + "  |  "@);
        },
        None => {},
    }
    let ghost before_project = v@;
    match &ws.project_path {
        Some(p) => {
            let name = match path_file_name(p.as_str()) {
                Some(n) => n,
                None => "?".to_string(),
            };
            push_str_chars(&mut v, "Project: ");
            push_str_chars(&mut v, name.as_str());
            push_str_chars(&mut v, "  |  ");
            assert(v@ =~= before_project + ("Project: "@ + project_name(p@) + "  |  "@));
        },
        None => {
            assert(v@ =~= before_project + Seq::<char>::empty());
        },
    }
    let ghost before_count = v@;
    push_decimal(&mut v, ws.tabs.len());
    if ws.tabs.len() == 1 {
        push_str_chars(&mut v, " tab");
    } else {
        push_str_chars(&mut v, " tabs");
    }
    assert(v@ =~= before_count + tab_count_text(ws.tabs@.len()));
    string_of(v.as_slice())
}

/// The settings ask to launch the workspace a workspace action names.
pub fn apply_workspace_action(action: WorkspaceAction, output: &mut SettingsRenderOutput)
    ensures
        match action {
            WorkspaceAction::Launch(ws) => final(output).launch_workspace == Some(ws),
        },
{
    match action {
        WorkspaceAction::Launch(ws) => {
            output.launch_workspace = Some(ws);
        },
    }
}

/// A completion offered by the language server: the label shown, and the
/// text to insert when it differs from the label.
#[derive(Clone, Debug, PartialEq, Eq)]
pub struct CompletionItem {
    pub label: String,
    pub insert_text: Option<String>,
}

/// The completion popup: the items offered, the selected row, what was
/// typed since it opened, and where it opened.
pub struct CompletionState {
    pub items: Vec<CompletionItem>,
    pub selected: usize,
    /// Filter text typed since the completion was triggered.
    pub filter: String,
    /// Cursor position where completion was triggered.
    pub trigger_line: usize,
    pub trigger_col: usize,
}

/// The most rows the completion popup shows.
pub open spec fn completion_limit() -> nat {
    20
}

/// The items whose label contains the filter, ignoring case, in order.
pub open spec fn matching_items(items: Seq<CompletionItem>, filter: Seq<char>) -> Seq<CompletionItem>
    decreases items.len(),
{
    if items.len() == 0 {
        Seq::empty()
    } else if contains_ci_spec(items.last().label@, filter) {
        matching_items(items.drop_last(), filter).push(items.last())
    } else {
        matching_items(items.drop_last(), filter)
    }
}

/// At most the first `n` of `s`.
pub open spec fn first_n<A>(s: Seq<A>, n: nat) -> Seq<A> {
    if s.len() <= n {
        s
    } else {
        s.take(n as int)
    }
}

/// The rows the completion popup shows: the first twenty items, or with a
/// filter the first twenty whose label contains it, ignoring case.
pub open spec fn completions_shown(c: CompletionState) -> Seq<CompletionItem> {
    if c.filter@.len() == 0 {
        first_n(c.items@, completion_limit())
    } else {
        first_n(matching_items(c.items@, c.filter@), completion_limit())
    }
}

/// The rows the completion popup shows, if it is open.
pub fn filtered_completions<'a>(completion: Option<&'a CompletionState>) -> (r: Vec<
    &'a CompletionItem,
>)
    ensures
        r@.map_values(|c: &CompletionItem| *c) == match completion {
            Some(c) => completions_shown(*c),
            None => Seq::empty(),
        },
{
    let state = match completion {
        Some(s) => s,
        None => {
            let r: Vec<&'a CompletionItem> = Vec::new();
            assert(r@.map_values(|c: &CompletionItem| *c) =~= Seq::<CompletionItem>::empty());
            return r;
        },
    };
    let fv = chars_of(state.filter.as_str());
    let no_filter = fv.len() == 0;
    let mut r: Vec<&'a CompletionItem> = Vec::new();
    let mut i: usize = 0;
    while i < state.items.len() && r.len() < 20
        invariant
            i <= state.items.len(),
            r@.len() <= 20,
            no_filter == (state.filter@.len() == 0),
            ({
                let all = if no_filter {
                    state.items@.take(i as int)
                } else {
                    matching_items(state.items@.take(i as int), state.filter@)
                };
                r@.map_values(|c: &CompletionItem| *c) == all
            }),
        decreases state.items.len() - i,
    {
        let item = &state.items[i];
        let ghost before = r@;
        assert(state.items@.take(i + 1).drop_last() =~= state.items@.take(i as int));
        if no_filter || contains_case_insensitive(item.label.as_str(), state.filter.as_str()) {
            r.push(item);
            assert(r@.map_values(|c: &CompletionItem| *c) =~= before.map_values(
                |c: &CompletionItem| *c,
            ).push(*item));
        }
        i += 1;
    }
    proof {
        let all_items = if no_filter {
            state.items@
        } else {
            matching_items(state.items@, state.filter@)
        };
        lemma_prefix_limit(state.items@, state.filter@, no_filter, i as int, r@.len() as int);
        if i == state.items.len() {
            assert(state.items@.take(i as int) =~= state.items@);
        }
        assert(r@.map_values(|c: &CompletionItem| *c) =~= first_n(all_items, completion_limit()));
    }
    r
}

/// Once twenty rows were collected from a prefix, the rest of the items
/// adds nothing to the first twenty.
proof fn lemma_prefix_limit(items: Seq<CompletionItem>, filter: Seq<char>, no_filter: bool, i: int, n: int)
    requires
        0 <= i <= items.len(),
        n == (if no_filter {
            items.take(i)
        } else {
            matching_items(items.take(i), filter)
        }).len(),
        n <= 20,
        i == items.len() || n == 20,
    ensures
        ({
            let part = if no_filter {
                items.take(i)
            } else {
                matching_items(items.take(i), filter)
            };
            let all = if no_filter {
                items
            } else {
                matching_items(items, filter)
            };
            part == first_n(all, completion_limit())
        }),
{
    if no_filter {
        if i < items.len() {
            assert(items.take(i) =~= items.take(20));
        } else {
            assert(items.take(i) =~= items);
        }
    } else {
        if i == items.len() {
            assert(items.take(i) =~= items);
        } else {
            lemma_matching_prefix(items, filter, i);
            let all = matching_items(items, filter);
            let part = matching_items(items.take(i), filter);
            assert(part =~= all.take(20));
        }
    }
}

/// The matches of a prefix are a prefix of the matches.
proof fn lemma_matching_prefix(items: Seq<CompletionItem>, filter: Seq<char>, i: int)
    requires
        0 <= i <= items.len(),
    ensures
        matching_items(items.take(i), filter).len() <= matching_items(items, filter).len(),
        matching_items(items.take(i), filter) == matching_items(items, filter).take(
            matching_items(items.take(i), filter).len() as int,
        ),
    decreases items.len() - i,
{
    if i == items.len() {
        assert(items.take(i) =~= items);
    } else {
        lemma_matching_prefix(items, filter, i + 1);
        assert(items.take(i + 1).drop_last() =~= items.take(i));
        let a = matching_items(items.take(i), filter);
        let b = matching_items(items.take(i + 1), filter);
        let all = matching_items(items, filter);
        if b.len() > a.len() {
            assert(b == a.push(items[i]));
            assert(a =~= b.take(a.len() as int));
            assert(a =~= all.take(a.len() as int));
        } else {
            assert(a == b);
        }
    }
}

/// A key that acts on the open completion popup.
#[derive(Clone, Copy, Debug, PartialEq, Eq, Structural)]
pub enum CompletionKey {
    Dismiss,
    Down,
    Up,
    Accept,
}

/// What a key does to the completion popup: close it, select a row, or
/// replace the text from `start_col` up to the cursor on `line` with `text`,
/// put the cursor at `new_col` and close the popup.
#[derive(Clone, Debug, PartialEq, Eq)]
pub enum CompletionStep {
    Close,
    Select(usize),
    Replace { line: usize, start_col: usize, text: String, new_col: usize },
}

/// The key acted on when several completion keys come in one frame:
/// dismissing wins, then moving down, then up, then accepting.
pub fn completion_key(dismiss: bool, down: bool, up: bool, accept: bool) -> (r: Option<
    CompletionKey,
>)
    ensures
        r == if dismiss {
            Some(CompletionKey::Dismiss)
        } else if down {
            Some(CompletionKey::Down)
        } else if up {
            Some(CompletionKey::Up)
        } else if accept {
            Some(CompletionKey::Accept)
        } else {
            None
        },
{
    if dismiss {
        Some(CompletionKey::Dismiss)
    } else if down {
        Some(CompletionKey::Down)
    } else if up {
        Some(CompletionKey::Up)
    } else if accept {
        Some(CompletionKey::Accept)
    } else {
        None
    }
}

/// The text a completion inserts: its insert text, else its label.
pub open spec fn item_text(item: CompletionItem) -> Seq<char> {
    match item.insert_text {
        Some(t) => t@,
        None => item.label@,
    }
}

/// The row selected after moving down: the next one, stopping at the last
/// item (or at row 0 when there are none).
pub open spec fn completion_down(selected: int, count: int) -> int {
    let last = if count > 0 {
        count - 1
    } else {
        0
    };
    if selected + 1 < last {
        selected + 1
    } else {
        last
    }
}

/// What `key` does to the completion popup `c`, whose shown rows are
/// `shown`. Moving down stops at the last of all the items, moving up at
/// the first; accepting inserts the selected shown row's text from where
/// completion was triggered, and closes the popup when no row is selected.
pub fn completion_step(c: &CompletionState, shown: &[CompletionItem], key: CompletionKey) -> (r:
    CompletionStep)
    requires
        key == CompletionKey::Accept && c.selected < shown@.len() ==> c.trigger_col + item_text(
            shown@[c.selected as int],
        ).len() <= usize::MAX,
    ensures
        match key {
            CompletionKey::Dismiss => r == CompletionStep::Close,
            CompletionKey::Down => r == CompletionStep::Select(
                completion_down(c.selected as int, c.items@.len() as int) as usize,
            ),
            CompletionKey::Up => r == CompletionStep::Select(
                if c.selected > 0 {
                    (c.selected - 1) as usize
                } else {
                    0
                },
            ),
            CompletionKey::Accept => if c.selected < shown@.len() {
                r matches CompletionStep::Replace { line, start_col, text, new_col } && line
                    == c.trigger_line && start_col == c.trigger_col && text@ == item_text(
                    shown@[c.selected as int],
                ) && new_col == c.trigger_col + text@.len()
            } else {
                r == CompletionStep::Close
            },
        },
{
    match key {
        CompletionKey::Dismiss => CompletionStep::Close,
        CompletionKey::Down => {
            let last = if c.items.len() > 0 {
                c.items.len() - 1
            } else {
                0
            };
            if c.selected < last {
                CompletionStep::Select(c.selected + 1)
            } else {
                CompletionStep::Select(last)
            }
        },
        CompletionKey::Up => {
            if c.selected > 0 {
                CompletionStep::Select(c.selected - 1)
            } else {
                CompletionStep::Select(0)
            }
        },
        CompletionKey::Accept => {
            if c.selected < shown.len() {
                let item = &shown[c.selected];
                let text = match &item.insert_text {
                    Some(t) => t.clone(),
                    None => item.label.clone(),
                };
                let n = chars_of(text.as_str()).len();
                CompletionStep::Replace {
                    line: c.trigger_line,
                    start_col: c.trigger_col,
                    text,
                    new_col: c.trigger_col + n,
                }
            } else {
                CompletionStep::Close
            }
        },
    }
}

/// The popup after a step: a selection moves the highlighted row; closing
/// or replacing closes it.
pub fn apply_completion_step(completion: &mut Option<CompletionState>, step: &CompletionStep)
    ensures
        match *step {
            CompletionStep::Select(n) => match *old(completion) {
                Some(c) => *final(completion) == Some(CompletionState { selected: n, ..c }),
                None => *final(completion) is None,
            },
            _ => *final(completion) is None,
        },
{
    match step {
        CompletionStep::Select(n) => {
            match completion {
                Some(c) => {
                    c.selected = *n;
                },
                None => {},
            }
        },
        _ => {
            *completion = None;
        },
    }
}

/// The range an edit of the buffer covers, for the language server, from
/// its length in characters before and after and the cursor before and
/// after: `None` when the length did not change; when text was inserted,
/// the empty range at the old cursor (`true`: the inserted text is what
/// now lies between the two cursors); when text was removed, the range
/// from the new cursor to the old one (`false`: nothing is inserted).
pub fn lsp_edit_range(len_before: usize, len_after: usize, before: Position, after: Position) -> (r:
    Option<(Position, Position, bool)>)
    ensures
        r == if len_before == len_after {
            None
        } else if len_after > len_before {
            Some((before, before, true))
        } else {
            Some((after, before, false))
        },
{
    if len_before == len_after {
        None
    } else if len_after > len_before {
        Some((before, before, true))
    } else {
        Some((after, before, false))
    }
}

/// What an edit does to signature help.
#[derive(Clone, Copy, Debug, PartialEq, Eq, Structural)]
pub enum SignatureHelpStep {
    Request,
    Clear,
    Keep,
}

/// After an edit, the character before the cursor decides signature help:
/// `(` and `,` ask for it, `)` clears it, anything else leaves it.
pub fn signature_help_step(prev: Option<char>) -> (r: SignatureHelpStep)
    ensures
        r == match prev {
            Some('(') | Some(',') => SignatureHelpStep::Request,
            Some(')') => SignatureHelpStep::Clear,
            _ => SignatureHelpStep::Keep,
        },
{
    match prev {
        Some('(') | Some(',') => SignatureHelpStep::Request,
        Some(')') => SignatureHelpStep::Clear,
        _ => SignatureHelpStep::Keep,
    }
}

/// The answer to the save prompt.
#[derive(Clone, Copy, Debug, PartialEq, Eq, Structural)]
pub enum SavePromptResponse {
    Save,
    DontSave,
    Cancel,
}

/// What is about to close with unsaved changes: one tab, or the window
/// with its unsaved tabs (index and name).
#[derive(Clone, Debug, PartialEq, Eq)]
pub enum PendingClose {
    Tab(usize, String),
    Window(Vec<(usize, String)>),
}

/// `names` joined with ", ".
pub open spec fn join_names(names: Seq<Seq<char>>) -> Seq<char>
    decreases names.len(),
{
    if names.len() == 0 {
        Seq::empty()
    } else if names.len() == 1 {
        names[0]
    } else {
        join_names(names.drop_last()) + ", "@ + names.last()
    }
}

/// The names of the unsaved tabs.
pub open spec fn tab_names(tabs: Seq<(usize, String)>) -> Seq<Seq<char>> {
    tabs.map_values(|t: (usize, String)| t.1@)
}

/// The sentence of the save prompt for one file.
pub open spec fn one_unsaved(name: Seq<char>) -> Seq<char> {
    seq!['"'] + name + "\" has unsaved changes."@
}

/// What the save prompt says: the file that has unsaved changes, or how
/// many files have them and which.
pub open spec fn save_prompt_body_spec(pending: PendingClose) -> Seq<char> {
    match pending {
        PendingClose::Tab(_, name) => one_unsaved(name@),
        PendingClose::Window(tabs) => if tabs@.len() == 1 {
            one_unsaved(tabs@[0].1@)
        } else {
            decimal(tabs@.len()) + " files have unsaved changes:\n"@ + join_names(tab_names(tabs@))
        },
    }
}

fn push_one_unsaved(v: &mut Vec<char>, name: &str)
    ensures
        final(v)@ == old(v)@ + one_unsaved(name@),
{
    let ghost start = v@;
    v.push('"');
    push_str_chars(v, name);
    push_str_chars(v, "\" has unsaved changes.");
    assert(v@ =~= start + one_unsaved(name@));
}

/// What the save prompt says.
pub fn save_prompt_body(pending: &PendingClose) -> (r: String)
    ensures
        r@ == save_prompt_body_spec(*pending),
{
    let mut v: Vec<char> = Vec::new();
    match pending {
        PendingClose::Tab(_, name) => {
            push_one_unsaved(&mut v, name.as_str());
            assert(v@ =~= one_unsaved(name@));
        },
        PendingClose::Window(tabs) => {
            if tabs.len() == 1 {
                push_one_unsaved(&mut v, tabs[0].1.as_str());
                assert(v@ =~= one_unsaved(tabs@[0].1@));
            } else {
                push_decimal(&mut v, tabs.len());
                assert(v@ =~= decimal(tabs@.len()));
                push_str_chars(&mut v, " files have unsaved changes:\n");
                let ghost head = v@;
                let mut i: usize = 0;
                while i < tabs.len()
                    invariant
                        i <= tabs@.len(),
                        v@ == head + join_names(tab_names(tabs@.take(i as int))),
                    decreases tabs.len() - i,
                {
                    assert(tab_names(tabs@.take(i + 1)).drop_last() =~= tab_names(tabs@.take(i as int)));
                    assert(tab_names(tabs@.take(i + 1)).last() == tabs@[i as int].1@);
                    if i > 0 {
                        push_str_chars(&mut v, ", ");
                    } else {
                        assert(tab_names(tabs@.take(0)).len() == 0);
                    }
                    let ghost before = v@;
                    push_str_chars(&mut v, tabs[i].1.as_str());
                    proof {
                        if i > 0 {
                            assert(v@ =~= head + (join_names(tab_names(tabs@.take(i as int))) + ", "@
                                + tabs@[i as int].1@));
                        } else {
                            assert(v@ =~= head + tabs@[0].1@);
                        }
                    }
                    i += 1;
                }
                assert(tabs@.take(tabs.len() as int) =~= tabs@);
            }
        },
    }
    string_of(v.as_slice())
}

} // verus!
