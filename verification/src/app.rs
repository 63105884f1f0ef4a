//! The application state: the spec, the command path, the flag and argument
//! values of every visited command, the three panels, focus, theme and the
//! event handling that ties them together.

use vstd::prelude::*;

use crate::arg_panel::{ArgPanelAction, ArgPanelComponent, ArgPanelEnterRequest};
use crate::command_builder::{is_global_flag_name, is_global_name, LiveArgPreview};
use crate::matching::{compute_match_scores, item_scores, last_key_index, score_get, MatchScores, ScoreTable};
use crate::command_panel::{CommandPanelAction, CommandPanelComponent};
use crate::command_tree::build_command_tree;
use crate::component::{stopped_inner, wrapped, Component, FilterableComponent, Filterable};
use crate::events::{Action, AppMode, EventResult, FilterAction, Focus, FocusRing, KeyCode, KeyPress, MouseInput, MouseKind};
use crate::flag_panel::{flag_seq, FlagPanelAction, FlagPanelComponent, FlagPanelEnterRequest};
use crate::flag_store::{same_keys, settings_with, store_get, FlagSettings, FlagStore};
use crate::geometry::{Rect, UiLayout};
use crate::help_bar::HelpContext;
use crate::keyed::{key_get, keyed_insert, keyed_position};
use crate::spec_model::{ArgSpec, CliSpec, CommandSpec, FlagSpec};
use crate::text::{join_with_spaces, join_words, str_eq, string_of, views};
use crate::theme_picker::{Theme, ThemePickerAction, ThemePickerComponent, THEME_COUNT};
use crate::values::{same_value, ArgValue, FlagValue};

verus! {

// ── The command reached by the path ─────────────────────────────────

/// Following `path` from `cmd`, stopping at the first name that is not a
/// subcommand: the command reached and whether the walk stopped early.
pub open spec fn path_walk(cmd: CommandSpec, path: Seq<Seq<char>>) -> (CommandSpec, bool)
    decreases path.len(),
{
    if path.len() == 0 {
        (cmd, false)
    } else {
        let (c, stopped) = path_walk(cmd, path.drop_last());
        if stopped {
            (c, true)
        } else {
            match crate::spec_model::find_subcommand_index(c, path.last()) {
                Some(i) => (c.subcommands@[i], false),
                None => (c, true),
            }
        }
    }
}

/// The command the path selects.
pub open spec fn command_at(cmd: CommandSpec, path: Seq<Seq<char>>) -> CommandSpec {
    path_walk(cmd, path).0
}

// ── Visible flags and arguments ─────────────────────────────────────

/// The flags not hidden, in order.
pub open spec fn shown_flags(flags: Seq<FlagSpec>) -> Seq<FlagSpec>
    decreases flags.len(),
{
    if flags.len() == 0 {
        Seq::empty()
    } else if flags.last().hide {
        shown_flags(flags.drop_last())
    } else {
        shown_flags(flags.drop_last()).push(flags.last())
    }
}

/// Whether a flag named `n` is among `fs`.
pub open spec fn has_flag_named(fs: Seq<FlagSpec>, n: Seq<char>) -> bool {
    exists|i: int| 0 <= i < fs.len() && #[trigger] fs[i].name@ == n
}

/// `acc` followed by the global, visible flags of `root` whose name is not
/// taken yet, in order.
pub open spec fn with_globals(acc: Seq<FlagSpec>, root: Seq<FlagSpec>) -> Seq<FlagSpec>
    decreases root.len(),
{
    if root.len() == 0 {
        acc
    } else {
        let a = with_globals(acc, root.drop_last());
        let f = root.last();
        if f.global && !f.hide && !has_flag_named(a, f.name@) {
            a.push(f)
        } else {
            a
        }
    }
}

/// The flags shown for a command: its visible flags, then the root's visible
/// global flags it does not already have.
pub open spec fn visible_flags_spec(cmd: CommandSpec, root: Seq<FlagSpec>) -> Seq<FlagSpec> {
    with_globals(shown_flags(cmd.flags@), root)
}

proof fn lemma_shown_flags_props(flags: Seq<FlagSpec>)
    ensures
        forall|i: int|
            0 <= i < shown_flags(flags).len() ==> !(#[trigger] shown_flags(flags)[i]).hide && flags.contains(
                shown_flags(flags)[i],
            ),
        forall|j: int| 0 <= j < flags.len() && !(#[trigger] flags[j]).hide ==> shown_flags(flags).contains(flags[j]),
    decreases flags.len(),
{
    if flags.len() > 0 {
        let rest = flags.drop_last();
        lemma_shown_flags_props(rest);
        let s = shown_flags(flags);
        assert forall|i: int| 0 <= i < s.len() implies !(#[trigger] s[i]).hide && flags.contains(s[i]) by {
            if i < shown_flags(rest).len() {
                assert(s[i] == shown_flags(rest)[i]);
                let k = choose|k: int| 0 <= k < rest.len() && rest[k] == shown_flags(rest)[i];
                assert(flags[k] == rest[k]);
            } else {
                assert(s[i] == flags.last());
                assert(flags[flags.len() - 1] == flags.last());
            }
        }
        assert forall|j: int| 0 <= j < flags.len() && !(#[trigger] flags[j]).hide implies s.contains(flags[j]) by {
            if j < rest.len() {
                assert(rest[j] == flags[j]);
                assert(shown_flags(rest).contains(rest[j]));
                let k = choose|k: int| 0 <= k < shown_flags(rest).len() && shown_flags(rest)[k] == rest[j];
                assert(s[k] == shown_flags(rest)[k]);
            } else {
                assert(s[s.len() - 1] == flags.last());
            }
        }
    }
}

proof fn lemma_with_globals_props(acc: Seq<FlagSpec>, root: Seq<FlagSpec>)
    ensures
        with_globals(acc, root).len() >= acc.len(),
        forall|i: int| 0 <= i < acc.len() ==> #[trigger] with_globals(acc, root)[i] == acc[i],
        forall|i: int|
            acc.len() <= i < with_globals(acc, root).len() ==> !(#[trigger] with_globals(acc, root)[i]).hide
                && with_globals(acc, root)[i].global && root.contains(with_globals(acc, root)[i]),
    decreases root.len(),
{
    if root.len() > 0 {
        let rest = root.drop_last();
        lemma_with_globals_props(acc, rest);
        let a = with_globals(acc, rest);
        let r = with_globals(acc, root);
        assert forall|i: int| acc.len() <= i < r.len() implies !(#[trigger] r[i]).hide && r[i].global
            && root.contains(r[i]) by {
            if i < a.len() {
                assert(r[i] == a[i]);
                let k = choose|k: int| 0 <= k < rest.len() && rest[k] == a[i];
                assert(root[k] == rest[k]);
            } else {
                assert(r[i] == root.last());
                assert(root[root.len() - 1] == root.last());
            }
        }
    }
}

/// The flags shown for a command are never hidden ones: each is one of the
/// command's own visible flags or a visible global flag of the root, and
/// every visible flag of the command is among them.
pub proof fn lemma_visible_flags_not_hidden(cmd: CommandSpec, root: Seq<FlagSpec>)
    ensures
        forall|i: int|
            0 <= i < visible_flags_spec(cmd, root).len() ==> !(#[trigger] visible_flags_spec(cmd, root)[i]).hide,
        forall|i: int|
            0 <= i < visible_flags_spec(cmd, root).len() ==> cmd.flags@.contains(
                #[trigger] visible_flags_spec(cmd, root)[i],
            ) || (root.contains(visible_flags_spec(cmd, root)[i]) && visible_flags_spec(cmd, root)[i].global),
        forall|j: int|
            0 <= j < cmd.flags@.len() && !(#[trigger] cmd.flags@[j]).hide ==> visible_flags_spec(
                cmd,
                root,
            ).contains(cmd.flags@[j]),
{
    let own = shown_flags(cmd.flags@);
    lemma_shown_flags_props(cmd.flags@);
    lemma_with_globals_props(own, root);
    let v = visible_flags_spec(cmd, root);
    assert forall|i: int| 0 <= i < v.len() implies !(#[trigger] v[i]).hide && (cmd.flags@.contains(v[i]) || (
    root.contains(v[i]) && v[i].global)) by {
        if i < own.len() {
            assert(v[i] == own[i]);
        }
    }
    assert forall|j: int| 0 <= j < cmd.flags@.len() && !(#[trigger] cmd.flags@[j]).hide implies v.contains(
        cmd.flags@[j],
    ) by {
        assert(own.contains(cmd.flags@[j]));
        let k = choose|k: int| 0 <= k < own.len() && own[k] == cmd.flags@[j];
        assert(v[k] == own[k]);
    }
}

/// The arguments not hidden, in order.
pub open spec fn shown_args(args: Seq<ArgSpec>) -> Seq<ArgSpec>
    decreases args.len(),
{
    if args.len() == 0 {
        Seq::empty()
    } else if args.last().hide {
        shown_args(args.drop_last())
    } else {
        shown_args(args.drop_last()).push(args.last())
    }
}

/// The arguments a command shows are exactly its arguments that are not
/// hidden, in their order: none of them is hidden, each is one of the
/// command's arguments, and every argument not hidden is among them.
pub proof fn lemma_shown_args_not_hidden(args: Seq<ArgSpec>)
    ensures
        forall|i: int| 0 <= i < shown_args(args).len() ==> !(#[trigger] shown_args(args)[i]).hide && args.contains(
            shown_args(args)[i],
        ),
        forall|j: int| 0 <= j < args.len() && !(#[trigger] args[j]).hide ==> shown_args(args).contains(args[j]),
    decreases args.len(),
{
    if args.len() > 0 {
        let rest = args.drop_last();
        lemma_shown_args_not_hidden(rest);
        let s = shown_args(args);
        assert forall|i: int| 0 <= i < s.len() implies !(#[trigger] s[i]).hide && args.contains(s[i]) by {
            if i < shown_args(rest).len() {
                assert(s[i] == shown_args(rest)[i]);
                let k = choose|k: int| 0 <= k < rest.len() && rest[k] == shown_args(rest)[i];
                assert(args[k] == rest[k]);
            } else {
                assert(args[args.len() - 1] == args.last());
            }
        }
        assert forall|j: int| 0 <= j < args.len() && !(#[trigger] args[j]).hide implies s.contains(args[j]) by {
            if j < rest.len() {
                assert(rest[j] == args[j]);
                assert(shown_args(rest).contains(rest[j]));
                let k = choose|k: int| 0 <= k < shown_args(rest).len() && shown_args(rest)[k] == rest[j];
                assert(s[k] == shown_args(rest)[k]);
            } else {
                assert(s[s.len() - 1] == args.last());
            }
        }
    }
}

/// Whether `vs` are the values a command's arguments start with.
pub open spec fn are_default_args(vs: Seq<ArgValue>, cmd: CommandSpec) -> bool {
    &&& vs.len() == shown_args(cmd.args@).len()
    &&& forall|i: int|
        0 <= i < vs.len() ==> crate::values::is_default_arg_value(#[trigger] shown_args(cmd.args@)[i], vs[i])
}

/// The value of the last setting named `n`.
pub open spec fn last_named(s: Seq<(String, FlagValue)>, n: Seq<char>) -> Option<FlagValue>
    decreases s.len(),
{
    if s.len() == 0 {
        None
    } else if s.last().0@ == n {
        Some(s.last().1)
    } else {
        last_named(s.drop_last(), n)
    }
}

/// The root's value a new level inherits for the flag named `n`: the root's
/// (last) setting for it, when `n` names a global flag of the root.
pub open spec fn inherited_value(root: Option<Seq<(String, FlagValue)>>, globals: Seq<FlagSpec>, n: Seq<char>) -> Option<FlagValue> {
    match root {
        Some(rs) => if is_global_name(globals, n) {
            last_named(rs, n)
        } else {
            None
        },
        None => None,
    }
}

/// Whether `s` are the settings a level starts with: one per shown flag, each
/// the value inherited from the root, or else the flag's initial value.
pub open spec fn are_initial_settings(
    s: Seq<(String, FlagValue)>,
    flags: Seq<FlagSpec>,
    root: Option<Seq<(String, FlagValue)>>,
    globals: Seq<FlagSpec>,
) -> bool {
    &&& s.len() == flags.len()
    &&& forall|i: int|
        0 <= i < s.len() ==> (#[trigger] s[i]).0@ == flags[i].name@ && match inherited_value(
            root,
            globals,
            flags[i].name@,
        ) {
            Some(v) => same_value(s[i].1, v),
            None => crate::values::is_initial_flag_value(flags[i], s[i].1),
        }
}

/// A pending completion: the command to run for a value being entered, and
/// where the answer goes.
#[derive(Debug)]
pub struct CompletionRequest {
    /// Which panel asked: `Focus::Flags` or `Focus::Args`.
    pub panel: Focus,
    pub index: usize,
    /// The shell command that lists the values.
    pub run: String,
    /// Whether each output line is "value:description".
    pub descriptions: bool,
    pub current_value: String,
    pub value_column: u16,
}

/// Main application state.
#[derive(Debug)]
pub struct App {
    pub spec: CliSpec,
    /// Current app mode (builder vs executing).
    pub mode: AppMode,
    /// Current color theme.
    pub theme_name: Theme,
    /// Path of subcommand names derived from the tree selection.
    /// Empty means we're at the root command.
    pub command_path: Vec<String>,
    pub command_panel: FilterableComponent<CommandPanelComponent>,
    pub flag_panel: FilterableComponent<FlagPanelComponent>,
    /// Flag values per command path (names joined by spaces).
    pub flag_values: FlagStore,
    /// Arg values per command path.
    pub arg_values_by_path: Vec<(String, Vec<ArgValue>)>,
    /// Arg values for the current command.
    pub arg_values: Vec<ArgValue>,
    /// Tab order of the panels and the focused one.
    pub focus_manager: FocusRing,
    pub arg_panel: FilterableComponent<ArgPanelComponent>,
    /// Current frame layout snapshot for mouse hit-testing.
    pub layout: UiLayout,
    pub theme_picker: ThemePickerComponent,
    /// Current mouse cursor position (column, row) for hover highlighting.
    pub mouse_position: Option<(u16, u16)>,
    /// A completion command waiting to be run for the value being entered.
    pub pending_completion: Option<CompletionRequest>,
}

impl App {
    /// The components' invariants hold.
    pub open spec fn wf(self) -> bool {
        &&& self.command_panel.wf()
        &&& self.flag_panel.wf()
        &&& self.arg_panel.wf()
        &&& self.focus_manager.wf()
        &&& self.theme_picker.wf()
        &&& self.layout.wf()
    }

    /// The command path, as names.
    pub open spec fn path_view(self) -> Seq<Seq<char>> {
        views(self.command_path@)
    }

    /// The key the current command's values are stored under.
    pub open spec fn path_key(self) -> Seq<char> {
        join_words(self.path_view())
    }

    /// The current command.
    pub open spec fn command(self) -> CommandSpec {
        command_at(self.spec.cmd, self.path_view())
    }

    /// The flags shown for the current command.
    pub open spec fn flags_shown(self) -> Seq<FlagSpec> {
        visible_flags_spec(self.command(), self.spec.cmd.flags@)
    }

    /// The current command's flag settings (none stored: empty).
    pub open spec fn current_settings(self) -> Seq<(String, FlagValue)> {
        match store_get(self.flag_values.levels@, self.path_key()) {
            Some(s) => s,
            None => Seq::empty(),
        }
    }

    /// The filter text of the focused panel (empty for the preview).
    pub open spec fn filter_spec(self) -> Seq<char> {
        match self.focus_spec() {
            Focus::Commands => self.command_panel.inner.filter_view(),
            Focus::Flags => self.flag_panel.inner.filter_view(),
            Focus::Args => self.arg_panel.inner.filter_view(),
            Focus::Preview => Seq::<char>::empty(),
        }
    }

    /// The focused panel (the preview when the ring is empty).
    pub open spec fn focus_spec(self) -> Focus {
        match self.focus_manager.current_spec() {
            Some(f) => f,
            None => Focus::Preview,
        }
    }

    // ── Construction ────────────────────────────────────────────────

    /// An app for `spec` with the default theme.
    pub fn new(spec: CliSpec) -> (r: App)
        ensures
            r.ready(),
            r.spec == spec,
            r.theme_name.index == 0,
            r.mode == AppMode::Builder,
            crate::command_tree::forest_built(r.command_panel.inner.tree_nodes@, spec.cmd.subcommands@, Seq::empty()),
            r.path_view() == r.command_panel.inner.path_view(),
            r.theme_picker.state is None,
            r.mouse_position is None,
            r.pending_completion is None,
    {
        App::with_theme(spec, Theme::default_theme())
    }

    /// An app for `spec` with the theme `theme_name`: the command tree is
    /// built, the first command selected and followed, the panels filled and
    /// the first panel of the Tab order focused.
    pub fn with_theme(spec: CliSpec, theme_name: Theme) -> (r: App)
        ensures
            r.ready(),
            r.spec == spec,
            r.theme_name == theme_name,
            r.mode == AppMode::Builder,
            crate::command_tree::forest_built(r.command_panel.inner.tree_nodes@, spec.cmd.subcommands@, Seq::empty()),
            r.path_view() == r.command_panel.inner.path_view(),
            r.command_panel.inner.path_view() == crate::command_panel::synced(
                crate::command_tree::flat_of(r.command_panel.inner.tree_nodes@),
                0,
                Seq::empty(),
            ),
            r.theme_picker.state is None,
            r.mouse_position is None,
            r.pending_completion is None,
    {
        let tree_nodes = build_command_tree(&spec);
        let command_panel = FilterableComponent::new(CommandPanelComponent::new(tree_nodes));
        let mut app = App {
            spec,
            mode: AppMode::Builder,
            theme_name,
            command_path: Vec::new(),
            command_panel,
            flag_panel: FilterableComponent::new(FlagPanelComponent::new()),
            flag_values: FlagStore::new(),
            arg_values_by_path: Vec::new(),
            arg_values: Vec::new(),
            focus_manager: FocusRing::new(),
            arg_panel: FilterableComponent::new(ArgPanelComponent::new()),
            layout: UiLayout::new(),
            theme_picker: ThemePickerComponent::new(),
            mouse_position: None,
            pending_completion: None,
        };
        app.sync_state();
        app.sync_command_path_from_tree();
        let focus = app.focus();
        app.notify_focus_gained(focus);
        app
    }

    // ── Basic state ─────────────────────────────────────────────────

    /// Take the click regions and overlay rectangles of the frame just drawn.
    pub fn set_layout(&mut self, layout: UiLayout)
        requires
            old(self).ready(),
            layout.wf(),
        ensures
            final(self).ready(),
            *final(self) == (App { layout, ..*old(self) }),
    {
        self.layout = layout;
    }

    /// Check if the app is currently in execution mode.
    pub fn is_executing(&self) -> (r: bool)
        ensures
            r == (self.mode == AppMode::Executing),
    {
        self.mode == AppMode::Executing
    }

    /// Close the execution view and return to the builder.
    pub fn close_execution(&mut self)
        ensures
            *final(self) == (App { mode: AppMode::Builder, ..*old(self) }),
    {
        self.mode = AppMode::Builder;
    }

    /// Switch to the execution view.
    pub fn start_execution(&mut self)
        ensures
            *final(self) == (App { mode: AppMode::Executing, ..*old(self) }),
    {
        self.mode = AppMode::Executing;
    }

    /// Cycle to the next theme.
    pub fn next_theme(&mut self)
        ensures
            final(self).theme_name.index == (old(self).theme_name.position() + 1) % (THEME_COUNT as int),
            *final(self) == (App { theme_name: final(self).theme_name, ..*old(self) }),
    {
        self.theme_name = self.theme_name.next();
    }

    /// Cycle to the previous theme.
    pub fn prev_theme(&mut self)
        ensures
            final(self).theme_name.index == (old(self).theme_name.position() + THEME_COUNT - 1) % (THEME_COUNT as int),
            *final(self) == (App { theme_name: final(self).theme_name, ..*old(self) }),
    {
        self.theme_name = self.theme_name.prev();
    }

    /// Get the current focus panel.
    pub fn focus(&self) -> (r: Focus)
        ensures
            r == self.focus_spec(),
    {
        match self.focus_manager.current() {
            Some(f) => f,
            None => Focus::Preview,
        }
    }

    /// Whether any panel is in inline edit mode.
    pub fn is_editing(&self) -> (r: bool)
        ensures
            r == (self.flag_panel.inner.base.editing || self.arg_panel.inner.base.editing),
    {
        self.flag_panel.inner.is_editing() || self.arg_panel.inner.is_editing()
    }

    /// Whether the theme picker is open.
    pub fn is_theme_picking(&self) -> (r: bool)
        ensures
            r == self.theme_picker.state is Some,
    {
        self.theme_picker.is_open()
    }

    /// Open the theme picker on the current theme.
    pub fn open_theme_picker(&mut self)
        ensures
            final(self).theme_picker.state == Some(
                crate::theme_picker::ThemePickerInner {
                    original_theme: old(self).theme_name,
                    selected_index: old(self).theme_name.position() as usize,
                },
            ),
            *final(self) == (App { theme_picker: final(self).theme_picker, ..*old(self) }),
            final(self).theme_picker.wf(),
            final(self).theme_picker.viewport == old(self).theme_picker.viewport,
    {
        let t = self.theme_name;
        self.theme_picker.open(t);
    }

    /// Apply what the theme picker asked for: a previewed theme becomes
    /// current, a cancel restores the original, a confirm keeps the preview.
    pub fn process_theme_picker_action(&mut self, action: ThemePickerAction)
        ensures
            *final(self) == (App {
                theme_name: match action {
                    ThemePickerAction::PreviewTheme(t) => t,
                    ThemePickerAction::Confirmed => old(self).theme_name,
                    ThemePickerAction::Cancelled(t) => t,
                },
                ..*old(self)
            }),
    {
        match action {
            ThemePickerAction::PreviewTheme(name) => {
                self.theme_name = name;
            },
            ThemePickerAction::Confirmed => {},
            ThemePickerAction::Cancelled(original) => {
                self.theme_name = original;
            },
        }
    }

    /// Whether a choice box is open in the flag or the argument panel.
    pub open spec fn is_choosing_spec(self) -> bool {
        self.flag_panel.inner.base.choice_select.state is Some
            || self.arg_panel.inner.base.choice_select.state is Some
    }

    /// Whether any choice select box is open (flag panel or arg panel).
    pub fn is_choosing(&self) -> (r: bool)
        ensures
            r == self.is_choosing_spec(),
    {
        self.flag_panel.inner.is_choosing() || self.arg_panel.inner.is_choosing()
    }

    /// Whether a filter is applied on any panel.
    pub fn filter_active(&self) -> (r: bool)
        ensures
            r == (self.command_panel.inner.filter_view().len() > 0
                || self.flag_panel.inner.filter_view().len() > 0
                || self.arg_panel.inner.filter_view().len() > 0),
    {
        self.command_panel.has_active_filter() || self.flag_panel.has_active_filter()
            || self.arg_panel.has_active_filter()
    }

    /// Whether the user is typing a filter in any panel.
    pub fn is_filtering(&self) -> (r: bool)
        ensures
            r == (self.command_panel.filtering || self.flag_panel.filtering
                || self.arg_panel.filtering),
    {
        self.command_panel.is_filtering() || self.flag_panel.is_filtering()
            || self.arg_panel.is_filtering()
    }

    /// The selected position in the command list.
    pub fn command_index(&self) -> (r: usize)
        ensures
            r == self.command_panel.inner.tree_state.selected_index,
    {
        self.command_panel.inner.selected_index()
    }

    /// The selected flag.
    pub fn flag_index(&self) -> (r: usize)
        ensures
            r == self.flag_panel.inner.base.list_state.selected_index,
    {
        self.flag_panel.inner.selected_index()
    }

    /// The selected argument.
    pub fn arg_index(&self) -> (r: usize)
        ensures
            r == self.arg_panel.inner.base.list_state.selected_index,
    {
        self.arg_panel.inner.selected_index()
    }

    /// The scroll offset of the command list.
    pub fn command_scroll(&self) -> (r: usize)
        ensures
            r == self.command_panel.inner.tree_state.scroll,
    {
        self.command_panel.inner.scroll_offset()
    }

    /// The filter text of the focused panel (empty for the preview).
    pub fn filter(&self) -> (r: String)
        ensures
            r@ == self.filter_spec(),
    {
        match self.focus() {
            Focus::Commands => self.command_panel.filter_text(),
            Focus::Flags => self.flag_panel.filter_text(),
            Focus::Args => self.arg_panel.filter_text(),
            Focus::Preview => String::new(),
        }
    }

    // ── The current command ─────────────────────────────────────────

    /// The current command: follow the path's names from the root, stopping
    /// at the first that is not a subcommand.
    pub fn current_command(&self) -> (r: &CommandSpec)
        ensures
            *r == self.command(),
    {
        command_of(&self.spec, &self.command_path)
    }

    /// Key of the current command's stored values: its path joined by spaces.
    pub fn command_path_key(&self) -> (r: String)
        ensures
            r@ == self.path_key(),
    {
        join_with_spaces(&self.command_path)
    }

    /// The current command's flag settings (none stored: empty).
    pub fn current_flag_values(&self) -> (r: FlagSettings)
        ensures
            r@ == self.current_settings(),
    {
        let key = self.command_path_key();
        match self.flag_values.get(key.as_str()) {
            Some(v) => crate::flag_store::copy_settings(v),
            None => Vec::new(),
        }
    }

    /// The visible flags of the current command, including the root's
    /// global flags it does not have itself.
    pub fn visible_flags(&self) -> (r: Vec<&FlagSpec>)
        ensures
            flag_seq(r@) == self.flags_shown(),
    {
        collect_visible_flags(command_of(&self.spec, &self.command_path), &self.spec)
    }

    /// The visible (not hidden) subcommands of the current command, in order.
    pub fn visible_subcommands(&self) -> (r: Vec<&CommandSpec>)
        ensures
            r@.map_values(|c: &CommandSpec| *c) == unhidden(self.command().subcommands@),
    {
        let cmd = command_of(&self.spec, &self.command_path);
        let mut out: Vec<&CommandSpec> = Vec::new();
        let mut i: usize = 0;
        while i < cmd.subcommands.len()
            invariant
                i <= cmd.subcommands@.len(),
                *cmd == self.command(),
                out@.map_values(|c: &CommandSpec| *c) == unhidden(cmd.subcommands@.take(i as int)),
            decreases cmd.subcommands.len() - i,
        {
            let ghost before = out@;
            assert(cmd.subcommands@.take(i + 1).drop_last() =~= cmd.subcommands@.take(i as int));
            if !cmd.subcommands[i].hide {
                out.push(&cmd.subcommands[i]);
                assert(out@.map_values(|c: &CommandSpec| *c) =~= before.map_values(|c: &CommandSpec| *c).push(cmd.subcommands@[i as int]));
            }
            i = i + 1;
        }
        assert(cmd.subcommands@.take(cmd.subcommands@.len() as int) =~= cmd.subcommands@);
        out
    }

    /// Whether the spec has any subcommands at all.
    pub fn has_any_commands(&self) -> (r: bool)
        ensures
            r == (self.spec.cmd.subcommands@.len() > 0),
    {
        self.spec.cmd.subcommands.len() > 0
    }
}

/// The subcommands among `subs` that are not hidden, in order.
pub open spec fn unhidden(subs: Seq<CommandSpec>) -> Seq<CommandSpec>
    decreases subs.len(),
{
    if subs.len() == 0 {
        Seq::empty()
    } else if subs.last().hide {
        unhidden(subs.drop_last())
    } else {
        unhidden(subs.drop_last()).push(subs.last())
    }
}

/// The visible subcommands are exactly the subcommands that are not
/// hidden: none of them is hidden, each is one of the subcommands, and every
/// subcommand not hidden is among them.
pub proof fn lemma_unhidden_not_hidden(subs: Seq<CommandSpec>)
    ensures
        forall|i: int| 0 <= i < unhidden(subs).len() ==> !(#[trigger] unhidden(subs)[i]).hide && subs.contains(
            unhidden(subs)[i],
        ),
        forall|j: int| 0 <= j < subs.len() && !(#[trigger] subs[j]).hide ==> unhidden(subs).contains(subs[j]),
    decreases subs.len(),
{
    if subs.len() > 0 {
        let rest = subs.drop_last();
        lemma_unhidden_not_hidden(rest);
        let s = unhidden(subs);
        assert forall|i: int| 0 <= i < s.len() implies !(#[trigger] s[i]).hide && subs.contains(s[i]) by {
            if i < unhidden(rest).len() {
                assert(s[i] == unhidden(rest)[i]);
                let k = choose|k: int| 0 <= k < rest.len() && rest[k] == unhidden(rest)[i];
                assert(subs[k] == rest[k]);
            } else {
                assert(subs[subs.len() - 1] == subs.last());
            }
        }
        assert forall|j: int| 0 <= j < subs.len() && !(#[trigger] subs[j]).hide implies s.contains(subs[j]) by {
            if j < rest.len() {
                assert(rest[j] == subs[j]);
                assert(unhidden(rest).contains(rest[j]));
                let k = choose|k: int| 0 <= k < unhidden(rest).len() && unhidden(rest)[k] == rest[j];
                assert(s[k] == unhidden(rest)[k]);
            } else {
                assert(s[s.len() - 1] == subs.last());
            }
        }
    }
}

/// The command `path` selects in `spec`: follow its names from the root,
/// stopping at the first that is not a subcommand.
pub fn command_of<'a>(spec: &'a CliSpec, path: &Vec<String>) -> (r: &'a CommandSpec)
    ensures
        *r == command_at(spec.cmd, views(path@)),
{
    let mut cmd: &CommandSpec = &spec.cmd;
    let mut i: usize = 0;
    let ghost p = views(path@);
    while i < path.len()
        invariant
            i <= path@.len(),
            p == views(path@),
            path_walk(spec.cmd, p.take(i as int)) == (*cmd, false),
        decreases path@.len() - i,
    {
        assert(p.take(i + 1).drop_last() =~= p.take(i as int));
        assert(p.take(i + 1).last() == path@[i as int]@);
        match cmd.find_subcommand(path[i].as_str()) {
            Some(sub) => {
                cmd = sub;
            },
            None => {
                proof {
                    lemma_walk_stays_stopped(spec.cmd, p, i as int + 1);
                    assert(p.take(p.len() as int) =~= p);
                }
                return cmd;
            },
        }
        i = i + 1;
    }
    assert(p.take(p.len() as int) =~= p);
    cmd
}

/// Once a walk stops, later names leave it where it stopped.
proof fn lemma_walk_stays_stopped(cmd: CommandSpec, p: Seq<Seq<char>>, n: int)
    requires
        0 <= n <= p.len(),
        path_walk(cmd, p.take(n)).1,
    ensures
        path_walk(cmd, p.take(p.len() as int)) == path_walk(cmd, p.take(n)),
    decreases p.len() - n,
{
    if n < p.len() {
        assert(p.take(n + 1).drop_last() =~= p.take(n));
        lemma_walk_stays_stopped(cmd, p, n + 1);
    }
}

/// Collect the visible flags of `cmd`, then the root's visible global flags
/// whose name is not taken yet.
pub fn collect_visible_flags<'a>(cmd: &'a CommandSpec, spec: &'a CliSpec) -> (r: Vec<&'a FlagSpec>)
    ensures
        flag_seq(r@) == visible_flags_spec(*cmd, spec.cmd.flags@),
{
    let mut flags: Vec<&FlagSpec> = Vec::new();
    let mut i: usize = 0;
    while i < cmd.flags.len()
        invariant
            i <= cmd.flags@.len(),
            flag_seq(flags@) == shown_flags(cmd.flags@.subrange(0, i as int)),
        decreases cmd.flags@.len() - i,
    {
        let ghost sub = cmd.flags@.subrange(0, i + 1);
        assert(sub.drop_last() =~= cmd.flags@.subrange(0, i as int));
        assert(sub.last() == cmd.flags@[i as int]);
        if !cmd.flags[i].hide {
            let ghost before = flags@;
            flags.push(&cmd.flags[i]);
            assert(flag_seq(flags@) =~= flag_seq(before).push(cmd.flags@[i as int]));
        }
        i = i + 1;
    }
    assert(cmd.flags@.subrange(0, cmd.flags@.len() as int) =~= cmd.flags@);
    let ghost shown = flag_seq(flags@);
    let root = &spec.cmd.flags;
    let mut k: usize = 0;
    while k < root.len()
        invariant
            k <= root@.len(),
            shown == shown_flags(cmd.flags@),
            flag_seq(flags@) == with_globals(shown, root@.subrange(0, k as int)),
        decreases root@.len() - k,
    {
        let ghost sub = root@.subrange(0, k + 1);
        assert(sub.drop_last() =~= root@.subrange(0, k as int));
        assert(sub.last() == root@[k as int]);
        let flag = &root[k];
        if flag.global && !flag.hide {
            let mut taken = false;
            let mut j: usize = 0;
            while j < flags.len()
                invariant
                    j <= flags@.len(),
                    taken == exists|m: int| 0 <= m < j && (*flags@[m]).name@ == flag.name@,
                decreases flags@.len() - j,
            {
                if str_eq(flags[j].name.as_str(), flag.name.as_str()) {
                    taken = true;
                }
                j = j + 1;
            }
            proof {
                let fs = flag_seq(flags@);
                if taken {
                    let m = choose|m: int| 0 <= m < flags@.len() && (*flags@[m]).name@ == flag.name@;
                    assert(fs[m].name@ == flag.name@);
                } else {
                    assert forall|m: int| 0 <= m < fs.len() implies #[trigger] fs[m].name@ != flag.name@ by {
                        assert(fs[m] == *flags@[m]);
                    }
                }
                assert(taken == has_flag_named(fs, flag.name@));
            }
            if !taken {
                let ghost before = flags@;
                flags.push(flag);
                assert(flag_seq(flags@) =~= flag_seq(before).push(root@[k as int]));
            }
        }
        k = k + 1;
    }
    assert(root@.subrange(0, root@.len() as int) =~= root@);
    flags
}

/// The values a command's visible arguments start with.
pub fn default_arg_values_for_command(cmd: &CommandSpec) -> (r: Vec<ArgValue>)
    ensures
        are_default_args(r@, *cmd),
{
    let mut out: Vec<ArgValue> = Vec::new();
    let mut i: usize = 0;
    while i < cmd.args.len()
        invariant
            i <= cmd.args@.len(),
            are_default_args_prefix(out@, cmd.args@.subrange(0, i as int)),
        decreases cmd.args@.len() - i,
    {
        let ghost sub = cmd.args@.subrange(0, i + 1);
        assert(sub.drop_last() =~= cmd.args@.subrange(0, i as int));
        assert(sub.last() == cmd.args@[i as int]);
        if !cmd.args[i].hide {
            let ghost before = out@;
            out.push(ArgValue::initial_for(&cmd.args[i]));
            assert(out@.drop_last() =~= before);
            proof {
                let sh = shown_args(sub);
                assert(sh == shown_args(sub.drop_last()).push(sub.last()));
                assert forall|m: int| 0 <= m < out@.len() implies crate::values::is_default_arg_value(
                    #[trigger] sh[m],
                    out@[m],
                ) by {
                    if m < before.len() {
                        assert(sh[m] == shown_args(sub.drop_last())[m]);
                        assert(out@[m] == before[m]);
                    }
                }
            }
        }
        i = i + 1;
    }
    assert(cmd.args@.subrange(0, cmd.args@.len() as int) =~= cmd.args@);
    out
}

/// Whether `vs` are the start values of the visible arguments among `args`.
pub open spec fn are_default_args_prefix(vs: Seq<ArgValue>, args: Seq<ArgSpec>) -> bool {
    &&& vs.len() == shown_args(args).len()
    &&& forall|m: int|
        0 <= m < vs.len() ==> crate::values::is_default_arg_value(#[trigger] shown_args(args)[m], vs[m])
}

// ── Stored values ───────────────────────────────────────────────────

/// Two argument lists hold the same values (strings compared by characters).
pub open spec fn same_args(a: Seq<ArgValue>, b: Seq<ArgValue>) -> bool {
    &&& a.len() == b.len()
    &&& forall|i: int| 0 <= i < a.len() ==> same_arg(#[trigger] a[i], b[i])
}

/// Two argument values are the same (strings compared by characters).
pub open spec fn same_arg(x: ArgValue, y: ArgValue) -> bool {
    &&& x.name@ == y.name@
    &&& x.value@ == y.value@
    &&& x.required == y.required
    &&& views(x.choices@) == views(y.choices@)
    &&& (x.help is Some <==> y.help is Some)
    &&& crate::values::opt_chars(x.help) == crate::values::opt_chars(y.help)
}

/// A copy of an argument list.
pub fn copy_args(v: &Vec<ArgValue>) -> (r: Vec<ArgValue>)
    ensures
        same_args(r@, v@),
{
    let mut r: Vec<ArgValue> = Vec::new();
    let mut i: usize = 0;
    while i < v.len()
        invariant
            i <= v@.len(),
            r@.len() == i,
            forall|k: int| 0 <= k < i ==> same_arg(#[trigger] r@[k], v@[k]),
        decreases v@.len() - i,
    {
        let a = v[i].copy_arg();
        assert(views(a.choices@) =~= views(v@[i as int].choices@));
        r.push(a);
        i = i + 1;
    }
    r
}

/// The value `inherited_value` looks up: the last root setting named `name`.
fn last_setting_named(root: &FlagSettings, name: &str) -> (r: Option<FlagValue>)
    ensures
        r == last_named(root@, name@),
{
    let mut i: usize = root.len();
    assert(root@.subrange(0, root@.len() as int) =~= root@);
    while i > 0
        invariant
            i <= root@.len(),
            last_named(root@, name@) == last_named(root@.subrange(0, i as int), name@),
        decreases i,
    {
        let ghost sub = root@.subrange(0, i as int);
        assert(sub.drop_last() =~= root@.subrange(0, i - 1));
        assert(sub.last() == root@[i - 1]);
        if str_eq(root[i - 1].0.as_str(), name) {
            return Some(root[i - 1].1.copy_value());
        }
        i = i - 1;
    }
    None
}

/// The settings a level starts with, one per shown flag.
pub fn initial_settings(flags: &Vec<&FlagSpec>, root: Option<&FlagSettings>, globals: &Vec<FlagSpec>) -> (r:
    FlagSettings)
    ensures
        are_initial_settings(
            r@,
            flag_seq(flags@),
            match root {
                Some(rs) => Some(rs@),
                None => None,
            },
            globals@,
        ),
{
    let ghost root_view = match root {
        Some(rs) => Some(rs@),
        None => None::<Seq<(String, FlagValue)>>,
    };
    let mut out: FlagSettings = Vec::new();
    let mut i: usize = 0;
    while i < flags.len()
        invariant
            i <= flags@.len(),
            out@.len() == i,
            root_view == match root {
                Some(rs) => Some(rs@),
                None => None,
            },
            forall|k: int|
                0 <= k < i ==> (#[trigger] out@[k]).0@ == flag_seq(flags@)[k].name@ && match inherited_value(
                    root_view,
                    globals@,
                    flag_seq(flags@)[k].name@,
                ) {
                    Some(v) => same_value(out@[k].1, v),
                    None => crate::values::is_initial_flag_value(flag_seq(flags@)[k], out@[k].1),
                },
        decreases flags@.len() - i,
    {
        let f: &FlagSpec = flags[i];
        assert(flag_seq(flags@)[i as int] == *f);
        let inherited = match root {
            Some(rs) => if is_global_flag_name(globals, f.name.as_str()) {
                last_setting_named(rs, f.name.as_str())
            } else {
                None
            },
            None => None,
        };
        let value = match inherited {
            Some(v) => {
                proof {
                    crate::flag_store::lemma_same_value_refl(v);
                }
                v
            },
            None => FlagValue::initial_for(f),
        };
        out.push((string_of(f.name.as_str()), value));
        i = i + 1;
    }
    out
}

/// The panels in Tab order: the commands when the spec has any, the flags
/// and the arguments when the command shows any, and the preview.
pub open spec fn focus_order(has_commands: bool, has_flags: bool, has_args: bool) -> Seq<Focus> {
    (if has_commands { seq![Focus::Commands] } else { Seq::empty() }) + (if has_flags {
        seq![Focus::Flags]
    } else {
        Seq::empty()
    }) + (if has_args { seq![Focus::Args] } else { Seq::empty() }) + seq![Focus::Preview]
}

impl App {
    /// The values of every visited command are stored, including the current one.
    pub open spec fn stored(self) -> bool {
        &&& store_get(self.flag_values.levels@, self.path_key()) is Some
        &&& key_get(self.arg_values_by_path@, self.path_key()) is Some
    }

    /// Rebuild the Tab order from the panels that have something to show,
    /// keeping focus on the same panel when it is still there (else the first).
    pub fn rebuild_focus_manager(&mut self)
        requires
            old(self).focus_manager.wf(),
        ensures
            final(self).focus_manager.wf(),
            final(self).focus_manager.elements@ == focus_order(
                old(self).spec.cmd.subcommands@.len() > 0,
                old(self).flags_shown().len() > 0,
                old(self).arg_values@.len() > 0,
            ),
            final(self).focus_spec() == if old(self).focus_manager.elements@.len() > 0
                && final(self).focus_manager.elements@.contains(old(self).focus_spec()) {
                old(self).focus_spec()
            } else {
                final(self).focus_manager.elements@[0]
            },
            *final(self) == (App { focus_manager: final(self).focus_manager, ..*old(self) }),
    {
        let had_focus = !self.focus_manager.is_empty();
        let current = self.focus();
        let has_flags = self.visible_flags().len() > 0;
        self.focus_manager.clear();
        if self.has_any_commands() {
            self.focus_manager.register(Focus::Commands);
        }
        if has_flags {
            self.focus_manager.register(Focus::Flags);
        }
        if self.arg_values.len() > 0 {
            self.focus_manager.register(Focus::Args);
        }
        self.focus_manager.register(Focus::Preview);
        assert(self.focus_manager.elements@ =~= focus_order(
            old(self).spec.cmd.subcommands@.len() > 0,
            has_flags,
            old(self).arg_values@.len() > 0,
        ));
        assert(self.focus_manager.current_index == Some(0usize));
        if had_focus {
            self.focus_manager.set(current);
        }
    }

    /// Give the panels the current flags and arguments: the flag panel's
    /// filter items and Enter requests, and the argument panel's.
    pub fn refresh_flag_panel_inputs(&mut self)
        requires
            old(self).flag_panel.wf(),
        ensures
            final(self).flag_panel.wf(),
            final(self).flag_panel.filtering == old(self).flag_panel.filtering,
            final(self).flag_panel.filter_input == old(self).flag_panel.filter_input,
            final(self).flag_panel.inner.base.filterable_items@.len() == old(self).flags_shown().len(),
            forall|i: int|
                0 <= i < old(self).flags_shown().len() ==> crate::flag_panel::is_flag_item(
                    #[trigger] final(self).flag_panel.inner.base.filterable_items@[i],
                    old(self).flags_shown()[i],
                ),
            crate::flag_panel::lists_enter_requests(
                final(self).flag_panel.inner.enter_requests@,
                old(self).flags_shown(),
                old(self).current_settings(),
                old(self).flags_shown().len() as int,
            ),
            final(self).flag_panel.inner.base == (crate::list_panel::ListPanelBase {
                item_keys: final(self).flag_panel.inner.base.item_keys,
                filterable_items: final(self).flag_panel.inner.base.filterable_items,
                ..old(self).flag_panel.inner.base
            }),
            final(self).flag_panel.inner.negate_cols == old(self).flag_panel.inner.negate_cols,
            *final(self) == (App { flag_panel: final(self).flag_panel, ..*old(self) }),
    {
        let flag_values = self.current_flag_values();
        let flags = collect_visible_flags(command_of(&self.spec, &self.command_path), &self.spec);
        self.flag_panel.inner.set_filterable_items_from_flags(&flags);
        self.flag_panel.inner.set_enter_requests_from_flags(&flags, &flag_values);
    }

    /// Give the argument panel the current arguments' filter items and Enter
    /// requests (see `arg_inputs_refreshed`).
    pub fn refresh_arg_panel_inputs(&mut self)
        requires
            old(self).arg_panel.wf(),
        ensures
            arg_inputs_refreshed(*old(self), *final(self)),
    {
        self.arg_panel.inner.set_filterable_items_from_args(&self.arg_values);
        self.arg_panel.inner.set_enter_requests_from_args(&self.arg_values);
    }

    /// Store the current arguments under the current path.
    pub fn persist_current_arg_values(&mut self)
        ensures
            key_get(final(self).arg_values_by_path@, old(self).path_key()) matches Some(v) && same_args(
                v@,
                old(self).arg_values@,
            ),
            forall|k: Seq<char>|
                k != old(self).path_key() ==> #[trigger] key_get(final(self).arg_values_by_path@, k)
                    == key_get(old(self).arg_values_by_path@, k),
            *final(self) == (App { arg_values_by_path: final(self).arg_values_by_path, ..*old(self) }),
    {
        let key = self.command_path_key();
        let values = copy_args(&self.arg_values);
        keyed_insert(&mut self.arg_values_by_path, key, values);
    }

    /// What synchronizing with the current path makes of `self`: on a
    /// command's first visit its arguments' start values and its flags'
    /// start settings are stored; its arguments are loaded; the panels are
    /// sized and their inputs refreshed; the Tab order is rebuilt.
    pub open spec fn sync_effect(self, new: App) -> bool {
        let key = self.path_key();
        let old_args = key_get(self.arg_values_by_path@, key);
        let old_flags = store_get(self.flag_values.levels@, key);
        let flag_list = self.flag_panel.inner.base.list_state;
        let arg_list = self.arg_panel.inner.base.list_state;
        let kept_focus = self.focus_manager.elements@.len() > 0 && new.focus_manager.elements@.contains(
            self.focus_spec(),
        );
        // The stored values and the loaded arguments.
        &&& new.spec == self.spec
        &&& new.command_path == self.command_path
        &&& old_args is Some ==> key_get(new.arg_values_by_path@, key) == old_args
        &&& old_args is None ==> are_default_args(key_get(new.arg_values_by_path@, key)->0@, self.command())
        &&& forall|k: Seq<char>|
            k != key ==> #[trigger] key_get(new.arg_values_by_path@, k) == key_get(self.arg_values_by_path@, k)
        &&& same_args(new.arg_values@, key_get(new.arg_values_by_path@, key)->0@)
        &&& old_flags is Some ==> new.flag_values == self.flag_values
        &&& old_flags is None ==> are_initial_settings(
            store_get(new.flag_values.levels@, key)->0,
            self.flags_shown(),
            store_get(self.flag_values.levels@, Seq::empty()),
            self.spec.cmd.flags@,
        )
        &&& forall|k: Seq<char>|
            k != key ==> #[trigger] store_get(new.flag_values.levels@, k) == store_get(self.flag_values.levels@, k)
        // The panels, sized to the lists and with their inputs refreshed.
        &&& new.flag_panel.inner.base.list_state.total_items == new.current_settings().len()
        &&& new.arg_panel.inner.base.list_state.total_items == new.arg_values@.len()
        &&& new.flag_panel.inner.base.list_state == (crate::list_state::PickerState {
            total_items: new.current_settings().len() as usize,
            selected_index: crate::list_state::clamped_selection(
                flag_list.selected_index,
                new.current_settings().len(),
            ),
            ..flag_list
        })
        &&& new.arg_panel.inner.base.list_state == (crate::list_state::PickerState {
            total_items: new.arg_values@.len() as usize,
            selected_index: crate::list_state::clamped_selection(arg_list.selected_index, new.arg_values@.len()),
            ..arg_list
        })
        &&& new.flag_panel.filtering == self.flag_panel.filtering
        &&& new.flag_panel.filter_input == self.flag_panel.filter_input
        &&& new.arg_panel.filtering == self.arg_panel.filtering
        &&& new.arg_panel.filter_input == self.arg_panel.filter_input
        &&& new.flag_panel.inner.base.filterable_items@.len() == new.flags_shown().len()
        &&& forall|i: int|
            0 <= i < new.flags_shown().len() ==> crate::flag_panel::is_flag_item(
                #[trigger] new.flag_panel.inner.base.filterable_items@[i],
                new.flags_shown()[i],
            )
        &&& crate::flag_panel::lists_enter_requests(
            new.flag_panel.inner.enter_requests@,
            new.flags_shown(),
            new.current_settings(),
            new.flags_shown().len() as int,
        )
        &&& new.arg_panel.inner.base.filterable_items@.len() == new.arg_values@.len()
        &&& forall|i: int|
            0 <= i < new.arg_values@.len() ==> crate::arg_panel::is_arg_item(
                #[trigger] new.arg_panel.inner.base.filterable_items@[i],
                new.arg_values@[i],
            )
        &&& forall|i: int|
            0 <= i < new.arg_values@.len() ==> crate::arg_panel::is_arg_enter(
                Some(#[trigger] new.arg_panel.inner.enter_requests@[i]),
                i,
                new.arg_values@,
            )
        // The Tab order, keeping focus on the same panel when it is still there.
        &&& new.focus_manager.elements@ == focus_order(
            self.spec.cmd.subcommands@.len() > 0,
            self.flags_shown().len() > 0,
            new.arg_values@.len() > 0,
        )
        &&& kept_focus ==> new.focus_spec() == self.focus_spec()
        &&& !kept_focus ==> new.focus_spec() == new.focus_manager.elements@[0]
        // Everything else stays.
        &&& new.command_panel == self.command_panel
        &&& new.theme_name == self.theme_name
        &&& new.mode == self.mode
        &&& new.theme_picker == self.theme_picker
        &&& new.layout == self.layout
        &&& new.mouse_position == self.mouse_position
        &&& new.pending_completion == self.pending_completion
    }

    /// Synchronize the state with the current path: on a command's first
    /// visit, store its arguments' start values and its flags' start settings
    /// (global flags inheriting the root's values); load its arguments; size
    /// the panels; refresh their inputs; rebuild the Tab order.
    pub fn sync_state(&mut self)
        requires
            old(self).wf(),
        ensures
            final(self).wf(),
            final(self).stored(),
            old(self).sync_effect(*final(self)),
    {
        let key = self.command_path_key();
        if keyed_position(&self.arg_values_by_path, key.as_str()).is_none() {
            let defaults = default_arg_values_for_command(command_of(&self.spec, &self.command_path));
            keyed_insert(&mut self.arg_values_by_path, string_of(key.as_str()), defaults);
        }
        let pos = keyed_position(&self.arg_values_by_path, key.as_str());
        proof {
            crate::keyed::lemma_key_pos(self.arg_values_by_path@, key@);
        }
        match pos {
            Some(p) => {
                self.arg_values = copy_args(&self.arg_values_by_path[p].1);
            },
            None => {},
        }
        if !self.flag_values.contains_key(key.as_str()) {
            let root_key = String::new();
            let flags = collect_visible_flags(command_of(&self.spec, &self.command_path), &self.spec);
            let values = initial_settings(&flags, self.flag_values.get(root_key.as_str()), &self.spec.cmd.flags);
            assert(root_key@ =~= Seq::<char>::empty());
            self.flag_values.insert(string_of(key.as_str()), values);
        }
        let flag_count = self.current_flag_values().len();
        let arg_count = self.arg_values.len();
        self.flag_panel.inner.set_total(flag_count);
        self.arg_panel.inner.set_total(arg_count);
        self.refresh_flag_panel_inputs();
        self.refresh_arg_panel_inputs();
        self.rebuild_focus_manager();
    }
}

/// Synchronizing a second time changes nothing further: the stored
/// argument and flag values, the loaded arguments, the command path, the
/// panels' list states, the Tab order and the focused panel stay as the
/// first synchronization left them.
pub proof fn lemma_sync_state_settles(a: App, b: App, c: App)
    requires
        a.wf(),
        b.wf(),
        b.stored(),
        a.sync_effect(b),
        b.sync_effect(c),
    ensures
        c.command_path == b.command_path,
        forall|k: Seq<char>| #[trigger] key_get(c.arg_values_by_path@, k) == key_get(b.arg_values_by_path@, k),
        c.flag_values == b.flag_values,
        same_args(c.arg_values@, b.arg_values@),
        c.flag_panel.inner.base.list_state == b.flag_panel.inner.base.list_state,
        c.arg_panel.inner.base.list_state == b.arg_panel.inner.base.list_state,
        c.focus_manager.elements@ == b.focus_manager.elements@,
        c.focus_spec() == b.focus_spec(),
{
    let key = b.path_key();
    assert(a.path_key() == key);
    assert forall|k: Seq<char>| #[trigger] key_get(c.arg_values_by_path@, k) == key_get(b.arg_values_by_path@, k) by {
        if k != key {
        }
    }
    let stored = key_get(b.arg_values_by_path@, key)->0@;
    assert(same_args(c.arg_values@, stored));
    assert(same_args(b.arg_values@, stored));
    assert forall|i: int| 0 <= i < c.arg_values@.len() implies same_arg(#[trigger] c.arg_values@[i], b.arg_values@[i]) by {
        assert(same_arg(c.arg_values@[i], stored[i]));
        assert(same_arg(b.arg_values@[i], stored[i]));
    }
    assert(c.current_settings() == b.current_settings());
    assert(b.flags_shown() == a.flags_shown());
    let e = b.focus_manager.elements@;
    assert(e.len() > 0);
    let i = b.focus_manager.current_index->0;
    assert(e[i as int] == b.focus_spec());
    assert(e.contains(b.focus_spec()));
}

// ── Changing flag values ────────────────────────────────────────────

/// `b` is `a` with setting `idx` of level `l` given the value `v`.
pub open spec fn level_replaced(
    a: Seq<(String, FlagSettings)>,
    b: Seq<(String, FlagSettings)>,
    l: int,
    idx: int,
    v: FlagValue,
) -> bool {
    &&& same_keys(a, b)
    &&& 0 <= l < a.len()
    &&& forall|i: int| 0 <= i < a.len() && i != l ==> #[trigger] b[i] == a[i]
    &&& b[l].1@.len() == a[l].1@.len()
    &&& 0 <= idx < a[l].1@.len()
    &&& b[l].1@[idx].0@ == a[l].1@[idx].0@
    &&& same_value(b[l].1@[idx].1, v)
    &&& forall|j: int| 0 <= j < a[l].1@.len() && j != idx ==> #[trigger] b[l].1@[j] == a[l].1@[j]
}

/// `b` is `a` with the first setting named `name` on every level given `v`.
pub open spec fn all_levels_set(a: Seq<(String, FlagSettings)>, b: Seq<(String, FlagSettings)>, name: Seq<char>, v: FlagValue) -> bool {
    &&& same_keys(a, b)
    &&& forall|i: int| 0 <= i < a.len() ==> settings_with(a[i].1@, #[trigger] b[i].1@, name, v)
}

/// Setting a global flag on every level keeps it in step everywhere: where
/// no level holds two settings of that name, every setting of the name on
/// every stored level has the new value, and every other setting is kept.
pub proof fn lemma_global_flag_everywhere(
    a: Seq<(String, FlagSettings)>,
    b: Seq<(String, FlagSettings)>,
    name: Seq<char>,
    v: FlagValue,
)
    requires
        all_levels_set(a, b, name, v),
        forall|i: int, j: int, k: int|
            0 <= i < a.len() && 0 <= j < k < a[i].1@.len() && #[trigger] a[i].1@[j].0@ == name ==> #[trigger] a[i].1@[k].0@
                != name,
    ensures
        b.len() == a.len(),
        forall|i: int, j: int|
            0 <= i < b.len() && 0 <= j < b[i].1@.len() && #[trigger] b[i].1@[j].0@ == name ==> same_value(
                b[i].1@[j].1,
                v,
            ),
        forall|i: int, j: int|
            0 <= i < b.len() && 0 <= j < b[i].1@.len() && #[trigger] b[i].1@[j].0@ != name ==> b[i].1@[j]
                == a[i].1@[j],
{
    assert forall|i: int, j: int| 0 <= i < b.len() && 0 <= j < b[i].1@.len() implies (#[trigger] b[i].1@[j].0@
        == name ==> same_value(b[i].1@[j].1, v)) && (b[i].1@[j].0@ != name ==> b[i].1@[j] == a[i].1@[j]) by {
        assert(settings_with(a[i].1@, b[i].1@, name, v));
        crate::flag_store::lemma_setting_index_props(a[i].1@, name);
        match crate::flag_store::setting_index(a[i].1@, name) {
            Some(i0) => {
                if j != i0 && b[i].1@[j].0@ == name {
                    assert(b[i].1@[j] == a[i].1@[j]);
                    if j < i0 {
                        assert(a[i].1@[j].0@ != name);
                    } else {
                        assert(a[i].1@[i0].0@ == name);
                        assert(a[i].1@[j].0@ != name);
                    }
                }
            },
            None => {},
        }
    }
}

/// The value Space/Enter gives a setting: a boolean flips, a negatable flag
/// cycles, a count goes up; nothing for a string, or for a count at its
/// largest value.
pub open spec fn toggle_target(v: FlagValue) -> Option<FlagValue> {
    match v {
        FlagValue::String(_) => None,
        FlagValue::Count(c) => if c == u32::MAX {
            None
        } else {
            Some(crate::values::toggled(v))
        },
        _ => Some(crate::values::toggled(v)),
    }
}

impl App {
    /// The level of the current command in the flag store.
    pub open spec fn current_level(self) -> int {
        crate::flag_store::level_index(self.flag_values.levels@, self.path_key())->0
    }

    /// `new` is `self` with the current command's setting `idx` given `v`,
    /// and, when it is a global flag of the root, every level's setting of
    /// that flag given `v` too.
    pub open spec fn flag_set_to(self, new: Self, idx: int, v: FlagValue) -> bool {
        let a = self.flag_values.levels@;
        let name = a[self.current_level()].1@[idx].0@;
        &&& exists|mid: Seq<(String, FlagSettings)>|
            level_replaced(a, mid, self.current_level(), idx, v) && if is_global_name(
                self.spec.cmd.flags@,
                name,
            ) {
                all_levels_set(mid, new.flag_values.levels@, name, v)
            } else {
                new.flag_values.levels@ == mid
            }
        &&& new == (App { flag_values: new.flag_values, ..self })
    }

    /// If `flag_name` is a global flag of the root, give its first setting
    /// on every stored level the value `new_value`, so that the command
    /// (built from the root) and the panels (showing the current level) agree.
    pub fn sync_global_flag(&mut self, flag_name: &str, new_value: &FlagValue)
        ensures
            is_global_name(old(self).spec.cmd.flags@, flag_name@) ==> all_levels_set(
                old(self).flag_values.levels@,
                final(self).flag_values.levels@,
                flag_name@,
                *new_value,
            ),
            !is_global_name(old(self).spec.cmd.flags@, flag_name@) ==> final(self).flag_values
                == old(self).flag_values,
            *final(self) == (App { flag_values: final(self).flag_values, ..*old(self) }),
    {
        if !is_global_flag_name(&self.spec.cmd.flags, flag_name) {
            return ;
        }
        self.flag_values.set_on_all_levels(flag_name, new_value);
    }

    /// Give the current command's setting `idx` the value `v`, keeping
    /// global flags in step on every level.
    fn set_current_flag_value(&mut self, idx: usize, v: FlagValue)
        requires
            old(self).stored(),
            idx < old(self).current_settings().len(),
        ensures
            old(self).flag_set_to(*final(self), idx as int, v),
    {
        let key = self.command_path_key();
        proof {
            crate::flag_store::lemma_level_index_props(self.flag_values.levels@, key@);
        }
        let pos = match self.flag_values.position(key.as_str()) {
            Some(p) => p,
            None => return ,
        };
        let ghost a = self.flag_values.levels@;
        let mut settings = crate::flag_store::copy_settings(&self.flag_values.levels[pos].1);
        let name = settings[idx].0.clone();
        settings.set(idx, (name.clone(), v.copy_value()));
        let level_key = self.flag_values.levels[pos].0.clone();
        self.flag_values.levels.set(pos, (level_key, settings));
        proof {
            crate::flag_store::lemma_same_value_refl(v);
            assert forall|i: int| 0 <= i < a.len() && i != pos implies #[trigger] self.flag_values.levels@[i] == a[i] by {}
            assert forall|i: int| 0 <= i < a.len() implies #[trigger] a[i].0@ == self.flag_values.levels@[i].0@ by {
                if i != pos {
                    assert(self.flag_values.levels@[i] == a[i]);
                }
            }
        }
        let ghost mid = self.flag_values.levels@;
        assert(level_replaced(a, mid, pos as int, idx as int, v));
        self.sync_global_flag(name.as_str(), &v);
        proof {
            assert(old(self).current_level() == pos as int);
            assert(name@ == a[pos as int].1@[idx as int].0@);
            let nm = a[pos as int].1@[idx as int].0@;
            assert(level_replaced(a, mid, old(self).current_level(), idx as int, v) && if is_global_name(
                old(self).spec.cmd.flags@,
                nm,
            ) {
                all_levels_set(mid, self.flag_values.levels@, nm, v)
            } else {
                self.flag_values.levels@ == mid
            });
        }
    }

    /// Space/Enter on the selected flag: a boolean flips, a negatable flag
    /// cycles, a count goes up (global flags kept in step); a string flag
    /// and a count at its largest value are left alone.
    pub fn toggle_simple_flag(&mut self)
        requires
            old(self).wf(),
            old(self).stored(),
        ensures
            final(self).wf(),
            final(self).stored(),
            flag_toggled(*old(self), *final(self)),
    {
        let idx = self.flag_index();
        let settings = self.current_flag_values();
        if idx < settings.len() {
            let new_value = match &settings[idx].1 {
                FlagValue::Bool(b) => Some(FlagValue::Bool(!*b)),
                FlagValue::NegBool(state) => Some(
                    FlagValue::NegBool(
                        match *state {
                            None => Some(true),
                            Some(true) => Some(false),
                            Some(false) => None,
                        },
                    ),
                ),
                FlagValue::Count(c) => if *c < u32::MAX {
                    Some(FlagValue::Count(*c + 1))
                } else {
                    None
                },
                FlagValue::String(_) => None,
            };
            if let Some(v) = new_value {
                self.set_current_flag_value(idx, v);
                let ghost mid = *self;
                proof {
                    lemma_flag_set_keeps(*old(self), mid, idx as int, v);
                }
                self.refresh_flag_panel_inputs();
                assert(flag_inputs_refreshed(mid, *self));
            }
        }
    }
}

/// `new` is `mid` with the argument panel given the current arguments'
/// filter items, item keys and Enter requests; its filter, selection and
/// edit state are kept.
pub open spec fn arg_inputs_refreshed(mid: App, new: App) -> bool {
    &&& new == (App { arg_panel: new.arg_panel, ..mid })
    &&& new.arg_panel.filtering == mid.arg_panel.filtering
    &&& new.arg_panel.filter_input == mid.arg_panel.filter_input
    &&& new.arg_panel.inner.base.filterable_items@.len() == mid.arg_values@.len()
    &&& forall|i: int|
        0 <= i < mid.arg_values@.len() ==> crate::arg_panel::is_arg_item(
            #[trigger] new.arg_panel.inner.base.filterable_items@[i],
            mid.arg_values@[i],
        )
    &&& views(new.arg_panel.inner.base.item_keys@) == mid.arg_values@.map_values(|a: ArgValue| a.name@)
    &&& new.arg_panel.inner.enter_requests@.len() == mid.arg_values@.len()
    &&& forall|i: int|
        0 <= i < mid.arg_values@.len() ==> crate::arg_panel::is_arg_enter(
            Some(#[trigger] new.arg_panel.inner.enter_requests@[i]),
            i,
            mid.arg_values@,
        )
    &&& new.arg_panel.inner.base == (crate::list_panel::ListPanelBase {
        item_keys: new.arg_panel.inner.base.item_keys,
        filterable_items: new.arg_panel.inner.base.filterable_items,
        ..mid.arg_panel.inner.base
    })
    &&& new.arg_panel.wf()
}

/// `new` is `old` with argument `index` set to `value` (its other fields
/// kept, the other arguments untouched), the arguments stored again under
/// the current path (the other paths' untouched), and the argument panel's
/// inputs refreshed; an index past the list only refreshes the panel.
pub open spec fn arg_value_set(old: App, new: App, index: usize, value: Seq<char>) -> bool {
    if index < old.arg_values@.len() {
        exists|mid: App|
            {
                &&& mid == (App { arg_values: mid.arg_values, arg_values_by_path: mid.arg_values_by_path, ..old })
                &&& mid.arg_values@.len() == old.arg_values@.len()
                &&& mid.arg_values@[index as int].value@ == value
                &&& same_arg(
                    mid.arg_values@[index as int],
                    ArgValue { value: mid.arg_values@[index as int].value, ..old.arg_values@[index as int] },
                )
                &&& forall|i: int|
                    0 <= i < old.arg_values@.len() && i != index ==> #[trigger] mid.arg_values@[i]
                        == old.arg_values@[i]
                &&& key_get(mid.arg_values_by_path@, old.path_key()) matches Some(v) && same_args(
                    v@,
                    mid.arg_values@,
                )
                &&& forall|k: Seq<char>|
                    k != old.path_key() ==> #[trigger] key_get(mid.arg_values_by_path@, k) == key_get(
                        old.arg_values_by_path@,
                        k,
                    )
                &&& #[trigger] arg_inputs_refreshed(mid, new)
            }
    } else {
        arg_inputs_refreshed(old, new)
    }
}

/// `new` is `mid` after the flag panel's inputs were refreshed.
pub open spec fn flag_inputs_refreshed(mid: App, new: App) -> bool {
    &&& new == (App { flag_panel: new.flag_panel, ..mid })
    &&& new.flag_panel.filtering == mid.flag_panel.filtering
    &&& new.flag_panel.filter_input == mid.flag_panel.filter_input
    &&& new.flag_panel.inner.base.filterable_items@.len() == mid.flags_shown().len()
    &&& crate::flag_panel::lists_enter_requests(
        new.flag_panel.inner.enter_requests@,
        mid.flags_shown(),
        mid.current_settings(),
        mid.flags_shown().len() as int,
    )
    &&& new.flag_panel.inner.base == (crate::list_panel::ListPanelBase {
        item_keys: new.flag_panel.inner.base.item_keys,
        filterable_items: new.flag_panel.inner.base.filterable_items,
        ..mid.flag_panel.inner.base
    })
    &&& new.flag_panel.inner.negate_cols == mid.flag_panel.inner.negate_cols
    &&& new.flag_panel.wf()
}

/// Setting a flag keeps every level's key, so the current command stays stored.
proof fn lemma_flag_set_keeps(a: App, b: App, idx: int, v: FlagValue)
    requires
        a.stored(),
        a.flag_set_to(b, idx, v),
    ensures
        b.stored(),
        same_keys(a.flag_values.levels@, b.flag_values.levels@),
{
    let mid = choose|mid: Seq<(String, FlagSettings)>|
        level_replaced(a.flag_values.levels@, mid, a.current_level(), idx, v) && if is_global_name(
            a.spec.cmd.flags@,
            a.flag_values.levels@[a.current_level()].1@[idx].0@,
        ) {
            all_levels_set(mid, b.flag_values.levels@, a.flag_values.levels@[a.current_level()].1@[idx].0@, v)
        } else {
            b.flag_values.levels@ == mid
        };
    assert(same_keys(a.flag_values.levels@, b.flag_values.levels@));
    crate::flag_store::lemma_level_index_same_keys(a.flag_values.levels@, b.flag_values.levels@, a.path_key());
}

impl App {
    /// Give the current command's setting `idx` the value `v` (global flags
    /// kept in step), then refresh the flag panel's inputs.
    fn change_flag(&mut self, idx: usize, v: FlagValue)
        requires
            old(self).wf(),
            old(self).stored(),
            idx < old(self).current_settings().len(),
        ensures
            final(self).wf(),
            final(self).stored(),
            exists|mid: App| old(self).flag_set_to(mid, idx as int, v) && flag_inputs_refreshed(mid, *final(self)),
    {
        self.set_current_flag_value(idx, v);
        let ghost mid = *self;
        proof {
            lemma_flag_set_keeps(*old(self), mid, idx as int, v);
        }
        self.refresh_flag_panel_inputs();
        assert(flag_inputs_refreshed(mid, *self));
    }

    /// Set the string flag `flag_idx` of the current command to `value`
    /// (global flags kept in step); other kinds of flag are left alone.
    pub fn apply_flag_string_value(&mut self, flag_idx: usize, value: &str)
        requires
            old(self).wf(),
            old(self).stored(),
        ensures
            final(self).wf(),
            final(self).stored(),
            flag_idx < old(self).current_settings().len() && old(self).current_settings()[flag_idx as int].1 is String
                ==> exists|mid: App, v: FlagValue|
                crate::values::is_string_value(v, value@) && old(self).flag_set_to(mid, flag_idx as int, v)
                    && flag_inputs_refreshed(mid, *final(self)),
            !(flag_idx < old(self).current_settings().len() && old(self).current_settings()[flag_idx as int].1 is String)
                ==> *final(self) == *old(self),
    {
        let settings = self.current_flag_values();
        if flag_idx < settings.len() {
            if let FlagValue::String(_) = &settings[flag_idx].1 {
                let v = FlagValue::String(string_of(value));
                let ghost gv = v;
                self.change_flag(flag_idx, v);
                assert(crate::values::is_string_value(gv, value@));
            }
        }
    }

    /// Backspace on flag `idx`: a boolean turns off, a count goes down, a
    /// string empties, a negatable flag becomes omitted (global flags kept in step).
    pub fn clear_flag(&mut self, idx: usize)
        requires
            old(self).wf(),
            old(self).stored(),
        ensures
            final(self).wf(),
            final(self).stored(),
            idx < old(self).current_settings().len() ==> exists|mid: App, v: FlagValue|
                crate::values::is_cleared(old(self).current_settings()[idx as int].1, v)
                    && old(self).flag_set_to(mid, idx as int, v) && flag_inputs_refreshed(mid, *final(self)),
            idx >= old(self).current_settings().len() ==> *final(self) == *old(self),
    {
        let settings = self.current_flag_values();
        if idx < settings.len() {
            let mut v = settings[idx].1.copy_value();
            v.clear();
            let ghost gv = v;
            self.change_flag(idx, v);
            assert(crate::values::is_cleared(old(self).current_settings()[idx as int].1, gv));
        }
    }

    /// A click on one name of the negatable flag `idx`: the state becomes
    /// `target`, or omitted when it already was `target`.
    pub fn click_negatable_flag(&mut self, idx: usize, target: Option<bool>)
        requires
            old(self).wf(),
            old(self).stored(),
        ensures
            final(self).wf(),
            final(self).stored(),
            (idx < old(self).current_settings().len() && old(self).current_settings()[idx as int].1 is NegBool)
                ==> exists|mid: App|
                old(self).flag_set_to(
                    mid,
                    idx as int,
                    FlagValue::NegBool(
                        crate::values::neg_clicked(old(self).current_settings()[idx as int].1->NegBool_0, target),
                    ),
                ) && flag_inputs_refreshed(mid, *final(self)),
            !(idx < old(self).current_settings().len() && old(self).current_settings()[idx as int].1 is NegBool)
                ==> *final(self) == *old(self),
    {
        let settings = self.current_flag_values();
        if idx < settings.len() {
            if let FlagValue::NegBool(state) = &settings[idx].1 {
                let new_state = if *state == target {
                    None
                } else {
                    target
                };
                self.change_flag(idx, FlagValue::NegBool(new_state));
            }
        }
    }

    /// Set argument `index` of the current command to `value` and store the
    /// arguments; the argument panel's inputs are refreshed either way.
    pub fn set_arg_value(&mut self, index: usize, value: String)
        requires
            old(self).wf(),
            old(self).stored(),
        ensures
            final(self).wf(),
            final(self).stored(),
            final(self).arg_values@.len() == old(self).arg_values@.len(),
            index < old(self).arg_values@.len() ==> final(self).arg_values@[index as int].value@ == value@
                && final(self).arg_values@[index as int].name@ == old(self).arg_values@[index as int].name@
                && (key_get(final(self).arg_values_by_path@, old(self).path_key()) matches Some(v) && same_args(
                v@,
                final(self).arg_values@,
            )),
            forall|i: int|
                0 <= i < old(self).arg_values@.len() && i != index ==> #[trigger] final(self).arg_values@[i]
                    == old(self).arg_values@[i],
            index >= old(self).arg_values@.len() ==> final(self).arg_values == old(self).arg_values
                && final(self).arg_values_by_path == old(self).arg_values_by_path,
            final(self).flag_values == old(self).flag_values,
            final(self).command_path == old(self).command_path,
            final(self).spec == old(self).spec,
            final(self).focus_manager == old(self).focus_manager,
            final(self).flag_panel == old(self).flag_panel,
            final(self).arg_panel.inner.base.editing == old(self).arg_panel.inner.base.editing,
            final(self).arg_panel.filtering == old(self).arg_panel.filtering,
            final(self).arg_panel.inner.base.filter_text == old(self).arg_panel.inner.base.filter_text,
            final(self).arg_panel.inner.base.choice_select == old(self).arg_panel.inner.base.choice_select,
            arg_value_set(*old(self), *final(self), index, value@),
    {
        if index < self.arg_values.len() {
            let ghost before = self.arg_values@[index as int];
            let mut a = self.arg_values[index].copy_arg();
            a.value = value;
            assert(views(a.choices@) =~= views(before.choices@));
            assert(same_arg(a, ArgValue { value: a.value, ..before }));
            self.arg_values.set(index, a);
            self.persist_current_arg_values();
            let ghost mid = *self;
            self.refresh_arg_panel_inputs();
            assert(arg_inputs_refreshed(mid, *self));
        } else {
            self.refresh_arg_panel_inputs();
        }
    }
}

/// `new` is `old` after following the command path `path`: the path is
/// taken; when it changes, the arguments being left are stored under the
/// old path; every other command's stored arguments and every stored level
/// of flag settings are kept; the current arguments are those stored for
/// the new path.
pub open spec fn navigated(old: App, new: App, path: Seq<Seq<char>>) -> bool {
    let ok = old.path_key();
    let nk = new.path_key();
    &&& new.path_view() == path
    &&& new.stored()
    &&& same_args(new.arg_values@, key_get(new.arg_values_by_path@, nk)->0@)
    &&& (path != old.path_view() ==> (key_get(new.arg_values_by_path@, ok) matches Some(v) && same_args(
        v@,
        old.arg_values@,
    )) || ok == nk)
    &&& forall|k: Seq<char>|
        k != ok && k != nk ==> #[trigger] key_get(new.arg_values_by_path@, k) == key_get(old.arg_values_by_path@, k)
    &&& (nk != ok && key_get(old.arg_values_by_path@, nk) is Some ==> key_get(new.arg_values_by_path@, nk)
        == key_get(old.arg_values_by_path@, nk))
    &&& forall|k: Seq<char>|
        store_get(old.flag_values.levels@, k) is Some ==> #[trigger] store_get(new.flag_values.levels@, k)
            == store_get(old.flag_values.levels@, k)
    &&& (old.focus_manager.elements@.len() > 0 && new.focus_manager.elements@.contains(old.focus_spec())
        ==> new.focus_spec() == old.focus_spec())
}

/// Leaving a command for another one and coming back finds its arguments
/// as they were left.
pub proof fn lemma_args_kept_across_visit(a: App, b: App, c: App, q: Seq<Seq<char>>)
    requires
        navigated(a, b, q),
        navigated(b, c, a.path_view()),
        join_words(q) != a.path_key(),
    ensures
        same_args(c.arg_values@, a.arg_values@),
{
    let v = key_get(b.arg_values_by_path@, a.path_key())->0;
    assert(same_args(v@, a.arg_values@));
    assert(key_get(c.arg_values_by_path@, a.path_key()) == key_get(b.arg_values_by_path@, a.path_key()));
    assert forall|i: int| 0 <= i < c.arg_values@.len() implies same_arg(#[trigger] c.arg_values@[i], a.arg_values@[i]) by {
        assert(same_arg(c.arg_values@[i], v@[i]));
        assert(same_arg(v@[i], a.arg_values@[i]));
    }
}

/// Leaving a command for another one and coming back finds its flag
/// settings as they were left.
pub proof fn lemma_flags_kept_across_visit(a: App, b: App, c: App, q: Seq<Seq<char>>)
    requires
        a.stored(),
        navigated(a, b, q),
        navigated(b, c, a.path_view()),
    ensures
        store_get(c.flag_values.levels@, a.path_key()) == store_get(a.flag_values.levels@, a.path_key()),
{
    assert(store_get(b.flag_values.levels@, a.path_key()) == store_get(a.flag_values.levels@, a.path_key()));
    assert(store_get(c.flag_values.levels@, a.path_key()) == store_get(b.flag_values.levels@, a.path_key()));
}

/// What an action of the flag panel does to the app (`new` is `old` after it).
pub open spec fn flag_action_effect(old: App, new: App, action: FlagPanelAction) -> bool {
    &&& new.focus_manager == old.focus_manager
    &&& match action {
        FlagPanelAction::ChoiceSelected { index, value } | FlagPanelAction::ChoiceCancelled { index, value }
        | FlagPanelAction::ValueChanged { index, value } | FlagPanelAction::EditFinished { index, value } =>
            string_flag_applied(old, new, index, value@),
        FlagPanelAction::ClearFlag(idx) => flag_cleared(old, new, idx),
        FlagPanelAction::NegBoolClick(idx, target) => negatable_clicked(old, new, idx, target),
        FlagPanelAction::ToggleFlag(_) => flag_toggled(old, new),
        FlagPanelAction::EnterRequest(request) => flag_enter_effect(old, new, request),
    }
}

/// What an action of the argument panel does to the app: a change sets the
/// argument's value (Backspace empties it); Enter opens, edits or completes.
pub open spec fn arg_action_effect(old: App, new: App, action: ArgPanelAction) -> bool {
    &&& new.focus_manager == old.focus_manager
    &&& match action {
        ArgPanelAction::ClearArg(idx) => arg_value_set(old, new, idx, Seq::empty()),
        ArgPanelAction::ChoiceSelected { index, value } | ArgPanelAction::ChoiceCancelled { index, value }
        | ArgPanelAction::ValueChanged { index, value } | ArgPanelAction::EditFinished { index, value } =>
            arg_value_set(old, new, index, value@),
        ArgPanelAction::EnterRequest(request) => arg_enter_effect(old, new, request),
    }
}

/// What the app does with the command panel's answer: a changed path is
/// followed, Tab and Shift-Tab out of its filter move focus, anything else
/// leaves the app as it is.
pub open spec fn command_result_effect(old: App, new: App, result: EventResult<FilterAction<CommandPanelAction>>) -> bool {
    match result {
        EventResult::Action(FilterAction::Inner(CommandPanelAction::PathChanged(p))) => navigated(old, new, views(p@)),
        EventResult::Action(FilterAction::FocusNext) => focus_cycled(old, new, true),
        EventResult::Action(FilterAction::FocusPrev) => focus_cycled(old, new, false),
        _ => new == old,
    }
}

/// What the app does with the flag panel's answer.
pub open spec fn flag_result_effect(old: App, new: App, result: EventResult<FilterAction<FlagPanelAction>>) -> bool {
    match result {
        EventResult::Action(FilterAction::Inner(a)) => flag_action_effect(old, new, a),
        EventResult::Action(FilterAction::FocusNext) => focus_cycled(old, new, true),
        EventResult::Action(FilterAction::FocusPrev) => focus_cycled(old, new, false),
        _ => new == old,
    }
}

/// What the app does with the argument panel's answer.
pub open spec fn arg_result_effect(old: App, new: App, result: EventResult<FilterAction<ArgPanelAction>>) -> bool {
    match result {
        EventResult::Action(FilterAction::Inner(a)) => arg_action_effect(old, new, a),
        EventResult::Action(FilterAction::FocusNext) => focus_cycled(old, new, true),
        EventResult::Action(FilterAction::FocusPrev) => focus_cycled(old, new, false),
        _ => new == old,
    }
}

/// The first `complete` directive of `cmd` for the argument named `name`.
pub open spec fn completion_for(cmd: CommandSpec, name: Seq<char>) -> Option<crate::spec_model::CompleteSpec> {
    if exists|i: int| 0 <= i < cmd.complete@.len() && #[trigger] cmd.complete@[i].name@ == name {
        Some(
            cmd.complete@[choose|i: int|
                0 <= i < cmd.complete@.len() && cmd.complete@[i].name@ == name && forall|j: int|
                    0 <= j < i ==> #[trigger] cmd.complete@[j].name@ != name],
        )
    } else {
        None
    }
}

/// The selected flag's current string value, or `fallback` when it holds none.
pub open spec fn string_value_or(a: App, index: usize, fallback: Seq<char>) -> Seq<char> {
    if index < a.current_settings().len() && a.current_settings()[index as int].1 is String {
        a.current_settings()[index as int].1->String_0@
    } else {
        fallback
    }
}

/// Argument `index`'s current value, or `fallback` past the list.
pub open spec fn arg_value_or(a: App, index: usize, fallback: Seq<char>) -> Seq<char> {
    if index < a.arg_values@.len() {
        a.arg_values@[index as int].value@
    } else {
        fallback
    }
}

/// The completion directive with a command for `name` on the current command, if any.
pub open spec fn runnable_completion(a: App, name: Option<String>) -> Option<crate::spec_model::CompleteSpec> {
    match name {
        Some(n) => match completion_for(a.command(), n@) {
            Some(c) => if c.run is Some {
                Some(c)
            } else {
                None
            },
            None => None,
        },
        None => None,
    }
}

/// `new` is `old` after Space on the selected flag: a boolean flips, a
/// negatable flag cycles, a count goes up; other flags stay as they are.
pub open spec fn flag_toggled(old: App, new: App) -> bool {
    let idx = old.flag_panel.inner.base.list_state.selected_index;
    if idx < old.current_settings().len() && toggle_target(old.current_settings()[idx as int].1) is Some {
        exists|mid: App|
            old.flag_set_to(mid, idx as int, toggle_target(old.current_settings()[idx as int].1)->0)
                && flag_inputs_refreshed(mid, new)
    } else {
        new == old
    }
}

/// One toggle of the selected flag: the selection stays, the current
/// command's settings keep their number, and the selected setting holds
/// the toggled value.
proof fn lemma_toggle_step(old: App, new: App)
    requires
        old.stored(),
        flag_toggled(old, new),
        old.flag_panel.inner.base.list_state.selected_index < old.current_settings().len(),
        toggle_target(old.current_settings()[old.flag_panel.inner.base.list_state.selected_index as int].1) is Some,
    ensures
        new.stored(),
        new.flag_panel.inner.base.list_state.selected_index == old.flag_panel.inner.base.list_state.selected_index,
        new.current_settings().len() == old.current_settings().len(),
        same_value(
            new.current_settings()[old.flag_panel.inner.base.list_state.selected_index as int].1,
            toggle_target(old.current_settings()[old.flag_panel.inner.base.list_state.selected_index as int].1)->0,
        ),
{
    let idx = old.flag_panel.inner.base.list_state.selected_index;
    let v = toggle_target(old.current_settings()[idx as int].1)->0;
    let mid = choose|mid: App| old.flag_set_to(mid, idx as int, v) && flag_inputs_refreshed(mid, new);
    let a = old.flag_values.levels@;
    let key = old.path_key();
    let l = old.current_level();
    crate::flag_store::lemma_level_index_props(a, key);
    let name = a[l].1@[idx as int].0@;
    let mseq = choose|mseq: Seq<(String, FlagSettings)>|
        level_replaced(a, mseq, l, idx as int, v) && if is_global_name(old.spec.cmd.flags@, name) {
            all_levels_set(mseq, mid.flag_values.levels@, name, v)
        } else {
            mid.flag_values.levels@ == mseq
        };
    let b = mid.flag_values.levels@;
    assert(same_keys(a, b));
    crate::flag_store::lemma_level_index_same_keys(a, b, key);
    assert(new.flag_values == mid.flag_values);
    assert(new.path_key() == key);
    if is_global_name(old.spec.cmd.flags@, name) {
        assert(settings_with(mseq[l].1@, b[l].1@, name, v));
        crate::flag_store::lemma_setting_index_props(mseq[l].1@, name);
    }
}

/// Toggling a negatable flag cycles omitted, on, off and back to omitted:
/// three toggles of an omitted one return it to omitted.
pub proof fn lemma_negatable_toggle_period(a: App, b: App, c: App, d: App)
    requires
        a.stored(),
        flag_toggled(a, b),
        flag_toggled(b, c),
        flag_toggled(c, d),
        a.flag_panel.inner.base.list_state.selected_index < a.current_settings().len(),
        a.current_settings()[a.flag_panel.inner.base.list_state.selected_index as int].1 == FlagValue::NegBool(None),
    ensures
        ({
            let i = a.flag_panel.inner.base.list_state.selected_index as int;
            &&& b.current_settings()[i].1 == FlagValue::NegBool(Some(true))
            &&& c.current_settings()[i].1 == FlagValue::NegBool(Some(false))
            &&& d.current_settings()[i].1 == FlagValue::NegBool(None)
        }),
{
    lemma_toggle_step(a, b);
    lemma_toggle_step(b, c);
    lemma_toggle_step(c, d);
}

/// What Enter on a flag does (`new` is `old` after the request): a toggle
/// as Space does; a choice box opened on the item with its choices and the
/// current value; otherwise, when the flag's argument has a completion
/// command, a completion asked for, else inline editing of the current value.
pub open spec fn flag_enter_effect(old: App, new: App, request: FlagPanelEnterRequest) -> bool {
    match request {
        FlagPanelEnterRequest::Toggle => flag_toggled(old, new),
        FlagPanelEnterRequest::ChoiceSelect { index, choices, current_value, value_column } => {
            let cur = string_value_or(old, index, current_value@);
            &&& new.flag_panel.inner.base.choice_select.state matches Some(s) && s.choices@ == choices@
                && s.edit_input.chars@ == cur && s.selected_index
                == crate::choice_select::first_choice_index(choices@, cur)
            &&& new.flag_panel.inner.base.choice_select_index == Some(index)
            &&& new.flag_panel.inner.base.value_column == value_column
            &&& new.flag_panel.inner.base.editing == old.flag_panel.inner.base.editing
            &&& new.flag_panel.inner.base.list_state == old.flag_panel.inner.base.list_state
            &&& new.flag_panel.filtering == old.flag_panel.filtering
            &&& new.flag_panel.filter_input == old.flag_panel.filter_input
            &&& new == (App { flag_panel: new.flag_panel, ..old })
        },
        FlagPanelEnterRequest::EditOrComplete { index, arg_name, current_value, value_column } => {
            let cur = string_value_or(old, index, current_value@);
            match runnable_completion(old, arg_name) {
                Some(c) => completion_requested(new.pending_completion, Focus::Flags, index, c, cur, value_column)
                    && new == (App { pending_completion: new.pending_completion, ..old }),
                None => {
                    &&& new.flag_panel.inner.base.edit_input.chars@ == cur
                    &&& new.flag_panel.inner.base.edit_input.cursor == cur.len()
                    &&& new == (App {
                        flag_panel: FilterableComponent {
                            inner: FlagPanelComponent {
                                base: crate::list_panel::ListPanelBase {
                                    editing: true,
                                    edit_input: new.flag_panel.inner.base.edit_input,
                                    ..old.flag_panel.inner.base
                                },
                                ..old.flag_panel.inner
                            },
                            ..old.flag_panel
                        },
                        ..old
                    })
                },
            }
        },
    }
}

/// What Enter on an argument does (`new` is `old` after the request): a
/// choice box opened with its choices and the current value; otherwise,
/// when the argument has a completion command, a completion asked for, else
/// inline editing of the current value. The argument values stay.
pub open spec fn arg_enter_effect(old: App, new: App, request: ArgPanelEnterRequest) -> bool {
    match request {
        ArgPanelEnterRequest::ChoiceSelect { index, choices, current_value, value_column } => {
            let cur = arg_value_or(old, index, current_value@);
            &&& new.arg_panel.inner.base.choice_select.state matches Some(s) && s.choices@ == choices@
                && s.edit_input.chars@ == cur && s.selected_index
                == crate::choice_select::first_choice_index(choices@, cur)
            &&& new.arg_panel.inner.base.choice_select_index == Some(index)
            &&& new.arg_panel.inner.base.value_column == value_column
            &&& new.arg_panel.inner.base.editing == old.arg_panel.inner.base.editing
            &&& new.arg_panel.inner.base.list_state == old.arg_panel.inner.base.list_state
            &&& new.arg_panel.filtering == old.arg_panel.filtering
            &&& new.arg_panel.filter_input == old.arg_panel.filter_input
            &&& new == (App { arg_panel: new.arg_panel, ..old })
        },
        ArgPanelEnterRequest::EditOrComplete { index, arg_name, current_value, value_column } => {
            let cur = arg_value_or(old, index, current_value@);
            match runnable_completion(old, Some(arg_name)) {
                Some(c) => completion_requested(new.pending_completion, Focus::Args, index, c, cur, value_column)
                    && new == (App { pending_completion: new.pending_completion, ..old }),
                None => {
                    &&& new.arg_panel.inner.base.edit_input.chars@ == cur
                    &&& new.arg_panel.inner.base.edit_input.cursor == cur.len()
                    &&& new == (App {
                        arg_panel: FilterableComponent {
                            inner: ArgPanelComponent {
                                base: crate::list_panel::ListPanelBase {
                                    editing: true,
                                    edit_input: new.arg_panel.inner.base.edit_input,
                                    ..old.arg_panel.inner.base
                                },
                                ..old.arg_panel.inner
                            },
                            ..old.arg_panel
                        },
                        ..old
                    })
                },
            }
        },
    }
}

/// What Enter on a value that has a completion command asks for: run it
/// and offer its values.
pub open spec fn completion_requested(
    r: Option<CompletionRequest>,
    panel: Focus,
    index: usize,
    c: crate::spec_model::CompleteSpec,
    current_value: Seq<char>,
    value_column: u16,
) -> bool {
    r matches Some(q) && q.panel == panel && q.index == index && q.run@ == c.run->0@
        && q.descriptions == c.descriptions && q.current_value@ == current_value && q.value_column
        == value_column
}

impl App {
    /// Follow a new command path: store the arguments of the old one when the
    /// path changes, then synchronize with the new one.
    pub fn set_command_path(&mut self, new_path: Vec<String>)
        requires
            old(self).wf(),
        ensures
            final(self).wf(),
            final(self).stored(),
            final(self).path_view() == views(new_path@),
            final(self).spec == old(self).spec,
            final(self).command_panel == old(self).command_panel,
            final(self).theme_name == old(self).theme_name,
            final(self).mode == old(self).mode,
            final(self).layout == old(self).layout,
            final(self).theme_picker == old(self).theme_picker,
            final(self).mouse_position == old(self).mouse_position,
            final(self).pending_completion == old(self).pending_completion,
            navigated(*old(self), *final(self), views(new_path@)),
    {
        let ghost p = views(new_path@);
        if !crate::command_panel::same_path(&self.command_path, &new_path) {
            self.persist_current_arg_values();
            self.command_path = new_path;
        }
        let ghost mid = *self;
        assert(mid.path_view() == p);
        self.sync_state();
        assert(key_get(self.arg_values_by_path@, self.path_key()) == key_get(self.arg_values_by_path@, mid.path_key()));
    }

    /// Update the command path from the command panel's selection.
    pub fn sync_command_path_from_tree(&mut self)
        requires
            old(self).wf(),
        ensures
            final(self).wf(),
            final(self).stored(),
            final(self).path_view() == old(self).command_panel.inner.path_view(),
            navigated(*old(self), *final(self), old(self).command_panel.inner.path_view()),
            final(self).command_panel == old(self).command_panel,
            final(self).spec == old(self).spec,
            final(self).theme_name == old(self).theme_name,
            final(self).mode == old(self).mode,
            final(self).theme_picker == old(self).theme_picker,
            final(self).mouse_position == old(self).mouse_position,
            final(self).pending_completion == old(self).pending_completion,
    {
        let path = crate::values::copy_strings(&self.command_panel.inner.path);
        assert(views(path@) =~= old(self).command_panel.inner.path_view());
        self.set_command_path(path);
    }

    /// A changed path in the command panel becomes the command path.
    pub fn process_command_action(&mut self, action: CommandPanelAction)
        requires
            old(self).wf(),
        ensures
            final(self).wf(),
            final(self).stored(),
            final(self).path_view() == match action {
                CommandPanelAction::PathChanged(p) => views(p@),
            },
            navigated(*old(self), *final(self), final(self).path_view()),
            final(self).command_panel == old(self).command_panel,
    {
        match action {
            CommandPanelAction::PathChanged(new_path) => {
                self.set_command_path(new_path);
            },
        }
    }

    /// Select command `idx`; a changed path becomes the command path.
    pub fn set_command_index(&mut self, idx: usize)
        requires
            old(self).wf(),
        ensures
            final(self).wf(),
            old(self).command_panel.inner.moved_to(
                final(self).command_panel.inner,
                if idx < old(self).command_panel.inner.flat().len() {
                    Some(idx)
                } else {
                    None
                },
            ),
            final(self).command_panel.inner.path_view() != old(self).command_panel.inner.path_view()
                ==> final(self).path_view() == final(self).command_panel.inner.path_view(),
            ({
                let moved = App {
                    command_panel: FilterableComponent { inner: final(self).command_panel.inner, ..old(self).command_panel },
                    ..*old(self)
                };
                if final(self).command_panel.inner.path_view() != old(self).command_panel.inner.path_view() {
                    navigated(moved, *final(self), final(self).command_panel.inner.path_view())
                        && final(self).command_panel == moved.command_panel
                } else {
                    *final(self) == moved
                }
            }),
    {
        if self.command_panel.inner.select_item(idx) {
            self.sync_command_path_from_tree();
        }
    }

    /// Navigate to a command path: select it in the command panel and follow it.
    pub fn navigate_to_command(&mut self, path: &Vec<String>)
        requires
            old(self).wf(),
        ensures
            final(self).wf(),
            final(self).stored(),
            old(self).command_panel.inner.moved_to(
                final(self).command_panel.inner,
                crate::command_panel::as_target(
                    crate::command_panel::first_with_id(
                        old(self).command_panel.inner.flat(),
                        join_words(views(path@)),
                    ),
                ),
            ),
            final(self).path_view() == final(self).command_panel.inner.path_view(),
            navigated(
                App {
                    command_panel: FilterableComponent { inner: final(self).command_panel.inner, ..old(self).command_panel },
                    ..*old(self)
                },
                *final(self),
                final(self).command_panel.inner.path_view(),
            ),
            final(self).command_panel.filtering == old(self).command_panel.filtering,
            final(self).command_panel.filter_input == old(self).command_panel.filter_input,
    {
        self.command_panel.inner.navigate_to(path);
        self.sync_command_path_from_tree();
    }

    /// The `complete` directive for the argument named `arg_name` on the current command.
    pub fn find_completion(&self, arg_name: &str) -> (r: Option<&crate::spec_model::CompleteSpec>)
        ensures
            match r {
                Some(c) => completion_for(self.command(), arg_name@) == Some(*c),
                None => completion_for(self.command(), arg_name@) is None,
            },
    {
        let cmd = command_of(&self.spec, &self.command_path);
        let mut i: usize = 0;
        while i < cmd.complete.len()
            invariant
                i <= cmd.complete@.len(),
                *cmd == self.command(),
                forall|j: int| 0 <= j < i ==> #[trigger] cmd.complete@[j].name@ != arg_name@,
            decreases cmd.complete@.len() - i,
        {
            if str_eq(cmd.complete[i].name.as_str(), arg_name) {
                proof {
                    let c = choose|k: int|
                        0 <= k < cmd.complete@.len() && cmd.complete@[k].name@ == arg_name@ && forall|j: int|
                            0 <= j < k ==> #[trigger] cmd.complete@[j].name@ != arg_name@;
                    assert(0 <= c < cmd.complete@.len() && cmd.complete@[c].name@ == arg_name@ && forall|j: int|
                        0 <= j < c ==> #[trigger] cmd.complete@[j].name@ != arg_name@);
                    if c < i {
                        assert(cmd.complete@[c].name@ != arg_name@);
                    }
                    if c > i {
                        assert(cmd.complete@[i as int].name@ != arg_name@);
                    }
                }
                return Some(&cmd.complete[i]);
            }
            i = i + 1;
        }
        None
    }

    /// The completion command for `arg_name`, when its directive has one.
    fn completion_command(&self, arg_name: &str) -> (r: Option<(String, bool)>)
        ensures
            match completion_for(self.command(), arg_name@) {
                Some(c) => match c.run {
                    Some(run) => r matches Some((cmd, d)) && cmd@ == run@ && d == c.descriptions,
                    None => r is None,
                },
                None => r is None,
            },
    {
        match self.find_completion(arg_name) {
            Some(c) => match &c.run {
                Some(run) => Some((string_of(run.as_str()), c.descriptions)),
                None => None,
            },
            None => None,
        }
    }

    /// Enter on a flag: toggle it, open its choice box, or edit its value —
    /// asking first for its completions when its argument has a completion command.
    pub fn process_flag_enter_request(&mut self, request: FlagPanelEnterRequest)
        requires
            old(self).wf(),
            old(self).stored(),
        ensures
            final(self).wf(),
            final(self).stored(),
            flag_enter_effect(*old(self), *final(self), request),
            final(self).focus_manager == old(self).focus_manager,
    {
        match request {
            FlagPanelEnterRequest::Toggle => {
                self.toggle_simple_flag();
            },
            FlagPanelEnterRequest::ChoiceSelect { index, choices, current_value, value_column } => {
                let current_value = self.current_string_value(index, current_value);
                self.flag_panel.inner.open_choice_select(index, choices, current_value.as_str(), value_column);
            },
            FlagPanelEnterRequest::EditOrComplete { index, arg_name, current_value, value_column } => {
                let current_value = self.current_string_value(index, current_value);
                if let Some(name) = arg_name {
                    if let Some((run, descriptions)) = self.completion_command(name.as_str()) {
                        self.pending_completion = Some(
                            CompletionRequest { panel: Focus::Flags, index, run, descriptions, current_value, value_column },
                        );
                        return ;
                    }
                }
                self.flag_panel.inner.start_editing(current_value.as_str());
            },
        }
    }

    /// The current string value of flag `index`, or `fallback` when it has none.
    fn current_string_value(&self, index: usize, fallback: String) -> (r: String)
        ensures
            (index < self.current_settings().len() && self.current_settings()[index as int].1 is String)
                ==> r@ == self.current_settings()[index as int].1->String_0@,
            !(index < self.current_settings().len() && self.current_settings()[index as int].1 is String)
                ==> r@ == fallback@,
    {
        let settings = self.current_flag_values();
        if index < settings.len() {
            if let FlagValue::String(t) = &settings[index].1 {
                return string_of(t.as_str());
            }
        }
        fallback
    }

    /// Enter on an argument: open its choice box, or edit its value — asking
    /// first for its completions when it has a completion command.
    pub fn process_arg_enter_request(&mut self, request: ArgPanelEnterRequest)
        requires
            old(self).wf(),
            old(self).stored(),
        ensures
            final(self).wf(),
            final(self).stored(),
            final(self).focus_manager == old(self).focus_manager,
            final(self).arg_values == old(self).arg_values,
            arg_enter_effect(*old(self), *final(self), request),
    {
        match request {
            ArgPanelEnterRequest::ChoiceSelect { index, choices, current_value, value_column } => {
                let current_value = self.current_arg_value(index, current_value);
                self.arg_panel.inner.open_choice_select(index, choices, current_value.as_str(), value_column);
            },
            ArgPanelEnterRequest::EditOrComplete { index, arg_name, current_value, value_column } => {
                let current_value = self.current_arg_value(index, current_value);
                if let Some((run, descriptions)) = self.completion_command(arg_name.as_str()) {
                    self.pending_completion = Some(
                        CompletionRequest { panel: Focus::Args, index, run, descriptions, current_value, value_column },
                    );
                    return ;
                }
                self.arg_panel.inner.start_editing(current_value.as_str());
            },
        }
    }

    /// The current value of argument `index`, or `fallback` past the list.
    fn current_arg_value(&self, index: usize, fallback: String) -> (r: String)
        ensures
            index < self.arg_values@.len() ==> r@ == self.arg_values@[index as int].value@,
            index >= self.arg_values@.len() ==> r@ == fallback@,
    {
        if index < self.arg_values.len() {
            string_of(self.arg_values[index].value.as_str())
        } else {
            fallback
        }
    }

    /// Take the completion command waiting to be run, if any.
    pub fn take_pending_completion(&mut self) -> (r: Option<CompletionRequest>)
        ensures
            r == old(self).pending_completion,
            *final(self) == (App { pending_completion: None, ..*old(self) }),
    {
        let r = self.pending_completion.take();
        r
    }

    /// Finish a completion: with values, open the completion box on the item
    /// that asked; without, edit its value inline.
    pub fn finish_completion(
        &mut self,
        request: CompletionRequest,
        result: Option<(Vec<String>, Vec<Option<String>>)>,
    )
        requires
            old(self).wf(),
        ensures
            final(self).wf(),
            request.panel == Focus::Flags ==> match result {
                Some((choices, descriptions)) => final(self).flag_panel.inner.base.choice_select.state matches Some(s)
                    && s.choices@ == choices@ && s.descriptions@ == descriptions@
                    && final(self).flag_panel.inner.base.choice_select_index == Some(request.index)
                    && final(self).flag_panel.inner.base.editing,
                None => final(self).flag_panel.inner.base.editing
                    && final(self).flag_panel.inner.base.edit_input.chars@ == request.current_value@,
            },
            request.panel == Focus::Args ==> match result {
                Some((choices, descriptions)) => final(self).arg_panel.inner.base.choice_select.state matches Some(s)
                    && s.choices@ == choices@ && s.descriptions@ == descriptions@
                    && final(self).arg_panel.inner.base.choice_select_index == Some(request.index)
                    && final(self).arg_panel.inner.base.editing,
                None => final(self).arg_panel.inner.base.editing
                    && final(self).arg_panel.inner.base.edit_input.chars@ == request.current_value@,
            },
            request.panel == Focus::Flags ==> (match result {
                Some(_) => final(self).flag_panel.inner.base.value_column == request.value_column
                    && final(self).flag_panel.inner.base.edit_input.chars@ == request.current_value@
                    && final(self).flag_panel.inner.base.list_state == old(self).flag_panel.inner.base.list_state,
                None => true,
            }) && *final(self) == (App {
                flag_panel: FilterableComponent {
                    inner: FlagPanelComponent { base: final(self).flag_panel.inner.base, ..old(self).flag_panel.inner },
                    ..old(self).flag_panel
                },
                ..*old(self)
            }),
            request.panel == Focus::Args ==> (match result {
                Some(_) => final(self).arg_panel.inner.base.value_column == request.value_column
                    && final(self).arg_panel.inner.base.edit_input.chars@ == request.current_value@
                    && final(self).arg_panel.inner.base.list_state == old(self).arg_panel.inner.base.list_state,
                None => true,
            }) && *final(self) == (App {
                arg_panel: FilterableComponent {
                    inner: ArgPanelComponent { base: final(self).arg_panel.inner.base, ..old(self).arg_panel.inner },
                    ..old(self).arg_panel
                },
                ..*old(self)
            }),
            request.panel != Focus::Flags && request.panel != Focus::Args ==> *final(self) == *old(self),
            final(self).flag_values == old(self).flag_values,
            final(self).arg_values == old(self).arg_values,
            final(self).command_path == old(self).command_path,
    {
        let CompletionRequest { panel, index, run: _, descriptions: _, current_value, value_column } = request;
        match panel {
            Focus::Flags => match result {
                Some((choices, descriptions)) => {
                    self.flag_panel.inner.open_completion_select(
                        index,
                        choices,
                        descriptions,
                        current_value.as_str(),
                        value_column,
                    );
                },
                None => {
                    self.flag_panel.inner.start_editing(current_value.as_str());
                },
            },
            Focus::Args => match result {
                Some((choices, descriptions)) => {
                    self.arg_panel.inner.open_completion_select(
                        index,
                        choices,
                        descriptions,
                        current_value.as_str(),
                        value_column,
                    );
                },
                None => {
                    self.arg_panel.inner.start_editing(current_value.as_str());
                },
            },
            _ => {},
        }
    }

    /// Apply what the flag panel asked for.
    pub fn process_flag_action(&mut self, action: FlagPanelAction) -> (r: Action)
        requires
            old(self).wf(),
            old(self).stored(),
        ensures
            final(self).wf(),
            final(self).stored(),
            r == Action::Idle,
            flag_action_effect(*old(self), *final(self), action),
    {
        match action {
            FlagPanelAction::ToggleFlag(_) => {
                self.toggle_simple_flag();
            },
            FlagPanelAction::ClearFlag(idx) => {
                self.clear_flag(idx);
            },
            FlagPanelAction::EnterRequest(request) => {
                self.process_flag_enter_request(request);
            },
            FlagPanelAction::ChoiceSelected { index, value } | FlagPanelAction::ChoiceCancelled { index, value } => {
                self.apply_flag_string_value(index, value.as_str());
            },
            FlagPanelAction::ValueChanged { index, value } => {
                self.apply_flag_string_value(index, value.as_str());
            },
            FlagPanelAction::EditFinished { index, value } => {
                self.apply_flag_string_value(index, value.as_str());
            },
            FlagPanelAction::NegBoolClick(idx, target) => {
                self.click_negatable_flag(idx, target);
            },
        }
        Action::Idle
    }

    /// Apply what the argument panel asked for: every change sets an
    /// argument's value (Backspace empties it); Enter opens or edits.
    pub fn process_arg_action(&mut self, action: ArgPanelAction) -> (r: Action)
        requires
            old(self).wf(),
            old(self).stored(),
        ensures
            final(self).wf(),
            final(self).stored(),
            r == Action::Idle,
            final(self).focus_manager == old(self).focus_manager,
            arg_action_effect(*old(self), *final(self), action),
            !(action is EnterRequest) ==> {
                &&& final(self).arg_panel.filtering == old(self).arg_panel.filtering
                &&& final(self).arg_panel.inner.base.filter_text == old(self).arg_panel.inner.base.filter_text
                &&& final(self).arg_panel.inner.base.editing == old(self).arg_panel.inner.base.editing
                &&& final(self).arg_panel.inner.base.choice_select == old(self).arg_panel.inner.base.choice_select
            },
    {
        match action {
            ArgPanelAction::EnterRequest(request) => {
                self.process_arg_enter_request(request);
            },
            ArgPanelAction::ClearArg(idx) => {
                self.set_arg_value(idx, String::new());
            },
            ArgPanelAction::ValueChanged { index, value } => {
                self.set_arg_value(index, value);
            },
            ArgPanelAction::EditFinished { index, value } => {
                self.set_arg_value(index, value);
            },
            ArgPanelAction::ChoiceSelected { index, value } | ArgPanelAction::ChoiceCancelled { index, value } => {
                self.set_arg_value(index, value);
            },
        }
        Action::Idle
    }
}

/// `new` is `old` with the string flag `idx` set to `value`, when it is one.
pub open spec fn string_flag_applied(old: App, new: App, idx: usize, value: Seq<char>) -> bool {
    if idx < old.current_settings().len() && old.current_settings()[idx as int].1 is String {
        exists|mid: App, v: FlagValue|
            crate::values::is_string_value(v, value) && old.flag_set_to(mid, idx as int, v)
                && flag_inputs_refreshed(mid, new)
    } else {
        new == old
    }
}

/// `new` is `old` with flag `idx` cleared, when there is one.
pub open spec fn flag_cleared(old: App, new: App, idx: usize) -> bool {
    if idx < old.current_settings().len() {
        exists|mid: App, v: FlagValue|
            crate::values::is_cleared(old.current_settings()[idx as int].1, v) && old.flag_set_to(mid, idx as int, v)
                && flag_inputs_refreshed(mid, new)
    } else {
        new == old
    }
}

/// `new` is `old` after a click on one name of the negatable flag `idx`.
pub open spec fn negatable_clicked(old: App, new: App, idx: usize, target: Option<bool>) -> bool {
    if idx < old.current_settings().len() && old.current_settings()[idx as int].1 is NegBool {
        exists|mid: App|
            old.flag_set_to(
                mid,
                idx as int,
                FlagValue::NegBool(crate::values::neg_clicked(old.current_settings()[idx as int].1->NegBool_0, target)),
            ) && flag_inputs_refreshed(mid, new)
    } else {
        new == old
    }
}

impl App {
    /// The focused panel took `key` and the app acted on its answer: `new` is
    /// the app after both, `handled` whether the panel handled the key. The
    /// preview takes no keys.
    pub open spec fn panel_key_effect(self, key: KeyPress, new: App, handled: bool) -> bool {
        match self.focus_spec() {
            Focus::Commands => exists|p: FilterableComponent<CommandPanelComponent>, res: EventResult<FilterAction<CommandPanelAction>>|
                #[trigger] self.command_panel.key_outcome(key, p, res) && handled == !(res is NotHandled)
                    && command_result_effect(App { command_panel: p, ..self }, new, res),
            Focus::Flags => exists|p: FilterableComponent<FlagPanelComponent>, res: EventResult<FilterAction<FlagPanelAction>>|
                #[trigger] self.flag_panel.key_outcome(key, p, res) && handled == !(res is NotHandled)
                    && flag_result_effect(App { flag_panel: p, ..self }, new, res),
            Focus::Args => exists|p: FilterableComponent<ArgPanelComponent>, res: EventResult<FilterAction<ArgPanelAction>>|
                #[trigger] self.arg_panel.key_outcome(key, p, res) && handled == !(res is NotHandled)
                    && arg_result_effect(App { arg_panel: p, ..self }, new, res),
            Focus::Preview => new == self && !handled,
        }
    }

    /// The panel `panel` took the mouse event `event` in `area` and the app
    /// acted on its answer: `new` is the app after both. The preview takes
    /// no mouse events.
    pub open spec fn panel_mouse_effect(self, panel: Focus, event: MouseInput, area: Rect, new: App) -> bool {
        match panel {
            Focus::Commands => exists|p: FilterableComponent<CommandPanelComponent>, res: EventResult<FilterAction<CommandPanelAction>>|
                #[trigger] self.command_panel.mouse_outcome(event, area, p, res)
                    && command_result_effect(App { command_panel: p, ..self }, new, res),
            Focus::Flags => exists|p: FilterableComponent<FlagPanelComponent>, res: EventResult<FilterAction<FlagPanelAction>>|
                #[trigger] self.flag_panel.mouse_outcome(event, area, p, res)
                    && flag_result_effect(App { flag_panel: p, ..self }, new, res),
            Focus::Args => exists|p: FilterableComponent<ArgPanelComponent>, res: EventResult<FilterAction<ArgPanelAction>>|
                #[trigger] self.arg_panel.mouse_outcome(event, area, p, res)
                    && arg_result_effect(App { arg_panel: p, ..self }, new, res),
            Focus::Preview => new == self,
        }
    }

    /// A left click at `(col, row)` on no open overlay, theme indicator or
    /// choice box: outside every registered region nothing happens; in the
    /// first region containing it, an edit in that panel, when it is the
    /// focused one, is finished, focus moves to the panel, and the click goes
    /// to it; on the preview it accepts the command (print it and leave)
    /// when the preview was focused already.
    pub open spec fn region_clicked(self, event: MouseInput, new: App, r: Action) -> bool {
        &&& (forall|i: int| !#[trigger] clicked_region(self.layout, event.column, event.row, i)) ==> r
            == Action::Idle && new == self
        &&& forall|i: int| #[trigger]
            clicked_region(self.layout, event.column, event.row, i) ==> {
                let area = self.layout.click_regions@[i].0;
                let panel = self.layout.click_regions@[i].1;
                &&& self.focus_manager.elements@.contains(panel) && new.focus_manager.elements@.contains(panel)
                    ==> new.focus_spec() == panel
                &&& exists|edited: App, focused: App|
                    (if self.focus_spec() == panel && (self.flag_panel.inner.base.editing
                        || self.arg_panel.inner.base.editing) {
                        edits_finished(self, edited)
                    } else {
                        edited == self
                    }) && #[trigger] focus_set(edited, panel, focused) && match panel {
                        Focus::Preview => new == focused && r == (if self.focus_spec() == Focus::Preview {
                            Action::Accept
                        } else {
                            Action::Idle
                        }),
                        _ => r == Action::Idle && focused.panel_mouse_effect(panel, event, area, new),
                    }
            }
    }

    /// What a mouse event does to the builder (`new` after it, `r` the
    /// action). A left click closes an open theme picker, choosing the
    /// clicked row's theme or restoring the original; else a click on the
    /// theme indicator opens the picker; else an open choice box gets it;
    /// else it goes to the clicked region (see `region_clicked`). Scrolling
    /// goes to the panel under the cursor (the first region holding it), in
    /// that region; outside every region it goes to the focused panel, in
    /// the first region registered for it. Other events do nothing.
    pub open spec fn mouse_routed(self, event: MouseInput, new: App, r: Action) -> bool {
        &&& r == Action::Idle || r == Action::Accept
        &&& r == Action::Accept ==> event.kind == MouseKind::LeftDown && self.focus_spec() == Focus::Preview
        &&& match event.kind {
            MouseKind::Other => r == Action::Idle && new == self,
            MouseKind::ScrollUp | MouseKind::ScrollDown => {
                &&& r == Action::Idle
                &&& (forall|i: int| !#[trigger] clicked_region(self.layout, event.column, event.row, i)) ==> exists|
                    area: Rect,
                | self.layout.first_area(self.focus_spec(), area) && self.panel_mouse_effect(
                    self.focus_spec(),
                    event,
                    area,
                    new,
                )
                &&& forall|i: int| #[trigger]
                    clicked_region(self.layout, event.column, event.row, i) ==> self.panel_mouse_effect(
                        self.layout.click_regions@[i].1,
                        event,
                        self.layout.click_regions@[i].0,
                        new,
                    )
            },
            MouseKind::LeftDown => match self.theme_picker.state {
                Some(s) => r == Action::Idle && new == (App {
                    theme_picker: crate::theme_picker::ThemePickerComponent { state: None, ..self.theme_picker },
                    theme_name: match crate::theme_picker::picker_row_at(
                        self.layout.theme_overlay_rect,
                        event.column,
                        event.row,
                    ) {
                        Some(i) => Theme { index: i as usize },
                        None => s.original_theme,
                    },
                    ..self
                }),
                None => if indicator_hit(self.layout, event.column, event.row) {
                    &&& r == Action::Idle
                    &&& new.theme_picker.state == Some(
                        crate::theme_picker::ThemePickerInner {
                            original_theme: self.theme_name,
                            selected_index: self.theme_name.position() as usize,
                        },
                    )
                    &&& new == (App { theme_picker: new.theme_picker, ..self })
                } else if self.is_choosing_spec() {
                    r == Action::Idle && choice_clicked(self, event, new)
                } else {
                    self.region_clicked(event, new, r)
                },
            },
        }
    }
}

impl App {
    /// What a key does to the builder (`new` after it, `r` the action).
    /// While a command runs nothing happens; Ctrl-R runs the command; an
    /// open theme picker takes every other key; else the focused panel gets
    /// the key first and the app takes what it leaves (see
    /// `global_key_effect`).
    pub open spec fn key_handled(self, key: KeyPress, new: App, r: Action) -> bool {
        &&& self.mode == AppMode::Executing ==> r == Action::Idle && new == self
        &&& self.mode != AppMode::Executing && key.control && key.code == KeyCode::Char('r') ==> r
            == Action::Execute && new == self
        &&& self.mode != AppMode::Executing && !(key.control && key.code == KeyCode::Char('r'))
            ==> match self.theme_picker.state {
            Some(s) => r == Action::Idle && exists|st: Option<crate::theme_picker::ThemePickerInner>, res: EventResult<ThemePickerAction>|
                #[trigger] crate::theme_picker::picker_key_effect(s, key.code, st, res) && new.theme_picker.state == st
                    && new.theme_name == match res {
                    EventResult::Action(a) => theme_after(self.theme_name, a),
                    _ => self.theme_name,
                } && new == (App { theme_picker: new.theme_picker, theme_name: new.theme_name, ..self }),
            None => exists|mid: App, handled: bool|
                #[trigger] self.panel_key_effect(key, mid, handled) && (handled ==> r == Action::Idle && new
                    == mid) && (!handled ==> mid.global_key_effect(self.handling_input(), key, new, r)),
        }
    }
}

/// With no command running, no theme picker open and the focused panel not
/// taking input, `]` moves to the next theme and a following `[` returns to
/// the theme there was before; both answer Idle.
pub proof fn lemma_theme_keys_inverse(a: App, b: App, c: App, r1: Action, r2: Action)
    requires
        a.ready(),
        a.mode != AppMode::Executing,
        a.theme_picker.state is None,
        a.theme_name.wf(),
        !a.handling_input(),
        a.key_handled(KeyPress { code: KeyCode::Char(']'), control: false }, b, r1),
        b.key_handled(KeyPress { code: KeyCode::Char('['), control: false }, c, r2),
    ensures
        r1 == Action::Idle,
        r2 == Action::Idle,
        b.theme_name.index == (a.theme_name.position() + 1) % (THEME_COUNT as int),
        c.theme_name == a.theme_name,
{
    let k1 = KeyPress { code: KeyCode::Char(']'), control: false };
    let k2 = KeyPress { code: KeyCode::Char('['), control: false };
    let (mid, handled) = choose|mid: App, handled: bool|
        #[trigger] a.panel_key_effect(k1, mid, handled) && (handled ==> r1 == Action::Idle && b == mid) && (!handled
            ==> mid.global_key_effect(a.handling_input(), k1, b, r1));
    lemma_panel_ignores_char(a, k1, mid, handled);
    assert(b == (App { theme_name: b.theme_name, ..a }));
    assert(b.focus_spec() == a.focus_spec());
    assert(!b.handling_input());
    let (mid2, handled2) = choose|mid: App, handled: bool|
        #[trigger] b.panel_key_effect(k2, mid, handled) && (handled ==> r2 == Action::Idle && c == mid) && (!handled
            ==> mid.global_key_effect(b.handling_input(), k2, c, r2));
    lemma_panel_ignores_char(b, k2, mid2, handled2);
    crate::theme_picker::lemma_theme_next_prev(a.theme_name);
}

/// A plain character that no list panel binds is left alone by the focused
/// panel when it is not taking input.
proof fn lemma_panel_ignores_char(a: App, key: KeyPress, mid: App, handled: bool)
    requires
        !a.handling_input(),
        key.code == KeyCode::Char(']') || key.code == KeyCode::Char('['),
        a.panel_key_effect(key, mid, handled),
    ensures
        !handled,
        mid == a,
{
    match a.focus_spec() {
        Focus::Commands => {
            let (p, res) = choose|p: FilterableComponent<CommandPanelComponent>, res: EventResult<FilterAction<CommandPanelAction>>|
                #[trigger] a.command_panel.key_outcome(key, p, res) && handled == !(res is NotHandled)
                    && command_result_effect(App { command_panel: p, ..a }, mid, res);
            let (m, ir) = choose|m: CommandPanelComponent, ir: EventResult<CommandPanelAction>|
                a.command_panel.inner.key_effect(key, m, ir) && if ir is NotHandled && key.code == KeyCode::Esc
                    && m.filter_view().len() > 0 {
                    !p.filtering && p.filter_input.chars@.len() == 0 && stopped_inner(m, p.inner) && res is Consumed
                } else if ir is NotHandled && key.code == KeyCode::Char('/') {
                    p.filtering && p.filter_input.chars@.len() == 0 && m.active_effect(true, p.inner) && res is Consumed
                } else {
                    p.filtering == a.command_panel.filtering && p.filter_input == a.command_panel.filter_input
                        && p.inner == m && wrapped(ir, res)
                };
            assert(p == a.command_panel);
        },
        Focus::Flags => {
            let (p, res) = choose|p: FilterableComponent<FlagPanelComponent>, res: EventResult<FilterAction<FlagPanelAction>>|
                #[trigger] a.flag_panel.key_outcome(key, p, res) && handled == !(res is NotHandled)
                    && flag_result_effect(App { flag_panel: p, ..a }, mid, res);
            let (m, ir) = choose|m: FlagPanelComponent, ir: EventResult<FlagPanelAction>|
                a.flag_panel.inner.key_effect(key, m, ir) && if ir is NotHandled && key.code == KeyCode::Esc
                    && m.filter_view().len() > 0 {
                    !p.filtering && p.filter_input.chars@.len() == 0 && stopped_inner(m, p.inner) && res is Consumed
                } else if ir is NotHandled && key.code == KeyCode::Char('/') {
                    p.filtering && p.filter_input.chars@.len() == 0 && m.active_effect(true, p.inner) && res is Consumed
                } else {
                    p.filtering == a.flag_panel.filtering && p.filter_input == a.flag_panel.filter_input
                        && p.inner == m && wrapped(ir, res)
                };
            assert(m == a.flag_panel.inner);
            assert(p == a.flag_panel);
        },
        Focus::Args => {
            let (p, res) = choose|p: FilterableComponent<ArgPanelComponent>, res: EventResult<FilterAction<ArgPanelAction>>|
                #[trigger] a.arg_panel.key_outcome(key, p, res) && handled == !(res is NotHandled)
                    && arg_result_effect(App { arg_panel: p, ..a }, mid, res);
            let (m, ir) = choose|m: ArgPanelComponent, ir: EventResult<ArgPanelAction>|
                a.arg_panel.inner.key_effect(key, m, ir) && if ir is NotHandled && key.code == KeyCode::Esc
                    && m.filter_view().len() > 0 {
                    !p.filtering && p.filter_input.chars@.len() == 0 && stopped_inner(m, p.inner) && res is Consumed
                } else if ir is NotHandled && key.code == KeyCode::Char('/') {
                    p.filtering && p.filter_input.chars@.len() == 0 && m.active_effect(true, p.inner) && res is Consumed
                } else {
                    p.filtering == a.arg_panel.filtering && p.filter_input == a.arg_panel.filter_input
                        && p.inner == m && wrapped(ir, res)
                };
            assert(m == a.arg_panel.inner);
            assert(p == a.arg_panel);
        },
        Focus::Preview => {},
    }
}

/// The theme after the picker's action.
pub open spec fn theme_after(t: Theme, a: ThemePickerAction) -> Theme {
    match a {
        ThemePickerAction::PreviewTheme(n) => n,
        ThemePickerAction::Confirmed => t,
        ThemePickerAction::Cancelled(o) => o,
    }
}


impl App {
    /// `new` is `self` moved to the parent of its command: the command list
    /// selects the first entry with the parent's id, and the command path is
    /// the current one without its last name (values stored and restored as
    /// on any path change).
    pub open spec fn moved_to_parent(self, new: App) -> bool {
        let parent = self.path_view().drop_last();
        &&& new.wf()
        &&& new.stored()
        &&& new.path_view() == parent
        &&& self.command_panel.inner.moved_to(
            new.command_panel.inner,
            crate::command_panel::as_target(
                crate::command_panel::first_with_id(self.command_panel.inner.flat(), join_words(parent)),
            ),
        )
        &&& navigated(
            App { command_panel: FilterableComponent { inner: new.command_panel.inner, ..self.command_panel }, ..self },
            new,
            parent,
        )
        &&& new.command_panel == (FilterableComponent { inner: new.command_panel.inner, ..self.command_panel })
        &&& new.spec == self.spec
        &&& new.theme_name == self.theme_name
        &&& new.mode == self.mode
        &&& new.layout == self.layout
        &&& new.theme_picker == self.theme_picker
        &&& new.mouse_position == self.mouse_position
        &&& new.pending_completion == self.pending_completion
    }

    /// A key the focused panel left alone, taken by the app (`self` is the
    /// app then, `busy` whether the panel was taking input before the key):
    /// while the panel takes input nothing happens; else q quits, T opens the
    /// theme picker, ] and [ cycle themes, Tab and Shift-Tab move focus,
    /// Enter on the preview runs the command, p on the preview accepts it
    /// (print it and leave), Esc moves to the parent command or, at the top
    /// level, quits, and other keys do nothing.
    pub open spec fn global_key_effect(self, busy: bool, key: KeyPress, new: App, r: Action) -> bool {
        if busy {
            r == Action::Idle && new == self
        } else {
            match key.code {
                KeyCode::Char('q') => r == Action::Quit && new == self,
                KeyCode::Char('T') => r == Action::Idle && new == (App { theme_picker: new.theme_picker, ..self })
                    && new.theme_picker.state == Some(
                    crate::theme_picker::ThemePickerInner {
                        original_theme: self.theme_name,
                        selected_index: self.theme_name.position() as usize,
                    },
                ) && new.theme_picker.viewport == self.theme_picker.viewport,
                KeyCode::Char(']') => r == Action::Idle && new == (App { theme_name: new.theme_name, ..self })
                    && new.theme_name.index == (self.theme_name.position() + 1) % (THEME_COUNT as int),
                KeyCode::Char('[') => r == Action::Idle && new == (App { theme_name: new.theme_name, ..self })
                    && new.theme_name.index == (self.theme_name.position() + THEME_COUNT - 1) % (THEME_COUNT as int),
                KeyCode::Tab => r == Action::Idle && new.ready() && focus_cycled(self, new, true),
                KeyCode::BackTab => r == Action::Idle && new.ready() && focus_cycled(self, new, false),
                KeyCode::Enter => new == self && r == if self.focus_spec() == Focus::Preview {
                    Action::Execute
                } else {
                    Action::Idle
                },
                KeyCode::Char('p') => new == self && r == if self.focus_spec() == Focus::Preview {
                    Action::Accept
                } else {
                    Action::Idle
                },
                KeyCode::Esc => if self.path_view().len() > 1 {
                    r == Action::Idle && self.moved_to_parent(new)
                } else {
                    r == Action::Quit && new == self
                },
                _ => r == Action::Idle && new == self,
            }
        }
    }
}

/// `a` with the flag panel's inline edit closed.
pub open spec fn flag_edit_closed(a: App) -> App {
    App {
        flag_panel: FilterableComponent {
            inner: FlagPanelComponent {
                base: crate::list_panel::ListPanelBase { editing: false, ..a.flag_panel.inner.base },
                ..a.flag_panel.inner
            },
            ..a.flag_panel
        },
        ..a
    }
}

/// Whether a click at `(col, row)` hits the theme indicator of the help bar.
pub open spec fn indicator_hit(layout: UiLayout, col: u16, row: u16) -> bool {
    layout.theme_indicator_rect matches Some(rect) && rect.contains_spec(col, row)
}

/// `p` shows the argument panel's live state: the open choice box's typed
/// text for its argument, the inline editor's text for the selected one.
pub open spec fn live_preview_of(p: LiveArgPreview, a: ArgPanelComponent) -> bool {
    &&& p.choice_select_index == a.base.choice_select_index
    &&& p.choice_select_text@ == a.base.choice_select.typed_spec()
    &&& p.is_editing == a.base.editing
    &&& p.editing_index == a.base.list_state.selected_index
    &&& p.editing_text@ == if a.base.editing {
        a.base.edit_input.chars@
    } else {
        Seq::<char>::empty()
    }
}

/// An action result passed up through a filterable panel.
pub open spec fn as_filter_result<A>(r: EventResult<A>) -> EventResult<FilterAction<A>> {
    match r {
        EventResult::Action(a) => EventResult::Action(FilterAction::Inner(a)),
        EventResult::Consumed => EventResult::Consumed,
        EventResult::NotHandled => EventResult::NotHandled,
    }
}

/// A click while a choice box is open went to the panel showing it (the
/// flag panel first), and the app acted on what the box reported.
pub open spec fn choice_clicked(old: App, event: MouseInput, new: App) -> bool {
    if old.flag_panel.inner.base.choice_select.state is Some {
        exists|p: FlagPanelComponent, res: EventResult<FlagPanelAction>, m: crate::list_panel::MouseResult|
            #[trigger] crate::flag_panel::click_mapped(m, res) && crate::list_panel::choice_click_effect(
                old.flag_panel.inner.base,
                event.column,
                event.row,
                old.layout.flag_overlay_rect,
                p.base,
                m,
            ) && p.negate_cols == old.flag_panel.inner.negate_cols && p.enter_requests
                == old.flag_panel.inner.enter_requests && #[trigger] flag_result_effect(
                App { flag_panel: FilterableComponent { inner: p, ..old.flag_panel }, ..old },
                new,
                as_filter_result(res),
            )
    } else if old.arg_panel.inner.base.choice_select.state is Some {
        exists|p: ArgPanelComponent, res: EventResult<ArgPanelAction>, m: crate::list_panel::MouseResult|
            #[trigger] crate::arg_panel::arg_click_mapped(m, res) && crate::list_panel::choice_click_effect(
                old.arg_panel.inner.base,
                event.column,
                event.row,
                old.layout.arg_overlay_rect,
                p.base,
                m,
            ) && p.enter_requests == old.arg_panel.inner.enter_requests && #[trigger] arg_result_effect(
                App { arg_panel: FilterableComponent { inner: p, ..old.arg_panel }, ..old },
                new,
                as_filter_result(res),
            )
    } else {
        new == old
    }
}

/// Region `i` is the first registered region containing `(col, row)`.
pub open spec fn clicked_region(layout: UiLayout, col: u16, row: u16, i: int) -> bool {
    &&& 0 <= i < layout.click_regions@.len()
    &&& layout.click_regions@[i].0.contains_spec(col, row)
    &&& forall|j: int| 0 <= j < i ==> !(#[trigger] layout.click_regions@[j]).0.contains_spec(col, row)
}

/// `a` with the argument panel's inline edit closed.
pub open spec fn arg_edit_closed(a: App) -> App {
    App {
        arg_panel: FilterableComponent {
            inner: ArgPanelComponent {
                base: crate::list_panel::ListPanelBase { editing: false, ..a.arg_panel.inner.base },
                ..a.arg_panel.inner
            },
            ..a.arg_panel
        },
        ..a
    }
}

/// `new` is `old` after every inline edit was finished: a flag edit is
/// closed and its text becomes the selected flag's string value, then an
/// argument edit is closed and its text becomes the selected argument's
/// value; with no edit nothing changes.
pub open spec fn edits_finished(old: App, new: App) -> bool {
    let flag_editing = old.flag_panel.inner.base.editing;
    let arg_editing = old.arg_panel.inner.base.editing;
    let arg_index = old.arg_panel.inner.base.list_state.selected_index;
    let arg_text = old.arg_panel.inner.base.edit_input.chars@;
    &&& new.focus_manager == old.focus_manager
    &&& !new.flag_panel.inner.base.editing
    &&& !new.arg_panel.inner.base.editing
    &&& flag_editing ==> exists|flagged: App|
        #[trigger] string_flag_applied(
            flag_edit_closed(old),
            flagged,
            old.flag_panel.inner.base.list_state.selected_index,
            old.flag_panel.inner.base.edit_input.chars@,
        ) && if arg_editing {
            arg_value_set(arg_edit_closed(flagged), new, arg_index, arg_text)
        } else {
            new == flagged
        }
    &&& !flag_editing && arg_editing ==> arg_value_set(arg_edit_closed(old), new, arg_index, arg_text)
    &&& !flag_editing && !arg_editing ==> new == old
}

/// `new` is `old` after focus was moved to `panel`: nothing changes when it
/// is focused already; else the panel losing focus is told (and an edit it
/// finishes is applied, see `lost_focus`) and left clean, the ring focuses
/// `panel` when it holds it, and `panel` is told it gained focus.
pub open spec fn focus_set(old: App, panel: Focus, new: App) -> bool {
    &&& old.focus_spec() == panel ==> new == old
    &&& new.focus_manager.elements@ == old.focus_manager.elements@
    &&& old.focus_manager.elements@.contains(panel) ==> new.focus_spec() == panel
    &&& !old.focus_manager.elements@.contains(panel) ==> new.focus_manager.current_index
        == old.focus_manager.current_index
    &&& old.focus_spec() != panel ==> panel_left_clean(new, old.focus_spec())
    &&& old.focus_spec() != panel ==> exists|lost: App, moved: App|
        lost_focus(old, old.focus_spec(), lost) && moved == (App { focus_manager: moved.focus_manager, ..lost })
            && ring_set(lost.focus_manager, panel, moved.focus_manager) && gained_focus(moved, panel, new)
}

/// `new` is `a` after the panel `panel` was told it lost focus: the panel's
/// own focus loss, then what the app does with an action it reports (an
/// edit it finished is applied).
pub open spec fn lost_focus(a: App, panel: Focus, new: App) -> bool {
    match panel {
        Focus::Commands => exists|p: FilterableComponent<CommandPanelComponent>, res: EventResult<FilterAction<CommandPanelAction>>|
            #[trigger] a.command_panel.focus_lost_outcome(p, res) && new == (App { command_panel: p, ..a }),
        Focus::Flags => exists|p: FilterableComponent<FlagPanelComponent>, res: EventResult<FilterAction<FlagPanelAction>>|
            #[trigger] a.flag_panel.focus_lost_outcome(p, res) && match res {
                EventResult::Action(FilterAction::Inner(act)) => flag_action_effect(App { flag_panel: p, ..a }, new, act),
                _ => new == (App { flag_panel: p, ..a }),
            },
        Focus::Args => exists|p: FilterableComponent<ArgPanelComponent>, res: EventResult<FilterAction<ArgPanelAction>>|
            #[trigger] a.arg_panel.focus_lost_outcome(p, res) && match res {
                EventResult::Action(FilterAction::Inner(act)) => arg_action_effect(App { arg_panel: p, ..a }, new, act),
                _ => new == (App { arg_panel: p, ..a }),
            },
        Focus::Preview => new == a,
    }
}

/// `new` is `a` after the panel `panel` was told it gained focus (a panel
/// reports nothing then).
pub open spec fn gained_focus(a: App, panel: Focus, new: App) -> bool {
    match panel {
        Focus::Commands => exists|p: FilterableComponent<CommandPanelComponent>, res: EventResult<FilterAction<CommandPanelAction>>|
            #[trigger] a.command_panel.focus_gained_outcome(p, res) && new == (App { command_panel: p, ..a }),
        Focus::Flags => exists|p: FilterableComponent<FlagPanelComponent>, res: EventResult<FilterAction<FlagPanelAction>>|
            #[trigger] a.flag_panel.focus_gained_outcome(p, res) && new == (App { flag_panel: p, ..a }),
        Focus::Args => exists|p: FilterableComponent<ArgPanelComponent>, res: EventResult<FilterAction<ArgPanelAction>>|
            #[trigger] a.arg_panel.focus_gained_outcome(p, res) && new == (App { arg_panel: p, ..a }),
        Focus::Preview => new == a,
    }
}

/// `new` is the ring `old` with `element` focused when it is in the ring,
/// else unchanged.
pub open spec fn ring_set(old: FocusRing, element: Focus, new: FocusRing) -> bool {
    &&& new.elements@ == old.elements@
    &&& old.elements@.contains(element) ==> new.current_spec() == Some(element)
    &&& !old.elements@.contains(element) ==> new.current_index == old.current_index
}

/// The panel `panel` of `a` is left clean after losing focus: no filter
/// being typed or applied, and for a list panel no inline edit or choice box.
pub open spec fn panel_left_clean(a: App, panel: Focus) -> bool {
    match panel {
        Focus::Commands => !a.command_panel.filtering && a.command_panel.inner.filter_view().len() == 0,
        Focus::Flags => {
            &&& !a.flag_panel.filtering
            &&& a.flag_panel.inner.filter_view().len() == 0
            &&& !a.flag_panel.inner.base.editing
            &&& a.flag_panel.inner.base.choice_select.state is None
        },
        Focus::Args => {
            &&& !a.arg_panel.filtering
            &&& a.arg_panel.inner.filter_view().len() == 0
            &&& !a.arg_panel.inner.base.editing
            &&& a.arg_panel.inner.base.choice_select.state is None
        },
        Focus::Preview => true,
    }
}

/// `new` is the ring `old` after Tab (`forward`) or Shift-Tab: the same
/// panels, focus one further along (wrapping); an empty ring stays as it is.
pub open spec fn ring_moved(old: FocusRing, new: FocusRing, forward: bool) -> bool {
    &&& new.elements@ == old.elements@
    &&& if old.elements@.len() == 0 {
        new.current_index == old.current_index
    } else {
        new.current_index == Some(
            match old.current_index {
                Some(i) => if forward {
                    ((i + 1) % (old.elements@.len() as int)) as usize
                } else if i == 0 {
                    (old.elements@.len() - 1) as usize
                } else {
                    (i - 1) as usize
                },
                None => 0usize,
            },
        )
    }
}

/// `new` is `old` after Tab (`forward`) or Shift-Tab moved the focus: the
/// ring moves one further along; when that focuses another panel, the panel
/// losing focus is told (an edit it finishes is applied, see `lost_focus`)
/// and left clean, then the panel gaining it is told.
pub open spec fn focus_cycled(old: App, new: App, forward: bool) -> bool {
    &&& ring_moved(old.focus_manager, new.focus_manager, forward)
    &&& new.focus_spec() != old.focus_spec() ==> panel_left_clean(new, old.focus_spec())
    &&& exists|moved: App|
        #[trigger] ring_moved(old.focus_manager, moved.focus_manager, forward) && moved == (App {
            focus_manager: moved.focus_manager,
            ..old
        }) && if moved.focus_spec() == old.focus_spec() {
            new == moved
        } else {
            exists|lost: App|
                #[trigger] lost_focus(moved, old.focus_spec(), lost) && gained_focus(lost, moved.focus_spec(), new)
        }
}

/// Tab then Shift-Tab gives focus back to the panel that had it.
pub proof fn lemma_tab_then_backtab(a: FocusRing, b: FocusRing, c: FocusRing)
    requires
        a.wf(),
        a.current_index is Some,
        ring_moved(a, b, true),
        ring_moved(b, c, false),
    ensures
        c.current_spec() == a.current_spec(),
        c.elements@ == a.elements@,
{
    let i = a.current_index->0;
    let n = a.elements@.len() as int;
    crate::events::lemma_focus_next_prev(n, i as int);
    assert(n == a.elements.len());
    let j = (i + 1) % n;
    assert(0 <= j < n);
    assert(b.current_index == Some(j as usize));
    assert((j as usize) as int == j);
    if j == 0 {
        assert(c.current_index == Some((n - 1) as usize));
    } else {
        assert(c.current_index == Some((j - 1) as usize));
    }
    assert(c.current_index == Some(i));
}

/// The preview is always in the Tab order, last; the commands come first
/// when the spec has any.
pub proof fn lemma_preview_always_focusable(has_commands: bool, has_flags: bool, has_args: bool)
    ensures
        focus_order(has_commands, has_flags, has_args).contains(Focus::Preview),
        focus_order(has_commands, has_flags, has_args).last() == Focus::Preview,
        has_commands ==> focus_order(has_commands, has_flags, has_args)[0] == Focus::Commands,
        !has_commands ==> !focus_order(has_commands, has_flags, has_args).contains(Focus::Commands),
        !has_flags ==> !focus_order(has_commands, has_flags, has_args).contains(Focus::Flags),
        !has_args ==> !focus_order(has_commands, has_flags, has_args).contains(Focus::Args),
{
    let o = focus_order(has_commands, has_flags, has_args);
    assert(o[o.len() - 1] == Focus::Preview);
    assert(o.contains(Focus::Preview));
    if !has_commands {
        assert forall|i: int| 0 <= i < o.len() implies o[i] != Focus::Commands by {}
    }
    if !has_flags {
        assert forall|i: int| 0 <= i < o.len() implies o[i] != Focus::Flags by {}
    }
    if !has_args {
        assert forall|i: int| 0 <= i < o.len() implies o[i] != Focus::Args by {}
    }
}

impl App {
    /// Whether the focused panel takes keys itself: a filter being typed, a
    /// value being edited or a choice box open.
    pub open spec fn handling_input(self) -> bool {
        match self.focus_spec() {
            Focus::Commands => self.command_panel.filtering,
            Focus::Flags => self.flag_panel.filtering || self.flag_panel.inner.base.editing
                || self.flag_panel.inner.base.choice_select.state is Some,
            Focus::Args => self.arg_panel.filtering || self.arg_panel.inner.base.editing
                || self.arg_panel.inner.base.choice_select.state is Some,
            Focus::Preview => false,
        }
    }

    /// The library's invariants and the stored current values.
    pub open spec fn ready(self) -> bool {
        self.wf() && self.stored()
    }

    /// Whether the focused panel takes keys itself.
    pub fn focused_panel_is_handling_input(&self) -> (r: bool)
        ensures
            r == self.handling_input(),
    {
        match self.focus() {
            Focus::Commands => self.command_panel.is_filtering(),
            Focus::Flags => self.flag_panel.is_filtering() || self.flag_panel.inner.is_editing()
                || self.flag_panel.inner.is_choosing(),
            Focus::Args => self.arg_panel.is_filtering() || self.arg_panel.inner.is_editing()
                || self.arg_panel.inner.is_choosing(),
            Focus::Preview => false,
        }
    }

    /// Act on what the command panel reported: a path change is followed,
    /// Tab and Shift-Tab out of the filter move focus; `None` when it did not
    /// handle the event.
    fn dispatch_command_result(&mut self, result: EventResult<FilterAction<CommandPanelAction>>) -> (r: Option<Action>)
        requires
            old(self).ready(),
        ensures
            final(self).ready(),
            r is None <==> result is NotHandled,
            r matches Some(a) ==> a == Action::Idle,
            result is NotHandled ==> *final(self) == *old(self),
            command_result_effect(*old(self), *final(self), result),
    {
        match result {
            EventResult::Action(FilterAction::Inner(action)) => {
                self.process_command_action(action);
                Some(Action::Idle)
            },
            EventResult::Action(FilterAction::FocusNext) => {
                self.focus_next();
                Some(Action::Idle)
            },
            EventResult::Action(FilterAction::FocusPrev) => {
                self.focus_prev();
                Some(Action::Idle)
            },
            EventResult::Consumed => Some(Action::Idle),
            EventResult::NotHandled => None,
        }
    }

    /// Act on what the flag panel reported.
    fn dispatch_flag_result(&mut self, result: EventResult<FilterAction<FlagPanelAction>>) -> (r: Option<Action>)
        requires
            old(self).ready(),
        ensures
            final(self).ready(),
            r is None <==> result is NotHandled,
            r matches Some(a) ==> a == Action::Idle,
            result is NotHandled ==> *final(self) == *old(self),
            flag_result_effect(*old(self), *final(self), result),
    {
        match result {
            EventResult::Action(FilterAction::Inner(action)) => Some(self.process_flag_action(action)),
            EventResult::Action(FilterAction::FocusNext) => {
                self.focus_next();
                Some(Action::Idle)
            },
            EventResult::Action(FilterAction::FocusPrev) => {
                self.focus_prev();
                Some(Action::Idle)
            },
            EventResult::Consumed => Some(Action::Idle),
            EventResult::NotHandled => None,
        }
    }

    /// Act on what the argument panel reported.
    fn dispatch_arg_result(&mut self, result: EventResult<FilterAction<ArgPanelAction>>) -> (r: Option<Action>)
        requires
            old(self).ready(),
        ensures
            final(self).ready(),
            r is None <==> result is NotHandled,
            r matches Some(a) ==> a == Action::Idle,
            result is NotHandled ==> *final(self) == *old(self),
            arg_result_effect(*old(self), *final(self), result),
    {
        match result {
            EventResult::Action(FilterAction::Inner(action)) => Some(self.process_arg_action(action)),
            EventResult::Action(FilterAction::FocusNext) => {
                self.focus_next();
                Some(Action::Idle)
            },
            EventResult::Action(FilterAction::FocusPrev) => {
                self.focus_prev();
                Some(Action::Idle)
            },
            EventResult::Consumed => Some(Action::Idle),
            EventResult::NotHandled => None,
        }
    }

    /// Give a key to the focused panel and act on what it reports; `None`
    /// when the panel did not handle it.
    fn handle_focused_panel_key(&mut self, key: KeyPress) -> (r: Option<Action>)
        requires
            old(self).ready(),
        ensures
            final(self).ready(),
            r matches Some(a) ==> a == Action::Idle,
            old(self).panel_key_effect(key, *final(self), r is Some),
    {
        match self.focus() {
            Focus::Commands => {
                let result = self.command_panel.handle_key(key);
                let ghost mid = *self;
                assert(old(self).command_panel.key_outcome(key, mid.command_panel, result));
                assert(mid == App { command_panel: mid.command_panel, ..*old(self) });
                let r = self.dispatch_command_result(result);
                r
            },
            Focus::Flags => {
                let result = self.flag_panel.handle_key(key);
                let ghost mid = *self;
                assert(old(self).flag_panel.key_outcome(key, mid.flag_panel, result));
                assert(mid == App { flag_panel: mid.flag_panel, ..*old(self) });
                let r = self.dispatch_flag_result(result);
                r
            },
            Focus::Args => {
                let result = self.arg_panel.handle_key(key);
                let ghost mid = *self;
                assert(old(self).arg_panel.key_outcome(key, mid.arg_panel, result));
                assert(mid == App { arg_panel: mid.arg_panel, ..*old(self) });
                let r = self.dispatch_arg_result(result);
                r
            },
            Focus::Preview => None,
        }
    }

    /// Handle a key in the builder. Ctrl-R runs the command from anywhere;
    /// an open theme picker takes every other key; else the focused panel
    /// gets the key first and the app takes what it leaves (see
    /// `global_key_effect`). While a command runs the builder ignores keys:
    /// they go to `handle_execution_key`.
    pub fn handle_key(&mut self, key: KeyPress) -> (r: Action)
        requires
            old(self).ready(),
        ensures
            final(self).ready(),
            old(self).key_handled(key, *final(self), r),
    {
        if self.is_executing() {
            return Action::Idle;
        }
        if key.control && key.code == KeyCode::Char('r') {
            return Action::Execute;
        }
        if self.is_theme_picking() {
            let result = self.theme_picker.handle_key(key);
            if let EventResult::Action(action) = result {
                self.process_theme_picker_action(action);
            }
            return Action::Idle;
        }
        let busy = self.focused_panel_is_handling_input();
        let ghost before = *self;
        if let Some(action) = self.handle_focused_panel_key(key) {
            return action;
        }
        let ghost mid = *self;
        assert(before.panel_key_effect(key, mid, false));
        if busy {
            return Action::Idle;
        }
        match key.code {
            KeyCode::Char('q') => Action::Quit,
            KeyCode::Char('T') => {
                self.open_theme_picker();
                Action::Idle
            },
            KeyCode::Char(']') => {
                self.next_theme();
                Action::Idle
            },
            KeyCode::Char('[') => {
                self.prev_theme();
                Action::Idle
            },
            KeyCode::Tab => {
                self.focus_next();
                Action::Idle
            },
            KeyCode::BackTab => {
                self.focus_prev();
                Action::Idle
            },
            KeyCode::Enter => {
                if self.focus() == Focus::Preview {
                    Action::Execute
                } else {
                    Action::Idle
                }
            },
            KeyCode::Char('p') => {
                if self.focus() == Focus::Preview {
                    Action::Accept
                } else {
                    Action::Idle
                }
            },
            KeyCode::Esc => {
                if self.command_path.len() > 1 {
                    self.move_to_parent();
                    Action::Idle
                } else {
                    Action::Quit
                }
            },
            _ => Action::Idle,
        }
    }

    /// Move to the parent of the current command (see `moved_to_parent`).
    fn move_to_parent(&mut self)
        requires
            old(self).ready(),
            old(self).command_path@.len() > 1,
        ensures
            old(self).moved_to_parent(*final(self)),
    {
        let n = self.command_path.len() - 1;
        let mut parent: Vec<String> = Vec::new();
        let mut i: usize = 0;
        while i < n
            invariant
                i <= n,
                n == self.command_path@.len() - 1,
                views(parent@) == views(self.command_path@).take(i as int),
            decreases n - i,
        {
            let ghost before = parent@;
            let name = string_of(self.command_path[i].as_str());
            parent.push(name);
            assert(parent@ == before.push(name));
            assert(views(parent@) =~= views(before).push(self.command_path@[i as int]@));
            assert(views(parent@) =~= views(self.command_path@).take(i + 1));
            i = i + 1;
        }
        assert(views(parent@) =~= old(self).path_view().drop_last());
        self.command_panel.inner.navigate_to(&parent);
        self.set_command_path(parent);
    }

    /// A key while a command runs: once it has exited, Esc, Enter and q
    /// close the execution view; while it runs, the key's bytes (returned)
    /// go to it.
    pub fn handle_execution_key(&mut self, exited: bool, key: KeyPress) -> (r: Option<Vec<u8>>)
        ensures
            exited ==> r is None,
            exited && (key.code == KeyCode::Esc || key.code == KeyCode::Enter || key.code == KeyCode::Char('q'))
                ==> *final(self) == (App { mode: AppMode::Builder, ..*old(self) }),
            !(exited && (key.code == KeyCode::Esc || key.code == KeyCode::Enter || key.code == KeyCode::Char('q')))
                ==> *final(self) == *old(self),
            !exited ==> match crate::execution::key_bytes_spec(key) {
                Some(b) => r matches Some(v) && v@ == b,
                None => r is None,
            },
    {
        let (result, bytes) = crate::execution::execution_key(exited, key);
        if let EventResult::Action(crate::execution::ExecutionAction::Close) = result {
            self.close_execution();
        }
        bytes
    }

    /// Finish any inline edit, applying the edited text: a flag's to its
    /// string value, an argument's to its value (see `edits_finished`).
    pub fn finish_editing(&mut self)
        requires
            old(self).ready(),
        ensures
            final(self).ready(),
            edits_finished(*old(self), *final(self)),
    {
        if self.flag_panel.inner.is_editing() {
            let idx = self.flag_panel.inner.selected_index();
            let value = self.flag_panel.inner.finish_editing();
            assert(*self == flag_edit_closed(*old(self)));
            self.apply_flag_string_value(idx, value.as_str());
            assert(string_flag_applied(flag_edit_closed(*old(self)), *self, idx, value@));
        }
        let ghost flagged = *self;
        assert(flagged.arg_panel == old(self).arg_panel);
        if self.arg_panel.inner.is_editing() {
            let idx = self.arg_panel.inner.selected_index();
            let value = self.arg_panel.inner.finish_editing();
            assert(*self == arg_edit_closed(flagged));
            self.set_arg_value(idx, value);
        }
        assert(old(self).flag_panel.inner.base.editing ==> string_flag_applied(
            flag_edit_closed(*old(self)),
            flagged,
            old(self).flag_panel.inner.base.list_state.selected_index,
            old(self).flag_panel.inner.base.edit_input.chars@,
        ));
    }

    /// Start editing the focused flag's or argument's current value (a flag
    /// that holds no string starts empty, as does an index past the list).
    pub fn start_editing(&mut self)
        requires
            old(self).ready(),
        ensures
            final(self).ready(),
            old(self).focus_spec() == Focus::Flags ==> *final(self) == (App {
                flag_panel: FilterableComponent {
                    inner: FlagPanelComponent {
                        base: crate::list_panel::ListPanelBase {
                            editing: true,
                            edit_input: final(self).flag_panel.inner.base.edit_input,
                            ..old(self).flag_panel.inner.base
                        },
                        ..old(self).flag_panel.inner
                    },
                    ..old(self).flag_panel
                },
                ..*old(self)
            }),
            old(self).focus_spec() == Focus::Args ==> *final(self) == (App {
                arg_panel: FilterableComponent {
                    inner: ArgPanelComponent {
                        base: crate::list_panel::ListPanelBase {
                            editing: true,
                            edit_input: final(self).arg_panel.inner.base.edit_input,
                            ..old(self).arg_panel.inner.base
                        },
                        ..old(self).arg_panel.inner
                    },
                    ..old(self).arg_panel
                },
                ..*old(self)
            }),
            old(self).focus_spec() == Focus::Flags ==> final(self).flag_panel.inner.base.editing
                && final(self).flag_panel.inner.base.edit_input.chars@ == {
                let i = old(self).flag_panel.inner.base.list_state.selected_index as int;
                if i < old(self).current_settings().len() && old(self).current_settings()[i].1 is String {
                    old(self).current_settings()[i].1->String_0@
                } else {
                    Seq::<char>::empty()
                }
            },
            old(self).focus_spec() == Focus::Args ==> final(self).arg_panel.inner.base.editing
                && final(self).arg_panel.inner.base.edit_input.chars@ == {
                let i = old(self).arg_panel.inner.base.list_state.selected_index as int;
                if i < old(self).arg_values@.len() {
                    old(self).arg_values@[i].value@
                } else {
                    Seq::<char>::empty()
                }
            },
            old(self).focus_spec() != Focus::Flags && old(self).focus_spec() != Focus::Args ==> *final(self)
                == *old(self),
    {
        match self.focus() {
            Focus::Flags => {
                let idx = self.flag_panel.inner.selected_index();
                let text = self.current_string_value(idx, String::new());
                self.flag_panel.inner.start_editing(text.as_str());
            },
            Focus::Args => {
                let idx = self.arg_panel.inner.selected_index();
                let text = self.current_arg_value(idx, String::new());
                self.arg_panel.inner.start_editing(text.as_str());
            },
            _ => {},
        }
    }

    /// Scroll `panel` so that its selection shows in `viewport_height` rows
    /// (nothing for an empty viewport).
    pub fn ensure_visible(&mut self, panel: Focus, viewport_height: usize)
        requires
            old(self).ready(),
        ensures
            final(self).ready(),
            viewport_height == 0 || panel == Focus::Preview ==> *final(self) == *old(self),
            viewport_height > 0 && panel == Focus::Flags ==> final(self).flag_panel.inner.base.list_state.scroll
                == crate::list_state::scrolled_to_show(
                old(self).flag_panel.inner.base.list_state.selected_index,
                old(self).flag_panel.inner.base.list_state.scroll,
                viewport_height,
            ),
            viewport_height > 0 && panel == Focus::Args ==> final(self).arg_panel.inner.base.list_state.scroll
                == crate::list_state::scrolled_to_show(
                old(self).arg_panel.inner.base.list_state.selected_index,
                old(self).arg_panel.inner.base.list_state.scroll,
                viewport_height,
            ),
            viewport_height > 0 && panel == Focus::Commands ==> final(self).command_panel.inner.tree_state.scroll
                == crate::list_state::tree_scrolled_to_show(
                old(self).command_panel.inner.tree_state.selected_index,
                old(self).command_panel.inner.tree_state.scroll,
                viewport_height,
            ) && *final(self) == (App {
                command_panel: FilterableComponent {
                    inner: CommandPanelComponent {
                        tree_state: crate::list_state::TreeState {
                            scroll: final(self).command_panel.inner.tree_state.scroll,
                            ..old(self).command_panel.inner.tree_state
                        },
                        ..old(self).command_panel.inner
                    },
                    ..old(self).command_panel
                },
                ..*old(self)
            }),
            viewport_height > 0 && panel == Focus::Flags ==> *final(self) == (App {
                flag_panel: FilterableComponent {
                    inner: FlagPanelComponent {
                        base: crate::list_panel::ListPanelBase {
                            list_state: crate::list_state::PickerState {
                                scroll: final(self).flag_panel.inner.base.list_state.scroll,
                                ..old(self).flag_panel.inner.base.list_state
                            },
                            ..old(self).flag_panel.inner.base
                        },
                        ..old(self).flag_panel.inner
                    },
                    ..old(self).flag_panel
                },
                ..*old(self)
            }),
            viewport_height > 0 && panel == Focus::Args ==> *final(self) == (App {
                arg_panel: FilterableComponent {
                    inner: ArgPanelComponent {
                        base: crate::list_panel::ListPanelBase {
                            list_state: crate::list_state::PickerState {
                                scroll: final(self).arg_panel.inner.base.list_state.scroll,
                                ..old(self).arg_panel.inner.base.list_state
                            },
                            ..old(self).arg_panel.inner.base
                        },
                        ..old(self).arg_panel.inner
                    },
                    ..old(self).arg_panel
                },
                ..*old(self)
            }),
    {
        if viewport_height == 0 {
            return ;
        }
        match panel {
            Focus::Commands => {
                self.command_panel.inner.ensure_visible(viewport_height);
            },
            Focus::Flags => {
                self.flag_panel.inner.ensure_visible(viewport_height);
            },
            Focus::Args => {
                self.arg_panel.inner.ensure_visible(viewport_height);
            },
            Focus::Preview => {},
        }
    }

    /// Move the focused panel's selection up; a changed command becomes the path.
    pub fn move_up(&mut self)
        requires
            old(self).ready(),
        ensures
            final(self).ready(),
            old(self).focus_spec() == Focus::Commands ==> old(self).command_panel.inner.moved_to(
                final(self).command_panel.inner,
                old(self).command_panel.inner.up_target(),
            ) && final(self).path_view() == if final(self).command_panel.inner.path_view()
                != old(self).command_panel.inner.path_view() {
                final(self).command_panel.inner.path_view()
            } else {
                old(self).path_view()
            } && {
                let moved = App {
                    command_panel: FilterableComponent { inner: final(self).command_panel.inner, ..old(self).command_panel },
                    ..*old(self)
                };
                if final(self).command_panel.inner.path_view() != old(self).command_panel.inner.path_view() {
                    navigated(moved, *final(self), final(self).command_panel.inner.path_view())
                        && final(self).command_panel == moved.command_panel
                } else {
                    *final(self) == moved
                }
            },
            old(self).focus_spec() == Focus::Flags ==> old(self).flag_panel.inner.base.selects(
                final(self).flag_panel.inner.base,
                old(self).flag_panel.inner.base.up_selection(),
            ) && *final(self) == (App {
                flag_panel: FilterableComponent {
                    inner: FlagPanelComponent { base: final(self).flag_panel.inner.base, ..old(self).flag_panel.inner },
                    ..old(self).flag_panel
                },
                ..*old(self)
            }),
            old(self).focus_spec() == Focus::Args ==> old(self).arg_panel.inner.base.selects(
                final(self).arg_panel.inner.base,
                old(self).arg_panel.inner.base.up_selection(),
            ) && *final(self) == (App {
                arg_panel: FilterableComponent {
                    inner: ArgPanelComponent { base: final(self).arg_panel.inner.base, ..old(self).arg_panel.inner },
                    ..old(self).arg_panel
                },
                ..*old(self)
            }),
            old(self).focus_spec() == Focus::Preview ==> *final(self) == *old(self),
    {
        match self.focus() {
            Focus::Commands => {
                if self.command_panel.inner.move_up() {
                    self.sync_command_path_from_tree();
                }
            },
            Focus::Flags => {
                self.flag_panel.inner.move_up();
            },
            Focus::Args => {
                self.arg_panel.inner.move_up();
            },
            Focus::Preview => {},
        }
    }

    /// Select flag `idx` (clamped to the list).
    pub fn set_flag_index(&mut self, idx: usize)
        requires
            old(self).ready(),
        ensures
            final(self).ready(),
            old(self).flag_panel.inner.base.selects(
                final(self).flag_panel.inner.base,
                crate::list_panel::selected_after(old(self).flag_panel.inner.base.list_state, idx as int),
            ),
            *final(self) == (App { flag_panel: final(self).flag_panel, ..*old(self) }),
    {
        self.flag_panel.inner.select(idx);
    }

    /// Select argument `idx` (clamped to the list).
    pub fn set_arg_index(&mut self, idx: usize)
        requires
            old(self).ready(),
        ensures
            final(self).ready(),
            old(self).arg_panel.inner.base.selects(
                final(self).arg_panel.inner.base,
                crate::list_panel::selected_after(old(self).arg_panel.inner.base.list_state, idx as int),
            ),
            *final(self) == (App { arg_panel: final(self).arg_panel, ..*old(self) }),
    {
        self.arg_panel.inner.select(idx);
    }

    /// The number of commands in the command panel's list.
    pub fn total_visible_commands(&self) -> (r: usize)
        ensures
            r == self.command_panel.inner.flat().len(),
    {
        self.command_panel.inner.total_visible()
    }

    /// The visible arguments of the current command.
    pub fn visible_args(&self) -> (r: Vec<&ArgSpec>)
        ensures
            r@.len() == shown_args(self.command().args@).len(),
            forall|i: int| 0 <= i < r@.len() ==> *#[trigger] r@[i] == shown_args(self.command().args@)[i],
    {
        let cmd = command_of(&self.spec, &self.command_path);
        let mut out: Vec<&ArgSpec> = Vec::new();
        let mut i: usize = 0;
        while i < cmd.args.len()
            invariant
                i <= cmd.args@.len(),
                *cmd == self.command(),
                out@.len() == shown_args(cmd.args@.subrange(0, i as int)).len(),
                forall|j: int| 0 <= j < out@.len() ==> *#[trigger] out@[j] == shown_args(cmd.args@.subrange(0, i as int))[j],
            decreases cmd.args.len() - i,
        {
            assert(cmd.args@.subrange(0, i as int + 1).drop_last() =~= cmd.args@.subrange(0, i as int));
            if !cmd.args[i].hide {
                out.push(&cmd.args[i]);
            }
            i = i + 1;
        }
        assert(cmd.args@.subrange(0, cmd.args@.len() as int) =~= cmd.args@);
        out
    }

    /// The command line built from the current state, for display: values
    /// with spaces quoted, the argument being edited or chosen shown live.
    pub fn build_command(&self) -> (r: String)
        ensures
            exists|p: LiveArgPreview|
                live_preview_of(p, self.arg_panel.inner) && r@ == join_words(
                    crate::command_builder::display_words(
                        self.spec,
                        self.flag_values.levels@,
                        self.path_view(),
                        self.arg_values@,
                        p,
                    ),
                ),
    {
        let choice_text = self.arg_panel.inner.choice_select_text();
        let edit_text = self.arg_panel.inner.editing_text();
        let preview = LiveArgPreview {
            choice_select_index: self.arg_panel.inner.choice_select_index(),
            choice_select_text: choice_text.as_str(),
            is_editing: self.arg_panel.inner.is_editing(),
            editing_index: self.arg_panel.inner.selected_index(),
            editing_text: edit_text.as_str(),
        };
        assert(!self.arg_panel.inner.base.editing ==> edit_text@ =~= Seq::<char>::empty());
        assert(live_preview_of(preview, self.arg_panel.inner));
        crate::command_builder::build_command(&self.spec, &self.flag_values, &self.command_path, &self.arg_values, &preview)
    }

    /// The command as separate, unquoted words, for running it.
    pub fn build_command_parts(&self) -> (r: Vec<String>)
        ensures
            views(r@) == crate::command_builder::part_words(
                self.spec,
                self.flag_values.levels@,
                self.path_view(),
                self.arg_values@,
            ),
    {
        crate::command_builder::build_command_parts(&self.spec, &self.flag_values, &self.command_path, &self.arg_values)
    }

    /// Match scores of the flag panel's items against the focused panel's
    /// filter (none when it is empty).
    pub fn compute_flag_match_scores(&self) -> (r: ScoreTable)
        ensures
            ({
                let pattern = self.filter_spec();
                let items = self.flag_panel.inner.base.filterable_items@;
                forall|k: Seq<char>|
                    #![trigger score_get(r.entries@, k)]
                    score_get(r.entries@, k) == if pattern.len() == 0 {
                        None
                    } else {
                        match last_key_index(items, items.len() as int, k) {
                            Some(m) => Some(item_scores(items[m], pattern)),
                            None => None,
                        }
                    }
            }),
    {
        let pattern = self.filter();
        if pattern.unicode_len() == 0 {
            let r = ScoreTable::new();
            proof {
                assert forall|k: Seq<char>| #[trigger] score_get(r.entries@, k) == None::<MatchScores> by {
                    crate::matching::lemma_score_index_props(r.entries@, k);
                }
            }
            return r;
        }
        compute_match_scores(&self.flag_panel.inner.base.filterable_items, pattern.as_str())
    }

    /// Match scores of the argument panel's items against the focused
    /// panel's filter (none when it is empty).
    pub fn compute_arg_match_scores(&self) -> (r: ScoreTable)
        ensures
            ({
                let pattern = self.filter_spec();
                let items = self.arg_panel.inner.base.filterable_items@;
                forall|k: Seq<char>|
                    #![trigger score_get(r.entries@, k)]
                    score_get(r.entries@, k) == if pattern.len() == 0 {
                        None
                    } else {
                        match last_key_index(items, items.len() as int, k) {
                            Some(m) => Some(item_scores(items[m], pattern)),
                            None => None,
                        }
                    }
            }),
    {
        let pattern = self.filter();
        if pattern.unicode_len() == 0 {
            let r = ScoreTable::new();
            proof {
                assert forall|k: Seq<char>| #[trigger] score_get(r.entries@, k) == None::<MatchScores> by {
                    crate::matching::lemma_score_index_props(r.entries@, k);
                }
            }
            return r;
        }
        compute_match_scores(&self.arg_panel.inner.base.filterable_items, pattern.as_str())
    }

    /// A click while a choice box is open goes to the panel showing it (the
    /// flag panel first): a row inside the box picks it, anywhere else
    /// closes the box.
    fn delegate_mouse_to_choosing_panel(&mut self, event: MouseInput) -> (r: Action)
        requires
            old(self).ready(),
        ensures
            final(self).ready(),
            r == Action::Idle,
            choice_clicked(*old(self), event, *final(self)),
    {
        if self.flag_panel.inner.is_choosing() {
            let rect = self.layout.flag_overlay_rect;
            let inner = self.flag_panel.inner.handle_choice_click(event.column, event.row, rect);
            let ghost mid = *self;
            let ghost ginner = inner;
            let result = match inner {
                EventResult::Action(a) => EventResult::Action(FilterAction::Inner(a)),
                EventResult::Consumed => EventResult::Consumed,
                EventResult::NotHandled => EventResult::NotHandled,
            };
            assert(result == as_filter_result(ginner));
            assert(mid == App { flag_panel: FilterableComponent { inner: mid.flag_panel.inner, ..old(self).flag_panel }, ..*old(self) });
            let _ = self.dispatch_flag_result(result);
            return Action::Idle;
        }
        if self.arg_panel.inner.is_choosing() {
            let rect = self.layout.arg_overlay_rect;
            let inner = self.arg_panel.inner.handle_choice_click(event.column, event.row, rect);
            let ghost mid = *self;
            let ghost ginner = inner;
            let result = match inner {
                EventResult::Action(a) => EventResult::Action(FilterAction::Inner(a)),
                EventResult::Consumed => EventResult::Consumed,
                EventResult::NotHandled => EventResult::NotHandled,
            };
            assert(result == as_filter_result(ginner));
            assert(mid == App { arg_panel: FilterableComponent { inner: mid.arg_panel.inner, ..old(self).arg_panel }, ..*old(self) });
            let _ = self.dispatch_arg_result(result);
            return Action::Idle;
        }
        Action::Idle
    }

    /// Handle a mouse event. The position is remembered for hover
    /// highlighting (see `route_mouse` for what the event does).
    pub fn handle_mouse(&mut self, event: MouseInput) -> (r: Action)
        requires
            old(self).ready(),
        ensures
            final(self).ready(),
            exists|mid: App|
                old(self).mouse_routed(event, mid, r) && *final(self) == (App {
                    mouse_position: Some((event.column, event.row)),
                    ..mid
                }),
    {
        let r = self.route_mouse(event);
        self.mouse_position = Some((event.column, event.row));
        r
    }

    /// What a mouse event does. A left click on an open theme picker picks a row or
    /// cancels; on the theme indicator it opens the picker; with a choice box
    /// open it goes to that box; else it focuses the panel under it (finishing
    /// an edit in the panel already focused) and passes the click on — a
    /// click on the already focused preview accepts the command. Scrolling goes
    /// to the panel under the cursor, or to the focused panel when the cursor
    /// is over no panel.
    #[verifier::rlimit(40)]
    fn route_mouse(&mut self, event: MouseInput) -> (r: Action)
        requires
            old(self).ready(),
        ensures
            final(self).ready(),
            old(self).mouse_routed(event, *final(self), r),
    {
        let col = event.column;
        let row = event.row;
        match event.kind {
            MouseKind::LeftDown => {
                if self.is_theme_picking() {
                    let rect = self.layout.theme_overlay_rect;
                    if let Some(action) = self.theme_picker.click_at(col, row, rect) {
                        self.process_theme_picker_action(action);
                    }
                    return Action::Idle;
                }
                if let Some(rect) = self.layout.theme_indicator_rect {
                    if rect.contains(col, row) {
                        self.open_theme_picker();
                        return Action::Idle;
                    }
                }
                if self.is_choosing() {
                    return self.delegate_mouse_to_choosing_panel(event);
                }
                match self.layout.region_at(col, row) {
                    Some((clicked_panel, area)) => {
                        proof {
                            let i = choose|i: int|
                                0 <= i < self.layout.click_regions@.len() && self.layout.click_regions@[i] == (area, clicked_panel)
                                    && area.contains_spec(col, row) && forall|j: int|
                                    0 <= j < i ==> !(#[trigger] self.layout.click_regions@[j]).0.contains_spec(col, row);
                            assert(self.layout.click_regions@[i].0.wf());
                            assert(clicked_region(self.layout, col, row, i));
                            assert forall|k: int| #[trigger] clicked_region(self.layout, col, row, k) implies self.layout.click_regions@[k]
                                == (area, clicked_panel) by {
                                if k < i {
                                    assert(!self.layout.click_regions@[k].0.contains_spec(col, row));
                                } else if k > i {
                                    assert(!self.layout.click_regions@[i].0.contains_spec(col, row));
                                }
                            }
                        }
                        let ghost start = *self;
                        let switching_focus = self.focus() != clicked_panel;
                        if !switching_focus && self.is_editing() {
                            self.finish_editing();
                        }
                        let ghost edited = *self;
                        self.set_focus(clicked_panel);
                        let ghost focused = *self;
                        let r = match clicked_panel {
                            Focus::Commands => {
                                let result = self.command_panel.handle_mouse(event, area);
                                let ghost handled = *self;
                                let _ = self.dispatch_command_result(result);
                                assert(focused.command_panel.mouse_outcome(event, area, handled.command_panel, result));
                                assert(handled == App { command_panel: handled.command_panel, ..focused });
                                Action::Idle
                            },
                            Focus::Flags => {
                                let result = self.flag_panel.handle_mouse(event, area);
                                let ghost handled = *self;
                                let _ = self.dispatch_flag_result(result);
                                assert(focused.flag_panel.mouse_outcome(event, area, handled.flag_panel, result));
                                assert(handled == App { flag_panel: handled.flag_panel, ..focused });
                                Action::Idle
                            },
                            Focus::Args => {
                                let result = self.arg_panel.handle_mouse(event, area);
                                let ghost handled = *self;
                                let _ = self.dispatch_arg_result(result);
                                assert(focused.arg_panel.mouse_outcome(event, area, handled.arg_panel, result));
                                assert(handled == App { arg_panel: handled.arg_panel, ..focused });
                                Action::Idle
                            },
                            Focus::Preview => {
                                if !switching_focus {
                                    Action::Accept
                                } else {
                                    Action::Idle
                                }
                            },
                        };
                        assert((if start.focus_spec() == clicked_panel && (start.flag_panel.inner.base.editing
                            || start.arg_panel.inner.base.editing) {
                            edits_finished(start, edited)
                        } else {
                            edited == start
                        }) && focus_set(edited, clicked_panel, focused));
                        r
                    },
                    None => Action::Idle,
                }
            },
            MouseKind::ScrollUp | MouseKind::ScrollDown => {
                match self.layout.region_at(col, row) {
                    Some((panel, area)) => {
                        proof {
                            let i = choose|i: int|
                                0 <= i < self.layout.click_regions@.len() && self.layout.click_regions@[i] == (area, panel)
                                    && area.contains_spec(col, row) && forall|j: int|
                                    0 <= j < i ==> !(#[trigger] self.layout.click_regions@[j]).0.contains_spec(col, row);
                            assert(self.layout.click_regions@[i].0.wf());
                            assert(clicked_region(self.layout, col, row, i));
                            assert forall|k: int| #[trigger] clicked_region(self.layout, col, row, k) implies self.layout.click_regions@[k]
                                == (area, panel) by {
                                if k < i {
                                    assert(!self.layout.click_regions@[k].0.contains_spec(col, row));
                                } else if k > i {
                                    assert(!self.layout.click_regions@[i].0.contains_spec(col, row));
                                }
                            }
                        }
                        let ghost before = *self;
                        match panel {
                            Focus::Commands => {
                                let result = self.command_panel.handle_mouse(event, area);
                                let ghost handled = *self;
                                let _ = self.dispatch_command_result(result);
                                assert(before.command_panel.mouse_outcome(event, area, handled.command_panel, result));
                                assert(handled == App { command_panel: handled.command_panel, ..before });
                            },
                            Focus::Flags => {
                                let result = self.flag_panel.handle_mouse(event, area);
                                let ghost handled = *self;
                                let _ = self.dispatch_flag_result(result);
                                assert(before.flag_panel.mouse_outcome(event, area, handled.flag_panel, result));
                                assert(handled == App { flag_panel: handled.flag_panel, ..before });
                            },
                            Focus::Args => {
                                let result = self.arg_panel.handle_mouse(event, area);
                                let ghost handled = *self;
                                let _ = self.dispatch_arg_result(result);
                                assert(before.arg_panel.mouse_outcome(event, area, handled.arg_panel, result));
                                assert(handled == App { arg_panel: handled.arg_panel, ..before });
                            },
                            Focus::Preview => {},
                        }
                        Action::Idle
                    },
                    None => {
                        let focus = self.focus();
                        let area = self.layout.area_for(focus);
                        proof {
                            if exists|i: int| 0 <= i < self.layout.click_regions@.len() && #[trigger] self.layout.click_regions@[i].1 == focus {
                                let i = choose|i: int|
                                    0 <= i < self.layout.click_regions@.len() && self.layout.click_regions@[i].1 == focus && area
                                        == self.layout.click_regions@[i].0 && forall|j: int|
                                        0 <= j < i ==> #[trigger] self.layout.click_regions@[j].1 != focus;
                                assert(self.layout.click_regions@[i].0.wf());
                            }
                        }
                        let ghost before = *self;
                        match focus {
                            Focus::Commands => {
                                let result = self.command_panel.handle_mouse(event, area);
                                let ghost handled = *self;
                                let _ = self.dispatch_command_result(result);
                                assert(before.command_panel.mouse_outcome(event, area, handled.command_panel, result));
                                assert(handled == App { command_panel: handled.command_panel, ..before });
                            },
                            Focus::Flags => {
                                let result = self.flag_panel.handle_mouse(event, area);
                                let ghost handled = *self;
                                let _ = self.dispatch_flag_result(result);
                                assert(before.flag_panel.mouse_outcome(event, area, handled.flag_panel, result));
                                assert(handled == App { flag_panel: handled.flag_panel, ..before });
                            },
                            Focus::Args => {
                                let result = self.arg_panel.handle_mouse(event, area);
                                let ghost handled = *self;
                                let _ = self.dispatch_arg_result(result);
                                assert(before.arg_panel.mouse_outcome(event, area, handled.arg_panel, result));
                                assert(handled == App { arg_panel: handled.arg_panel, ..before });
                            },
                            Focus::Preview => {},
                        }
                        assert(before.layout.first_area(focus, area));
                        Action::Idle
                    },
                }
            },
            MouseKind::Other => Action::Idle,
        }
    }

    /// Give the command panel a Right key (open the selected command), as
    /// the keyboard would; a Tab out of its filter moves the ring only.
    pub fn navigate_into_selected(&mut self)
        requires
            old(self).ready(),
        ensures
            final(self).ready(),
            exists|p: FilterableComponent<CommandPanelComponent>, res: EventResult<FilterAction<CommandPanelAction>>|
                #[trigger] old(self).command_panel.key_outcome(KeyPress { code: KeyCode::Right, control: false }, p, res)
                    && match res {
                    EventResult::Action(FilterAction::Inner(CommandPanelAction::PathChanged(path))) => navigated(
                        App { command_panel: p, ..*old(self) },
                        *final(self),
                        views(path@),
                    ),
                    EventResult::Action(FilterAction::FocusNext) => ring_moved(
                        old(self).focus_manager,
                        final(self).focus_manager,
                        true,
                    ) && *final(self) == (App { command_panel: p, focus_manager: final(self).focus_manager, ..*old(self) }),
                    EventResult::Action(FilterAction::FocusPrev) => ring_moved(
                        old(self).focus_manager,
                        final(self).focus_manager,
                        false,
                    ) && *final(self) == (App { command_panel: p, focus_manager: final(self).focus_manager, ..*old(self) }),
                    _ => *final(self) == (App { command_panel: p, ..*old(self) }),
                },
    {
        let key = KeyPress::new(KeyCode::Right);
        let result = self.command_panel.handle_key(key);
        let ghost panel = self.command_panel;
        let ghost gres = result;
        match result {
            EventResult::Action(FilterAction::Inner(action)) => {
                self.process_command_action(action);
            },
            EventResult::Action(FilterAction::FocusNext) => {
                self.focus_manager.next();
            },
            EventResult::Action(FilterAction::FocusPrev) => {
                self.focus_manager.prev();
            },
            _ => {},
        }
        assert(old(self).command_panel.key_outcome(key, self.command_panel, gres));
    }

    /// The help bar's context, the first that applies: the theme picker is
    /// open, a choice box is open, a value is being edited, a filter is being
    /// typed, a filter is applied, else the focused panel.
    pub fn help_context(&self) -> (r: HelpContext)
        ensures
            r == if self.theme_picker.state is Some {
                HelpContext::ThemePicking
            } else if self.is_choosing_spec() {
                HelpContext::Choosing
            } else if self.flag_panel.inner.base.editing || self.arg_panel.inner.base.editing {
                HelpContext::Editing
            } else if self.command_panel.filtering || self.flag_panel.filtering || self.arg_panel.filtering {
                HelpContext::Filtering
            } else if self.command_panel.inner.filter_view().len() > 0 || self.flag_panel.inner.filter_view().len() > 0
                || self.arg_panel.inner.filter_view().len() > 0 {
                HelpContext::FilterApplied
            } else {
                HelpContext::Panel(self.focus_spec())
            },
    {
        if self.is_theme_picking() {
            HelpContext::ThemePicking
        } else if self.is_choosing() {
            HelpContext::Choosing
        } else if self.is_editing() {
            HelpContext::Editing
        } else if self.is_filtering() {
            HelpContext::Filtering
        } else if self.filter_active() {
            HelpContext::FilterApplied
        } else {
            HelpContext::Panel(self.focus())
        }
    }

    /// Tell a panel it gained focus.
    fn notify_focus_gained(&mut self, panel: Focus)
        requires
            old(self).ready(),
        ensures
            final(self).ready(),
            gained_focus(*old(self), panel, *final(self)),
            final(self).focus_manager == old(self).focus_manager,
            final(self).command_panel.inner.tree_nodes == old(self).command_panel.inner.tree_nodes,
            final(self).command_panel.inner.path == old(self).command_panel.inner.path,
            *final(self) == match panel {
                Focus::Commands => App { command_panel: final(self).command_panel, ..*old(self) },
                Focus::Flags => App { flag_panel: final(self).flag_panel, ..*old(self) },
                Focus::Args => App { arg_panel: final(self).arg_panel, ..*old(self) },
                Focus::Preview => *old(self),
            },
    {
        match panel {
            Focus::Commands => {
                let _ = self.command_panel.handle_focus_gained();
            },
            Focus::Flags => {
                let _ = self.flag_panel.handle_focus_gained();
            },
            Focus::Args => {
                let _ = self.arg_panel.handle_focus_gained();
            },
            Focus::Preview => {},
        }
    }

    /// Move focus to `panel`: the panel losing it is told first (an edit it
    /// was making is applied), then the one gaining it.
    pub fn set_focus(&mut self, panel: Focus)
        requires
            old(self).ready(),
        ensures
            final(self).ready(),
            focus_set(*old(self), panel, *final(self)),
    {
        let previous = self.focus();
        if previous == panel {
            return ;
        }
        self.notify_focus_lost(previous);
        let ghost lost = *self;
        self.focus_manager.set(panel);
        let ghost moved = *self;
        self.notify_focus_gained(panel);
        assert(lost_focus(*old(self), previous, lost) && moved == (App { focus_manager: moved.focus_manager, ..lost })
            && ring_set(lost.focus_manager, panel, moved.focus_manager) && gained_focus(moved, panel, *self));
    }

    /// Tab: focus the next panel (wrapping), telling the panels that lose
    /// and gain it.
    fn focus_next(&mut self)
        requires
            old(self).ready(),
        ensures
            final(self).ready(),
            ring_moved(old(self).focus_manager, final(self).focus_manager, true),
            focus_cycled(*old(self), *final(self), true),
    {
        let previous = self.focus();
        self.focus_manager.next();
        let ghost moved = *self;
        let current = self.focus();
        if current != previous {
            self.notify_focus_lost(previous);
            let ghost lost = *self;
            self.notify_focus_gained(current);
            assert(lost_focus(moved, previous, lost) && gained_focus(lost, current, *self));
        }
        assert(ring_moved(old(self).focus_manager, moved.focus_manager, true));
    }

    /// Shift-Tab: focus the previous panel (wrapping), telling the panels
    /// that lose and gain it.
    fn focus_prev(&mut self)
        requires
            old(self).ready(),
        ensures
            final(self).ready(),
            ring_moved(old(self).focus_manager, final(self).focus_manager, false),
            focus_cycled(*old(self), *final(self), false),
    {
        let previous = self.focus();
        self.focus_manager.prev();
        let ghost moved = *self;
        let current = self.focus();
        if current != previous {
            self.notify_focus_lost(previous);
            let ghost lost = *self;
            self.notify_focus_gained(current);
            assert(lost_focus(moved, previous, lost) && gained_focus(lost, current, *self));
        }
        assert(ring_moved(old(self).focus_manager, moved.focus_manager, false));
    }

    /// Tell a panel it lost focus; an edit it finishes is applied.
    fn notify_focus_lost(&mut self, panel: Focus)
        requires
            old(self).ready(),
        ensures
            final(self).ready(),
            lost_focus(*old(self), panel, *final(self)),
            final(self).focus_manager == old(self).focus_manager,
            panel_left_clean(*final(self), panel),
    {
        match panel {
            Focus::Commands => {
                // The command panel reports nothing when it loses focus.
                let ghost before = self.command_panel;
                let result = self.command_panel.handle_focus_lost();
                proof {
                    lemma_command_focus_lost_clean(before, self.command_panel, result);
                }
                assert(!(result is Action));
            },
            Focus::Flags => {
                let result = self.flag_panel.handle_focus_lost();
                if let EventResult::Action(FilterAction::Inner(action)) = result {
                    self.process_flag_action(action);
                }
            },
            Focus::Args => {
                let result = self.arg_panel.handle_focus_lost();
                if let EventResult::Action(FilterAction::Inner(action)) = result {
                    self.process_arg_action(action);
                }
            },
            Focus::Preview => {},
        }
    }
}

/// After the command panel has lost focus it is neither typing a filter nor
/// holding one.
proof fn lemma_command_focus_lost_clean(
    old: FilterableComponent<CommandPanelComponent>,
    new: FilterableComponent<CommandPanelComponent>,
    r: EventResult<FilterAction<CommandPanelAction>>,
)
    requires
        old.focus_lost_outcome(new, r),
    ensures
        !new.filtering,
        new.inner.filter_view().len() == 0,
{
    let (mid, ir) = choose|mid: CommandPanelComponent, ir: EventResult<CommandPanelAction>|
        old.inner.focus_lost_effect(mid, ir) && if old.filtering || mid.filter_view().len() > 0 {
            !new.filtering && new.filter_input.chars@.len() == 0 && stopped_inner(mid, new.inner)
                && (if ir is NotHandled {
                r is Consumed
            } else {
                wrapped(ir, r)
            })
        } else {
            new.filtering == old.filtering && new.filter_input == old.filter_input && new.inner
                == mid && wrapped(ir, r)
        };
    if old.filtering || mid.filter_view().len() > 0 {
        let (cleared, a) = choose|cleared: CommandPanelComponent, a: Option<CommandPanelAction>|
            mid.clear_effect(cleared, a) && cleared.active_effect(false, new.inner);
        assert(new.inner.filter_text == cleared.filter_text);
    }
}

} // verus!
