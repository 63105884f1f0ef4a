//! The argument panel: the filterable list of a command's positional
//! arguments and what Backspace and Enter on one ask the parent to do.

use vstd::prelude::*;

use crate::component::{Component, Filterable};
use crate::events::{EventResult, KeyCode, KeyPress, MouseInput};
use crate::geometry::Rect;
use crate::list_panel::{
    choice_key_outcome, edit_key_effect, list_mouse_effect, ChoiceEvent, EditEvent, FocusLostEvent,
    ListPanelBase, MouseResult,
};
use crate::matching::FilterableItem;
use crate::text::{string_of, views};
use crate::values::{copy_opt_string, copy_strings, opt_chars, ArgValue};
use crate::flag_panel::auto_selected;

verus! {

/// Actions that the arg panel can emit to its parent.
#[derive(Debug, Clone, PartialEq, Eq)]
pub enum ArgPanelAction {
    /// Enter pressed on an arg.
    EnterRequest(ArgPanelEnterRequest),
    /// Backspace pressed: clear the arg value at the given index.
    ClearArg(usize),
    /// Choice select confirmed: apply the selected value to the arg at the given index.
    ChoiceSelected { index: usize, value: String },
    /// Choice select cancelled: keep the typed text as the arg value.
    ChoiceCancelled { index: usize, value: String },
    /// Inline edit value changed (live sync to arg_values).
    ValueChanged { index: usize, value: String },
    /// Inline edit finished (Enter/Esc committed the value).
    EditFinished { index: usize, value: String },
}

/// Panel-owned interpretation of Enter on an argument row.
#[derive(Debug, Clone, PartialEq, Eq)]
pub enum ArgPanelEnterRequest {
    ChoiceSelect { index: usize, choices: Vec<String>, current_value: String, value_column: u16 },
    EditOrComplete { index: usize, arg_name: String, current_value: String, value_column: u16 },
}

/// Where an argument's value starts: border, cursor, indicator, the name in
/// brackets and " = "; kept to 16 bits.
pub open spec fn arg_value_column_spec(a: ArgValue) -> u16 {
    ((1 + 2 + 2 + a.name@.len() + 2 + 3) % 65536) as u16
}

/// The column of an argument's value.
pub fn value_column_for_arg(arg: &ArgValue) -> (r: u16)
    ensures
        r == arg_value_column_spec(*arg),
{
    let len = arg.name.unicode_len();
    let total = (10 + len % 65536) % 65536;
    proof {
        vstd::arithmetic::div_mod::lemma_add_mod_noop(10, len as int, 65536);
    }
    total as u16
}

/// Whether `r` is what Enter asks for on argument `index`: the choice box
/// when it has choices, else editing (or completion) of its value.
pub open spec fn is_arg_enter(r: Option<ArgPanelEnterRequest>, index: int, args: Seq<ArgValue>) -> bool {
    if index < 0 || index >= args.len() {
        r is None
    } else {
        let a = args[index];
        if a.choices@.len() > 0 {
            r matches Some(ArgPanelEnterRequest::ChoiceSelect { index: i, choices, current_value, value_column })
                && i == index && views(choices@) == views(a.choices@) && current_value@ == a.value@
                && value_column == arg_value_column_spec(a)
        } else {
            r matches Some(ArgPanelEnterRequest::EditOrComplete { index: i, arg_name, current_value, value_column })
                && i == index && arg_name@ == a.name@ && current_value@ == a.value@ && value_column
                == arg_value_column_spec(a)
        }
    }
}

/// Whether two Enter requests ask for the same thing.
pub open spec fn same_arg_request(a: ArgPanelEnterRequest, b: ArgPanelEnterRequest) -> bool {
    match (a, b) {
        (
            ArgPanelEnterRequest::ChoiceSelect { index: i1, choices: c1, current_value: v1, value_column: k1 },
            ArgPanelEnterRequest::ChoiceSelect { index: i2, choices: c2, current_value: v2, value_column: k2 },
        ) => i1 == i2 && views(c1@) == views(c2@) && v1@ == v2@ && k1 == k2,
        (
            ArgPanelEnterRequest::EditOrComplete { index: i1, arg_name: n1, current_value: v1, value_column: k1 },
            ArgPanelEnterRequest::EditOrComplete { index: i2, arg_name: n2, current_value: v2, value_column: k2 },
        ) => i1 == i2 && n1@ == n2@ && v1@ == v2@ && k1 == k2,
        _ => false,
    }
}

fn copy_arg_request(q: &ArgPanelEnterRequest) -> (r: ArgPanelEnterRequest)
    ensures
        same_arg_request(r, *q),
{
    match q {
        ArgPanelEnterRequest::ChoiceSelect { index, choices, current_value, value_column } => {
            let cs = copy_strings(choices);
            assert(views(cs@) =~= views(choices@));
            ArgPanelEnterRequest::ChoiceSelect {
                index: *index,
                choices: cs,
                current_value: string_of(current_value.as_str()),
                value_column: *value_column,
            }
        },
        ArgPanelEnterRequest::EditOrComplete { index, arg_name, current_value, value_column } => {
            ArgPanelEnterRequest::EditOrComplete {
                index: *index,
                arg_name: string_of(arg_name.as_str()),
                current_value: string_of(current_value.as_str()),
                value_column: *value_column,
            }
        },
    }
}

/// What Enter asks for on argument `index`.
pub fn build_arg_enter_request(index: usize, args: &Vec<ArgValue>) -> (r: Option<ArgPanelEnterRequest>)
    ensures
        is_arg_enter(r, index as int, args@),
{
    if index >= args.len() {
        return None;
    }
    let arg = &args[index];
    let current_value = string_of(arg.value.as_str());
    let value_column = value_column_for_arg(arg);
    if arg.choices.len() > 0 {
        let cs = copy_strings(&arg.choices);
        assert(views(cs@) =~= views(arg.choices@));
        Some(ArgPanelEnterRequest::ChoiceSelect { index, choices: cs, current_value, value_column })
    } else {
        Some(
            ArgPanelEnterRequest::EditOrComplete {
                index,
                arg_name: string_of(arg.name.as_str()),
                current_value,
                value_column,
            },
        )
    }
}

/// Whether `item` is the filter item of argument `a`.
pub open spec fn is_arg_item(item: FilterableItem, a: ArgValue) -> bool {
    &&& item.key@ == a.name@
    &&& views(item.name_texts@) == seq![a.name@]
    &&& (item.help is Some <==> a.help is Some)
    &&& opt_chars(item.help) == opt_chars(a.help)
}

/// An argument list panel that owns its navigation state and handles events.
/// Argument values live with the parent; the panel emits actions for it to apply.
#[derive(Debug)]
pub struct ArgPanelComponent {
    pub base: ListPanelBase,
    pub enter_requests: Vec<ArgPanelEnterRequest>,
}

/// What the panel reports for Enter (or an activating click) on argument `index`.
pub open spec fn arg_enter_result(p: ArgPanelComponent, index: usize, r: EventResult<ArgPanelAction>) -> bool {
    if index < p.enter_requests@.len() {
        r matches EventResult::Action(ArgPanelAction::EnterRequest(q)) && same_arg_request(
            q,
            p.enter_requests@[index as int],
        )
    } else {
        r is Consumed
    }
}

/// A choice event as the panel's result.
pub open spec fn arg_choice_mapped(ev: ChoiceEvent, r: EventResult<ArgPanelAction>) -> bool {
    match ev {
        ChoiceEvent::Selected { index, value } => r matches EventResult::Action(ArgPanelAction::ChoiceSelected { index: i, value: v })
            && i == index && v@ == value@,
        ChoiceEvent::Cancelled { index, value } => r matches EventResult::Action(ArgPanelAction::ChoiceCancelled { index: i, value: v })
            && i == index && v@ == value@,
        ChoiceEvent::Consumed => r is Consumed,
    }
}

/// A choice-box click result as the panel's result.
pub open spec fn arg_click_mapped(m: MouseResult, r: EventResult<ArgPanelAction>) -> bool {
    match m {
        MouseResult::ChoiceClicked(ev) => arg_choice_mapped(ev, r),
        MouseResult::NotHandled => r is NotHandled,
        _ => r is Consumed,
    }
}

/// An edit event as the panel's result.
pub open spec fn arg_edit_mapped(ev: EditEvent, r: EventResult<ArgPanelAction>) -> bool {
    match ev {
        EditEvent::ValueChanged { index, value } => r matches EventResult::Action(ArgPanelAction::ValueChanged { index: i, value: v })
            && i == index && v@ == value@,
        EditEvent::EditFinished { index, value } => r matches EventResult::Action(ArgPanelAction::EditFinished { index: i, value: v })
            && i == index && v@ == value@,
        EditEvent::Consumed => r is Consumed,
    }
}

impl ArgPanelComponent {
    /// An empty argument panel.
    pub fn new() -> (r: ArgPanelComponent)
        ensures
            r.base.is_fresh(),
            r.enter_requests@.len() == 0,
    {
        ArgPanelComponent { base: ListPanelBase::new(), enter_requests: Vec::new() }
    }

    /// The selected index.
    pub fn selected_index(&self) -> (r: usize)
        ensures
            r == self.base.list_state.selected_index,
    {
        self.base.selected_index()
    }

    /// Set whether the panel has focus.
    pub fn set_focused(&mut self, focused: bool)
        ensures
            *final(self) == (ArgPanelComponent { base: ListPanelBase { focused, ..old(self).base }, ..*old(self) }),
    {
        self.base.set_focused(focused);
    }

    /// Set the hovered index.
    pub fn set_hovered_index(&mut self, idx: Option<usize>)
        ensures
            *final(self) == (ArgPanelComponent {
                base: ListPanelBase { hovered_index: idx, ..old(self).base },
                ..*old(self)
            }),
    {
        self.base.set_hovered_index(idx);
    }

    /// Set the mouse position.
    pub fn set_mouse_position(&mut self, pos: Option<(u16, u16)>)
        ensures
            *final(self) == (ArgPanelComponent {
                base: ListPanelBase { mouse_position: pos, ..old(self).base },
                ..*old(self)
            }),
    {
        self.base.set_mouse_position(pos);
    }

    /// Change the item count.
    pub fn set_total(&mut self, total: usize)
        ensures
            final(self).base.list_state.total_items == total,
            final(self).base.list_state.selected_index == if old(self).base.list_state.selected_index
                >= total && total > 0 {
                (total - 1) as usize
            } else {
                old(self).base.list_state.selected_index
            },
            final(self).base.list_state.scroll == old(self).base.list_state.scroll,
            final(self).base == (ListPanelBase { list_state: final(self).base.list_state, ..old(self).base }),
            *final(self) == (ArgPanelComponent { base: final(self).base, ..*old(self) }),
    {
        self.base.set_total(total);
    }

    /// Select `index` when it is in the list.
    pub fn select(&mut self, index: usize)
        ensures
            old(self).base.selects(final(self).base, crate::list_panel::selected_after(old(self).base.list_state, index as int)),
            *final(self) == (ArgPanelComponent { base: final(self).base, ..*old(self) }),
    {
        self.base.select(index);
    }

    /// Scroll so that the selection is visible.
    pub fn ensure_visible(&mut self, viewport_height: usize)
        ensures
            final(self).base.list_state.scroll == crate::list_state::scrolled_to_show(
                old(self).base.list_state.selected_index,
                old(self).base.list_state.scroll,
                viewport_height,
            ),
            final(self).base.list_state.selected_index == old(self).base.list_state.selected_index,
            final(self).base.list_state.total_items == old(self).base.list_state.total_items,
            final(self).base == (ListPanelBase { list_state: final(self).base.list_state, ..old(self).base }),
            *final(self) == (ArgPanelComponent { base: final(self).base, ..*old(self) }),
    {
        self.base.ensure_visible(viewport_height);
    }

    /// Cache the filter items of the arguments.
    pub fn set_filterable_items_from_args(&mut self, args: &Vec<ArgValue>)
        ensures
            final(self).base.filterable_items@.len() == args@.len(),
            forall|i: int| 0 <= i < args@.len() ==> is_arg_item(#[trigger] final(self).base.filterable_items@[i], args@[i]),
            views(final(self).base.item_keys@) == args@.map_values(|a: ArgValue| a.name@),
            final(self).base == (ListPanelBase {
                item_keys: final(self).base.item_keys,
                filterable_items: final(self).base.filterable_items,
                ..old(self).base
            }),
            *final(self) == (ArgPanelComponent { base: final(self).base, ..*old(self) }),
    {
        let mut items: Vec<FilterableItem> = Vec::new();
        let mut i: usize = 0;
        while i < args.len()
            invariant
                i <= args@.len(),
                items@.len() == i,
                forall|k: int| 0 <= k < i ==> is_arg_item(#[trigger] items@[k], args@[k]),
            decreases args@.len() - i,
        {
            let mut name_texts: Vec<String> = Vec::new();
            name_texts.push(string_of(args[i].name.as_str()));
            assert(views(name_texts@) =~= seq![args@[i as int].name@]);
            items.push(
                FilterableItem {
                    key: string_of(args[i].name.as_str()),
                    name_texts,
                    help: copy_opt_string(&args[i].help),
                },
            );
            i = i + 1;
        }
        let ghost its = items@;
        self.base.set_filterable_items(items);
        assert(its.map_values(|it: FilterableItem| it.key@) =~= args@.map_values(|a: ArgValue| a.name@));
    }

    /// Record the Enter request of each argument.
    pub fn set_enter_requests_from_args(&mut self, args: &Vec<ArgValue>)
        ensures
            final(self).enter_requests@.len() == args@.len(),
            forall|i: int| 0 <= i < args@.len() ==> is_arg_enter(Some(#[trigger] final(self).enter_requests@[i]), i, args@),
            *final(self) == (ArgPanelComponent { enter_requests: final(self).enter_requests, ..*old(self) }),
    {
        let mut reqs: Vec<ArgPanelEnterRequest> = Vec::new();
        let mut i: usize = 0;
        while i < args.len()
            invariant
                i <= args@.len(),
                reqs@.len() == i,
                forall|k: int| 0 <= k < i ==> is_arg_enter(Some(#[trigger] reqs@[k]), k, args@),
            decreases args@.len() - i,
        {
            match build_arg_enter_request(i, args) {
                Some(q) => {
                    reqs.push(q);
                },
                None => {},
            }
            i = i + 1;
        }
        self.enter_requests = reqs;
    }

    /// Move selection up.
    pub fn move_up(&mut self)
        ensures
            old(self).base.selects(final(self).base, old(self).base.up_selection()),
            *final(self) == (ArgPanelComponent { base: final(self).base, ..*old(self) }),
    {
        self.base.move_up();
    }

    /// Set the scroll offset directly.
    pub fn set_scroll(&mut self, scroll: usize)
        ensures
            final(self).base.list_state.scroll == scroll as u16,
            final(self).base.list_state.selected_index == old(self).base.list_state.selected_index,
            final(self).base.list_state.total_items == old(self).base.list_state.total_items,
            final(self).base == (ListPanelBase { list_state: final(self).base.list_state, ..old(self).base }),
            *final(self) == (ArgPanelComponent { base: final(self).base, ..*old(self) }),
    {
        self.base.set_scroll(scroll);
    }

    /// Whether the choice box is open.
    pub fn is_choosing(&self) -> (r: bool)
        ensures
            r == self.base.choice_select.state is Some,
    {
        self.base.is_choosing()
    }

    /// The argument whose choice box is open.
    pub fn choice_select_index(&self) -> (r: Option<usize>)
        ensures
            r == self.base.choice_select_index,
    {
        self.base.choice_select_index()
    }

    /// The text typed into the choice box.
    pub fn choice_select_text(&self) -> (r: String)
        ensures
            r@ == self.base.choice_select.typed_spec(),
    {
        self.base.choice_select_text()
    }

    /// The highlighted row of the choice box.
    pub fn selected_choice_index(&self) -> (r: Option<usize>)
        ensures
            r == self.base.choice_select.selected_spec(),
    {
        self.base.selected_choice_index()
    }

    /// Set the mouse position over the choice box.
    pub fn set_choice_select_mouse_position(&mut self, pos: Option<(u16, u16)>)
        ensures
            final(self).base.choice_select.mouse_position == pos,
            final(self).base.choice_select.state == old(self).base.choice_select.state,
            final(self).base == (ListPanelBase { choice_select: final(self).base.choice_select, ..old(self).base }),
            *final(self) == (ArgPanelComponent { base: final(self).base, ..*old(self) }),
    {
        self.base.set_choice_select_mouse_position(pos);
    }

    /// A click while the choice box is open.
    pub fn handle_choice_click(&mut self, col: u16, row: u16, overlay_rect: Option<Rect>) -> (r:
        EventResult<ArgPanelAction>)
        requires
            old(self).base.wf(),
            overlay_rect matches Some(rect) ==> rect.wf(),
        ensures
            final(self).base.wf(),
            final(self).enter_requests == old(self).enter_requests,
            exists|m: MouseResult|
                #[trigger] arg_click_mapped(m, r) && crate::list_panel::choice_click_effect(
                    old(self).base,
                    col,
                    row,
                    overlay_rect,
                    final(self).base,
                    m,
                ),
    {
        let m = self.base.handle_choice_click(col, row, overlay_rect);
        let ghost gm = m;
        let r = match m {
            MouseResult::ChoiceClicked(ChoiceEvent::Selected { index, value }) => EventResult::Action(
                ArgPanelAction::ChoiceSelected { index, value },
            ),
            MouseResult::ChoiceClicked(ChoiceEvent::Cancelled { index, value }) => EventResult::Action(
                ArgPanelAction::ChoiceCancelled { index, value },
            ),
            MouseResult::NotHandled => EventResult::NotHandled,
            _ => EventResult::Consumed,
        };
        assert(arg_click_mapped(gm, r));
        r
    }

    /// Open the choice box under argument `index`.
    pub fn open_choice_select(&mut self, index: usize, choices: Vec<String>, current_value: &str, value_column: u16)
        requires
            old(self).base.wf(),
        ensures
            final(self).base.wf(),
            final(self).base.choice_select_index == Some(index),
            final(self).base.value_column == value_column,
            final(self).base.choice_select.state matches Some(s) && s.choices@ == choices@
                && s.edit_input.chars@ == current_value@ && s.selected_index
                == crate::choice_select::first_choice_index(choices@, current_value@),
            final(self).base.editing == old(self).base.editing,
            final(self).base.list_state == old(self).base.list_state,
            final(self).enter_requests == old(self).enter_requests,
    {
        self.base.open_choice_select(index, choices, current_value, value_column);
    }

    /// Open the completion box under argument `index`, editing its value.
    pub fn open_completion_select(
        &mut self,
        index: usize,
        choices: Vec<String>,
        descriptions: Vec<Option<String>>,
        current_value: &str,
        value_column: u16,
    )
        requires
            old(self).base.wf(),
        ensures
            final(self).base.wf(),
            final(self).base.choice_select_index == Some(index),
            final(self).base.value_column == value_column,
            final(self).base.editing,
            final(self).base.edit_input.chars@ == current_value@,
            final(self).base.choice_select.state matches Some(s) && s.choices@ == choices@
                && s.descriptions@ == descriptions@ && s.edit_input.chars@ == current_value@,
            final(self).base.list_state == old(self).base.list_state,
            final(self).enter_requests == old(self).enter_requests,
    {
        self.base.open_completion_select(index, choices, descriptions, current_value, value_column);
    }

    /// The visible choices of the open box.
    pub fn filtered_choices(&self) -> (r: Vec<(usize, String)>)
        ensures
            self.base.choice_select.state matches Some(s) ==> crate::choice_select::lists_filtered(r@, s.filtered()),
            self.base.choice_select.state is None ==> r@.len() == 0,
    {
        self.base.filtered_choices()
    }

    /// Anchor an open choice box under its item's value in a panel drawn in `area`.
    pub fn anchor_choice_select(&mut self, area: Rect)
        requires
            old(self).base.wf(),
        ensures
            final(self).base.wf(),
            match (old(self).base.choice_select.state, old(self).base.choice_select_index) {
                (Some(s), Some(i)) => final(self).base == (ListPanelBase {
                    choice_select: crate::choice_select::ChoiceSelectComponent {
                        state: Some(
                            crate::choice_select::ChoiceSelectInner {
                                anchor: crate::list_panel::choice_anchor(
                                    area,
                                    i,
                                    old(self).base.list_state.scroll,
                                    old(self).base.value_column,
                                ),
                                ..s
                            },
                        ),
                        ..old(self).base.choice_select
                    },
                    ..old(self).base
                }),
                _ => final(self).base == old(self).base,
            },
            *final(self) == (ArgPanelComponent { base: final(self).base, ..*old(self) }),
    {
        self.base.anchor_choice_select(area);
    }

    /// Whether a value is being edited inline.
    pub fn is_editing(&self) -> (r: bool)
        ensures
            r == self.base.editing,
    {
        self.base.is_editing()
    }

    /// Start editing `text`.
    pub fn start_editing(&mut self, text: &str)
        ensures
            final(self).base.editing,
            final(self).base.edit_input.chars@ == text@,
            final(self).base.edit_input.cursor == text@.len(),
            final(self).base.edit_input.wf(),
            final(self).base == (ListPanelBase { editing: true, edit_input: final(self).base.edit_input, ..old(self).base }),
            *final(self) == (ArgPanelComponent { base: final(self).base, ..*old(self) }),
    {
        self.base.start_editing(text);
    }

    /// Finish editing; the edited text.
    pub fn finish_editing(&mut self) -> (r: String)
        ensures
            r@ == old(self).base.edit_input.chars@,
            *final(self) == (ArgPanelComponent { base: ListPanelBase { editing: false, ..old(self).base }, ..*old(self) }),
    {
        self.base.finish_editing()
    }

    /// The text being edited (empty when not editing).
    pub fn editing_text(&self) -> (r: String)
        ensures
            self.base.editing ==> r@ == self.base.edit_input.chars@,
            !self.base.editing ==> r@.len() == 0,
    {
        self.base.editing_text()
    }

    /// The Enter request recorded for argument `index`.
    fn enter_action_for_index(&self, index: usize) -> (r: EventResult<ArgPanelAction>)
        ensures
            arg_enter_result(*self, index, r),
    {
        if index < self.enter_requests.len() {
            EventResult::Action(ArgPanelAction::EnterRequest(copy_arg_request(&self.enter_requests[index])))
        } else {
            EventResult::Consumed
        }
    }
}

/// What a key does to the argument panel.
pub open spec fn arg_key_effect(p: ArgPanelComponent, key: KeyPress, n: ArgPanelComponent, r: EventResult<ArgPanelAction>) -> bool {
    &&& n.enter_requests == p.enter_requests
    &&& if p.base.choice_select.state is Some {
        exists|ev: ChoiceEvent|
            choice_key_outcome(p.base, p.base.choice_select.state->0, key.code, n.base, Some(ev))
                && arg_choice_mapped(ev, r)
    } else if p.base.editing {
        exists|ev: EditEvent| edit_key_effect(p.base, key.code, n.base, ev) && arg_edit_mapped(ev, r)
    } else {
        match key.code {
            KeyCode::Up | KeyCode::Char('k') => p.base.selects(n.base, p.base.up_selection()) && r is Consumed,
            KeyCode::Down | KeyCode::Char('j') => p.base.selects(n.base, p.base.down_selection()) && r is Consumed,
            KeyCode::Backspace => n.base == p.base && r == EventResult::Action(
                ArgPanelAction::ClearArg(p.base.list_state.selected_index),
            ),
            KeyCode::Enter => n.base == p.base && arg_enter_result(p, p.base.list_state.selected_index, r),
            _ => n.base == p.base && r is NotHandled,
        }
    }
}

/// What a mouse event does to the argument panel.
pub open spec fn arg_mouse_effect(p: ArgPanelComponent, event: MouseInput, area: Rect, n: ArgPanelComponent, r: EventResult<ArgPanelAction>) -> bool {
    &&& n.enter_requests == p.enter_requests
    &&& exists|m: MouseResult|
        list_mouse_effect(p.base, event, area, n.base, m) && match m {
            MouseResult::ChoiceClicked(ev) => arg_choice_mapped(ev, r),
            MouseResult::Consumed => r is Consumed,
            MouseResult::ClickActivate(index) => arg_enter_result(p, index, r),
            MouseResult::ItemSelected(_) => r is Consumed,
            MouseResult::NotHandled => r is NotHandled,
        }
}

fn map_arg_edit_event(event: EditEvent) -> (r: EventResult<ArgPanelAction>)
    ensures
        arg_edit_mapped(event, r),
{
    match event {
        EditEvent::ValueChanged { index, value } => EventResult::Action(ArgPanelAction::ValueChanged { index, value }),
        EditEvent::EditFinished { index, value } => EventResult::Action(ArgPanelAction::EditFinished { index, value }),
        EditEvent::Consumed => EventResult::Consumed,
    }
}

fn map_arg_choice_event(event: ChoiceEvent) -> (r: EventResult<ArgPanelAction>)
    ensures
        arg_choice_mapped(event, r),
{
    match event {
        ChoiceEvent::Selected { index, value } => EventResult::Action(ArgPanelAction::ChoiceSelected { index, value }),
        ChoiceEvent::Cancelled { index, value } => EventResult::Action(ArgPanelAction::ChoiceCancelled { index, value }),
        ChoiceEvent::Consumed => EventResult::Consumed,
    }
}

impl Component for ArgPanelComponent {
    type Action = ArgPanelAction;

    open spec fn inv(self) -> bool {
        self.base.wf()
    }

    open spec fn focus_gained_effect(self, new: Self, r: EventResult<ArgPanelAction>) -> bool {
        r is NotHandled && new == (ArgPanelComponent { base: ListPanelBase { focused: true, ..self.base }, ..self })
    }

    open spec fn focus_lost_effect(self, new: Self, r: EventResult<ArgPanelAction>) -> bool {
        &&& new.enter_requests == self.enter_requests
        &&& !new.base.focused
        &&& new.base.choice_select.state is None
        &&& !new.base.editing
        &&& new.base.list_state == self.base.list_state
        &&& new.base.filter_text == self.base.filter_text
        &&& (self.base.choice_select.state is Some && self.base.editing ==> (r matches EventResult::Action(ArgPanelAction::EditFinished { index, value })
            && index == (match self.base.choice_select_index {
            Some(i) => i,
            None => self.base.list_state.selected_index,
        }) && value@ == self.base.choice_select.typed_spec()))
        &&& (self.base.choice_select.state is Some && !self.base.editing ==> r is Consumed)
        &&& (self.base.choice_select.state is None && self.base.editing ==> (r matches EventResult::Action(ArgPanelAction::EditFinished { index, value })
            && index == self.base.list_state.selected_index && value@ == self.base.edit_input.chars@))
        &&& (self.base.choice_select.state is None && !self.base.editing ==> r is NotHandled
            && new.base == (ListPanelBase { focused: false, ..self.base }))
    }

    open spec fn key_effect(self, key: KeyPress, new: Self, r: EventResult<ArgPanelAction>) -> bool {
        arg_key_effect(self, key, new, r)
    }

    open spec fn mouse_effect(self, event: MouseInput, area: Rect, new: Self, r: EventResult<ArgPanelAction>) -> bool {
        arg_mouse_effect(self, event, area, new, r)
    }

    fn handle_focus_gained(&mut self) -> (r: EventResult<ArgPanelAction>) {
        self.base.handle_focus_gained();
        EventResult::NotHandled
    }

    fn handle_focus_lost(&mut self) -> (r: EventResult<ArgPanelAction>) {
        match self.base.handle_focus_lost() {
            FocusLostEvent::EditFinished { index, value } => EventResult::Action(ArgPanelAction::EditFinished { index, value }),
            FocusLostEvent::Consumed => EventResult::Consumed,
            FocusLostEvent::NotHandled => EventResult::NotHandled,
        }
    }

    /// The open choice box takes keys first, then inline editing; otherwise
    /// Up/k and Down/j move, Backspace clears and Enter asks for the
    /// argument's Enter request.
    fn handle_key(&mut self, key: KeyPress) -> (r: EventResult<ArgPanelAction>) {
        if self.base.is_choosing() {
            let ghost before = self.base;
            let ghost s = self.base.choice_select.state->0;
            let ev = self.base.handle_choice_key(key);
            return match ev {
                Some(event) => {
                    let ghost gev = event;
                    let r = map_arg_choice_event(event);
                    assert(choice_key_outcome(before, s, key.code, self.base, Some(gev)) && arg_choice_mapped(gev, r));
                    r
                },
                None => EventResult::Consumed,
            };
        }
        if self.base.editing {
            let ghost before = self.base;
            let ev = self.base.handle_editing_key(key);
            let ghost gev = ev;
            let r = map_arg_edit_event(ev);
            assert(edit_key_effect(before, key.code, self.base, gev) && arg_edit_mapped(gev, r));
            return r;
        }
        match key.code {
            KeyCode::Up | KeyCode::Char('k') => {
                self.base.move_up();
                EventResult::Consumed
            },
            KeyCode::Down | KeyCode::Char('j') => {
                self.base.move_down();
                EventResult::Consumed
            },
            KeyCode::Backspace => EventResult::Action(ArgPanelAction::ClearArg(self.base.selected_index())),
            KeyCode::Enter => self.enter_action_for_index(self.base.selected_index()),
            _ => EventResult::NotHandled,
        }
    }

    /// Clicks select or activate an argument; the wheel moves.
    fn handle_mouse(&mut self, event: MouseInput, area: Rect) -> (r: EventResult<ArgPanelAction>) {
        let ghost before = self.base;
        let m = self.base.handle_mouse(event, area);
        let ghost gm = m;
        assert(list_mouse_effect(before, event, area, self.base, gm));
        match m {
            MouseResult::ChoiceClicked(ev) => map_arg_choice_event(ev),
            MouseResult::Consumed => EventResult::Consumed,
            MouseResult::ClickActivate(index) => self.enter_action_for_index(index),
            MouseResult::ItemSelected(_) => EventResult::Consumed,
            MouseResult::NotHandled => EventResult::NotHandled,
        }
    }
}

impl Filterable for ArgPanelComponent {
    open spec fn filter_view(self) -> Seq<char> {
        self.base.filter_text@
    }

    open spec fn apply_effect(self, text: Seq<char>, new: Self, r: Option<ArgPanelAction>) -> bool {
        &&& r is None
        &&& new.enter_requests == self.enter_requests
        &&& exists|mid: ListPanelBase|
            #![trigger mid.filter_text]
            mid.filter_text@ == text && (text.len() == 0 ==> mid.match_scores.entries@.len() == 0)
                && (text.len() > 0 ==> forall|k: Seq<char>|
                #![trigger crate::matching::score_get(mid.match_scores.entries@, k)]
                crate::matching::score_get(mid.match_scores.entries@, k) == match crate::matching::last_key_index(
                    self.base.filterable_items@,
                    self.base.filterable_items@.len() as int,
                    k,
                ) {
                    Some(m) => Some(crate::matching::item_scores(self.base.filterable_items@[m], text)),
                    None => None,
                }) && mid == (ListPanelBase {
                filter_text: mid.filter_text,
                match_scores: mid.match_scores,
                ..self.base
            }) && auto_selected(mid, new.base)
    }

    open spec fn clear_effect(self, new: Self, r: Option<ArgPanelAction>) -> bool {
        &&& r is None
        &&& new.enter_requests == self.enter_requests
        &&& new.base.filter_text@.len() == 0
        &&& new.base.match_scores.entries@.len() == 0
        &&& new.base == (ListPanelBase {
            filter_text: new.base.filter_text,
            match_scores: new.base.match_scores,
            filter_active: false,
            ..self.base
        })
    }

    open spec fn active_effect(self, active: bool, new: Self) -> bool {
        new == (ArgPanelComponent { base: ListPanelBase { filter_active: active, ..self.base }, ..self })
    }

    /// Score the arguments against `text` and select the first match.
    fn apply_filter(&mut self, text: &str) -> (r: Option<ArgPanelAction>) {
        self.base.apply_filter_from_items(text);
        let ghost mid = self.base;
        self.base.auto_select_next_match();
        assert(mid.filter_text@ == text@);
        None
    }

    /// Clear the filter.
    fn clear_filter(&mut self) -> (r: Option<ArgPanelAction>) {
        self.base.clear_filter_state();
        None
    }

    /// Mark the filter input (in)active.
    fn set_filter_active(&mut self, active: bool) {
        self.base.filter_active = active;
    }

    /// Whether a filter is applied.
    fn has_active_filter(&self) -> (r: bool) {
        self.base.has_active_filter()
    }

    /// The filter text.
    fn filter_text(&self) -> (r: String) {
        string_of(self.base.filter_text.as_str())
    }
}

} // verus!
