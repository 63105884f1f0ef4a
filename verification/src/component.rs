//! The panel interface (keys, mouse, focus) and the filter wrapper that adds
//! interactive filter typing on top of any filterable panel.

use vstd::prelude::*;

use crate::events::{EventResult, FilterAction, KeyCode, KeyPress, MouseInput};
use crate::geometry::Rect;
use crate::list_state::TextInput;

verus! {

/// A panel that reacts to focus changes, keys and the mouse. Each panel
/// states, as spec functions, what each event does to it.
pub trait Component: Sized {
    type Action;

    /// The panel's own invariant.
    spec fn inv(self) -> bool;

    /// What gaining focus does.
    spec fn focus_gained_effect(self, new: Self, r: EventResult<Self::Action>) -> bool;

    /// What losing focus does.
    spec fn focus_lost_effect(self, new: Self, r: EventResult<Self::Action>) -> bool;

    /// What a key does.
    spec fn key_effect(self, key: KeyPress, new: Self, r: EventResult<Self::Action>) -> bool;

    /// What a mouse event in `area` does.
    spec fn mouse_effect(self, event: MouseInput, area: Rect, new: Self, r: EventResult<Self::Action>) -> bool;

    fn handle_focus_gained(&mut self) -> (r: EventResult<Self::Action>)
        requires
            old(self).inv(),
        ensures
            final(self).inv(),
            old(self).focus_gained_effect(*final(self), r),
    ;

    fn handle_focus_lost(&mut self) -> (r: EventResult<Self::Action>)
        requires
            old(self).inv(),
        ensures
            final(self).inv(),
            old(self).focus_lost_effect(*final(self), r),
    ;

    fn handle_key(&mut self, key: KeyPress) -> (r: EventResult<Self::Action>)
        requires
            old(self).inv(),
        ensures
            final(self).inv(),
            old(self).key_effect(key, *final(self), r),
    ;

    fn handle_mouse(&mut self, event: MouseInput, area: Rect) -> (r: EventResult<Self::Action>)
        requires
            old(self).inv(),
            area.wf(),
        ensures
            final(self).inv(),
            old(self).mouse_effect(event, area, *final(self), r),
    ;
}

/// A panel that can be filtered by typed text.
pub trait Filterable: Component {
    /// The filter text applied.
    spec fn filter_view(self) -> Seq<char>;

    /// What applying the filter `text` does.
    spec fn apply_effect(self, text: Seq<char>, new: Self, r: Option<Self::Action>) -> bool;

    /// What clearing the filter does.
    spec fn clear_effect(self, new: Self, r: Option<Self::Action>) -> bool;

    /// What marking the filter input (in)active does.
    spec fn active_effect(self, active: bool, new: Self) -> bool;

    /// Apply a filter pattern; an action when the parent needs to react.
    fn apply_filter(&mut self, text: &str) -> (r: Option<Self::Action>)
        requires
            old(self).inv(),
        ensures
            final(self).inv(),
            old(self).apply_effect(text@, *final(self), r),
    ;

    /// Clear all filter state (text, scores).
    fn clear_filter(&mut self) -> (r: Option<Self::Action>)
        requires
            old(self).inv(),
        ensures
            final(self).inv(),
            old(self).clear_effect(*final(self), r),
            final(self).filter_view().len() == 0,
    ;

    /// Set whether the filter input is actively being typed.
    fn set_filter_active(&mut self, active: bool)
        requires
            old(self).inv(),
        ensures
            final(self).inv(),
            old(self).active_effect(active, *final(self)),
            final(self).filter_view() == old(self).filter_view(),
    ;

    /// Whether a filter is applied (text is non-empty).
    fn has_active_filter(&self) -> (r: bool)
        ensures
            r == (self.filter_view().len() > 0),
    ;

    /// Current filter text.
    fn filter_text(&self) -> (r: String)
        ensures
            r@ == self.filter_view(),
    ;
}

/// Composable wrapper that adds filter interaction to an inner component:
/// it owns the typing mode and the typed text, and hands the text to the
/// inner panel, which scores and selects.
#[derive(Debug)]
pub struct FilterableComponent<C> {
    pub inner: C,
    /// Whether the user is actively typing a filter.
    pub filtering: bool,
    /// The typed filter text.
    pub filter_input: TextInput,
}

/// `new` results from stopping and clearing the filter of `old`: the inner
/// filter cleared, then marked inactive.
pub open spec fn stopped_inner<C: Filterable>(old: C, new: C) -> bool {
    exists|mid: C, a: Option<C::Action>| old.clear_effect(mid, a) && mid.active_effect(false, new)
}

/// The result of handing the typed text to the inner panel.
pub open spec fn synced_result<A>(a: Option<A>, r: EventResult<FilterAction<A>>) -> bool {
    match a {
        Some(x) => r == EventResult::Action(FilterAction::Inner(x)),
        None => r is Consumed,
    }
}

/// An inner result passed up, its action wrapped.
pub open spec fn wrapped<A>(ir: EventResult<A>, r: EventResult<FilterAction<A>>) -> bool {
    match ir {
        EventResult::Consumed => r is Consumed,
        EventResult::NotHandled => r is NotHandled,
        EventResult::Action(a) => r == EventResult::Action(FilterAction::Inner(a)),
    }
}

impl<C: Filterable> FilterableComponent<C> {
    /// The inner invariant holds and the cursor lies within the typed text.
    pub open spec fn wf(self) -> bool {
        self.inner.inv() && self.filter_input.wf()
    }

    /// What focus gain does to the wrapper: the inner panel's focus gain,
    /// its action wrapped; the filter input is kept.
    pub open spec fn focus_gained_outcome(self, new: Self, r: EventResult<FilterAction<C::Action>>) -> bool {
        &&& new.filtering == self.filtering
        &&& new.filter_input == self.filter_input
        &&& exists|ir: EventResult<C::Action>| self.inner.focus_gained_effect(new.inner, ir) && wrapped(ir, r)
    }

    /// What focus loss does to the wrapper: the inner panel's focus loss,
    /// then, when a filter was being typed or is applied, filter mode is left
    /// and the filter cleared (a result the inner panel left alone becomes
    /// Consumed).
    pub open spec fn focus_lost_outcome(self, new: Self, r: EventResult<FilterAction<C::Action>>) -> bool {
        exists|mid: C, ir: EventResult<C::Action>|
            self.inner.focus_lost_effect(mid, ir) && if self.filtering || mid.filter_view().len() > 0 {
                !new.filtering && new.filter_input.chars@.len() == 0 && stopped_inner(mid, new.inner) && (if ir is NotHandled {
                    r is Consumed
                } else {
                    wrapped(ir, r)
                })
            } else {
                new.filtering == self.filtering && new.filter_input == self.filter_input && new.inner == mid
                    && wrapped(ir, r)
            }
    }

    /// What a mouse event in `area` does to the wrapper: the inner panel's
    /// mouse handling, its action wrapped; the filter input is kept.
    pub open spec fn mouse_outcome(self, event: MouseInput, area: Rect, new: Self, r: EventResult<FilterAction<C::Action>>) -> bool {
        &&& new.filtering == self.filtering
        &&& new.filter_input == self.filter_input
        &&& exists|ir: EventResult<C::Action>| self.inner.mouse_effect(event, area, new.inner, ir) && wrapped(ir, r)
    }

    /// What a key does to the wrapper.
    pub open spec fn key_outcome(self, key: KeyPress, new: Self, r: EventResult<FilterAction<C::Action>>) -> bool {
        if self.filtering {
            match key.code {
                KeyCode::Esc => !new.filtering && new.filter_input.chars@.len() == 0 && stopped_inner(
                    self.inner,
                    new.inner,
                ) && r is Consumed,
                KeyCode::Enter => !new.filtering && new.filter_input == self.filter_input
                    && self.inner.active_effect(false, new.inner) && r is Consumed,
                KeyCode::Tab => !new.filtering && new.filter_input.chars@.len() == 0 && stopped_inner(
                    self.inner,
                    new.inner,
                ) && r == EventResult::<FilterAction<C::Action>>::Action(FilterAction::FocusNext),
                KeyCode::BackTab => !new.filtering && new.filter_input.chars@.len() == 0
                    && stopped_inner(self.inner, new.inner) && r
                    == EventResult::<FilterAction<C::Action>>::Action(FilterAction::FocusPrev),
                KeyCode::Backspace => new.filtering && (if self.filter_input.cursor > 0 {
                    new.filter_input.chars@ == self.filter_input.chars@.remove(
                        self.filter_input.cursor - 1,
                    ) && new.filter_input.cursor == self.filter_input.cursor - 1
                } else {
                    new.filter_input.chars@ == self.filter_input.chars@ && new.filter_input.cursor
                        == self.filter_input.cursor
                }) && exists|a: Option<C::Action>|
                    self.inner.apply_effect(new.filter_input.chars@, new.inner, a) && synced_result(
                        a,
                        r,
                    ),
                KeyCode::Char(c) => new.filtering && new.filter_input.chars@
                    == self.filter_input.chars@.insert(self.filter_input.cursor as int, c)
                    && new.filter_input.cursor == self.filter_input.cursor + 1 && exists|
                    a: Option<C::Action>,
                |
                    self.inner.apply_effect(new.filter_input.chars@, new.inner, a) && synced_result(
                        a,
                        r,
                    ),
                KeyCode::Up | KeyCode::Down => new.filtering && new.filter_input == self.filter_input
                    && exists|ir: EventResult<C::Action>|
                    self.inner.key_effect(key, new.inner, ir) && wrapped(ir, r),
                _ => new == self && r is Consumed,
            }
        } else {
            exists|mid: C, ir: EventResult<C::Action>|
                self.inner.key_effect(key, mid, ir) && if ir is NotHandled && key.code == KeyCode::Esc
                    && mid.filter_view().len() > 0 {
                    !new.filtering && new.filter_input.chars@.len() == 0 && stopped_inner(
                        mid,
                        new.inner,
                    ) && r is Consumed
                } else if ir is NotHandled && key.code == KeyCode::Char('/') {
                    new.filtering && new.filter_input.chars@.len() == 0 && mid.active_effect(
                        true,
                        new.inner,
                    ) && r is Consumed
                } else {
                    new.filtering == self.filtering && new.filter_input == self.filter_input
                        && new.inner == mid && wrapped(ir, r)
                }
        }
    }

    /// A wrapper around `inner`, not filtering.
    pub fn new(inner: C) -> (r: Self)
        requires
            inner.inv(),
        ensures
            r.wf(),
            r.inner == inner,
            !r.filtering,
            r.filter_input.chars@.len() == 0,
    {
        FilterableComponent { inner, filtering: false, filter_input: TextInput::empty() }
    }

    /// Whether the user is currently in interactive filter typing mode.
    pub fn is_filtering(&self) -> (r: bool)
        ensures
            r == self.filtering,
    {
        self.filtering
    }

    /// Whether any filter is applied to the inner panel.
    pub fn has_active_filter(&self) -> (r: bool)
        ensures
            r == (self.inner.filter_view().len() > 0),
    {
        self.inner.has_active_filter()
    }

    /// Current filter text of the inner panel.
    pub fn filter_text(&self) -> (r: String)
        ensures
            r@ == self.inner.filter_view(),
    {
        self.inner.filter_text()
    }

    /// Start interactive filter mode with an empty filter.
    pub fn start_filtering(&mut self)
        requires
            old(self).wf(),
        ensures
            final(self).wf(),
            final(self).filtering,
            final(self).filter_input.chars@.len() == 0,
            old(self).inner.active_effect(true, final(self).inner),
    {
        self.filtering = true;
        self.filter_input.clear();
        self.inner.set_filter_active(true);
    }

    /// Set the filter text and apply it to the inner panel.
    pub fn set_filter_text(&mut self, text: &str)
        requires
            old(self).wf(),
        ensures
            final(self).wf(),
            final(self).filtering == old(self).filtering,
            final(self).filter_input.chars@ == text@,
            exists|a: Option<C::Action>| old(self).inner.apply_effect(text@, final(self).inner, a),
    {
        self.filter_input.set_text(text);
        let ghost before = self.inner;
        let a = self.inner.apply_filter(text);
        assert(before.apply_effect(text@, self.inner, a));
    }

    /// The typed filter input.
    pub fn filter_input(&self) -> (r: &TextInput)
        ensures
            r == &self.filter_input,
    {
        &self.filter_input
    }

    /// Apply the typed text to the inner component.
    fn sync_filter(&mut self) -> (r: EventResult<FilterAction<C::Action>>)
        requires
            old(self).wf(),
        ensures
            final(self).wf(),
            final(self).filtering == old(self).filtering,
            final(self).filter_input == old(self).filter_input,
            exists|a: Option<C::Action>|
                old(self).inner.apply_effect(old(self).filter_input.chars@, final(self).inner, a)
                    && synced_result(a, r),
    {
        let text = self.filter_input.text();
        let ghost before = self.inner;
        let a = self.inner.apply_filter(text.as_str());
        let ghost ga = a;
        let r = match a {
            Some(action) => EventResult::Action(FilterAction::Inner(action)),
            None => EventResult::Consumed,
        };
        assert(before.apply_effect(text@, self.inner, ga) && synced_result(ga, r));
        r
    }

    /// Leave filter mode and clear the filter.
    fn stop_and_clear(&mut self)
        requires
            old(self).wf(),
        ensures
            final(self).wf(),
            !final(self).filtering,
            final(self).filter_input.chars@.len() == 0,
            stopped_inner(old(self).inner, final(self).inner),
            final(self).inner.filter_view().len() == 0,
    {
        self.filtering = false;
        self.filter_input.clear();
        let ghost before = self.inner;
        let a = self.inner.clear_filter();
        let ghost mid = self.inner;
        self.inner.set_filter_active(false);
        assert(before.clear_effect(mid, a) && mid.active_effect(false, self.inner));
    }

    /// Pass focus gain to the inner panel.
    pub fn handle_focus_gained(&mut self) -> (r: EventResult<FilterAction<C::Action>>)
        requires
            old(self).wf(),
        ensures
            final(self).wf(),
            old(self).focus_gained_outcome(*final(self), r),
    {
        let ghost before = self.inner;
        let ir = self.inner.handle_focus_gained();
        let ghost gir = ir;
        let r = match ir {
            EventResult::Consumed => EventResult::Consumed,
            EventResult::NotHandled => EventResult::NotHandled,
            EventResult::Action(a) => EventResult::Action(FilterAction::Inner(a)),
        };
        assert(before.focus_gained_effect(self.inner, gir) && wrapped(gir, r));
        r
    }

    /// Pass focus loss to the inner panel, then leave filter mode and clear
    /// the filter if one was being typed or applied.
    pub fn handle_focus_lost(&mut self) -> (r: EventResult<FilterAction<C::Action>>)
        requires
            old(self).wf(),
        ensures
            final(self).wf(),
            old(self).focus_lost_outcome(*final(self), r),
    {
        let ghost before = self.inner;
        let ir = self.inner.handle_focus_lost();
        let ghost mid = self.inner;
        let ghost gir = ir;
        let result = match ir {
            EventResult::Consumed => EventResult::Consumed,
            EventResult::NotHandled => EventResult::NotHandled,
            EventResult::Action(a) => EventResult::Action(FilterAction::Inner(a)),
        };
        assert(before.focus_lost_effect(mid, gir) && wrapped(gir, result));
        if self.filtering || self.inner.has_active_filter() {
            self.stop_and_clear();
            let r = match result {
                EventResult::NotHandled => EventResult::Consumed,
                other => other,
            };
            assert(before.focus_lost_effect(mid, gir));
            r
        } else {
            result
        }
    }

    /// Filter typing keys: Esc clears and leaves, Enter leaves keeping the
    /// filter, Tab/BackTab clear and move focus, Backspace and typing edit
    /// and re-apply the filter, Up/Down go to the panel. Otherwise keys go to
    /// the panel first; unhandled Esc clears an applied filter and '/'
    /// starts typing one.
    pub fn handle_key(&mut self, key: KeyPress) -> (r: EventResult<FilterAction<C::Action>>)
        requires
            old(self).wf(),
        ensures
            final(self).wf(),
            old(self).key_outcome(key, *final(self), r),
    {
        if self.filtering {
            match key.code {
                KeyCode::Esc => {
                    self.stop_and_clear();
                    EventResult::Consumed
                },
                KeyCode::Enter => {
                    self.filtering = false;
                    self.inner.set_filter_active(false);
                    EventResult::Consumed
                },
                KeyCode::Tab => {
                    self.stop_and_clear();
                    EventResult::Action(FilterAction::FocusNext)
                },
                KeyCode::BackTab => {
                    self.stop_and_clear();
                    EventResult::Action(FilterAction::FocusPrev)
                },
                KeyCode::Backspace => {
                    self.filter_input.delete_char_backward();
                    self.sync_filter()
                },
                KeyCode::Char(c) => {
                    self.filter_input.insert_char(c);
                    self.sync_filter()
                },
                KeyCode::Up | KeyCode::Down => {
                    let ghost before = self.inner;
                    let ir = self.inner.handle_key(key);
                    let ghost gir = ir;
                    let r = match ir {
                        EventResult::Consumed => EventResult::Consumed,
                        EventResult::NotHandled => EventResult::NotHandled,
                        EventResult::Action(a) => EventResult::Action(FilterAction::Inner(a)),
                    };
                    assert(before.key_effect(key, self.inner, gir) && wrapped(gir, r));
                    r
                },
                _ => EventResult::Consumed,
            }
        } else {
            let ghost before = self.inner;
            let ghost old_self = *self;
            let ir = self.inner.handle_key(key);
            let ghost mid = self.inner;
            let ghost gir = ir;
            let r = match ir {
                EventResult::NotHandled => {
                    if key.code == KeyCode::Esc && self.inner.has_active_filter() {
                        self.stop_and_clear();
                        EventResult::Consumed
                    } else if key.code == KeyCode::Char('/') {
                        self.start_filtering();
                        EventResult::Consumed
                    } else {
                        EventResult::NotHandled
                    }
                },
                EventResult::Consumed => EventResult::Consumed,
                EventResult::Action(a) => EventResult::Action(FilterAction::Inner(a)),
            };
            assert(before.key_effect(key, mid, gir) && if gir is NotHandled && key.code == KeyCode::Esc
                && mid.filter_view().len() > 0 {
                !self.filtering && self.filter_input.chars@.len() == 0 && stopped_inner(
                    mid,
                    self.inner,
                ) && r is Consumed
            } else if gir is NotHandled && key.code == KeyCode::Char('/') {
                self.filtering && self.filter_input.chars@.len() == 0 && mid.active_effect(
                    true,
                    self.inner,
                ) && r is Consumed
            } else {
                self.filtering == old_self.filtering && self.filter_input == old_self.filter_input
                    && self.inner == mid && wrapped(gir, r)
            });
            r
        }
    }

    /// Pass a mouse event to the inner panel.
    pub fn handle_mouse(&mut self, event: MouseInput, area: Rect) -> (r: EventResult<FilterAction<C::Action>>)
        requires
            old(self).wf(),
            area.wf(),
        ensures
            final(self).wf(),
            old(self).mouse_outcome(event, area, *final(self), r),
    {
        let ghost before = self.inner;
        let ir = self.inner.handle_mouse(event, area);
        let ghost gir = ir;
        let r = match ir {
            EventResult::Consumed => EventResult::Consumed,
            EventResult::NotHandled => EventResult::NotHandled,
            EventResult::Action(a) => EventResult::Action(FilterAction::Inner(a)),
        };
        assert(before.mouse_effect(event, area, self.inner, gir) && wrapped(gir, r));
        r
    }
}

} // verus!
