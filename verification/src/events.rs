//! Input events, event results, panels and the Tab focus ring.

use vstd::prelude::*;

verus! {

/// Actions that the event loop should take after handling a key.
#[derive(Debug, Clone, Copy, PartialEq, Eq, Structural)]
pub enum Action {
    /// Nothing for the event loop to do.
    Idle,
    /// Leave the program without output.
    Quit,
    /// Run the built command in the embedded terminal.
    Execute,
    /// Print the built command to standard output and leave (print-only mode).
    Accept,
}

/// Whether the app is in command-builder mode or execution mode.
#[derive(Debug, Clone, Copy, PartialEq, Eq, Structural)]
pub enum AppMode {
    /// Normal command-building UI.
    Builder,
    /// A command is running (or has finished) in an embedded terminal.
    Executing,
}

/// Which panel currently has focus.
#[derive(Debug, Clone, Copy, PartialEq, Eq, Hash, Structural)]
pub enum Focus {
    Commands,
    Flags,
    Args,
    Preview,
}

/// The key of a key press.
#[derive(Debug, Clone, Copy, PartialEq, Eq, Structural)]
pub enum KeyCode {
    Char(char),
    Enter,
    Esc,
    Tab,
    BackTab,
    Backspace,
    Delete,
    Left,
    Right,
    Up,
    Down,
    Home,
    End,
    Other,
}

/// A key press: the key and whether Control was held.
#[derive(Debug, Clone, Copy, PartialEq, Eq, Structural)]
pub struct KeyPress {
    pub code: KeyCode,
    pub control: bool,
}

impl KeyPress {
    /// A key pressed without modifiers.
    pub fn new(code: KeyCode) -> (r: KeyPress)
        ensures
            r.code == code,
            !r.control,
    {
        KeyPress { code, control: false }
    }
}

/// What the mouse did.
#[derive(Debug, Clone, Copy, PartialEq, Eq, Structural)]
pub enum MouseKind {
    LeftDown,
    ScrollUp,
    ScrollDown,
    Other,
}

/// A mouse event at a terminal cell.
#[derive(Debug, Clone, Copy, PartialEq, Eq, Structural)]
pub struct MouseInput {
    pub kind: MouseKind,
    pub column: u16,
    pub row: u16,
}

/// Result of handling an event. Generic over the action type `A`.
#[derive(Debug, Clone, PartialEq, Eq)]
pub enum EventResult<A> {
    /// Event was consumed, no further action needed.
    Consumed,
    /// Event was not handled — bubble up to parent.
    NotHandled,
    /// Event produced an action the parent should handle.
    Action(A),
}

impl<A> EventResult<A> {
    /// The result with its action transformed by `f`.
    pub open spec fn map_spec<B>(self, f: spec_fn(A) -> B) -> EventResult<B> {
        match self {
            EventResult::Consumed => EventResult::Consumed,
            EventResult::NotHandled => EventResult::NotHandled,
            EventResult::Action(a) => EventResult::Action(f(a)),
        }
    }

    /// The result with its action replaced by what `f` gives for it.
    pub open spec fn and_then_spec<B>(self, f: spec_fn(A) -> EventResult<B>) -> EventResult<B> {
        match self {
            EventResult::Consumed => EventResult::Consumed,
            EventResult::NotHandled => EventResult::NotHandled,
            EventResult::Action(a) => f(a),
        }
    }

    /// `r` is what `map` with `f` gives for `self`: Consumed and NotHandled
    /// stay, an action becomes one that `f` may return for it.
    pub open spec fn mapped_by<B, F: FnOnce(A) -> B>(self, f: F, r: EventResult<B>) -> bool {
        &&& self is Consumed ==> r is Consumed
        &&& self is NotHandled ==> r is NotHandled
        &&& self matches EventResult::Action(a) ==> (r matches EventResult::Action(b) && f.ensures((a,), b))
    }

    /// `r` is what `and_then` with `f` gives for `self`: Consumed and
    /// NotHandled stay, an action becomes a result `f` may return for it.
    pub open spec fn then_by<B, F: FnOnce(A) -> EventResult<B>>(self, f: F, r: EventResult<B>) -> bool {
        &&& self is Consumed ==> r is Consumed
        &&& self is NotHandled ==> r is NotHandled
        &&& self matches EventResult::Action(a) ==> f.ensures((a,), r)
    }

    /// Transform the action type, preserving Consumed/NotHandled.
    pub fn map<B, F: FnOnce(A) -> B>(self, f: F) -> (r: EventResult<B>)
        requires
            self matches EventResult::Action(a) ==> f.requires((a,)),
        ensures
            self.mapped_by(f, r),
            forall|g: spec_fn(A) -> B|
                (forall|a: A, b: B| #[trigger] f.ensures((a,), b) ==> b == g(a)) ==> r == self.map_spec(g),
    {
        match self {
            EventResult::Consumed => EventResult::Consumed,
            EventResult::NotHandled => EventResult::NotHandled,
            EventResult::Action(a) => EventResult::Action(f(a)),
        }
    }

    /// Transform the action into a different EventResult.
    pub fn and_then<B, F: FnOnce(A) -> EventResult<B>>(self, f: F) -> (r: EventResult<B>)
        requires
            self matches EventResult::Action(a) ==> f.requires((a,)),
        ensures
            self.then_by(f, r),
            forall|g: spec_fn(A) -> EventResult<B>|
                (forall|a: A, b: EventResult<B>| #[trigger] f.ensures((a,), b) ==> b == g(a)) ==> r
                    == self.and_then_spec(g),
    {
        match self {
            EventResult::Consumed => EventResult::Consumed,
            EventResult::NotHandled => EventResult::NotHandled,
            EventResult::Action(a) => f(a),
        }
    }
}

/// Mapping with the identity gives the result back.
pub proof fn lemma_map_identity<A>(r: EventResult<A>)
    ensures
        r.map_spec(|x: A| x) == r,
{
}

/// Mapping with `f` then `g` is mapping with their composition.
pub proof fn lemma_map_compose<A, B, C>(r: EventResult<A>, f: spec_fn(A) -> B, g: spec_fn(B) -> C)
    ensures
        r.map_spec(f).map_spec(g) == r.map_spec(|x: A| g(f(x))),
{
}

/// `and_then` with `Action` gives the result back; on an action it is `f`
/// of it; Consumed and NotHandled stay; and mapping is `and_then` with the
/// mapped action.
pub proof fn lemma_and_then_laws<A, B>(
    r: EventResult<A>,
    a: A,
    f: spec_fn(A) -> EventResult<B>,
    g: spec_fn(A) -> B,
)
    ensures
        r.and_then_spec(|x: A| EventResult::Action(x)) == r,
        EventResult::Action(a).and_then_spec(f) == f(a),
        EventResult::<A>::Consumed.and_then_spec(f) == EventResult::<B>::Consumed,
        EventResult::<A>::NotHandled.and_then_spec(f) == EventResult::<B>::NotHandled,
        r.map_spec(g) == r.and_then_spec(|x: A| EventResult::Action(g(x))),
{
}

/// A `map` call with a function that gives its argument back returns the
/// result it was given.
pub proof fn lemma_map_call_identity<A, F: FnOnce(A) -> A>(r: EventResult<A>, f: F, out: EventResult<A>)
    requires
        r.mapped_by(f, out),
        forall|a: A, b: A| #[trigger] f.ensures((a,), b) ==> b == a,
    ensures
        out == r,
{
}

/// Mapping with `f` and then with `g` gives what one `map` call with their
/// composition `h` gives (each function answering as a spec function does).
pub proof fn lemma_map_call_compose<A, B, C, F: FnOnce(A) -> B, G: FnOnce(B) -> C, H: FnOnce(A) -> C>(
    r: EventResult<A>,
    f: F,
    g: G,
    h: H,
    fs: spec_fn(A) -> B,
    gs: spec_fn(B) -> C,
    r1: EventResult<B>,
    r2: EventResult<C>,
    r3: EventResult<C>,
)
    requires
        forall|a: A, b: B| #[trigger] f.ensures((a,), b) ==> b == fs(a),
        forall|b: B, c: C| #[trigger] g.ensures((b,), c) ==> c == gs(b),
        forall|a: A, c: C| #[trigger] h.ensures((a,), c) ==> c == gs(fs(a)),
        r.mapped_by(f, r1),
        r1.mapped_by(g, r2),
        r.mapped_by(h, r3),
    ensures
        r2 == r3,
{
}

/// `and_then` calls: with a function that wraps its argument as an action
/// the result comes back; on an action the result is the function's; on
/// Consumed or NotHandled it stays; and a `map` with `g` gives what an
/// `and_then` with a function wrapping `g`'s value gives.
pub proof fn lemma_and_then_call_laws<
    A,
    B,
    F: FnOnce(A) -> EventResult<A>,
    K: FnOnce(A) -> EventResult<B>,
    G: FnOnce(A) -> B,
    W: FnOnce(A) -> EventResult<B>,
>(
    r: EventResult<A>,
    f: F,
    k: K,
    g: G,
    w: W,
    gs: spec_fn(A) -> B,
    out_f: EventResult<A>,
    out_k: EventResult<B>,
    out_g: EventResult<B>,
    out_w: EventResult<B>,
)
    requires
        forall|a: A, o: EventResult<A>| #[trigger] f.ensures((a,), o) ==> o == EventResult::Action(a),
        forall|a: A, b: B| #[trigger] g.ensures((a,), b) ==> b == gs(a),
        forall|a: A, o: EventResult<B>| #[trigger] w.ensures((a,), o) ==> o == EventResult::Action(gs(a)),
        r.then_by(f, out_f),
        r.then_by(k, out_k),
        r.mapped_by(g, out_g),
        r.then_by(w, out_w),
    ensures
        out_f == r,
        r matches EventResult::Action(a) ==> k.ensures((a,), out_k),
        r is Consumed ==> out_k is Consumed,
        r is NotHandled ==> out_k is NotHandled,
        out_g == out_w,
{
}

/// Actions emitted by a filterable panel.
#[derive(Debug, Clone, PartialEq, Eq)]
pub enum FilterAction<A> {
    /// Pass-through action from the inner component.
    Inner(A),
    /// User requested focus switch forward (Tab during filter).
    FocusNext,
    /// User requested focus switch backward (BackTab during filter).
    FocusPrev,
}

// ── Focus ring ──────────────────────────────────────────────────────

/// The focusable panels in Tab order, and which one has focus.
#[derive(Debug, Clone)]
pub struct FocusRing {
    pub elements: Vec<Focus>,
    pub current_index: Option<usize>,
}

impl FocusRing {
    /// Whether the focused position lies in the ring.
    pub open spec fn wf(self) -> bool {
        &&& (self.current_index matches Some(i) ==> i < self.elements@.len())
        &&& (self.elements@.len() > 0 ==> self.current_index is Some)
    }

    /// The focused panel, if any.
    pub open spec fn current_spec(self) -> Option<Focus> {
        match self.current_index {
            Some(i) => if i < self.elements@.len() {
                Some(self.elements@[i as int])
            } else {
                None
            },
            None => None,
        }
    }

    /// An empty ring.
    pub fn new() -> (r: FocusRing)
        ensures
            r.elements@.len() == 0,
            r.current_index is None,
            r.wf(),
    {
        FocusRing { elements: Vec::new(), current_index: None }
    }

    /// Add a panel at the end of the Tab order (once); the first one gets focus.
    pub fn register(&mut self, element: Focus)
        requires
            old(self).wf(),
        ensures
            final(self).wf(),
            old(self).elements@.contains(element) ==> *final(self) == *old(self),
            !old(self).elements@.contains(element) ==> final(self).elements@ == old(
                self,
            ).elements@.push(element),
            final(self).current_index == if old(self).current_index is None && !old(
                self,
            ).elements@.contains(element) {
                Some(0usize)
            } else {
                old(self).current_index
            },
    {
        let mut i: usize = 0;
        while i < self.elements.len()
            invariant
                i <= self.elements@.len(),
                *self == *old(self),
                old(self).wf(),
                forall|j: int| 0 <= j < i ==> self.elements@[j] != element,
            decreases self.elements.len() - i,
        {
            if self.elements[i] == element {
                assert(self.elements@[i as int] == element);
                return ;
            }
            i = i + 1;
        }
        self.elements.push(element);
        if self.current_index.is_none() {
            self.current_index = Some(0);
        }
    }

    /// Remove every panel.
    pub fn clear(&mut self)
        ensures
            final(self).elements@.len() == 0,
            final(self).current_index is None,
            final(self).wf(),
    {
        self.elements = Vec::new();
        self.current_index = None;
    }

    /// Whether the ring has no panels.
    pub fn is_empty(&self) -> (r: bool)
        ensures
            r == (self.elements@.len() == 0),
    {
        self.elements.len() == 0
    }

    /// The focused panel.
    pub fn current(&self) -> (r: Option<Focus>)
        ensures
            r == self.current_spec(),
    {
        match self.current_index {
            Some(i) => if i < self.elements.len() {
                Some(self.elements[i])
            } else {
                None
            },
            None => None,
        }
    }

    /// Move focus to the next panel, wrapping around.
    pub fn next(&mut self)
        requires
            old(self).wf(),
        ensures
            final(self).wf(),
            final(self).elements@ == old(self).elements@,
            old(self).elements@.len() == 0 ==> final(self).current_index == old(self).current_index,
            old(self).elements@.len() > 0 ==> final(self).current_index == Some(
                match old(self).current_index {
                    Some(i) => ((i + 1) % (old(self).elements@.len() as int)) as usize,
                    None => 0usize,
                },
            ),
    {
        let n = self.elements.len();
        if n == 0 {
            return ;
        }
        self.current_index = Some(
            match self.current_index {
                Some(i) => (i + 1) % n,
                None => 0,
            },
        );
    }

    /// Move focus to the previous panel, wrapping around.
    pub fn prev(&mut self)
        requires
            old(self).wf(),
        ensures
            final(self).wf(),
            final(self).elements@ == old(self).elements@,
            old(self).elements@.len() == 0 ==> final(self).current_index == old(self).current_index,
            old(self).elements@.len() > 0 ==> final(self).current_index == Some(
                match old(self).current_index {
                    Some(i) => if i == 0 {
                        (old(self).elements@.len() - 1) as usize
                    } else {
                        (i - 1) as usize
                    },
                    None => 0usize,
                },
            ),
    {
        let n = self.elements.len();
        if n == 0 {
            return ;
        }
        self.current_index = Some(
            match self.current_index {
                Some(i) => if i == 0 {
                    n - 1
                } else {
                    i - 1
                },
                None => 0,
            },
        );
    }

    /// Focus `element` when it is in the ring.
    pub fn set(&mut self, element: Focus)
        requires
            old(self).wf(),
        ensures
            final(self).wf(),
            final(self).elements@ == old(self).elements@,
            old(self).elements@.contains(element) ==> final(self).current_spec() == Some(element),
            !old(self).elements@.contains(element) ==> final(self).current_index == old(
                self,
            ).current_index,
    {
        let mut i: usize = 0;
        while i < self.elements.len()
            invariant
                i <= self.elements@.len(),
                *self == *old(self),
                old(self).wf(),
                forall|j: int| 0 <= j < i ==> self.elements@[j] != element,
            decreases self.elements.len() - i,
        {
            if self.elements[i] == element {
                self.current_index = Some(i);
                assert(self.current_spec() == Some(element));
                return ;
            }
            i = i + 1;
        }
        assert(!old(self).elements@.contains(element));
    }
}

/// Tab then Shift-Tab returns focus to where it was.
pub proof fn lemma_focus_next_prev(n: int, i: int)
    requires
        0 <= i < n,
    ensures
        ({
            let j = (i + 1) % n;
            (if j == 0 {
                n - 1
            } else {
                j - 1
            }) == i
        }),
{
    if i + 1 < n {
        assert((i + 1) % n == i + 1) by {
            vstd::arithmetic::div_mod::lemma_small_mod((i + 1) as nat, n as nat);
        }
    } else {
        assert((i + 1) % n == 0) by {
            vstd::arithmetic::div_mod::lemma_mod_self_0(n);
        }
    }
}

} // verus!
