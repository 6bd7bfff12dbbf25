//! Widgets: the parts of the screen that can be switched on and take input,
//! and the registry that keeps one widget under each key.

use vstd::prelude::*;
use crate::context::EditorContext;
use crate::controller::events::InputEvent;
use crate::editor_view::ViewState;

verus! {

/// The name under which a widget is registered.
#[derive(Debug, Clone, Copy, PartialEq, Eq, Hash, Structural)]
pub enum WidgetKey {
    MainEditor,
    InfoBar,
    Search,
}

/// A part of the screen that can be switched on and, while it is on, takes
/// the user's input.
pub trait Widget: Sized {
    /// The key under which the widget is registered.
    spec fn key(&self) -> WidgetKey;

    /// The widget is switched on.
    spec fn active(&self) -> bool;

    /// A widget that is switched off.
    fn new(key: WidgetKey) -> (widget: Self)
        ensures
            !widget.active(),
    ;

    /// The key under which the widget is registered.
    fn get_key(&self) -> (key: WidgetKey)
        ensures
            key == self.key(),
    ;

    /// Whether the widget is switched on.
    fn is_active(&self) -> (active: bool)
        ensures
            active == self.active(),
    ;

    /// Switches the widget on.
    fn activate(&mut self)
        ensures
            final(self).active(),
            final(self).key() == old(self).key(),
    ;

    /// Switches the widget off.
    fn deactivate(&mut self)
        ensures
            !final(self).active(),
            final(self).key() == old(self).key(),
    ;

    /// Handles one input event; the widget may move the cursor of the
    /// editor through `context`.
    fn handle_input<C: EditorContext>(&self, input: InputEvent, context: &mut C)
        where
            Self: Handling<C>,
        requires
            old(context).wf(),
        ensures
            final(context).wf(),
            self.handles(input, *old(context), *final(context)),
    ;
}

/// What a widget does with input on an editor of the kind `C`.
pub trait Handling<C: EditorContext> {
    /// What handling `input` does to the editor: a widget that finds the
    /// editor as `before` may leave it as `after`.
    spec fn handles(&self, input: InputEvent, before: C, after: C) -> bool;
}

/// Something that can be shown on the screen and hidden again.
pub trait Renderable {
    /// The element is on the screen.
    spec fn displayed(&self) -> bool;

    /// Lays the element out for the window `context`.
    fn render(element: &Self, context: &ViewState)
    ;

    /// Whether the element is on the screen.
    fn is_displayed(&self) -> (displayed: bool)
        ensures
            displayed == self.displayed(),
    ;

    /// Puts the element on the screen.
    fn show(&mut self)
        ensures
            final(self).displayed(),
    ;

    /// Takes the element off the screen.
    fn hide_from_screen(&mut self)
        ensures
            !final(self).displayed(),
    ;
}

/// A registry of widgets that all work on one editor context.
pub trait WidgetRegistry<T: Widget + Handling<S>, S: EditorContext>: Sized {
    /// The widgets that are registered.
    spec fn widgets(&self) -> Seq<T>;

    /// The editor that the widgets work on.
    spec fn context(&self) -> S;

    /// No two registered widgets have the same key.
    spec fn wf(&self) -> bool;

    /// An empty registry for widgets on `context`.
    fn new(context: S) -> (registry: Self)
        ensures
            registry.wf(),
            registry.widgets().len() == 0,
            registry.context() == context,
    ;

    /// Registers `widget` under its key; a widget that was registered under
    /// that key before makes way for it.
    fn register_widget(&mut self, widget: T)
        requires
            old(self).wf(),
        ensures
            final(self).wf(),
            final(self).context() == old(self).context(),
            holds_widget(final(self).widgets(), widget),
            forall|i: int|
                #![trigger old(self).widgets()[i]]
                0 <= i < old(self).widgets().len() && old(self).widgets()[i].key()
                    != widget.key() ==> holds_widget(
                    final(self).widgets(),
                    old(self).widgets()[i],
                ),
            forall|j: int|
                #![trigger final(self).widgets()[j]]
                0 <= j < final(self).widgets().len() ==> final(self).widgets()[j] == widget
                    || holds_widget(old(self).widgets(), final(self).widgets()[j]),
    ;

    /// Switches on the widget registered under `widget_key` and switches
    /// off every other.
    fn activate_widget(&mut self, widget_key: WidgetKey)
        requires
            old(self).wf(),
        ensures
            final(self).wf(),
            final(self).context() == old(self).context(),
            final(self).widgets().len() == old(self).widgets().len(),
            forall|i: int|
                #![trigger final(self).widgets()[i]]
                0 <= i < final(self).widgets().len() ==> {
                    &&& final(self).widgets()[i].key() == old(self).widgets()[i].key()
                    &&& final(self).widgets()[i].active() == (final(self).widgets()[i].key()
                        == widget_key)
                },
    ;

    /// Hands `input` to every widget that is switched on, one after
    /// another in the order of the list: each finds the editor as the one
    /// before it left it.
    fn forward_input(&mut self, input: InputEvent)
        requires
            old(self).wf(),
            old(self).context().wf(),
        ensures
            final(self).wf(),
            final(self).context().wf(),
            final(self).widgets() == old(self).widgets(),
            forwarded(old(self).widgets(), input, old(self).context(), final(self).context()),
    ;
}

/// What handing `input` to `widget` does to the editor: a widget that is
/// switched on handles it, any other leaves the editor as it is.
pub open spec fn offered<T: Widget + Handling<S>, S: EditorContext>(
    widget: T,
    input: InputEvent,
    before: S,
    after: S,
) -> bool {
    if widget.active() {
        widget.handles(input, before, after)
    } else {
        after == before
    }
}

/// `steps` records how the editor fared while `input` was handed to the
/// widgets of `widgets`, first to last: it begins with the editor as
/// `before`, holds after each widget what that widget left, and so ends
/// with the editor as `after`.
pub open spec fn records<T: Widget + Handling<S>, S: EditorContext>(
    steps: Seq<S>,
    widgets: Seq<T>,
    input: InputEvent,
    before: S,
    after: S,
) -> bool {
    &&& steps.len() == widgets.len() + 1
    &&& steps.first() == before
    &&& steps.last() == after
    &&& forall|i: int|
        0 <= i < widgets.len() ==> offered(#[trigger] widgets[i], input, steps[i], steps[i + 1])
}

/// What handing `input` to the widgets of `widgets`, first to last, does to
/// the editor: the first finds it as `before`, each later one as the one
/// before it left it, and the last leaves it as `after`.
pub open spec fn forwarded<T: Widget + Handling<S>, S: EditorContext>(
    widgets: Seq<T>,
    input: InputEvent,
    before: S,
    after: S,
) -> bool {
    exists|steps: Seq<S>| records(steps, widgets, input, before, after)
}

/// The list `widgets` holds `widget`.
pub open spec fn holds_widget<T>(widgets: Seq<T>, widget: T) -> bool {
    exists|i: int| 0 <= i < widgets.len() && widgets[i] == widget
}

/// Two widgets are registered under the same key.
pub open spec fn same_key<T: Widget>(a: T, b: T) -> bool {
    a.key() == b.key()
}

/// No two widgets of the list have the same key.
pub open spec fn distinct_keys<T: Widget>(widgets: Seq<T>) -> bool {
    forall|i: int, j: int|
        0 <= i < j < widgets.len() ==> (#[trigger] widgets[i]).key() != (
        #[trigger] widgets[j]).key()
}

/// A registry that keeps its widgets in a list, one under each key.
#[derive(Clone, Debug)]
pub struct SimpleWidgetRegistry<T, S> {
    widgets: Vec<T>,
    context: S,
}

impl<T: Widget + Handling<S>, S: EditorContext> WidgetRegistry<T, S> for SimpleWidgetRegistry<
    T,
    S,
> {
    closed spec fn widgets(&self) -> Seq<T> {
        self.widgets@
    }

    closed spec fn context(&self) -> S {
        self.context
    }

    closed spec fn wf(&self) -> bool {
        distinct_keys(self.widgets@)
    }

    fn new(context: S) -> (registry: Self) {
        SimpleWidgetRegistry { widgets: Vec::new(), context }
    }

    fn register_widget(&mut self, widget: T) {
        let key = widget.get_key();
        let mut at: usize = 0;
        while at < self.widgets.len() && self.widgets[at].get_key() != key
            invariant
                at <= self.widgets@.len(),
                self.widgets@ == old(self).widgets@,
                forall|i: int| 0 <= i < at ==> (#[trigger] self.widgets@[i]).key() != key,
            decreases self.widgets@.len() - at,
        {
            at += 1;
        }
        let ghost before = self.widgets@;
        if at < self.widgets.len() {
            self.widgets.set(at, widget);
            proof {
                assert(self.widgets@[at as int] == widget);
                assert forall|i: int|
                    #![trigger before[i]]
                    0 <= i < before.len() && before[i].key() != widget.key() implies holds_widget(
                    self.widgets@,
                    before[i],
                ) by {
                    assert(self.widgets@[i] == before[i]);
                }
                assert forall|j: int|
                    #![trigger self.widgets@[j]]
                    0 <= j < self.widgets@.len() implies self.widgets@[j] == widget
                    || holds_widget(before, self.widgets@[j]) by {
                    if j != at {
                        assert(before[j] == self.widgets@[j]);
                    }
                }
            }
        } else {
            self.widgets.push(widget);
            proof {
                assert(self.widgets@[before.len() as int] == widget);
                assert forall|i: int|
                    #![trigger before[i]]
                    0 <= i < before.len() && before[i].key() != widget.key() implies holds_widget(
                    self.widgets@,
                    before[i],
                ) by {
                    assert(self.widgets@[i] == before[i]);
                }
                assert forall|j: int|
                    #![trigger self.widgets@[j]]
                    0 <= j < self.widgets@.len() implies self.widgets@[j] == widget
                    || holds_widget(before, self.widgets@[j]) by {
                    if j < before.len() {
                        assert(before[j] == self.widgets@[j]);
                    }
                }
            }
        }
    }

    fn activate_widget(&mut self, widget_key: WidgetKey) {
        let mut at: usize = 0;
        while at < self.widgets.len()
            invariant
                at <= self.widgets@.len(),
                self.context == old(self).context,
                self.widgets@.len() == old(self).widgets@.len(),
                forall|i: int|
                    0 <= i < self.widgets@.len() ==> same_key(
                        #[trigger] self.widgets@[i],
                        old(self).widgets@[i],
                    ),
                forall|i: int|
                    0 <= i < at ==> (#[trigger] self.widgets@[i]).active() == (
                    self.widgets@[i].key() == widget_key),
            decreases self.widgets@.len() - at,
        {
            let ghost before = self.widgets@;
            let mut widget = self.widgets.remove(at);
            if widget.get_key() == widget_key {
                widget.activate();
            } else {
                widget.deactivate();
            }
            self.widgets.insert(at, widget);
            proof {
                assert forall|i: int| 0 <= i < self.widgets@.len() implies (
                #[trigger] self.widgets@[i]).key() == before[i].key() by {}
                assert forall|i: int| 0 <= i < at implies (#[trigger] self.widgets@[i])
                    == before[i] by {}
            }
            at += 1;
        }
    }

    fn forward_input(&mut self, input: InputEvent) {
        let mut at: usize = 0;
        let ghost mut steps: Seq<S> = seq![self.context];
        while at < self.widgets.len()
            invariant
                at <= self.widgets@.len(),
                self.widgets@ == old(self).widgets@,
                self.context.wf(),
                records(
                    steps,
                    self.widgets@.take(at as int),
                    input,
                    old(self).context,
                    self.context,
                ),
            decreases self.widgets@.len() - at,
        {
            let ghost found = steps;
            if self.widgets[at].is_active() {
                self.widgets[at].handle_input(input, &mut self.context);
            }
            proof {
                steps = found.push(self.context);
                let upto = self.widgets@.take(at + 1);
                assert forall|i: int| 0 <= i < upto.len() implies offered(
                    #[trigger] upto[i],
                    input,
                    steps[i],
                    steps[i + 1],
                ) by {
                    if i < at {
                        assert(upto[i] == self.widgets@.take(at as int)[i]);
                    }
                }
            }
            at += 1;
        }
        proof {
            assert(self.widgets@.take(at as int) =~= self.widgets@);
        }
    }
}

/// The search bar.
pub struct SearchWidget {
    pub search_text: String,
    pub num_matches: usize,
    pub is_displayed: bool,
    pub is_active: bool,
}

impl Widget for SearchWidget {
    open spec fn key(&self) -> WidgetKey {
        WidgetKey::Search
    }

    open spec fn active(&self) -> bool {
        self.is_active
    }

    /// A search bar with no text, off the screen and switched off. It is
    /// always registered as `Search`, whatever `key` says.
    fn new(key: WidgetKey) -> (widget: Self)
        ensures
            widget.search_text@ == Seq::<char>::empty(),
            widget.num_matches == 0,
            !widget.is_displayed,
    {
        SearchWidget {
            is_displayed: false,
            is_active: false,
            num_matches: 0,
            search_text: String::new(),
        }
    }

    fn get_key(&self) -> (key: WidgetKey) {
        WidgetKey::Search
    }

    fn is_active(&self) -> (active: bool) {
        self.is_active
    }

    fn activate(&mut self)
        ensures
            *final(self) == (SearchWidget { is_active: true, ..*old(self) }),
    {
        self.is_active = true
    }

    fn deactivate(&mut self)
        ensures
            *final(self) == (SearchWidget { is_active: false, ..*old(self) }),
    {
        self.is_active = false
    }

    /// The search bar takes input and does nothing with it.
    fn handle_input<C: EditorContext>(&self, input: InputEvent, context: &mut C)
        ensures
            *final(context) == *old(context),
    {
    }
}

impl<C: EditorContext> Handling<C> for SearchWidget {
    /// The search bar leaves the editor as it is.
    open spec fn handles(&self, input: InputEvent, before: C, after: C) -> bool {
        after == before
    }
}

impl Renderable for SearchWidget {
    open spec fn displayed(&self) -> bool {
        self.is_displayed
    }

    /// The search bar has nothing to lay out.
    fn render(element: &Self, context: &ViewState) {
    }

    fn is_displayed(&self) -> (displayed: bool) {
        self.is_displayed
    }

    fn show(&mut self)
        ensures
            *final(self) == (SearchWidget { is_displayed: true, ..*old(self) }),
    {
        self.is_displayed = true;
    }

    fn hide_from_screen(&mut self)
        ensures
            *final(self) == (SearchWidget { is_displayed: false, ..*old(self) }),
    {
        self.is_displayed = false;
    }
}

} // verus!
