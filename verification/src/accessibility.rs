//! What assistive programs are told of the controls that the window draws.
use crate::sequences::{first_index, first_index_is, first_index_properties};
use crate::text::{filter_push, opt_text_eq, opt_view, text_eq};
use vstd::prelude::*;
use vstd::string::*;

verus! {

/// What a control is.
#[derive(Clone, Copy, Debug, PartialEq, Eq, Structural)]
pub enum Role {
    Button,
    CheckBox,
    TextField,
    TextArea,
    StaticText,
}

/// What an assistive program asks of a control.
#[derive(Debug, PartialEq, Eq)]
pub enum Action {
    Press,
    Focus,
    SetValue(String),
    SetChecked(bool),
}

/// A control as it was drawn.
#[derive(Debug, PartialEq, Eq)]
pub struct Node {
    pub role: Role,
    pub label: String,
    pub value: Option<String>,
    pub enabled: bool,
    pub selected: bool,
    pub secure: bool,
    pub focused: bool,
    /// Whether the control has the keyboard, where it can have it.
    pub focus_handle: Option<bool>,
    /// Whether the control is marked as focused, where it is marked by others.
    pub focus_marker: Option<bool>,
    /// The control has a way of its own to do what is asked of it.
    pub has_handler: bool,
    /// The control is part of a menu.
    pub menu: bool,
}

impl Node {
    /// A button.
    pub fn button(label: String, enabled: bool) -> (r: Self)
        ensures
            r == (Node {
                role: Role::Button,
                label,
                value: None,
                enabled,
                selected: false,
                secure: false,
                focused: false,
                focus_handle: None,
                focus_marker: None,
                has_handler: false,
                menu: false,
            }),
    {
        Node {
            role: Role::Button,
            label,
            value: None,
            enabled,
            selected: false,
            secure: false,
            focused: false,
            focus_handle: None,
            focus_marker: None,
            has_handler: false,
            menu: false,
        }
    }

    /// A text that only can be read.
    pub fn text(label: String, value: String) -> (r: Self)
        ensures
            r == (Node {
                role: Role::StaticText,
                label,
                value: Some(value),
                enabled: true,
                selected: false,
                secure: false,
                focused: false,
                focus_handle: None,
                focus_marker: None,
                has_handler: false,
                menu: false,
            }),
    {
        let mut node = Node::button(label, true);
        node.role = Role::StaticText;
        node.value = Some(value);
        node
    }

    /// The control is shown as focused.
    pub open spec fn shows_focus(self) -> bool {
        self.focused || self.focus_handle == Some(true) || self.focus_marker == Some(true)
    }

    /// The control's text can be changed.
    pub open spec fn is_editable(self) -> bool {
        self.role == Role::TextField && self.enabled
    }

    /// The control can be given the keyboard.
    pub open spec fn is_focusable(self) -> bool {
        self.enabled && (self.focus_handle is Some || ((self.role == Role::TextField || self.role
            == Role::TextArea) && self.has_handler))
    }

    /// Something can be asked of the control.
    pub open spec fn is_actionable(self) -> bool {
        self.enabled && (self.role == Role::Button || self.role == Role::CheckBox
            || self.has_handler)
    }

    /// Whether the control is checked, where it can be.
    pub open spec fn check_state(self) -> Option<bool> {
        if self.role == Role::CheckBox {
            Some(self.selected)
        } else {
            None
        }
    }
}

/// A control that was drawn, by its number, and the layer that it lies in.
#[derive(Debug, PartialEq, Eq)]
pub struct Record {
    pub id: u64,
    pub spec: Node,
    pub layer: u8,
}

/// A control as assistive programs see it.
#[derive(Debug, PartialEq, Eq)]
pub struct Accessible {
    pub id: u64,
    pub value: Option<String>,
    pub checked: Option<bool>,
    pub focused: bool,
    pub selected: bool,
    pub editable: bool,
    pub focusable: bool,
    pub actionable: bool,
}

/// What a control that was drawn is seen as.
pub open spec fn seen_as(record: Record) -> Accessible {
    Accessible {
        id: record.id,
        value: record.spec.value,
        checked: record.spec.check_state(),
        focused: record.spec.focused,
        selected: record.spec.selected,
        editable: record.spec.is_editable(),
        focusable: record.spec.is_focusable(),
        actionable: record.spec.is_actionable(),
    }
}

/// What assistive programs are told has happened to a control.
#[derive(Clone, Copy, Debug, PartialEq, Eq, Structural)]
pub enum Notification {
    ValueChanged(u64),
    FocusChanged(u64),
}

/// Being the control `id`.
pub open spec fn has_node_id(id: u64) -> spec_fn(Accessible) -> bool {
    |node: Accessible| node.id == id
}

/// The position of the control `id` among those seen.
pub open spec fn node_position(nodes: Seq<Accessible>, id: u64) -> int {
    first_index(nodes, has_node_id(id))
}

/// The controls seen after one more was drawn.
pub open spec fn with_record(nodes: Seq<Accessible>, record: Record) -> Seq<Accessible> {
    let i = node_position(nodes, record.id);
    if i < nodes.len() {
        nodes.update(i, seen_as(record))
    } else {
        nodes.push(seen_as(record))
    }
}

/// What is told of a control that is drawn, given the controls seen before.
pub open spec fn told_of(nodes: Seq<Accessible>, record: Record) -> Seq<Notification> {
    let i = node_position(nodes, record.id);
    let known = i < nodes.len();
    let value = if known {
        opt_view(nodes[i].value)
    } else {
        None
    };
    let checked = if known {
        nodes[i].checked
    } else {
        None
    };
    let focused = known && nodes[i].focused;
    let value_part = if checked != record.spec.check_state() || value != opt_view(
        record.spec.value,
    ) {
        seq![Notification::ValueChanged(record.id)]
    } else {
        seq![]
    };
    let focus_part = if record.spec.focused && !focused {
        seq![Notification::FocusChanged(record.id)]
    } else {
        seq![]
    };
    value_part + focus_part
}

/// The controls seen after these were drawn.
pub open spec fn with_records(nodes: Seq<Accessible>, records: Seq<Record>) -> Seq<Accessible>
    decreases records.len(),
{
    if records.len() == 0 {
        nodes
    } else {
        with_record(with_records(nodes, records.drop_last()), records.last())
    }
}

/// What is told when these controls are drawn.
pub open spec fn told_of_all(nodes: Seq<Accessible>, records: Seq<Record>) -> Seq<Notification>
    decreases records.len(),
{
    if records.len() == 0 {
        Seq::empty()
    } else {
        told_of_all(nodes, records.drop_last()) + told_of(
            with_records(nodes, records.drop_last()),
            records.last(),
        )
    }
}

/// The topmost layer that a control lies in.
pub open spec fn top_layer(records: Seq<Record>) -> u8
    decreases records.len(),
{
    if records.len() == 0 {
        0
    } else {
        let before = top_layer(records.drop_last());
        if records.last().layer > before {
            records.last().layer
        } else {
            before
        }
    }
}

/// Lying in the layer `layer`.
pub open spec fn lies_in(layer: u8) -> spec_fn(Record) -> bool {
    |record: Record| record.layer == layer
}

/// The controls that can be reached: those of the topmost layer.
pub open spec fn reachable(records: Seq<Record>) -> Seq<Record> {
    records.filter(lies_in(top_layer(records)))
}

/// The numbers of controls.
pub open spec fn record_ids(records: Seq<Record>) -> Seq<u64> {
    records.map_values(|record: Record| record.id)
}

/// Being one of the controls `order`.
pub open spec fn is_live(order: Seq<u64>) -> spec_fn(Accessible) -> bool {
    |node: Accessible| order.contains(node.id)
}

/// Being none of the controls `order`.
pub open spec fn is_gone(order: Seq<u64>) -> spec_fn(Accessible) -> bool {
    |node: Accessible| !order.contains(node.id)
}

/// The controls of a window, as they were drawn and as they are seen.
#[derive(Debug)]
pub struct Tree {
    pub pending: Vec<Record>,
    pub nodes: Vec<Accessible>,
    pub order: Vec<u64>,
}

/// What showing the controls to assistive programs came to.
#[derive(Debug, PartialEq, Eq)]
pub struct Publication {
    pub notifications: Vec<Notification>,
    /// The controls that are gone.
    pub expired: Vec<u64>,
    /// There are other controls than before, or they stand in another order.
    pub layout_changed: bool,
}

/// The position of the control `id` among those seen.
fn find_node(nodes: &Vec<Accessible>, id: u64) -> (r: usize)
    ensures
        r == node_position(nodes@, id),
        r <= nodes@.len(),
{
    let ghost wanted = has_node_id(id);
    let mut i: usize = 0;
    while i < nodes.len() && nodes[i].id != id
        invariant
            i <= nodes@.len(),
            wanted == has_node_id(id),
            forall|k: int| 0 <= k < i ==> !wanted(#[trigger] nodes@[k]),
        decreases nodes@.len() - i,
    {
        assert(!wanted(nodes@[i as int]));
        i = i + 1;
    }
    proof {
        if i < nodes@.len() {
            assert(wanted(nodes@[i as int]));
        }
        first_index_is(nodes@, wanted, i as int);
    }
    i
}

/// The control is one of `order`.
fn contains_id(order: &Vec<u64>, id: u64) -> (r: bool)
    ensures
        r == order@.contains(id),
{
    let mut i: usize = 0;
    while i < order.len()
        invariant
            i <= order@.len(),
            forall|k: int| 0 <= k < i ==> order@[k] != id,
        decreases order@.len() - i,
    {
        if order[i] == id {
            assert(order@[i as int] == id);
            return true;
        }
        i = i + 1;
    }
    false
}

/// Two lists of controls are the same.
fn same_order(a: &Vec<u64>, b: &Vec<u64>) -> (r: bool)
    ensures
        r == (a@ == b@),
{
    if a.len() != b.len() {
        return false;
    }
    let mut i: usize = 0;
    while i < a.len()
        invariant
            i <= a@.len(),
            a@.len() == b@.len(),
            forall|k: int| 0 <= k < i ==> a@[k] == b@[k],
        decreases a@.len() - i,
    {
        if a[i] != b[i] {
            assert(a@[i as int] != b@[i as int]);
            return false;
        }
        i = i + 1;
    }
    assert(a@ =~= b@);
    true
}

/// Two check states are the same.
fn same_check(a: Option<bool>, b: Option<bool>) -> (r: bool)
    ensures
        r == (a == b),
{
    match (a, b) {
        (Some(x), Some(y)) => x == y,
        (None, None) => true,
        _ => false,
    }
}

/// Whether a control has the keyboard or is marked so.
fn is_set(flag: Option<bool>) -> (r: bool)
    ensures
        r == (flag == Some(true)),
{
    match flag {
        Some(value) => value,
        None => false,
    }
}

/// Takes a control that was drawn over into those seen, and notes what is told of it.
fn see(nodes: &mut Vec<Accessible>, record: Record, notifications: &mut Vec<Notification>)
    ensures
        final(nodes)@ == with_record(old(nodes)@, record),
        final(notifications)@ == old(notifications)@ + told_of(old(nodes)@, record),
{
    let ghost before = nodes@;
    let ghost told = notifications@;
    let id: u64 = record.id;
    let spec = record.spec;
    let i: usize = find_node(nodes, id);
    let checked = if spec.role == Role::CheckBox {
        Some(spec.selected)
    } else {
        None
    };
    let known = i < nodes.len();
    let value_changed = if known {
        !same_check(nodes[i].checked, checked) || !opt_text_eq(&nodes[i].value, &spec.value)
    } else {
        checked.is_some() || spec.value.is_some()
    };
    let was_focused = known && nodes[i].focused;
    let editable = spec.role == Role::TextField && spec.enabled;
    let takes_text = spec.role == Role::TextField || spec.role == Role::TextArea;
    let focusable = spec.enabled && (spec.focus_handle.is_some() || (takes_text
        && spec.has_handler));
    let pressable = spec.role == Role::Button || spec.role == Role::CheckBox;
    let actionable = spec.enabled && (pressable || spec.has_handler);
    if value_changed {
        notifications.push(Notification::ValueChanged(id));
    }
    if spec.focused && !was_focused {
        notifications.push(Notification::FocusChanged(id));
    }
    assert(notifications@ =~= told + told_of(before, record));
    let seen = Accessible {
        id,
        value: spec.value,
        checked,
        focused: spec.focused,
        selected: spec.selected,
        editable,
        focusable,
        actionable,
    };
    assert(seen == seen_as(record));
    if known {
        nodes.set(i, seen);
    } else {
        nodes.push(seen);
    }
}

impl Tree {
    /// A window without controls.
    pub fn new() -> (r: Self)
        ensures
            r.pending@.len() == 0,
            r.nodes@.len() == 0,
            r.order@.len() == 0,
    {
        Tree { pending: Vec::new(), nodes: Vec::new(), order: Vec::new() }
    }

    /// Begins to draw the window anew.
    pub fn begin(&mut self)
        ensures
            *final(self) == (Tree { pending: final(self).pending, ..*old(self) }),
            final(self).pending@.len() == 0,
    {
        self.pending = Vec::new();
    }

    /// Notes a control that was drawn in the layer `layer`; one that cannot be seen, as nothing of
    /// it lies within the window, is left out. Menus lie over everything else.
    pub fn collect(&mut self, id: u64, spec: Node, visible: bool, layer: u8)
        ensures
            *final(self) == (Tree { pending: final(self).pending, ..*old(self) }),
            final(self).pending@ == if visible {
                old(self).pending@.push(
                    Record {
                        id,
                        spec: Node { focused: spec.shows_focus(), ..spec },
                        layer: if spec.menu {
                            2
                        } else {
                            layer
                        },
                    },
                )
            } else {
                old(self).pending@
            },
    {
        if !visible {
            return;
        }
        let mut spec = spec;
        spec.focused = spec.focused || is_set(spec.focus_handle) || is_set(spec.focus_marker);
        let layer: u8 = if spec.menu {
            2
        } else {
            layer
        };
        self.pending.push(Record { id, spec, layer });
    }

    /// Shows what was drawn to assistive programs: the controls of the topmost layer, in the order
    /// in which they were drawn.
    pub fn publish(&mut self) -> (r: Publication)
        ensures
            final(self).pending@.len() == 0,
            final(self).order@ == record_ids(reachable(old(self).pending@)),
            ({
                let shown = reachable(old(self).pending@);
                let all = with_records(old(self).nodes@, shown);
                &&& final(self).nodes@ == all.filter(is_live(final(self).order@))
                &&& r.expired@ == all.filter(is_gone(final(self).order@)).map_values(
                    |node: Accessible| node.id,
                )
                &&& r.notifications@ == told_of_all(old(self).nodes@, shown)
                &&& r.layout_changed == (old(self).order@ != final(self).order@)
            }),
    {
        let mut pending: Vec<Record> = Vec::new();
        std::mem::swap(&mut pending, &mut self.pending);
        let ghost records = pending@;
        let mut layer: u8 = 0;
        let mut i: usize = 0;
        assert(records.take(0) =~= Seq::<Record>::empty());
        while i < pending.len()
            invariant
                i <= pending@.len(),
                records == pending@,
                layer == top_layer(records.take(i as int)),
            decreases pending@.len() - i,
        {
            proof {
                assert(records.take(i + 1).drop_last() =~= records.take(i as int));
                assert(records.take(i + 1).last() == records[i as int]);
            }
            if pending[i].layer > layer {
                layer = pending[i].layer;
            }
            i = i + 1;
        }
        assert(records.take(i as int) =~= records);
        let mut order: Vec<u64> = Vec::new();
        let mut nodes: Vec<Accessible> = Vec::new();
        std::mem::swap(&mut nodes, &mut self.nodes);
        let mut notifications: Vec<Notification> = Vec::new();
        let ghost start = nodes@;
        let ghost shown = lies_in(layer);
        let ghost done: int = 0;
        proof {
            reveal(Seq::filter);
            assert(records.skip(0) =~= records);
            assert(records.take(0).filter(shown) =~= Seq::<Record>::empty());
            assert(order@ =~= record_ids(records.take(0).filter(shown)));
        }
        while pending.len() > 0
            invariant
                0 <= done <= records.len(),
                shown == lies_in(layer),
                pending@ == records.skip(done),
                order@ == record_ids(records.take(done).filter(shown)),
                nodes@ == with_records(start, records.take(done).filter(shown)),
                notifications@ == told_of_all(start, records.take(done).filter(shown)),
            decreases pending@.len(),
        {
            let record = pending.remove(0);
            let ghost before = records.take(done).filter(shown);
            proof {
                assert(record == records[done]);
                assert(pending@ =~= records.skip(done + 1));
                assert(records.take(done + 1) =~= records.take(done).push(record));
                filter_push(records.take(done), record, shown);
                assert(before.push(record).drop_last() =~= before);
            }
            if record.layer == layer {
                assert(shown(record));
                order.push(record.id);
                assert(order@ =~= record_ids(before.push(record)));
                see(&mut nodes, record, &mut notifications);
            } else {
                assert(!shown(record));
            }
            proof {
                done = done + 1;
            }
        }
        assert(records.take(done) =~= records);
        let ghost all = nodes@;
        let ghost live = is_live(order@);
        let ghost gone = is_gone(order@);
        let mut kept: Vec<Accessible> = Vec::new();
        let mut expired: Vec<u64> = Vec::new();
        let ghost passed: int = 0;
        proof {
            assert(all.skip(0) =~= all);
            assert(kept@ =~= all.take(0).filter(live));
            assert(expired@ =~= all.take(0).filter(gone).map_values(|node: Accessible| node.id));
        }
        while nodes.len() > 0
            invariant
                0 <= passed <= all.len(),
                live == is_live(order@),
                gone == is_gone(order@),
                nodes@ == all.skip(passed),
                kept@ == all.take(passed).filter(live),
                expired@ == all.take(passed).filter(gone).map_values(|node: Accessible| node.id),
            decreases nodes@.len(),
        {
            let node = nodes.remove(0);
            proof {
                assert(node == all[passed]);
                assert(nodes@ =~= all.skip(passed + 1));
                assert(all.take(passed + 1) =~= all.take(passed).push(node));
                filter_push(all.take(passed), node, live);
                filter_push(all.take(passed), node, gone);
            }
            if contains_id(&order, node.id) {
                assert(live(node) && !gone(node));
                kept.push(node);
            } else {
                assert(!live(node) && gone(node));
                expired.push(node.id);
            }
            assert(expired@ =~= all.take(passed + 1).filter(gone).map_values(
                |node: Accessible| node.id,
            ));
            proof {
                passed = passed + 1;
            }
        }
        assert(all.take(passed) =~= all);
        let layout_changed = !same_order(&self.order, &order);
        self.nodes = kept;
        self.order = order;
        Publication { notifications, expired, layout_changed }
    }

    /// The control that has the keyboard: the first in the order that is focused.
    pub fn focused_element(&self) -> (r: Option<u64>)
        ensures
            match r {
                Some(id) => exists|i: int|
                    0 <= i < self.order@.len() && self.order@[i] == id && is_focused(
                        self.nodes@,
                        #[trigger] self.order@[i],
                    ) && forall|j: int|
                        0 <= j < i ==> !is_focused(self.nodes@, #[trigger] self.order@[j]),
                None => forall|j: int|
                    0 <= j < self.order@.len() ==> !is_focused(
                        self.nodes@,
                        #[trigger] self.order@[j],
                    ),
            },
    {
        let mut i: usize = 0;
        while i < self.order.len()
            invariant
                i <= self.order@.len(),
                forall|j: int|
                    0 <= j < i ==> !is_focused(self.nodes@, #[trigger] self.order@[j]),
            decreases self.order@.len() - i,
        {
            let k: usize = find_node(&self.nodes, self.order[i]);
            if k < self.nodes.len() && self.nodes[k].focused {
                assert(is_focused(self.nodes@, self.order@[i as int]));
                return Some(self.order[i]);
            }
            i = i + 1;
        }
        None
    }
}

/// The control `id` is seen and has the keyboard.
pub open spec fn is_focused(nodes: Seq<Accessible>, id: u64) -> bool {
    let i = node_position(nodes, id);
    0 <= i < nodes.len() && nodes[i].focused
}

/// The layer that controls are drawn in while a part of the window is: dialogs lie over the rest.
pub fn enter_layer(current: u8, modal: bool) -> (r: u8)
    ensures
        r == if modal {
            1
        } else {
            current
        },
{
    if modal {
        1
    } else {
        current
    }
}

/// What an assistive program changes of a control.
#[derive(Clone, Copy, Debug, PartialEq, Eq, Structural)]
pub enum Request {
    SetValue,
    SetFocus,
    Press,
}

impl Accessible {
    /// The control's value can be changed.
    pub open spec fn takes_value(self) -> bool {
        self.editable || (self.checked is Some && self.actionable)
    }

    /// What an assistive program may change of the control.
    pub open spec fn allows(self, request: Request) -> bool {
        match request {
            Request::SetValue => self.takes_value(),
            Request::SetFocus => self.focusable,
            Request::Press => self.actionable,
        }
    }

    /// An assistive program may do this to the control.
    pub fn selector_allowed(&self, request: Request) -> (r: bool)
        ensures
            r == self.allows(request),
    {
        match request {
            Request::SetValue => self.editable || (self.checked.is_some() && self.actionable),
            Request::SetFocus => self.focusable,
            Request::Press => self.actionable,
        }
    }

    /// The attribute of the control can be set.
    pub fn attribute_settable(&self, attribute: &str) -> (r: bool)
        ensures
            r == if attribute@ == "AXValue"@ {
                self.takes_value()
            } else {
                attribute@ == "AXFocused"@ && self.focusable
            },
    {
        if text_eq(attribute, "AXValue") {
            self.editable || (self.checked.is_some() && self.actionable)
        } else if text_eq(attribute, "AXFocused") {
            self.focusable
        } else {
            false
        }
    }

    /// What setting the control's value to a text, or to a truth value, asks of it.
    pub open spec fn asked_by(self, value: NativeValue) -> Option<Action> {
        match value {
            NativeValue::Text(text) if self.editable => Some(Action::SetValue(text)),
            NativeValue::Truth(truth) if self.checked is Some && self.checked != Some(
                truth,
            ) => Some(Action::SetChecked(truth)),
            _ => None,
        }
    }

    /// What setting the control's value to a text, or to a truth value, asks of it.
    pub fn set_value(&self, value: NativeValue) -> (r: Option<Action>)
        ensures
            r == self.asked_by(value),
    {
        match value {
            NativeValue::Text(text) => if self.editable {
                Some(Action::SetValue(text))
            } else {
                None
            },
            NativeValue::Truth(truth) => match self.checked {
                Some(checked) => if checked != truth {
                    Some(Action::SetChecked(truth))
                } else {
                    None
                },
                None => None,
            },
            NativeValue::Other => None,
        }
    }

    /// What is left of a control that is gone: nothing can be asked of it any more.
    pub fn expire(&mut self)
        ensures
            *final(self) == (Accessible {
                value: None,
                editable: false,
                focusable: false,
                focused: false,
                actionable: false,
                ..*old(self)
            }),
    {
        self.actionable = false;
        self.value = None;
        self.editable = false;
        self.focusable = false;
        self.focused = false;
    }
}

/// A value as an assistive program hands it over.
#[derive(Debug, PartialEq, Eq)]
pub enum NativeValue {
    Text(String),
    Truth(bool),
    Other,
}

/// How what is asked of a control is done.
#[derive(Clone, Copy, Debug, PartialEq, Eq, Structural)]
pub enum Route {
    /// It is not done: the control is gone, or cannot do it.
    Dropped,
    /// The control does it in its own way.
    Handler,
    /// The pointer is made to press the control.
    Pointer,
}

/// How what is asked of a control is done.
pub open spec fn route_of(actionable: bool, has_handler: bool, action: Action) -> Route {
    if !actionable {
        Route::Dropped
    } else if has_handler {
        Route::Handler
    } else if action is Press {
        Route::Pointer
    } else {
        Route::Dropped
    }
}

/// How what is asked of a control is done.
pub fn action_route(actionable: bool, has_handler: bool, action: &Action) -> (r: Route)
    ensures
        r == route_of(actionable, has_handler, *action),
{
    if !actionable {
        Route::Dropped
    } else if has_handler {
        Route::Handler
    } else {
        match action {
            Action::Press => Route::Pointer,
            _ => Route::Dropped,
        }
    }
}

/// No control lies above the topmost layer.
proof fn top_layer_is_top(records: Seq<Record>)
    ensures
        forall|k: int|
            0 <= k < records.len() ==> (#[trigger] records[k]).layer <= top_layer(records),
    decreases records.len(),
{
    if records.len() > 0 {
        let rest = records.drop_last();
        top_layer_is_top(rest);
        assert forall|k: int| 0 <= k < records.len() implies (#[trigger] records[k]).layer
            <= top_layer(records) by {
            if k < rest.len() {
                assert(rest[k] == records[k]);
            }
        }
    }
}

/// A control below another one's layer cannot be reached.
pub proof fn upper_layers_hide_lower(records: Seq<Record>, k: int, hidden: Record)
    requires
        0 <= k < records.len(),
        hidden.layer < records[k].layer,
    ensures
        !reachable(records).contains(hidden),
{
    top_layer_is_top(records);
    let shown = lies_in(top_layer(records));
    if reachable(records).contains(hidden) {
        let i = reachable(records).index_of(hidden);
        records.lemma_filter_pred(shown, i);
        assert(shown(reachable(records)[i]));
    }
}

/// The control `id` as it is seen.
pub open spec fn node_of(nodes: Seq<Accessible>, id: u64) -> Option<Accessible> {
    let i = node_position(nodes, id);
    if i < nodes.len() {
        Some(nodes[i])
    } else {
        None
    }
}

/// A control that is drawn is seen as it was drawn, and no other one changes.
pub proof fn drawing_changes_one_control(nodes: Seq<Accessible>, record: Record, id: u64)
    ensures
        node_of(with_record(nodes, record), id) == if id == record.id {
            Some(seen_as(record))
        } else {
            node_of(nodes, id)
        },
{
    let after = with_record(nodes, record);
    let i = node_position(nodes, record.id);
    first_index_properties(nodes, has_node_id(record.id));
    first_index_properties(nodes, has_node_id(id));
    let wanted = has_node_id(id);
    let same = has_node_id(record.id);
    if id == record.id {
        if i < nodes.len() {
            assert(forall|k: int| 0 <= k < i ==> !wanted(#[trigger] nodes[k]));
            assert forall|k: int| 0 <= k < i implies !wanted(#[trigger] after[k]) by {
                assert(after[k] == nodes[k]);
            }
            assert(wanted(after[i]));
        } else {
            assert forall|k: int| 0 <= k < i implies !wanted(#[trigger] after[k]) by {
                assert(after[k] == nodes[k]);
            }
            assert(wanted(after[i]));
        }
        first_index_is(after, wanted, i);
    } else {
        let p = node_position(nodes, id);
        if p < nodes.len() {
            assert(p != i);
            assert forall|k: int| 0 <= k < p implies !wanted(#[trigger] after[k]) by {
                if k != i {
                    assert(after[k] == nodes[k]);
                }
            }
            assert(after[p] == nodes[p]);
            first_index_is(after, wanted, p);
        } else {
            assert forall|k: int| 0 <= k < after.len() implies !wanted(#[trigger] after[k]) by {
                if k < nodes.len() && k != i {
                    assert(after[k] == nodes[k]);
                }
            }
            first_index_is(after, wanted, after.len() as int);
        }
    }
}

/// No two controls that are drawn have the same number.
pub open spec fn ids_differ(records: Seq<Record>) -> bool {
    forall|i: int, j: int|
        0 <= i < j < records.len() ==> (#[trigger] records[i]).id != (#[trigger] records[j]).id
}

/// Every control that is drawn is seen as it was drawn.
proof fn drawn_controls_are_seen(nodes: Seq<Accessible>, records: Seq<Record>)
    requires
        ids_differ(records),
    ensures
        forall|k: int|
            0 <= k < records.len() ==> node_of(
                with_records(nodes, records),
                (#[trigger] records[k]).id,
            ) == Some(seen_as(records[k])),
    decreases records.len(),
{
    if records.len() > 0 {
        let rest = records.drop_last();
        assert forall|i: int, j: int| 0 <= i < j < rest.len() implies (#[trigger] rest[i]).id != (
        #[trigger] rest[j]).id by {
            assert(rest[i] == records[i] && rest[j] == records[j]);
        }
        drawn_controls_are_seen(nodes, rest);
        let before = with_records(nodes, rest);
        assert forall|k: int| 0 <= k < records.len() implies node_of(
            with_records(nodes, records),
            (#[trigger] records[k]).id,
        ) == Some(seen_as(records[k])) by {
            drawing_changes_one_control(before, records.last(), records[k].id);
            if k < rest.len() {
                assert(rest[k] == records[k]);
            }
        }
    }
}

/// A control that is kept is seen as before.
proof fn keeping_changes_nothing(nodes: Seq<Accessible>, order: Seq<u64>, id: u64)
    requires
        order.contains(id),
    ensures
        node_of(nodes.filter(is_live(order)), id) == node_of(nodes, id),
    decreases nodes.len(),
{
    reveal(Seq::filter);
    let live = is_live(order);
    let wanted = has_node_id(id);
    if nodes.len() > 0 {
        let rest = nodes.drop_last();
        let last = nodes.last();
        keeping_changes_nothing(rest, order, id);
        assert(rest.push(last) =~= nodes);
        filter_push(rest, last, live);
        first_index_properties(rest, wanted);
        let kept = rest.filter(live);
        first_index_properties(kept, wanted);
        let p = first_index(rest, wanted);
        let q = first_index(kept, wanted);
        if p < rest.len() {
            assert forall|k: int| 0 <= k < p implies !wanted(#[trigger] nodes[k]) by {
                assert(nodes[k] == rest[k]);
            }
            assert(nodes[p] == rest[p]);
            first_index_is(nodes, wanted, p);
            assert(q < kept.len());
            let after = nodes.filter(live);
            assert forall|k: int| 0 <= k < q implies !wanted(#[trigger] after[k]) by {
                assert(after[k] == kept[k]);
            }
            assert(after[q] == kept[q]);
            first_index_is(after, wanted, q);
        } else {
            assert(q == kept.len());
            assert forall|k: int| 0 <= k < rest.len() implies !wanted(#[trigger] nodes[k]) by {
                assert(nodes[k] == rest[k]);
            }
            let after = nodes.filter(live);
            if wanted(last) {
                assert(live(last));
                first_index_is(nodes, wanted, nodes.len() - 1);
                assert forall|k: int| 0 <= k < kept.len() implies !wanted(#[trigger] after[k]) by {
                    assert(after[k] == kept[k]);
                }
                first_index_is(after, wanted, after.len() - 1);
            } else {
                first_index_is(nodes, wanted, nodes.len() as int);
                assert forall|k: int| 0 <= k < after.len() implies !wanted(#[trigger] after[k]) by {
                    if k < kept.len() {
                        assert(after[k] == kept[k]);
                    }
                }
                first_index_is(after, wanted, after.len() as int);
            }
        }
    }
}

/// Drawing what is seen already tells nothing.
proof fn seen_controls_are_silent(nodes: Seq<Accessible>, records: Seq<Record>)
    requires
        forall|k: int|
            0 <= k < records.len() ==> node_of(nodes, (#[trigger] records[k]).id) == Some(
                seen_as(records[k]),
            ),
    ensures
        told_of_all(nodes, records) == Seq::<Notification>::empty(),
        forall|id: u64|
            node_of(nodes, id) is Some ==> #[trigger] node_of(with_records(nodes, records), id)
                == node_of(nodes, id),
    decreases records.len(),
{
    if records.len() > 0 {
        let rest = records.drop_last();
        let last = records.last();
        assert forall|k: int| 0 <= k < rest.len() implies node_of(
            nodes,
            (#[trigger] rest[k]).id,
        ) == Some(seen_as(rest[k])) by {
            assert(rest[k] == records[k]);
        }
        seen_controls_are_silent(nodes, rest);
        let before = with_records(nodes, rest);
        assert(node_of(nodes, records[records.len() - 1].id) is Some);
        assert(node_of(before, last.id) == Some(seen_as(last)));
        assert(told_of(before, last) =~= Seq::<Notification>::empty());
        assert(told_of_all(nodes, records) =~= Seq::<Notification>::empty());
        assert forall|id: u64| node_of(nodes, id) is Some implies #[trigger] node_of(
            with_records(nodes, records),
            id,
        ) == node_of(nodes, id) by {
            drawing_changes_one_control(before, last, id);
        }
    }
}

/// Showing the same controls again tells nothing.
pub proof fn publishing_again_is_silent(nodes: Seq<Accessible>, records: Seq<Record>)
    requires
        ids_differ(reachable(records)),
    ensures
        ({
            let shown = reachable(records);
            let after = with_records(nodes, shown).filter(is_live(record_ids(shown)));
            told_of_all(after, shown) == Seq::<Notification>::empty()
        }),
{
    let shown = reachable(records);
    let order = record_ids(shown);
    let all = with_records(nodes, shown);
    let after = all.filter(is_live(order));
    drawn_controls_are_seen(nodes, shown);
    assert forall|k: int| 0 <= k < shown.len() implies node_of(after, (#[trigger] shown[k]).id)
        == Some(seen_as(shown[k])) by {
        assert(order[k] == shown[k].id);
        assert(order.contains(shown[k].id));
        keeping_changes_nothing(all, order, shown[k].id);
    }
    seen_controls_are_silent(after, shown);
}

/// After the controls were shown, each of them is seen as it was drawn.
pub proof fn shown_controls_are_seen(nodes: Seq<Accessible>, records: Seq<Record>, k: int)
    requires
        ids_differ(reachable(records)),
        0 <= k < reachable(records).len(),
    ensures
        ({
            let shown = reachable(records);
            let after = with_records(nodes, shown).filter(is_live(record_ids(shown)));
            node_of(after, shown[k].id) == Some(seen_as(shown[k]))
        }),
{
    let shown = reachable(records);
    let order = record_ids(shown);
    drawn_controls_are_seen(nodes, shown);
    assert(order[k] == shown[k].id);
    assert(order.contains(shown[k].id));
    keeping_changes_nothing(with_records(nodes, shown), order, shown[k].id);
}

/// What can be asked of a control that is shown: its text is changed only in a field that is
/// enabled, it is checked only where it is a check box, nothing is asked of one that is disabled,
/// and its value and focus are those it was drawn with.
pub proof fn disabled_controls_take_nothing(record: Record)
    ensures
        !record.spec.enabled ==> !seen_as(record).editable && !seen_as(record).focusable
            && !seen_as(record).actionable,
        seen_as(record).editable <==> record.spec.enabled && record.spec.role == Role::TextField,
        seen_as(record).checked is Some <==> record.spec.role == Role::CheckBox,
        seen_as(record).checked matches Some(checked) ==> checked == record.spec.selected,
        record.spec.enabled && (record.spec.role == Role::Button || record.spec.role
            == Role::CheckBox) ==> seen_as(record).actionable,
        seen_as(record).value == record.spec.value,
        seen_as(record).focused == record.spec.focused,
        seen_as(record).id == record.id,
        !record.spec.enabled ==> !seen_as(record).allows(Request::SetValue) && !seen_as(
            record,
        ).allows(Request::SetFocus) && !seen_as(record).allows(Request::Press),
{
}

/// What lies in the topmost layer can be reached, in the order in which it was drawn, and nothing
/// else can.
pub proof fn only_the_top_layer_is_reached(records: Seq<Record>, record: Record)
    ensures
        reachable(records).contains(record) <==> records.contains(record) && forall|k: int|
            0 <= k < records.len() ==> (#[trigger] records[k]).layer <= record.layer,
{
    let layer = top_layer(records);
    crate::sequences::filter_is_exact(records, lies_in(layer), record);
    top_layer_is_top(records);
    top_layer_is_used(records);
    if records.contains(record) {
        let k = records.index_of(record);
        assert(records[k].layer <= layer);
    }
}

/// The topmost layer is that of a control, where there are any.
proof fn top_layer_is_used(records: Seq<Record>)
    ensures
        records.len() > 0 ==> top_layer(records) == 0 || exists|k: int|
            0 <= k < records.len() && (#[trigger] records[k]).layer == top_layer(records),
    decreases records.len(),
{
    if records.len() > 0 {
        let rest = records.drop_last();
        top_layer_is_used(rest);
        if top_layer(records) != 0 {
            if records.last().layer > top_layer(rest) {
                assert(records[records.len() - 1].layer == top_layer(records));
            } else {
                let k = choose|k: int|
                    0 <= k < rest.len() && (#[trigger] rest[k]).layer == top_layer(rest);
                assert(records[k].layer == top_layer(records));
            }
        }
    }
}

/// A control is told of when its value or its check mark is another than before, and when it gets
/// the focus that it did not have; a control that was not seen before counts as one without any.
pub proof fn changes_are_told(nodes: Seq<Accessible>, record: Record, i: int)
    requires
        0 <= i < nodes.len(),
        nodes[i].id == record.id,
        forall|k: int| 0 <= k < i ==> (#[trigger] nodes[k]).id != record.id,
    ensures
        told_of(nodes, record).contains(Notification::ValueChanged(record.id)) <==> opt_view(
            nodes[i].value,
        ) != opt_view(record.spec.value) || nodes[i].checked != seen_as(record).checked,
        told_of(nodes, record).contains(Notification::FocusChanged(record.id))
            <==> record.spec.focused && !nodes[i].focused,
{
    first_index_is(nodes, has_node_id(record.id), i);
    let told = told_of(nodes, record);
    let changed = opt_view(nodes[i].value) != opt_view(record.spec.value) || nodes[i].checked
        != record.spec.check_state();
    if changed {
        assert(told[0] == Notification::ValueChanged(record.id));
    }
    if record.spec.focused && !nodes[i].focused {
        assert(told[told.len() - 1] == Notification::FocusChanged(record.id));
    }
}

/// A text is set only in a control that can be edited, as it was handed over; a check mark only
/// where it differs; and nothing is done with a control that is gone. Only a press is made with the
/// pointer.
pub proof fn requests_are_done_where_they_can_be(
    control: Accessible,
    value: NativeValue,
    actionable: bool,
    has_handler: bool,
    action: Action,
)
    ensures
        control.asked_by(value) matches Some(Action::SetValue(text)) ==> control.editable && value
            == NativeValue::Text(text),
        control.asked_by(value) matches Some(Action::SetChecked(truth)) ==> value
            == NativeValue::Truth(truth) && control.checked == Some(!truth),
        !(control.asked_by(value) matches Some(Action::Press)),
        value is Other ==> control.asked_by(value) is None,
        value is Text && control.editable ==> control.asked_by(value) is Some,
        value matches NativeValue::Truth(truth) ==> (control.checked == Some(!truth)
            ==> control.asked_by(value) is Some),
        !actionable ==> route_of(actionable, has_handler, action) == Route::Dropped,
        actionable && has_handler ==> route_of(actionable, has_handler, action) == Route::Handler,
        route_of(actionable, has_handler, action) == Route::Pointer <==> actionable && !has_handler
            && action is Press,
{
}

} // verus!
