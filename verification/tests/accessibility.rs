use remcmd_app::accessibility::{
    action_route, enter_layer, Action, NativeValue, Node, Notification, Request, Role, Route, Tree,
};

fn labelled(label: &str) -> Node {
    Node::button(label.into(), true)
}

#[test]
fn buttons_and_texts_start_plain() {
    let button = Node::button("Save".into(), false);
    assert_eq!(button.role, Role::Button);
    assert!(!button.enabled);
    assert_eq!(button.value, None);
    let text = Node::text("Status".into(), "Connected".into());
    assert_eq!(text.role, Role::StaticText);
    assert_eq!(text.value.as_deref(), Some("Connected"));
    assert!(text.enabled);
}

#[test]
fn only_the_topmost_layer_is_published() {
    let mut tree = Tree::new();
    tree.begin();
    tree.collect(1, labelled("behind"), true, 0);
    tree.collect(2, labelled("dialog"), true, enter_layer(0, true));
    tree.collect(3, labelled("hidden"), false, 1);
    let first = tree.publish();
    assert_eq!(tree.order, vec![2]);
    assert!(first.layout_changed);
    assert!(first.expired.is_empty());
    tree.begin();
    tree.collect(1, labelled("behind"), true, 0);
    let mut menu = labelled("menu");
    menu.menu = true;
    tree.collect(4, menu, true, 0);
    let second = tree.publish();
    assert_eq!(tree.order, vec![4]);
    assert_eq!(second.expired, vec![2]);
    assert_eq!(enter_layer(0, false), 0);
}

#[test]
fn changes_are_told_once() {
    let mut tree = Tree::new();
    let draw = |tree: &mut Tree, value: &str, focused: bool| {
        tree.begin();
        let mut field = Node::text("Name".into(), value.into());
        field.role = Role::TextField;
        field.focus_handle = Some(focused);
        tree.collect(7, field, true, 0);
        tree.publish()
    };
    assert_eq!(
        draw(&mut tree, "a", true).notifications,
        vec![Notification::ValueChanged(7), Notification::FocusChanged(7)]
    );
    let again = draw(&mut tree, "a", true);
    assert!(again.notifications.is_empty());
    assert!(!again.layout_changed);
    assert_eq!(tree.focused_element(), Some(7));
    assert!(draw(&mut tree, "a", false).notifications.is_empty());
    assert_eq!(tree.focused_element(), None);
    assert_eq!(
        draw(&mut tree, "b", false).notifications,
        vec![Notification::ValueChanged(7)]
    );
}

#[test]
fn controls_allow_what_they_can_do() {
    let mut tree = Tree::new();
    let mut check = labelled("Remember");
    check.role = Role::CheckBox;
    check.selected = true;
    let mut field = labelled("Name");
    field.role = Role::TextField;
    field.has_handler = true;
    let mut off = labelled("Off");
    off.enabled = false;
    tree.collect(1, check, true, 0);
    tree.collect(2, field, true, 0);
    tree.collect(3, off, true, 0);
    tree.publish();
    let check = &tree.nodes[0];
    assert!(check.attribute_settable("AXValue"));
    assert!(!check.attribute_settable("AXFocused"));
    assert!(!check.attribute_settable("AXTitle"));
    assert_eq!(
        check.set_value(NativeValue::Truth(false)),
        Some(Action::SetChecked(false))
    );
    assert_eq!(check.set_value(NativeValue::Truth(true)), None);
    let field = &tree.nodes[1];
    assert_eq!(
        field.set_value(NativeValue::Text("new".into())),
        Some(Action::SetValue("new".into()))
    );
    assert_eq!(field.set_value(NativeValue::Other), None);
    assert!(field.selector_allowed(Request::SetFocus));
    let off = &tree.nodes[2];
    assert!(!off.selector_allowed(Request::Press));
    tree.nodes[1].expire();
    assert!(!tree.nodes[1].selector_allowed(Request::SetValue));
}

#[test]
fn actions_take_the_handler_or_the_pointer() {
    assert_eq!(action_route(false, true, &Action::Press), Route::Dropped);
    assert_eq!(action_route(true, true, &Action::Focus), Route::Handler);
    assert_eq!(action_route(true, false, &Action::Press), Route::Pointer);
    assert_eq!(action_route(true, false, &Action::Focus), Route::Dropped);
}
