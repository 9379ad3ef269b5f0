use makepad_gen::error::BuildError;
use makepad_gen::props::Prop;
use makepad_gen::role::{ForBind, ParentLink, Role};
use makepad_gen::style::{IdClass, SelectorPart, Style, StyleRule};
use makepad_gen::template::{
    handle_template, BindProp, Callback, PollEntry, Sugar, SugarBind, TemplateNode,
    TemplateResult, WidgetTemplate,
};
use makepad_gen::widget::{all, single_template, Script, Widget, Model};
use makepad_gen::widget_type::{BuiltinWidget, Catalog, WidgetKind};

fn s(x: &str) -> String {
    x.to_string()
}

fn prop(k: &str, v: &str) -> Prop {
    Prop { name: s(k), value: s(v) }
}

fn node(name: &str) -> TemplateNode {
    TemplateNode {
        id: None,
        class: None,
        as_prop: false,
        name: s(name),
        props: vec![],
        callbacks: vec![],
        inherits: None,
        root: false,
        children: vec![],
        sugar: Sugar::Absent,
        parent: None,
        binds: vec![],
    }
}

fn with_id(mut n: TemplateNode, id: &str) -> TemplateNode {
    n.id = Some(s(id));
    n
}

fn with_callback(mut n: TemplateNode) -> TemplateNode {
    n.callbacks.push(Callback { event: s("clicked"), handler: s("on_click") });
    n
}

fn repeated(mut n: TemplateNode, expr: &str, parent: &str) -> TemplateNode {
    n.sugar = Sugar::For(SugarBind::For(ForBind { expr: s(expr) }));
    n.parent = Some(ParentLink { id: None, name: s(parent), root: false });
    n
}

fn catalog() -> Catalog {
    Catalog {
        widgets: vec![
            BuiltinWidget { name: s("View"), props: vec![s("height"), s("width")], events: vec![] },
            BuiltinWidget {
                name: s("Button"),
                props: vec![s("text")],
                events: vec![],
            },
            BuiltinWidget {
                name: s("CheckBox"),
                props: vec![s("selected")],
                events: vec![prop("selected", "clicked")],
            },
        ],
    }
}

fn resolve(n: &TemplateNode, style: &Option<Style>) -> (Result<TemplateResult, BuildError>, Vec<WidgetTemplate>, Vec<PollEntry>) {
    let mut ptrs = vec![];
    let mut poll = vec![];
    let mut chain: Vec<IdClass> = vec![];
    let r = handle_template(n, style, &catalog(), &mut ptrs, &mut poll, &mut chain, 0, Role::Normal);
    assert!(chain.is_empty());
    (r, ptrs, poll)
}

fn for_id(r: &Role) -> &str {
    match r {
        Role::For { id, .. } => id,
        Role::Normal => panic!("not a repetition role"),
    }
}

#[test]
fn button_with_id_and_callback_resolves() {
    let b = with_callback(with_id(node("Button"), "b1"));
    let (w, poll) = all(s("a.gen"), Some(b), None, None, false, false, &catalog()).unwrap();
    let t = w.template.unwrap();
    assert!(matches!(t.role, Role::Normal));
    assert_eq!(poll.len(), 1);
    assert_eq!(poll[0].id, "b1");
    assert_eq!(poll[0].widget.name, "Button");
}

#[test]
fn button_callback_without_id_fails() {
    let b = with_callback(node("Button"));
    let r = all(s("a.gen"), Some(b), None, None, false, false, &catalog());
    match r {
        Err(e) => {
            assert!(matches!(e, BuildError::CallbackNeedsId));
            assert!(e.message().contains("callback widget need id"));
        }
        Ok(_) => panic!("expected an error"),
    }
}

#[test]
fn as_prop_callback_fails_even_with_id() {
    let mut b = with_callback(with_id(node("Button"), "b1"));
    b.as_prop = true;
    let (r, _, _) = resolve(&b, &None);
    assert!(matches!(r, Err(BuildError::AsPropCallback)));
}

#[test]
fn item_nested_three_levels_goes_to_pool_with_credentials() {
    let item = repeated(with_id(node("Item"), "it1"), "items", "Inner");
    let mut inner = repeated(with_id(node("View"), "inner"), "rows", "Outer");
    inner.children.push(item);
    let mut outer = repeated(with_id(node("View"), "outer"), "groups", "View");
    outer.children.push(inner);
    let mut root = node("View");
    root.root = true;
    root.children.push(outer);
    let (r, ptrs, _) = resolve(&root, &None);
    let w = match r.unwrap() {
        TemplateResult::Widget(w) => w,
        TemplateResult::Role(_) => panic!("the root is rendered"),
    };
    // no virtual node stays in the rendered tree
    assert!(w.children.is_empty());
    // post-order: the innermost virtual node is pooled first
    assert_eq!(ptrs.len(), 3);
    assert_eq!(ptrs[0].id.as_deref(), Some("it1"));
    assert_eq!(ptrs[1].id.as_deref(), Some("inner"));
    assert_eq!(ptrs[2].id.as_deref(), Some("outer"));
    match &ptrs[0].role {
        Role::For { parent, id, origin_pos, name, bind, .. } => {
            assert_eq!(id, "it1");
            assert_eq!(name, "Item");
            assert_eq!(*origin_pos, 0);
            assert_eq!(bind.expr, "items");
            assert_eq!(parent.name, "Inner");
            // the credential chain: inner, then outer, then the normal root
            assert_eq!(for_id(&parent.credential), "inner");
            match &*parent.credential {
                Role::For { parent: p2, .. } => {
                    assert_eq!(for_id(&p2.credential), "outer");
                    match &*p2.credential {
                        Role::For { parent: p3, .. } => assert!(matches!(*p3.credential, Role::Normal)),
                        Role::Normal => panic!(),
                    }
                }
                Role::Normal => panic!(),
            }
        }
        Role::Normal => panic!("expected a repetition role"),
    }
    // the outer role holds the inner one, which holds the item
    match &ptrs[2].role {
        Role::For { children, .. } => {
            assert_eq!(children.len(), 1);
            assert_eq!(for_id(&children[0]), "inner");
            match &children[0] {
                Role::For { children: c2, .. } => {
                    assert_eq!(c2.len(), 1);
                    assert_eq!(for_id(&c2[0]), "it1");
                }
                Role::Normal => panic!(),
            }
        }
        Role::Normal => panic!(),
    }
}

#[test]
fn plain_node_has_normal_role() {
    let (r, ptrs, _) = resolve(&node("View"), &None);
    match r.unwrap() {
        TemplateResult::Widget(w) => {
            assert!(matches!(w.role, Role::Normal));
            assert!(w.is_static);
            assert_eq!(w.ty.kind, WidgetKind::Builtin);
        }
        TemplateResult::Role(_) => panic!(),
    }
    assert!(ptrs.is_empty());
}

#[test]
fn non_repetition_sugar_is_normal() {
    let mut n = with_id(node("View"), "v");
    n.sugar = Sugar::For(SugarBind::Other(s("flag")));
    let (r, _, _) = resolve(&n, &None);
    assert!(matches!(r.unwrap(), TemplateResult::Widget(w) if matches!(w.role, Role::Normal)));
}

#[test]
fn repetition_with_id_gives_role() {
    let n = repeated(with_id(node("Item"), "it1"), "items", "View");
    let (r, ptrs, _) = resolve(&n, &None);
    match r.unwrap() {
        TemplateResult::Role(role) => assert_eq!(for_id(&role), "it1"),
        TemplateResult::Widget(_) => panic!(),
    }
    assert_eq!(ptrs.len(), 1);
}

#[test]
fn repetition_without_id_fails() {
    let n = repeated(node("Item"), "items", "View");
    let (r, _, _) = resolve(&n, &None);
    let e = r.err().unwrap();
    assert!(matches!(e, BuildError::ForNeedsId));
    assert!(e.message().contains("for widget need id"));
}

#[test]
fn repetition_without_parent_fails() {
    let mut n = with_id(node("Item"), "it1");
    n.sugar = Sugar::For(SugarBind::For(ForBind { expr: s("items") }));
    let (r, _, _) = resolve(&n, &None);
    assert!(matches!(r, Err(BuildError::ForNeedsParent)));
}

#[test]
fn inherits_fails() {
    let mut n = node("View");
    n.inherits = Some(s("Base"));
    let (r, _, _) = resolve(&n, &None);
    assert!(matches!(r, Err(BuildError::StaticInherits)));
}

#[test]
fn child_order_is_kept() {
    let mut root = with_id(node("View"), "root");
    root.children.push(with_id(node("Button"), "c0"));
    root.children.push(repeated(with_id(node("Item"), "c1"), "xs", "View"));
    root.children.push(with_id(node("Button"), "c2"));
    root.children.push(repeated(with_id(node("Item"), "c3"), "ys", "View"));
    root.children.push(with_id(node("Button"), "c4"));
    let (r, ptrs, poll) = resolve(&root, &None);
    let w = match r.unwrap() {
        TemplateResult::Widget(w) => w,
        TemplateResult::Role(_) => panic!(),
    };
    let ids: Vec<_> = w.children.iter().map(|c| c.id.clone().unwrap()).collect();
    assert_eq!(ids, vec![s("c0"), s("c2"), s("c4")]);
    let pooled: Vec<_> = ptrs.iter().map(|c| c.id.clone().unwrap()).collect();
    assert_eq!(pooled, vec![s("c1"), s("c3")]);
    let pos: Vec<_> = ptrs
        .iter()
        .map(|c| match &c.role {
            Role::For { origin_pos, .. } => *origin_pos,
            Role::Normal => usize::MAX,
        })
        .collect();
    assert_eq!(pos, vec![1, 3]);
    let registered: Vec<_> = poll.iter().map(|e| e.id.clone()).collect();
    assert_eq!(registered, vec![s("root"), s("c0"), s("c1"), s("c2"), s("c3"), s("c4")]);
}

#[test]
fn virtual_children_of_repetition_parent_are_child_roles() {
    let mut list = repeated(with_id(node("View"), "list"), "rows", "View");
    list.children.push(repeated(with_id(node("Item"), "a"), "xs", "List"));
    list.children.push(with_id(node("Button"), "b"));
    list.children.push(repeated(with_id(node("Item"), "c"), "ys", "List"));
    let (r, ptrs, _) = resolve(&list, &None);
    let role = match r.unwrap() {
        TemplateResult::Role(role) => role,
        TemplateResult::Widget(_) => panic!(),
    };
    match &role {
        Role::For { children, .. } => {
            let ids: Vec<_> = children.iter().map(|c| for_id(c).to_string()).collect();
            assert_eq!(ids, vec![s("a"), s("c")]);
            // the second child saw the first one in its father role
            match &children[1] {
                Role::For { parent, .. } => match &*parent.credential {
                    Role::For { children: seen, .. } => assert_eq!(seen.len(), 1),
                    Role::Normal => panic!(),
                },
                Role::Normal => panic!(),
            }
        }
        Role::Normal => panic!(),
    }
    let last = ptrs.last().unwrap();
    assert_eq!(last.id.as_deref(), Some("list"));
    assert_eq!(last.children.len(), 1);
    assert_eq!(last.children[0].id.as_deref(), Some("b"));
}

#[test]
fn resolving_twice_gives_equal_widgets() {
    let mut root = with_id(node("View"), "root");
    root.class = Some(s("main"));
    root.props.push(prop("height", "10"));
    let mut c = with_id(node("Button"), "c");
    c.binds.push(BindProp { prop: s("text"), var: s("label") });
    root.children.push(c);
    let style = Some(Style {
        rules: vec![StyleRule { selector: vec![SelectorPart::Class(s("main"))], props: vec![prop("width", "5")] }],
    });
    let (a, _, _) = resolve(&root, &style);
    let (b, _, _) = resolve(&root, &style);
    assert_eq!(format!("{:?}", a), format!("{:?}", b));
}

#[test]
fn style_cascade_merges_last_writer_wins() {
    let mut root = with_id(node("View"), "root");
    root.class = Some(s("page"));
    let mut child = node("View");
    child.class = Some(s("box"));
    child.props.push(prop("height", "1"));
    root.children.push(child);
    let style = Some(Style {
        rules: vec![
            StyleRule {
                selector: vec![SelectorPart::Class(s("box"))],
                props: vec![prop("height", "2"), prop("width", "3")],
            },
            StyleRule {
                selector: vec![SelectorPart::Id(s("root")), SelectorPart::Class(s("box"))],
                props: vec![prop("height", "4")],
            },
            StyleRule {
                selector: vec![SelectorPart::Id(s("other")), SelectorPart::Class(s("box"))],
                props: vec![prop("width", "9")],
            },
        ],
    });
    let (r, _, _) = resolve(&root, &style);
    let w = match r.unwrap() {
        TemplateResult::Widget(w) => w,
        TemplateResult::Role(_) => panic!(),
    };
    let ps: Vec<_> = w.children[0].ty.props.iter().map(|p| (p.name.clone(), p.value.clone())).collect();
    assert_eq!(ps, vec![(s("height"), s("4")), (s("width"), s("3"))]);
}

#[test]
fn unknown_property_of_builtin_fails() {
    let mut b = node("Button");
    b.props.push(prop("text", "ok"));
    b.props.push(prop("colour", "red"));
    let (r, _, _) = resolve(&b, &None);
    match r {
        Err(BuildError::UnknownProperty { widget, prop }) => {
            assert_eq!(widget, "Button");
            assert_eq!(prop, "colour");
        }
        _ => panic!("expected an unknown property"),
    }
}

#[test]
fn composite_and_define_kinds() {
    let mut c = node("MyCard");
    c.props.push(prop("anything", "1"));
    let (r, _, _) = resolve(&c, &None);
    assert!(matches!(r.unwrap(), TemplateResult::Widget(w) if w.ty.kind == WidgetKind::Composite));
    let (r, _, _) = resolve(&node("component"), &None);
    assert!(matches!(r.unwrap(), TemplateResult::Widget(w) if w.ty.kind == WidgetKind::Define));
}

#[test]
fn bindings_map_variable_to_field() {
    let mut c = with_id(node("CheckBox"), "cb");
    c.binds.push(BindProp { prop: s("selected"), var: s("on") });
    c.binds.push(BindProp { prop: s("text"), var: s("on") });
    let (r, _, _) = resolve(&c, &None);
    match r.unwrap() {
        TemplateResult::Widget(w) => {
            assert_eq!(w.binds.len(), 1);
            assert_eq!(w.binds[0].name, "on");
            assert_eq!(w.binds[0].value, "text");
            assert!(!w.is_static);
        }
        TemplateResult::Role(_) => panic!(),
    }
}

#[test]
fn duplicate_ids_overwrite_pool_entry() {
    let mut root = with_id(node("View"), "x");
    root.children.push(with_id(node("Button"), "x"));
    let (_, _, poll) = resolve(&root, &None);
    assert_eq!(poll.len(), 1);
    assert_eq!(poll[0].widget.name, "Button");
}

#[test]
fn static_template_refuses_callbacks_and_inherits() {
    let b = with_callback(with_id(node("Button"), "b"));
    let e = single_template(s("a.gen"), Some(b), false, &catalog()).err().unwrap();
    assert!(matches!(e, BuildError::StaticCallbacks));
    assert!(e.message().contains("Static Widget has no callbacks"));
    let mut v = node("View");
    v.inherits = Some(s("Base"));
    let e = single_template(s("a.gen"), Some(v), false, &catalog()).err().unwrap();
    assert!(matches!(e, BuildError::StaticInherits));
}

#[test]
fn static_template_keeps_every_child() {
    let mut root = node("component");
    root.root = true;
    root.id = Some(s("hello"));
    root.children.push(node("View"));
    root.children.push(node("Button"));
    let w = single_template(s("a.gen"), Some(root), true, &catalog()).unwrap();
    assert!(w.is_entry);
    let t = w.template.as_ref().unwrap();
    assert_eq!(t.children.len(), 2);
    match w.script {
        Some(Script::Default { root, patch }) => {
            assert_eq!(root, "hello");
            assert!(patch.is_none());
        }
        _ => panic!("a defined root gets its default script"),
    }
}

#[test]
fn plain_script_patches_default_of_defined_root() {
    let mut root = node("component");
    root.root = true;
    let (w, _) = all(s("a.gen"), Some(root), Some(Script::Plain(s("fn f() {}"))), None, false, true, &catalog()).unwrap();
    assert!(w.has_plugin);
    match w.script {
        Some(Script::Default { root, patch }) => {
            assert_eq!(root, "component");
            assert_eq!(patch.as_deref(), Some("fn f() {}"));
        }
        _ => panic!(),
    }
    let (w, _) = all(s("a.gen"), Some(node("View")), Some(Script::Component(s("struct A;"))), None, false, false, &catalog()).unwrap();
    assert!(matches!(w.script, Some(Script::Component(_))));
}

#[test]
fn widget_new_dispatches_on_sections() {
    let empty = Widget::new(
        Model { source: s("e.gen"), template: None, script: None, style: None, is_entry: false, has_plugin: false },
        &catalog(),
    )
    .unwrap();
    assert!(empty.is_empty());
    // a template alone must be static
    let b = with_callback(with_id(node("Button"), "b"));
    let r = Widget::new(
        Model { source: s("a.gen"), template: Some(b), script: None, style: None, is_entry: false, has_plugin: false },
        &catalog(),
    );
    assert!(matches!(r, Err(BuildError::StaticCallbacks)));
    // with a script, callbacks are fine
    let b = with_callback(with_id(node("Button"), "b"));
    let r = Widget::new(
        Model {
            source: s("a.gen"),
            template: Some(b),
            script: Some(Script::Plain(s("let x = 1;"))),
            style: None,
            is_entry: false,
            has_plugin: false,
        },
        &catalog(),
    );
    assert!(r.is_ok());
}

#[test]
fn pool_of_virtual_nodes_is_absent_when_empty() {
    let (w, _) = all(s("a.gen"), Some(node("View")), None, None, false, false, &catalog()).unwrap();
    assert!(w.template_ptrs.is_none());
    let mut root = node("View");
    root.children.push(repeated(with_id(node("Item"), "i"), "xs", "View"));
    let (w, _) = all(s("a.gen"), Some(root), None, None, false, false, &catalog()).unwrap();
    assert_eq!(w.template_ptrs.unwrap().len(), 1);
}

#[test]
fn unknown_property_message_names_widget_and_property() {
    let e = BuildError::UnknownProperty { widget: s("Button"), prop: s("colour") };
    assert_eq!(e.message(), "GenUI Component -> Makepad Widget, Button has no property colour");
    assert_eq!(
        BuildError::AsPropCallback.message(),
        "GenUI Component -> Makepad Widget, as_prop widget can't have callback!"
    );
}

#[test]
fn empty_catalog_makes_every_tag_composite() {
    let mut n = node("Button");
    n.props.push(prop("colour", "red"));
    let mut ptrs = vec![];
    let mut poll = vec![];
    let mut chain: Vec<IdClass> = vec![];
    let r = handle_template(&n, &None, &Catalog { widgets: vec![] }, &mut ptrs, &mut poll, &mut chain, 0, Role::Normal);
    assert!(matches!(r.unwrap(), TemplateResult::Widget(w) if w.ty.kind == WidgetKind::Composite));
}

#[test]
fn child_chain_restored_after_child_error() {
    let mut root = with_id(node("View"), "root");
    root.children.push(with_callback(node("Button")));
    let mut ptrs = vec![];
    let mut poll = vec![];
    let mut chain: Vec<IdClass> = vec![IdClass { id: Some(s("outer")), class: None }];
    let r = handle_template(&root, &None, &catalog(), &mut ptrs, &mut poll, &mut chain, 0, Role::Normal);
    assert!(matches!(r, Err(BuildError::CallbackNeedsId)));
    assert_eq!(chain.len(), 1);
    assert_eq!(chain[0].id.as_deref(), Some("outer"));
}

#[test]
fn local_error_leaves_pools_unchanged() {
    let mut ptrs = vec![];
    let mut poll = vec![];
    let mut chain: Vec<IdClass> = vec![];
    let first = repeated(with_id(node("Item"), "keep"), "xs", "View");
    assert!(handle_template(&first, &None, &catalog(), &mut ptrs, &mut poll, &mut chain, 0, Role::Normal).is_ok());
    assert_eq!(ptrs.len(), 1);
    let no_id = repeated(node("Item"), "xs", "View");
    let r = handle_template(&no_id, &None, &catalog(), &mut ptrs, &mut poll, &mut chain, 0, Role::Normal);
    assert!(matches!(r, Err(BuildError::ForNeedsId)));
    assert_eq!(ptrs.len(), 1);
    assert_eq!(poll.len(), 1);
    let mut cb = with_callback(with_id(node("Button"), "b"));
    cb.as_prop = true;
    let r = handle_template(&cb, &None, &catalog(), &mut ptrs, &mut poll, &mut chain, 0, Role::Normal);
    assert!(matches!(r, Err(BuildError::AsPropCallback)));
    assert_eq!(ptrs.len(), 1);
}

#[test]
fn pool_holds_each_virtual_node_once_children_first() {
    let mut list = repeated(with_id(node("View"), "list"), "rows", "View");
    list.children.push(repeated(with_id(node("Item"), "a"), "xs", "List"));
    let mut root = node("View");
    root.children.push(list);
    root.children.push(repeated(with_id(node("Item"), "z"), "zs", "View"));
    let (w, _) = all(s("a.gen"), Some(root), None, None, false, false, &catalog()).unwrap();
    let ids: Vec<_> = w.template_ptrs.unwrap().iter().map(|p| p.id.clone().unwrap()).collect();
    assert_eq!(ids, vec![s("a"), s("list"), s("z")]);
}
