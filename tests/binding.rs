use makepad_gen::binding::{
    FieldBinds, HandleEvent, HookStmt, PropField, PropLzVisitor, PropStruct, PropWidget,
};
use makepad_gen::prop_items::Attr;
use makepad_gen::props::Prop;
use makepad_gen::widget_type::{BuiltinWidget, Catalog};

fn s(x: &str) -> String {
    x.to_string()
}

fn attr(path: &str, args: &[&str]) -> Attr {
    Attr { path: s(path), args: args.iter().map(|a| s(a)).collect() }
}

fn catalog() -> Catalog {
    Catalog {
        widgets: vec![
            BuiltinWidget {
                name: s("CheckBox"),
                props: vec![s("selected"), s("text")],
                events: vec![Prop { name: s("selected"), value: s("clicked") }],
            },
            BuiltinWidget { name: s("Label"), props: vec![s("text")], events: vec![] },
        ],
    }
}

fn prop_struct() -> PropStruct {
    PropStruct {
        name: s("AProp"),
        attrs: vec![attr("component", &[]), attr("derive", &["Debug"])],
        fields: vec![
            PropField { name: s("checked"), ty: s("bool") },
            PropField { name: s("title"), ty: s("String") },
        ],
    }
}

fn no_events() -> HandleEvent {
    HandleEvent { c_refs: vec![], callbacks: vec![] }
}

#[test]
fn no_bound_field_gives_no_pool() {
    let mut p = prop_struct();
    let mut hooks = vec![];
    let mut ev = no_events();
    let binds = vec![FieldBinds { field: s("other"), widgets: vec![] }];
    let (twb, lc) = PropLzVisitor::visit(&mut p, &mut hooks, Some(&binds), &mut ev, &catalog());
    assert!(twb.is_none());
    assert!(!lc.twb_pool);
    assert!(ev.c_refs.is_empty());
    assert!(ev.callbacks.is_empty());
}

#[test]
fn registered_field_with_no_widget_is_not_bound() {
    let mut p = prop_struct();
    let mut hooks = vec![];
    let mut ev = no_events();
    let binds = vec![FieldBinds { field: s("checked"), widgets: vec![] }];
    let (twb, _) = PropLzVisitor::visit(&mut p, &mut hooks, Some(&binds), &mut ev, &catalog());
    assert!(twb.is_none());
    // registered, so initialized through its setter; the other field is a
    // plain initializer
    assert!(matches!(&hooks[1], HookStmt::SetField(f) if f == "checked"));
    assert!(matches!(&hooks[2], HookStmt::AssignField(f) if f == "title"));
    assert_eq!(hooks.len(), 3);
}

#[test]
fn bound_field_enters_pool_with_write_back() {
    let mut p = prop_struct();
    let mut hooks = vec![];
    let mut ev = no_events();
    let binds = vec![FieldBinds {
        field: s("checked"),
        widgets: vec![
            PropWidget { id: s("cb1"), name: s("CheckBox"), prop: s("selected") },
            PropWidget { id: s("cb1"), name: s("CheckBox"), prop: s("selected") },
            PropWidget { id: s("lb"), name: s("Label"), prop: s("text") },
        ],
    }];
    let (twb, lc) = PropLzVisitor::visit(&mut p, &mut hooks, Some(&binds), &mut ev, &catalog());
    let pool = twb.unwrap();
    assert_eq!(pool.entries.len(), 1);
    assert_eq!(pool.entries[0].name, "checked");
    assert_eq!(pool.entries[0].value, "bool");
    assert!(lc.twb_pool);
    let refs: Vec<_> = ev.c_refs.iter().map(|c| (c.id.clone(), c.name.clone())).collect();
    assert_eq!(refs, vec![(s("cb1"), s("CheckBox")), (s("lb"), s("Label"))]);
    assert_eq!(ev.callbacks.len(), 1);
    assert_eq!(ev.callbacks[0].id, "cb1");
    assert_eq!(ev.callbacks[0].field, "checked");
    assert_eq!(ev.callbacks[0].prop, "selected");
    assert_eq!(ev.callbacks[0].event, "clicked");
}

#[test]
fn instance_renames_and_builds_hooks() {
    let mut p = prop_struct();
    let mut hooks = vec![];
    let lc = PropLzVisitor::instance(&mut p, &mut hooks, None);
    assert_eq!(lc.name, "AProp");
    assert_eq!(lc.fields.len(), 2);
    assert_eq!(p.name, "APropDeref");
    assert_eq!(p.attrs.len(), 1);
    assert_eq!(p.attrs[0].path, "derive");
    assert_eq!(p.attrs[0].args, vec![s("Debug")]);
    assert_eq!(hooks.len(), 3);
    assert!(matches!(&hooks[0], HookStmt::InitDeref(n) if n == "APropDeref"));
    assert!(matches!(&hooks[1], HookStmt::AssignField(f) if f == "checked"));
    assert!(matches!(&hooks[2], HookStmt::AssignField(f) if f == "title"));
}

#[test]
fn instance_of_empty_struct_adds_no_hook() {
    let mut p = PropStruct { name: s("E"), attrs: vec![], fields: vec![] };
    let mut hooks = vec![];
    let lc = PropLzVisitor::instance(&mut p, &mut hooks, None);
    assert!(hooks.is_empty());
    assert!(lc.fields.is_empty());
}

#[test]
fn no_registry_gives_no_pool() {
    let mut p = prop_struct();
    let mut hooks = vec![];
    let mut ev = no_events();
    let (twb, _) = PropLzVisitor::visit(&mut p, &mut hooks, None, &mut ev, &catalog());
    assert!(twb.is_none());
}

#[test]
fn write_back_event_lookup() {
    let c = catalog();
    assert_eq!(makepad_gen::binding::twb_event_exec(&c, &s("CheckBox"), &s("selected")), Some(s("clicked")));
    assert_eq!(makepad_gen::binding::twb_event_exec(&c, &s("CheckBox"), &s("text")), None);
    assert_eq!(makepad_gen::binding::twb_event_exec(&c, &s("Slider"), &s("value")), None);
}

#[test]
fn bound_field_gets_accessors_and_pool_hook() {
    let mut p = prop_struct();
    let mut hooks = vec![];
    let mut ev = no_events();
    let binds = vec![FieldBinds {
        field: s("checked"),
        widgets: vec![PropWidget { id: s("cb1"), name: s("CheckBox"), prop: s("selected") }],
    }];
    let (twb, lc) = PropLzVisitor::visit(&mut p, &mut hooks, Some(&binds), &mut ev, &catalog());
    assert!(twb.is_some());
    assert_eq!(lc.accessors.len(), 1);
    assert_eq!(lc.accessors[0].field, "checked");
    assert_eq!(lc.accessors[0].ty, "bool");
    assert_eq!(lc.accessors[0].getter, "get_checked");
    assert_eq!(lc.accessors[0].setter, "set_checked");
    assert_eq!(hooks.len(), 4);
    assert!(matches!(&hooks[1], HookStmt::SetField(f) if f == "checked"));
    assert!(matches!(&hooks[2], HookStmt::AssignField(f) if f == "title"));
    assert!(matches!(hooks[3], HookStmt::InitTwbPool));
}

#[test]
fn no_bound_field_gets_no_pool_hook() {
    let mut p = prop_struct();
    let mut hooks = vec![];
    let mut ev = no_events();
    let binds: Vec<FieldBinds> = vec![];
    let (twb, lc) = PropLzVisitor::visit(&mut p, &mut hooks, Some(&binds), &mut ev, &catalog());
    assert!(twb.is_none());
    assert!(lc.accessors.is_empty());
    assert_eq!(hooks.len(), 3);
    assert!(hooks.iter().all(|h| !matches!(h, HookStmt::InitTwbPool)));
}
