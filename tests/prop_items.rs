use makepad_gen::binding::{PropField, PropLzVisitor, PropStruct};
use makepad_gen::prop_items::{Attr, OtherItem, PropEnum, PropItem, PropVariant};

fn s(x: &str) -> String {
    x.to_string()
}

fn attr(path: &str, args: &[&str]) -> Attr {
    Attr { path: s(path), args: args.iter().map(|a| s(a)).collect() }
}

fn shown(a: &[Attr]) -> Vec<(String, Vec<String>)> {
    a.iter().map(|x| (x.path.clone(), x.args.clone())).collect()
}

fn derive_of(args: &[&str]) -> (String, Vec<String>) {
    (s("derive"), args.iter().map(|a| s(a)).collect())
}

#[test]
fn t1() {
    // #[prop] #[derive(Default, Debug)] pub enum AProp { #[default] Name }
    let e = PropEnum {
        name: s("AProp"),
        attrs: vec![attr("prop", &[]), attr("derive", &["Default", "Debug"])],
        variants: vec![PropVariant { name: s("Name"), has_fields: false, attrs: vec![attr("default", &[])] }],
    };
    let mut props = vec![PropItem::Enum(e)];
    let mut others = vec![];
    PropLzVisitor::props(&mut props, &mut others);
    let PropItem::Enum(e) = &props[0] else { panic!() };
    assert_eq!(
        shown(&e.attrs),
        vec![derive_of(&["Debug", "Live", "LiveHook", "LiveRegister"]), (s("live_ignore"), vec![])]
    );
    assert_eq!(shown(&e.variants[0].attrs), vec![(s("pick"), vec![])]);
    assert_eq!(others.len(), 2);
    match &others[0] {
        OtherItem::DefaultImpl { enum_name, variant } => {
            assert_eq!(enum_name, "AProp");
            assert_eq!(variant, "Name");
        }
        OtherItem::Prop(_) => panic!("the Default impl comes first"),
    }
    assert!(matches!(&others[1], OtherItem::Prop(PropItem::Enum(x)) if x.name == "AProp"));
}

#[test]
fn prop_struct_gets_live_derives() {
    let p = PropStruct {
        name: s("Conf"),
        attrs: vec![attr("prop", &[]), attr("derive", &["Clone"])],
        fields: vec![PropField { name: s("size"), ty: s("f64") }],
    };
    let mut props = vec![PropItem::Struct(p)];
    let mut others = vec![];
    PropLzVisitor::props(&mut props, &mut others);
    let PropItem::Struct(p) = &props[0] else { panic!() };
    assert_eq!(
        shown(&p.attrs),
        vec![
            derive_of(&["Clone"]),
            derive_of(&["Live", "LiveHook", "LiveRegister"]),
            (s("live_ignore"), vec![])
        ]
    );
    assert_eq!(p.fields.len(), 1);
    assert_eq!(others.len(), 1);
}

#[test]
fn enum_variants_with_fields_get_default_value() {
    let e = PropEnum {
        name: s("Mode"),
        attrs: vec![attr("derive", &["Default"])],
        variants: vec![
            PropVariant { name: s("Named"), has_fields: true, attrs: vec![] },
            PropVariant { name: s("A"), has_fields: false, attrs: vec![attr("default", &[])] },
            PropVariant { name: s("B"), has_fields: false, attrs: vec![attr("default", &[])] },
        ],
    };
    let mut props = vec![PropItem::Enum(e)];
    let mut others = vec![];
    PropLzVisitor::props(&mut props, &mut others);
    let PropItem::Enum(e) = &props[0] else { panic!() };
    assert_eq!(shown(&e.variants[0].attrs), vec![(s("live"), vec![s("Default::default()")])]);
    assert_eq!(shown(&e.variants[2].attrs), vec![(s("pick"), vec![])]);
    // one Default impl, for the first marked variant
    assert_eq!(others.len(), 2);
    assert!(matches!(&others[0], OtherItem::DefaultImpl { variant, .. } if variant == "A"));
}

#[test]
fn enum_without_default_derive_keeps_variants() {
    let e = PropEnum {
        name: s("Kind"),
        attrs: vec![attr("derive", &["Debug"])],
        variants: vec![PropVariant { name: s("A"), has_fields: false, attrs: vec![attr("default", &[])] }],
    };
    let mut props = Some(vec![PropItem::Enum(e)]);
    let mut others = vec![];
    PropLzVisitor::visit_pure(&mut props, &mut others);
    let props = props.unwrap();
    let PropItem::Enum(e) = &props[0] else { panic!() };
    assert_eq!(shown(&e.variants[0].attrs), vec![(s("default"), vec![])]);
    assert_eq!(others.len(), 1);
    let mut none: Option<Vec<PropItem>> = None;
    PropLzVisitor::visit_pure(&mut none, &mut others);
    assert_eq!(others.len(), 1);
}
