//! Prop items: the structs and enums that a script marks as props, rewritten
//! into the form the target framework's derives expect.
use vstd::prelude::*;
use crate::binding::{PropField, PropLzVisitor, PropStruct};

verus! {

/// An attribute: its path and, for a list attribute such as `derive`, the
/// paths listed in it.
#[derive(Debug)]
pub struct Attr {
    pub path: String,
    pub args: Vec<String>,
}

/// A variant of a prop enum.
#[derive(Debug)]
pub struct PropVariant {
    pub name: String,
    /// The variant carries fields (`Name(String)`), it is not a plain tag.
    pub has_fields: bool,
    pub attrs: Vec<Attr>,
}

/// A prop enum.
#[derive(Debug)]
pub struct PropEnum {
    pub name: String,
    pub attrs: Vec<Attr>,
    pub variants: Vec<PropVariant>,
}

/// An item marked as a prop.
#[derive(Debug)]
pub enum PropItem {
    Struct(PropStruct),
    Enum(PropEnum),
}

/// An item emitted beside the component.
#[derive(Debug)]
pub enum OtherItem {
    Prop(PropItem),
    /// `impl Default for enum_name { fn default() -> Self { Self::variant } }`.
    DefaultImpl { enum_name: String, variant: String },
}

// ---------------------------------------------------------------------------
// The model.

pub type AttrV = (Seq<char>, Seq<Seq<char>>);

pub type VariantV = (Seq<char>, bool, Seq<AttrV>);

pub ghost enum ItemV {
    Struct(Seq<char>, Seq<AttrV>, Seq<PropField>),
    Enum(Seq<char>, Seq<AttrV>, Seq<VariantV>),
    DefaultImpl(Seq<char>, Seq<char>),
}

pub open spec fn strs_view(s: Seq<String>) -> Seq<Seq<char>> {
    s.map_values(|x: String| x@)
}

pub open spec fn attr_view(a: Attr) -> AttrV {
    (a.path@, strs_view(a.args@))
}

pub open spec fn attrs_view(s: Seq<Attr>) -> Seq<AttrV> {
    s.map_values(|a: Attr| attr_view(a))
}

pub open spec fn variant_view(v: PropVariant) -> VariantV {
    (v.name@, v.has_fields, attrs_view(v.attrs@))
}

pub open spec fn item_view(i: PropItem) -> ItemV {
    match i {
        PropItem::Struct(s) => ItemV::Struct(s.name@, attrs_view(s.attrs@), s.fields@),
        PropItem::Enum(e) => ItemV::Enum(e.name@, attrs_view(e.attrs@), e.variants@.map_values(|v: PropVariant| variant_view(v))),
    }
}

pub open spec fn other_view(o: OtherItem) -> ItemV {
    match o {
        OtherItem::Prop(i) => item_view(i),
        OtherItem::DefaultImpl { enum_name, variant } => ItemV::DefaultImpl(enum_name@, variant@),
    }
}

pub open spec fn path_prop() -> Seq<char> {
    seq!['p', 'r', 'o', 'p']
}

pub open spec fn path_derive() -> Seq<char> {
    seq!['d', 'e', 'r', 'i', 'v', 'e']
}

pub open spec fn path_default() -> Seq<char> {
    seq!['d', 'e', 'f', 'a', 'u', 'l', 't']
}

pub open spec fn derive_default() -> Seq<char> {
    seq!['D', 'e', 'f', 'a', 'u', 'l', 't']
}

/// `#[derive(Live, LiveHook, LiveRegister)]`
pub open spec fn live_derives() -> Seq<Seq<char>> {
    seq![
        seq!['L', 'i', 'v', 'e'],
        seq!['L', 'i', 'v', 'e', 'H', 'o', 'o', 'k'],
        seq!['L', 'i', 'v', 'e', 'R', 'e', 'g', 'i', 's', 't', 'e', 'r'],
    ]
}

/// `#[live_ignore]`
pub open spec fn live_ignore() -> AttrV {
    (seq!['l', 'i', 'v', 'e', '_', 'i', 'g', 'n', 'o', 'r', 'e'], seq![])
}

/// `#[live(Default::default())]`
pub open spec fn live_default() -> AttrV {
    (
        seq!['l', 'i', 'v', 'e'],
        seq![seq!['D', 'e', 'f', 'a', 'u', 'l', 't', ':', ':', 'd', 'e', 'f', 'a', 'u', 'l', 't', '(', ')']],
    )
}

/// `#[pick]`
pub open spec fn pick() -> AttrV {
    (seq!['p', 'i', 'c', 'k'], seq![])
}

/// The attributes whose path is not `p`, in order.
pub open spec fn drop_path(s: Seq<AttrV>, p: Seq<char>) -> Seq<AttrV>
    decreases s.len(),
{
    if s.len() == 0 {
        seq![]
    } else {
        let rest = drop_path(s.drop_last(), p);
        if s.last().0 == p {
            rest
        } else {
            rest.push(s.last())
        }
    }
}

pub open spec fn drop_str(s: Seq<Seq<char>>, x: Seq<char>) -> Seq<Seq<char>>
    decreases s.len(),
{
    if s.len() == 0 {
        seq![]
    } else {
        let rest = drop_str(s.drop_last(), x);
        if s.last() == x {
            rest
        } else {
            rest.push(s.last())
        }
    }
}

/// The derives of the attributes, but `Default`, in order.
pub open spec fn kept_derives(s: Seq<AttrV>) -> Seq<Seq<char>>
    decreases s.len(),
{
    if s.len() == 0 {
        seq![]
    } else {
        let rest = kept_derives(s.drop_last());
        if s.last().0 == path_derive() {
            rest + drop_str(s.last().1, derive_default())
        } else {
            rest
        }
    }
}

/// Some derive attribute derives `Default`.
pub open spec fn derives_default(s: Seq<AttrV>) -> bool
    decreases s.len(),
{
    if s.len() == 0 {
        false
    } else {
        derives_default(s.drop_last()) || (s.last().0 == path_derive() && s.last().1.contains(
            derive_default(),
        ))
    }
}

pub open spec fn has_path(s: Seq<AttrV>, p: Seq<char>) -> bool {
    exists|i: int| 0 <= i < s.len() && s[i].0 == p
}

/// The attributes of a prop struct after rewriting.
pub open spec fn struct_attrs(s: Seq<AttrV>) -> Seq<AttrV> {
    drop_path(s, path_prop()).push((path_derive(), live_derives())).push(live_ignore())
}

/// The attributes of a prop enum after rewriting: its derives, but
/// `Default`, are gathered into one derive with the framework's derives.
pub open spec fn enum_attrs(s: Seq<AttrV>) -> Seq<AttrV> {
    let kept = drop_path(s, path_prop());
    drop_path(kept, path_derive()).push((path_derive(), kept_derives(kept) + live_derives())).push(
        live_ignore(),
    )
}

/// A variant after rewriting, when its enum derived `Default`: a variant
/// with fields gets a default value; a plain variant marked `default` is
/// picked instead.
pub open spec fn variant_after(v: VariantV, derived_default: bool) -> VariantV {
    if !derived_default {
        v
    } else if v.1 {
        (v.0, v.1, v.2.push(live_default()))
    } else if has_path(v.2, path_default()) {
        (v.0, v.1, drop_path(v.2, path_default()).push(pick()))
    } else {
        v
    }
}

/// The first plain variant marked `default`.
pub open spec fn default_variant(vs: Seq<VariantV>) -> Option<Seq<char>>
    decreases vs.len(),
{
    if vs.len() == 0 {
        None
    } else {
        match default_variant(vs.drop_last()) {
            Some(n) => Some(n),
            None => if !vs.last().1 && has_path(vs.last().2, path_default()) {
                Some(vs.last().0)
            } else {
                None
            },
        }
    }
}

/// An item after rewriting.
pub open spec fn item_after(i: ItemV) -> ItemV {
    match i {
        ItemV::Struct(n, a, f) => ItemV::Struct(n, struct_attrs(a), f),
        ItemV::Enum(n, a, vs) => {
            let d = derives_default(drop_path(a, path_prop()));
            ItemV::Enum(n, enum_attrs(a), vs.map_values(|v: VariantV| variant_after(v, d)))
        },
        other => other,
    }
}

/// What rewriting one item emits: the `Default` impl of an enum that derived
/// it and marked a plain variant, then the item itself.
pub open spec fn emitted(i: ItemV) -> Seq<ItemV> {
    match i {
        ItemV::Enum(n, a, vs) => if derives_default(drop_path(a, path_prop())) && default_variant(vs) is Some {
            seq![ItemV::DefaultImpl(n, default_variant(vs)->Some_0), item_after(i)]
        } else {
            seq![item_after(i)]
        },
        _ => seq![item_after(i)],
    }
}

pub open spec fn emitted_all(items: Seq<ItemV>) -> Seq<ItemV>
    decreases items.len(),
{
    if items.len() == 0 {
        seq![]
    } else {
        emitted_all(items.drop_last()) + emitted(items.last())
    }
}


// ---------------------------------------------------------------------------
// Rewriting.

fn copy_strs(v: &Vec<String>) -> (r: Vec<String>)
    ensures
        r@ == v@,
{
    let mut out: Vec<String> = Vec::new();
    let mut i: usize = 0;
    while i < v.len()
        invariant
            i <= v@.len(),
            out@ == v@.subrange(0, i as int),
        decreases v@.len() - i,
    {
        out.push(v[i].clone());
        i = i + 1;
        assert(out@ =~= v@.subrange(0, i as int));
    }
    assert(v@.subrange(0, i as int) =~= v@);
    out
}

impl Attr {
    pub fn copy(&self) -> (r: Attr)
        ensures
            attr_view(r) == attr_view(*self),
    {
        Attr { path: self.path.clone(), args: copy_strs(&self.args) }
    }
}

/// The attributes whose path is not `p`, in order.
pub fn without_path(attrs: &Vec<Attr>, p: &str) -> (r: Vec<Attr>)
    ensures
        attrs_view(r@) == drop_path(attrs_view(attrs@), p@),
{
    let ghost av = attrs_view(attrs@);
    let mut out: Vec<Attr> = Vec::new();
    let mut i: usize = 0;
    while i < attrs.len()
        invariant
            i <= attrs@.len(),
            av == attrs_view(attrs@),
            attrs_view(out@) == drop_path(av.subrange(0, i as int), p@),
        decreases attrs@.len() - i,
    {
        assert(av.subrange(0, i + 1).drop_last() =~= av.subrange(0, i as int));
        let a = &attrs[i];
        if !str_eq(&a.path, p) {
            let ghost before = out@;
            out.push(a.copy());
            assert(attrs_view(out@) =~= attrs_view(before).push(attr_view(attrs@[i as int])));
        }
        i = i + 1;
    }
    assert(av.subrange(0, i as int) =~= av);
    out
}

fn lit_attr(path: &str) -> (r: Attr)
    ensures
        r.path@ == path@,
        r.args@.len() == 0,
{
    Attr { path: String::from_str(path), args: Vec::new() }
}

/// The derives of the attributes, but `Default`, and whether one of them
/// was `Default`.
fn gather_derives(attrs: &Vec<Attr>) -> (r: (Vec<String>, bool))
    ensures
        strs_view(r.0@) == kept_derives(attrs_view(attrs@)),
        r.1 == derives_default(attrs_view(attrs@)),
{
    let ghost av = attrs_view(attrs@);
    let mut out: Vec<String> = Vec::new();
    let mut found = false;
    let mut i: usize = 0;
    proof {
        reveal_strlit("derive");
        reveal_strlit("Default");
        assert("derive"@ =~= path_derive());
        assert("Default"@ =~= derive_default());
    }
    while i < attrs.len()
        invariant
            i <= attrs@.len(),
            av == attrs_view(attrs@),
            "derive"@ == path_derive(),
            "Default"@ == derive_default(),
            strs_view(out@) == kept_derives(av.subrange(0, i as int)),
            found == derives_default(av.subrange(0, i as int)),
        decreases attrs@.len() - i,
    {
        assert(av.subrange(0, i + 1).drop_last() =~= av.subrange(0, i as int));
        let a = &attrs[i];
        if str_eq(&a.path, "derive") {
            let ghost args = strs_view(a.args@);
            let ghost base = strs_view(out@);
            let mut j: usize = 0;
            let mut here = false;
            while j < a.args.len()
                invariant
                    j <= a.args@.len(),
                    args == strs_view(a.args@),
                    "Default"@ == derive_default(),
                    strs_view(out@) == base + drop_str(args.subrange(0, j as int), derive_default()),
                    here == args.subrange(0, j as int).contains(derive_default()),
                decreases a.args@.len() - j,
            {
                assert(args.subrange(0, j + 1).drop_last() =~= args.subrange(0, j as int));
                if str_eq(&a.args[j], "Default") {
                    here = true;
                    assert(args.subrange(0, j + 1)[j as int] == derive_default());
                } else {
                    let ghost before = out@;
                    out.push(a.args[j].clone());
                    assert(strs_view(out@) =~= strs_view(before).push(args[j as int]));
                    assert(strs_view(out@) =~= base + drop_str(args.subrange(0, j + 1), derive_default()));
                    assert(args.subrange(0, j + 1).contains(derive_default()) ==> args.subrange(0, j as int).contains(derive_default())) by {
                        if args.subrange(0, j + 1).contains(derive_default()) {
                            let k = choose|k: int| 0 <= k < j + 1 && #[trigger] args.subrange(0, j + 1)[k] == derive_default();
                            assert(args.subrange(0, j as int)[k] == derive_default());
                        }
                    }
                }
                j = j + 1;
            }
            assert(args.subrange(0, j as int) =~= args);
            found = found || here;
        }
        i = i + 1;
    }
    assert(av.subrange(0, i as int) =~= av);
    (out, found)
}

fn has_path_exec(attrs: &Vec<Attr>, p: &str) -> (r: bool)
    ensures
        r == has_path(attrs_view(attrs@), p@),
{
    let mut i: usize = 0;
    while i < attrs.len()
        invariant
            i <= attrs@.len(),
            forall|k: int| 0 <= k < i ==> attrs_view(attrs@)[k].0 != p@,
        decreases attrs@.len() - i,
    {
        if str_eq(&attrs[i].path, p) {
            assert(attrs_view(attrs@)[i as int].0 == p@);
            return true;
        }
        i = i + 1;
    }
    false
}

fn copy_attrs(attrs: &Vec<Attr>) -> (r: Vec<Attr>)
    ensures
        attrs_view(r@) == attrs_view(attrs@),
{
    let mut out: Vec<Attr> = Vec::new();
    let mut i: usize = 0;
    while i < attrs.len()
        invariant
            i <= attrs@.len(),
            attrs_view(out@) == attrs_view(attrs@.subrange(0, i as int)),
        decreases attrs@.len() - i,
    {
        let ghost before = out@;
        out.push(attrs[i].copy());
        assert(attrs_view(out@) =~= attrs_view(before).push(attr_view(attrs@[i as int])));
        i = i + 1;
        assert(attrs_view(out@) =~= attrs_view(attrs@.subrange(0, i as int)));
    }
    assert(attrs@.subrange(0, i as int) =~= attrs@);
    out
}

fn rewrite_variant(v: &PropVariant, derived_default: bool) -> (r: PropVariant)
    ensures
        variant_view(r) == variant_after(variant_view(*v), derived_default),
{
    proof {
        reveal_strlit("default");
        assert("default"@ =~= path_default());
    }
    if !derived_default {
        PropVariant { name: v.name.clone(), has_fields: v.has_fields, attrs: copy_attrs(&v.attrs) }
    } else if v.has_fields {
        let mut attrs = copy_attrs(&v.attrs);
        let ghost before = attrs@;
        let mut a = lit_attr("live");
        let dd = String::from_str("Default::default()");
        proof {
            reveal_strlit("live");
            reveal_strlit("Default::default()");
            assert(a.path@ =~= live_default().0);
            assert(dd@ =~= live_default().1[0]);
        }
        a.args.push(dd);
        assert(strs_view(a.args@) =~= live_default().1);
        assert(attr_view(a) == live_default());
        attrs.push(a);
        assert(attrs_view(attrs@) =~= attrs_view(before).push(live_default()));
        PropVariant { name: v.name.clone(), has_fields: true, attrs }
    } else if has_path_exec(&v.attrs, "default") {
        let mut attrs = without_path(&v.attrs, "default");
        let ghost before = attrs@;
        let a = lit_attr("pick");
        proof {
            reveal_strlit("pick");
            assert(attr_view(a) =~= pick());
        }
        attrs.push(a);
        assert(attrs_view(attrs@) =~= attrs_view(before).push(pick()));
        PropVariant { name: v.name.clone(), has_fields: false, attrs }
    } else {
        PropVariant { name: v.name.clone(), has_fields: v.has_fields, attrs: copy_attrs(&v.attrs) }
    }
}

fn live_attrs(attrs: &mut Vec<Attr>, mut derives: Vec<String>)
    ensures
        attrs_view(final(attrs)@) == attrs_view(old(attrs)@).push(
            (path_derive(), strs_view(derives@) + live_derives()),
        ).push(live_ignore()),
{
    let ghost av = attrs_view(attrs@);
    let ghost dv = strs_view(derives@);
    let l1 = String::from_str("Live");
    let l2 = String::from_str("LiveHook");
    let l3 = String::from_str("LiveRegister");
    proof {
        reveal_strlit("Live");
        reveal_strlit("LiveHook");
        reveal_strlit("LiveRegister");
        reveal_strlit("derive");
        reveal_strlit("live_ignore");
        assert(l1@ =~= live_derives()[0]);
        assert(l2@ =~= live_derives()[1]);
        assert(l3@ =~= live_derives()[2]);
    }
    derives.push(l1);
    derives.push(l2);
    derives.push(l3);
    assert(strs_view(derives@) =~= dv + live_derives());
    let d = Attr { path: String::from_str("derive"), args: derives };
    assert(d.path@ =~= path_derive());
    let ig = lit_attr("live_ignore");
    assert(ig.path@ =~= live_ignore().0);
    assert(strs_view(ig.args@) =~= live_ignore().1);
    assert(attr_view(ig) == live_ignore());
    assert(attr_view(d) == (path_derive(), dv + live_derives()));
    attrs.push(d);
    attrs.push(ig);
    assert(attrs_view(attrs@) =~= av.push((path_derive(), dv + live_derives())).push(live_ignore()));
}

fn rewrite_struct(p: &PropStruct) -> (r: PropStruct)
    ensures
        item_view(PropItem::Struct(r)) == item_after(item_view(PropItem::Struct(*p))),
{
    proof {
        reveal_strlit("prop");
        assert("prop"@ =~= path_prop());
    }
    let mut attrs = without_path(&p.attrs, "prop");
    live_attrs(&mut attrs, Vec::new());
    assert(strs_view(Seq::<String>::empty()) + live_derives() =~= live_derives());
    PropStruct { name: p.name.clone(), attrs, fields: copy_fields(&p.fields) }
}

fn copy_fields(fs: &Vec<PropField>) -> (r: Vec<PropField>)
    ensures
        r@ == fs@,
{
    let mut out: Vec<PropField> = Vec::new();
    let mut i: usize = 0;
    while i < fs.len()
        invariant
            i <= fs@.len(),
            out@ == fs@.subrange(0, i as int),
        decreases fs@.len() - i,
    {
        out.push(fs[i].copy());
        i = i + 1;
        assert(out@ =~= fs@.subrange(0, i as int));
    }
    assert(fs@.subrange(0, i as int) =~= fs@);
    out
}

/// Rewrites a prop enum; gives also the name of the first plain variant
/// marked `default` when the enum derived `Default`.
fn rewrite_enum(e: &PropEnum) -> (r: (PropEnum, Option<String>))
    ensures
        item_view(PropItem::Enum(r.0)) == item_after(item_view(PropItem::Enum(*e))),
        ({
            let ev = item_view(PropItem::Enum(*e));
            match r.1 {
                Some(v) => emitted(ev) == seq![ItemV::DefaultImpl(e.name@, v@), item_after(ev)],
                None => emitted(ev) == seq![item_after(ev)],
            }
        }),
{
    proof {
        reveal_strlit("prop");
        reveal_strlit("derive");
        reveal_strlit("default");
        assert("prop"@ =~= path_prop());
        assert("derive"@ =~= path_derive());
        assert("default"@ =~= path_default());
    }
    let kept = without_path(&e.attrs, "prop");
    let (derives, derived_default) = gather_derives(&kept);
    let mut attrs = without_path(&kept, "derive");
    live_attrs(&mut attrs, derives);
    let ghost vv = e.variants@.map_values(|v: PropVariant| variant_view(v));
    let mut variants: Vec<PropVariant> = Vec::new();
    let mut first: Option<String> = None;
    let mut i: usize = 0;
    while i < e.variants.len()
        invariant
            i <= e.variants@.len(),
            vv == e.variants@.map_values(|v: PropVariant| variant_view(v)),
            "default"@ == path_default(),
            variants@.len() == i,
            forall|k: int|
                0 <= k < i ==> variant_view(#[trigger] variants@[k]) == variant_after(
                    vv[k],
                    derived_default,
                ),
            match first {
                Some(n) => default_variant(vv.subrange(0, i as int)) == Some(n@),
                None => default_variant(vv.subrange(0, i as int)) is None,
            },
        decreases e.variants@.len() - i,
    {
        assert(vv.subrange(0, i + 1).drop_last() =~= vv.subrange(0, i as int));
        let v = &e.variants[i];
        if first.is_none() && !v.has_fields && has_path_exec(&v.attrs, "default") {
            first = Some(v.name.clone());
        }
        variants.push(rewrite_variant(v, derived_default));
        i = i + 1;
    }
    assert(vv.subrange(0, i as int) =~= vv);
    let r = PropEnum { name: e.name.clone(), attrs, variants };
    assert(r.variants@.map_values(|v: PropVariant| variant_view(v)) =~= vv.map_values(
        |v: VariantV| variant_after(v, derived_default),
    ));
    if derived_default {
        (r, first)
    } else {
        (r, None)
    }
}

fn rewrite_item(i: &PropItem) -> (r: (PropItem, Option<OtherItem>))
    ensures
        item_view(r.0) == item_after(item_view(*i)),
        match r.1 {
            Some(o) => emitted(item_view(*i)) == seq![other_view(o), item_after(item_view(*i))],
            None => emitted(item_view(*i)) == seq![item_after(item_view(*i))],
        },
{
    match i {
        PropItem::Struct(p) => (PropItem::Struct(rewrite_struct(p)), None),
        PropItem::Enum(e) => {
            let (r, first) = rewrite_enum(e);
            match first {
                Some(v) => (PropItem::Enum(r), Some(OtherItem::DefaultImpl { enum_name: e.name.clone(), variant: v })),
                None => (PropItem::Enum(r), None),
            }
        },
    }
}

impl PropLzVisitor {
    /// Rewrites every prop item in place for the framework's derives, and
    /// emits each rewritten item into `others`, preceded, for an enum that
    /// derived `Default`, by the `Default` impl of its first plain variant
    /// marked `default`.
    pub fn props(props: &mut Vec<PropItem>, others: &mut Vec<OtherItem>)
        ensures
            final(props)@.map_values(|i: PropItem| item_view(i)) == old(props)@.map_values(
                |i: PropItem| item_after(item_view(i)),
            ),
            final(others)@.map_values(|o: OtherItem| other_view(o)) == old(others)@.map_values(
                |o: OtherItem| other_view(o),
            ) + emitted_all(old(props)@.map_values(|i: PropItem| item_view(i))),
    {
        let ghost ps0 = props@;
        let ghost iv = ps0.map_values(|i: PropItem| item_view(i));
        let ghost os0 = others@.map_values(|o: OtherItem| other_view(o));
        let n = props.len();
        let mut i: usize = 0;
        while i < n
            invariant
                n == props@.len() == ps0.len(),
                i <= n,
                iv == ps0.map_values(|i: PropItem| item_view(i)),
                forall|k: int| i <= k < n ==> #[trigger] props@[k] == ps0[k],
                forall|k: int| 0 <= k < i ==> item_view(#[trigger] props@[k]) == item_after(iv[k]),
                others@.map_values(|o: OtherItem| other_view(o)) == os0 + emitted_all(iv.subrange(0, i as int)),
            decreases n - i,
        {
            assert(iv.subrange(0, i + 1).drop_last() =~= iv.subrange(0, i as int));
            let (rewritten, extra) = rewrite_item(&props[i]);
            let (copy, _) = rewrite_item(&props[i]);
            let ghost before = others@.map_values(|o: OtherItem| other_view(o));
            match extra {
                Some(o) => {
                    others.push(o);
                },
                None => {},
            }
            others.push(OtherItem::Prop(copy));
            assert(others@.map_values(|o: OtherItem| other_view(o)) =~= before + emitted(iv[i as int]));
            props.set(i, rewritten);
            i = i + 1;
        }
        assert(iv.subrange(0, i as int) =~= iv);
        assert(props@.map_values(|i: PropItem| item_view(i)) =~= ps0.map_values(
            |i: PropItem| item_after(item_view(i)),
        ));
    }

    /// Rewrites the prop items of a script that declares no component.
    pub fn visit_pure(props: &mut Option<Vec<PropItem>>, others: &mut Vec<OtherItem>)
        ensures
            match *old(props) {
                Some(p) => {
                    &&& *final(props) is Some
                    &&& final(props)->Some_0@.map_values(|i: PropItem| item_view(i)) == p@.map_values(
                        |i: PropItem| item_after(item_view(i)),
                    )
                    &&& final(others)@.map_values(|o: OtherItem| other_view(o)) == old(others)@.map_values(
                        |o: OtherItem| other_view(o),
                    ) + emitted_all(p@.map_values(|i: PropItem| item_view(i)))
                },
                None => *final(props) is None && final(others)@ == old(others)@,
            },
    {
        match props {
            Some(p) => Self::props(p, others),
            None => {},
        }
    }
}

fn str_eq(s: &String, lit: &str) -> (r: bool)
    ensures
        r == (s@ == lit@),
{
    let t = String::from_str(lit);
    *s == t
}

} // verus!
