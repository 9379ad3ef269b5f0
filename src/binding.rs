//! The two-way binding synthesizer: which prop-struct fields are bound to
//! widgets, the events that write them back, and the initialization of a
//! component from its prop struct.
use vstd::prelude::*;
use crate::prop_items::{Attr, attrs_view, drop_path, without_path};
use crate::props::{Prop, find_prop, find_prop_index, insert_prop, insert_prop_exec};
use crate::widget_type::{Catalog, find_builtin, find_builtin_exec};

verus! {

/// A field of a prop struct: its name and its type, as text.
#[derive(Debug)]
pub struct PropField {
    pub name: String,
    pub ty: String,
}

impl PropField {
    pub fn copy(&self) -> (r: PropField)
        ensures
            r == *self,
    {
        PropField { name: self.name.clone(), ty: self.ty.clone() }
    }
}

/// A prop struct: its name, its attributes, and its fields.
#[derive(Debug)]
pub struct PropStruct {
    pub name: String,
    pub attrs: Vec<Attr>,
    pub fields: Vec<PropField>,
}

/// A widget instance bound to a field: its id, its tag, and the widget
/// property that holds the field.
#[derive(Debug)]
pub struct PropWidget {
    pub id: String,
    pub name: String,
    pub prop: String,
}

/// The registry entry of one field: every widget bound to it.
#[derive(Debug)]
pub struct FieldBinds {
    pub field: String,
    pub widgets: Vec<PropWidget>,
}

/// A widget that the event handler must be able to reach.
#[derive(Debug)]
pub struct CRef {
    pub id: String,
    pub name: String,
}

/// A write-back: when `event` fires on widget `id`, its `prop` is written to
/// `field`.
#[derive(Debug)]
pub struct CallbackStmt {
    pub id: String,
    pub field: String,
    pub prop: String,
    pub event: String,
}

/// The event handling that the bindings need; each list holds no repeats.
#[derive(Debug)]
pub struct HandleEvent {
    pub c_refs: Vec<CRef>,
    pub callbacks: Vec<CallbackStmt>,
}

/// A statement of the hook that runs after a component is created.
#[derive(Debug)]
pub enum HookStmt {
    /// Build the prop struct's default value, of the named type.
    InitDeref(String),
    /// Write the field through its setter, so that bound widgets follow.
    SetField(String),
    /// Assign the field directly.
    AssignField(String),
    /// Fill the two-way binding pool once the component is applied.
    InitTwbPool,
}

/// The component built from a prop struct.
#[derive(Debug)]
pub struct LiveComponent {
    pub name: String,
    pub fields: Vec<PropField>,
    /// The getter/setter pair of each field registered for binding.
    pub accessors: Vec<Accessor>,
    /// The component carries a two-way binding pool.
    pub twb_pool: bool,
}

/// The getter and setter that a bound field gets.
#[derive(Debug)]
pub struct Accessor {
    pub field: String,
    pub ty: String,
    pub getter: String,
    pub setter: String,
}

/// The two-way binding pool: each bound field (`name`) with its type (`value`).
#[derive(Debug)]
pub struct TwbPool {
    pub entries: Vec<Prop>,
}

/// Resolves the props of a component and its two-way bindings.
#[derive(Debug)]
pub struct PropLzVisitor;

// ---------------------------------------------------------------------------
// The model.

pub open spec fn find_binds(bs: Seq<FieldBinds>, field: Seq<char>) -> Option<int>
    decreases bs.len(),
{
    if bs.len() == 0 {
        None
    } else {
        match find_binds(bs.drop_last(), field) {
            Some(i) => Some(i),
            None => if bs.last().field@ == field {
                Some(bs.len() - 1)
            } else {
                None
            },
        }
    }
}

/// The widgets bound to a field.
pub open spec fn widgets_of(bs: Seq<FieldBinds>, field: Seq<char>) -> Seq<PropWidget> {
    match find_binds(bs, field) {
        Some(i) => bs[i].widgets@,
        None => seq![],
    }
}

/// The event of a builtin widget that writes this property back.
pub open spec fn twb_event(catalog: Catalog, name: Seq<char>, prop: Seq<char>) -> Option<String> {
    match find_builtin(catalog.widgets@, name) {
        Some(b) => match find_prop(catalog.widgets@[b].events@, prop) {
            Some(i) => Some(catalog.widgets@[b].events@[i].value),
            None => None,
        },
        None => None,
    }
}

pub open spec fn has_cref(s: Seq<CRef>, x: CRef) -> bool {
    exists|i: int| 0 <= i < s.len() && s[i].id@ == x.id@ && s[i].name@ == x.name@
}

pub open spec fn has_callback(s: Seq<CallbackStmt>, x: CallbackStmt) -> bool {
    exists|i: int|
        0 <= i < s.len() && s[i].id@ == x.id@ && s[i].field@ == x.field@ && s[i].prop@ == x.prop@
            && s[i].event@ == x.event@
}

/// Adds a widget reference unless an equal one is there.
pub open spec fn cref_insert(s: Seq<CRef>, x: CRef) -> Seq<CRef> {
    if has_cref(s, x) {
        s
    } else {
        s.push(x)
    }
}

/// Adds a write-back unless an equal one is there.
pub open spec fn callback_insert(s: Seq<CallbackStmt>, x: CallbackStmt) -> Seq<CallbackStmt> {
    if has_callback(s, x) {
        s
    } else {
        s.push(x)
    }
}

/// The pool and event handling after the widgets bound to one field.
pub open spec fn wire_widgets(
    st: (Seq<Prop>, Seq<CRef>, Seq<CallbackStmt>),
    ws: Seq<PropWidget>,
    field: String,
    ty: String,
    catalog: Catalog,
) -> (Seq<Prop>, Seq<CRef>, Seq<CallbackStmt>)
    decreases ws.len(),
{
    if ws.len() == 0 {
        st
    } else {
        let (pool, refs, cbs) = wire_widgets(st, ws.drop_last(), field, ty, catalog);
        let w = ws.last();
        (
            insert_prop(pool, Prop { name: field, value: ty }),
            cref_insert(refs, CRef { id: w.id, name: w.name }),
            match twb_event(catalog, w.name@, w.prop@) {
                Some(e) => callback_insert(cbs, CallbackStmt { id: w.id, field: field, prop: w.prop, event: e }),
                None => cbs,
            },
        )
    }
}

/// The pool and event handling after every field, in order.
pub open spec fn wire_fields(
    st: (Seq<Prop>, Seq<CRef>, Seq<CallbackStmt>),
    fields: Seq<PropField>,
    bs: Seq<FieldBinds>,
    catalog: Catalog,
) -> (Seq<Prop>, Seq<CRef>, Seq<CallbackStmt>)
    decreases fields.len(),
{
    if fields.len() == 0 {
        st
    } else {
        let f = fields.last();
        wire_widgets(wire_fields(st, fields.drop_last(), bs, catalog), widgets_of(bs, f.name@), f.name, f.ty, catalog)
    }
}

/// A field is bound when at least one widget is registered for it.
pub open spec fn is_bound(bs: Seq<FieldBinds>, field: Seq<char>) -> bool {
    widgets_of(bs, field).len() > 0
}

/// The hook statements that initialize a component from its prop struct.
pub open spec fn hooks_for(deref: String, fields: Seq<PropField>, binds: Option<Seq<FieldBinds>>) -> Seq<HookStmt>
    decreases fields.len(),
{
    if fields.len() == 0 {
        seq![]
    } else {
        let rest = if fields.len() == 1 {
            seq![HookStmt::InitDeref(deref)]
        } else {
            hooks_for(deref, fields.drop_last(), binds)
        };
        let f = fields.last();
        rest.push(
            match binds {
                Some(bs) => if find_binds(bs, f.name@) is Some {
                    HookStmt::SetField(f.name)
                } else {
                    HookStmt::AssignField(f.name)
                },
                None => HookStmt::AssignField(f.name),
            },
        )
    }
}

pub open spec fn accessor_view(a: Accessor) -> (Seq<char>, Seq<char>, Seq<char>, Seq<char>) {
    (a.field@, a.ty@, a.getter@, a.setter@)
}

pub open spec fn get_prefix() -> Seq<char> {
    seq!['g', 'e', 't', '_']
}

pub open spec fn set_prefix() -> Seq<char> {
    seq!['s', 'e', 't', '_']
}

/// The accessor pairs of the fields that appear in the registry, in order:
/// `get_<field>` and `set_<field>`.
pub open spec fn accessors_for(fields: Seq<PropField>, bs: Seq<FieldBinds>) -> Seq<
    (Seq<char>, Seq<char>, Seq<char>, Seq<char>),
>
    decreases fields.len(),
{
    if fields.len() == 0 {
        seq![]
    } else {
        let rest = accessors_for(fields.drop_last(), bs);
        let f = fields.last();
        if find_binds(bs, f.name@) is Some {
            rest.push((f.name@, f.ty@, get_prefix() + f.name@, set_prefix() + f.name@))
        } else {
            rest
        }
    }
}

pub open spec fn component_attr() -> Seq<char> {
    seq!['c', 'o', 'm', 'p', 'o', 'n', 'e', 'n', 't']
}

pub open spec fn deref_suffix() -> Seq<char> {
    seq!['D', 'e', 'r', 'e', 'f']
}


// ---------------------------------------------------------------------------
// The synthesis.

proof fn lemma_prefix_find_binds(bs: Seq<FieldBinds>, field: Seq<char>, n: int)
    requires
        0 < n <= bs.len(),
        find_binds(bs.subrange(0, n), field) is Some,
    ensures
        find_binds(bs, field) == find_binds(bs.subrange(0, n), field),
    decreases bs.len(),
{
    if n < bs.len() {
        assert(bs.drop_last().subrange(0, n) =~= bs.subrange(0, n));
        lemma_prefix_find_binds(bs.drop_last(), field, n);
    } else {
        assert(bs.subrange(0, n) =~= bs);
    }
}

proof fn lemma_find_binds_bounds(bs: Seq<FieldBinds>, field: Seq<char>)
    ensures
        match find_binds(bs, field) {
            Some(i) => 0 <= i < bs.len(),
            None => true,
        },
    decreases bs.len(),
{
    if bs.len() > 0 {
        lemma_find_binds_bounds(bs.drop_last(), field);
    }
}

fn find_binds_exec(bs: &Vec<FieldBinds>, field: &String) -> (r: Option<usize>)
    ensures
        match r {
            Some(i) => find_binds(bs@, field@) == Some(i as int) && i < bs@.len(),
            None => find_binds(bs@, field@) is None,
        },
{
    let mut i: usize = 0;
    while i < bs.len()
        invariant
            i <= bs@.len(),
            find_binds(bs@.subrange(0, i as int), field@) is None,
        decreases bs@.len() - i,
    {
        assert(bs@.subrange(0, i + 1).drop_last() =~= bs@.subrange(0, i as int));
        if bs[i].field == *field {
            proof {
                lemma_prefix_find_binds(bs@, field@, i as int + 1);
            }
            return Some(i);
        }
        i = i + 1;
    }
    assert(bs@.subrange(0, i as int) =~= bs@);
    None
}

/// The event that writes a builtin widget's property back, if any.
pub fn twb_event_exec(catalog: &Catalog, name: &String, prop: &String) -> (r: Option<String>)
    ensures
        r == twb_event(*catalog, name@, prop@),
{
    match find_builtin_exec(catalog, name) {
        Some(b) => {
            proof {
                crate::widget_type::lemma_find_builtin(catalog.widgets@, name@);
                crate::props::lemma_find_prop_bounds(catalog.widgets@[b as int].events@, prop@);
            }
            match find_prop_index(&catalog.widgets[b].events, prop) {
                Some(i) => Some(catalog.widgets[b].events[i].value.clone()),
                None => None,
            }
        },
        None => None,
    }
}

fn cref_insert_exec(s: &mut Vec<CRef>, x: CRef)
    ensures
        final(s)@ == cref_insert(old(s)@, x),
{
    let mut i: usize = 0;
    while i < s.len()
        invariant
            i <= s@.len(),
            forall|k: int| 0 <= k < i ==> !(s@[k].id@ == x.id@ && s@[k].name@ == x.name@),
        decreases s@.len() - i,
    {
        if s[i].id == x.id && s[i].name == x.name {
            return;
        }
        i = i + 1;
    }
    s.push(x);
}

fn callback_insert_exec(s: &mut Vec<CallbackStmt>, x: CallbackStmt)
    ensures
        final(s)@ == callback_insert(old(s)@, x),
{
    let mut i: usize = 0;
    while i < s.len()
        invariant
            i <= s@.len(),
            forall|k: int|
                0 <= k < i ==> !(s@[k].id@ == x.id@ && s@[k].field@ == x.field@ && s@[k].prop@
                    == x.prop@ && s@[k].event@ == x.event@),
        decreases s@.len() - i,
    {
        if s[i].id == x.id && s[i].field == x.field && s[i].prop == x.prop && s[i].event == x.event {
            return;
        }
        i = i + 1;
    }
    s.push(x);
}

impl PropLzVisitor {
    /// Wires every widget bound to `field`: the field enters the pool with
    /// its type, each widget becomes reachable from the event handler, and
    /// each widget whose property has a write-back event gets a callback.
    pub fn handle_two_way_binding(
        twb_poll: &mut Vec<Prop>,
        binds: &Vec<FieldBinds>,
        field: &String,
        ty: &String,
        handle_event: &mut HandleEvent,
        catalog: &Catalog,
    )
        ensures
            (final(twb_poll)@, final(handle_event).c_refs@, final(handle_event).callbacks@)
                == wire_widgets(
                (old(twb_poll)@, old(handle_event).c_refs@, old(handle_event).callbacks@),
                widgets_of(binds@, field@),
                *field,
                *ty,
                *catalog,
            ),
    {
        proof {
            lemma_find_binds_bounds(binds@, field@);
        }
        let ghost st0 = (twb_poll@, handle_event.c_refs@, handle_event.callbacks@);
        match find_binds_exec(binds, field) {
            None => {},
            Some(b) => {
                let widgets = &binds[b].widgets;
                let mut i: usize = 0;
                while i < widgets.len()
                    invariant
                        i <= widgets@.len(),
                        (twb_poll@, handle_event.c_refs@, handle_event.callbacks@) == wire_widgets(
                            st0,
                            widgets@.subrange(0, i as int),
                            *field,
                            *ty,
                            *catalog,
                        ),
                    decreases widgets@.len() - i,
                {
                    assert(widgets@.subrange(0, i + 1).drop_last() =~= widgets@.subrange(0, i as int));
                    let w = &widgets[i];
                    insert_prop_exec(twb_poll, Prop { name: field.clone(), value: ty.clone() });
                    cref_insert_exec(&mut handle_event.c_refs, CRef { id: w.id.clone(), name: w.name.clone() });
                    match twb_event_exec(catalog, &w.name, &w.prop) {
                        Some(event) => {
                            callback_insert_exec(
                                &mut handle_event.callbacks,
                                CallbackStmt { id: w.id.clone(), field: field.clone(), prop: w.prop.clone(), event },
                            );
                        },
                        None => {},
                    }
                    i = i + 1;
                }
                assert(widgets@.subrange(0, i as int) =~= widgets@);
            },
        }
    }

    /// Synthesizes the two-way bindings of a prop struct's fields. The pool
    /// holds every bound field with its type; where no field is bound the
    /// pool is absent, not empty, and the component carries none.
    pub fn two_way_binding(
        live_component: &mut LiveComponent,
        deref_prop: &PropStruct,
        binds: &Vec<FieldBinds>,
        hooks: &mut Vec<HookStmt>,
        handle_event: &mut HandleEvent,
        catalog: &Catalog,
    ) -> (r: Option<TwbPool>)
        ensures
            final(live_component).accessors@.map_values(|a: Accessor| accessor_view(a))
                == old(live_component).accessors@.map_values(|a: Accessor| accessor_view(a))
                + accessors_for(deref_prop.fields@, binds@),
            final(hooks)@ == if r is Some {
                old(hooks)@.push(HookStmt::InitTwbPool)
            } else {
                old(hooks)@
            },
            ({
                let st = wire_fields(
                    (seq![], old(handle_event).c_refs@, old(handle_event).callbacks@),
                    deref_prop.fields@,
                    binds@,
                    *catalog,
                );
                &&& final(handle_event).c_refs@ == st.1
                &&& final(handle_event).callbacks@ == st.2
                &&& match r {
                    Some(p) => p.entries@ == st.0 && st.0.len() > 0,
                    None => st.0.len() == 0,
                }
            }),
            final(live_component).name == old(live_component).name,
            final(live_component).fields@ == old(live_component).fields@,
            final(live_component).twb_pool == (r is Some || old(live_component).twb_pool),
    {
        let ghost st0 = (Seq::<Prop>::empty(), handle_event.c_refs@, handle_event.callbacks@);
        let mut twb_poll: Vec<Prop> = Vec::new();
        let fields = &deref_prop.fields;
        let mut i: usize = 0;
        while i < fields.len()
            invariant
                i <= fields@.len(),
                (twb_poll@, handle_event.c_refs@, handle_event.callbacks@) == wire_fields(
                    st0,
                    fields@.subrange(0, i as int),
                    binds@,
                    *catalog,
                ),
            decreases fields@.len() - i,
        {
            assert(fields@.subrange(0, i + 1).drop_last() =~= fields@.subrange(0, i as int));
            Self::handle_two_way_binding(&mut twb_poll, binds, &fields[i].name, &fields[i].ty, handle_event, catalog);
            i = i + 1;
        }
        assert(fields@.subrange(0, i as int) =~= fields@);
        Self::add_accessors(live_component, fields, binds);
        if twb_poll.len() == 0 {
            None
        } else {
            hooks.push(HookStmt::InitTwbPool);
            Self::append_twb_pool(live_component);
            Some(TwbPool { entries: twb_poll })
        }
    }

    /// Gives each field that appears in the registry its getter and setter.
    fn add_accessors(live_component: &mut LiveComponent, fields: &Vec<PropField>, binds: &Vec<FieldBinds>)
        ensures
            final(live_component).accessors@.map_values(|a: Accessor| accessor_view(a))
                == old(live_component).accessors@.map_values(|a: Accessor| accessor_view(a))
                + accessors_for(fields@, binds@),
            final(live_component).name == old(live_component).name,
            final(live_component).fields@ == old(live_component).fields@,
            final(live_component).twb_pool == old(live_component).twb_pool,
    {
        let ghost a0 = live_component.accessors@.map_values(|a: Accessor| accessor_view(a));
        let mut i: usize = 0;
        proof {
            reveal_strlit("get_");
            reveal_strlit("set_");
        }
        while i < fields.len()
            invariant
                i <= fields@.len(),
                "get_"@ == get_prefix(),
                "set_"@ == set_prefix(),
                live_component.name == old(live_component).name,
                live_component.fields@ == old(live_component).fields@,
                live_component.twb_pool == old(live_component).twb_pool,
                live_component.accessors@.map_values(|a: Accessor| accessor_view(a)) == a0
                    + accessors_for(fields@.subrange(0, i as int), binds@),
            decreases fields@.len() - i,
        {
            assert(fields@.subrange(0, i + 1).drop_last() =~= fields@.subrange(0, i as int));
            let f = &fields[i];
            if find_binds_exec(binds, &f.name).is_some() {
                let mut getter = String::from_str("get_");
                getter.append(f.name.as_str());
                let mut setter = String::from_str("set_");
                setter.append(f.name.as_str());
                let ghost before = live_component.accessors@;
                live_component.accessors.push(Accessor { field: f.name.clone(), ty: f.ty.clone(), getter, setter });
                assert(live_component.accessors@.map_values(|a: Accessor| accessor_view(a)) =~= before.map_values(
                    |a: Accessor| accessor_view(a),
                ).push((f.name@, f.ty@, get_prefix() + f.name@, set_prefix() + f.name@)));
            }
            i = i + 1;
        }
        assert(fields@.subrange(0, i as int) =~= fields@);
    }

    /// Gives the component the field that holds its two-way binding pool.
    pub fn append_twb_pool(live_component: &mut LiveComponent)
        ensures
            final(live_component).name == old(live_component).name,
            final(live_component).fields@ == old(live_component).fields@,
            final(live_component).accessors == old(live_component).accessors,
            final(live_component).twb_pool,
    {
        live_component.twb_pool = true;
    }

    /// Turns a prop struct into its deref struct and the component built
    /// from it: the struct is renamed with a `Deref` suffix and loses its
    /// `component` attribute; when it has fields, the creation hook builds
    /// its default value and then initializes each field: through its setter
    /// when the field is registered for binding, by plain assignment
    /// otherwise.
    pub fn instance(
        prop: &mut PropStruct,
        hooks: &mut Vec<HookStmt>,
        binds: Option<&Vec<FieldBinds>>,
    ) -> (r: LiveComponent)
        ensures
            r.name == old(prop).name,
            r.fields@ == old(prop).fields@,
            r.accessors@.len() == 0,
            !r.twb_pool,
            final(prop).name@ == old(prop).name@ + deref_suffix(),
            attrs_view(final(prop).attrs@) == drop_path(attrs_view(old(prop).attrs@), component_attr()),
            final(prop).fields@ == old(prop).fields@,
            final(hooks)@ == old(hooks)@ + hooks_for(
                final(prop).name,
                old(prop).fields@,
                match binds {
                    Some(b) => Some(b@),
                    None => None,
                },
            ),
    {
        let mut live_component = LiveComponent { name: prop.name.clone(), fields: Vec::new(), accessors: Vec::new(), twb_pool: false };
        let mut deref = prop.name.clone();
        deref.append("Deref");
        proof {
            reveal_strlit("Deref");
            assert("Deref"@ =~= deref_suffix());
        }
        prop.name = deref;
        proof {
            reveal_strlit("component");
            assert("component"@ =~= component_attr());
        }
        let attrs = without_path(&prop.attrs, "component");
        prop.attrs = attrs;
        let ghost bs = match binds {
            Some(b) => Some(b@),
            None => None,
        };
        let ghost h0 = hooks@;
        let n = prop.fields.len();
        let mut i: usize = 0;
        while i < n
            invariant
                n == prop.fields@.len(),
                i <= n,
                live_component.name == old(prop).name,
                live_component.accessors@.len() == 0,
                !live_component.twb_pool,
                live_component.fields@ == prop.fields@.subrange(0, i as int),
                hooks@ == h0 + hooks_for(prop.name, prop.fields@.subrange(0, i as int), bs),
                bs == match binds {
                    Some(b) => Some(b@),
                    None => None::<Seq<FieldBinds>>,
                },
            decreases n - i,
        {
            assert(prop.fields@.subrange(0, i + 1).drop_last() =~= prop.fields@.subrange(0, i as int));
            if i == 0 {
                hooks.push(HookStmt::InitDeref(prop.name.clone()));
            }
            let f = &prop.fields[i];
            live_component.fields.push(f.copy());
            let hook = match binds {
                Some(b) => match find_binds_exec(b, &f.name) {
                    Some(_) => HookStmt::SetField(f.name.clone()),
                    None => HookStmt::AssignField(f.name.clone()),
                },
                None => HookStmt::AssignField(f.name.clone()),
            };
            hooks.push(hook);
            i = i + 1;
            assert(live_component.fields@ =~= prop.fields@.subrange(0, i as int));
            assert(hooks@ =~= h0 + hooks_for(prop.name, prop.fields@.subrange(0, i as int), bs));
        }
        assert(prop.fields@.subrange(0, i as int) =~= prop.fields@);
        assert(hooks@ =~= old(hooks)@ + hooks_for(prop.name, old(prop).fields@, bs));
        live_component
    }

    /// Resolves a component's prop struct: builds its component and, when a
    /// binding registry is given, its two-way bindings.
    pub fn visit(
        component: &mut PropStruct,
        hooks: &mut Vec<HookStmt>,
        binds: Option<&Vec<FieldBinds>>,
        handle_event: &mut HandleEvent,
        catalog: &Catalog,
    ) -> (r: (Option<TwbPool>, LiveComponent))
        ensures
            r.1.name == old(component).name,
            r.1.fields@ == old(component).fields@,
            final(component).name@ == old(component).name@ + deref_suffix(),
            final(component).fields@ == old(component).fields@,
            ({
                let created = old(hooks)@ + hooks_for(
                    final(component).name,
                    old(component).fields@,
                    match binds {
                        Some(b) => Some(b@),
                        None => None,
                    },
                );
                final(hooks)@ == if r.0 is Some {
                    created.push(HookStmt::InitTwbPool)
                } else {
                    created
                }
            }),
            r.1.twb_pool == (r.0 is Some),
            r.1.accessors@.map_values(|a: Accessor| accessor_view(a)) == match binds {
                Some(b) => accessors_for(old(component).fields@, b@),
                None => seq![],
            },
            match binds {
                None => {
                    &&& r.0 is None
                    &&& final(handle_event).c_refs@ == old(handle_event).c_refs@
                    &&& final(handle_event).callbacks@ == old(handle_event).callbacks@
                },
                Some(b) => {
                    let st = wire_fields(
                        (seq![], old(handle_event).c_refs@, old(handle_event).callbacks@),
                        old(component).fields@,
                        b@,
                        *catalog,
                    );
                    &&& final(handle_event).c_refs@ == st.1
                    &&& final(handle_event).callbacks@ == st.2
                    &&& match r.0 {
                        Some(p) => p.entries@ == st.0 && st.0.len() > 0,
                        None => st.0.len() == 0,
                    }
                },
            },
    {
        let mut live_component = Self::instance(component, hooks, binds);
        assert(live_component.accessors@.map_values(|a: Accessor| accessor_view(a)) =~= seq![]);
        let twb = match binds {
            Some(b) => Self::two_way_binding(&mut live_component, component, b, hooks, handle_event, catalog),
            None => None,
        };
        (twb, live_component)
    }
}

} // verus!
