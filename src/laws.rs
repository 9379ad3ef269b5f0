//! Laws of resolution and binding synthesis, proved over the models that the
//! functions' contracts use.
use vstd::prelude::*;
use crate::binding::{FieldBinds, PropField, PropWidget, is_bound, wire_fields, wire_widgets, widgets_of, CRef, CallbackStmt};
use crate::error::BuildError;
use crate::props::{Prop, insert_prop, lemma_find_prop_bounds};
use crate::role::Role;
use crate::style::{IdClass, Style};
use crate::template::{
    TemplateNode, WidgetTemplate, child_chain, is_for_node, lemma_positions_bounds,
    local_error, node_ok, positions, role_tree, widget_body, PoolSlot, pool_extends, pooled,
    pooled_children, pool_slot_ok,
};
use crate::widget_type::Catalog;

verus! {

/// A node without a sugar marker resolves to the normal role.
pub proof fn law_plain_node_is_normal(n: TemplateNode, r: Role, index: int)
    requires
        n.sugar is Absent,
        role_tree(r, n, index),
    ensures
        r is Normal,
{
}

/// A repetition node with an id resolves to a repetition role that records
/// its id, tag and position.
pub proof fn law_repetition_with_id_is_for(n: TemplateNode, r: Role, index: int)
    requires
        is_for_node(n),
        n.id is Some,
        role_tree(r, n, index),
    ensures
        r is For,
        r->For_id == n.id->Some_0,
        r->For_name == n.name,
        r->For_origin_pos == index,
{
}

/// A repetition node without an id (and with its parent linkage) fails with
/// the error that asks for an id.
pub proof fn law_repetition_without_id_fails(
    n: TemplateNode,
    styles: Option<Style>,
    catalog: Catalog,
    chain: Seq<IdClass>,
)
    requires
        is_for_node(n),
        n.id is None,
        n.parent is Some,
    ensures
        local_error(n) == Some(BuildError::ForNeedsId),
        !node_ok(n, styles, catalog, chain),
{
}

/// A node with callbacks fails to resolve when it has no id, and when it
/// forwards its properties, whatever its id.
pub proof fn law_callbacks_need_id_and_no_as_prop(
    n: TemplateNode,
    styles: Option<Style>,
    catalog: Catalog,
    chain: Seq<IdClass>,
)
    requires
        n.callbacks@.len() > 0,
        n.id is None || n.as_prop,
    ensures
        local_error(n) is Some,
        !node_ok(n, styles, catalog, chain),
{
}

proof fn lemma_positions_increasing(cs: Seq<TemplateNode>, virt: bool)
    ensures
        forall|j: int, k: int|
            0 <= j < k < positions(cs, virt).len() ==> positions(cs, virt)[j] < positions(
                cs,
                virt,
            )[k],
        positions(cs, true).len() + positions(cs, false).len() == cs.len(),
    decreases cs.len(),
{
    if cs.len() > 0 {
        lemma_positions_increasing(cs.drop_last(), virt);
        lemma_positions_bounds(cs.drop_last(), virt);
    }
}

/// Children keep their declaration order: the rendered children come from
/// increasing positions, the child roles carry increasing declaration
/// positions, and together the two account for every child.
pub proof fn law_child_order(
    w: WidgetTemplate,
    r: Role,
    n: TemplateNode,
    index: int,
    styles: Option<Style>,
    catalog: Catalog,
    chain: Seq<IdClass>,
)
    requires
        widget_body(w, n, styles, catalog, chain),
        role_tree(r, n, index),
    ensures
        positions(n.children@, true).len() + positions(n.children@, false).len() == n.children@.len(),
        forall|j: int, k: int|
            0 <= j < k < w.children@.len() ==> positions(n.children@, false)[j] < positions(
                n.children@,
                false,
            )[k],
        r is For ==> forall|j: int, k: int|
            0 <= j < k < r->For_children@.len() ==> (#[trigger] r->For_children@[j])->For_origin_pos
                < (#[trigger] r->For_children@[k])->For_origin_pos,
{
    lemma_positions_increasing(n.children@, false);
    lemma_positions_increasing(n.children@, true);
    lemma_positions_bounds(n.children@, true);
    if r is For {
        let vs = positions(n.children@, true);
        let cs = r->For_children@;
        assert forall|j: int| 0 <= j < cs.len() implies (#[trigger] cs[j]) is For && cs[j]->For_origin_pos
            == vs[j] by {
            assert(role_tree(cs[j], n.children@[vs[j]], vs[j]));
        }
    }
}

/// Virtual children never appear among the rendered children; under a
/// repetition parent each of them appears, in order, as a child role.
pub proof fn law_virtual_children_only_in_roles(
    w: WidgetTemplate,
    r: Role,
    n: TemplateNode,
    index: int,
    styles: Option<Style>,
    catalog: Catalog,
    chain: Seq<IdClass>,
)
    requires
        widget_body(w, n, styles, catalog, chain),
        role_tree(r, n, index),
    ensures
        forall|j: int|
            0 <= j < w.children@.len() ==> !is_for_node(
                n.children@[#[trigger] positions(n.children@, false)[j]],
            ) && w.children@[j].role is Normal,
        r is For ==> {
            let vs = positions(n.children@, true);
            &&& r->For_children@.len() == vs.len()
            &&& forall|j: int|
                0 <= j < vs.len() ==> {
                    &&& is_for_node(n.children@[#[trigger] vs[j]])
                    &&& r->For_children@[j] is For
                    &&& r->For_children@[j]->For_id == n.children@[vs[j]].id->Some_0
                }
        },
{
    lemma_positions_bounds(n.children@, true);
    lemma_positions_bounds(n.children@, false);
    if r is For {
        let vs = positions(n.children@, true);
        let cs = r->For_children@;
        assert forall|j: int| 0 <= j < vs.len() implies {
            &&& is_for_node(n.children@[#[trigger] vs[j]])
            &&& cs[j] is For
            &&& cs[j]->For_id == n.children@[vs[j]].id->Some_0
        } by {
            assert(role_tree(cs[j], n.children@[vs[j]], vs[j]));
        }
    }
}

/// Two widgets agree in every field but their role, all the way down.
pub open spec fn same_structure(a: WidgetTemplate, b: WidgetTemplate) -> bool
    decreases a,
{
    &&& a.id == b.id
    &&& a.is_root == b.is_root
    &&& a.as_prop == b.as_prop
    &&& a.is_static == b.is_static
    &&& a.ty.kind == b.ty.kind
    &&& a.ty.name == b.ty.name
    &&& a.ty.props@ == b.ty.props@
    &&& a.ty.root == b.ty.root
    &&& a.binds@ == b.binds@
    &&& (a.role is Normal <==> b.role is Normal)
    &&& a.children@.len() == b.children@.len()
    &&& forall|i: int| 0 <= i < a.children@.len() ==> same_structure(#[trigger] a.children@[i], b.children@[i])
}

/// Resolving the same node under the same styles, table and ancestors twice
/// gives structurally equal widgets.
pub proof fn law_resolution_is_idempotent(
    w1: WidgetTemplate,
    w2: WidgetTemplate,
    n: TemplateNode,
    styles: Option<Style>,
    catalog: Catalog,
    chain: Seq<IdClass>,
)
    requires
        widget_body(w1, n, styles, catalog, chain),
        widget_body(w2, n, styles, catalog, chain),
        w1.role is Normal <==> w2.role is Normal,
    ensures
        same_structure(w1, w2),
    decreases n,
{
    let rs = positions(n.children@, false);
    lemma_positions_bounds(n.children@, false);
    assert forall|i: int| 0 <= i < w1.children@.len() implies same_structure(
        #[trigger] w1.children@[i],
        w2.children@[i],
    ) by {
        assert(decreases_to!(n => n.children@[rs[i]]));
        law_resolution_is_idempotent(
            w1.children@[i],
            w2.children@[i],
            n.children@[rs[i]],
            styles,
            catalog,
            child_chain(n, chain),
        );
    }
}

/// Two resolutions that start from the same side pool, on the same node,
/// styles, table, ancestors and position, leave side pools of the same length
/// whose widgets are structurally equal, slot by slot.
pub proof fn law_pool_is_idempotent(
    p1: Seq<WidgetTemplate>,
    p2: Seq<WidgetTemplate>,
    old: Seq<WidgetTemplate>,
    slots: Seq<PoolSlot>,
    styles: Option<Style>,
    catalog: Catalog,
)
    requires
        pool_extends(p1, old, slots, styles, catalog),
        pool_extends(p2, old, slots, styles, catalog),
    ensures
        p1.len() == p2.len(),
        p1.subrange(0, old.len() as int) == p2.subrange(0, old.len() as int),
        forall|k: int| 0 <= k < slots.len() ==> same_structure(#[trigger] p1[old.len() + k], p2[old.len() + k]),
{
    assert forall|k: int| 0 <= k < slots.len() implies same_structure(#[trigger] p1[old.len() + k], p2[old.len() + k]) by {
        assert(pool_slot_ok(p1[old.len() + k], slots[k], styles, catalog));
        assert(pool_slot_ok(p2[old.len() + k], slots[k], styles, catalog));
        law_resolution_is_idempotent(p1[old.len() + k], p2[old.len() + k], slots[k].0, styles, catalog, slots[k].1);
    }
}

/// Every slot of the side pool holds a virtual node, so the pool holds
/// virtual nodes only.
pub proof fn law_pool_holds_virtual_nodes(n: TemplateNode, chain: Seq<IdClass>, index: int, normal_father: bool)
    ensures
        forall|k: int|
            0 <= k < pooled(n, chain, index, normal_father).len() ==> is_for_node(
                #[trigger] pooled(n, chain, index, normal_father)[k].0,
            ),
    decreases n, n.children@.len() + 1,
{
    lemma_children_pool_virtual(n, chain, n.children@.len() as int);
    let a = pooled_children(n, chain, n.children@.len() as int);
    let b: Seq<PoolSlot> = if is_for_node(n) {
        seq![(n, chain, index, normal_father)]
    } else {
        seq![]
    };
    assert(pooled(n, chain, index, normal_father) == a + b);
    assert forall|j: int| 0 <= j < (a + b).len() implies is_for_node(#[trigger] (a + b)[j].0) by {
        if j < a.len() {
            assert((a + b)[j] == a[j]);
        } else {
            assert((a + b)[j] == b[j - a.len()]);
        }
    }
}

proof fn lemma_children_pool_virtual(n: TemplateNode, chain: Seq<IdClass>, k: int)
    ensures
        forall|j: int|
            0 <= j < pooled_children(n, chain, k).len() ==> is_for_node(
                #[trigger] pooled_children(n, chain, k)[j].0,
            ),
    decreases n, k,
{
    if 0 < k <= n.children@.len() {
        lemma_children_pool_virtual(n, chain, k - 1);
        assert(decreases_to!(n => n.children@[k - 1]));
        law_pool_holds_virtual_nodes(n.children@[k - 1], child_chain(n, chain), k - 1, !is_for_node(n));
        let a = pooled_children(n, chain, k - 1);
        let b = pooled(n.children@[k - 1], child_chain(n, chain), k - 1, !is_for_node(n));
        assert forall|j: int| 0 <= j < (a + b).len() implies is_for_node(#[trigger] (a + b)[j].0) by {
            if j < a.len() {
                assert((a + b)[j] == a[j]);
            } else {
                assert((a + b)[j] == b[j - a.len()]);
            }
        }
    }
}

proof fn lemma_insert_prop_grows(ps: Seq<Prop>, p: Prop)
    ensures
        insert_prop(ps, p).len() >= ps.len(),
        insert_prop(ps, p).len() > 0,
{
    lemma_find_prop_bounds(ps, p.name@);
}

proof fn lemma_wire_widgets_pool(
    st: (Seq<Prop>, Seq<CRef>, Seq<CallbackStmt>),
    ws: Seq<PropWidget>,
    field: String,
    ty: String,
    catalog: Catalog,
)
    ensures
        wire_widgets(st, ws, field, ty, catalog).0.len() >= st.0.len(),
        ws.len() > 0 ==> wire_widgets(st, ws, field, ty, catalog).0.len() > 0,
    decreases ws.len(),
{
    if ws.len() > 0 {
        lemma_wire_widgets_pool(st, ws.drop_last(), field, ty, catalog);
        let prev = wire_widgets(st, ws.drop_last(), field, ty, catalog);
        lemma_insert_prop_grows(prev.0, Prop { name: field, value: ty });
    }
}

/// The binding pool is empty exactly when no field of the prop struct is
/// bound to a widget; so a struct without bound fields yields no pool.
pub proof fn law_pool_empty_iff_no_bound_field(
    fields: Seq<PropField>,
    bs: Seq<FieldBinds>,
    catalog: Catalog,
    refs: Seq<CRef>,
    cbs: Seq<CallbackStmt>,
)
    ensures
        wire_fields((seq![], refs, cbs), fields, bs, catalog).0.len() == 0 <==> forall|i: int|
            0 <= i < fields.len() ==> !is_bound(bs, #[trigger] fields[i].name@),
    decreases fields.len(),
{
    if fields.len() > 0 {
        let f = fields.last();
        law_pool_empty_iff_no_bound_field(fields.drop_last(), bs, catalog, refs, cbs);
        let prev = wire_fields((seq![], refs, cbs), fields.drop_last(), bs, catalog);
        lemma_wire_widgets_pool(prev, widgets_of(bs, f.name@), f.name, f.ty, catalog);
        if prev.0.len() == 0 && !is_bound(bs, f.name@) {
            assert forall|i: int| 0 <= i < fields.len() implies !is_bound(bs, #[trigger] fields[i].name@) by {
                if i < fields.len() - 1 {
                    assert(fields[i] == fields.drop_last()[i]);
                }
            }
        }
        if prev.0.len() > 0 {
            let i = choose|i: int| 0 <= i < fields.len() - 1 && is_bound(bs, #[trigger] fields.drop_last()[i].name@);
            assert(fields[i] == fields.drop_last()[i]);
        }
    }
}

} // verus!
