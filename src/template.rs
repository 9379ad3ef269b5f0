//! The template tree builder: validation, role resolution, style cascade and
//! classification of every node, in one depth-first walk.
use vstd::prelude::*;
use crate::error::BuildError;
use crate::props::{Prop, copy_props, extend_props, insert_prop, insert_prop_exec, extend_props_exec};
use crate::role::{ForBind, ForParent, ParentLink, Role, copy_opt_string, lemma_role_same_sym, lemma_role_same_trans, role_same};
use crate::style::{IdClass, Style, overrides, resolve_overrides};
use crate::widget_type::{Catalog, WidgetType, classify, kind_of, unknown_prop};

verus! {

/// An event handler declared on a node.
#[derive(Debug)]
pub struct Callback {
    pub event: String,
    pub handler: String,
}

/// A property of a node bound to a script variable.
#[derive(Debug)]
pub struct BindProp {
    pub prop: String,
    pub var: String,
}

/// The bound expression of a sugar marker.
#[derive(Debug)]
pub enum SugarBind {
    /// A repetition binding.
    For(ForBind),
    /// An expression that is not a repetition binding.
    Other(String),
}

/// The sugar marker of a node.
#[derive(Debug)]
pub enum Sugar {
    Absent,
    For(SugarBind),
}

/// A parsed, unresolved node of a template.
#[derive(Debug)]
pub struct TemplateNode {
    pub id: Option<String>,
    pub class: Option<String>,
    pub as_prop: bool,
    pub name: String,
    pub props: Vec<Prop>,
    pub callbacks: Vec<Callback>,
    pub inherits: Option<String>,
    pub root: bool,
    pub children: Vec<TemplateNode>,
    pub sugar: Sugar,
    pub parent: Option<ParentLink>,
    pub binds: Vec<BindProp>,
}

/// A resolved node, ready for emission.
#[derive(Debug)]
pub struct WidgetTemplate {
    pub id: Option<String>,
    pub is_root: bool,
    pub as_prop: bool,
    pub is_static: bool,
    pub ty: WidgetType,
    pub children: Vec<WidgetTemplate>,
    pub role: Role,
    /// Bound variable (`name`) to widget field (`value`).
    pub binds: Vec<Prop>,
}

/// What resolving one node gives: a widget of the rendered tree, or the role
/// of a virtual node whose widget went to the side pool.
#[derive(Debug)]
pub enum TemplateResult {
    Widget(WidgetTemplate),
    Role(Role),
}

/// A lightweight descriptor of a widget that the script stage may call.
#[derive(Debug)]
pub struct AbsWidget {
    pub name: String,
    pub props: Vec<Prop>,
}

/// An entry of the callable-widget pool.
#[derive(Debug)]
pub struct PollEntry {
    pub id: String,
    pub widget: AbsWidget,
}

// ---------------------------------------------------------------------------
// The model.

pub open spec fn is_for_node(n: TemplateNode) -> bool {
    n.sugar matches Sugar::For(SugarBind::For(_))
}

pub open spec fn for_bind_of(n: TemplateNode) -> ForBind {
    match n.sugar {
        Sugar::For(SugarBind::For(b)) => b,
        _ => arbitrary(),
    }
}

/// A node that no script can reach.
pub open spec fn is_static_node(n: TemplateNode) -> bool {
    &&& n.id is None
    &&& n.callbacks@.len() == 0
    &&& n.binds@.len() == 0
    &&& n.sugar is Absent
}

/// The binding map of a node: bound variable to widget field, the last
/// binding of a variable winning.
pub open spec fn bind_map(bs: Seq<BindProp>) -> Seq<Prop>
    decreases bs.len(),
{
    if bs.len() == 0 {
        seq![]
    } else {
        insert_prop(bind_map(bs.drop_last()), Prop { name: bs.last().var, value: bs.last().prop })
    }
}

/// The local structural error of a node, checked in this order.
pub open spec fn local_error(n: TemplateNode) -> Option<BuildError> {
    if is_for_node(n) && n.parent is None {
        Some(BuildError::ForNeedsParent)
    } else if is_for_node(n) && n.id is None {
        Some(BuildError::ForNeedsId)
    } else if n.inherits is Some {
        Some(BuildError::StaticInherits)
    } else if n.callbacks@.len() > 0 && n.as_prop {
        Some(BuildError::AsPropCallback)
    } else if n.callbacks@.len() > 0 && n.id is None {
        Some(BuildError::CallbackNeedsId)
    } else {
        None
    }
}

/// Merges every override group into the properties, in order.
pub open spec fn merge_all(ps: Seq<Prop>, groups: Seq<Seq<Prop>>) -> Seq<Prop>
    decreases groups.len(),
{
    if groups.len() == 0 {
        ps
    } else {
        extend_props(merge_all(ps, groups.drop_last()), groups.last())
    }
}

/// The properties of a node after the style cascade.
pub open spec fn merged_props(n: TemplateNode, styles: Option<Style>, chain: Seq<IdClass>) -> Seq<Prop> {
    match styles {
        Some(s) => merge_all(n.props@, overrides(s.rules@, n.id, n.class, chain)),
        None => n.props@,
    }
}

pub open spec fn child_chain(n: TemplateNode, chain: Seq<IdClass>) -> Seq<IdClass> {
    chain.push(IdClass { id: n.id, class: n.class })
}

/// The error of classifying a node whose local checks passed.
pub open spec fn class_error(n: TemplateNode, styles: Option<Style>, catalog: Catalog, chain: Seq<IdClass>) -> BuildError {
    let ps = merged_props(n, styles, chain);
    BuildError::UnknownProperty {
        widget: n.name,
        prop: ps[unknown_prop(catalog, n.name@, ps)->Some_0].name,
    }
}

/// The node resolves: no node of its subtree breaks a structural rule or
/// fails classification.
pub open spec fn node_ok(n: TemplateNode, styles: Option<Style>, catalog: Catalog, chain: Seq<IdClass>) -> bool
    decreases n,
{
    &&& local_error(n) is None
    &&& unknown_prop(catalog, n.name@, merged_props(n, styles, chain)) is None
    &&& forall|i: int|
        0 <= i < n.children@.len() ==> node_ok(
            #[trigger] n.children@[i],
            styles,
            catalog,
            child_chain(n, chain),
        )
}

/// Positions of the children that are virtual (`virt`) or rendered (`!virt`).
pub open spec fn positions(cs: Seq<TemplateNode>, virt: bool) -> Seq<int>
    decreases cs.len(),
{
    if cs.len() == 0 {
        seq![]
    } else {
        let rest = positions(cs.drop_last(), virt);
        if is_for_node(cs.last()) == virt {
            rest.push(cs.len() - 1)
        } else {
            rest
        }
    }
}

/// The fields of a role that the node alone decides.
pub open spec fn role_local(r: Role, n: TemplateNode, index: int) -> bool {
    if is_for_node(n) {
        match r {
            Role::For { parent, bind, origin_pos, props, children: _, id, name } => {
                &&& parent.id == n.parent->Some_0.id
                &&& parent.name == n.parent->Some_0.name
                &&& parent.root == n.parent->Some_0.root
                &&& bind == for_bind_of(n)
                &&& origin_pos == index
                &&& props@ == bind_map(n.binds@)
                &&& n.id is Some
                &&& id == n.id->Some_0
                &&& name == n.name
            },
            Role::Normal => false,
        }
    } else {
        r is Normal
    }
}

/// `f` is the role `r` as it stood when its first `j` child roles were in.
pub open spec fn father_at(f: Role, r: Role, j: int) -> bool {
    match r {
        Role::Normal => f is Normal,
        Role::For { parent, bind, origin_pos, props, children, id, name } => match f {
            Role::For {
                parent: fp,
                bind: fb,
                origin_pos: fo,
                props: fq,
                children: fc,
                id: fi,
                name: fnm,
            } => {
                &&& fp.id == parent.id
                &&& fp.name == parent.name
                &&& fp.root == parent.root
                &&& role_same(*parent.credential, *fp.credential)
                &&& fb == bind
                &&& fo == origin_pos
                &&& fq@ == props@
                &&& fi == id
                &&& fnm == name
                &&& fc@.len() == j
                &&& forall|i: int| 0 <= i < j ==> role_same(#[trigger] children@[i], fc@[i])
            },
            Role::Normal => false,
        },
    }
}

/// A role resolved from a node at a position: its own fields, and one child
/// role per virtual child, in order, each with the father role it was
/// resolved under as its credential.
pub open spec fn role_tree(r: Role, n: TemplateNode, index: int) -> bool
    decreases n,
{
    &&& role_local(r, n, index)
    &&& r is For ==> {
        let vs = positions(n.children@, true);
        let cs = r->For_children@;
        &&& cs.len() == vs.len()
        &&& forall|j: int|
            0 <= j < cs.len() && 0 <= vs[j] < n.children@.len() ==> {
                &&& role_tree(#[trigger] cs[j], n.children@[vs[j]], vs[j])
                &&& father_at(*cs[j]->For_parent.credential, r, j)
            }
    }
}

/// A widget resolved from a node, all but its role: its fields, and one
/// child widget per rendered child, in order.
pub open spec fn widget_body(
    w: WidgetTemplate,
    n: TemplateNode,
    styles: Option<Style>,
    catalog: Catalog,
    chain: Seq<IdClass>,
) -> bool
    decreases n,
{
    let rs = positions(n.children@, false);
    &&& w.id == n.id
    &&& w.is_root == n.root
    &&& w.as_prop == n.as_prop
    &&& w.is_static == is_static_node(n)
    &&& w.ty.kind == kind_of(catalog, n.name@)
    &&& w.ty.name == n.name
    &&& w.ty.props@ == merged_props(n, styles, chain)
    &&& w.ty.root == n.root
    &&& w.binds@ == bind_map(n.binds@)
    &&& w.children@.len() == rs.len()
    &&& forall|i: int|
        0 <= i < rs.len() && 0 <= rs[i] < n.children@.len() ==> {
            &&& widget_body(
                #[trigger] w.children@[i],
                n.children@[rs[i]],
                styles,
                catalog,
                child_chain(n, chain),
            )
            &&& w.children@[i].role is Normal
        }
}

/// A slot of the side pool: the virtual node, its ancestors, its position
/// among its siblings, and whether it was resolved under a normal father.
pub type PoolSlot = (TemplateNode, Seq<IdClass>, int, bool);

/// The virtual nodes of a subtree, children before parent, in the order
/// their widgets enter the side pool.
pub open spec fn pooled(n: TemplateNode, chain: Seq<IdClass>, index: int, normal_father: bool) -> Seq<PoolSlot>
    decreases n, n.children@.len() + 1,
{
    pooled_children(n, chain, n.children@.len() as int) + if is_for_node(n) {
        seq![(n, chain, index, normal_father)]
    } else {
        seq![]
    }
}

pub open spec fn pooled_children(n: TemplateNode, chain: Seq<IdClass>, k: int) -> Seq<PoolSlot>
    decreases n, k,
{
    if k <= 0 || k > n.children@.len() {
        seq![]
    } else {
        pooled_children(n, chain, k - 1) + pooled(
            n.children@[k - 1],
            child_chain(n, chain),
            k - 1,
            !is_for_node(n),
        )
    }
}

/// A pooled widget resolved from its slot: its fields, its role, and a
/// normal credential when its father was normal.
pub open spec fn pool_slot_ok(w: WidgetTemplate, slot: PoolSlot, styles: Option<Style>, catalog: Catalog) -> bool {
    &&& widget_body(w, slot.0, styles, catalog, slot.1)
    &&& role_tree(w.role, slot.0, slot.2)
    &&& slot.3 ==> *w.role->For_parent.credential is Normal
}

/// `new` is `old` followed by one widget per slot, each resolved from it.
pub open spec fn pool_extends(
    new: Seq<WidgetTemplate>,
    old: Seq<WidgetTemplate>,
    slots: Seq<PoolSlot>,
    styles: Option<Style>,
    catalog: Catalog,
) -> bool {
    &&& new.len() == old.len() + slots.len()
    &&& new.subrange(0, old.len() as int) == old
    &&& forall|k: int| 0 <= k < slots.len() ==> pool_slot_ok(#[trigger] new[old.len() + k], slots[k], styles, catalog)
}

proof fn lemma_pool_extends_trans(
    a: Seq<WidgetTemplate>,
    b: Seq<WidgetTemplate>,
    c: Seq<WidgetTemplate>,
    s1: Seq<PoolSlot>,
    s2: Seq<PoolSlot>,
    styles: Option<Style>,
    catalog: Catalog,
)
    requires
        pool_extends(b, a, s1, styles, catalog),
        pool_extends(c, b, s2, styles, catalog),
    ensures
        pool_extends(c, a, s1 + s2, styles, catalog),
{
    assert(c.subrange(0, a.len() as int) =~= c.subrange(0, b.len() as int).subrange(0, a.len() as int));
    assert forall|k: int| 0 <= k < (s1 + s2).len() implies pool_slot_ok(
        #[trigger] c[a.len() + k],
        (s1 + s2)[k],
        styles,
        catalog,
    ) by {
        if k < s1.len() {
            assert(c[a.len() + k] == c.subrange(0, b.len() as int)[a.len() + k]);
            assert(b[a.len() + k] == c[a.len() + k]);
        } else {
            assert(c[b.len() + (k - s1.len())] == c[a.len() + k]);
        }
    }
}

/// A role that holds the same values as one resolved from a node is
/// resolved from that node too.
pub proof fn lemma_same_tree(a: Role, b: Role, n: TemplateNode, index: int)
    requires
        role_same(a, b),
        role_tree(a, n, index),
    ensures
        role_tree(b, n, index),
    decreases n,
{
    if a is For {
        let vs = positions(n.children@, true);
        let ca = a->For_children@;
        let cb = b->For_children@;
        lemma_positions_bounds(n.children@, true);
        assert forall|j: int| 0 <= j < cb.len() && 0 <= vs[j] < n.children@.len() implies {
            &&& role_tree(#[trigger] cb[j], n.children@[vs[j]], vs[j])
            &&& father_at(*cb[j]->For_parent.credential, b, j)
        } by {
            assert(decreases_to!(n => n.children@[vs[j]]));
            assert(role_same(ca[j], cb[j]));
            assert(role_tree(ca[j], n.children@[vs[j]], vs[j]));
            lemma_same_tree(ca[j], cb[j], n.children@[vs[j]], vs[j]);
            let fa = *ca[j]->For_parent.credential;
            let fb = *cb[j]->For_parent.credential;
            assert(role_same(fa, fb));
            assert(father_at(fa, a, j));
            let ac = *a->For_parent.credential;
            let bc = *b->For_parent.credential;
            lemma_role_same_sym(ac, bc);
            lemma_role_same_trans(bc, ac, *fa->For_parent.credential);
            lemma_role_same_trans(bc, *fa->For_parent.credential, *fb->For_parent.credential);
            let fac = fa->For_children@;
            let fbc = fb->For_children@;
            assert forall|i: int| 0 <= i < j implies role_same(#[trigger] cb[i], fbc[i]) by {
                assert(role_same(ca[i], cb[i]));
                lemma_role_same_sym(ca[i], cb[i]);
                assert(role_same(ca[i], fac[i]));
                assert(role_same(fac[i], fbc[i]));
                lemma_role_same_trans(cb[i], ca[i], fac[i]);
                lemma_role_same_trans(cb[i], fac[i], fbc[i]);
            }
        }
    }
}

/// Errors that come before the node is registered as callable.
pub open spec fn early_error(n: TemplateNode) -> bool {
    (is_for_node(n) && (n.parent is None || n.id is None)) || n.inherits is Some
}

// ---------------------------------------------------------------------------
// The callable-widget pool.

pub open spec fn poll_view(p: Seq<PollEntry>) -> Seq<(String, String, Seq<Prop>)> {
    p.map_values(|e: PollEntry| (e.id, e.widget.name, e.widget.props@))
}

pub open spec fn find_poll(m: Seq<(String, String, Seq<Prop>)>, id: Seq<char>) -> Option<int>
    decreases m.len(),
{
    if m.len() == 0 {
        None
    } else if m.last().0@ == id {
        Some(m.len() - 1)
    } else {
        find_poll(m.drop_last(), id)
    }
}

/// Registers a widget under an id; an entry with the same id is replaced.
pub open spec fn poll_insert(
    m: Seq<(String, String, Seq<Prop>)>,
    e: (String, String, Seq<Prop>),
) -> Seq<(String, String, Seq<Prop>)> {
    match find_poll(m, e.0@) {
        Some(i) => m.update(i, e),
        None => m.push(e),
    }
}

/// The pool after a successful walk of a node: the node registers itself
/// when it has an id, then its children do, in order.
pub open spec fn poll_after(m: Seq<(String, String, Seq<Prop>)>, n: TemplateNode) -> Seq<
    (String, String, Seq<Prop>),
>
    decreases n, n.children@.len() + 1,
{
    let own = match n.id {
        Some(id) => poll_insert(m, (id, n.name, n.props@)),
        None => m,
    };
    poll_after_children(own, n, n.children@.len() as int)
}

pub open spec fn poll_after_children(m: Seq<(String, String, Seq<Prop>)>, n: TemplateNode, k: int) -> Seq<
    (String, String, Seq<Prop>),
>
    decreases n, k,
{
    if k <= 0 || k > n.children@.len() {
        m
    } else {
        poll_after(poll_after_children(m, n, k - 1), n.children@[k - 1])
    }
}


pub proof fn lemma_positions_bounds(cs: Seq<TemplateNode>, virt: bool)
    ensures
        forall|j: int|
            0 <= j < positions(cs, virt).len() ==> 0 <= #[trigger] positions(cs, virt)[j] < cs.len(),
        forall|j: int|
            0 <= j < positions(cs, virt).len() ==> is_for_node(cs[#[trigger] positions(cs, virt)[j]])
                == virt,
    decreases cs.len(),
{
    if cs.len() > 0 {
        lemma_positions_bounds(cs.drop_last(), virt);
        let rest = positions(cs.drop_last(), virt);
        assert forall|j: int| 0 <= j < rest.len() implies cs[rest[j]] == cs.drop_last()[rest[j]] by {}
    }
}

// ---------------------------------------------------------------------------
// The walk.

fn bind_map_exec(bs: &Vec<BindProp>) -> (r: Vec<Prop>)
    ensures
        r@ == bind_map(bs@),
{
    let mut out: Vec<Prop> = Vec::new();
    let mut i: usize = 0;
    while i < bs.len()
        invariant
            i <= bs@.len(),
            out@ == bind_map(bs@.subrange(0, i as int)),
        decreases bs@.len() - i,
    {
        assert(bs@.subrange(0, i + 1).drop_last() =~= bs@.subrange(0, i as int));
        let b = &bs[i];
        insert_prop_exec(&mut out, Prop { name: b.var.clone(), value: b.prop.clone() });
        i = i + 1;
    }
    assert(bs@.subrange(0, i as int) =~= bs@);
    out
}

fn merge_groups(ps: &mut Vec<Prop>, groups: &Vec<Vec<Prop>>)
    ensures
        final(ps)@ == merge_all(old(ps)@, groups@.map_values(|v: Vec<Prop>| v@)),
{
    let ghost start = ps@;
    let ghost gs = groups@.map_values(|v: Vec<Prop>| v@);
    let mut i: usize = 0;
    while i < groups.len()
        invariant
            i <= groups@.len(),
            gs == groups@.map_values(|v: Vec<Prop>| v@),
            ps@ == merge_all(start, gs.subrange(0, i as int)),
        decreases groups@.len() - i,
    {
        assert(gs.subrange(0, i + 1).drop_last() =~= gs.subrange(0, i as int));
        extend_props_exec(ps, &groups[i]);
        i = i + 1;
    }
    assert(gs.subrange(0, i as int) =~= gs);
}

fn find_poll_exec(poll: &Vec<PollEntry>, id: &String) -> (r: Option<usize>)
    ensures
        match r {
            Some(i) => find_poll(poll_view(poll@), id@) == Some(i as int) && i < poll@.len(),
            None => find_poll(poll_view(poll@), id@) is None,
        },
{
    let mut i: usize = poll.len();
    assert(poll_view(poll@).subrange(0, i as int) =~= poll_view(poll@));
    while i > 0
        invariant
            i <= poll@.len(),
            find_poll(poll_view(poll@), id@) == find_poll(poll_view(poll@).subrange(0, i as int), id@),
        decreases i,
    {
        assert(poll_view(poll@).subrange(0, i as int).drop_last() =~= poll_view(poll@).subrange(0, i - 1));
        if poll[i - 1].id == *id {
            return Some(i - 1);
        }
        i = i - 1;
    }
    None
}

fn poll_register(poll: &mut Vec<PollEntry>, id: String, widget: AbsWidget)
    ensures
        poll_view(final(poll)@) == poll_insert(poll_view(old(poll)@), (id, widget.name, widget.props@)),
{
    let ghost e = (id, widget.name, widget.props@);
    let ghost before = poll_view(poll@);
    match find_poll_exec(poll, &id) {
        Some(i) => {
            poll.set(i, PollEntry { id, widget });
            assert(poll_view(poll@) =~= before.update(i as int, e));
        },
        None => {
            poll.push(PollEntry { id, widget });
            assert(poll_view(poll@) =~= before.push(e));
        },
    }
}

/// Whether no script can reach the node.
pub fn is_static_exec(n: &TemplateNode) -> (r: bool)
    ensures
        r == is_static_node(*n),
{
    n.id.is_none() && n.callbacks.len() == 0 && n.binds.len() == 0 && match &n.sugar {
        Sugar::Absent => true,
        _ => false,
    }
}

/// Resolves one node and, recursively, its children.
///
/// Virtual nodes (repetition sugar) go to `template_ptrs` and give back their
/// role; other nodes give back their widget. Every node with an id is
/// registered in `widget_poll`. The chain of ancestors is the same after the
/// call as before it, on success and on failure.
pub fn handle_template(
    node: &TemplateNode,
    styles: &Option<Style>,
    catalog: &Catalog,
    template_ptrs: &mut Vec<WidgetTemplate>,
    widget_poll: &mut Vec<PollEntry>,
    chain: &mut Vec<IdClass>,
    index: usize,
    father_role: Role,
) -> (r: Result<TemplateResult, BuildError>)
    ensures
        final(chain)@ == old(chain)@,
        final(template_ptrs)@.len() >= old(template_ptrs)@.len(),
        final(template_ptrs)@.subrange(0, old(template_ptrs)@.len() as int) == old(template_ptrs)@,
        r is Ok <==> node_ok(*node, *styles, *catalog, old(chain)@),
        local_error(*node) is Some ==> r == Err::<TemplateResult, BuildError>(
            local_error(*node)->Some_0,
        ),
        local_error(*node) is None && unknown_prop(
            *catalog,
            node.name@,
            merged_props(*node, *styles, old(chain)@),
        ) is Some ==> r == Err::<TemplateResult, BuildError>(
            class_error(*node, *styles, *catalog, old(chain)@),
        ),
        r is Ok ==> poll_view(final(widget_poll)@) == poll_after(poll_view(old(widget_poll)@), *node),
        r is Ok ==> pool_extends(
            final(template_ptrs)@,
            old(template_ptrs)@,
            pooled(*node, old(chain)@, index as int, father_role is Normal),
            *styles,
            *catalog,
        ),
        r is Err && (local_error(*node) is Some || unknown_prop(
            *catalog,
            node.name@,
            merged_props(*node, *styles, old(chain)@),
        ) is Some) ==> final(template_ptrs)@ == old(template_ptrs)@,
        early_error(*node) ==> final(widget_poll)@ == old(widget_poll)@,
        match r {
            Ok(TemplateResult::Widget(w)) => {
                &&& !is_for_node(*node)
                &&& widget_body(w, *node, *styles, *catalog, old(chain)@)
                &&& w.role is Normal
            },
            Ok(TemplateResult::Role(rr)) => {
                &&& is_for_node(*node)
                &&& role_tree(rr, *node, index as int)
                &&& *rr->For_parent.credential == father_role
                &&& final(template_ptrs)@.len() > old(template_ptrs)@.len()
                &&& widget_body(final(template_ptrs)@.last(), *node, *styles, *catalog, old(chain)@)
                &&& role_same(rr, final(template_ptrs)@.last().role)
            },
            Err(_) => true,
        },
    decreases node,
{
    let ghost chain0 = chain@;
    let ghost ptrs0 = template_ptrs@;
    let ghost poll0 = poll_view(widget_poll@);
    let ghost father0 = father_role;
    let is_static = is_static_exec(node);
    let bind_props = bind_map_exec(&node.binds);
    // Sugar: a repetition binding makes the node virtual.
    let mut role: Role = match &node.sugar {
        Sugar::For(SugarBind::For(b)) => match &node.parent {
            None => {
                return Err(BuildError::ForNeedsParent);
            },
            Some(p) => match &node.id {
                None => {
                    return Err(BuildError::ForNeedsId);
                },
                Some(id) => Role::For {
                    parent: ForParent {
                        id: copy_opt_string(&p.id),
                        name: p.name.clone(),
                        root: p.root,
                        credential: Box::new(father_role),
                    },
                    bind: b.copy(),
                    origin_pos: index,
                    props: copy_props(&bind_props),
                    children: Vec::new(),
                    id: id.clone(),
                    name: node.name.clone(),
                },
            },
        },
        _ => Role::Normal,
    };
    if node.inherits.is_some() {
        return Err(BuildError::StaticInherits);
    }
    // Nodes with an id may be called from the script.
    match &node.id {
        Some(id) => {
            poll_register(
                widget_poll,
                id.clone(),
                AbsWidget { name: node.name.clone(), props: copy_props(&node.props) },
            );
        },
        None => {},
    }
    let ghost own = poll_view(widget_poll@);
    if node.callbacks.len() > 0 {
        if node.as_prop {
            return Err(BuildError::AsPropCallback);
        }
        if node.id.is_none() {
            return Err(BuildError::CallbackNeedsId);
        }
    }
    let mut props = copy_props(&node.props);
    match styles {
        Some(s) => {
            let groups = resolve_overrides(s, &node.id, &node.class, chain);
            merge_groups(&mut props, &groups);
        },
        None => {},
    }
    let ty = match classify(catalog, &node.name, &props, node.root) {
        Ok(t) => t,
        Err(e) => {
            return Err(e);
        },
    };
    let ghost cc = child_chain(*node, chain0);
    chain.push(IdClass { id: copy_opt_string(&node.id), class: copy_opt_string(&node.class) });
    assert(chain@ == cc);
    proof {
        lemma_positions_bounds(node.children@, true);
        lemma_positions_bounds(node.children@, false);
    }
    let mut w_children: Vec<WidgetTemplate> = Vec::new();
    let mut i: usize = 0;
    assert(template_ptrs@.subrange(0, ptrs0.len() as int) =~= ptrs0);
    assert(pool_extends(template_ptrs@, ptrs0, pooled_children(*node, chain0, 0), *styles, *catalog));
    assert(node.children@.subrange(0, 0) =~= Seq::<TemplateNode>::empty());
    while i < node.children.len()
        invariant
            i <= node.children@.len(),
            old(chain)@ == chain0,
            old(template_ptrs)@ == ptrs0,
            local_error(*node) is None,
            unknown_prop(*catalog, node.name@, merged_props(*node, *styles, chain0)) is None,
            chain@ == cc,
            cc == child_chain(*node, chain0),
            template_ptrs@.len() >= ptrs0.len(),
            template_ptrs@.subrange(0, ptrs0.len() as int) == ptrs0,
            pool_extends(template_ptrs@, ptrs0, pooled_children(*node, chain0, i as int), *styles, *catalog),
            poll_view(widget_poll@) == poll_after_children(own, *node, i as int),
            own == match node.id {
                Some(id) => poll_insert(poll0, (id, node.name, node.props@)),
                None => poll0,
            },
            forall|k: int| 0 <= k < i ==> node_ok(#[trigger] node.children@[k], *styles, *catalog, cc),
            ({
                let rs = positions(node.children@.subrange(0, i as int), false);
                &&& w_children@.len() == rs.len()
                &&& forall|j: int|
                    0 <= j < rs.len() ==> {
                        &&& widget_body(
                            #[trigger] w_children@[j],
                            node.children@[rs[j]],
                            *styles,
                            *catalog,
                            cc,
                        )
                        &&& w_children@[j].role is Normal
                    }
            }),
            role_local(role, *node, index as int),
            role is For ==> *role->For_parent.credential == father0,
            role is For ==> ({
                let vs = positions(node.children@.subrange(0, i as int), true);
                let cs = role->For_children@;
                &&& cs.len() == vs.len()
                &&& forall|j: int|
                    0 <= j < cs.len() ==> {
                        &&& role_tree(#[trigger] cs[j], node.children@[vs[j]], vs[j])
                        &&& father_at(*cs[j]->For_parent.credential, role, j)
                    }
            }),
        decreases node.children@.len() - i,
    {
        let ghost sub = node.children@.subrange(0, i as int);
        let ghost sub1 = node.children@.subrange(0, i + 1);
        assert(sub1.drop_last() =~= sub);
        assert(sub1.last() == node.children@[i as int]);
        proof {
            lemma_positions_bounds(sub, true);
            lemma_positions_bounds(sub, false);
            assert(decreases_to!(*node => node.children[i as int]));
        }
        let ghost ptrs_mid = template_ptrs@;
        let ghost role_before = role;
        let father = role.copy();
        let res = handle_template(
            &node.children[i],
            styles,
            catalog,
            template_ptrs,
            widget_poll,
            chain,
            i,
            father,
        );
        assert(template_ptrs@.subrange(0, ptrs0.len() as int) =~= template_ptrs@.subrange(
            0,
            ptrs_mid.len() as int,
        ).subrange(0, ptrs0.len() as int));
        proof {
            if res is Ok {
                assert((father is Normal) == !is_for_node(*node));
                lemma_pool_extends_trans(
                    ptrs0,
                    ptrs_mid,
                    template_ptrs@,
                    pooled_children(*node, chain0, i as int),
                    pooled(node.children@[i as int], cc, i as int, !is_for_node(*node)),
                    *styles,
                    *catalog,
                );
                assert(pooled_children(*node, chain0, i + 1) == pooled_children(*node, chain0, i as int)
                    + pooled(node.children@[i as int], cc, i as int, !is_for_node(*node)));
            }
        }
        match res {
            Ok(TemplateResult::Widget(w)) => {
                w_children.push(w);
            },
            Ok(TemplateResult::Role(cr)) => {
                role.push_child(cr);
                proof {
                    if role is For {
                        let vs = positions(sub1, true);
                        let cs = role->For_children@;
                        assert forall|j: int| 0 <= j < cs.len() implies {
                            &&& role_tree(#[trigger] cs[j], node.children@[vs[j]], vs[j])
                            &&& father_at(*cs[j]->For_parent.credential, role, j)
                        } by {
                            if j < cs.len() - 1 {
                                assert(cs[j] == role_before->For_children@[j]);
                                assert(father_at(*cs[j]->For_parent.credential, role_before, j));
                            } else {
                                assert(role_same(role_before, father));
                            }
                        }
                    }
                }
            },
            Err(e) => {
                chain.pop();
                assert(chain@ =~= chain0);
                return Err(e);
            },
        }
        i = i + 1;
    }
    chain.pop();
    assert(node.children@.subrange(0, i as int) =~= node.children@);
    let mut widget = WidgetTemplate {
        id: copy_opt_string(&node.id),
        is_root: node.root,
        as_prop: node.as_prop,
        is_static,
        ty,
        children: w_children,
        role: Role::Normal,
        binds: bind_props,
    };
    let ghost slots = pooled_children(*node, chain0, node.children@.len() as int);
    let ghost nf = father0 is Normal;
    if role.is_virtual() {
        widget.role = role.copy();
        let ghost before = template_ptrs@;
        proof {
            lemma_same_tree(role, widget.role, *node, index as int);
            assert(role_same(*role->For_parent.credential, *widget.role->For_parent.credential));
        }
        let ghost slot = (*node, chain0, index as int, nf);
        assert(pool_slot_ok(widget, slot, *styles, *catalog));
        template_ptrs.push(widget);
        assert(template_ptrs@.subrange(0, ptrs0.len() as int) =~= ptrs0);
        proof {
            assert(template_ptrs@.subrange(0, before.len() as int) =~= before);
            assert(template_ptrs@[before.len() as int + 0] == template_ptrs@.last());
            assert(pool_extends(template_ptrs@, before, seq![slot], *styles, *catalog));
            lemma_pool_extends_trans(ptrs0, before, template_ptrs@, slots, seq![slot], *styles, *catalog);
            assert(pooled(*node, chain0, index as int, nf) == slots + seq![slot]);
        }
        Ok(TemplateResult::Role(role))
    } else {
        assert(pooled(*node, chain0, index as int, nf) =~= slots);
        Ok(TemplateResult::Widget(widget))
    }
}

} // verus!
