//! Roles: how a node takes part in sugar expansion.
use vstd::prelude::*;
use crate::props::{Prop, copy_props};

verus! {

/// The binding expression of a repetition construct.
#[derive(Debug)]
pub struct ForBind {
    pub expr: String,
}

/// The parent-linkage descriptor that the parser attaches to a node.
#[derive(Debug)]
pub struct ParentLink {
    pub id: Option<String>,
    pub name: String,
    pub root: bool,
}

/// A normalized parent description, with the role of the father node as its
/// credential.
#[derive(Debug)]
pub struct ForParent {
    pub id: Option<String>,
    pub name: String,
    pub root: bool,
    pub credential: Box<Role>,
}

/// How a node takes part in sugar expansion.
#[derive(Debug)]
pub enum Role {
    Normal,
    For {
        parent: ForParent,
        bind: ForBind,
        origin_pos: usize,
        /// Bound variable (`name`) to widget field (`value`).
        props: Vec<Prop>,
        children: Vec<Role>,
        id: String,
        name: String,
    },
}

/// Two roles hold the same values, all the way down.
pub open spec fn role_same(a: Role, b: Role) -> bool
    decreases a,
{
    match (a, b) {
        (Role::Normal, Role::Normal) => true,
        (
            Role::For { parent: pa, bind: ba, origin_pos: oa, props: qa, children: ca, id: ia, name: na },
            Role::For { parent: pb, bind: bb, origin_pos: ob, props: qb, children: cb, id: ib, name: nb },
        ) => {
            &&& pa.id == pb.id
            &&& pa.name == pb.name
            &&& pa.root == pb.root
            &&& role_same(*pa.credential, *pb.credential)
            &&& ba == bb
            &&& oa == ob
            &&& qa@ == qb@
            &&& ca@.len() == cb@.len()
            &&& forall|i: int| 0 <= i < ca@.len() ==> role_same(#[trigger] ca@[i], cb@[i])
            &&& ia == ib
            &&& na == nb
        },
        _ => false,
    }
}


pub proof fn lemma_role_same_sym(a: Role, b: Role)
    requires
        role_same(a, b),
    ensures
        role_same(b, a),
    decreases a,
{
    match (a, b) {
        (Role::For { parent: pa, children: ca, .. }, Role::For { parent: pb, children: cb, .. }) => {
            lemma_role_same_sym(*pa.credential, *pb.credential);
            assert forall|i: int| 0 <= i < cb@.len() implies role_same(#[trigger] cb@[i], ca@[i]) by {
                assert(decreases_to!(a => ca@[i]));
                lemma_role_same_sym(ca@[i], cb@[i]);
            }
        },
        _ => {},
    }
}

pub proof fn lemma_role_same_trans(a: Role, b: Role, c: Role)
    requires
        role_same(a, b),
        role_same(b, c),
    ensures
        role_same(a, c),
    decreases a,
{
    match (a, b, c) {
        (
            Role::For { parent: pa, children: ca, .. },
            Role::For { parent: pb, children: cb, .. },
            Role::For { parent: pc, children: cc, .. },
        ) => {
            lemma_role_same_trans(*pa.credential, *pb.credential, *pc.credential);
            assert forall|i: int| 0 <= i < ca@.len() implies role_same(#[trigger] ca@[i], cc@[i]) by {
                assert(decreases_to!(a => ca@[i]));
                assert(role_same(cb@[i], cc@[i]));
                lemma_role_same_trans(ca@[i], cb@[i], cc@[i]);
            }
        },
        _ => {},
    }
}

pub fn copy_opt_string(o: &Option<String>) -> (r: Option<String>)
    ensures
        r == *o,
{
    match o {
        Some(s) => Some(s.clone()),
        None => None,
    }
}

impl ForBind {
    pub fn copy(&self) -> (r: ForBind)
        ensures
            r == *self,
    {
        ForBind { expr: self.expr.clone() }
    }
}

impl ParentLink {
    pub fn copy(&self) -> (r: ParentLink)
        ensures
            r == *self,
    {
        ParentLink { id: copy_opt_string(&self.id), name: self.name.clone(), root: self.root }
    }
}

impl Role {
    /// A deep copy.
    pub fn copy(&self) -> (r: Role)
        ensures
            role_same(*self, r),
        decreases self,
    {
        match self {
            Role::Normal => Role::Normal,
            Role::For { parent, bind, origin_pos, props, children, id, name } => {
                let cred = parent.credential.copy();
                let mut cs: Vec<Role> = Vec::new();
                let mut i: usize = 0;
                while i < children.len()
                    invariant
                        *self is For,
                        *children == (*self)->For_children,
                        i <= children@.len(),
                        cs@.len() == i,
                        forall|k: int| 0 <= k < i ==> role_same(#[trigger] children@[k], cs@[k]),
                    decreases children@.len() - i,
                {
                    proof {
                        assert(decreases_to!(*self => children[i as int]));
                    }
                    let c = children[i].copy();
                    cs.push(c);
                    i = i + 1;
                }
                Role::For {
                    parent: ForParent {
                        id: copy_opt_string(&parent.id),
                        name: parent.name.clone(),
                        root: parent.root,
                        credential: Box::new(cred),
                    },
                    bind: bind.copy(),
                    origin_pos: *origin_pos,
                    props: copy_props(props),
                    children: cs,
                    id: id.clone(),
                    name: name.clone(),
                }
            },
        }
    }

    /// Appends a role to the child roles of a sugar role; a normal role has
    /// none and stays as it is.
    pub fn push_child(&mut self, child: Role)
        ensures
            match *old(self) {
                Role::Normal => *final(self) == Role::Normal,
                Role::For { parent, bind, origin_pos, props, children, id, name } => {
                    &&& *final(self) is For
                    &&& (*final(self))->For_parent == parent
                    &&& (*final(self))->For_bind == bind
                    &&& (*final(self))->For_origin_pos == origin_pos
                    &&& (*final(self))->For_props == props
                    &&& (*final(self))->For_children@ == children@.push(child)
                    &&& (*final(self))->For_id == id
                    &&& (*final(self))->For_name == name
                },
            },
    {
        match self {
            Role::Normal => {},
            Role::For { children, .. } => {
                children.push(child);
            },
        }
    }

    pub fn is_virtual(&self) -> (r: bool)
        ensures
            r == (*self is For),
    {
        match self {
            Role::Normal => false,
            Role::For { .. } => true,
        }
    }
}

} // verus!
