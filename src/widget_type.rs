//! The widget-type classifier and the table of builtin widgets it consults.
use vstd::prelude::*;
use crate::error::BuildError;
use crate::props::{Prop, copy_props};

verus! {

/// A builtin widget of the target framework: its tag, the properties that it
/// accepts, and, per property, the event that writes a new value back
/// (`name` is the property, `value` the event).
#[derive(Debug)]
pub struct BuiltinWidget {
    pub name: String,
    pub props: Vec<String>,
    pub events: Vec<Prop>,
}

/// The table of builtin widgets.
#[derive(Debug)]
pub struct Catalog {
    pub widgets: Vec<BuiltinWidget>,
}

/// The three kinds of widget type.
#[derive(Debug, PartialEq, Eq, Structural, Clone, Copy)]
pub enum WidgetKind {
    /// A primitive widget of the framework.
    Builtin,
    /// A widget defined by another source unit, used here by its tag.
    Composite,
    /// The widget that this unit defines (a `component` node).
    Define,
}

/// A classified widget: its kind, tag, resolved properties and root flag.
#[derive(Debug)]
pub struct WidgetType {
    pub kind: WidgetKind,
    pub name: String,
    pub props: Vec<Prop>,
    pub root: bool,
}

/// The tag that declares the widget a unit defines.
pub open spec fn define_tag() -> Seq<char> {
    seq!['c', 'o', 'm', 'p', 'o', 'n', 'e', 'n', 't']
}

/// Position of the first builtin widget with this tag.
pub open spec fn find_builtin(ws: Seq<BuiltinWidget>, name: Seq<char>) -> Option<int>
    decreases ws.len(),
{
    if ws.len() == 0 {
        None
    } else {
        match find_builtin(ws.drop_last(), name) {
            Some(i) => Some(i),
            None => if ws.last().name@ == name {
                Some(ws.len() - 1)
            } else {
                None
            },
        }
    }
}

pub open spec fn accepts(accepted: Seq<String>, name: Seq<char>) -> bool {
    exists|j: int| 0 <= j < accepted.len() && accepted[j]@ == name
}

/// Position of the first property that the accepted list lacks.
pub open spec fn first_unknown(ps: Seq<Prop>, accepted: Seq<String>) -> Option<int>
    decreases ps.len(),
{
    if ps.len() == 0 {
        None
    } else {
        match first_unknown(ps.drop_last(), accepted) {
            Some(i) => Some(i),
            None => if accepts(accepted, ps.last().name@) {
                None
            } else {
                Some(ps.len() - 1)
            },
        }
    }
}

/// The kind a tag classifies to, when classification succeeds.
pub open spec fn kind_of(catalog: Catalog, name: Seq<char>) -> WidgetKind {
    if name == define_tag() {
        WidgetKind::Define
    } else if find_builtin(catalog.widgets@, name) is Some {
        WidgetKind::Builtin
    } else {
        WidgetKind::Composite
    }
}

/// The property that makes classification fail: for a builtin tag, the first
/// one that the builtin does not accept.
pub open spec fn unknown_prop(catalog: Catalog, name: Seq<char>, ps: Seq<Prop>) -> Option<int> {
    if kind_of(catalog, name) == WidgetKind::Builtin {
        first_unknown(ps, catalog.widgets@[find_builtin(catalog.widgets@, name)->Some_0].props@)
    } else {
        None
    }
}

pub proof fn lemma_find_builtin(ws: Seq<BuiltinWidget>, name: Seq<char>)
    ensures
        match find_builtin(ws, name) {
            Some(i) => 0 <= i < ws.len() && ws[i].name@ == name,
            None => true,
        },
    decreases ws.len(),
{
    if ws.len() > 0 {
        lemma_find_builtin(ws.drop_last(), name);
    }
}

/// The builtin widget with this tag, if the table has one.
pub fn find_builtin_exec(catalog: &Catalog, name: &String) -> (r: Option<usize>)
    ensures
        match r {
            Some(i) => find_builtin(catalog.widgets@, name@) == Some(i as int),
            None => find_builtin(catalog.widgets@, name@) is None,
        },
{
    let mut i: usize = 0;
    while i < catalog.widgets.len()
        invariant
            i <= catalog.widgets@.len(),
            find_builtin(catalog.widgets@.subrange(0, i as int), name@) is None,
        decreases catalog.widgets@.len() - i,
    {
        assert(catalog.widgets@.subrange(0, i + 1).drop_last() =~= catalog.widgets@.subrange(
            0,
            i as int,
        ));
        if catalog.widgets[i].name == *name {
            proof {
                lemma_prefix_find(catalog.widgets@, name@, i as int + 1);
            }
            return Some(i);
        }
        i = i + 1;
    }
    assert(catalog.widgets@.subrange(0, i as int) =~= catalog.widgets@);
    None
}

proof fn lemma_prefix_find(ws: Seq<BuiltinWidget>, name: Seq<char>, n: int)
    requires
        0 < n <= ws.len(),
        find_builtin(ws.subrange(0, n), name) is Some,
    ensures
        find_builtin(ws, name) == find_builtin(ws.subrange(0, n), name),
    decreases ws.len(),
{
    if n < ws.len() {
        assert(ws.drop_last().subrange(0, n) =~= ws.subrange(0, n));
        lemma_prefix_find(ws.drop_last(), name, n);
    } else {
        assert(ws.subrange(0, n) =~= ws);
    }
}

fn accepts_exec(accepted: &Vec<String>, name: &String) -> (r: bool)
    ensures
        r == accepts(accepted@, name@),
{
    let mut j: usize = 0;
    while j < accepted.len()
        invariant
            j <= accepted@.len(),
            forall|k: int| 0 <= k < j ==> accepted@[k]@ != name@,
        decreases accepted@.len() - j,
    {
        if accepted[j] == *name {
            return true;
        }
        j = j + 1;
    }
    false
}

fn first_unknown_exec(ps: &Vec<Prop>, accepted: &Vec<String>) -> (r: Option<usize>)
    ensures
        match r {
            Some(i) => first_unknown(ps@, accepted@) == Some(i as int),
            None => first_unknown(ps@, accepted@) is None,
        },
{
    let mut i: usize = 0;
    while i < ps.len()
        invariant
            i <= ps@.len(),
            first_unknown(ps@.subrange(0, i as int), accepted@) is None,
        decreases ps@.len() - i,
    {
        assert(ps@.subrange(0, i + 1).drop_last() =~= ps@.subrange(0, i as int));
        if !accepts_exec(accepted, &ps[i].name) {
            proof {
                lemma_prefix_unknown(ps@, accepted, i as int + 1);
            }
            return Some(i);
        }
        i = i + 1;
    }
    assert(ps@.subrange(0, i as int) =~= ps@);
    None
}

pub proof fn lemma_first_unknown_bounds(ps: Seq<Prop>, accepted: Seq<String>)
    ensures
        match first_unknown(ps, accepted) {
            Some(i) => 0 <= i < ps.len(),
            None => true,
        },
    decreases ps.len(),
{
    if ps.len() > 0 {
        lemma_first_unknown_bounds(ps.drop_last(), accepted);
    }
}

proof fn lemma_prefix_unknown(ps: Seq<Prop>, accepted: &Vec<String>, n: int)
    requires
        0 < n <= ps.len(),
        first_unknown(ps.subrange(0, n), accepted@) is Some,
    ensures
        first_unknown(ps, accepted@) == first_unknown(ps.subrange(0, n), accepted@),
    decreases ps.len(),
{
    if n < ps.len() {
        assert(ps.drop_last().subrange(0, n) =~= ps.subrange(0, n));
        lemma_prefix_unknown(ps.drop_last(), accepted, n);
    } else {
        assert(ps.subrange(0, n) =~= ps);
    }
}

/// Classifies a node by its tag, resolved properties and root flag. A builtin
/// tag with a property that the builtin does not accept is refused, and the
/// error names that property.
pub fn classify(catalog: &Catalog, name: &String, props: &Vec<Prop>, root: bool) -> (r: Result<WidgetType, BuildError>)
    ensures
        match r {
            Ok(t) => {
                &&& unknown_prop(*catalog, name@, props@) is None
                &&& t.kind == kind_of(*catalog, name@)
                &&& t.name == *name
                &&& t.props@ == props@
                &&& t.root == root
            },
            Err(BuildError::UnknownProperty { widget: w, prop: p }) => {
                &&& unknown_prop(*catalog, name@, props@) is Some
                &&& w == *name
                &&& p == props@[unknown_prop(*catalog, name@, props@)->Some_0].name
            },
            Err(_) => false,
        },
{
    let tag = String::from_str("component");
    proof {
        reveal_strlit("component");
        assert(tag@ =~= define_tag());
    }
    if *name == tag {
        return Ok(WidgetType { kind: WidgetKind::Define, name: name.clone(), props: copy_props(props), root });
    }
    match find_builtin_exec(catalog, name) {
        Some(b) => {
            proof {
                lemma_find_builtin(catalog.widgets@, name@);
            }
            match first_unknown_exec(props, &catalog.widgets[b].props) {
                Some(i) => {
                    proof {
                        lemma_first_unknown_bounds(props@, catalog.widgets@[b as int].props@);
                    }
                    Err(BuildError::UnknownProperty { widget: name.clone(), prop: props[i].name.clone() })
                },
                None => Ok(WidgetType { kind: WidgetKind::Builtin, name: name.clone(), props: copy_props(props), root }),
            }
        },
        None => Ok(WidgetType { kind: WidgetKind::Composite, name: name.clone(), props: copy_props(props), root }),
    }
}

} // verus!
