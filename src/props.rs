//! Property mappings kept as association lists with unique keys.
use vstd::prelude::*;

verus! {

/// One named property of a node, with its textual value.
#[derive(Debug)]
pub struct Prop {
    pub name: String,
    pub value: String,
}

impl Prop {
    pub fn copy(&self) -> (r: Prop)
        ensures
            r == *self,
    {
        Prop { name: self.name.clone(), value: self.value.clone() }
    }
}

/// Index of the entry named `k`, if there is one.
pub open spec fn find_prop(ps: Seq<Prop>, k: Seq<char>) -> Option<int>
    decreases ps.len(),
{
    if ps.len() == 0 {
        None
    } else if ps.last().name@ == k {
        Some(ps.len() - 1)
    } else {
        find_prop(ps.drop_last(), k)
    }
}

/// Inserting into a mapping: an entry with the same name is replaced in place,
/// otherwise the new entry goes to the end (last writer wins).
pub open spec fn insert_prop(ps: Seq<Prop>, p: Prop) -> Seq<Prop> {
    match find_prop(ps, p.name@) {
        Some(i) => ps.update(i, p),
        None => ps.push(p),
    }
}

/// Inserting every entry of `qs`, in order.
pub open spec fn extend_props(ps: Seq<Prop>, qs: Seq<Prop>) -> Seq<Prop>
    decreases qs.len(),
{
    if qs.len() == 0 {
        ps
    } else {
        insert_prop(extend_props(ps, qs.drop_last()), qs.last())
    }
}

pub proof fn lemma_find_prop_bounds(ps: Seq<Prop>, k: Seq<char>)
    ensures
        match find_prop(ps, k) {
            Some(i) => 0 <= i < ps.len() && ps[i].name@ == k,
            None => forall|j: int| 0 <= j < ps.len() ==> ps[j].name@ != k,
        },
    decreases ps.len(),
{
    if ps.len() > 0 && ps.last().name@ != k {
        lemma_find_prop_bounds(ps.drop_last(), k);
        if find_prop(ps.drop_last(), k) is None {
            assert forall|j: int| 0 <= j < ps.len() implies ps[j].name@ != k by {
                if j < ps.len() - 1 {
                    assert(ps[j] == ps.drop_last()[j]);
                }
            }
        }
    }
}

/// Position of the entry named `k`, searching from the end.
pub fn find_prop_index(ps: &Vec<Prop>, k: &String) -> (r: Option<usize>)
    ensures
        match r {
            Some(i) => find_prop(ps@, k@) == Some(i as int),
            None => find_prop(ps@, k@) is None,
        },
{
    let mut i: usize = ps.len();
    assert(ps@.subrange(0, i as int) =~= ps@);
    while i > 0
        invariant
            i <= ps@.len(),
            find_prop(ps@, k@) == find_prop(ps@.subrange(0, i as int), k@),
        decreases i,
    {
        assert(ps@.subrange(0, i as int).drop_last() =~= ps@.subrange(0, i - 1));
        if ps[i - 1].name == *k {
            return Some(i - 1);
        }
        i = i - 1;
    }
    None
}

/// Inserts `p`, replacing an entry of the same name.
pub fn insert_prop_exec(ps: &mut Vec<Prop>, p: Prop)
    ensures
        final(ps)@ == insert_prop(old(ps)@, p),
{
    proof {
        lemma_find_prop_bounds(ps@, p.name@);
    }
    match find_prop_index(ps, &p.name) {
        Some(i) => {
            ps.set(i, p);
        },
        None => {
            ps.push(p);
        },
    }
}

/// Inserts every entry of `qs`, in order.
pub fn extend_props_exec(ps: &mut Vec<Prop>, qs: &Vec<Prop>)
    ensures
        final(ps)@ == extend_props(old(ps)@, qs@),
{
    let ghost start = ps@;
    let mut i: usize = 0;
    while i < qs.len()
        invariant
            i <= qs@.len(),
            ps@ == extend_props(start, qs@.subrange(0, i as int)),
        decreases qs@.len() - i,
    {
        assert(qs@.subrange(0, i + 1).drop_last() =~= qs@.subrange(0, i as int));
        let q = qs[i].copy();
        insert_prop_exec(ps, q);
        i = i + 1;
    }
    assert(qs@.subrange(0, i as int) =~= qs@);
}

pub fn copy_props(ps: &Vec<Prop>) -> (r: Vec<Prop>)
    ensures
        r@ == ps@,
{
    let mut out: Vec<Prop> = Vec::new();
    let mut i: usize = 0;
    while i < ps.len()
        invariant
            i <= ps@.len(),
            out@ == ps@.subrange(0, i as int),
        decreases ps@.len() - i,
    {
        out.push(ps[i].copy());
        i = i + 1;
        assert(out@ =~= ps@.subrange(0, i as int));
    }
    assert(ps@.subrange(0, i as int) =~= ps@);
    out
}

} // verus!
