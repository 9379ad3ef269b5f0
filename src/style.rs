//! The style cascade: rules whose selectors match a node by id or class,
//! through its chain of ancestors.
use vstd::prelude::*;
use crate::props::{Prop, copy_props};

verus! {

/// The (id, class) pair of one ancestor node.
#[derive(Debug)]
pub struct IdClass {
    pub id: Option<String>,
    pub class: Option<String>,
}

/// One step of a selector: a node id or a node class.
#[derive(Debug)]
pub enum SelectorPart {
    Id(String),
    Class(String),
}

/// A style rule: a descendant selector (outermost part first) and the
/// properties that it sets.
#[derive(Debug)]
pub struct StyleRule {
    pub selector: Vec<SelectorPart>,
    pub props: Vec<Prop>,
}

/// The style rules of a source unit, in declaration order.
#[derive(Debug)]
pub struct Style {
    pub rules: Vec<StyleRule>,
}

pub open spec fn part_matches(part: SelectorPart, id: Option<String>, class: Option<String>) -> bool {
    match part {
        SelectorPart::Id(s) => id is Some && id->Some_0@ == s@,
        SelectorPart::Class(s) => class is Some && class->Some_0@ == s@,
    }
}

/// The parts match a subsequence of the chain, in order (descendant
/// combinators).
pub open spec fn ancestors_match(parts: Seq<SelectorPart>, chain: Seq<IdClass>) -> bool
    decreases chain.len(),
{
    if parts.len() == 0 {
        true
    } else if chain.len() == 0 {
        false
    } else if part_matches(parts.last(), chain.last().id, chain.last().class) {
        ancestors_match(parts.drop_last(), chain.drop_last())
    } else {
        ancestors_match(parts, chain.drop_last())
    }
}

/// A rule applies to a node when its last part matches the node itself and
/// the parts before it match ancestors.
pub open spec fn rule_matches(
    rule: StyleRule,
    id: Option<String>,
    class: Option<String>,
    chain: Seq<IdClass>,
) -> bool {
    let sel = rule.selector@;
    &&& sel.len() > 0
    &&& part_matches(sel.last(), id, class)
    &&& ancestors_match(sel.drop_last(), chain)
}

/// The property overrides that the rules contribute, in application order.
pub open spec fn overrides(
    rules: Seq<StyleRule>,
    id: Option<String>,
    class: Option<String>,
    chain: Seq<IdClass>,
) -> Seq<Seq<Prop>>
    decreases rules.len(),
{
    if rules.len() == 0 {
        seq![]
    } else {
        let rest = overrides(rules.drop_last(), id, class, chain);
        if rule_matches(rules.last(), id, class, chain) {
            rest.push(rules.last().props@)
        } else {
            rest
        }
    }
}

fn part_matches_exec(part: &SelectorPart, id: Option<&String>, class: Option<&String>) -> (r: bool)
    ensures
        r == part_matches(
            *part,
            match id { Some(x) => Some(*x), None => None },
            match class { Some(x) => Some(*x), None => None },
        ),
{
    match part {
        SelectorPart::Id(s) => match id {
            Some(x) => *x == *s,
            None => false,
        },
        SelectorPart::Class(s) => match class {
            Some(x) => *x == *s,
            None => false,
        },
    }
}

fn ancestors_match_exec(parts: &Vec<SelectorPart>, np: usize, chain: &Vec<IdClass>) -> (r: bool)
    requires
        np <= parts@.len(),
    ensures
        r == ancestors_match(parts@.subrange(0, np as int), chain@),
{
    let mut p: usize = np;
    let mut c: usize = chain.len();
    assert(chain@.subrange(0, c as int) =~= chain@);
    while p > 0 && c > 0
        invariant
            p <= np <= parts@.len(),
            c <= chain@.len(),
            ancestors_match(parts@.subrange(0, np as int), chain@) == ancestors_match(
                parts@.subrange(0, p as int),
                chain@.subrange(0, c as int),
            ),
        decreases c,
    {
        let ps = Ghost(parts@.subrange(0, p as int));
        let cs = Ghost(chain@.subrange(0, c as int));
        assert(ps@.drop_last() =~= parts@.subrange(0, p - 1));
        assert(cs@.drop_last() =~= chain@.subrange(0, c - 1));
        let link = &chain[c - 1];
        if part_matches_exec(&parts[p - 1], link.id.as_ref(), link.class.as_ref()) {
            p = p - 1;
        }
        c = c - 1;
    }
    p == 0
}

/// Returns the property overrides of every rule that matches a node with this
/// id and class under this chain of ancestors, in rule order: where two
/// overrides set the same key, the later one wins when merged.
pub fn resolve_overrides(
    style: &Style,
    id: &Option<String>,
    class: &Option<String>,
    chain: &Vec<IdClass>,
) -> (r: Vec<Vec<Prop>>)
    ensures
        r@.map_values(|v: Vec<Prop>| v@) == overrides(style.rules@, *id, *class, chain@),
{
    let mut out: Vec<Vec<Prop>> = Vec::new();
    let mut i: usize = 0;
    while i < style.rules.len()
        invariant
            i <= style.rules@.len(),
            out@.map_values(|v: Vec<Prop>| v@) == overrides(
                style.rules@.subrange(0, i as int),
                *id,
                *class,
                chain@,
            ),
        decreases style.rules@.len() - i,
    {
        let rule = &style.rules[i];
        assert(style.rules@.subrange(0, i + 1).drop_last() =~= style.rules@.subrange(0, i as int));
        let n = rule.selector.len();
        let hit = n > 0 && part_matches_exec(&rule.selector[n - 1], id.as_ref(), class.as_ref())
            && ancestors_match_exec(&rule.selector, n - 1, chain);
        proof {
            if n > 0 {
                assert(rule.selector@.drop_last() =~= rule.selector@.subrange(0, n - 1));
            }
        }
        if hit {
            let ghost before = out@;
            out.push(copy_props(&rule.props));
            assert(out@.map_values(|v: Vec<Prop>| v@) =~= before.map_values(|v: Vec<Prop>| v@).push(
                rule.props@,
            ));
        }
        i = i + 1;
    }
    assert(style.rules@.subrange(0, i as int) =~= style.rules@);
    out
}

} // verus!
