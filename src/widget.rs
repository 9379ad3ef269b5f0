//! The resolved widget of a source unit, and the entry points that build it.
use vstd::prelude::*;
use crate::error::BuildError;
use crate::role::{Role, copy_opt_string};
use crate::style::{IdClass, Style};
use crate::template::{
    PollEntry, TemplateNode, TemplateResult, WidgetTemplate, handle_template, is_static_exec, is_static_node,
    node_ok, widget_body, is_for_node, local_error, poll_after, poll_view, pool_extends, pooled,
};
use crate::widget_type::{Catalog, classify, kind_of, unknown_prop};

verus! {

/// The script of a unit, as the script stage resolved it, or the default
/// script made for a unit that only has a template.
#[derive(Debug)]
pub enum Script {
    /// Script code that declares the component of the unit itself.
    Component(String),
    /// Script code that declares no component.
    Plain(String),
    /// The default script of a widget, patched with plain code if any.
    Default { root: String, patch: Option<String> },
}

/// Which of template, script and style a unit has.
#[derive(Debug, PartialEq, Eq, Structural, Clone, Copy)]
pub enum Strategy {
    Empty,
    SingleTemplate,
    SingleScript,
    SingleStyle,
    TemplateScript,
    TemplateStyle,
    ScriptStyle,
    All,
}

impl Strategy {
    pub open spec fn spec_of(template: bool, script: bool, style: bool) -> Strategy {
        match (template, script, style) {
            (false, false, false) => Strategy::Empty,
            (true, false, false) => Strategy::SingleTemplate,
            (false, true, false) => Strategy::SingleScript,
            (false, false, true) => Strategy::SingleStyle,
            (true, true, false) => Strategy::TemplateScript,
            (true, false, true) => Strategy::TemplateStyle,
            (false, true, true) => Strategy::ScriptStyle,
            (true, true, true) => Strategy::All,
        }
    }

    /// The strategy for the sections that a unit has.
    pub fn of(template: bool, script: bool, style: bool) -> (r: Strategy)
        ensures
            r == Strategy::spec_of(template, script, style),
    {
        match (template, script, style) {
            (false, false, false) => Strategy::Empty,
            (true, false, false) => Strategy::SingleTemplate,
            (false, true, false) => Strategy::SingleScript,
            (false, false, true) => Strategy::SingleStyle,
            (true, true, false) => Strategy::TemplateScript,
            (true, false, true) => Strategy::TemplateStyle,
            (false, true, true) => Strategy::ScriptStyle,
            (true, true, true) => Strategy::All,
        }
    }
}

/// A parsed source unit: its sections, as the parser gave them.
#[derive(Debug)]
pub struct Model {
    pub source: String,
    pub template: Option<TemplateNode>,
    pub script: Option<Script>,
    pub style: Option<Style>,
    pub is_entry: bool,
    pub has_plugin: bool,
}

/// The resolved widget of one source unit.
#[derive(Debug)]
pub struct Widget {
    pub source: String,
    pub is_entry: bool,
    pub template: Option<WidgetTemplate>,
    pub template_ptrs: Option<Vec<WidgetTemplate>>,
    pub script: Option<Script>,
    pub has_plugin: bool,
}

// ---------------------------------------------------------------------------
// A template with no script and no style.

/// The structural error of a node of a purely static template.
pub open spec fn static_error(n: TemplateNode) -> Option<BuildError> {
    if n.callbacks@.len() > 0 {
        Some(BuildError::StaticCallbacks)
    } else if n.inherits is Some {
        Some(BuildError::StaticInherits)
    } else {
        None
    }
}

pub open spec fn static_ok(n: TemplateNode, catalog: Catalog) -> bool
    decreases n,
{
    &&& static_error(n) is None
    &&& unknown_prop(catalog, n.name@, n.props@) is None
    &&& forall|i: int| 0 <= i < n.children@.len() ==> static_ok(#[trigger] n.children@[i], catalog)
}

/// A widget resolved from a node of a static template: every child is
/// rendered, in order, and no node has a role or bindings.
pub open spec fn static_body(w: WidgetTemplate, n: TemplateNode, catalog: Catalog) -> bool
    decreases n,
{
    &&& w.id == n.id
    &&& w.is_root == n.root
    &&& w.as_prop == n.as_prop
    &&& w.is_static == is_static_node(n)
    &&& w.ty.kind == kind_of(catalog, n.name@)
    &&& w.ty.name == n.name
    &&& w.ty.props@ == n.props@
    &&& w.ty.root == n.root
    &&& w.role is Normal
    &&& w.binds@.len() == 0
    &&& w.children@.len() == n.children@.len()
    &&& forall|i: int|
        0 <= i < n.children@.len() ==> static_body(#[trigger] w.children@[i], n.children@[i], catalog)
}

/// Resolves a node of a template that has neither script nor style.
pub fn handle_static(node: &TemplateNode, catalog: &Catalog) -> (r: Result<WidgetTemplate, BuildError>)
    ensures
        r is Ok <==> static_ok(*node, *catalog),
        static_error(*node) is Some ==> r == Err::<WidgetTemplate, BuildError>(static_error(*node)->Some_0),
        match r {
            Ok(w) => static_body(w, *node, *catalog),
            Err(_) => true,
        },
    decreases node,
{
    if node.callbacks.len() > 0 {
        return Err(BuildError::StaticCallbacks);
    }
    if node.inherits.is_some() {
        return Err(BuildError::StaticInherits);
    }
    let is_static = is_static_exec(node);
    let ty = match classify(catalog, &node.name, &node.props, node.root) {
        Ok(t) => t,
        Err(e) => {
            return Err(e);
        },
    };
    let mut children: Vec<WidgetTemplate> = Vec::new();
    let mut i: usize = 0;
    while i < node.children.len()
        invariant
            i <= node.children@.len(),
            static_error(*node) is None,
            unknown_prop(*catalog, node.name@, node.props@) is None,
            children@.len() == i,
            forall|k: int| 0 <= k < i ==> static_ok(#[trigger] node.children@[k], *catalog),
            forall|k: int|
                0 <= k < i ==> static_body(#[trigger] children@[k], node.children@[k], *catalog),
        decreases node.children@.len() - i,
    {
        proof {
            assert(decreases_to!(*node => node.children[i as int]));
        }
        match handle_static(&node.children[i], catalog) {
            Ok(w) => {
                children.push(w);
            },
            Err(e) => {
                return Err(e);
            },
        }
        i = i + 1;
    }
    Ok(WidgetTemplate {
        id: copy_opt_string(&node.id),
        is_root: node.root,
        as_prop: node.as_prop,
        is_static,
        ty,
        children,
        role: Role::Normal,
        binds: Vec::new(),
    })
}


// ---------------------------------------------------------------------------
// The widget.

/// The root widget defines the unit's own component.
pub open spec fn is_define_root(t: WidgetTemplate) -> bool {
    t.is_root && t.ty.kind == crate::widget_type::WidgetKind::Define
}

/// The name a default script gives the root widget: its id, or else its tag.
pub open spec fn root_name(t: WidgetTemplate) -> String {
    match t.id {
        Some(id) => id,
        None => t.ty.name,
    }
}

/// The script after patching: with a template, a plain script becomes the
/// default script of a defined root, patched with it, and a missing script
/// becomes that default script; a root that is not defined here gets none.
pub open spec fn patched_script(template: Option<WidgetTemplate>, script: Option<Script>) -> Option<Script> {
    match template {
        None => script,
        Some(t) => match script {
            Some(Script::Plain(code)) => if is_define_root(t) {
                Some(Script::Default { root: root_name(t), patch: Some(code) })
            } else {
                None
            },
            None => if is_define_root(t) {
                Some(Script::Default { root: root_name(t), patch: None })
            } else {
                None
            },
            other => other,
        },
    }
}

fn is_define_root_exec(t: &WidgetTemplate) -> (r: bool)
    ensures
        r == is_define_root(*t),
{
    t.is_root && t.ty.kind == crate::widget_type::WidgetKind::Define
}

fn root_name_exec(t: &WidgetTemplate) -> (r: String)
    ensures
        r == root_name(*t),
{
    match &t.id {
        Some(id) => id.clone(),
        None => t.ty.name.clone(),
    }
}

impl Widget {
    /// The widget of an empty unit.
    pub fn empty(source: String, is_entry: bool) -> (r: Widget)
        ensures
            r.source == source,
            r.is_entry == is_entry,
            r.template is None,
            r.template_ptrs is None,
            r.script is None,
            !r.has_plugin,
    {
        Widget { source, is_entry, template: None, template_ptrs: None, script: None, has_plugin: false }
    }

    /// Gives a defined root widget its default script, patched with a plain
    /// script if there is one.
    pub fn patch_or_default_script(&mut self)
        ensures
            final(self).source == old(self).source,
            final(self).is_entry == old(self).is_entry,
            final(self).template == old(self).template,
            final(self).template_ptrs == old(self).template_ptrs,
            final(self).has_plugin == old(self).has_plugin,
            final(self).script == patched_script(old(self).template, old(self).script),
    {
        let script = self.script.take();
        let next = match &self.template {
            None => script,
            Some(t) => match script {
                Some(Script::Plain(code)) => if is_define_root_exec(t) {
                    Some(Script::Default { root: root_name_exec(t), patch: Some(code) })
                } else {
                    None
                },
                None => if is_define_root_exec(t) {
                    Some(Script::Default { root: root_name_exec(t), patch: None })
                } else {
                    None
                },
                other => other,
            },
        };
        self.script = next;
    }

    pub fn is_empty(&self) -> (r: bool)
        ensures
            r == (self.template is None && self.script is None),
    {
        self.template.is_none() && self.script.is_none()
    }
}

/// Resolves a unit that has only a template: every node must be static.
pub fn single_template(source: String, template: Option<TemplateNode>, is_entry: bool, catalog: &Catalog) -> (r: Result<Widget, BuildError>)
    ensures
        r is Ok <==> (template is None || static_ok(template->Some_0, *catalog)),
        match r {
            Ok(w) => single_widget(w, source, template, is_entry, *catalog),
            Err(e) => template is Some && (static_error(template->Some_0) is Some
                ==> e == static_error(template->Some_0)->Some_0),
        },
{
    let resolved = match &template {
        Some(t) => match handle_static(t, catalog) {
            Ok(w) => Some(w),
            Err(e) => {
                return Err(e);
            },
        },
        None => None,
    };
    let mut widget = Widget {
        source,
        template: resolved,
        script: None,
        is_entry,
        has_plugin: false,
        template_ptrs: None,
    };
    widget.patch_or_default_script();
    Ok(widget)
}

/// The widget that the full builder makes of a unit: the rendered tree of
/// the template, the widgets of its virtual nodes in the side pool (absent
/// when there are none), and the script, patched.
pub open spec fn all_widget(
    w: Widget,
    source: String,
    template: Option<TemplateNode>,
    script: Option<Script>,
    style: Option<Style>,
    is_entry: bool,
    has_plugin: bool,
    catalog: Catalog,
) -> bool {
    &&& w.source == source
    &&& w.is_entry == is_entry
    &&& w.has_plugin == has_plugin
    &&& match template {
        None => {
            &&& w.template is None
            &&& w.template_ptrs is None
        },
        Some(t) => {
            let slots = pooled(t, seq![], 0, true);
            &&& (w.template is Some <==> !is_for_node(t))
            &&& w.template is Some ==> widget_body(w.template->Some_0, t, style, catalog, seq![])
            &&& w.template is Some ==> w.template->Some_0.role is Normal
            &&& match w.template_ptrs {
                Some(ps) => slots.len() > 0 && pool_extends(ps@, seq![], slots, style, catalog),
                None => slots.len() == 0,
            }
        },
    }
    &&& w.script == patched_script(
        w.template,
        match script {
            Some(s) => Some(s),
            None => match w.template {
                Some(t) => Some(Script::Default { root: root_name(t), patch: None }),
                None => None,
            },
        },
    )
}

/// The widget that a unit with only a template makes.
pub open spec fn single_widget(
    w: Widget,
    source: String,
    template: Option<TemplateNode>,
    is_entry: bool,
    catalog: Catalog,
) -> bool {
    &&& w.source == source
    &&& w.is_entry == is_entry
    &&& !w.has_plugin
    &&& w.template_ptrs is None
    &&& (w.template is Some <==> template is Some)
    &&& w.template is Some ==> static_body(w.template->Some_0, template->Some_0, catalog)
    &&& w.script == patched_script(w.template, None)
}

/// Resolves a unit with a template and a script or style: the tree builder
/// runs on the template; the callable-widget pool it fills is handed back
/// beside the widget, for the script stage.
pub fn all(
    source: String,
    template: Option<TemplateNode>,
    script: Option<Script>,
    style: Option<Style>,
    is_entry: bool,
    has_plugin: bool,
    catalog: &Catalog,
) -> (r: Result<(Widget, Vec<PollEntry>), BuildError>)
    ensures
        r is Ok <==> (template is None || node_ok(template->Some_0, style, *catalog, seq![])),
        template is Some && local_error(template->Some_0) is Some ==> r == Err::<(Widget, Vec<PollEntry>), BuildError>(
            local_error(template->Some_0)->Some_0,
        ),
        match r {
            Ok((w, poll)) => {
                &&& all_widget(w, source, template, script, style, is_entry, has_plugin, *catalog)
                &&& match template {
                    None => poll@.len() == 0,
                    Some(t) => poll_view(poll@) == poll_after(seq![], t),
                }
            },
            Err(_) => template is Some,
        },
{
    let mut widget_poll: Vec<PollEntry> = Vec::new();
    let mut template_ptrs: Vec<WidgetTemplate> = Vec::new();
    let mut chain: Vec<IdClass> = Vec::new();
    let resolved = match &template {
        Some(t) => {
            assert(chain@ =~= seq![]);
            assert(poll_view(widget_poll@) =~= seq![]);
            match handle_template(t, &style, catalog, &mut template_ptrs, &mut widget_poll, &mut chain, 0, Role::Normal) {
                Ok(TemplateResult::Widget(w)) => Some(w),
                Ok(TemplateResult::Role(_)) => None,
                Err(e) => {
                    return Err(e);
                },
            }
        },
        None => None,
    };
    let script = match script {
        Some(s) => Some(s),
        None => match &resolved {
            Some(t) => Some(Script::Default { root: root_name_exec(t), patch: None }),
            None => None,
        },
    };
    let template_ptrs = if template_ptrs.len() == 0 {
        None
    } else {
        Some(template_ptrs)
    };
    let mut widget = Widget { source, template: resolved, template_ptrs, script, is_entry, has_plugin };
    widget.patch_or_default_script();
    Ok((widget, widget_poll))
}

impl Widget {
    /// Resolves a unit by the sections it has. A unit with a template and
    /// nothing else is resolved as a static template; any other unit with a
    /// template goes through the full builder; a unit without a template keeps
    /// its script.
    pub fn new(model: Model, catalog: &Catalog) -> (r: Result<Widget, BuildError>)
        ensures
            model.template is None ==> r is Ok,
            model.template is Some && model.script is None && model.style is None ==> (r is Ok
                <==> static_ok(model.template->Some_0, *catalog)),
            model.template is Some && (model.script is Some || model.style is Some) ==> (r is Ok
                <==> node_ok(model.template->Some_0, model.style, *catalog, seq![])),
            match r {
                Ok(w) => if model.template is None && model.script is None && model.style is None {
                    &&& w.source == model.source
                    &&& w.is_entry == model.is_entry
                    &&& w.template is None
                    &&& w.template_ptrs is None
                    &&& w.script is None
                    &&& !w.has_plugin
                } else if model.script is None && model.style is None {
                    single_widget(w, model.source, model.template, model.is_entry, *catalog)
                } else {
                    all_widget(
                        w,
                        model.source,
                        model.template,
                        model.script,
                        model.style,
                        model.is_entry,
                        model.has_plugin,
                        *catalog,
                    )
                },
                Err(_) => true,
            },
    {
        let Model { source, template, script, style, is_entry, has_plugin } = model;
        let strategy = Strategy::of(template.is_some(), script.is_some(), style.is_some());
        match strategy {
            Strategy::Empty => Ok(Widget::empty(source, is_entry)),
            Strategy::SingleTemplate => single_template(source, template, is_entry, catalog),
            _ => match all(source, template, script, style, is_entry, has_plugin, catalog) {
                Ok((w, _)) => Ok(w),
                Err(e) => Err(e),
            },
        }
    }
}

} // verus!
