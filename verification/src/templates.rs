//! The three templates of a run, compiled by the template engine.

use crate::config::{join_key, label_key, template_key, Settings, SettingsView};
use crate::error::{Failure, FailureKind, TemplateName};
use handlebars::{Handlebars, RenderError, TemplateError};
use std::collections::BTreeMap;
use vstd::prelude::*;

verus! {

/// `handlebars::Handlebars`, the registry of the template engine. Nothing
/// inside it is visible here.
#[verifier::external_type_specification]
#[verifier::external_body]
pub struct ExHandlebars<'reg>(Handlebars<'reg>);

/// `handlebars::TemplateError`, the reason why a template was refused.
/// Nothing inside it is visible here.
#[verifier::external_type_specification]
#[verifier::external_body]
pub struct ExTemplateError(TemplateError);

/// `handlebars::RenderError`, the reason why a rendering failed. Nothing
/// inside it is visible here.
#[verifier::external_type_specification]
#[verifier::external_body]
pub struct ExRenderError(RenderError);

/// A registry of the template engine.
pub type Registry = Handlebars<'static>;

/// The templates that a registry holds: their sources, by name.
pub uninterp spec fn registered(registry: Registry) -> Map<Seq<char>, Seq<char>>;

/// Whether a registry escapes markup in the values that it substitutes.
pub uninterp spec fn escapes_markup(registry: Registry) -> bool;

/// Whether a registry is set up as the engine makes it: with the helpers
/// that are built in and no other, and with every mode as the engine sets
/// it.
pub uninterp spec fn set_up_plainly(registry: Registry) -> bool;

/// What the template engine renders for the template of the given name with
/// the given fields as data, among the given templates; nothing where the
/// rendering fails. A field without a value is the null value.
pub uninterp spec fn rendering(
    templates: Map<Seq<char>, Seq<char>>,
    escaping: bool,
    name: Seq<char>,
    data: Seq<(Seq<char>, Option<Seq<char>>)>,
) -> Option<Seq<char>>;

/// The content of a registry without templates.
pub open spec fn no_templates() -> Map<Seq<char>, Seq<char>> {
    Map::empty()
}

/// The fields as the contracts see them.
pub open spec fn field_views(fields: Seq<(&str, Option<&str>)>) -> Seq<
    (Seq<char>, Option<Seq<char>>),
> {
    Seq::new(
        fields.len(),
        |i: int|
            (
                fields[i].0@,
                match fields[i].1 {
                    Some(value) => Some(value@),
                    None => None,
                },
            ),
    )
}

/// `handlebars::Handlebars::new`: a registry without templates, set up as
/// the engine makes it, which escapes markup.
#[verifier::external_body]
fn new_registry() -> (fresh: Registry)
    ensures
        registered(fresh) == no_templates(),
        escapes_markup(fresh),
        set_up_plainly(fresh),
{
    Handlebars::new()
}

/// `handlebars::Handlebars::register_escape_fn` with `handlebars::no_escape`:
/// from then on the registry substitutes values as they are. Its templates
/// and the rest of its setup stay.
#[verifier::external_body]
fn disable_escaping(registry: &mut Registry)
    ensures
        registered(*final(registry)) == registered(*old(registry)),
        set_up_plainly(*final(registry)) == set_up_plainly(*old(registry)),
        !escapes_markup(*final(registry)),
{
    registry.register_escape_fn(handlebars::no_escape)
}

/// `handlebars::Handlebars::register_template_string`. Whether the engine
/// takes a source is not for this library to say: its parser gives up where
/// little stack is left or where a budget of the whole process is spent, so
/// one source may be taken on one call and refused on the next. On success
/// the registry holds the source under the name, in place of an earlier
/// template of that name; on failure its templates are unchanged. Its setup
/// stays either way.
#[verifier::external_body]
fn register_template(registry: &mut Registry, name: &str, source: &str) -> (outcome:
    Result<(), TemplateError>)
    ensures
        escapes_markup(*final(registry)) == escapes_markup(*old(registry)),
        set_up_plainly(*final(registry)) == set_up_plainly(*old(registry)),
        registered(*final(registry)) == if outcome is Ok {
            registered(*old(registry)).insert(name@, source@)
        } else {
            registered(*old(registry))
        },
{
    registry.register_template_string(name, source)
}

/// `handlebars::Handlebars::render` with a map from field names to optional
/// texts as data. For a registry that is set up as the engine makes it, the
/// outcome depends on the registered templates, on whether markup is
/// escaped, on the name and on the fields alone. Templates that include one
/// another could keep the engine from returning; no template of the
/// registry includes any.
#[verifier::external_body]
fn render(registry: &Registry, name: &str, fields: &Vec<(&str, Option<&str>)>) -> (outcome:
    Result<String, RenderError>)
    requires
        set_up_plainly(*registry),
        self_contained(registered(*registry)),
    ensures
        match outcome {
            Ok(text) => rendering(
                registered(*registry),
                escapes_markup(*registry),
                name@,
                field_views(fields@),
            ) == Some(text@),
            Err(_) => rendering(
                registered(*registry),
                escapes_markup(*registry),
                name@,
                field_views(fields@),
            ) is None,
        },
{
    let data: BTreeMap<&str, Option<&str>> = fields.iter().copied().collect();
    registry.render(name, &data)
}

/// `handlebars::TemplateError` as a message, by its `to_string`. Nothing is
/// claimed of the message.
#[verifier::external_body]
fn template_error_message(error: &TemplateError) -> (message: String) {
    error.to_string()
}

/// `handlebars::RenderError` as a message, by its `to_string`. Nothing is
/// claimed of the message.
#[verifier::external_body]
fn render_error_message(error: &RenderError) -> (message: String) {
    error.to_string()
}

/// The templates of the given settings, by the names under which they are
/// registered.
pub open spec fn template_map(settings: SettingsView) -> Map<Seq<char>, Seq<char>> {
    no_templates().insert(join_key(), settings.join).insert(
        label_key(),
        settings.label,
    ).insert(template_key(), settings.template)
}

/// The separator between links, rendered for a document with the given line
/// ending.
pub open spec fn rendered_separator(settings: SettingsView, newline: Seq<char>) -> Option<
    Seq<char>,
> {
    rendering(template_map(settings), false, join_key(), seq![("newline"@, Some(newline))])
}

/// The visible text of a link to the fragment of the given name.
pub open spec fn rendered_label(settings: SettingsView, name: Seq<char>) -> Option<Seq<char>> {
    rendering(template_map(settings), false, label_key(), seq![("label"@, Some(name))])
}

/// The block of references, rendered from the list of links to the fragments
/// that a fragment refers to and from the list of links to those that refer
/// to it.
pub open spec fn rendered_block(
    settings: SettingsView,
    macros: Option<Seq<char>>,
    usage: Option<Seq<char>>,
    newline: Seq<char>,
) -> Option<Seq<char>> {
    rendering(
        template_map(settings),
        false,
        template_key(),
        seq![("macros"@, macros), ("usage"@, usage), ("newline"@, Some(newline))],
    )
}

/// Whether a tag is open behind the first `n` characters of a source: the
/// last pair of equal braces in front of that place, if there is one, is an
/// opening pair.
pub open spec fn tag_open(source: Seq<char>, n: int) -> bool
    decreases n,
{
    if n < 2 {
        false
    } else if source[n - 2] == '{' && source[n - 1] == '{' {
        true
    } else if source[n - 2] == '}' && source[n - 1] == '}' {
        false
    } else {
        tag_open(source, n - 1)
    }
}

/// Whether a source may include another template: a `>` stands inside a tag.
/// Every tag that includes a template holds one.
pub open spec fn may_include(source: Seq<char>) -> bool {
    exists|at: int| 0 <= at < source.len() && source[at] == '>' && #[trigger] tag_open(source, at)
}

/// No template includes another.
pub open spec fn self_contained(templates: Map<Seq<char>, Seq<char>>) -> bool {
    forall|name: Seq<char>|
        templates.contains_key(name) ==> !may_include(#[trigger] templates[name])
}

/// The first template that may include another, in the order separator,
/// label, block; none where no template may.
pub open spec fn first_inclusion(settings: SettingsView) -> Option<TemplateName> {
    if may_include(settings.join) {
        Some(TemplateName::Join)
    } else if may_include(settings.label) {
        Some(TemplateName::Label)
    } else if may_include(settings.template) {
        Some(TemplateName::Template)
    } else {
        None
    }
}

/// Whether a source may include another template.
pub fn includes_templates(source: &str) -> (found: bool)
    ensures
        found == may_include(source@),
{
    let mut open = false;
    let mut previous: Option<char> = None;
    for c in it: source.chars()
        invariant
            it.seq() == source@,
            open == tag_open(source@, it.index()),
            previous == if it.index() > 0 {
                Some(source@[it.index() - 1])
            } else {
                None::<char>
            },
            forall|at: int|
                0 <= at < it.index() ==> !(source@[at] == '>' && #[trigger] tag_open(source@, at)),
    {
        if c == '>' && open {
            return true;
        }
        match previous {
            Some(before) => {
                if before == '{' && c == '{' {
                    open = true;
                } else if before == '}' && c == '}' {
                    open = false;
                }
            },
            None => {},
        }
        previous = Some(c);
    }
    false
}

/// The failure of a template that may include another.
fn inclusion(which: TemplateName) -> (failure: Failure)
    ensures
        failure.kind == FailureKind::Inclusion(which),
{
    Failure {
        kind: FailureKind::Inclusion(which),
        message: String::from_str("a template may not include another template"),
    }
}

/// Looks for a template that may include another, in the order separator,
/// label, block, and fails with the first one found. The engine is not
/// asked.
pub fn refuse_inclusions(settings: &Settings) -> (outcome: Result<(), Failure>)
    ensures
        outcome is Ok <==> first_inclusion(settings@) is None,
        outcome matches Err(failure) ==> first_inclusion(settings@) matches Some(which)
            && failure.kind == FailureKind::Inclusion(which),
{
    if includes_templates(settings.join.as_str()) {
        Err(inclusion(TemplateName::Join))
    } else if includes_templates(settings.label.as_str()) {
        Err(inclusion(TemplateName::Label))
    } else if includes_templates(settings.template.as_str()) {
        Err(inclusion(TemplateName::Template))
    } else {
        Ok(())
    }
}

/// What the engine's answer to a template means for the run: its consent
/// is success, its refusal the failure of that template, with the engine's
/// message.
pub fn engine_verdict(which: TemplateName, answer: Result<(), TemplateError>) -> (outcome: Result<
    (),
    Failure,
>)
    ensures
        outcome is Ok <==> answer is Ok,
        outcome matches Err(failure) ==> failure.kind == FailureKind::Template(which),
{
    match answer {
        Ok(_) => Ok(()),
        Err(error) => Err(
            Failure { kind: FailureKind::Template(which), message: template_error_message(&error) },
        ),
    }
}

/// Hands a template to the engine. Where the engine refuses it, the failure
/// is that of this template and the registry holds what it held.
fn add_template(registry: &mut Registry, which: TemplateName, key: &str, source: &str) -> (outcome:
    Result<(), Failure>)
    ensures
        outcome matches Err(failure) ==> failure.kind == FailureKind::Template(which),
        escapes_markup(*final(registry)) == escapes_markup(*old(registry)),
        set_up_plainly(*final(registry)) == set_up_plainly(*old(registry)),
        registered(*final(registry)) == if outcome is Ok {
            registered(*old(registry)).insert(key@, source@)
        } else {
            registered(*old(registry))
        },
{
    engine_verdict(which, register_template(registry, key, source))
}

/// The compiled templates of a run.
pub struct Templates {
    registry: Registry,
}

impl View for Templates {
    type V = SettingsView;

    /// The sources that the templates were compiled from.
    closed spec fn view(&self) -> SettingsView {
        SettingsView {
            join: registered(self.registry)[join_key()],
            label: registered(self.registry)[label_key()],
            template: registered(self.registry)[template_key()],
        }
    }
}

impl Templates {
    /// The registry holds the three templates and no other, and substitutes
    /// values as they are.
    pub closed spec fn wf(&self) -> bool {
        &&& registered(self.registry) == template_map(self@)
        &&& self_contained(registered(self.registry))
        &&& set_up_plainly(self.registry)
        &&& !escapes_markup(self.registry)
    }

    /// Compiles the three templates. A template that may include another
    /// is refused before the engine is asked, the first such template in the
    /// order separator, label, block. Then the engine takes the templates in
    /// that order, and the first that it refuses ends the attempt. Whether
    /// the engine takes a template is the engine's to say.
    pub fn compile(settings: &Settings) -> (outcome: Result<Templates, Failure>)
        ensures
            first_inclusion(settings@) is Some ==> outcome is Err,
            outcome matches Ok(templates) ==> templates.wf() && templates@ == settings@
                && first_inclusion(settings@) is None,
            outcome matches Err(failure) ==> match first_inclusion(settings@) {
                Some(which) => failure.kind == FailureKind::Inclusion(which),
                None => failure.kind is Template,
            },
    {
        match refuse_inclusions(settings) {
            Ok(_) => {},
            Err(failure) => {
                return Err(failure);
            },
        }
        let mut registry = new_registry();
        disable_escaping(&mut registry);
        match add_template(&mut registry, TemplateName::Join, "join", settings.join.as_str()) {
            Ok(_) => {},
            Err(failure) => {
                return Err(failure);
            },
        }
        match add_template(&mut registry, TemplateName::Label, "label", settings.label.as_str()) {
            Ok(_) => {},
            Err(failure) => {
                return Err(failure);
            },
        }
        match add_template(
            &mut registry,
            TemplateName::Template,
            "template",
            settings.template.as_str(),
        ) {
            Ok(_) => {},
            Err(failure) => {
                return Err(failure);
            },
        }
        let templates = Templates { registry };
        proof {
            lemma_keys_distinct();
            assert(templates@ == settings@);
        }
        Ok(templates)
    }

    /// Renders the separator between links for a document with the given
    /// line ending.
    pub fn render_separator(&self, newline: &str) -> (outcome: Result<String, Failure>)
        requires
            self.wf(),
        ensures
            match outcome {
                Ok(text) => rendered_separator(self@, newline@) == Some(text@),
                Err(error) => rendered_separator(self@, newline@) is None && error.kind
                    == FailureKind::Render(TemplateName::Join),
            },
    {
        let mut fields: Vec<(&str, Option<&str>)> = Vec::new();
        fields.push(("newline", Some(newline)));
        proof {
            assert(field_views(fields@) == seq![("newline"@, Some(newline@))]);
        }
        match render(&self.registry, "join", &fields) {
            Ok(text) => Ok(text),
            Err(error) => Err(
                Failure {
                    kind: FailureKind::Render(TemplateName::Join),
                    message: render_error_message(&error),
                },
            ),
        }
    }

    /// Renders the visible text of a link to the fragment of the given name.
    pub fn render_label(&self, name: &str) -> (outcome: Result<String, Failure>)
        requires
            self.wf(),
        ensures
            match outcome {
                Ok(text) => rendered_label(self@, name@) == Some(text@),
                Err(error) => rendered_label(self@, name@) is None && error.kind
                    == FailureKind::Render(TemplateName::Label),
            },
    {
        let mut fields: Vec<(&str, Option<&str>)> = Vec::new();
        fields.push(("label", Some(name)));
        proof {
            assert(field_views(fields@) == seq![("label"@, Some(name@))]);
        }
        match render(&self.registry, "label", &fields) {
            Ok(text) => Ok(text),
            Err(error) => Err(
                Failure {
                    kind: FailureKind::Render(TemplateName::Label),
                    message: render_error_message(&error),
                },
            ),
        }
    }

    /// Renders the block of references from its two lists of links, each of
    /// which may be absent.
    pub fn render_block(&self, macros: Option<&str>, usage: Option<&str>, newline: &str) -> (outcome:
        Result<String, Failure>)
        requires
            self.wf(),
        ensures
            match outcome {
                Ok(text) => rendered_block(
                    self@,
                    text_view(macros),
                    text_view(usage),
                    newline@,
                ) == Some(text@),
                Err(error) => rendered_block(
                    self@,
                    text_view(macros),
                    text_view(usage),
                    newline@,
                ) is None && error.kind == FailureKind::Render(TemplateName::Template),
            },
    {
        let mut fields: Vec<(&str, Option<&str>)> = Vec::new();
        fields.push(("macros", macros));
        fields.push(("usage", usage));
        fields.push(("newline", Some(newline)));
        proof {
            assert(field_views(fields@) == seq![
                ("macros"@, text_view(macros)),
                ("usage"@, text_view(usage)),
                ("newline"@, Some(newline@)),
            ]);
        }
        match render(&self.registry, "template", &fields) {
            Ok(text) => Ok(text),
            Err(error) => Err(
                Failure {
                    kind: FailureKind::Render(TemplateName::Template),
                    message: render_error_message(&error),
                },
            ),
        }
    }
}

/// The view of a text that may be absent.
pub open spec fn text_view(text: Option<&str>) -> Option<Seq<char>> {
    match text {
        Some(value) => Some(value@),
        None => None,
    }
}

/// The three names under which the templates are registered differ.
pub proof fn lemma_keys_distinct()
    ensures
        join_key() != label_key(),
        join_key() != template_key(),
        label_key() != template_key(),
{
    reveal_strlit("join");
    reveal_strlit("label");
    reveal_strlit("template");
    assert(join_key().len() == 4);
    assert(label_key().len() == 5);
    assert(template_key().len() == 8);
}

} // verus!
