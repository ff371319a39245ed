//! The template engine.
//!
//! Templates are compiled and rendered by the `handlebars` crate. What this
//! module states of it is believed, not proved: each item says what it claims.

use std::collections::BTreeMap;

use handlebars::{no_escape, to_json, Handlebars, JsonValue, RenderError, TemplateError};
use vstd::prelude::*;

use crate::inclusion::cannot_recurse;

verus! {

/// `handlebars::Handlebars`, a registry of compiled templates.
#[verifier::external_type_specification]
#[verifier::external_body]
pub struct ExHandlebars<'reg>(Handlebars<'reg>);

/// `handlebars::TemplateError`, which says why a template does not compile.
#[verifier::external_type_specification]
#[verifier::external_body]
pub struct ExTemplateError(TemplateError);

/// `handlebars::RenderError`, which says why a template could not be rendered.
#[verifier::external_type_specification]
#[verifier::external_body]
pub struct ExRenderError(RenderError);

/// The two switches of a registry that this crate sets.
pub ghost struct Mode {
    /// Whether a template that names a field that the data lacks fails to render.
    pub strict: bool,
    /// Whether rendered values are escaped for HTML.
    pub escaping: bool,
}

/// The templates that a registry holds: under each name, the source that
/// was registered under it last.
pub uninterp spec fn registry_templates(registry: Handlebars<'static>) -> Map<Seq<char>, Seq<char>>;

/// How a registry renders, as long as nothing but the two switches of
/// [`Mode`] and its templates was changed since it was made; `None` after
/// any other change.
pub uninterp spec fn registry_mode(registry: Handlebars<'static>) -> Option<Mode>;

/// Whether `source` compiles as a template.
pub uninterp spec fn is_template(source: Seq<char>) -> bool;

/// What rendering the template `name` of `templates` gives, in the mode
/// `mode`, for the data that holds each text of `texts` and each number of
/// `numbers` under its key; `None` where rendering fails.
pub uninterp spec fn rendered(
    mode: Mode,
    templates: Map<Seq<char>, Seq<char>>,
    name: Seq<char>,
    texts: Seq<(Seq<char>, Seq<char>)>,
    numbers: Seq<(Seq<char>, u32)>,
) -> Option<Seq<char>>;

/// The templates of a registry that holds none.
pub open spec fn no_templates() -> Map<Seq<char>, Seq<char>> {
    Map::empty()
}

/// Text fields as their keys and values.
pub open spec fn texts_view(texts: Seq<(String, String)>) -> Seq<(Seq<char>, Seq<char>)> {
    texts.map_values(|field: (String, String)| (field.0@, field.1@))
}

/// Number fields as their keys and values.
pub open spec fn numbers_view(numbers: Seq<(String, u32)>) -> Seq<(Seq<char>, u32)> {
    numbers.map_values(|field: (String, u32)| (field.0@, field.1))
}

/// The text that rendering gave, if it gave one.
pub open spec fn text_of(result: Result<String, RenderError>) -> Option<Seq<char>> {
    match result {
        Ok(text) => Some(text@),
        Err(_) => None,
    }
}

/// `Handlebars::new` makes a registry without templates, which is not
/// strict and escapes for HTML.
#[verifier::external_body]
pub(crate) fn new_registry() -> (registry: Handlebars<'static>)
    ensures
        registry_templates(registry) == no_templates(),
        registry_mode(registry) == Some(Mode { strict: false, escaping: true }),
{
    Handlebars::new()
}

/// `Handlebars::set_strict_mode` sets the first switch and nothing else.
#[verifier::external_body]
pub(crate) fn set_strict_mode(registry: &mut Handlebars<'static>, enabled: bool)
    ensures
        registry_templates(*final(registry)) == registry_templates(*old(registry)),
        registry_mode(*final(registry)) == match registry_mode(*old(registry)) {
            Some(mode) => Some(Mode { strict: enabled, escaping: mode.escaping }),
            None => None,
        },
{
    registry.set_strict_mode(enabled);
}

/// `Handlebars::register_escape_fn`, handed `handlebars::no_escape`, which
/// returns its argument, turns escaping off and changes nothing else.
#[verifier::external_body]
pub(crate) fn disable_escaping(registry: &mut Handlebars<'static>)
    ensures
        registry_templates(*final(registry)) == registry_templates(*old(registry)),
        registry_mode(*final(registry)) == match registry_mode(*old(registry)) {
            Some(mode) => Some(Mode { strict: mode.strict, escaping: false }),
            None => None,
        },
{
    registry.register_escape_fn(no_escape);
}

/// `Handlebars::register_template_string` compiles `source` and, where it
/// compiles, puts it under `name`; where it does not, the registry stays as
/// it is. The switches are not touched.
#[verifier::external_body]
pub(crate) fn register_template_string(
    registry: &mut Handlebars<'static>,
    name: &str,
    source: &str,
) -> (result: Result<(), TemplateError>)
    ensures
        registry_mode(*old(registry)) is Some ==> (result is Ok <==> is_template(source@)),
        registry_mode(*final(registry)) == registry_mode(*old(registry)),
        registry_templates(*final(registry)) == if result is Ok {
            registry_templates(*old(registry)).insert(name@, source@)
        } else {
            registry_templates(*old(registry))
        },
{
    registry.register_template_string(name, source)
}

/// `Handlebars::render` renders the template `name` for data that holds
/// the fields given: the texts as strings, the numbers as numbers. The
/// result depends on nothing but the registry, the name and the data.
///
/// Nothing in the engine bounds how deep templates include each other, so
/// the call does not return for templates that include each other in a
/// circle. It is made only where the sources rule that out, in a registry
/// that holds no helper but those it was made with.
#[verifier::external_body]
pub(crate) fn render(
    registry: &Handlebars<'static>,
    name: &str,
    texts: &Vec<(String, String)>,
    numbers: &Vec<(String, u32)>,
) -> (result: Result<String, RenderError>)
    requires
        registry_mode(*registry) is Some,
        cannot_recurse(registry_templates(*registry)),
    ensures
        registry_mode(*registry) matches Some(mode) ==> text_of(result) == rendered(
            mode,
            registry_templates(*registry),
            name@,
            texts_view(texts@),
            numbers_view(numbers@),
        ),
{
    let texts = texts.iter().map(|(key, value)| (key.clone(), to_json(value)));
    let numbers = numbers.iter().map(|(key, value)| (key.clone(), to_json(value)));
    let data: BTreeMap<String, JsonValue> = texts.chain(numbers).collect();
    registry.render(name, &data)
}

} // verus!
