//! The configuration that every request shares, and what is asked of it
//! before the first request is taken.
//!
//! The templates live in a `tera::Tera`. Which templates it holds is taken on
//! trust and named; the search among them is verified.

use vstd::prelude::*;
use crate::error::GalleryError;

verus! {

/// The template that the index page is rendered from.
pub const INDEX_TEMPLATE: &'static str = "index.html";

/// `tera::Tera`: the template engine with the templates it has loaded.
#[verifier::external_type_specification]
#[verifier::external_body]
pub struct ExTera(tera::Tera);

/// The names of the templates that an engine holds, as
/// `tera::Tera::get_template_names` gives them.
pub uninterp spec fn loaded_templates(engine: tera::Tera) -> Set<Seq<char>>;

/// Walks `tera::Tera::get_template_names` and hands out each name as a
/// string.
///
/// Trusted: the names handed out are, as a set, the ones that
/// `loaded_templates` names. Nothing is claimed of their order.
#[verifier::external_body]
fn template_names(engine: &tera::Tera) -> (names: Vec<String>)
    ensures
        names.deep_view().to_set() == loaded_templates(*engine),
{
    let mut names = Vec::new();
    for name in engine.get_template_names() {
        names.push(name.to_string());
    }
    names
}

/// Whether the name is among the names.
pub fn contains_name(names: &Vec<String>, wanted: &str) -> (found: bool)
    ensures
        found == names.deep_view().contains(wanted@),
{
    let key = wanted.to_owned();
    let mut i: usize = 0;
    while i < names.len()
        invariant
            i <= names.len(),
            key@ == wanted@,
            forall|k: int| 0 <= k < i ==> names.deep_view()[k] != wanted@,
        decreases names.len() - i,
    {
        if names[i] == key {
            assert(names.deep_view()[i as int] == wanted@);
            return true;
        }
        i += 1;
    }
    false
}

/// What every request shares: the template engine.
pub struct Context {
    pub tera: tera::Tera,
}

impl Context {
    /// The index template is loaded, so that an index request can be
    /// rendered.
    pub open spec fn ready(&self) -> bool {
        loaded_templates(self.tera).contains(INDEX_TEMPLATE@)
    }

    /// Takes the engine into the shared configuration, if it holds the index
    /// template. An engine without it is refused with `TemplateError`: no
    /// index request could ever succeed with it.
    pub fn new(tera: tera::Tera) -> (made: Result<Context, GalleryError>)
        ensures
            match made {
                Ok(context) => context.tera == tera && context.ready(),
                Err(e) => e == GalleryError::TemplateError && !loaded_templates(tera).contains(
                    INDEX_TEMPLATE@,
                ),
            },
    {
        let names = template_names(&tera);
        if contains_name(&names, INDEX_TEMPLATE) {
            Ok(Context { tera })
        } else {
            Err(GalleryError::TemplateError)
        }
    }

    /// Whether the engine holds a template of that name.
    pub fn has_template(&self, template_name: &str) -> (found: bool)
        ensures
            found == loaded_templates(self.tera).contains(template_name@),
    {
        let names = template_names(&self.tera);
        contains_name(&names, template_name)
    }
}

/// What a rendering comes to: the page where the engine gave one,
/// `TemplateError` where it gave none.
pub fn rendered_page(rendered: Option<String>) -> (page: Result<String, GalleryError>)
    ensures
        match rendered {
            Some(html) => page == Ok::<String, GalleryError>(html),
            None => page == Err::<String, GalleryError>(GalleryError::TemplateError),
        },
{
    match rendered {
        Some(html) => Ok(html),
        None => Err(GalleryError::TemplateError),
    }
}

} // verus!
