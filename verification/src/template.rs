//! The templates that a page is rendered with.
//!
//! Rendering itself is left to the caller, who owns the output; this module
//! hands the two templates to the parser and reports which of them is at
//! fault.

use vstd::prelude::*;

verus! {

/// The template registry of the `handlebars` crate. Nothing is known of a
/// registry but what the items below state.
#[verifier::external_type_specification]
#[verifier::external_body]
pub struct ExHandlebars<'reg>(handlebars::Handlebars<'reg>);

/// The error that the `handlebars` crate reports for a template it cannot
/// parse.
#[verifier::external_type_specification]
#[verifier::external_body]
pub struct ExTemplateError(handlebars::TemplateError);

/// A registry that owns all it holds.
pub type Registry = handlebars::Handlebars<'static>;

/// The names under which a registry holds a template.
pub uninterp spec fn registered_names(registry: Registry) -> Set<Seq<char>>;

/// Whether a registry holds under `name` the template that the parser makes
/// of `source` for that name.
pub uninterp spec fn holds_parse_of(registry: Registry, name: Seq<char>, source: Seq<char>) -> bool;

/// `Handlebars::new` makes a registry with the built-in helpers and without
/// any template.
#[verifier::external_body]
fn new_registry() -> (r: Registry)
    ensures
        registered_names(r) == Set::<Seq<char>>::empty(),
{
    handlebars::Handlebars::new()
}

/// `Handlebars::register_template_string` parses `source`. Where the parser
/// accepts it, what it made of `source` is stored under `name`, in place of
/// an earlier template of that name, and what stands under other names is
/// left alone; where it does not, the error is returned and the registry is
/// left as it was. Which of the two happens is the parser's to say: it may
/// give up on a source for want of stack, so nothing is claimed of it.
#[verifier::external_body]
fn register(registry: &mut Registry, name: &str, source: &str) -> (r: Result<
    (),
    handlebars::TemplateError,
>)
    ensures
        r is Ok ==> registered_names(*final(registry)) == registered_names(*old(registry)).insert(
            name@,
        ),
        r is Err ==> registered_names(*final(registry)) == registered_names(*old(registry)),
        r is Ok ==> holds_parse_of(*final(registry), name@, source@),
        forall|n: Seq<char>, s: Seq<char>|
            (r is Err || n != name@) ==> #[trigger] holds_parse_of(*final(registry), n, s)
                == holds_parse_of(*old(registry), n, s),
{
    registry.register_template_string(name, source)
}

/// The message of a `TemplateError`, as its `Display` writes it. Nothing is
/// claimed of the text.
#[verifier::external_body]
fn message_of(error: &handlebars::TemplateError) -> String {
    format!("{}", error)
}

/// The two templates of a page.
#[derive(Clone, Copy, Debug, PartialEq, Eq)]
pub enum Asset {
    /// The template of the page as a whole.
    Page,
    /// The partial that lays out a usage line.
    UsagePartial,
}

/// A template that could not be parsed.
#[derive(Debug)]
pub struct TemplateFault {
    /// The template at fault.
    pub asset: Asset,
    /// What the parser said of it.
    pub reason: String,
}

/// Picks the fault to report from what the parser said of the page template
/// and of the usage partial, where `None` stands for a template that was
/// accepted. The page template comes first: where both are at fault, it is
/// the one reported.
pub fn fault_of(page: Option<String>, usage_partial: Option<String>) -> (r: Option<TemplateFault>)
    ensures
        r is None <==> page is None && usage_partial is None,
        page matches Some(message) ==> r matches Some(fault) && fault.asset == Asset::Page
            && fault.reason@ == message@,
        page is None ==> (usage_partial matches Some(message) ==> r matches Some(fault)
            && fault.asset == Asset::UsagePartial && fault.reason@ == message@),
{
    match page {
        Some(reason) => Some(TemplateFault { asset: Asset::Page, reason }),
        None => match usage_partial {
            Some(reason) => Some(TemplateFault { asset: Asset::UsagePartial, reason }),
            None => None,
        },
    }
}

fn try_register(registry: &mut Registry, name: &str, source: &str) -> (r: Option<String>)
    ensures
        r is None ==> registered_names(*final(registry)) == registered_names(*old(registry)).insert(
            name@,
        ),
        r is Some ==> registered_names(*final(registry)) == registered_names(*old(registry)),
        r is None ==> holds_parse_of(*final(registry), name@, source@),
        forall|n: Seq<char>, s: Seq<char>|
            (r is Some || n != name@) ==> #[trigger] holds_parse_of(*final(registry), n, s)
                == holds_parse_of(*old(registry), n, s),
{
    match register(registry, name, source) {
        Ok(()) => None,
        Err(error) => Some(message_of(&error)),
    }
}

/// Hands the two templates of a page to a fresh registry: the page template
/// under the name `template`, the partial under `usage-partial`. Both are
/// tried, and [`fault_of`] picks what is reported where the parser turns one
/// down. A registry that comes back holds these two names and no other, and
/// under each what the parser made of the source given for it.
pub fn load_templates(page: &str, usage_partial: &str) -> (r: Result<Registry, TemplateFault>)
    ensures
        r matches Ok(registry) ==> registered_names(registry) == set![
            "template"@,
            "usage-partial"@,
        ],
        r matches Ok(registry) ==> holds_parse_of(registry, "template"@, page@) && holds_parse_of(
            registry,
            "usage-partial"@,
            usage_partial@,
        ),
{
    let mut registry = new_registry();
    proof {
        reveal_strlit("template");
        reveal_strlit("usage-partial");
        assert("template"@.len() != "usage-partial"@.len());
    }
    let page_fault = try_register(&mut registry, "template", page);
    let partial_fault = try_register(&mut registry, "usage-partial", usage_partial);
    match fault_of(page_fault, partial_fault) {
        Some(fault) => Err(fault),
        None => {
            proof {
                assert(registered_names(registry) =~= set!["template"@, "usage-partial"@]);
            }
            Ok(registry)
        },
    }
}

} // verus!
