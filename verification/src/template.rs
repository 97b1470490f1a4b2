//! Rendering of templates: literal text interleaved with variable references.

use vstd::prelude::*;

use crate::ast::{
    elements_encoded, encode_elements_into, first_reference, has_expression,
    lemma_first_reference, Template, TemplateElement,
};
use crate::text::{chars_of, concat, extend_chars, string_of};

verus! {

/// Why a template could not be rendered.
#[derive(Debug, PartialEq, Eq)]
pub enum TemplateExecutionError {
    UnknownVariable(String),
}

impl TemplateExecutionError {
    /// The message of the error.
    pub open spec fn message(&self) -> Seq<char> {
        match self {
            TemplateExecutionError::UnknownVariable(name) => unknown_variable(name@),
        }
    }

    /// The message of the error.
    pub fn to_string(&self) -> (r: String)
        ensures
            r@ == self.message(),
    {
        match self {
            TemplateExecutionError::UnknownVariable(name) => concat(
                "unknown variable: ",
                name.as_str(),
            ),
        }
    }
}

/// What is said of a variable that the context does not hold.
pub open spec fn unknown_variable(name: Seq<char>) -> Seq<char> {
    "unknown variable: "@ + name
}

/// The value of the first entry of the context named `name`.
pub open spec fn lookup(context: Seq<(String, String)>, name: Seq<char>) -> Option<Seq<char>>
    decreases context.len(),
{
    if context.len() == 0 {
        None
    } else if context[0].0@ == name {
        Some(context[0].1@)
    } else {
        lookup(context.skip(1), name)
    }
}

/// The text that the elements render to in a context: literal text as it
/// was written, and each variable replaced by its value. The name of the
/// first variable that the context does not hold is the error.
pub open spec fn rendered(elements: Seq<TemplateElement>, context: Seq<(String, String)>) -> Result<
    Seq<char>,
    Seq<char>,
>
    decreases elements.len(),
{
    if elements.len() == 0 {
        Ok(Seq::empty())
    } else {
        match rendered(elements.drop_last(), context) {
            Err(name) => Err(name),
            Ok(prefix) => match elements.last() {
                TemplateElement::String { encoded, .. } => Ok(prefix + encoded@),
                TemplateElement::Expression(expr) => match lookup(context, expr.variable.name@) {
                    Some(v) => Ok(prefix + v),
                    None => Err(expr.variable.name@),
                },
            },
        }
    }
}

/// The value of the first entry of the context named `name`.
fn find<'a>(context: &'a Vec<(String, String)>, name: &String) -> (r: Option<&'a String>)
    ensures
        match r {
            Some(v) => lookup(context@, name@) == Some(v@),
            None => lookup(context@, name@) is None,
        },
{
    let mut i: usize = 0;
    assert(context@.skip(0) == context@);
    while i < context.len()
        invariant
            i <= context.len(),
            lookup(context@, name@) == lookup(context@.skip(i as int), name@),
        decreases context.len() - i,
    {
        assert(context@.skip(i as int)[0] == context@[i as int]);
        if context[i].0 == *name {
            return Some(&context[i].1);
        }
        assert(context@.skip(i as int).skip(1) == context@.skip(i + 1));
        i += 1;
    }
    None
}

/// Renders a template in a context.
pub fn execute(template: &Template, context: &Vec<(String, String)>) -> (r: Result<
    String,
    TemplateExecutionError,
>)
    ensures
        match r {
            Ok(s) => rendered(template.elements@, context@) == Ok::<_, Seq<char>>(s@),
            Err(TemplateExecutionError::UnknownVariable(name)) => rendered(
                template.elements@,
                context@,
            ) == Err::<Seq<char>, _>(name@),
        },
{
    let mut result: Vec<char> = Vec::new();
    let mut i: usize = 0;
    while i < template.elements.len()
        invariant
            i <= template.elements.len(),
            rendered(template.elements@.take(i as int), context@) == Ok::<_, Seq<char>>(result@),
        decreases template.elements.len() - i,
    {
        assert(template.elements@.take(i + 1).drop_last() == template.elements@.take(i as int));
        assert(template.elements@.take(i + 1).last() == template.elements@[i as int]);
        match &template.elements[i] {
            TemplateElement::String { encoded, .. } => {
                extend_chars(&mut result, &chars_of(encoded.as_str()));
            },
            TemplateElement::Expression(expression) => {
                match find(context, &expression.variable.name) {
                    Some(value) => {
                        extend_chars(&mut result, &chars_of(value.as_str()));
                    },
                    None => {
                        proof {
                            lemma_error_stays(template.elements@, i + 1, context@);
                        }
                        return Err(
                            TemplateExecutionError::UnknownVariable(
                                expression.variable.name.clone(),
                            ),
                        );
                    },
                }
            },
        }
        i += 1;
    }
    assert(template.elements@.take(i as int) == template.elements@);
    Ok(string_of(&result))
}

/// Once a prefix of the elements fails to render, the whole fails with the
/// same error.
pub proof fn lemma_error_stays(
    elements: Seq<TemplateElement>,
    n: int,
    context: Seq<(String, String)>,
)
    requires
        0 <= n <= elements.len(),
        rendered(elements.take(n), context) is Err,
    ensures
        rendered(elements, context) == rendered(elements.take(n), context),
    decreases elements.len() - n,
{
    if n < elements.len() {
        assert(elements.take(n + 1).drop_last() == elements.take(n));
        lemma_error_stays(elements, n + 1, context);
    } else {
        assert(elements.take(n) == elements);
    }
}

/// A template with a variable reference never renders in the empty context.
pub proof fn law_reference_never_renders(elements: Seq<TemplateElement>)
    requires
        has_expression(elements),
    ensures
        rendered(elements, Seq::empty()) is Err,
    decreases elements.len(),
{
    if elements.last() is Expression {
    } else {
        let i = choose|i: int| 0 <= i < elements.len() && #[trigger] elements[i] is Expression;
        assert(elements.drop_last()[i] is Expression);
        law_reference_never_renders(elements.drop_last());
    }
}

/// Elements without a variable reference render to their text as it was
/// written, in every context.
pub proof fn lemma_static_renders(elements: Seq<TemplateElement>, context: Seq<(String, String)>)
    requires
        !has_expression(elements),
    ensures
        rendered(elements, context) == Ok::<_, Seq<char>>(elements_encoded(elements)),
    decreases elements.len(),
{
    if elements.len() > 0 {
        assert forall|i: int| 0 <= i < elements.drop_last().len() implies !(
        #[trigger] elements.drop_last()[i] is Expression) by {
            assert(elements.drop_last()[i] == elements[i]);
        }
        lemma_static_renders(elements.drop_last(), context);
        assert(!(elements[elements.len() - 1] is Expression));
    }
}

/// A template without a variable reference renders the same whether it is
/// kept as a template or reduced to a plain string, in every context.
pub proof fn law_static_path_renders_the_same(template: Template, context: Seq<(String, String)>)
    requires
        !has_expression(template.elements@),
    ensures
        compiled_template(template) == rendered(template.elements@, context),
{
    lemma_static_renders(template.elements@, context);
}

/// A template ready to be rendered: a plain string when it holds no variable
/// reference, so that nothing is looked up when a response is built.
#[derive(Debug, PartialEq, Eq)]
pub enum StringOrTemplate {
    String(String),
    Template(Template),
}

/// What a compiled template renders to: the text, or the name of the first
/// variable that nothing defines.
pub open spec fn compiled_template(template: Template) -> Result<Seq<char>, Seq<char>> {
    if has_expression(template.elements@) {
        rendered(template.elements@, Seq::empty())
    } else {
        Ok(elements_encoded(template.elements@))
    }
}

/// What a template renders to when no variable is defined: the name of its
/// first variable is the error, and without a variable it renders to the
/// text of its elements as it was written.
pub open spec fn rendering_of(found: Option<Seq<char>>, text: Seq<char>) -> Result<
    Seq<char>,
    Seq<char>,
> {
    match found {
        Some(name) => Err(name),
        None => Ok(text),
    }
}

/// Whether `compiled` is what the template compiles to: the template itself
/// when it holds a variable reference, else the text of its elements as a
/// plain string.
pub open spec fn is_compiled_from(compiled: StringOrTemplate, template: Template) -> bool {
    match compiled {
        StringOrTemplate::Template(t) => has_expression(template.elements@) && t == template,
        StringOrTemplate::String(s) => !has_expression(template.elements@) && s@
            == elements_encoded(template.elements@),
    }
}

/// In the empty context the elements fail to render with the name of their
/// first variable.
pub proof fn lemma_first_reference_fails(elements: Seq<TemplateElement>)
    ensures
        first_reference(elements) matches Some(name) ==> rendered(elements, Seq::empty()) == Err::<
            Seq<char>,
            _,
        >(name),
    decreases elements.len(),
{
    if elements.len() > 0 {
        lemma_first_reference_fails(elements.drop_last());
        if first_reference(elements.drop_last()) is None {
            lemma_first_reference(elements.drop_last());
            lemma_static_renders(elements.drop_last(), Seq::empty());
        }
    }
}

/// What a compiled template renders to is decided by the name of its first
/// variable and by its text.
pub proof fn lemma_compiled_template(template: Template)
    ensures
        compiled_template(template) == rendering_of(
            first_reference(template.elements@),
            elements_encoded(template.elements@),
        ),
{
    lemma_first_reference(template.elements@);
    lemma_first_reference_fails(template.elements@);
}

impl StringOrTemplate {
    /// What the template renders to. No variable is defined when a response
    /// is built, so the context is empty.
    pub open spec fn rendering(&self) -> Result<Seq<char>, Seq<char>> {
        match self {
            StringOrTemplate::String(s) => Ok(s@),
            StringOrTemplate::Template(t) => rendered(t.elements@, Seq::empty()),
        }
    }

    /// Renders the template. A plain string is copied.
    pub fn execute(&self) -> (r: Result<String, TemplateExecutionError>)
        ensures
            match r {
                Ok(s) => self.rendering() == Ok::<_, Seq<char>>(s@),
                Err(TemplateExecutionError::UnknownVariable(name)) => self.rendering() == Err::<
                    Seq<char>,
                    _,
                >(name@),
            },
    {
        match self {
            StringOrTemplate::String(s) => Ok(s.clone()),
            StringOrTemplate::Template(t) => {
                let context: Vec<(String, String)> = Vec::new();
                execute(t, &context)
            },
        }
    }

    /// Compiles a template of the source: kept as it is when it holds a
    /// variable reference, else reduced to the text of its elements, which
    /// is what the template renders to in every context. The delimiters of
    /// the template are not part of its elements.
    pub fn from_ast_template(template: Template) -> (r: StringOrTemplate)
        ensures
            is_compiled_from(r, template),
            r.rendering() == compiled_template(template),
            r.rendering() == rendered(template.elements@, Seq::empty()),
    {
        if template.is_dynamic() {
            StringOrTemplate::Template(template)
        } else {
            proof {
                lemma_static_renders(template.elements@, Seq::empty());
            }
            let mut text: Vec<char> = Vec::new();
            encode_elements_into(&template.elements, &mut text);
            StringOrTemplate::String(string_of(&text))
        }
    }

    /// Compiles a template of the source.
    pub fn from(template: Template) -> (r: StringOrTemplate)
        ensures
            is_compiled_from(r, template),
            r.rendering() == compiled_template(template),
    {
        StringOrTemplate::from_ast_template(template)
    }
}

} // verus!
