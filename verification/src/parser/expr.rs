//! Variable references: a name between double braces.

use vstd::prelude::*;

use crate::ast::{Expr, SourceInfo, Variable};
use crate::parser::error::{Error, ParseError, ParseErrorView};
use crate::parser::primitives::{
    fail, literal, literal_at, parsed, spaces_end, try_literal, try_literal_at,
    zero_or_more_spaces, Outcome, ParseResult,
};
use crate::parser::reader::{run_end, CharClass, Reader, Source};

verus! {

/// The rule of `variable_name`: one or more letters, digits, `_` or `-`.
pub open spec fn variable_name_at(src: Source, i: int) -> Outcome {
    if run_end(src.text, CharClass::Name, i) > i {
        Outcome::Done(run_end(src.text, CharClass::Name, i))
    } else {
        fail(src.pos(i), false, ParseErrorView::TemplateVariable)
    }
}

/// The name of the variable that stands at index `i`, after spaces.
pub open spec fn name_at(text: Seq<char>, i: int) -> Seq<char> {
    text.subrange(spaces_end(text, i), run_end(text, CharClass::Name, spaces_end(text, i)))
}

/// The rule of `parse2`: spaces, the name of a variable, spaces.
pub open spec fn parse2_at(src: Source, i: int) -> Outcome {
    match variable_name_at(src, spaces_end(src.text, i)) {
        Outcome::Done(j) => Outcome::Done(spaces_end(src.text, j)),
        Outcome::Failed(e) => Outcome::Failed(e),
    }
}

/// The rule of `parse`: two opening braces, the name of a variable with
/// spaces around it, two closing braces.
pub open spec fn parse_at(src: Source, i: int) -> Outcome {
    match try_literal_at(src, i, "{{"@) {
        Outcome::Done(a) => match parse2_at(src, a) {
            Outcome::Done(b) => literal_at(src, b, "}}"@),
            Outcome::Failed(e) => Outcome::Failed(e),
        },
        Outcome::Failed(e) => Outcome::Failed(e),
    }
}

/// Reads the name of a variable: letters, digits, `_` and `-`.
pub fn variable_name(reader: &mut Reader) -> (r: ParseResult<Variable>)
    requires
        old(reader).wf(),
    ensures
        parsed(
            old(reader),
            final(reader),
            r,
            variable_name_at(old(reader).source(), old(reader).state.cursor as int),
        ),
        r matches Ok(v) ==> {
            &&& v.name@ == old(reader).text(
                old(reader).state.cursor as int,
                final(reader).state.cursor as int,
            )
            &&& v.source_info == (SourceInfo {
                start: old(reader).state.pos,
                end: final(reader).state.pos,
            })
        },
{
    let start = reader.state;
    let name = reader.read_while(CharClass::Name);
    if reader.state.cursor == start.cursor {
        return Err(Error::new(start.pos, false, ParseError::TemplateVariable));
    }
    Ok(Variable { name, source_info: SourceInfo::new(start.pos, reader.state.pos) })
}

/// Reads what stands between the braces of a variable reference: the name,
/// with spaces around it.
pub fn parse2(reader: &mut Reader) -> (r: ParseResult<Expr>)
    requires
        old(reader).wf(),
    ensures
        parsed(
            old(reader),
            final(reader),
            r,
            parse2_at(old(reader).source(), old(reader).state.cursor as int),
        ),
        r matches Ok(e) ==> {
            &&& e.space0.value@ + e.variable.name@ + e.space1.value@ == old(reader).text(
                old(reader).state.cursor as int,
                final(reader).state.cursor as int,
            )
            &&& e.variable.name@ == name_at(
                old(reader).buffer@,
                old(reader).state.cursor as int,
            )
        },
{
    let space0 = match zero_or_more_spaces(reader) {
        Ok(w) => w,
        Err(e) => {
            return Err(e.fatal());
        },
    };
    let variable = match variable_name(reader) {
        Ok(v) => v,
        Err(e) => {
            return Err(e);
        },
    };
    let space1 = match zero_or_more_spaces(reader) {
        Ok(w) => w,
        Err(e) => {
            return Err(e.fatal());
        },
    };
    assert(space0.value@ + variable.name@ + space1.value@ =~= old(reader).text(
        old(reader).state.cursor as int,
        reader.state.cursor as int,
    ));
    Ok(Expr { space0, variable, space1 })
}

/// Reads a variable reference: two opening braces, the name with spaces
/// around it, two closing braces. Text that does not start with two opening
/// braces is left to another rule.
pub fn parse(reader: &mut Reader) -> (r: ParseResult<Expr>)
    requires
        old(reader).wf(),
    ensures
        parsed(
            old(reader),
            final(reader),
            r,
            parse_at(old(reader).source(), old(reader).state.cursor as int),
        ),
        r matches Ok(e) ==> {
            &&& final(reader).state.cursor > old(reader).state.cursor
            &&& e.encoded_spec() == old(reader).text(
                old(reader).state.cursor as int,
                final(reader).state.cursor as int,
            )
            &&& e.variable.name@ == name_at(old(reader).buffer@, old(reader).state.cursor + 2)
        },
{
    proof {
        reveal_strlit("{{");
        reveal_strlit("}}");
    }
    match try_literal("{{", reader) {
        Ok(_) => {},
        Err(e) => {
            return Err(e);
        },
    }
    assert(reader.state.cursor == old(reader).state.cursor + 2);
    let expr = match parse2(reader) {
        Ok(e) => e,
        Err(e) => {
            return Err(e);
        },
    };
    let ghost inner = reader.state.cursor;
    match literal("}}", reader) {
        Ok(_) => {},
        Err(e) => {
            return Err(e);
        },
    }
    proof {
        let from = old(reader).state.cursor as int;
        assert(reader.text(from, from + 2) =~= crate::ast::open_braces());
        assert(reader.text(inner as int, inner + 2) =~= crate::ast::close_braces());
        let middle = expr.space0.value@ + expr.variable.name@ + expr.space1.value@;
        assert(middle == reader.text(from + 2, inner as int));
        assert(expr.encoded_spec() =~= crate::ast::open_braces() + middle
            + crate::ast::close_braces());
        assert(expr.encoded_spec() =~= reader.text(from, reader.state.cursor as int));
    }
    Ok(expr)
}

} // verus!
