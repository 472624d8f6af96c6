//! The methods of the emitted handles.
use vstd::prelude::*;
use vstd::string::*;
use crate::ast::{
    params_of, spec_representation_ref_id, Method, Param, ParamStyle, Representation,
    RepresentationDef, RepresentationRef, Response,
};
use crate::codegen::docs::{format_arg_doc, indent, spec_format_arg_doc, spec_indent};
use crate::codegen::types::{
    container_id, representation_rust_type, resource_type_rust_type, spec_container_id,
    spec_representation_rust_type, spec_resource_type_rust_type,
};
use crate::codegen::config::{
    lines_result, text_result, CompileError, CompileErrorKind, Config, Customization, Fault,
    ParamContainer,
};
use crate::codegen::names::{
    camel_case_name, escape_rust_reserved, snake_case_name, spec_camel_case,
    spec_escape_rust_reserved, spec_snake_case,
};
use crate::codegen::option_names::{NamePair, OptionNames};
use crate::codegen::representation::{
    accessors_param, default_field_param, field_param, spec_accessors_param,
    spec_default_field_param, spec_field_param,
};
use crate::codegen::types::{param_rust_type, readonly_rust_type, spec_param_rust_type, spec_readonly_rust_type};
use crate::media::media_text;
use crate::text::{
    cat2, cat3, cat4, cat5, cat6, join, lemma_texts_push, no_lines, push_line,
    push_str_line, spaces, spec_decimal, spec_join, spec_spaces, spec_strip_prefix,
    starts_with, starts_with_char, str_eq, strip_prefix, texts,
};

verus! {

/// A value with a mapping function applied: called on the value, in brackets where it is
/// a closure, or handed to `map` where the value may be absent.
pub open spec fn spec_apply_map_fn(map_fn: Option<Seq<char>>, ret: Seq<char>, nillable: bool) -> Seq<
    char,
> {
    match map_fn {
        Some(f) => if !nillable {
            if f.len() > 0 && f[0] == '|' {
                "("@ + f + ")("@ + ret + ")"@
            } else {
                f + "("@ + ret + ")"@
            }
        } else {
            ret + ".map("@ + f + ")"@
        },
        None => ret,
    }
}

/// Applies a mapping function to the expression of a value.
pub fn apply_map_fn(map_fn: Option<&str>, ret: &str, nillable: bool) -> (r: String)
    ensures
        r@ == spec_apply_map_fn(
            match map_fn {
                Some(f) => Some(f@),
                None => None,
            },
            ret@,
            nillable,
        ),
{
    match map_fn {
        Some(f) => if !nillable {
            if starts_with_char(f, '|') {
                cat5("(", f, ")(", ret, ")")
            } else {
                cat4(f, "(", ret, ")")
            }
        } else {
            cat4(ret, ".map(", f, ")")
        },
        None => String::from_str(ret),
    }
}

/// The name of the function for a method: the field name of its id, without the id of
/// the owning type and a dash where the id begins with them.
pub open spec fn spec_method_name(id: Seq<char>, parent_id: Seq<char>) -> Seq<char> {
    match spec_strip_prefix(id, parent_id + "-"@) {
        Some(rest) => spec_snake_case(rest),
        None => spec_snake_case(id),
    }
}

/// The name of the function for a method.
pub fn method_name(id: &str, parent_id: &str) -> (r: String)
    ensures
        r@ == spec_method_name(id@, parent_id@),
{
    let prefix = cat2(parent_id, "-");
    match strip_prefix(id, prefix.as_str()) {
        Some(rest) => snake_case_name(rest.as_str()),
        None => snake_case_name(id),
    }
}

/// Whether a definition in a response can be decoded by the emitted code: none can.
pub fn supported_representation_def(d: &RepresentationDef) -> (r: bool)
    ensures
        !r,
{
    false
}

/// The customization that decides nothing and emits blocking code.
pub open spec fn default_config() -> Config {
    Config { asynchronous: false, strip_code_examples: false }
}

/// The references among a list of representations, in their order.
pub open spec fn spec_references(reps: Seq<Representation>) -> Seq<RepresentationRef>
    decreases reps.len(),
{
    if reps.len() == 0 {
        Seq::empty()
    } else {
        match reps.last() {
            Representation::Reference(r) => spec_references(reps.drop_last()).push(r),
            Representation::Definition(_) => spec_references(reps.drop_last()),
        }
    }
}

/// The references among a list of representations.
pub fn references_of(reps: &Vec<Representation>) -> (r: Vec<&RepresentationRef>)
    ensures
        r@.map_values(|x: &RepresentationRef| *x) == spec_references(reps@),
{
    let mut out: Vec<&RepresentationRef> = Vec::new();
    let mut i: usize = 0;
    while i < reps.len()
        invariant
            i <= reps.len(),
            out@.map_values(|x: &RepresentationRef| *x) =~= spec_references(reps@.take(i as int)),
        decreases reps.len() - i,
    {
        proof {
            let next = reps@.take(i + 1);
            assert(next.drop_last() =~= reps@.take(i as int));
            assert(next.last() == reps@[i as int]);
        }
        match &reps[i] {
            Representation::Reference(r) => {
                out.push(r);
            },
            Representation::Definition(_) => {},
        }
        i = i + 1;
    }
    assert(reps@.take(reps@.len() as int) =~= reps@);
    out
}

/// The types of the parameters of a response, as the customization that decides nothing
/// gives them.
pub open spec fn spec_response_param_types(
    params: Seq<Param>,
    container: ParamContainer,
    names: Seq<NamePair>,
) -> Result<Seq<Seq<char>>, Fault>
    decreases params.len(),
{
    if params.len() == 0 {
        Ok(Seq::empty())
    } else {
        match spec_response_param_types(params.drop_last(), container, names) {
            Err(e) => Err(e),
            Ok(before) => match spec_param_rust_type(
                container,
                params.last(),
                &default_config(),
                false,
                names,
            ) {
                Err(e) => Err(e),
                Ok(t) => Ok(before.push(t)),
            },
        }
    }
}

/// A failure that concerns a method as a whole.
pub open spec fn method_fault(kind: CompileErrorKind, method: Method, detail: Seq<char>) -> Fault {
    Fault { kind, item: method.id@, param: ""@, detail }
}

/// The type that a method returns for a response. With one referenced representation it
/// is the type of that representation, and the response may have no parameters of its
/// own. With none it is the type of the response's one parameter, or the tuple of the
/// types of its parameters. Definitions do not count. More than one referenced
/// representation is a failure.
#[verifier::opaque]
pub open spec fn spec_rust_type_for_response(
    method: Method,
    response: Response,
    name: Seq<char>,
    names: Seq<NamePair>,
) -> Result<Seq<char>, Fault> {
    let refs = spec_references(response.representations@);
    if refs.len() == 1 {
        if response.params@.len() > 0 {
            Err(method_fault(CompileErrorKind::ParamsWithRepresentation, method, name))
        } else {
            match spec_representation_ref_id(refs[0]) {
                Some(id) => Ok(spec_camel_case(id)),
                None => Err(method_fault(CompileErrorKind::MissingId, method, name)),
            }
        }
    } else if refs.len() == 0 {
        match spec_response_param_types(
            response.params@,
            ParamContainer::Response(&method, &response),
            names,
        ) {
            Err(e) => Err(e),
            Ok(types) => if types.len() == 1 {
                Ok(types[0])
            } else {
                Ok("("@ + spec_join(types, ", "@) + ")"@)
            },
        }
    } else {
        Err(method_fault(CompileErrorKind::MultipleRepresentations, method, name))
    }
}

/// The type that a method returns for a response.
pub fn rust_type_for_response(method: &Method, input: &Response, name: &str, names: &OptionNames) -> (r:
    Result<String, CompileError>)
    ensures
        text_result(r) == spec_rust_type_for_response(*method, *input, name@, names@),
{
    reveal(spec_rust_type_for_response);
    let refs = references_of(&input.representations);
    if refs.len() == 1 {
        if input.params.len() > 0 {
            return Err(
                CompileError::new(
                    CompileErrorKind::ParamsWithRepresentation,
                    method.id.as_str(),
                    "",
                    name,
                ),
            );
        }
        assert(refs@.map_values(|x: &RepresentationRef| *x)[0] == *refs@[0]);
        match refs[0].id() {
            Some(id) => Ok(camel_case_name(id.as_str())),
            None => Err(
                CompileError::new(CompileErrorKind::MissingId, method.id.as_str(), "", name),
            ),
        }
    } else if refs.len() == 0 {
        let container = ParamContainer::Response(method, input);
        let config = Config { asynchronous: false, strip_code_examples: false };
        let mut types: Vec<String> = no_lines();
        let mut i: usize = 0;
        while i < input.params.len()
            invariant
                i <= input.params.len(),
                container == ParamContainer::Response(method, input),
                config == default_config(),
                spec_references(input.representations@).len() == 0,
                Ok::<Seq<Seq<char>>, Fault>(texts(types@)) == spec_response_param_types(
                    input.params@.take(i as int),
                    container,
                    names@,
                ),
            decreases input.params.len() - i,
        {
            proof {
                let next = input.params@.take(i + 1);
                assert(next.drop_last() =~= input.params@.take(i as int));
                assert(next.last() == input.params@[i as int]);
            }
            match param_rust_type(&container, &input.params[i], &config, false, names) {
                Ok(p) => {
                    push_line(&mut types, p.0);
                },
                Err(e) => {
                    reveal(spec_rust_type_for_response);
                    proof {
                        assert(spec_response_param_types(
                            input.params@.take(i + 1),
                            container,
                            names@,
                        ) == Err::<Seq<Seq<char>>, Fault>(e@));
                        lemma_response_param_types_fail(
                            input.params@,
                            (i + 1) as int,
                            container,
                            names@,
                        );
                    }
                    return Err(e);
                },
            }
            i = i + 1;
        }
        assert(input.params@.take(input.params@.len() as int) =~= input.params@);
        if types.len() == 1 {
            Ok(types[0].clone())
        } else {
            let inner = join(&types, ", ");
            Ok(cat3("(", inner.as_str(), ")"))
        }
    } else {
        Err(
            CompileError::new(
                CompileErrorKind::MultipleRepresentations,
                method.id.as_str(),
                "",
                name,
            ),
        )
    }
}

/// A failure among the first parameters is the failure of the whole list.
pub proof fn lemma_response_param_types_fail(
    params: Seq<Param>,
    k: int,
    container: ParamContainer,
    names: Seq<NamePair>,
)
    requires
        0 <= k <= params.len(),
        spec_response_param_types(params.take(k), container, names) is Err,
    ensures
        spec_response_param_types(params, container, names) == spec_response_param_types(
            params.take(k),
            container,
            names,
        ),
    decreases params.len() - k,
{
    if k < params.len() {
        let next = params.take(k + 1);
        assert(next.drop_last() =~= params.take(k));
        lemma_response_param_types_fail(params, k + 1, container, names);
    } else {
        assert(params.take(k) =~= params);
    }
}


/// The lines so far followed by the lines still to come, or the failure to come.
pub open spec fn after(acc: Seq<Seq<char>>, rest: Result<Seq<Seq<char>>, Fault>) -> Result<
    Seq<Seq<char>>,
    Fault,
> {
    match rest {
        Ok(r) => Ok(acc + r),
        Err(e) => Err(e),
    }
}

/// How the body of a request is built.
#[derive(Debug, Clone, Copy, PartialEq, Eq, Structural)]
pub enum BodyKind {
    /// A multipart form.
    Multipart,
    /// A URL-encoded form.
    Form,
    /// A JSON object.
    Json,
}

/// The module of the multipart form, by whether the code is asynchronous.
pub open spec fn spec_multipart_module(asynchronous: bool) -> Seq<char> {
    if asynchronous {
        "reqwest"@
    } else {
        "reqwest::blocking"@
    }
}

/// The expression for the value of a parameter in a body: its fixed value as a literal,
/// else the parameter as text, through its URL where it links to a resource.
pub open spec fn spec_body_value(param: Param, param_name: Seq<char>) -> Seq<char> {
    match param.fixed {
        Some(f) => "\""@ + f@ + "\""@,
        None => if param.links@.len() == 0 {
            "&"@ + param_name + ".to_string()"@
        } else {
            "&"@ + param_name + ".url().to_string()"@
        },
    }
}

/// The statement that adds one value of a parameter to a body. A multipart form takes a
/// part, made by the customization or from the text of the value. A URL-encoded form
/// takes a pair. A JSON object takes an entry.
pub open spec fn spec_body_statement<C: Customization>(
    kind: BodyKind,
    param_type: Seq<char>,
    name: Seq<char>,
    value: Seq<char>,
    config: &C,
) -> Seq<char> {
    match kind {
        BodyKind::Multipart => "form = form.part(\""@ + name + "\", "@ + (
        match config.spec_convert_to_multipart(param_type, value) {
            Some(c) => c,
            None => spec_multipart_module(config.spec_asynchronous()) + "::multipart::Part::text("@
                + (match spec_strip_prefix(value, "&"@) {
                Some(v) => v,
                None => value,
            }) + ")"@,
        }) + ");"@,
        BodyKind::Form => "serializer.append_pair(\""@ + name + "\", "@ + value + ");"@,
        BodyKind::Json => "o.insert(\""@ + name + "\", "@ + value + ");"@,
    }
}

fn body_statement<C: Customization>(
    kind: BodyKind,
    param_type: &str,
    name: &str,
    value: &str,
    config: &C,
) -> (r: String)
    ensures
        r@ == spec_body_statement(kind, param_type@, name@, value@, config),
{
    match kind {
        BodyKind::Multipart => {
            let part = match config.convert_to_multipart(param_type, value) {
                Some(c) => c,
                None => {
                    let module = if config.asynchronous() {
                        "reqwest"
                    } else {
                        "reqwest::blocking"
                    };
                    let text = match strip_prefix(value, "&") {
                        Some(v) => v,
                        None => String::from_str(value),
                    };
                    cat4(module, "::multipart::Part::text(", text.as_str(), ")")
                },
            };
            cat5("form = form.part(\"", name, "\", ", part.as_str(), ");")
        },
        BodyKind::Form => cat5("serializer.append_pair(\"", name, "\", ", value, ");"),
        BodyKind::Json => cat5("o.insert(\"", name, "\", ", value, ");"),
    }
}

/// A failure that concerns one parameter.
pub open spec fn param_fault(kind: CompileErrorKind, container: ParamContainer, param: Param) -> Fault {
    Fault {
        kind,
        item: spec_container_id(container),
        param: param.name@,
        detail: param.declared_type@,
    }
}

pub(crate) fn param_error(kind: CompileErrorKind, container: &ParamContainer, param: &Param) -> (r: CompileError)
    ensures
        r@ == param_fault(kind, *container, *param),
{
    let item = container_id(container);
    CompileError::new(kind, item.as_str(), param.name.as_str(), param.declared_type.as_str())
}

/// The lines that add one parameter to a body: the statement, inside a loop over the
/// values where the parameter repeats or its type is a sequence, and that inside a test
/// for presence where its type is an option. A parameter with a fixed value has neither
/// around it: the fixed value is always sent, once.
#[verifier::opaque]
pub open spec fn spec_body_param<C: Customization>(
    param: Param,
    container: ParamContainer,
    config: &C,
    kind: BodyKind,
    names: Seq<NamePair>,
) -> Result<Seq<Seq<char>>, Fault> {
    match spec_param_rust_type(container, param, config, false, names) {
        Err(e) => Err(e),
        Ok(t) => {
            let param_type = spec_readonly_rust_type(t);
            let param_name = spec_escape_rust_reserved(param.name@);
            let needs_iter = param.fixed is None && (param.repeating || "Vec<"@.is_prefix_of(t)
                || "Option<Vec<"@.is_prefix_of(t));
            let is_optional = param.fixed is None && "Option<"@.is_prefix_of(t);
            let outer: nat = 4;
            let middle: nat = if is_optional {
                8
            } else {
                4
            };
            let inner: nat = if needs_iter {
                middle + 4
            } else {
                middle
            };
            let statement = spec_body_statement(
                kind,
                param_type,
                param.name@,
                spec_body_value(param, param_name),
                config,
            );
            let l0 = Seq::<Seq<char>>::empty();
            let l1 = if is_optional {
                l0.push(
                    spec_spaces(outer) + "if let Some("@ + param_name + ") = "@ + param_name
                        + " {\n"@,
                )
            } else {
                l0
            };
            let l2 = if needs_iter {
                l1.push(
                    spec_spaces(middle) + "for "@ + param_name + " in "@ + param_name + " {\n"@,
                )
            } else {
                l1
            };
            let l3 = l2.push(spec_spaces(inner) + statement + "\n"@);
            let l4 = if needs_iter {
                l3.push(spec_spaces(middle) + "}\n"@)
            } else {
                l3
            };
            let l5 = if is_optional {
                l4.push(spec_spaces(outer) + "}\n"@)
            } else {
                l4
            };
            Ok(l5)
        },
    }
}

fn body_value(param: &Param, param_name: &str) -> (r: String)
    ensures
        r@ == spec_body_value(*param, param_name@),
{
    match &param.fixed {
        Some(f) => cat3("\"", f.as_str(), "\""),
        None => if param.links.len() == 0 {
            cat3("&", param_name, ".to_string()")
        } else {
            cat3("&", param_name, ".url().to_string()")
        },
    }
}

fn body_param<C: Customization>(
    param: &Param,
    container: &ParamContainer,
    config: &C,
    kind: BodyKind,
    names: &OptionNames,
) -> (r: Result<Vec<String>, CompileError>)
    ensures
        lines_result(r) == spec_body_param(*param, *container, config, kind, names@),
{
    reveal(spec_body_param);
    let owned_type = match param_rust_type(container, param, config, false, names) {
        Ok(p) => p.0,
        Err(e) => {
            return Err(e);
        },
    };
    let param_type = readonly_rust_type(owned_type.as_str());
    let param_name = escape_rust_reserved(param.name.as_str());
    let free = param.fixed.is_none();
    let needs_iter = free && (param.repeating || starts_with(owned_type.as_str(), "Vec<")
        || starts_with(owned_type.as_str(), "Option<Vec<"));
    let is_optional = free && starts_with(owned_type.as_str(), "Option<");
    let outer: usize = 4;
    let middle: usize = if is_optional {
        8
    } else {
        4
    };
    let inner: usize = if needs_iter {
        middle + 4
    } else {
        middle
    };
    let value = body_value(param, param_name);
    let statement = body_statement(
        kind,
        param_type.as_str(),
        param.name.as_str(),
        value.as_str(),
        config,
    );
    let mut lines: Vec<String> = no_lines();
    if is_optional {
        push_line(
            &mut lines,
            cat6(spaces(outer).as_str(), "if let Some(", param_name, ") = ", param_name, " {\n"),
        );
    }
    if needs_iter {
        push_line(
            &mut lines,
            cat6(spaces(middle).as_str(), "for ", param_name, " in ", param_name, " {\n"),
        );
    }
    push_line(&mut lines, cat3(spaces(inner).as_str(), statement.as_str(), "\n"));
    if needs_iter {
        push_line(&mut lines, cat2(spaces(middle).as_str(), "}\n"));
    }
    if is_optional {
        push_line(&mut lines, cat2(spaces(outer).as_str(), "}\n"));
    }
    Ok(lines)
}

/// What is emitted for each parameter of a list.
#[derive(Debug, Clone, Copy, PartialEq, Eq, Structural)]
pub enum ParamEmit {
    /// The statement that adds the parameter to a body.
    Body(BodyKind),
    /// The statement that adds a query parameter to the URL.
    Query,
    /// The statement that adds a query parameter with a fixed value to the URL.
    FixedQuery,
    /// The statement that sets a header.
    Header,
    /// The documentation of the argument.
    ArgDoc,
    /// The field of a record.
    Field,
    /// The default of the field of a record.
    DefaultField,
    /// The accessors for the links of a field.
    Accessors,
}

/// The statement that adds a fixed value to the query of the URL.
pub open spec fn spec_fixed_pair(name: Seq<char>, fixed: Seq<char>) -> Seq<char> {
    "        url_.query_pairs_mut().append_pair(\""@ + name + "\", \""@ + fixed + "\");\n"@
}

/// The lines for a query parameter with a fixed value: the statement that appends the
/// pair. Such a parameter cannot repeat. Other parameters give no line.
pub open spec fn spec_fixed_query_param(param: Param, container: ParamContainer) -> Result<
    Seq<Seq<char>>,
    Fault,
> {
    if param.style == ParamStyle::Query && param.fixed is Some {
        if param.repeating {
            Err(param_fault(CompileErrorKind::RepeatingFixedParam, container, param))
        } else {
            Ok(Seq::<Seq<char>>::empty().push(spec_fixed_pair(param.name@, param.fixed->0@)))
        }
    } else {
        Ok(Seq::<Seq<char>>::empty())
    }
}

/// The name of the argument that carries a parameter of the request.
pub open spec fn spec_argument_name(param: Param) -> Seq<char> {
    spec_escape_rust_reserved(spec_snake_case(param.name@))
}

/// The lines for a query parameter: a fixed value is appended as it is; any other value
/// is appended as text, through its URL where it links to a resource, once for each value
/// where the parameter repeats or its type is a sequence, and only if present where its
/// type is an option. Parameters of other styles give no line.
#[verifier::opaque]
pub open spec fn spec_query_param<C: Customization>(
    param: Param,
    container: ParamContainer,
    config: &C,
    names: Seq<NamePair>,
) -> Result<Seq<Seq<char>>, Fault> {
    if param.style != ParamStyle::Query {
        Ok(Seq::<Seq<char>>::empty())
    } else if param.fixed is Some {
        spec_fixed_query_param(param, container)
    } else {
        match spec_param_rust_type(container, param, config, false, names) {
            Err(e) => Err(e),
            Ok(param_type) => {
                let param_name = spec_argument_name(param);
                let value = if param.links@.len() > 0 {
                    "&"@ + param_name + ".url().to_string()"@
                } else {
                    "&"@ + param_name + ".to_string()"@
                };
                let needs_iter = param.repeating || "Vec<"@.is_prefix_of(param_type)
                    || "Option<Vec<"@.is_prefix_of(param_type);
                let is_optional = "Option<"@.is_prefix_of(param_type);
                let middle: nat = if is_optional {
                    4
                } else {
                    0
                };
                let inner: nat = if needs_iter {
                    middle + 4
                } else {
                    middle
                };
                let l0 = Seq::<Seq<char>>::empty();
                let l1 = if is_optional {
                    l0.push("        if let Some("@ + param_name + ") = "@ + param_name + " {\n"@)
                } else {
                    l0
                };
                let l2 = if needs_iter {
                    l1.push(
                        spec_spaces(middle) + "        for "@ + param_name + " in "@ + param_name
                            + " {\n"@,
                    )
                } else {
                    l1
                };
                let l3 = l2.push(
                    spec_spaces(inner) + "        url_.query_pairs_mut().append_pair(\""@
                        + param.name@ + "\", "@ + value + ");\n"@,
                );
                let l4 = if inner >= 8 {
                    l3.push(spec_spaces(8) + "    }\n"@)
                } else {
                    l3
                };
                let l5 = if inner >= 4 {
                    l4.push(spec_spaces(4) + "    }\n"@)
                } else {
                    l4
                };
                Ok(l5)
            },
        }
    }
}

/// The line that sets the header for a header parameter: to its fixed value, or to the
/// argument as text. Parameters of other styles give no line.
pub open spec fn spec_header_param(param: Param) -> Seq<Seq<char>> {
    if param.style == ParamStyle::Header {
        Seq::<Seq<char>>::empty().push(
            "        req = req.header(\""@ + param.name@ + "\", "@ + (match param.fixed {
                Some(f) => "\""@ + f@ + "\""@,
                None => "&"@ + spec_argument_name(param) + ".to_string()"@,
            }) + ");\n"@,
        )
    } else {
        Seq::<Seq<char>>::empty()
    }
}

/// The documentation of the argument for a parameter; a parameter with a fixed value is
/// no argument.
pub open spec fn spec_arg_doc_param<C: Customization>(param: Param, config: &C) -> Seq<Seq<char>> {
    if param.fixed is Some {
        Seq::<Seq<char>>::empty()
    } else {
        spec_format_arg_doc(spec_escape_rust_reserved(param.name@), param.doc, config)
    }
}

/// What is emitted for one parameter.
pub open spec fn spec_emit_param<C: Customization>(
    which: ParamEmit,
    param: Param,
    container: ParamContainer,
    config: &C,
    names: Seq<NamePair>,
) -> Result<Seq<Seq<char>>, Fault> {
    match which {
        ParamEmit::Body(kind) => spec_body_param(param, container, config, kind, names),
        ParamEmit::Query => spec_query_param(param, container, config, names),
        ParamEmit::FixedQuery => spec_fixed_query_param(param, container),
        ParamEmit::Header => Ok(spec_header_param(param)),
        ParamEmit::ArgDoc => Ok(spec_arg_doc_param(param, config)),
        ParamEmit::Field => spec_field_param(param, container, config, names),
        ParamEmit::DefaultField => Ok(spec_default_field_param(param)),
        ParamEmit::Accessors => Ok(spec_accessors_param(param, config)),
    }
}

/// What is emitted for the parameters of a list, in their order: the lines of all, or
/// the failure of the first that fails.
pub open spec fn spec_emit_params<C: Customization>(
    which: ParamEmit,
    params: Seq<Param>,
    container: ParamContainer,
    config: &C,
    names: Seq<NamePair>,
) -> Result<Seq<Seq<char>>, Fault>
    decreases params.len(),
{
    if params.len() == 0 {
        Ok(Seq::empty())
    } else {
        match spec_emit_param(which, params[0], container, config, names) {
            Err(e) => Err(e),
            Ok(first) => after(
                first,
                spec_emit_params(which, params.skip(1), container, config, names),
            ),
        }
    }
}

fn fixed_query_param(param: &Param, container: &ParamContainer) -> (r: Result<
    Vec<String>,
    CompileError,
>)
    ensures
        lines_result(r) == spec_fixed_query_param(*param, *container),
{
    let mut lines: Vec<String> = no_lines();
    if param.style == ParamStyle::Query {
        match &param.fixed {
            Some(f) => {
                if param.repeating {
                    return Err(
                        param_error(CompileErrorKind::RepeatingFixedParam, container, param),
                    );
                }
                push_line(
                    &mut lines,
                    cat5(
                        "        url_.query_pairs_mut().append_pair(\"",
                        param.name.as_str(),
                        "\", \"",
                        f.as_str(),
                        "\");\n",
                    ),
                );
            },
            None => {},
        }
    }
    Ok(lines)
}

fn argument_name(param: &Param) -> (r: String)
    ensures
        r@ == spec_argument_name(*param),
{
    let snake = snake_case_name(param.name.as_str());
    String::from_str(escape_rust_reserved(snake.as_str()))
}

fn query_param<C: Customization>(
    param: &Param,
    container: &ParamContainer,
    config: &C,
    names: &OptionNames,
) -> (r: Result<Vec<String>, CompileError>)
    ensures
        lines_result(r) == spec_query_param(*param, *container, config, names@),
{
    reveal(spec_query_param);
    if param.style != ParamStyle::Query {
        return Ok(no_lines());
    }
    if param.fixed.is_some() {
        return fixed_query_param(param, container);
    }
    let param_type = match param_rust_type(container, param, config, false, names) {
        Ok(p) => p.0,
        Err(e) => {
            return Err(e);
        },
    };
    let name = argument_name(param);
    let param_name = name.as_str();
    let value = if param.links.len() > 0 {
        cat3("&", param_name, ".url().to_string()")
    } else {
        cat3("&", param_name, ".to_string()")
    };
    let needs_iter = param.repeating || starts_with(param_type.as_str(), "Vec<") || starts_with(
        param_type.as_str(),
        "Option<Vec<",
    );
    let is_optional = starts_with(param_type.as_str(), "Option<");
    let middle: usize = if is_optional {
        4
    } else {
        0
    };
    let inner: usize = if needs_iter {
        middle + 4
    } else {
        middle
    };
    let mut lines: Vec<String> = no_lines();
    if is_optional {
        push_line(&mut lines, cat5("        if let Some(", param_name, ") = ", param_name, " {\n"));
    }
    if needs_iter {
        push_line(
            &mut lines,
            cat6(
                spaces(middle).as_str(),
                "        for ",
                param_name,
                " in ",
                param_name,
                " {\n",
            ),
        );
    }
    push_line(
        &mut lines,
        cat6(
            spaces(inner).as_str(),
            "        url_.query_pairs_mut().append_pair(\"",
            param.name.as_str(),
            "\", ",
            value.as_str(),
            ");\n",
        ),
    );
    if inner >= 8 {
        push_line(&mut lines, cat2(spaces(8).as_str(), "    }\n"));
    }
    if inner >= 4 {
        push_line(&mut lines, cat2(spaces(4).as_str(), "    }\n"));
    }
    Ok(lines)
}

fn header_param(param: &Param) -> (r: Vec<String>)
    ensures
        texts(r@) == spec_header_param(*param),
{
    let mut lines: Vec<String> = no_lines();
    if param.style == ParamStyle::Header {
        let value = match &param.fixed {
            Some(f) => cat3("\"", f.as_str(), "\""),
            None => {
                let name = argument_name(param);
                cat3("&", name.as_str(), ".to_string()")
            },
        };
        push_line(
            &mut lines,
            cat5(
                "        req = req.header(\"",
                param.name.as_str(),
                "\", ",
                value.as_str(),
                ");\n",
            ),
        );
    }
    lines
}

fn arg_doc_param<C: Customization>(param: &Param, config: &C) -> (r: Vec<String>)
    ensures
        texts(r@) == spec_arg_doc_param(*param, config),
{
    if param.fixed.is_some() {
        no_lines()
    } else {
        let name = escape_rust_reserved(param.name.as_str());
        format_arg_doc(name, param.doc.as_ref(), config)
    }
}

fn emit_param<C: Customization>(
    which: ParamEmit,
    param: &Param,
    container: &ParamContainer,
    config: &C,
    names: &OptionNames,
) -> (r: Result<Vec<String>, CompileError>)
    ensures
        lines_result(r) == spec_emit_param(which, *param, *container, config, names@),
{
    match which {
        ParamEmit::Body(kind) => body_param(param, container, config, kind, names),
        ParamEmit::Query => query_param(param, container, config, names),
        ParamEmit::FixedQuery => fixed_query_param(param, container),
        ParamEmit::Header => Ok(header_param(param)),
        ParamEmit::ArgDoc => Ok(arg_doc_param(param, config)),
        ParamEmit::Field => field_param(param, container, config, names),
        ParamEmit::DefaultField => Ok(default_field_param(param)),
        ParamEmit::Accessors => Ok(accessors_param(param, config)),
    }
}

/// Emits, after the lines given, what is to be emitted for each parameter of a list.
pub fn emit_params<C: Customization>(
    lines: &mut Vec<String>,
    which: ParamEmit,
    params: &Vec<&Param>,
    container: &ParamContainer,
    config: &C,
    names: &OptionNames,
) -> (r: Result<(), CompileError>)
    ensures
        match r {
            Ok(_) => Ok(texts(final(lines)@)),
            Err(e) => Err(e@),
        } == after(
            texts(old(lines)@),
            spec_emit_params(which, params_of(params@), *container, config, names@),
        ),
{
    let ghost start = texts(lines@);
    let ghost all = params_of(params@);
    let mut i: usize = 0;
    assert(all.skip(0) =~= all);
    assert(start + Seq::<Seq<char>>::empty() =~= start);
    let ghost mut done = Seq::<Seq<char>>::empty();
    while i < params.len()
        invariant
            i <= params.len(),
            all == params_of(params@),
            texts(lines@) == start + done,
            spec_emit_params(which, all, *container, config, names@) == after(
                done,
                spec_emit_params(which, all.skip(i as int), *container, config, names@),
            ),
        decreases params.len() - i,
    {
        let ghost rest = all.skip(i as int);
        assert(rest[0] == *params@[i as int]);
        assert(rest.skip(1) =~= all.skip(i + 1));
        match emit_param(which, params[i], container, config, names) {
            Ok(more) => {
                proof {
                    let tail = spec_emit_params(which, rest.skip(1), *container, config, names@);
                    if let Ok(t) = tail {
                        assert(done + (texts(more@) + t) =~= (done + texts(more@)) + t);
                    }
                    assert((start + done) + texts(more@) =~= start + (done + texts(more@)));
                    done = done + texts(more@);
                }
                crate::text::extend_lines(lines, more);
            },
            Err(e) => {
                return Err(e);
            },
        }
        i = i + 1;
    }
    assert(done + Seq::<Seq<char>>::empty() =~= done);
    Ok(())
}

/// The failure for a representation in a media type that no body can be built for.
pub open spec fn unsupported_media_fault(def: RepresentationDef) -> Fault {
    Fault {
        kind: CompileErrorKind::UnsupportedMediaType,
        item: match def.id {
            Some(id) => id@,
            None => ""@,
        },
        param: ""@,
        detail: match def.media_type {
            Some(m) => m@,
            None => ""@,
        },
    }
}

/// How the body is built for a media type.
pub open spec fn spec_body_kind(media_type: Option<Seq<char>>) -> Option<BodyKind> {
    if media_type == Some("multipart/form-data"@) {
        Some(BodyKind::Multipart)
    } else if media_type == Some("application/x-www-form-urlencoded"@) {
        Some(BodyKind::Form)
    } else if media_type == Some("application/json"@) {
        Some(BodyKind::Json)
    } else {
        None
    }
}

/// The line that opens the building of a body.
pub open spec fn spec_body_opening(kind: BodyKind, asynchronous: bool) -> Seq<char> {
    match kind {
        BodyKind::Multipart => "let mut form = "@ + spec_multipart_module(asynchronous)
            + "::multipart::Form::new();\n"@,
        BodyKind::Form => "let mut serializer = form_urlencoded::Serializer::new(String::new());\n"@,
        BodyKind::Json => "let mut o = serde_json::Value::Object::new();"@,
    }
}

/// The lines that hand a built body to the request.
pub open spec fn spec_body_closing(kind: BodyKind) -> Seq<Seq<char>> {
    match kind {
        BodyKind::Multipart => Seq::<Seq<char>>::empty().push("req = req.multipart(form);\n"@),
        BodyKind::Form => Seq::<Seq<char>>::empty().push(
            "req = req.header(reqwest::header::CONTENT_TYPE, \"application/x-www-form-urlencoded\");\n"@,
        ).push("req = req.body(serializer.finish());\n"@),
        BodyKind::Json => Seq::<Seq<char>>::empty().push("req = req.json(&o);\n"@),
    }
}

/// The lines that build the body of a request from a representation: an opening line,
/// the lines for each parameter, and the lines that hand the body over. A media type
/// other than multipart form, URL-encoded form and JSON is a failure.
#[verifier::opaque]
pub open spec fn spec_serialize_representation_def<C: Customization>(
    def: RepresentationDef,
    config: &C,
    names: Seq<NamePair>,
) -> Result<Seq<Seq<char>>, Fault> {
    match spec_body_kind(media_text(def.media_type)) {
        None => Err(unsupported_media_fault(def)),
        Some(kind) => match after(
            Seq::<Seq<char>>::empty().push(spec_body_opening(kind, config.spec_asynchronous())),
            spec_emit_params(
                ParamEmit::Body(kind),
                def.params@,
                ParamContainer::Representation(&def),
                config,
                names,
            ),
        ) {
            Err(e) => Err(e),
            Ok(lines) => Ok(lines + spec_body_closing(kind)),
        },
    }
}

fn body_kind(def: &RepresentationDef) -> (r: Option<BodyKind>)
    ensures
        r == spec_body_kind(media_text(def.media_type)),
{
    match &def.media_type {
        Some(m) => {
            let text = m.as_str();
            if str_eq(text, "multipart/form-data") {
                Some(BodyKind::Multipart)
            } else if str_eq(text, "application/x-www-form-urlencoded") {
                Some(BodyKind::Form)
            } else if str_eq(text, "application/json") {
                Some(BodyKind::Json)
            } else {
                None
            }
        },
        None => None,
    }
}

/// Emits the lines that build the body of a request from a representation.
pub fn serialize_representation_def<C: Customization>(
    def: &RepresentationDef,
    config: &C,
    names: &OptionNames,
) -> (r: Result<Vec<String>, CompileError>)
    ensures
        lines_result(r) == spec_serialize_representation_def(*def, config, names@),
{
    reveal(spec_serialize_representation_def);
    let kind = match body_kind(def) {
        Some(k) => k,
        None => {
            let item = match &def.id {
                Some(id) => id.clone(),
                None => String::from_str(""),
            };
            let detail = match &def.media_type {
                Some(m) => String::from_str(m.as_str()),
                None => String::from_str(""),
            };
            return Err(
                CompileError::new(
                    CompileErrorKind::UnsupportedMediaType,
                    item.as_str(),
                    "",
                    detail.as_str(),
                ),
            );
        },
    };
    let mut lines: Vec<String> = no_lines();
    let asynchronous = config.asynchronous();
    match kind {
        BodyKind::Multipart => {
            let module = if asynchronous {
                "reqwest"
            } else {
                "reqwest::blocking"
            };
            push_line(&mut lines, cat3("let mut form = ", module, "::multipart::Form::new();\n"));
        },
        BodyKind::Form => {
            push_str_line(
                &mut lines,
                "let mut serializer = form_urlencoded::Serializer::new(String::new());\n",
            );
        },
        BodyKind::Json => {
            push_str_line(&mut lines, "let mut o = serde_json::Value::Object::new();");
        },
    }
    let container = ParamContainer::Representation(def);
    let params = def.iter_all_params();
    match emit_params(&mut lines, ParamEmit::Body(kind), &params, &container, config, names) {
        Ok(_) => {},
        Err(e) => {
            return Err(e);
        },
    }
    match kind {
        BodyKind::Multipart => {
            push_str_line(&mut lines, "req = req.multipart(form);\n");
        },
        BodyKind::Form => {
            push_str_line(
                &mut lines,
                "req = req.header(reqwest::header::CONTENT_TYPE, \"application/x-www-form-urlencoded\");\n",
            );
            push_str_line(&mut lines, "req = req.body(serializer.finish());\n");
        },
        BodyKind::Json => {
            push_str_line(&mut lines, "req = req.json(&o);\n");
        },
    }
    proof {
        let mid = after(
            Seq::<Seq<char>>::empty().push(spec_body_opening(kind, config.spec_asynchronous())),
            spec_emit_params(ParamEmit::Body(kind), def.params@, container, config, names@),
        );
        assert(mid is Ok);
        assert(texts(lines@) =~= mid->Ok_0 + spec_body_closing(kind));
    }
    Ok(lines)
}


/// The text so far followed by the text still to come, or the failure to come.
pub open spec fn after_text(acc: Seq<char>, rest: Result<Seq<char>, Fault>) -> Result<
    Seq<char>,
    Fault,
> {
    match rest {
        Ok(r) => Ok(acc + r),
        Err(e) => Err(e),
    }
}

/// The argument for one parameter of a request, as it stands in the signature: a comma,
/// the name, and the read-only spelling of the type. A parameter with a fixed value is
/// no argument.
pub open spec fn spec_argument<C: Customization>(
    param: Param,
    container: ParamContainer,
    config: &C,
    names: Seq<NamePair>,
) -> Result<Seq<char>, Fault> {
    if param.fixed is Some {
        Ok(""@)
    } else {
        match spec_param_rust_type(container, param, config, false, names) {
            Err(e) => Err(e),
            Ok(t) => Ok(
                ", "@ + spec_escape_rust_reserved(param.name@) + ": "@ + spec_readonly_rust_type(t),
            ),
        }
    }
}

/// The arguments for the parameters of a request, in their order.
pub open spec fn spec_arguments<C: Customization>(
    params: Seq<Param>,
    container: ParamContainer,
    config: &C,
    names: Seq<NamePair>,
) -> Result<Seq<char>, Fault>
    decreases params.len(),
{
    if params.len() == 0 {
        Ok(Seq::empty())
    } else {
        match spec_argument(params[0], container, config, names) {
            Err(e) => Err(e),
            Ok(first) => after_text(
                first,
                spec_arguments(params.skip(1), container, config, names),
            ),
        }
    }
}

fn argument<C: Customization>(
    param: &Param,
    container: &ParamContainer,
    config: &C,
    names: &OptionNames,
) -> (r: Result<String, CompileError>)
    ensures
        text_result(r) == spec_argument(*param, *container, config, names@),
{
    if param.fixed.is_some() {
        return Ok(String::from_str(""));
    }
    match param_rust_type(container, param, config, false, names) {
        Err(e) => Err(e),
        Ok(p) => {
            let readonly = readonly_rust_type(p.0.as_str());
            Ok(
                cat4(
                    ", ",
                    escape_rust_reserved(param.name.as_str()),
                    ": ",
                    readonly.as_str(),
                ),
            )
        },
    }
}

pub(crate) fn arguments<C: Customization>(
    line: &mut String,
    params: &Vec<&Param>,
    container: &ParamContainer,
    config: &C,
    names: &OptionNames,
) -> (r: Result<(), CompileError>)
    ensures
        match r {
            Ok(_) => Ok(final(line)@),
            Err(e) => Err(e@),
        } == after_text(old(line)@, spec_arguments(params_of(params@), *container, config, names@)),
{
    let ghost start = line@;
    let ghost all = params_of(params@);
    let mut i: usize = 0;
    assert(all.skip(0) =~= all);
    assert(start + Seq::<char>::empty() =~= start);
    let ghost mut done = Seq::<char>::empty();
    while i < params.len()
        invariant
            i <= params.len(),
            all == params_of(params@),
            line@ == start + done,
            spec_arguments(all, *container, config, names@) == after_text(
                done,
                spec_arguments(all.skip(i as int), *container, config, names@),
            ),
        decreases params.len() - i,
    {
        let ghost rest = all.skip(i as int);
        assert(rest[0] == *params@[i as int]);
        assert(rest.skip(1) =~= all.skip(i + 1));
        match argument(params[i], container, config, names) {
            Ok(more) => {
                proof {
                    let tail = spec_arguments(rest.skip(1), *container, config, names@);
                    if let Ok(t) = tail {
                        assert(done + (more@ + t) =~= (done + more@) + t);
                    }
                    assert((start + done) + more@ =~= start + (done + more@));
                    done = done + more@;
                }
                line.append(more.as_str());
            },
            Err(e) => {
                return Err(e);
            },
        }
        i = i + 1;
    }
    assert(done + Seq::<char>::empty() =~= done);
    Ok(())
}

/// The arguments for the referenced representations of a request: one named
/// `representation` for each, of the type that the reference names.
pub open spec fn spec_representation_arguments(reps: Seq<Representation>, method: Method) -> Result<
    Seq<char>,
    Fault,
>
    decreases reps.len(),
{
    if reps.len() == 0 {
        Ok(Seq::empty())
    } else {
        match reps[0] {
            Representation::Definition(_) => spec_representation_arguments(reps.skip(1), method),
            Representation::Reference(r) => match spec_representation_ref_id(r) {
                None => Err(method_fault(CompileErrorKind::MissingId, method, ""@)),
                Some(id) => after_text(
                    ", representation: &"@ + spec_camel_case(id),
                    spec_representation_arguments(reps.skip(1), method),
                ),
            },
        }
    }
}

pub(crate) fn representation_arguments(line: &mut String, method: &Method) -> (r: Result<(), CompileError>)
    ensures
        match r {
            Ok(_) => Ok(final(line)@),
            Err(e) => Err(e@),
        } == after_text(
            old(line)@,
            spec_representation_arguments(method.request.representations@, *method),
        ),
{
    let reps = &method.request.representations;
    let ghost start = line@;
    let mut i: usize = 0;
    assert(reps@.skip(0) =~= reps@);
    assert(start + Seq::<char>::empty() =~= start);
    let ghost mut done = Seq::<char>::empty();
    while i < reps.len()
        invariant
            i <= reps.len(),
            reps == &method.request.representations,
            line@ == start + done,
            spec_representation_arguments(reps@, *method) == after_text(
                done,
                spec_representation_arguments(reps@.skip(i as int), *method),
            ),
        decreases reps.len() - i,
    {
        let ghost rest = reps@.skip(i as int);
        assert(rest[0] == reps@[i as int]);
        assert(rest.skip(1) =~= reps@.skip(i + 1));
        match &reps[i] {
            Representation::Definition(_) => {},
            Representation::Reference(r) => match r.id() {
                None => {
                    return Err(
                        CompileError::new(
                            CompileErrorKind::MissingId,
                            method.id.as_str(),
                            "",
                            "",
                        ),
                    );
                },
                Some(id) => {
                    let more = cat2(", representation: &", camel_case_name(id.as_str()).as_str());
                    proof {
                        let tail = spec_representation_arguments(rest.skip(1), *method);
                        if let Ok(t) = tail {
                            assert(done + (more@ + t) =~= (done + more@) + t);
                        }
                        assert((start + done) + more@ =~= start + (done + more@));
                        done = done + more@;
                    }
                    line.append(more.as_str());
                },
            },
        }
        i = i + 1;
    }
    assert(done + Seq::<char>::empty() =~= done);
    Ok(())
}

/// The lines that give the request its body for one representation: the lines that build
/// the body from a definition, indented twice, or the line that sends the argument
/// `representation` as JSON for a reference.
pub open spec fn spec_request_body<C: Customization>(
    rep: Representation,
    config: &C,
    names: Seq<NamePair>,
) -> Result<Seq<Seq<char>>, Fault> {
    match rep {
        Representation::Definition(d) => match spec_serialize_representation_def(d, config, names) {
            Err(e) => Err(e),
            Ok(body) => Ok(spec_indent(2, body)),
        },
        Representation::Reference(_) => Ok(
            Seq::<Seq<char>>::empty().push("        req = req.json(&representation);\n"@),
        ),
    }
}

/// The lines that give the request its body, for each representation of the request.
pub open spec fn spec_request_bodies<C: Customization>(
    reps: Seq<Representation>,
    config: &C,
    names: Seq<NamePair>,
) -> Result<Seq<Seq<char>>, Fault>
    decreases reps.len(),
{
    if reps.len() == 0 {
        Ok(Seq::empty())
    } else {
        match spec_request_body(reps[0], config, names) {
            Err(e) => Err(e),
            Ok(first) => after(first, spec_request_bodies(reps.skip(1), config, names)),
        }
    }
}

fn request_body<C: Customization>(rep: &Representation, config: &C, names: &OptionNames) -> (r:
    Result<Vec<String>, CompileError>)
    ensures
        lines_result(r) == spec_request_body(*rep, config, names@),
{
    match rep {
        Representation::Definition(d) => match serialize_representation_def(d, config, names) {
            Err(e) => Err(e),
            Ok(body) => Ok(indent(2, body)),
        },
        Representation::Reference(_) => {
            let mut one: Vec<String> = no_lines();
            push_str_line(&mut one, "        req = req.json(&representation);\n");
            Ok(one)
        },
    }
}

pub(crate) fn request_bodies<C: Customization>(
    lines: &mut Vec<String>,
    reps: &Vec<Representation>,
    config: &C,
    names: &OptionNames,
) -> (r: Result<(), CompileError>)
    ensures
        match r {
            Ok(_) => Ok(texts(final(lines)@)),
            Err(e) => Err(e@),
        } == after(texts(old(lines)@), spec_request_bodies(reps@, config, names@)),
{
    let ghost start = texts(lines@);
    let mut i: usize = 0;
    assert(reps@.skip(0) =~= reps@);
    assert(start + Seq::<Seq<char>>::empty() =~= start);
    let ghost mut done = Seq::<Seq<char>>::empty();
    while i < reps.len()
        invariant
            i <= reps.len(),
            texts(lines@) == start + done,
            spec_request_bodies(reps@, config, names@) == after(
                done,
                spec_request_bodies(reps@.skip(i as int), config, names@),
            ),
        decreases reps.len() - i,
    {
        let ghost rest = reps@.skip(i as int);
        assert(rest[0] == reps@[i as int]);
        assert(rest.skip(1) =~= reps@.skip(i + 1));
        match request_body(&reps[i], config, names) {
            Ok(more) => {
                proof {
                    let tail = spec_request_bodies(rest.skip(1), config, names@);
                    if let Ok(t) = tail {
                        assert(done + (texts(more@) + t) =~= (done + texts(more@)) + t);
                    }
                    assert((start + done) + texts(more@) =~= start + (done + texts(more@)));
                    done = done + texts(more@);
                }
                crate::text::extend_lines(lines, more);
            },
            Err(e) => {
                return Err(e);
            },
        }
        i = i + 1;
    }
    assert(done + Seq::<Seq<char>>::empty() =~= done);
    Ok(())
}

/// The media types that the method accepts: JSON for each referenced representation of
/// each response.
pub open spec fn spec_accepted_types(responses: Seq<Response>) -> Seq<Seq<char>>
    decreases responses.len(),
{
    if responses.len() == 0 {
        Seq::empty()
    } else {
        spec_accepted_types(responses.drop_last()) + spec_references(
            responses.last().representations@,
        ).map_values(|r: RepresentationRef| "application/json"@)
    }
}

pub(crate) fn accepted_types(responses: &Vec<Response>) -> (r: Vec<String>)
    ensures
        texts(r@) == spec_accepted_types(responses@),
{
    let mut out: Vec<String> = no_lines();
    let mut i: usize = 0;
    while i < responses.len()
        invariant
            i <= responses.len(),
            texts(out@) == spec_accepted_types(responses@.take(i as int)),
        decreases responses.len() - i,
    {
        proof {
            let next = responses@.take(i + 1);
            assert(next.drop_last() =~= responses@.take(i as int));
            assert(next.last() == responses@[i as int]);
        }
        let refs = references_of(&responses[i].representations);
        let ghost before = texts(out@);
        let ghost more = spec_references(responses@[i as int].representations@).map_values(
            |r: RepresentationRef| "application/json"@,
        );
        let mut k: usize = 0;
        assert(before + more.take(0) =~= before);
        while k < refs.len()
            invariant
                k <= refs.len(),
                refs@.len() == more.len(),
                forall|j: int| 0 <= j < more.len() ==> more[j] == "application/json"@,
                texts(out@) == before + more.take(k as int),
            decreases refs.len() - k,
        {
            push_str_line(&mut out, "application/json");
            k = k + 1;
            assert(texts(out@) =~= before + more.take(k as int));
        }
        assert(more.take(more.len() as int) =~= more);
        i = i + 1;
    }
    assert(responses@.take(responses@.len() as int) =~= responses@);
    out
}

/// The expression for the value that a header of the response gives: the handle of the
/// resource that the parameter's first link names, made from the header, and whether it
/// is there for certain. A parameter that is no header or has no link to a resource type
/// is a failure.
pub open spec fn spec_return_value<C: Customization>(
    param: Param,
    container: ParamContainer,
    config: &C,
) -> Result<(Seq<char>, bool), Fault> {
    if param.style != ParamStyle::Header || param.links@.len() == 0 {
        Err(param_fault(CompileErrorKind::UnsupportedResponseParam, container, param))
    } else {
        match param.links@[0].resource_type {
            None => Err(param_fault(CompileErrorKind::UnsupportedResponseParam, container, param)),
            Some(r) => if !config.spec_nillable(param) {
                Ok(
                    (
                        spec_resource_type_rust_type(r) + "(resp.headers().get(\""@ + param.name@
                            + "\")?.to_str()?.parse().unwrap())"@,
                        true,
                    ),
                )
            } else {
                Ok(
                    (
                        "resp.headers().get(\""@ + param.name@ + "\").map(|x| "@
                            + spec_resource_type_rust_type(r)
                            + "(x.to_str().unwrap().parse().unwrap()))"@,
                        false,
                    ),
                )
            },
        }
    }
}

/// Expressions with their certainty, by their characters.
pub open spec fn values_of(v: Seq<(String, bool)>) -> Seq<(Seq<char>, bool)> {
    v.map_values(|p: (String, bool)| (p.0@, p.1))
}

/// The expressions for the values that the parameters of a response give.
pub open spec fn spec_return_values<C: Customization>(
    params: Seq<Param>,
    container: ParamContainer,
    config: &C,
) -> Result<Seq<(Seq<char>, bool)>, Fault>
    decreases params.len(),
{
    if params.len() == 0 {
        Ok(Seq::empty())
    } else {
        match spec_return_value(params[0], container, config) {
            Err(e) => Err(e),
            Ok(first) => match spec_return_values(params.skip(1), container, config) {
                Err(e) => Err(e),
                Ok(rest) => Ok(seq![first] + rest),
            },
        }
    }
}

fn return_value<C: Customization>(param: &Param, container: &ParamContainer, config: &C) -> (r:
    Result<(String, bool), CompileError>)
    ensures
        match r {
            Ok(p) => Ok((p.0@, p.1)),
            Err(e) => Err(e@),
        } == spec_return_value(*param, *container, config),
{
    if param.style != ParamStyle::Header || param.links.len() == 0 {
        return Err(param_error(CompileErrorKind::UnsupportedResponseParam, container, param));
    }
    match &param.links[0].resource_type {
        None => Err(param_error(CompileErrorKind::UnsupportedResponseParam, container, param)),
        Some(r) => {
            let rust_type = resource_type_rust_type(r);
            if !config.nillable(param) {
                Ok(
                    (
                        cat4(
                            rust_type.as_str(),
                            "(resp.headers().get(\"",
                            param.name.as_str(),
                            "\")?.to_str()?.parse().unwrap())",
                        ),
                        true,
                    ),
                )
            } else {
                Ok(
                    (
                        cat5(
                            "resp.headers().get(\"",
                            param.name.as_str(),
                            "\").map(|x| ",
                            rust_type.as_str(),
                            "(x.to_str().unwrap().parse().unwrap()))",
                        ),
                        false,
                    ),
                )
            }
        },
    }
}

fn return_values<C: Customization>(params: &Vec<Param>, container: &ParamContainer, config: &C) -> (r:
    Result<Vec<(String, bool)>, CompileError>)
    ensures
        match r {
            Ok(v) => Ok(values_of(v@)),
            Err(e) => Err(e@),
        } == spec_return_values(params@, *container, config),
{
    let mut out: Vec<(String, bool)> = Vec::new();
    let mut i: usize = 0;
    assert(params@.skip(0) =~= params@);
    while i < params.len()
        invariant
            i <= params.len(),
            spec_return_values(params@, *container, config) == (match spec_return_values(
                params@.skip(i as int),
                *container,
                config,
            ) {
                Ok(rest) => Ok(values_of(out@) + rest),
                Err(e) => Err(e),
            }),
        decreases params.len() - i,
    {
        let ghost rest = params@.skip(i as int);
        assert(rest[0] == params@[i as int]);
        assert(rest.skip(1) =~= params@.skip(i + 1));
        match return_value(&params[i], container, config) {
            Err(e) => {
                return Err(e);
            },
            Ok(v) => {
                proof {
                    let tail = spec_return_values(rest.skip(1), *container, config);
                    if let Ok(t) = tail {
                        assert(values_of(out@) + (seq![(v.0@, v.1)] + t) =~= values_of(
                            out@.push(v),
                        ) + t);
                    }
                }
                out.push(v);
            },
        }
        i = i + 1;
    }
    assert(values_of(out@) + Seq::<(Seq<char>, bool)>::empty() =~= values_of(out@));
    Ok(out)
}

/// The expressions of a list, without their certainty.
pub open spec fn spec_expressions(values: Seq<(Seq<char>, bool)>) -> Seq<Seq<char>> {
    values.map_values(|p: (Seq<char>, bool)| p.0)
}

/// What a method returns from the values it has read: the unit value where there is none,
/// the one value, or the tuple of all, with the mapping function applied, inside `Ok`.
pub open spec fn spec_serialize_return_types(
    values: Seq<(Seq<char>, bool)>,
    map_fn: Option<Seq<char>>,
) -> Seq<char> {
    if values.len() == 0 {
        "Ok(())"@
    } else if values.len() == 1 {
        "Ok("@ + spec_apply_map_fn(map_fn, values[0].0, !values[0].1) + ")"@
    } else {
        "Ok("@ + spec_apply_map_fn(
            map_fn,
            "("@ + spec_join(spec_expressions(values), ", "@) + ")"@,
            false,
        ) + ")"@
    }
}

fn serialize_return_types(values: &Vec<(String, bool)>, map_fn: Option<&str>) -> (r: String)
    ensures
        r@ == spec_serialize_return_types(
            values_of(values@),
            match map_fn {
                Some(f) => Some(f@),
                None => None,
            },
        ),
{
    if values.len() == 0 {
        String::from_str("Ok(())")
    } else if values.len() == 1 {
        let inner = apply_map_fn(map_fn, values[0].0.as_str(), !values[0].1);
        cat3("Ok(", inner.as_str(), ")")
    } else {
        let mut parts: Vec<String> = no_lines();
        let mut i: usize = 0;
        while i < values.len()
            invariant
                i <= values.len(),
                texts(parts@) =~= spec_expressions(values_of(values@)).take(i as int),
            decreases values.len() - i,
        {
            let part = values[i].0.clone();
            proof {
                lemma_texts_push(parts@, part);
            }
            parts.push(part);
            i = i + 1;
        }
        assert(spec_expressions(values_of(values@)).take(values@.len() as int)
            =~= spec_expressions(values_of(values@)));
        let joined = join(&parts, ", ");
        let tuple = cat3("(", joined.as_str(), ")");
        let inner = apply_map_fn(map_fn, tuple.as_str(), false);
        cat3("Ok(", inner.as_str(), ")")
    }
}

/// The media type under which a representation of a response is matched: its own where
/// it is a definition with one, else JSON.
pub open spec fn spec_arm_media_type(rep: Representation) -> Seq<char> {
    match rep {
        Representation::Definition(d) => match d.media_type {
            Some(m) => m@,
            None => "application/json"@,
        },
        Representation::Reference(_) => "application/json"@,
    }
}

/// The expression that decodes the body of a response as a referenced representation.
pub open spec fn spec_decoded_body(r: RepresentationRef, asynchronous: bool) -> Seq<char> {
    "resp.json::<"@ + spec_representation_rust_type(r) + ">()"@ + (if asynchronous {
        ".await"@
    } else {
        ""@
    }) + "?"@
}

/// The arm for one representation of a response, by its media type: for a reference the
/// decoded body before the other values, for a definition a marker that nothing is
/// implemented.
#[verifier::opaque]
pub open spec fn spec_representation_arm(
    rep: Representation,
    values: Seq<(Seq<char>, bool)>,
    map_fn: Option<Seq<char>>,
    asynchronous: bool,
) -> Seq<Seq<char>> {
    Seq::<Seq<char>>::empty().push(
        "                    Some(\""@ + spec_arm_media_type(rep) + "\") => {\n"@,
    ).push(
        match rep {
            Representation::Reference(r) => "                             "@
                + spec_serialize_return_types(
                seq![(spec_decoded_body(r, asynchronous), true)] + values,
                map_fn,
            ) + "\n"@,
            Representation::Definition(_) => "                        unimplemented!();\n"@,
        },
    ).push("                        }\n"@)
}

/// The arms for the representations of a response, in their order.
pub open spec fn spec_representation_arms(
    reps: Seq<Representation>,
    values: Seq<(Seq<char>, bool)>,
    map_fn: Option<Seq<char>>,
    asynchronous: bool,
) -> Seq<Seq<char>>
    decreases reps.len(),
{
    if reps.len() == 0 {
        Seq::empty()
    } else {
        spec_representation_arms(reps.drop_last(), values, map_fn, asynchronous)
            + spec_representation_arm(reps.last(), values, map_fn, asynchronous)
    }
}

fn representation_arm(
    rep: &Representation,
    values: &Vec<(String, bool)>,
    map_fn: Option<&str>,
    asynchronous: bool,
) -> (r: Vec<String>)
    ensures
        texts(r@) == spec_representation_arm(
            *rep,
            values_of(values@),
            match map_fn {
                Some(f) => Some(f@),
                None => None,
            },
            asynchronous,
        ),
{
    reveal(spec_representation_arm);
    let mut lines: Vec<String> = no_lines();
    let media = match rep {
        Representation::Definition(d) => match &d.media_type {
            Some(m) => String::from_str(m.as_str()),
            None => String::from_str("application/json"),
        },
        Representation::Reference(_) => String::from_str("application/json"),
    };
    push_line(&mut lines, cat3("                    Some(\"", media.as_str(), "\") => {\n"));
    match rep {
        Representation::Reference(r) => {
            let rust_type = representation_rust_type(r);
            let decoded = cat5(
                "resp.json::<",
                rust_type.as_str(),
                ">()",
                if asynchronous {
                    ".await"
                } else {
                    ""
                },
                "?",
            );
            let mut all: Vec<(String, bool)> = Vec::new();
            all.push((decoded, true));
            let mut i: usize = 0;
            while i < values.len()
                invariant
                    i <= values.len(),
                    values_of(all@) =~= seq![(decoded@, true)] + values_of(values@).take(i as int),
                decreases values.len() - i,
            {
                let v = (values[i].0.clone(), values[i].1);
                let ghost before = values_of(all@);
                let ghost item = (v.0@, v.1);
                assert(values_of(values@)[i as int] == item);
                all.push(v);
                i = i + 1;
                assert(values_of(all@) =~= before.push(item));
                assert(values_of(values@).take(i as int) =~= values_of(values@).take(i - 1).push(
                    item,
                ));
            }
            assert(values_of(values@).take(values@.len() as int) =~= values_of(values@));
            let returned = serialize_return_types(&all, map_fn);
            push_line(
                &mut lines,
                cat3("                             ", returned.as_str(), "\n"),
            );
        },
        Representation::Definition(_) => {
            push_str_line(&mut lines, "                        unimplemented!();\n");
        },
    }
    push_str_line(&mut lines, "                        }\n");
    lines
}

/// The pattern and guard of the arm for a response: its status where it has one, else
/// any status of success.
pub open spec fn spec_status_guard(status: Option<i32>) -> Seq<char> {
    match status {
        Some(code) => "            s if s.as_u16() == reqwest::StatusCode::"@ + spec_decimal(
            code as int,
        ) + " => {\n"@,
        None => "            s if s.is_success() => {\n"@,
    }
}

/// The line that reads the media type of a response.
pub open spec fn content_type_line() -> Seq<char> {
    "                let content_type: Option<mime::Mime> = resp.headers().get(reqwest::header::CONTENT_TYPE).map(|x| x.to_str().unwrap()).map(|x| x.parse().unwrap());\n"@
}

/// The arm of the match on the status for one response. Its guard names the status of the
/// response. With representations the arm matches on the media type of the response, one
/// arm for each representation and one that reports any other media type; without, it
/// returns the values that the headers give.
#[verifier::opaque]
pub open spec fn spec_response_arm<C: Customization>(
    method: Method,
    response: Response,
    map_fn: Option<Seq<char>>,
    config: &C,
) -> Result<Seq<Seq<char>>, Fault> {
    match spec_return_values(
        response.params@,
        ParamContainer::Response(&method, &response),
        config,
    ) {
        Err(e) => Err(e),
        Ok(values) => {
            let head = Seq::<Seq<char>>::empty().push(spec_status_guard(response.status));
            if response.representations@.len() > 0 {
                Ok(
                    (head.push(content_type_line()).push(
                        "                match content_type.as_ref().map(|x| x.essence_str()) {\n"@,
                    ) + spec_representation_arms(
                        response.representations@,
                        values,
                        map_fn,
                        config.spec_asynchronous(),
                    )).push(
                        "                    _ => { Err(wadl::Error::UnhandledContentType(content_type)) }\n"@,
                    ).push("                }\n"@).push("            }\n"@),
                )
            } else {
                Ok(
                    head.push(
                        "                "@ + spec_serialize_return_types(values, map_fn) + "\n"@,
                    ).push("            }\n"@),
                )
            }
        },
    }
}

pub(crate) fn response_arm<C: Customization>(
    method: &Method,
    response: &Response,
    map_fn: Option<&str>,
    config: &C,
) -> (r: Result<Vec<String>, CompileError>)
    ensures
        lines_result(r) == spec_response_arm(
            *method,
            *response,
            match map_fn {
                Some(f) => Some(f@),
                None => None,
            },
            config,
        ),
{
    reveal(spec_response_arm);
    let container = ParamContainer::Response(method, response);
    let values = match return_values(&response.params, &container, config) {
        Ok(v) => v,
        Err(e) => {
            return Err(e);
        },
    };
    let ghost fn_view = match map_fn {
        Some(f) => Some(f@),
        None => None,
    };
    let mut lines: Vec<String> = no_lines();
    match response.status {
        Some(code) => {
            let number = crate::text::decimal(code);
            push_line(
                &mut lines,
                cat3(
                    "            s if s.as_u16() == reqwest::StatusCode::",
                    number.as_str(),
                    " => {\n",
                ),
            );
        },
        None => {
            push_str_line(&mut lines, "            s if s.is_success() => {\n");
        },
    }
    if response.representations.len() > 0 {
        push_str_line(
            &mut lines,
            "                let content_type: Option<mime::Mime> = resp.headers().get(reqwest::header::CONTENT_TYPE).map(|x| x.to_str().unwrap()).map(|x| x.parse().unwrap());\n",
        );
        push_str_line(
            &mut lines,
            "                match content_type.as_ref().map(|x| x.essence_str()) {\n",
        );
        let asynchronous = config.asynchronous();
        let ghost head = texts(lines@);
        let reps = &response.representations;
        let mut i: usize = 0;
        assert(head + spec_representation_arms(reps@.take(0), values_of(values@), fn_view, asynchronous)
            =~= head);
        while i < reps.len()
            invariant
                i <= reps.len(),
                texts(lines@) == head + spec_representation_arms(
                    reps@.take(i as int),
                    values_of(values@),
                    fn_view,
                    asynchronous,
                ),
                fn_view == (match map_fn {
                    Some(f) => Some(f@),
                    None => None,
                }),
            decreases reps.len() - i,
        {
            proof {
                let next = reps@.take(i + 1);
                assert(next.drop_last() =~= reps@.take(i as int));
                assert(next.last() == reps@[i as int]);
            }
            let more = representation_arm(&reps[i], &values, map_fn, asynchronous);
            crate::text::extend_lines(&mut lines, more);
            i = i + 1;
            assert(texts(lines@) =~= head + spec_representation_arms(
                reps@.take(i as int),
                values_of(values@),
                fn_view,
                asynchronous,
            ));
        }
        assert(reps@.take(reps@.len() as int) =~= reps@);
        push_str_line(
            &mut lines,
            "                    _ => { Err(wadl::Error::UnhandledContentType(content_type)) }\n",
        );
        push_str_line(&mut lines, "                }\n");
    } else {
        let returned = serialize_return_types(&values, map_fn);
        push_line(&mut lines, cat3("                ", returned.as_str(), "\n"));
    }
    push_str_line(&mut lines, "            }\n");
    Ok(lines)
}


/// The arm for a response begins with the guard for the status of that response: a
/// response that names a status is matched on that very status, in decimal, and only a
/// response that names none on any status of success. Without representations the arm
/// holds nothing but the guard, the returned value and the closing brace.
pub proof fn lemma_response_arm_guard<C: Customization>(
    method: Method,
    response: Response,
    map_fn: Option<Seq<char>>,
    config: &C,
)
    requires
        spec_response_arm(method, response, map_fn, config) is Ok,
    ensures
        spec_response_arm(method, response, map_fn, config)->Ok_0.len() >= 3,
        spec_response_arm(method, response, map_fn, config)->Ok_0[0] == spec_status_guard(
            response.status,
        ),
        response.status is Some ==> spec_status_guard(response.status)
            == "            s if s.as_u16() == reqwest::StatusCode::"@ + spec_decimal(
            response.status->0 as int,
        ) + " => {\n"@,
        response.status is None ==> spec_status_guard(response.status)
            == "            s if s.is_success() => {\n"@,
        response.representations@.len() == 0 ==> spec_response_arm(
            method,
            response,
            map_fn,
            config,
        )->Ok_0 == seq![
            spec_status_guard(response.status),
            "                "@ + spec_serialize_return_types(
                spec_return_values(
                    response.params@,
                    ParamContainer::Response(&method, &response),
                    config,
                )->Ok_0,
                map_fn,
            ) + "\n"@,
            "            }\n"@,
        ],
{
    reveal(spec_response_arm);
    let arm = spec_response_arm(method, response, map_fn, config)->Ok_0;
    let values = spec_return_values(
        response.params@,
        ParamContainer::Response(&method, &response),
        config,
    )->Ok_0;
    if response.representations@.len() == 0 {
        assert(arm =~= seq![
            spec_status_guard(response.status),
            "                "@ + spec_serialize_return_types(values, map_fn) + "\n"@,
            "            }\n"@,
        ]);
    }
}

/// The status 200 is written as `200`.
pub proof fn lemma_status_200()
    ensures
        spec_decimal(200) == seq!['2', '0', '0'],
{
    assert(crate::text::spec_digits(2) =~= seq!['2']);
    assert(crate::text::spec_digits(20) =~= seq!['2', '0']);
    assert(crate::text::spec_digits(200) =~= seq!['2', '0', '0']);
}

} // verus!
