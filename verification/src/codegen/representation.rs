//! The records that are emitted for representations.
use vstd::prelude::*;
use vstd::string::*;
use crate::ast::{spec_ref_id, Link, Param, RepresentationDef, ResourceTypeRef};
use crate::codegen::config::{
    lines_result, CompileError, CompileErrorKind, Customization, Fault, ParamContainer,
};
use crate::codegen::docs::{generate_doc, push_docs, spec_generate_doc, spec_generate_docs};
use crate::codegen::method::{after, emit_params, spec_emit_params, ParamEmit};
use crate::codegen::names::{
    camel_case_name, escape_rust_reserved, snake_case_name, spec_camel_case,
    spec_escape_rust_reserved, spec_snake_case,
};
use crate::codegen::operation::{spec_visible, visible};
use crate::codegen::option_names::{NamePair, OptionNames};
use crate::codegen::types::{param_rust_type, spec_param_rust_type};
use crate::media::media_text;
use crate::text::{
    cat3, cat4, cat5, cat6, cat7, extend_lines, no_lines, push_line, push_str_line,
    str_eq, texts,
};

verus! {

/// The documentation of a parameter as a comment, indented once, where it has some.
pub open spec fn spec_param_doc<C: Customization>(param: Param, config: &C) -> Seq<Seq<char>> {
    match param.doc {
        Some(d) => spec_generate_doc(d, 1, config),
        None => Seq::<Seq<char>>::empty(),
    }
}

fn param_doc<C: Customization>(param: &Param, config: &C) -> (r: Vec<String>)
    ensures
        texts(r@) == spec_param_doc(*param, config),
{
    match &param.doc {
        Some(d) => generate_doc(d, 1, config),
        None => no_lines(),
    }
}

/// The type that an accessor returns and the function that maps to it, where there is
/// one: the type of the linked resource or what the customization maps it to, in an
/// option where the parameter may be absent.
pub open spec fn spec_accessor_type<C: Customization>(field_type: Seq<char>, param: Param, config: &C) -> (
    Seq<char>,
    Option<Seq<char>>,
) {
    let mapped = match config.spec_map_type_for_accessor(field_type) {
        Some((t, f)) => (t, Some(f)),
        None => (field_type, None),
    };
    if config.spec_nillable(param) {
        ("Option<"@ + mapped.0 + ">"@, mapped.1)
    } else {
        mapped
    }
}

/// The getter and the setter for a field that holds the URL of a resource of a declared
/// type. The getter wraps the URL in the handle of that type, and the setter takes the URL
/// out of a handle; both go through an option where the parameter may be absent. A
/// reference that names no type gives nothing.
#[verifier::opaque]
pub open spec fn spec_accessors<C: Customization>(
    field_name: Seq<char>,
    input: ResourceTypeRef,
    param: Param,
    config: &C,
) -> Seq<Seq<char>> {
    match spec_ref_id(input) {
        None => Seq::<Seq<char>>::empty(),
        Some(id) => {
            let deprecated = config.spec_deprecated_param(param);
            let nillable = config.spec_nillable(param);
            let field_type = spec_camel_case(id);
            let (ret_type, map_fn) = spec_accessor_type(field_type, param, config);
            let accessor = match config.spec_param_accessor_rename(param.name@, ret_type) {
                Some(n) => n,
                None => field_name,
            };
            let visibility = spec_visible(config.spec_accessor_visibility(accessor, field_type));
            let l1 = spec_param_doc(param, config);
            let l2 = if deprecated {
                l1.push("    #[deprecated]"@)
            } else {
                l1
            };
            let l3 = l2.push(
                "    "@ + visibility + "fn "@ + accessor + "(&self) -> "@ + ret_type + " {\n"@,
            );
            let l4 = l3.push(
                if !nillable {
                    match map_fn {
                        Some(f) => "        "@ + f + "("@ + field_type + "(self."@ + field_name
                            + ".clone())\n"@,
                        None => "        "@ + field_type + "(self."@ + field_name + ".clone())\n"@,
                    }
                } else {
                    "        self."@ + field_name + ".as_ref().map(|x| "@ + field_type
                        + "(x.clone()))"@ + (match map_fn {
                        Some(f) => ".map("@ + f + ")"@,
                        None => ""@,
                    }) + "\n"@
                },
            ).push("    }\n"@).push("\n"@);
            let l5 = if deprecated {
                l4.push("    #[deprecated]"@)
            } else {
                l4
            };
            let l6 = l5.push(
                "    "@ + visibility + "fn set_"@ + accessor + "(&mut self, value: "@ + ret_type
                    + ") {\n"@,
            ).push(
                if !nillable {
                    "        self."@ + field_name + " = value.url().clone();\n"@
                } else {
                    "        self."@ + field_name + " = value.map(|x| x.url().clone());\n"@
                },
            ).push("    }\n"@);
            l6 + config.spec_extend_accessor(param, accessor, ret_type)
        },
    }
}

/// Emits the getter and the setter for a field that links to a resource.
pub fn generate_resource_type_ref_accessors<C: Customization>(
    field_name: &str,
    input: &ResourceTypeRef,
    param: &Param,
    config: &C,
) -> (r: Vec<String>)
    ensures
        texts(r@) == spec_accessors(field_name@, *input, *param, config),
{
    reveal(spec_accessors);
    let id = match input.id() {
        Some(id) => id,
        None => {
            return no_lines();
        },
    };
    let deprecated = config.deprecated_param(param);
    let nillable = config.nillable(param);
    let field_type = camel_case_name(id.as_str());
    let (mapped, map_fn) = match config.map_type_for_accessor(field_type.as_str()) {
        Some((t, f)) => (t, Some(f)),
        None => (field_type.clone(), None),
    };
    let ret_type = if nillable {
        cat3("Option<", mapped.as_str(), ">")
    } else {
        mapped
    };
    let accessor = match config.param_accessor_rename(param.name.as_str(), ret_type.as_str()) {
        Some(n) => n,
        None => String::from_str(field_name),
    };
    let visibility = visible(config.accessor_visibility(accessor.as_str(), field_type.as_str()));
    let mut lines = param_doc(param, config);
    if deprecated {
        push_str_line(&mut lines, "    #[deprecated]");
    }
    push_line(
        &mut lines,
        cat7(
            "    ",
            visibility.as_str(),
            "fn ",
            accessor.as_str(),
            "(&self) -> ",
            ret_type.as_str(),
            " {\n",
        ),
    );
    let body = if !nillable {
        match &map_fn {
            Some(f) => cat7(
                "        ",
                f.as_str(),
                "(",
                field_type.as_str(),
                "(self.",
                field_name,
                ".clone())\n",
            ),
            None => cat5("        ", field_type.as_str(), "(self.", field_name, ".clone())\n"),
        }
    } else {
        let mapping = match &map_fn {
            Some(f) => cat3(".map(", f.as_str(), ")"),
            None => String::from_str(""),
        };
        cat7(
            "        self.",
            field_name,
            ".as_ref().map(|x| ",
            field_type.as_str(),
            "(x.clone()))",
            mapping.as_str(),
            "\n",
        )
    };
    push_line(&mut lines, body);
    push_str_line(&mut lines, "    }\n");
    push_str_line(&mut lines, "\n");
    if deprecated {
        push_str_line(&mut lines, "    #[deprecated]");
    }
    push_line(
        &mut lines,
        cat7(
            "    ",
            visibility.as_str(),
            "fn set_",
            accessor.as_str(),
            "(&mut self, value: ",
            ret_type.as_str(),
            ") {\n",
        ),
    );
    if !nillable {
        push_line(&mut lines, cat3("        self.", field_name, " = value.url().clone();\n"));
    } else {
        push_line(
            &mut lines,
            cat3("        self.", field_name, " = value.map(|x| x.url().clone());\n"),
        );
    }
    push_str_line(&mut lines, "    }\n");
    let more = config.extend_accessor(param, accessor.as_str(), ret_type.as_str());
    extend_lines(&mut lines, more);
    lines
}

/// The accessors for the links of a parameter, one pair for each link that names a
/// resource type.
pub open spec fn spec_link_accessors<C: Customization>(
    links: Seq<Link>,
    field_name: Seq<char>,
    param: Param,
    config: &C,
) -> Seq<Seq<char>>
    decreases links.len(),
{
    if links.len() == 0 {
        Seq::empty()
    } else {
        spec_link_accessors(links.drop_last(), field_name, param, config) + (
        match links.last().resource_type {
            Some(r) => spec_accessors(field_name, r, param, config),
            None => Seq::<Seq<char>>::empty(),
        })
    }
}

/// The accessors for a parameter of a representation.
pub open spec fn spec_accessors_param<C: Customization>(param: Param, config: &C) -> Seq<Seq<char>> {
    spec_link_accessors(param.links@, spec_snake_case(param.name@), param, config)
}

pub(crate) fn accessors_param<C: Customization>(param: &Param, config: &C) -> (r: Vec<String>)
    ensures
        texts(r@) == spec_accessors_param(*param, config),
{
    let field_name = snake_case_name(param.name.as_str());
    let mut lines: Vec<String> = no_lines();
    let mut i: usize = 0;
    while i < param.links.len()
        invariant
            i <= param.links.len(),
            texts(lines@) == spec_link_accessors(
                param.links@.take(i as int),
                field_name@,
                *param,
                config,
            ),
        decreases param.links.len() - i,
    {
        proof {
            let next = param.links@.take(i + 1);
            assert(next.drop_last() =~= param.links@.take(i as int));
            assert(next.last() == param.links@[i as int]);
        }
        let ghost before = texts(lines@);
        match &param.links[i].resource_type {
            Some(r) => {
                let more = generate_resource_type_ref_accessors(
                    field_name.as_str(),
                    r,
                    param,
                    config,
                );
                extend_lines(&mut lines, more);
            },
            None => {
                assert(before + Seq::<Seq<char>>::empty() =~= before);
            },
        }
        i = i + 1;
    }
    assert(param.links@.take(param.links@.len() as int) =~= param.links@);
    lines
}

/// The name of the field for a parameter of a representation.
pub open spec fn spec_field_name(param: Param) -> Seq<char> {
    spec_escape_rust_reserved(spec_snake_case(param.name@))
}

fn field_name(param: &Param) -> (r: String)
    ensures
        r@ == spec_field_name(*param),
{
    let snake = snake_case_name(param.name.as_str());
    String::from_str(escape_rust_reserved(snake.as_str()))
}

/// The field for a parameter of a representation: a note of the declared type, the
/// documentation, the field itself and an empty line. A link is kept as a URL.
#[verifier::opaque]
pub open spec fn spec_field_param<C: Customization>(
    param: Param,
    container: ParamContainer,
    config: &C,
    names: Seq<NamePair>,
) -> Result<Seq<Seq<char>>, Fault> {
    match spec_param_rust_type(container, param, config, true, names) {
        Err(e) => Err(e),
        Ok(t) => Ok(
            (Seq::<Seq<char>>::empty().push("    // was: "@ + param.declared_type@ + "\n"@)
                + spec_param_doc(param, config)).push(
                "    "@ + "pub "@ + spec_field_name(param) + ": "@ + t + ",\n"@,
            ).push("\n"@),
        ),
    }
}

pub(crate) fn field_param<C: Customization>(
    param: &Param,
    container: &ParamContainer,
    config: &C,
    names: &OptionNames,
) -> (r: Result<Vec<String>, CompileError>)
    ensures
        lines_result(r) == spec_field_param(*param, *container, config, names@),
{
    reveal(spec_field_param);
    let name = field_name(param);
    let param_type = match param_rust_type(container, param, config, true, names) {
        Ok(p) => p.0,
        Err(e) => {
            return Err(e);
        },
    };
    let mut lines: Vec<String> = no_lines();
    push_line(&mut lines, cat3("    // was: ", param.declared_type.as_str(), "\n"));
    let doc = param_doc(param, config);
    extend_lines(&mut lines, doc);
    push_line(
        &mut lines,
        cat6("    ", "pub ", name.as_str(), ": ", param_type.as_str(), ",\n"),
    );
    push_str_line(&mut lines, "\n");
    Ok(lines)
}

/// The line that gives the field for a parameter its default.
pub open spec fn spec_default_field_param(param: Param) -> Seq<Seq<char>> {
    Seq::<Seq<char>>::empty().push(
        "            "@ + spec_field_name(param) + ": Default::default(),\n"@,
    )
}

pub(crate) fn default_field_param(param: &Param) -> (r: Vec<String>)
    ensures
        texts(r@) == spec_default_field_param(*param),
{
    let name = field_name(param);
    let mut lines: Vec<String> = no_lines();
    push_line(&mut lines, cat3("            ", name.as_str(), ": Default::default(),\n"));
    lines
}


/// Whether every parameter of a list may be absent.
pub open spec fn spec_all_nillable<C: Customization>(params: Seq<Param>, config: &C) -> bool {
    forall|i: int| 0 <= i < params.len() ==> config.spec_nillable(#[trigger] params[i])
}

fn all_nillable<C: Customization>(params: &Vec<Param>, config: &C) -> (r: bool)
    ensures
        r == spec_all_nillable(params@, config),
{
    let mut i: usize = 0;
    while i < params.len()
        invariant
            i <= params.len(),
            forall|j: int| 0 <= j < i ==> config.spec_nillable(#[trigger] params@[j]),
        decreases params.len() - i,
    {
        if !config.nillable(&params[i]) {
            return false;
        }
        i = i + 1;
    }
    true
}

/// The failure for a representation without an id.
pub open spec fn missing_id_fault(def: RepresentationDef) -> Fault {
    Fault {
        kind: CompileErrorKind::MissingId,
        item: ""@,
        param: ""@,
        detail: match def.media_type {
            Some(m) => m@,
            None => ""@,
        },
    }
}

fn missing_id_error(def: &RepresentationDef) -> (r: CompileError)
    ensures
        r@ == missing_id_fault(*def),
{
    let detail = match &def.media_type {
        Some(m) => String::from_str(m.as_str()),
        None => String::from_str(""),
    };
    CompileError::new(CompileErrorKind::MissingId, "", "", detail.as_str())
}

/// The documentation of a record: that of the representation, or a sentence that names
/// the representation where it has none.
pub open spec fn spec_record_doc<C: Customization>(def: RepresentationDef, id: Seq<char>, config: &C) -> Seq<
    Seq<char>,
> {
    let docs = spec_generate_docs(def.docs@, 0, config);
    if def.docs@.len() == 0 {
        docs.push("/// Representation of the `"@ + id + "` resource\n"@)
    } else {
        docs
    }
}

/// The lines that give a record its default, where every field may be absent.
#[verifier::opaque]
pub open spec fn spec_record_default<C: Customization>(
    def: RepresentationDef,
    name: Seq<char>,
    config: &C,
    names: Seq<NamePair>,
) -> Result<Seq<Seq<char>>, Fault> {
    if spec_all_nillable(def.params@, config) {
        match after(
            Seq::<Seq<char>>::empty().push("impl Default for "@ + name + " {\n"@).push(
                "    fn default() -> Self {\n"@,
            ).push("        Self {\n"@),
            spec_emit_params(
                ParamEmit::DefaultField,
                def.params@,
                ParamContainer::Representation(&def),
                config,
                names,
            ),
        ) {
            Err(e) => Err(e),
            Ok(lines) => Ok(lines.push("        }\n"@).push("    }\n"@).push("}\n"@).push("\n"@)),
        }
    } else {
        Ok(Seq::<Seq<char>>::empty())
    }
}

/// The record for a representation in JSON: its documentation, the attribute that derives
/// its traits, the record with one field for each parameter, its default where every field
/// may be absent, and an empty line. A representation without an id is a failure.
#[verifier::opaque]
pub open spec fn spec_generate_representation_struct_json<C: Customization>(
    def: RepresentationDef,
    config: &C,
    names: Seq<NamePair>,
) -> Result<Seq<Seq<char>>, Fault> {
    match def.id {
        None => Err(missing_id_fault(def)),
        Some(id) => {
            let name = spec_camel_case(id@);
            match after(
                spec_record_doc(def, id@, config).push(
                    "#[derive(Debug, Clone, PartialEq, serde::Serialize, serde::Deserialize)]\n"@,
                ).push(
                    spec_visible(config.spec_representation_visibility(name)) + "struct "@ + name
                        + " {\n"@,
                ),
                spec_emit_params(
                    ParamEmit::Field,
                    def.params@,
                    ParamContainer::Representation(&def),
                    config,
                    names,
                ),
            ) {
                Err(e) => Err(e),
                Ok(fields) => match after(
                    fields.push("}\n"@),
                    spec_record_default(def, name, config, names),
                ) {
                    Err(e) => Err(e),
                    Ok(lines) => Ok(lines.push("\n"@)),
                },
            }
        },
    }
}

fn record_default<C: Customization>(
    def: &RepresentationDef,
    name: &str,
    config: &C,
    names: &OptionNames,
) -> (r: Result<Vec<String>, CompileError>)
    ensures
        lines_result(r) == spec_record_default(*def, name@, config, names@),
{
    reveal(spec_record_default);
    let mut lines: Vec<String> = no_lines();
    if all_nillable(&def.params, config) {
        push_line(&mut lines, cat3("impl Default for ", name, " {\n"));
        push_str_line(&mut lines, "    fn default() -> Self {\n");
        push_str_line(&mut lines, "        Self {\n");
        let container = ParamContainer::Representation(def);
        let params = def.iter_all_params();
        match emit_params(&mut lines, ParamEmit::DefaultField, &params, &container, config, names) {
            Ok(_) => {},
            Err(e) => {
                return Err(e);
            },
        }
        push_str_line(&mut lines, "        }\n");
        push_str_line(&mut lines, "    }\n");
        push_str_line(&mut lines, "}\n");
        push_str_line(&mut lines, "\n");
    }
    Ok(lines)
}

/// Emits the record for a representation in JSON.
pub fn generate_representation_struct_json<C: Customization>(
    input: &RepresentationDef,
    config: &C,
    names: &OptionNames,
) -> (r: Result<Vec<String>, CompileError>)
    ensures
        lines_result(r) == spec_generate_representation_struct_json(*input, config, names@),
{
    reveal(spec_generate_representation_struct_json);
    let id = match &input.id {
        Some(id) => id,
        None => {
            return Err(missing_id_error(input));
        },
    };
    let name = camel_case_name(id.as_str());
    let container = ParamContainer::Representation(input);
    let mut lines: Vec<String> = no_lines();
    push_docs(&mut lines, &input.docs, 0, config);
    assert(texts(lines@) =~= spec_generate_docs(input.docs@, 0, config));
    if input.docs.len() == 0 {
        push_line(&mut lines, cat3("/// Representation of the `", id.as_str(), "` resource\n"));
    }
    push_str_line(
        &mut lines,
        "#[derive(Debug, Clone, PartialEq, serde::Serialize, serde::Deserialize)]\n",
    );
    let visibility = visible(config.representation_visibility(name.as_str()));
    push_line(&mut lines, cat4(visibility.as_str(), "struct ", name.as_str(), " {\n"));
    let params = input.iter_all_params();
    match emit_params(&mut lines, ParamEmit::Field, &params, &container, config, names) {
        Ok(_) => {},
        Err(e) => {
            return Err(e);
        },
    }
    push_str_line(&mut lines, "}\n");
    match record_default(input, name.as_str(), config, names) {
        Ok(more) => {
            extend_lines(&mut lines, more);
        },
        Err(e) => {
            return Err(e);
        },
    }
    push_str_line(&mut lines, "\n");
    Ok(lines)
}

/// The failure for a representation in a media type for which no record can be emitted.
pub open spec fn not_json_fault(def: RepresentationDef) -> Fault {
    Fault {
        kind: CompileErrorKind::UnsupportedMediaType,
        item: match def.id {
            Some(id) => id@,
            None => ""@,
        },
        param: ""@,
        detail: match def.media_type {
            Some(m) => m@,
            None => ""@,
        },
    }
}

/// All that is emitted for a representation: its record, the accessors for the fields
/// that link to resources, and what the customization adds. Only a representation in
/// JSON can be emitted.
#[verifier::opaque]
pub open spec fn spec_generate_representation<C: Customization>(
    def: RepresentationDef,
    config: &C,
    names: Seq<NamePair>,
) -> Result<Seq<Seq<char>>, Fault> {
    if media_text(def.media_type) != Some("application/json"@) {
        Err(not_json_fault(def))
    } else {
        match spec_generate_representation_struct_json(def, config, names) {
            Err(e) => Err(e),
            Ok(record) => {
                let name = spec_camel_case(def.id->0@);
                match after(
                    record.push("impl "@ + name + " {\n"@),
                    spec_emit_params(
                        ParamEmit::Accessors,
                        def.params@,
                        ParamContainer::Representation(&def),
                        config,
                        names,
                    ),
                ) {
                    Err(e) => Err(e),
                    Ok(lines) => Ok(
                        lines.push("}\n"@).push("\n"@) + (match config.spec_representation_traits(
                            def,
                            name,
                        ) {
                            Some(more) => more,
                            None => Seq::<Seq<char>>::empty(),
                        }),
                    ),
                }
            },
        }
    }
}

/// Emits all that belongs to a representation.
pub fn generate_representation<C: Customization>(
    input: &RepresentationDef,
    config: &C,
    names: &OptionNames,
) -> (r: Result<Vec<String>, CompileError>)
    ensures
        lines_result(r) == spec_generate_representation(*input, config, names@),
{
    reveal(spec_generate_representation_struct_json);
    reveal(spec_generate_representation);
    let is_json = match &input.media_type {
        Some(m) => str_eq(m.as_str(), "application/json"),
        None => false,
    };
    if !is_json {
        let item = match &input.id {
            Some(id) => id.clone(),
            None => String::from_str(""),
        };
        let detail = match &input.media_type {
            Some(m) => String::from_str(m.as_str()),
            None => String::from_str(""),
        };
        return Err(
            CompileError::new(
                CompileErrorKind::UnsupportedMediaType,
                item.as_str(),
                "",
                detail.as_str(),
            ),
        );
    }
    let mut lines = match generate_representation_struct_json(input, config, names) {
        Ok(l) => l,
        Err(e) => {
            return Err(e);
        },
    };
    let id = match &input.id {
        Some(id) => id,
        None => {
            return Err(missing_id_error(input));
        },
    };
    let name = camel_case_name(id.as_str());
    push_line(&mut lines, cat3("impl ", name.as_str(), " {\n"));
    let container = ParamContainer::Representation(input);
    let params = input.iter_all_params();
    match emit_params(&mut lines, ParamEmit::Accessors, &params, &container, config, names) {
        Ok(_) => {},
        Err(e) => {
            return Err(e);
        },
    }
    push_str_line(&mut lines, "}\n");
    push_str_line(&mut lines, "\n");
    match config.representation_traits(input, name.as_str()) {
        Some(more) => {
            extend_lines(&mut lines, more);
        },
        None => {
            assert(texts(lines@) + Seq::<Seq<char>>::empty() =~= texts(lines@));
        },
    }
    Ok(lines)
}

} // verus!
