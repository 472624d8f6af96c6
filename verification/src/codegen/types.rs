//! The types of the emitted code.
use vstd::prelude::*;
use vstd::string::*;
use crate::ast::{spec_ref_id, spec_representation_ref_id, Param, RepresentationRef, ResourceTypeRef};
use crate::chars::{spec_trim, spec_trim_end, spec_trim_start, trim};
use crate::codegen::config::{
    text_result, CompileError, CompileErrorKind, Config, Customization, Fault, ParamContainer,
};
use crate::codegen::names::{camel_case_name, spec_camel_case};
use crate::codegen::option_names::{spec_first_name, NamePair, OptionNames};
use crate::text::{
    cat2, cat3, chars_of, find_char, has_prefix, opt_text, slice_of, spec_find, str_eq,
    string_of,
};

verus! {

/// The type of a resource that a reference names: the type name of its id, or a plain
/// URL where it names none.
pub open spec fn spec_resource_type_rust_type(r: ResourceTypeRef) -> Seq<char> {
    match spec_ref_id(r) {
        Some(id) => spec_camel_case(id),
        None => "url::Url"@,
    }
}

/// The type of a resource that a reference names.
pub fn resource_type_rust_type(r: &ResourceTypeRef) -> (t: String)
    ensures
        t@ == spec_resource_type_rust_type(*r),
{
    match r.id() {
        Some(id) => camel_case_name(id.as_str()),
        None => String::from_str("url::Url"),
    }
}

/// The type of a representation that a reference names: the type name of its id, or
/// any JSON value where it names none.
pub open spec fn spec_representation_rust_type(r: RepresentationRef) -> Seq<char> {
    match spec_representation_ref_id(r) {
        Some(id) => spec_camel_case(id),
        None => "serde_json::Value"@,
    }
}

/// The type of a representation that a reference names.
pub fn representation_rust_type(r: &RepresentationRef) -> (t: String)
    ensures
        t@ == spec_representation_rust_type(*r),
{
    match r.id() {
        Some(id) => camel_case_name(id.as_str()),
        None => String::from_str("serde_json::Value"),
    }
}

/// A qualified name without its prefix: what follows the first colon.
pub open spec fn spec_local_name(t: Seq<char>) -> Seq<char> {
    let i = spec_find(t, ':');
    if i < t.len() {
        t.skip(i + 1)
    } else {
        t
    }
}

/// The type for a scalar type of the document, by its local name.
pub open spec fn spec_scalar_type(local: Seq<char>) -> Option<Seq<char>> {
    if local == "date"@ {
        Some("chrono::NaiveDate"@)
    } else if local == "dateTime"@ {
        Some("chrono::DateTime<chrono::Utc>"@)
    } else if local == "time"@ {
        Some("chrono::NaiveTime"@)
    } else if local == "int"@ {
        Some("i32"@)
    } else if local == "string"@ {
        Some("String"@)
    } else if local == "binary"@ {
        Some("Vec<u8>"@)
    } else if local == "boolean"@ {
        Some("bool"@)
    } else {
        None
    }
}

/// The type for a declared type: any JSON value where none is declared, else the type
/// for the scalar that the local name is, and nothing where it is none.
pub open spec fn spec_declared_type(declared: Seq<char>) -> Option<Seq<char>> {
    if declared.len() == 0 {
        Some("serde_json::Value"@)
    } else {
        spec_scalar_type(spec_local_name(declared))
    }
}

/// The type for a declared type.
pub fn declared_rust_type(declared: &str) -> (r: Option<String>)
    ensures
        opt_text(r) == spec_declared_type(declared@),
{
    let chars = chars_of(declared);
    if chars.len() == 0 {
        return Some(String::from_str("serde_json::Value"));
    }
    let i = find_char(&chars, ':');
    let local = if i < chars.len() {
        let rest = slice_of(&chars, i + 1, chars.len());
        assert(rest@ =~= declared@.skip(i + 1));
        string_of(&rest)
    } else {
        String::from_str(declared)
    };
    let name = local.as_str();
    if str_eq(name, "date") {
        Some(String::from_str("chrono::NaiveDate"))
    } else if str_eq(name, "dateTime") {
        Some(String::from_str("chrono::DateTime<chrono::Utc>"))
    } else if str_eq(name, "time") {
        Some(String::from_str("chrono::NaiveTime"))
    } else if str_eq(name, "int") {
        Some(String::from_str("i32"))
    } else if str_eq(name, "string") {
        Some(String::from_str("String"))
    } else if str_eq(name, "binary") {
        Some(String::from_str("Vec<u8>"))
    } else if str_eq(name, "boolean") {
        Some(String::from_str("bool"))
    } else {
        None
    }
}

/// The id of the method or representation in which a parameter stands.
pub open spec fn spec_container_id(container: ParamContainer) -> Seq<char> {
    match container {
        ParamContainer::Request(m, _) => m.id@,
        ParamContainer::Response(m, _) => m.id@,
        ParamContainer::Representation(d) => match d.id {
            Some(id) => id@,
            None => Seq::empty(),
        },
    }
}

/// The id of the method or representation in which a parameter stands.
pub fn container_id(container: &ParamContainer) -> (r: String)
    ensures
        r@ == spec_container_id(*container),
{
    match container {
        ParamContainer::Request(m, _) => m.id.clone(),
        ParamContainer::Response(m, _) => m.id.clone(),
        ParamContainer::Representation(d) => match &d.id {
            Some(id) => id.clone(),
            None => String::new(),
        },
    }
}

/// The failure for a parameter whose declared type is no known scalar.
pub open spec fn unknown_type_fault(container: ParamContainer, param: Param, declared: Seq<char>) -> Fault {
    Fault {
        kind: CompileErrorKind::UnknownType,
        item: spec_container_id(container),
        param: param.name@,
        detail: declared,
    }
}

/// The type for a scalar type name: what the customization puts in its place, else the
/// type for the declared type.
pub open spec fn spec_simple_type_rust_type<C: Customization>(
    container: ParamContainer,
    declared: Seq<char>,
    param: Param,
    config: &C,
) -> Result<Seq<char>, Fault> {
    match config.spec_override_type_name(container, declared, param.name@) {
        Some(t) => Ok(t),
        None => match spec_declared_type(declared) {
            Some(t) => Ok(t),
            None => Err(unknown_type_fault(container, param, declared)),
        },
    }
}

/// The type for a scalar type name.
pub fn simple_type_rust_type<C: Customization>(
    container: &ParamContainer,
    declared: &str,
    param: &Param,
    config: &C,
) -> (r: Result<String, CompileError>)
    ensures
        text_result(r) == spec_simple_type_rust_type(*container, declared@, *param, config),
{
    match config.override_type_name(container, declared, param.name.as_str()) {
        Some(t) => Ok(t),
        None => match declared_rust_type(declared) {
            Some(t) => Ok(t),
            None => {
                let item = container_id(container);
                Err(
                    CompileError::new(
                        CompileErrorKind::UnknownType,
                        item.as_str(),
                        param.name.as_str(),
                        declared,
                    ),
                )
            },
        },
    }
}

/// The failure for a parameter whose options have no name.
pub open spec fn unknown_options_fault(container: ParamContainer, param: Param) -> Fault {
    Fault {
        kind: CompileErrorKind::UnknownOptions,
        item: spec_container_id(container),
        param: param.name@,
        detail: ""@,
    }
}

/// The type of a parameter before it is wrapped. What the customization puts in the place
/// of the declared type wins. Else a parameter with links has the type of the resource
/// that its first link names, or a plain URL where the link names none or links are kept
/// as URLs; a parameter with options has the enum of its options; any other has the type
/// for its declared type.
pub open spec fn spec_param_base_type<C: Customization>(
    container: ParamContainer,
    param: Param,
    config: &C,
    links_as_urls: bool,
    names: Seq<NamePair>,
) -> Result<Seq<char>, Fault> {
    match config.spec_override_type_name(container, param.declared_type@, param.name@) {
        Some(t) => Ok(t),
        None => if param.links@.len() > 0 {
            match param.links@[0].resource_type {
                Some(rt) => if links_as_urls {
                    Ok("url::Url"@)
                } else {
                    Ok(spec_resource_type_rust_type(rt))
                },
                None => Ok("url::Url"@),
            }
        } else {
            match param.options {
                Some(os) => match spec_first_name(names, os@) {
                    Some(n) => Ok(n),
                    None => Err(unknown_options_fault(container, param)),
                },
                None => match spec_declared_type(param.declared_type@) {
                    Some(t) => Ok(t),
                    None => Err(unknown_type_fault(container, param, param.declared_type@)),
                },
            }
        },
    }
}

/// A type wrapped for a parameter: in a sequence where the parameter repeats, and then
/// in an option where it may be absent.
pub open spec fn spec_wrap_type(base: Seq<char>, repeating: bool, nillable: bool) -> Seq<char> {
    let inner = if repeating {
        "Vec<"@ + base + ">"@
    } else {
        base
    };
    if nillable {
        "Option<"@ + inner + ">"@
    } else {
        inner
    }
}

/// The type of a parameter.
pub open spec fn spec_param_rust_type<C: Customization>(
    container: ParamContainer,
    param: Param,
    config: &C,
    links_as_urls: bool,
    names: Seq<NamePair>,
) -> Result<Seq<char>, Fault> {
    match spec_param_base_type(container, param, config, links_as_urls, names) {
        Ok(base) => Ok(spec_wrap_type(base, param.repeating, config.spec_nillable(param))),
        Err(e) => Err(e),
    }
}

/// A parameter that repeats and may be absent has an optional sequence of its base type;
/// one that does neither has its base type as it is; one that only repeats has a sequence,
/// and one that only may be absent an option.
pub proof fn lemma_param_type_wrapping<C: Customization>(
    container: ParamContainer,
    param: Param,
    config: &C,
    links_as_urls: bool,
    names: Seq<NamePair>,
)
    requires
        spec_param_base_type(container, param, config, links_as_urls, names) is Ok,
    ensures
        ({
            let base = spec_param_base_type(container, param, config, links_as_urls, names)->Ok_0;
            let t = spec_param_rust_type(container, param, config, links_as_urls, names);
            let nillable = config.spec_nillable(param);
            &&& param.repeating && nillable ==> t == Ok::<Seq<char>, Fault>(
                "Option<"@ + ("Vec<"@ + base + ">"@) + ">"@,
            )
            &&& !param.repeating && !nillable ==> t == Ok::<Seq<char>, Fault>(base)
            &&& param.repeating && !nillable ==> t == Ok::<Seq<char>, Fault>("Vec<"@ + base + ">"@)
            &&& !param.repeating && nillable ==> t == Ok::<Seq<char>, Fault>(
                "Option<"@ + base + ">"@,
            )
        }),
{
}

/// With the customization that decides nothing, a parameter may be absent exactly where
/// it is not required: one that repeats and is not required has an optional sequence,
/// and one that is required and does not repeat has its base type.
pub proof fn lemma_default_param_type_wrapping(
    container: ParamContainer,
    param: Param,
    config: &Config,
    links_as_urls: bool,
    names: Seq<NamePair>,
)
    requires
        spec_param_base_type(container, param, config, links_as_urls, names) is Ok,
    ensures
        ({
            let base = spec_param_base_type(container, param, config, links_as_urls, names)->Ok_0;
            let t = spec_param_rust_type(container, param, config, links_as_urls, names);
            &&& param.repeating && !param.required ==> t == Ok::<Seq<char>, Fault>(
                "Option<"@ + ("Vec<"@ + base + ">"@) + ">"@,
            )
            &&& !param.repeating && param.required ==> t == Ok::<Seq<char>, Fault>(base)
        }),
{
}

/// The type of a parameter, and the annotations for its field, of which there are none.
pub fn param_rust_type<C: Customization>(
    container: &ParamContainer,
    param: &Param,
    config: &C,
    links_as_urls: bool,
    names: &OptionNames,
) -> (r: Result<(String, Vec<String>), CompileError>)
    ensures
        (match r {
            Ok(p) => Ok(p.0@),
            Err(e) => Err(e@),
        }) == spec_param_rust_type(*container, *param, config, links_as_urls, names@),
        r is Ok ==> r->Ok_0.1@.len() == 0,
{
    let base = match config.override_type_name(
        container,
        param.declared_type.as_str(),
        param.name.as_str(),
    ) {
        Some(t) => t,
        None => if param.links.len() > 0 {
            match &param.links[0].resource_type {
                Some(rt) => if links_as_urls {
                    String::from_str("url::Url")
                } else {
                    resource_type_rust_type(rt)
                },
                None => String::from_str("url::Url"),
            }
        } else {
            match &param.options {
                Some(os) => match names.get(os) {
                    Some(n) => n.clone(),
                    None => {
                        let item = container_id(container);
                        return Err(
                            CompileError::new(
                                CompileErrorKind::UnknownOptions,
                                item.as_str(),
                                param.name.as_str(),
                                "",
                            ),
                        );
                    },
                },
                None => match declared_rust_type(param.declared_type.as_str()) {
                    Some(t) => t,
                    None => {
                        let item = container_id(container);
                        return Err(
                            CompileError::new(
                                CompileErrorKind::UnknownType,
                                item.as_str(),
                                param.name.as_str(),
                                param.declared_type.as_str(),
                            ),
                        );
                    },
                },
            }
        },
    };
    let inner = if param.repeating {
        cat3("Vec<", base.as_str(), ">")
    } else {
        base
    };
    let wrapped = if config.nillable(param) {
        cat3("Option<", inner.as_str(), ">")
    } else {
        inner
    };
    Ok((wrapped, Vec::new()))
}

/// Taking whitespace off the start makes a text no longer.
pub proof fn lemma_trim_start_shrinks(s: Seq<char>)
    ensures
        spec_trim_start(s).len() <= s.len(),
    decreases s.len(),
{
    if s.len() > 0 && crate::chars::char_is_whitespace(s[0]) {
        lemma_trim_start_shrinks(s.skip(1));
    }
}

/// Taking whitespace off the end makes a text no longer.
pub proof fn lemma_trim_end_shrinks(s: Seq<char>)
    ensures
        spec_trim_end(s).len() <= s.len(),
    decreases s.len(),
{
    if s.len() > 0 && crate::chars::char_is_whitespace(s.last()) {
        lemma_trim_end_shrinks(s.drop_last());
    }
}

/// Whether a type is spelled as `head`, something, and `>`.
pub open spec fn is_wrapped_in(name: Seq<char>, head: Seq<char>) -> bool {
    head.is_prefix_of(name) && name.len() > head.len() && name.last() == '>'
}

/// What a wrapped type wraps, without the whitespace around it.
pub open spec fn spec_wrapped(name: Seq<char>, head: Seq<char>) -> Seq<char> {
    spec_trim(name.subrange(head.len() as int, name.len() - 1))
}

/// The spelling of a type for a value that is only read: an option of the read-only
/// spelling of what it wraps, a string slice for a string, a slice for a sequence, the
/// type itself where it is marked with a leading `*`, and a reference to any other type.
pub open spec fn spec_readonly_rust_type(name: Seq<char>) -> Seq<char>
    decreases name.len(),
{
    if is_wrapped_in(name, "Option<"@) {
        if spec_wrapped(name, "Option<"@).len() < name.len() {
            "Option<"@ + spec_readonly_rust_type(spec_wrapped(name, "Option<"@)) + ">"@
        } else {
            name
        }
    } else if name == "String"@ {
        "&str"@
    } else if is_wrapped_in(name, "Vec<"@) {
        "&["@ + spec_wrapped(name, "Vec<"@) + "]"@
    } else if name.len() > 0 && name[0] == '*' {
        name.skip(1)
    } else {
        "&"@ + name
    }
}

fn wrapped_in(name: &Vec<char>, head: &Vec<char>) -> (r: bool)
    ensures
        r == is_wrapped_in(name@, head@),
{
    has_prefix(name, head) && name.len() > head.len() && name[name.len() - 1] == '>'
}

fn readonly_of(name: &Vec<char>) -> (r: String)
    ensures
        r@ == spec_readonly_rust_type(name@),
    decreases name@.len(),
{
    let option_head = chars_of("Option<");
    let vec_head = chars_of("Vec<");
    let string_name = chars_of("String");
    if wrapped_in(name, &option_head) {
        let cut = slice_of(name, option_head.len(), name.len() - 1);
        let inner = trim(&cut);
        proof {
            lemma_trim_start_shrinks(cut@);
            lemma_trim_end_shrinks(spec_trim_start(cut@));
        }
        let inner_type = readonly_of(&inner);
        cat3("Option<", inner_type.as_str(), ">")
    } else if has_prefix(name, &string_name) && name.len() == string_name.len() {
        assert(name@ =~= string_name@);
        String::from_str("&str")
    } else if wrapped_in(name, &vec_head) {
        let cut = slice_of(name, vec_head.len(), name.len() - 1);
        let inner = trim(&cut);
        let inner_text = string_of(&inner);
        cat3("&[", inner_text.as_str(), "]")
    } else if name.len() > 0 && name[0] == '*' {
        let rest = slice_of(name, 1, name.len());
        assert(rest@ =~= name@.skip(1));
        string_of(&rest)
    } else {
        let text = string_of(name);
        cat2("&", text.as_str())
    }
}

/// The spelling of a type for a value that is only read.
pub fn readonly_rust_type(name: &str) -> (r: String)
    ensures
        r@ == spec_readonly_rust_type(name@),
{
    let chars = chars_of(name);
    readonly_of(&chars)
}

} // verus!
