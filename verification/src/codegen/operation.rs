//! The function that is emitted for a method of a resource type.
use vstd::prelude::*;
use vstd::string::*;
use crate::ast::{
    spec_request_params, Method, Param, ParamStyle, Representation, Response,
};
use crate::codegen::config::{
    lines_result, spec_client_trait_name, client_trait_name_of, CompileError, CompileErrorKind,
    Customization, Fault, ParamContainer,
};
use crate::codegen::docs::{push_docs, spec_generate_docs};
use crate::codegen::method::{
    accepted_types, after, after_text, arguments, emit_params, method_fault, method_name,
    param_error, param_fault, representation_arguments, request_bodies, response_arm,
    rust_type_for_response, spec_accepted_types, spec_arguments, spec_emit_params,
    spec_method_name, spec_representation_arguments, spec_request_bodies, spec_response_arm,
    spec_rust_type_for_response, ParamEmit,
};
use crate::codegen::option_names::{NamePair, OptionNames};
use crate::text::{
    cat2, cat3, cat7, extend_lines, join, no_lines, push_line, push_str_line, spec_join,
    str_eq, texts,
};
use crate::WADL_MIME_TYPE;

verus! {

/// A visibility as it stands before an item: followed by a space, `pub` where none is
/// given, and nothing at all where the one given is empty.
pub open spec fn spec_visible(v: Option<Seq<char>>) -> Seq<char> {
    let visibility = match v {
        Some(v) => v,
        None => "pub"@,
    };
    if visibility.len() == 0 {
        ""@
    } else {
        visibility + " "@
    }
}

/// A visibility as it stands before an item.
pub fn visible(v: Option<String>) -> (r: String)
    ensures
        r@ == spec_visible(crate::text::opt_text(v)),
{
    let visibility = match v {
        Some(v) => v,
        None => String::from_str("pub"),
    };
    if visibility.as_str().is_empty() {
        String::from_str("")
    } else {
        cat2(visibility.as_str(), " ")
    }
}

/// The word before `fn` in an asynchronous function.
pub open spec fn spec_async_prefix(asynchronous: bool) -> Seq<char> {
    if asynchronous {
        "async "@
    } else {
        ""@
    }
}

fn async_prefix(asynchronous: bool) -> (r: &'static str)
    ensures
        r@ == spec_async_prefix(asynchronous),
{
    if asynchronous {
        "async "
    } else {
        ""
    }
}

/// What a method returns and the function that maps to it, where there is one. Without a
/// response it is the unit type. With one it is the type for that response, or what the
/// customization maps it to. More than one response is a failure.
#[verifier::opaque]
pub open spec fn spec_method_return<C: Customization>(
    method: Method,
    name: Seq<char>,
    config: &C,
    names: Seq<NamePair>,
) -> Result<(Seq<char>, Option<Seq<char>>), Fault> {
    if method.responses@.len() == 0 {
        Ok(("()"@, None))
    } else if method.responses@.len() > 1 {
        Err(method_fault(CompileErrorKind::MultipleResponses, method, name))
    } else {
        match spec_rust_type_for_response(method, method.responses@[0], method.id@, names) {
            Err(e) => Err(e),
            Ok(t) => match config.spec_map_type_for_response(name, t) {
                Some((mapped, map_fn)) => Ok((mapped, Some(map_fn))),
                None => Ok((t, None)),
            },
        }
    }
}

fn method_return<C: Customization>(method: &Method, name: &str, config: &C, names: &OptionNames) -> (r:
    Result<(String, Option<String>), CompileError>)
    ensures
        match r {
            Ok(p) => Ok((p.0@, crate::text::opt_text(p.1))),
            Err(e) => Err(e@),
        } == spec_method_return(*method, name@, config, names@),
{
    reveal(spec_method_return);
    if method.responses.len() == 0 {
        Ok((String::from_str("()"), None))
    } else if method.responses.len() > 1 {
        Err(
            CompileError::new(
                CompileErrorKind::MultipleResponses,
                method.id.as_str(),
                "",
                name,
            ),
        )
    } else {
        match rust_type_for_response(method, &method.responses[0], method.id.as_str(), names) {
            Err(e) => Err(e),
            Ok(t) => match config.map_type_for_response(name, t.as_str()) {
                Some((mapped, map_fn)) => Ok((mapped, Some(map_fn))),
                None => Ok((t, None)),
            },
        }
    }
}

/// The first parameter of a request that is neither a header nor a query parameter.
pub open spec fn spec_first_unsupported(params: Seq<Param>) -> Option<Param>
    decreases params.len(),
{
    if params.len() == 0 {
        None
    } else if params[0].style != ParamStyle::Header && params[0].style != ParamStyle::Query {
        Some(params[0])
    } else {
        spec_first_unsupported(params.skip(1))
    }
}

fn first_unsupported(params: &Vec<Param>) -> (r: Option<&Param>)
    ensures
        match r {
            Some(p) => spec_first_unsupported(params@) == Some(*p),
            None => spec_first_unsupported(params@) is None,
        },
{
    let mut i: usize = 0;
    assert(params@.skip(0) =~= params@);
    while i < params.len()
        invariant
            i <= params.len(),
            spec_first_unsupported(params@) == spec_first_unsupported(params@.skip(i as int)),
        decreases params.len() - i,
    {
        if params[i].style != ParamStyle::Header && params[i].style != ParamStyle::Query {
            return Some(&params[i]);
        }
        assert(params@.skip(i as int).skip(1) =~= params@.skip(i + 1));
        i = i + 1;
    }
    None
}

/// The line that makes the request.
pub open spec fn spec_request_line(verb: Seq<char>, asynchronous: bool) -> Seq<char> {
    if asynchronous {
        "        let mut req = client.request(reqwest::Method::"@ + verb + ", url_).await;\n"@
    } else {
        "        let mut req = client.request(reqwest::Method::"@ + verb + ", url_);\n"@
    }
}

fn request_line(verb: &str, asynchronous: bool) -> (r: String)
    ensures
        r@ == spec_request_line(verb@, asynchronous),
{
    if asynchronous {
        cat3("        let mut req = client.request(reqwest::Method::", verb, ", url_).await;\n")
    } else {
        cat3("        let mut req = client.request(reqwest::Method::", verb, ", url_);\n")
    }
}

/// The line that sends the request.
pub open spec fn spec_send_line(asynchronous: bool) -> Seq<char> {
    if asynchronous {
        "        let resp = req.send().await?;\n"@
    } else {
        "        let resp = req.send()?;\n"@
    }
}

/// The arms of the match on the status: the arm for the one response, or an arm that
/// returns the unit value on any success where the method declares no response.
pub open spec fn spec_status_arms<C: Customization>(
    method: Method,
    map_fn: Option<Seq<char>>,
    config: &C,
) -> Result<Seq<Seq<char>>, Fault> {
    if method.responses@.len() == 0 {
        Ok(Seq::<Seq<char>>::empty().push("            s if s.is_success() => Ok(()),\n"@))
    } else {
        spec_response_arm(method, method.responses@[0], map_fn, config)
    }
}

/// The start of the signature: visibility, name and the argument for the client.
pub open spec fn spec_signature_head<C: Customization>(
    name: Seq<char>,
    ret_type: Seq<char>,
    config: &C,
) -> Seq<char> {
    "    "@ + spec_visible(config.spec_method_visibility(name, ret_type)) + spec_async_prefix(
        config.spec_asynchronous(),
    ) + "fn "@ + name + "<'a>(&self, client: &'a dyn "@ + spec_client_trait_name(
        config.spec_asynchronous(),
    )
}

/// The documentation and the signature of the function for a method: the documentation
/// of the method, a heading and the documentation of each argument where the request has
/// parameters, and the signature with one argument for each referenced representation and
/// each parameter that has no fixed value.
#[verifier::opaque]
pub open spec fn spec_method_head<C: Customization>(
    method: Method,
    name: Seq<char>,
    ret_type: Seq<char>,
    config: &C,
    names: Seq<NamePair>,
) -> Result<Seq<Seq<char>>, Fault> {
    let params = spec_request_params(method.request);
    let container = ParamContainer::Request(&method, &method.request);
    let l1 = spec_generate_docs(method.docs@, 1, config);
    let l2 = if params.len() > 0 {
        l1.push("    /// # Arguments\n"@)
    } else {
        l1
    };
    match after_text(
        spec_signature_head(name, ret_type, config),
        spec_representation_arguments(method.request.representations@, method),
    ) {
        Err(e) => Err(e),
        Ok(sig1) => match after(
            l2,
            spec_emit_params(ParamEmit::ArgDoc, params, container, config, names),
        ) {
            Err(e) => Err(e),
            Ok(l3) => match after_text(sig1, spec_arguments(params, container, config, names)) {
                Err(e) => Err(e),
                Ok(sig2) => Ok(
                    l3.push(
                        sig2 + ") -> std::result::Result<"@ + ret_type + ", wadl::Error> {\n"@,
                    ),
                ),
            },
        },
    }
}

fn method_head<C: Customization>(
    input: &Method,
    name: &str,
    ret_type: &str,
    config: &C,
    names: &OptionNames,
) -> (r: Result<Vec<String>, CompileError>)
    ensures
        lines_result(r) == spec_method_head(*input, name@, ret_type@, config, names@),
{
    reveal(spec_method_head);
    let asynchronous = config.asynchronous();
    let params = input.request.iter_all_params();
    let container = ParamContainer::Request(input, &input.request);
    let mut lines: Vec<String> = no_lines();
    push_docs(&mut lines, &input.docs, 1, config);
    assert(texts(lines@) =~= spec_generate_docs(input.docs@, 1, config));
    if params.len() > 0 {
        push_str_line(&mut lines, "    /// # Arguments\n");
    }
    let visibility = visible(config.method_visibility(name, ret_type));
    let mut line = cat7(
        "    ",
        visibility.as_str(),
        async_prefix(asynchronous),
        "fn ",
        name,
        "<'a>(&self, client: &'a dyn ",
        client_trait_name_of(asynchronous),
    );
    match representation_arguments(&mut line, input) {
        Ok(_) => {},
        Err(e) => {
            return Err(e);
        },
    }
    match emit_params(&mut lines, ParamEmit::ArgDoc, &params, &container, config, names) {
        Ok(_) => {},
        Err(e) => {
            return Err(e);
        },
    }
    match arguments(&mut line, &params, &container, config, names) {
        Ok(_) => {},
        Err(e) => {
            return Err(e);
        },
    }
    push_line(
        &mut lines,
        crate::text::cat4(
            line.as_str(),
            ") -> std::result::Result<",
            ret_type,
            ", wadl::Error> {\n",
        ),
    );
    Ok(lines)
}

/// The line that names the media types that the method accepts, where there are any.
pub open spec fn spec_accept_lines(responses: Seq<Response>) -> Seq<Seq<char>> {
    let accepted = spec_accepted_types(responses);
    if accepted.len() > 0 {
        Seq::<Seq<char>>::empty().push(
            "        req = req.header(reqwest::header::ACCEPT, \""@ + spec_join(accepted, ", "@)
                + "\");\n"@,
        )
    } else {
        Seq::<Seq<char>>::empty()
    }
}

/// The lines that make the request: the URL with its query, the request itself, its
/// body, the media types it accepts and its headers. A parameter of the request that is
/// neither a header nor a query parameter is a failure.
#[verifier::opaque]
pub open spec fn spec_method_request<C: Customization>(
    method: Method,
    config: &C,
    names: Seq<NamePair>,
) -> Result<Seq<Seq<char>>, Fault> {
    let params = spec_request_params(method.request);
    let container = ParamContainer::Request(&method, &method.request);
    match spec_first_unsupported(method.request.params@) {
        Some(bad) => Err(param_fault(CompileErrorKind::UnsupportedRequestParam, container, bad)),
        None => match after(
            Seq::<Seq<char>>::empty().push("        let mut url_ = self.url().clone();\n"@),
            spec_emit_params(ParamEmit::Query, method.request.params@, container, config, names),
        ) {
            Err(e) => Err(e),
            Ok(l1) => match after(
                l1.push("\n"@).push(spec_request_line(method.name@, config.spec_asynchronous())),
                spec_request_bodies(method.request.representations@, config, names),
            ) {
                Err(e) => Err(e),
                Ok(l2) => after(
                    l2 + spec_accept_lines(method.responses@),
                    spec_emit_params(ParamEmit::Header, params, container, config, names),
                ),
            },
        },
    }
}

fn method_request<C: Customization>(input: &Method, config: &C, names: &OptionNames) -> (r: Result<
    Vec<String>,
    CompileError,
>)
    ensures
        lines_result(r) == spec_method_request(*input, config, names@),
{
    reveal(spec_method_request);
    let asynchronous = config.asynchronous();
    let params = input.request.iter_all_params();
    let container = ParamContainer::Request(input, &input.request);
    match first_unsupported(&input.request.params) {
        Some(bad) => {
            return Err(param_error(CompileErrorKind::UnsupportedRequestParam, &container, bad));
        },
        None => {},
    }
    let mut lines: Vec<String> = no_lines();
    push_str_line(&mut lines, "        let mut url_ = self.url().clone();\n");
    let query_params = crate::ast::refs_of(&input.request.params);
    match emit_params(&mut lines, ParamEmit::Query, &query_params, &container, config, names) {
        Ok(_) => {},
        Err(e) => {
            return Err(e);
        },
    }
    push_str_line(&mut lines, "\n");
    push_line(&mut lines, request_line(input.name.as_str(), asynchronous));
    match request_bodies(&mut lines, &input.request.representations, config, names) {
        Ok(_) => {},
        Err(e) => {
            return Err(e);
        },
    }
    let ghost l2 = texts(lines@);
    let accepted = accepted_types(&input.responses);
    if accepted.len() > 0 {
        let joined = join(&accepted, ", ");
        push_line(
            &mut lines,
            cat3(
                "        req = req.header(reqwest::header::ACCEPT, \"",
                joined.as_str(),
                "\");\n",
            ),
        );
    }
    assert(texts(lines@) =~= l2 + spec_accept_lines(input.responses@));
    match emit_params(&mut lines, ParamEmit::Header, &params, &container, config, names) {
        Ok(_) => {},
        Err(e) => {
            return Err(e);
        },
    }
    Ok(lines)
}

/// The lines that send the request and match on the status of the response, to the end
/// of the function.
#[verifier::opaque]
pub open spec fn spec_method_response<C: Customization>(
    method: Method,
    map_fn: Option<Seq<char>>,
    config: &C,
) -> Result<Seq<Seq<char>>, Fault> {
    match after(
        Seq::<Seq<char>>::empty().push("\n"@).push(spec_send_line(config.spec_asynchronous())).push(
            "        match resp.status() {\n"@,
        ),
        spec_status_arms(method, map_fn, config),
    ) {
        Err(e) => Err(e),
        Ok(lines) => Ok(
            lines.push("            s => Err(wadl::Error::UnhandledStatus(s))\n"@).push(
                "        }\n"@,
            ).push("    }\n"@).push("\n"@),
        ),
    }
}

fn method_response<C: Customization>(input: &Method, map_fn: Option<&str>, config: &C) -> (r: Result<
    Vec<String>,
    CompileError,
>)
    ensures
        lines_result(r) == spec_method_response(
            *input,
            match map_fn {
                Some(f) => Some(f@),
                None => None,
            },
            config,
        ),
{
    reveal(spec_method_response);
    let mut lines: Vec<String> = no_lines();
    push_str_line(&mut lines, "\n");
    if config.asynchronous() {
        push_str_line(&mut lines, "        let resp = req.send().await?;\n");
    } else {
        push_str_line(&mut lines, "        let resp = req.send()?;\n");
    }
    push_str_line(&mut lines, "        match resp.status() {\n");
    let ghost head = texts(lines@);
    if input.responses.len() == 0 {
        push_str_line(&mut lines, "            s if s.is_success() => Ok(()),\n");
        assert(texts(lines@) =~= head + Seq::<Seq<char>>::empty().push(
            "            s if s.is_success() => Ok(()),\n"@,
        ));
    } else {
        match response_arm(input, &input.responses[0], map_fn, config) {
            Ok(more) => {
                extend_lines(&mut lines, more);
            },
            Err(e) => {
                return Err(e);
            },
        }
    }
    push_str_line(&mut lines, "            s => Err(wadl::Error::UnhandledStatus(s))\n");
    push_str_line(&mut lines, "        }\n");
    push_str_line(&mut lines, "    }\n");
    push_str_line(&mut lines, "\n");
    Ok(lines)
}

/// The function for a method. In this order: the documentation and the signature; the
/// lines that make the request; the lines that send it and match on the status of the
/// response; and what the customization adds. The first part that cannot be emitted gives
/// the failure, and what the method returns is settled before all.
#[verifier::opaque]
pub open spec fn spec_generate_method_representation<C: Customization>(
    method: Method,
    parent_id: Seq<char>,
    config: &C,
    names: Seq<NamePair>,
) -> Result<Seq<Seq<char>>, Fault> {
    let name = spec_method_name(method.id@, parent_id);
    match spec_method_return(method, name, config, names) {
        Err(e) => Err(e),
        Ok((ret_type, map_fn)) => match spec_method_head(method, name, ret_type, config, names) {
            Err(e) => Err(e),
            Ok(head) => match after(head, spec_method_request(method, config, names)) {
                Err(e) => Err(e),
                Ok(request) => match after(request, spec_method_response(method, map_fn, config)) {
                    Err(e) => Err(e),
                    Ok(lines) => Ok(lines + config.spec_extend_method(parent_id, name, ret_type)),
                },
            },
        },
    }
}

/// Emits the function for a method.
pub fn generate_method_representation<C: Customization>(
    input: &Method,
    parent_id: &str,
    config: &C,
    names: &OptionNames,
) -> (r: Result<Vec<String>, CompileError>)
    ensures
        lines_result(r) == spec_generate_method_representation(*input, parent_id@, config, names@),
{
    reveal(spec_generate_method_representation);
    let name = method_name(input.id.as_str(), parent_id);
    let (ret_type, map_fn) = match method_return(input, name.as_str(), config, names) {
        Ok(p) => p,
        Err(e) => {
            return Err(e);
        },
    };
    let mut lines = match method_head(input, name.as_str(), ret_type.as_str(), config, names) {
        Ok(l) => l,
        Err(e) => {
            return Err(e);
        },
    };
    match method_request(input, config, names) {
        Ok(more) => {
            extend_lines(&mut lines, more);
        },
        Err(e) => {
            return Err(e);
        },
    }
    let map_ref: Option<&str> = match &map_fn {
        Some(f) => Some(f.as_str()),
        None => None,
    };
    match method_response(input, map_ref, config) {
        Ok(more) => {
            extend_lines(&mut lines, more);
        },
        Err(e) => {
            return Err(e);
        },
    }
    let more = config.extend_method(parent_id, name.as_str(), ret_type.as_str());
    extend_lines(&mut lines, more);
    Ok(lines)
}


/// The line that asks for the description of a resource.
pub open spec fn spec_wadl_accept_line() -> Seq<char> {
    "        req = req.header(reqwest::header::ACCEPT, \""@ + WADL_MIME_TYPE@ + "\");\n"@
}

/// The line that reads the description of a resource from the response.
pub open spec fn spec_wadl_parse_line(asynchronous: bool) -> Seq<char> {
    if asynchronous {
        "        let wadl: wadl::ast::Application = req.send().await?.error_for_status()?.text().await?.parse()?;\n"@
    } else {
        "        let wadl: wadl::ast::Application = req.send()?.error_for_status()?.text()?.parse()?;\n"@
    }
}

/// The function that fetches the description of the resource behind a method: its name
/// is that of the method's function followed by `_wadl`, and only the query parameters
/// with fixed values are sent.
#[verifier::opaque]
pub open spec fn spec_generate_method_wadl<C: Customization>(
    method: Method,
    parent_id: Seq<char>,
    config: &C,
    names: Seq<NamePair>,
) -> Result<Seq<Seq<char>>, Fault> {
    let name = spec_method_name(method.id@, parent_id);
    let asynchronous = config.spec_asynchronous();
    match after(
        Seq::<Seq<char>>::empty().push(
            "    pub "@ + spec_async_prefix(asynchronous) + "fn "@ + name
                + "_wadl<'a>(&self, client: &'a dyn "@ + spec_client_trait_name(asynchronous)
                + ") -> std::result::Result<wadl::ast::Resource, wadl::Error> {\n"@,
        ).push("        let mut url_ = self.url().clone();\n"@),
        spec_emit_params(
            ParamEmit::FixedQuery,
            method.request.params@,
            ParamContainer::Request(&method, &method.request),
            config,
            names,
        ),
    ) {
        Err(e) => Err(e),
        Ok(lines) => Ok(
            lines.push("\n"@).push(spec_request_line(method.name@, asynchronous)).push(
                spec_wadl_accept_line(),
            ).push("\n"@).push(spec_wadl_parse_line(asynchronous)).push(
                "        let resource = wadl.get_resource_by_href(self.url()).unwrap();\n"@,
            ).push("        Ok(resource.clone())\n"@).push("    }\n"@).push("\n"@),
        ),
    }
}

/// Emits the function that fetches the description of the resource behind a method.
pub fn generate_method_wadl<C: Customization>(
    input: &Method,
    parent_id: &str,
    config: &C,
    names: &OptionNames,
) -> (r: Result<Vec<String>, CompileError>)
    ensures
        lines_result(r) == spec_generate_method_wadl(*input, parent_id@, config, names@),
{
    reveal(spec_generate_method_wadl);
    let name = method_name(input.id.as_str(), parent_id);
    let asynchronous = config.asynchronous();
    let container = ParamContainer::Request(input, &input.request);
    let mut lines: Vec<String> = no_lines();
    push_line(
        &mut lines,
        cat7(
            "    pub ",
            async_prefix(asynchronous),
            "fn ",
            name.as_str(),
            "_wadl<'a>(&self, client: &'a dyn ",
            client_trait_name_of(asynchronous),
            ") -> std::result::Result<wadl::ast::Resource, wadl::Error> {\n",
        ),
    );
    push_str_line(&mut lines, "        let mut url_ = self.url().clone();\n");
    let params = crate::ast::refs_of(&input.request.params);
    match emit_params(&mut lines, ParamEmit::FixedQuery, &params, &container, config, names) {
        Ok(_) => {},
        Err(e) => {
            return Err(e);
        },
    }
    push_str_line(&mut lines, "\n");
    push_line(&mut lines, request_line(input.name.as_str(), asynchronous));
    push_line(
        &mut lines,
        cat3("        req = req.header(reqwest::header::ACCEPT, \"", WADL_MIME_TYPE, "\");\n"),
    );
    push_str_line(&mut lines, "\n");
    if asynchronous {
        push_str_line(
            &mut lines,
            "        let wadl: wadl::ast::Application = req.send().await?.error_for_status()?.text().await?.parse()?;\n",
        );
    } else {
        push_str_line(
            &mut lines,
            "        let wadl: wadl::ast::Application = req.send()?.error_for_status()?.text()?.parse()?;\n",
        );
    }
    push_str_line(
        &mut lines,
        "        let resource = wadl.get_resource_by_href(self.url()).unwrap();\n",
    );
    push_str_line(&mut lines, "        Ok(resource.clone())\n");
    push_str_line(&mut lines, "    }\n");
    push_str_line(&mut lines, "\n");
    Ok(lines)
}

/// Whether one of the representations is defined as a WADL document.
pub open spec fn spec_offers_wadl(reps: Seq<Representation>) -> bool
    decreases reps.len(),
{
    if reps.len() == 0 {
        false
    } else {
        (match reps[0] {
            Representation::Definition(d) => crate::media::media_text(d.media_type) == Some(
                WADL_MIME_TYPE@,
            ),
            Representation::Reference(_) => false,
        }) || spec_offers_wadl(reps.skip(1))
    }
}

fn offers_wadl(reps: &Vec<Representation>) -> (r: bool)
    ensures
        r == spec_offers_wadl(reps@),
{
    let mut i: usize = 0;
    assert(reps@.skip(0) =~= reps@);
    while i < reps.len()
        invariant
            i <= reps.len(),
            spec_offers_wadl(reps@) == spec_offers_wadl(reps@.skip(i as int)),
        decreases reps.len() - i,
    {
        let hit = match &reps[i] {
            Representation::Definition(d) => match &d.media_type {
                Some(m) => str_eq(m.as_str(), WADL_MIME_TYPE),
                None => false,
            },
            Representation::Reference(_) => false,
        };
        if hit {
            return true;
        }
        assert(reps@.skip(i as int).skip(1) =~= reps@.skip(i + 1));
        i = i + 1;
    }
    false
}

/// The number of responses that offer a WADL document.
pub open spec fn spec_wadl_responses(responses: Seq<Response>) -> nat
    decreases responses.len(),
{
    if responses.len() == 0 {
        0
    } else {
        spec_wadl_responses(responses.drop_last()) + (if spec_offers_wadl(
            responses.last().representations@,
        ) {
            1nat
        } else {
            0nat
        })
    }
}

/// The same lines, a number of times over.
pub open spec fn spec_repeat(lines: Seq<Seq<char>>, times: nat) -> Seq<Seq<char>>
    decreases times,
{
    if times == 0 {
        Seq::empty()
    } else {
        spec_repeat(lines, (times - 1) as nat) + lines
    }
}

/// All that is emitted for a method: its function, and after it the function that
/// fetches the description of the resource, once for each response that offers a WADL
/// document.
#[verifier::opaque]
pub open spec fn spec_generate_method<C: Customization>(
    method: Method,
    parent_id: Seq<char>,
    config: &C,
    names: Seq<NamePair>,
) -> Result<Seq<Seq<char>>, Fault> {
    match spec_generate_method_representation(method, parent_id, config, names) {
        Err(e) => Err(e),
        Ok(lines) => if spec_wadl_responses(method.responses@) == 0 {
            Ok(lines)
        } else {
            match spec_generate_method_wadl(method, parent_id, config, names) {
                Err(e) => Err(e),
                Ok(wadl) => Ok(lines + spec_repeat(wadl, spec_wadl_responses(method.responses@))),
            }
        },
    }
}

fn wadl_responses(responses: &Vec<Response>) -> (r: usize)
    ensures
        r == spec_wadl_responses(responses@),
{
    let mut count: usize = 0;
    let mut i: usize = 0;
    while i < responses.len()
        invariant
            i <= responses.len(),
            count <= i,
            count == spec_wadl_responses(responses@.take(i as int)),
        decreases responses.len() - i,
    {
        proof {
            let next = responses@.take(i + 1);
            assert(next.drop_last() =~= responses@.take(i as int));
            assert(next.last() == responses@[i as int]);
        }
        if offers_wadl(&responses[i].representations) {
            count = count + 1;
        }
        i = i + 1;
    }
    assert(responses@.take(responses@.len() as int) =~= responses@);
    count
}

/// Emits all that belongs to a method.
pub fn generate_method<C: Customization>(
    input: &Method,
    parent_id: &str,
    config: &C,
    names: &OptionNames,
) -> (r: Result<Vec<String>, CompileError>)
    ensures
        lines_result(r) == spec_generate_method(*input, parent_id@, config, names@),
{
    reveal(spec_generate_method);
    let mut lines = match generate_method_representation(input, parent_id, config, names) {
        Ok(l) => l,
        Err(e) => {
            return Err(e);
        },
    };
    let count = wadl_responses(&input.responses);
    if count == 0 {
        return Ok(lines);
    }
    let wadl = match generate_method_wadl(input, parent_id, config, names) {
        Ok(w) => w,
        Err(e) => {
            return Err(e);
        },
    };
    let ghost base = texts(lines@);
    let mut k: usize = 0;
    assert(base + spec_repeat(texts(wadl@), 0) =~= base);
    while k < count
        invariant
            k <= count,
            texts(lines@) == base + spec_repeat(texts(wadl@), k as nat),
        decreases count - k,
    {
        let copy = crate::text::clone_lines(&wadl);
        let ghost before = texts(lines@);
        extend_lines(&mut lines, copy);
        k = k + 1;
        assert(texts(lines@) =~= base + spec_repeat(texts(wadl@), k as nat)) by {
            assert(before + texts(wadl@) =~= base + (spec_repeat(texts(wadl@), (k - 1) as nat)
                + texts(wadl@)));
        }
    }
    Ok(lines)
}

} // verus!
