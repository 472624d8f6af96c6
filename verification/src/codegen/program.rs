//! The whole of the emitted code: enums, records and handles.
use vstd::prelude::*;
use vstd::string::*;
use crate::ast::{
    params_of, spec_application_params, Application, Method, Param, RepresentationDef,
    ResourceType,
};
use crate::codegen::config::{CompileError, CompileErrorKind, Customization, Fault};
use crate::codegen::docs::{push_docs, spec_generate_docs};
use crate::codegen::enums::{
    generate_options, lemma_free_name_is_free, options_rust_enum_name, spec_generate_options,
    spec_options_rust_enum_name,
};
use crate::codegen::names::{camel_case_name, spec_camel_case};
use crate::codegen::operation::{generate_method, spec_generate_method, spec_visible, visible};
use crate::codegen::option_names::{
    lemma_first_name, lemma_first_name_stays, lemma_pairs_tell_options_apart, one_to_one,
    spec_entry_names, spec_first_name,
    NamePair, OptionNames,
};
use crate::codegen::representation::{generate_representation, spec_generate_representation};
use crate::options::Options;
use crate::text::{
    cat3, cat4, concat, extend_lines, no_lines, push_line, push_str_line, spec_concat, texts,
};

verus! {

/// Failures, by the characters of their texts.
pub open spec fn faults_of(errors: Seq<CompileError>) -> Seq<Fault> {
    errors.map_values(|e: CompileError| e@)
}

/// Records one more failure.
pub fn push_error(errors: &mut Vec<CompileError>, error: CompileError)
    ensures
        faults_of(final(errors)@) == faults_of(old(errors)@).push(error@),
{
    assert(faults_of(errors@.push(error)) =~= faults_of(errors@).push(error@));
    errors.push(error);
}

/// Records more failures.
pub fn extend_errors(errors: &mut Vec<CompileError>, more: Vec<CompileError>)
    ensures
        faults_of(final(errors)@) == faults_of(old(errors)@) + faults_of(more@),
{
    let mut more = more;
    assert(faults_of(errors@ + more@) =~= faults_of(errors@) + faults_of(more@));
    errors.append(&mut more);
}

/// What was emitted for a list of items: the lines of those that could be emitted, and
/// the failures of the others.
pub struct Emitted {
    pub lines: Seq<Seq<char>>,
    pub faults: Seq<Fault>,
}

/// What is emitted for the methods of a resource type, one after the other: a method that
/// cannot be emitted gives its failure and no lines, and the next is tried.
pub open spec fn spec_emit_methods<C: Customization>(
    methods: Seq<Method>,
    parent_id: Seq<char>,
    config: &C,
    names: Seq<NamePair>,
) -> Emitted
    decreases methods.len(),
{
    if methods.len() == 0 {
        Emitted { lines: Seq::empty(), faults: Seq::empty() }
    } else {
        let before = spec_emit_methods(methods.drop_last(), parent_id, config, names);
        match spec_generate_method(methods.last(), parent_id, config, names) {
            Ok(lines) => Emitted { lines: before.lines + lines, faults: before.faults },
            Err(e) => Emitted { lines: before.lines, faults: before.faults.push(e) },
        }
    }
}

/// The lines that open the handle for a resource type: its documentation, the type that
/// holds the URL, and the start of the block of its functions.
pub open spec fn spec_handle_head<C: Customization>(input: ResourceType, config: &C) -> Seq<
    Seq<char>,
> {
    let name = spec_camel_case(input.id@);
    spec_generate_docs(input.docs@, 0, config).push(
        spec_visible(config.spec_resource_type_visibility(name)) + "struct "@ + name
            + " (reqwest::Url);\n"@,
    ).push("\n"@).push("impl "@ + name + " {\n"@)
}

/// The lines that close the handle for a resource type: the end of the block of its
/// functions, and the capability of giving its URL.
pub open spec fn spec_handle_tail(name: Seq<char>) -> Seq<Seq<char>> {
    Seq::<Seq<char>>::empty().push("}\n"@).push("\n"@).push(
        "impl wadl::Resource for "@ + name + " {\n"@,
    ).push("    fn url(&self) -> &reqwest::Url {\n"@).push("        &self.0\n"@).push(
        "    }\n"@,
    ).push("}\n"@).push("\n"@)
}

/// The handle for a resource type: a type that holds the URL of a resource, with one
/// function for each method and the capability of giving its URL. The failures of all
/// the methods that cannot be emitted come back together.
#[verifier::opaque]
pub open spec fn spec_generate_resource_type<C: Customization>(
    input: ResourceType,
    config: &C,
    names: Seq<NamePair>,
) -> Result<Seq<Seq<char>>, Seq<Fault>> {
    let methods = spec_emit_methods(input.methods@, input.id@, config, names);
    if methods.faults.len() > 0 {
        Err(methods.faults)
    } else {
        Ok(
            spec_handle_head(input, config) + methods.lines + spec_handle_tail(
                spec_camel_case(input.id@),
            ),
        )
    }
}

fn handle_head<C: Customization>(input: &ResourceType, name: &str, config: &C) -> (r: Vec<String>)
    requires
        name@ == spec_camel_case(input.id@),
    ensures
        texts(r@) == spec_handle_head(*input, config),
{
    let mut lines: Vec<String> = no_lines();
    push_docs(&mut lines, &input.docs, 0, config);
    assert(texts(lines@) =~= spec_generate_docs(input.docs@, 0, config));
    let visibility = visible(config.resource_type_visibility(name));
    push_line(&mut lines, cat4(visibility.as_str(), "struct ", name, " (reqwest::Url);\n"));
    push_str_line(&mut lines, "\n");
    push_line(&mut lines, cat3("impl ", name, " {\n"));
    lines
}

fn handle_tail(name: &str) -> (r: Vec<String>)
    ensures
        texts(r@) == spec_handle_tail(name@),
{
    let mut lines: Vec<String> = no_lines();
    push_str_line(&mut lines, "}\n");
    push_str_line(&mut lines, "\n");
    push_line(&mut lines, cat3("impl wadl::Resource for ", name, " {\n"));
    push_str_line(&mut lines, "    fn url(&self) -> &reqwest::Url {\n");
    push_str_line(&mut lines, "        &self.0\n");
    push_str_line(&mut lines, "    }\n");
    push_str_line(&mut lines, "}\n");
    push_str_line(&mut lines, "\n");
    lines
}

fn emit_methods<C: Customization>(
    lines: &mut Vec<String>,
    errors: &mut Vec<CompileError>,
    input: &ResourceType,
    config: &C,
    names: &OptionNames,
)
    ensures
        texts(final(lines)@) == texts(old(lines)@) + spec_emit_methods(
            input.methods@,
            input.id@,
            config,
            names@,
        ).lines,
        faults_of(final(errors)@) == faults_of(old(errors)@) + spec_emit_methods(
            input.methods@,
            input.id@,
            config,
            names@,
        ).faults,
{
    let ghost head = texts(lines@);
    let ghost first = faults_of(errors@);
    let mut i: usize = 0;
    assert(head + Seq::<Seq<char>>::empty() =~= head);
    assert(first + Seq::<Fault>::empty() =~= first);
    while i < input.methods.len()
        invariant
            i <= input.methods.len(),
            texts(lines@) == head + spec_emit_methods(
                input.methods@.take(i as int),
                input.id@,
                config,
                names@,
            ).lines,
            faults_of(errors@) == first + spec_emit_methods(
                input.methods@.take(i as int),
                input.id@,
                config,
                names@,
            ).faults,
        decreases input.methods.len() - i,
    {
        proof {
            let next = input.methods@.take(i + 1);
            assert(next.drop_last() =~= input.methods@.take(i as int));
            assert(next.last() == input.methods@[i as int]);
        }
        let ghost before = spec_emit_methods(input.methods@.take(i as int), input.id@, config, names@);
        match generate_method(&input.methods[i], input.id.as_str(), config, names) {
            Ok(more) => {
                assert((head + before.lines) + texts(more@) =~= head + (before.lines + texts(more@)));
                extend_lines(lines, more);
            },
            Err(e) => {
                assert((first + before.faults).push(e@) =~= first + before.faults.push(e@));
                push_error(errors, e);
            },
        }
        i = i + 1;
    }
    assert(input.methods@.take(input.methods@.len() as int) =~= input.methods@);
}

/// Emits the handle for a resource type.
pub fn generate_resource_type<C: Customization>(
    input: &ResourceType,
    config: &C,
    names: &OptionNames,
) -> (r: Result<Vec<String>, Vec<CompileError>>)
    ensures
        match r {
            Ok(lines) => Ok(texts(lines@)),
            Err(errors) => Err(faults_of(errors@)),
        } == spec_generate_resource_type(*input, config, names@),
{
    reveal(spec_generate_resource_type);
    let name = camel_case_name(input.id.as_str());
    let mut lines = handle_head(input, name.as_str(), config);
    let mut errors: Vec<CompileError> = Vec::new();
    assert(faults_of(errors@) =~= Seq::<Fault>::empty());
    emit_methods(&mut lines, &mut errors, input, config, names);
    proof {
        let methods = spec_emit_methods(input.methods@, input.id@, config, names@);
        assert(Seq::<Fault>::empty() + methods.faults =~= methods.faults);
        assert(faults_of(errors@).len() == errors@.len());
    }
    if errors.len() > 0 {
        return Err(errors);
    }
    let tail = handle_tail(name.as_str());
    extend_lines(&mut lines, tail);
    Ok(lines)
}

/// What naming the options of a list of parameters gives: the sets with their names, the
/// lines of their enums, and the failures.
pub struct Naming {
    pub pairs: Seq<NamePair>,
    pub lines: Seq<Seq<char>>,
    pub faults: Seq<Fault>,
}

/// The failure for a name that the customization chose though it is in use.
pub open spec fn taken_fault(param: Param, name: Seq<char>) -> Fault {
    Fault { kind: CompileErrorKind::EnumNameTaken, item: ""@, param: param.name@, detail: name }
}

/// A set of options takes a name: the set is in the table from now on, and its enum is
/// emitted, or the failure to emit it recorded.
#[verifier::opaque]
pub open spec fn spec_named(state: Naming, options: Options, name: Seq<char>) -> Naming {
    match spec_generate_options(name, options.spec_keys()) {
        Ok(lines) => Naming {
            pairs: state.pairs.push((options@, name)),
            lines: state.lines + lines,
            faults: state.faults,
        },
        Err(e) => Naming {
            pairs: state.pairs.push((options@, name)),
            lines: state.lines,
            faults: state.faults.push(e),
        },
    }
}

/// One parameter is looked at. Without options, or with options that have a name, nothing
/// changes. Else the options take the name that the customization chooses, which is a
/// failure where it is in use, or the name that comes from the parameter's.
#[verifier::opaque]
pub open spec fn spec_name_step<C: Customization>(state: Naming, param: Param, config: &C) -> Naming {
    match param.options {
        None => state,
        Some(options) => if spec_first_name(state.pairs, options@) is Some {
            state
        } else {
            let taken = spec_entry_names(state.pairs);
            match config.spec_options_enum_name(param, taken) {
                Some(name) => if taken.contains(name) {
                    Naming {
                        pairs: state.pairs,
                        lines: state.lines,
                        faults: state.faults.push(taken_fault(param, name)),
                    }
                } else {
                    spec_named(state, options, name)
                },
                None => spec_named(state, options, spec_options_rust_enum_name(param, taken)),
            }
        },
    }
}

/// The options of the parameters of a list are named, in the order of the list.
pub open spec fn spec_name_options<C: Customization>(params: Seq<Param>, config: &C) -> Naming
    decreases params.len(),
{
    if params.len() == 0 {
        Naming { pairs: Seq::empty(), lines: Seq::empty(), faults: Seq::empty() }
    } else {
        spec_name_step(spec_name_options(params.drop_last(), config), params.last(), config)
    }
}

fn named(
    table: &mut OptionNames,
    lines: &mut Vec<String>,
    errors: &mut Vec<CompileError>,
    options: &Options,
    name: String,
)
    requires
        spec_first_name(old(table)@, options@) is None,
        !spec_entry_names(old(table)@).contains(name@),
    ensures
        (Naming {
            pairs: final(table)@,
            lines: texts(final(lines)@),
            faults: faults_of(final(errors)@),
        }) == spec_named(
            Naming {
                pairs: old(table)@,
                lines: texts(old(lines)@),
                faults: faults_of(old(errors)@),
            },
            *options,
            name@,
        ),
{
    reveal(spec_named);
    match generate_options(name.as_str(), options) {
        Ok(more) => {
            extend_lines(lines, more);
        },
        Err(e) => {
            push_error(errors, e);
        },
    }
    let added = table.insert(options.clone(), name);
    assert(added);
}

/// Names the options of all the parameters of a list.
pub fn name_options<C: Customization>(params: &Vec<&Param>, config: &C) -> (r: (
    OptionNames,
    Vec<String>,
    Vec<CompileError>,
))
    ensures
        (Naming { pairs: r.0@, lines: texts(r.1@), faults: faults_of(r.2@) }) == spec_name_options(
            params_of(params@),
            config,
        ),
        r.0.wf(),
{
    let mut table = OptionNames::new();
    let mut lines: Vec<String> = no_lines();
    let mut errors: Vec<CompileError> = Vec::new();
    assert(faults_of(errors@) =~= Seq::<Fault>::empty());
    let ghost all = params_of(params@);
    let mut i: usize = 0;
    while i < params.len()
        invariant
            i <= params.len(),
            all == params_of(params@),
            (Naming { pairs: table@, lines: texts(lines@), faults: faults_of(errors@) })
                == spec_name_options(all.take(i as int), config),
        decreases params.len() - i,
    {
        proof {
            let next = all.take(i + 1);
            assert(next.drop_last() =~= all.take(i as int));
            assert(next.last() == *params@[i as int]);
        }
        let param = params[i];
        reveal(spec_name_step);
        match &param.options {
            None => {},
            Some(options) => {
                if table.get(options).is_none() {
                    let taken = table.names();
                    match config.options_enum_name(param, &taken) {
                        Some(name) => {
                            if table.is_taken(name.as_str()) {
                                push_error(
                                    &mut errors,
                                    CompileError::new(
                                        CompileErrorKind::EnumNameTaken,
                                        "",
                                        param.name.as_str(),
                                        name.as_str(),
                                    ),
                                );
                            } else {
                                named(&mut table, &mut lines, &mut errors, options, name);
                            }
                        },
                        None => {
                            let name = options_rust_enum_name(param, &table);
                            named(&mut table, &mut lines, &mut errors, options, name);
                        },
                    }
                }
            },
        }
        i = i + 1;
    }
    assert(all.take(all.len() as int) =~= all);
    table.well_formed();
    (table, lines, errors)
}

/// What is emitted for the representations at the top of a document, one after the other.
pub open spec fn spec_emit_representations<C: Customization>(
    defs: Seq<RepresentationDef>,
    config: &C,
    names: Seq<NamePair>,
) -> Emitted
    decreases defs.len(),
{
    if defs.len() == 0 {
        Emitted { lines: Seq::empty(), faults: Seq::empty() }
    } else {
        let before = spec_emit_representations(defs.drop_last(), config, names);
        match spec_generate_representation(defs.last(), config, names) {
            Ok(lines) => Emitted { lines: before.lines + lines, faults: before.faults },
            Err(e) => Emitted { lines: before.lines, faults: before.faults.push(e) },
        }
    }
}

/// What is emitted for the resource types of a document, one after the other.
pub open spec fn spec_emit_resource_types<C: Customization>(
    types: Seq<ResourceType>,
    config: &C,
    names: Seq<NamePair>,
) -> Emitted
    decreases types.len(),
{
    if types.len() == 0 {
        Emitted { lines: Seq::empty(), faults: Seq::empty() }
    } else {
        let before = spec_emit_resource_types(types.drop_last(), config, names);
        match spec_generate_resource_type(types.last(), config, names) {
            Ok(lines) => Emitted { lines: before.lines + lines, faults: before.faults },
            Err(faults) => Emitted { lines: before.lines, faults: before.faults + faults },
        }
    }
}

/// The code for a document: the enums for the sets of options, the documentation of the
/// document, the records for its representations and the handles for its resource types,
/// in this order and joined into one text. Where any part cannot be emitted there is no
/// text, and the failures of all the parts come back in the same order.
#[verifier::opaque]
pub open spec fn spec_generate<C: Customization>(app: Application, config: &C) -> Result<
    Seq<char>,
    Seq<Fault>,
> {
    let named = spec_name_options(spec_application_params(app), config);
    let records = spec_emit_representations(app.representations@, config, named.pairs);
    let handles = spec_emit_resource_types(app.resource_types@, config, named.pairs);
    let faults = named.faults + records.faults + handles.faults;
    if faults.len() > 0 {
        Err(faults)
    } else {
        Ok(
            spec_concat(
                named.lines + spec_generate_docs(app.docs@, 0, config) + records.lines
                    + handles.lines,
            ),
        )
    }
}

fn emit_representations<C: Customization>(
    lines: &mut Vec<String>,
    errors: &mut Vec<CompileError>,
    defs: &Vec<RepresentationDef>,
    config: &C,
    names: &OptionNames,
)
    ensures
        texts(final(lines)@) == texts(old(lines)@) + spec_emit_representations(
            defs@,
            config,
            names@,
        ).lines,
        faults_of(final(errors)@) == faults_of(old(errors)@) + spec_emit_representations(
            defs@,
            config,
            names@,
        ).faults,
{
    let ghost head = texts(lines@);
    let ghost first = faults_of(errors@);
    let mut i: usize = 0;
    assert(head + Seq::<Seq<char>>::empty() =~= head);
    assert(first + Seq::<Fault>::empty() =~= first);
    while i < defs.len()
        invariant
            i <= defs.len(),
            texts(lines@) == head + spec_emit_representations(
                defs@.take(i as int),
                config,
                names@,
            ).lines,
            faults_of(errors@) == first + spec_emit_representations(
                defs@.take(i as int),
                config,
                names@,
            ).faults,
        decreases defs.len() - i,
    {
        proof {
            let next = defs@.take(i + 1);
            assert(next.drop_last() =~= defs@.take(i as int));
            assert(next.last() == defs@[i as int]);
        }
        let ghost before = spec_emit_representations(defs@.take(i as int), config, names@);
        match generate_representation(&defs[i], config, names) {
            Ok(more) => {
                assert((head + before.lines) + texts(more@) =~= head + (before.lines + texts(more@)));
                extend_lines(lines, more);
            },
            Err(e) => {
                assert((first + before.faults).push(e@) =~= first + before.faults.push(e@));
                push_error(errors, e);
            },
        }
        i = i + 1;
    }
    assert(defs@.take(defs@.len() as int) =~= defs@);
}

fn emit_resource_types<C: Customization>(
    lines: &mut Vec<String>,
    errors: &mut Vec<CompileError>,
    types: &Vec<ResourceType>,
    config: &C,
    names: &OptionNames,
)
    ensures
        texts(final(lines)@) == texts(old(lines)@) + spec_emit_resource_types(
            types@,
            config,
            names@,
        ).lines,
        faults_of(final(errors)@) == faults_of(old(errors)@) + spec_emit_resource_types(
            types@,
            config,
            names@,
        ).faults,
{
    let ghost head = texts(lines@);
    let ghost first = faults_of(errors@);
    let mut k: usize = 0;
    assert(head + Seq::<Seq<char>>::empty() =~= head);
    assert(first + Seq::<Fault>::empty() =~= first);
    while k < types.len()
        invariant
            k <= types.len(),
            texts(lines@) == head + spec_emit_resource_types(
                types@.take(k as int),
                config,
                names@,
            ).lines,
            faults_of(errors@) == first + spec_emit_resource_types(
                types@.take(k as int),
                config,
                names@,
            ).faults,
        decreases types.len() - k,
    {
        proof {
            let next = types@.take(k + 1);
            assert(next.drop_last() =~= types@.take(k as int));
            assert(next.last() == types@[k as int]);
        }
        let ghost before = spec_emit_resource_types(types@.take(k as int), config, names@);
        match generate_resource_type(&types[k], config, names) {
            Ok(more) => {
                assert((head + before.lines) + texts(more@) =~= head + (before.lines + texts(more@)));
                extend_lines(lines, more);
            },
            Err(more) => {
                assert((first + before.faults) + faults_of(more@) =~= first + (before.faults
                    + faults_of(more@)));
                extend_errors(errors, more);
            },
        }
        k = k + 1;
    }
    assert(types@.take(types@.len() as int) =~= types@);
}

/// What an emission gave, by its characters: the text, or the failures.
pub open spec fn outcome(r: Result<String, Vec<CompileError>>) -> Result<Seq<char>, Seq<Fault>> {
    match r {
        Ok(text) => Ok(text@),
        Err(errors) => Err(faults_of(errors@)),
    }
}

/// Emitting twice from the same document with the same customization gives the same
/// text, character for character, or the same failures.
pub proof fn lemma_emission_is_deterministic<C: Customization>(
    app: Application,
    config: &C,
    first: Result<String, Vec<CompileError>>,
    second: Result<String, Vec<CompileError>>,
)
    requires
        outcome(first) == spec_generate(app, config),
        outcome(second) == spec_generate(app, config),
    ensures
        outcome(first) == outcome(second),
        first is Ok ==> second is Ok && first->Ok_0@ == second->Ok_0@,
{
}

/// Emits the code for a document. The result is a function of the document and of the
/// customization's answers: the same two give the same text.
pub fn generate<C: Customization>(app: &Application, config: &C) -> (r: Result<
    String,
    Vec<CompileError>,
>)
    ensures
        outcome(r) == spec_generate(*app, config),
{
    reveal(spec_generate);
    let params = app.iter_all_params();
    let (names, mut lines, mut errors) = name_options(&params, config);
    push_docs(&mut lines, &app.docs, 0, config);
    emit_representations(&mut lines, &mut errors, &app.representations, config, &names);
    emit_resource_types(&mut lines, &mut errors, &app.resource_types, config, &names);
    if errors.len() > 0 {
        Err(errors)
    } else {
        Ok(concat(&lines))
    }
}


/// The names are one to one after every step: no set of options has two names, and no
/// two sets share a name.
pub proof fn lemma_naming_is_one_to_one<C: Customization>(params: Seq<Param>, config: &C)
    ensures
        one_to_one(spec_name_options(params, config).pairs),
    decreases params.len(),
{
    reveal(spec_name_step);
    reveal(spec_named);
    if params.len() > 0 {
        lemma_naming_is_one_to_one(params.drop_last(), config);
        let before = spec_name_options(params.drop_last(), config);
        let param = params.last();
        let after = spec_name_options(params, config);
        if after.pairs != before.pairs {
            let options = param.options->0;
            let taken = spec_entry_names(before.pairs);
            let name = match config.spec_options_enum_name(param, taken) {
                Some(n) => n,
                None => spec_options_rust_enum_name(param, taken),
            };
            if config.spec_options_enum_name(param, taken) is None {
                lemma_free_name_is_free(spec_camel_case(param.name@), taken);
            }
            assert(!taken.contains(name));
            assert(after.pairs == before.pairs.push((options@, name)));
            lemma_first_name(before.pairs, options@);
            let now = after.pairs;
            assert forall|i: int, j: int|
                0 <= i < now.len() && 0 <= j < now.len() && i != j implies (#[trigger] now[i]).0 != (
            #[trigger] now[j]).0 && now[i].1 != now[j].1 by {
                if i < before.pairs.len() && j < before.pairs.len() {
                    assert(now[i] == before.pairs[i] && now[j] == before.pairs[j]);
                } else if i < before.pairs.len() {
                    assert(now[i] == before.pairs[i]);
                    assert(taken[i] == before.pairs[i].1);
                } else {
                    assert(now[j] == before.pairs[j]);
                    assert(taken[j] == before.pairs[j].1);
                }
            }
        }
    }
}

/// No failure of a list is a name that was chosen though in use.
pub open spec fn no_name_taken(faults: Seq<Fault>) -> bool {
    forall|k: int|
        0 <= k < faults.len() ==> (#[trigger] faults[k]).kind != CompileErrorKind::EnumNameTaken
}

proof fn lemma_naming_keeps_faults<C: Customization>(params: Seq<Param>, config: &C)
    requires
        params.len() > 0,
        no_name_taken(spec_name_options(params, config).faults),
    ensures
        no_name_taken(spec_name_options(params.drop_last(), config).faults),
{
    reveal(spec_name_step);
    reveal(spec_named);
    let before = spec_name_options(params.drop_last(), config).faults;
    let after = spec_name_options(params, config).faults;
    assert forall|k: int| 0 <= k < before.len() implies (#[trigger] before[k]).kind
        != CompileErrorKind::EnumNameTaken by {
        assert(after.len() >= before.len());
        assert(after[k] == before[k]);
    }
}

/// Where the customization never chose a name that was in use, the options of every
/// parameter have a name once all are named; and parameters with the same set of options
/// have the same name, since the name is a function of the set.
pub proof fn lemma_all_options_are_named<C: Customization>(params: Seq<Param>, config: &C, i: int)
    requires
        0 <= i < params.len(),
        params[i].options is Some,
        no_name_taken(spec_name_options(params, config).faults),
    ensures
        spec_first_name(spec_name_options(params, config).pairs, params[i].options->0@) is Some,
    decreases params.len(),
{
    reveal(spec_name_step);
    reveal(spec_named);
    let before = spec_name_options(params.drop_last(), config);
    let after = spec_name_options(params, config);
    let wanted = params[i].options->0@;
    let param = params.last();
    lemma_naming_keeps_faults(params, config);
    if i < params.len() - 1 {
        assert(params.drop_last()[i] == params[i]);
        lemma_all_options_are_named(params.drop_last(), config, i);
        if after.pairs != before.pairs {
            let added = after.pairs.last();
            assert(after.pairs =~= before.pairs.push(added));
            lemma_first_name_stays(before.pairs, added, wanted);
        }
    } else {
        if spec_first_name(before.pairs, wanted) is None {
            let taken = spec_entry_names(before.pairs);
            match config.spec_options_enum_name(param, taken) {
                Some(name) => {
                    if taken.contains(name) {
                        assert(after.faults.last().kind == CompileErrorKind::EnumNameTaken);
                        assert(after.faults[after.faults.len() - 1].kind
                            == CompileErrorKind::EnumNameTaken);
                    }
                    lemma_first_name_stays(before.pairs, (wanted, name), wanted);
                },
                None => {
                    lemma_first_name_stays(
                        before.pairs,
                        (wanted, spec_options_rust_enum_name(param, taken)),
                        wanted,
                    );
                },
            }
        }
    }
}


/// Once the options of all the parameters are named, two parameters have the same enum
/// exactly where their sets of options are the same, in whatever order the sets were
/// written; this holds wherever the customization never chose a name that was in use.
pub proof fn lemma_parameters_share_names<C: Customization>(
    params: Seq<Param>,
    config: &C,
    i: int,
    j: int,
)
    requires
        0 <= i < params.len(),
        0 <= j < params.len(),
        params[i].options is Some,
        params[j].options is Some,
        no_name_taken(spec_name_options(params, config).faults),
    ensures
        spec_first_name(spec_name_options(params, config).pairs, params[i].options->0@) is Some,
        spec_first_name(spec_name_options(params, config).pairs, params[j].options->0@) is Some,
        (params[i].options->0@ == params[j].options->0@) <==> (spec_first_name(
            spec_name_options(params, config).pairs,
            params[i].options->0@,
        ) == spec_first_name(
            spec_name_options(params, config).pairs,
            params[j].options->0@,
        )),
{
    lemma_all_options_are_named(params, config, i);
    lemma_all_options_are_named(params, config, j);
    lemma_naming_is_one_to_one(params, config);
    lemma_pairs_tell_options_apart(
        spec_name_options(params, config).pairs,
        params[i].options->0@,
        params[j].options->0@,
    );
}

} // verus!
