//! What is worth telling about a document before code is emitted from it: the
//! documentation that the emitter formats, and the warnings.
use vstd::prelude::*;
use vstd::string::*;
use crate::ast::{
    opt_url, params_of, spec_request_params, Application, Doc, Method, Param, ParamStyle,
    Representation, RepresentationDef, Request, Resource, ResourceType, Resources, Response,
};
use crate::codegen::docs::{is_xhtml, xhtml_namespace};
use crate::text::texts;

verus! {

/// The values behind a list of references to documentation.
pub open spec fn docs_of(v: Seq<&Doc>) -> Seq<Doc> {
    v.map_values(|d: &Doc| *d)
}

/// The documentation of a parameter, where it has some.
pub open spec fn spec_param_docs(p: Param) -> Seq<Doc> {
    match p.doc {
        Some(d) => seq![d],
        None => Seq::empty(),
    }
}

/// The documentation of the parameters of a list, in their order.
pub open spec fn spec_params_docs(params: Seq<Param>) -> Seq<Doc>
    decreases params.len(),
{
    if params.len() == 0 {
        Seq::empty()
    } else {
        spec_params_docs(params.drop_last()) + spec_param_docs(params.last())
    }
}

/// The documentation that is formatted for a representation: its own, then that of its
/// parameters.
pub open spec fn spec_definition_docs(d: RepresentationDef) -> Seq<Doc> {
    d.docs@ + spec_params_docs(d.params@)
}

/// The documentation that is formatted for the representations of a list.
pub open spec fn spec_definitions_docs(ds: Seq<RepresentationDef>) -> Seq<Doc>
    decreases ds.len(),
{
    if ds.len() == 0 {
        Seq::empty()
    } else {
        spec_definitions_docs(ds.drop_last()) + spec_definition_docs(ds.last())
    }
}

/// The documentation that is formatted for a method: its own, then that of the
/// parameters of its request.
pub open spec fn spec_method_docs(m: Method) -> Seq<Doc> {
    m.docs@ + spec_params_docs(spec_request_params(m.request))
}

/// The documentation that is formatted for the methods of a list.
pub open spec fn spec_methods_docs(ms: Seq<Method>) -> Seq<Doc>
    decreases ms.len(),
{
    if ms.len() == 0 {
        Seq::empty()
    } else {
        spec_methods_docs(ms.drop_last()) + spec_method_docs(ms.last())
    }
}

/// The documentation that is formatted for a resource type: its own, then that of its
/// methods.
pub open spec fn spec_resource_type_docs(t: ResourceType) -> Seq<Doc> {
    t.docs@ + spec_methods_docs(t.methods@)
}

/// The documentation that is formatted for the resource types of a list.
pub open spec fn spec_resource_types_docs(ts: Seq<ResourceType>) -> Seq<Doc>
    decreases ts.len(),
{
    if ts.len() == 0 {
        Seq::empty()
    } else {
        spec_resource_types_docs(ts.drop_last()) + spec_resource_type_docs(ts.last())
    }
}

/// All the documentation that is formatted when code is emitted for a document: that of
/// the document, of its representations and of its resource types.
pub open spec fn spec_emitted_docs(app: Application) -> Seq<Doc> {
    app.docs@ + spec_definitions_docs(app.representations@) + spec_resource_types_docs(
        app.resource_types@,
    )
}

fn push_doc_refs<'a>(out: &mut Vec<&'a Doc>, docs: &'a Vec<Doc>)
    ensures
        docs_of(final(out)@) == docs_of(old(out)@) + docs@,
{
    let ghost start = docs_of(out@);
    let mut i: usize = 0;
    assert(start + docs@.take(0) =~= start);
    while i < docs.len()
        invariant
            i <= docs.len(),
            docs_of(out@) == start + docs@.take(i as int),
        decreases docs.len() - i,
    {
        let ghost before = out@;
        out.push(&docs[i]);
        i = i + 1;
        assert(docs_of(out@) =~= docs_of(before).push(docs@[i - 1]));
        assert(docs@.take(i as int) =~= docs@.take(i - 1).push(docs@[i - 1]));
        assert(docs_of(out@) =~= start + docs@.take(i as int));
    }
    assert(docs@.take(docs@.len() as int) =~= docs@);
}

fn push_params_docs<'a>(out: &mut Vec<&'a Doc>, params: &Vec<&'a Param>)
    ensures
        docs_of(final(out)@) == docs_of(old(out)@) + spec_params_docs(params_of(params@)),
{
    let ghost start = docs_of(out@);
    let ghost all = params_of(params@);
    let mut i: usize = 0;
    assert(start + spec_params_docs(all.take(0)) =~= start);
    while i < params.len()
        invariant
            i <= params.len(),
            all == params_of(params@),
            docs_of(out@) == start + spec_params_docs(all.take(i as int)),
        decreases params.len() - i,
    {
        proof {
            let next = all.take(i + 1);
            assert(next.drop_last() =~= all.take(i as int));
            assert(next.last() == *params@[i as int]);
        }
        let ghost before = out@;
        let ghost done = spec_params_docs(all.take(i as int));
        let param: &'a Param = params[i];
        match &param.doc {
            Some(d) => {
                out.push(d);
                assert(docs_of(out@) =~= docs_of(before).push(*d));
                assert((start + done).push(*d) =~= start + (done + seq![*d]));
            },
            None => {
                assert(start + (done + Seq::<Doc>::empty()) =~= start + done);
            },
        }
        i = i + 1;
    }
    assert(all.take(all.len() as int) =~= all);
}

fn push_definition_docs<'a>(out: &mut Vec<&'a Doc>, d: &'a RepresentationDef)
    ensures
        docs_of(final(out)@) == docs_of(old(out)@) + spec_definition_docs(*d),
{
    let ghost start = docs_of(out@);
    push_doc_refs(out, &d.docs);
    let params = d.iter_all_params();
    push_params_docs(out, &params);
    assert((start + d.docs@) + spec_params_docs(d.params@) =~= start + (d.docs@ + spec_params_docs(
        d.params@,
    )));
}

fn push_method_docs<'a>(out: &mut Vec<&'a Doc>, m: &'a Method)
    ensures
        docs_of(final(out)@) == docs_of(old(out)@) + spec_method_docs(*m),
{
    let ghost start = docs_of(out@);
    push_doc_refs(out, &m.docs);
    let params = m.request.iter_all_params();
    push_params_docs(out, &params);
    assert((start + m.docs@) + spec_params_docs(spec_request_params(m.request)) =~= start + (m.docs@
        + spec_params_docs(spec_request_params(m.request))));
}

fn push_resource_type_docs<'a>(out: &mut Vec<&'a Doc>, t: &'a ResourceType)
    ensures
        docs_of(final(out)@) == docs_of(old(out)@) + spec_resource_type_docs(*t),
{
    let ghost start = docs_of(out@);
    push_doc_refs(out, &t.docs);
    let ghost head = docs_of(out@);
    let mut i: usize = 0;
    assert(head + spec_methods_docs(t.methods@.take(0)) =~= head);
    while i < t.methods.len()
        invariant
            i <= t.methods.len(),
            docs_of(out@) == head + spec_methods_docs(t.methods@.take(i as int)),
        decreases t.methods.len() - i,
    {
        proof {
            let next = t.methods@.take(i + 1);
            assert(next.drop_last() =~= t.methods@.take(i as int));
            assert(next.last() == t.methods@[i as int]);
        }
        let ghost done = spec_methods_docs(t.methods@.take(i as int));
        push_method_docs(out, &t.methods[i]);
        assert((head + done) + spec_method_docs(t.methods@[i as int]) =~= head + (done
            + spec_method_docs(t.methods@[i as int])));
        i = i + 1;
    }
    assert(t.methods@.take(t.methods@.len() as int) =~= t.methods@);
    assert((start + t.docs@) + spec_methods_docs(t.methods@) =~= start + (t.docs@
        + spec_methods_docs(t.methods@)));
}

/// All the documentation that is formatted when code is emitted for a document.
pub fn emitted_docs(app: &Application) -> (r: Vec<&Doc>)
    ensures
        docs_of(r@) == spec_emitted_docs(*app),
{
    let mut out: Vec<&Doc> = Vec::new();
    assert(docs_of(out@) =~= Seq::<Doc>::empty());
    push_doc_refs(&mut out, &app.docs);
    assert(Seq::<Doc>::empty() + app.docs@ =~= app.docs@);
    let ghost head = docs_of(out@);
    let mut i: usize = 0;
    assert(head + spec_definitions_docs(app.representations@.take(0)) =~= head);
    while i < app.representations.len()
        invariant
            i <= app.representations.len(),
            docs_of(out@) == head + spec_definitions_docs(app.representations@.take(i as int)),
        decreases app.representations.len() - i,
    {
        proof {
            let next = app.representations@.take(i + 1);
            assert(next.drop_last() =~= app.representations@.take(i as int));
            assert(next.last() == app.representations@[i as int]);
        }
        let ghost done = spec_definitions_docs(app.representations@.take(i as int));
        push_definition_docs(&mut out, &app.representations[i]);
        assert((head + done) + spec_definition_docs(app.representations@[i as int]) =~= head + (done
            + spec_definition_docs(app.representations@[i as int])));
        i = i + 1;
    }
    assert(app.representations@.take(app.representations@.len() as int) =~= app.representations@);
    let ghost second = docs_of(out@);
    let mut k: usize = 0;
    assert(second + spec_resource_types_docs(app.resource_types@.take(0)) =~= second);
    while k < app.resource_types.len()
        invariant
            k <= app.resource_types.len(),
            docs_of(out@) == second + spec_resource_types_docs(app.resource_types@.take(k as int)),
        decreases app.resource_types.len() - k,
    {
        proof {
            let next = app.resource_types@.take(k + 1);
            assert(next.drop_last() =~= app.resource_types@.take(k as int));
            assert(next.last() == app.resource_types@[k as int]);
        }
        let ghost done = spec_resource_types_docs(app.resource_types@.take(k as int));
        push_resource_type_docs(&mut out, &app.resource_types[k]);
        assert((second + done) + spec_resource_type_docs(app.resource_types@[k as int]) =~= second
            + (done + spec_resource_type_docs(app.resource_types@[k as int])));
        k = k + 1;
    }
    assert(app.resource_types@.take(app.resource_types@.len() as int) =~= app.resource_types@);
    out
}

/// The contents of the documentation of a list that is in the namespace of XHTML.
pub open spec fn spec_xhtml_contents(docs: Seq<Doc>) -> Seq<Seq<char>>
    decreases docs.len(),
{
    if docs.len() == 0 {
        Seq::empty()
    } else if opt_url(docs.last().xmlns) == Some(xhtml_namespace()) {
        spec_xhtml_contents(docs.drop_last()).push(docs.last().content@)
    } else {
        spec_xhtml_contents(docs.drop_last())
    }
}

/// The HTML texts that are formatted when code is emitted for a document, in the order
/// in which the emitter meets them: whoever has a converter to Markdown converts these.
pub fn xhtml_contents(app: &Application) -> (r: Vec<String>)
    ensures
        texts(r@) == spec_xhtml_contents(spec_emitted_docs(*app)),
{
    let docs = emitted_docs(app);
    let ghost all = docs_of(docs@);
    let mut out: Vec<String> = crate::text::no_lines();
    let mut i: usize = 0;
    while i < docs.len()
        invariant
            i <= docs.len(),
            all == docs_of(docs@),
            texts(out@) == spec_xhtml_contents(all.take(i as int)),
        decreases docs.len() - i,
    {
        proof {
            let next = all.take(i + 1);
            assert(next.drop_last() =~= all.take(i as int));
            assert(next.last() == *docs@[i as int]);
        }
        let doc: &Doc = docs[i];
        if is_xhtml(doc) {
            crate::text::push_line(&mut out, doc.content.clone());
        }
        i = i + 1;
    }
    assert(all.take(all.len() as int) =~= all);
    out
}

/// Where a parameter stands in a document.
#[derive(Debug, Clone, Copy, PartialEq, Eq, Structural)]
pub enum Place {
    /// Under a resource.
    Resource,
    /// Under a resource type.
    ResourceType,
    /// In a request.
    Request,
    /// In a response.
    Response,
    /// In a representation.
    Representation,
}

/// Whether a style is meant for parameters in a place. A resource takes matrix, query,
/// header and template parameters; a resource type and a request take header and query
/// parameters; a response takes header parameters; a representation takes plain and
/// query parameters.
pub open spec fn spec_style_allowed(place: Place, style: ParamStyle) -> bool {
    match place {
        Place::Resource => style != ParamStyle::Plain,
        Place::ResourceType => style == ParamStyle::Header || style == ParamStyle::Query,
        Place::Request => style == ParamStyle::Header || style == ParamStyle::Query,
        Place::Response => style == ParamStyle::Header,
        Place::Representation => style == ParamStyle::Plain || style == ParamStyle::Query,
    }
}

/// Whether a style is meant for parameters in a place.
pub fn style_allowed(place: Place, style: ParamStyle) -> (r: bool)
    ensures
        r == spec_style_allowed(place, style),
{
    match place {
        Place::Resource => style != ParamStyle::Plain,
        Place::ResourceType => style == ParamStyle::Header || style == ParamStyle::Query,
        Place::Request => style == ParamStyle::Header || style == ParamStyle::Query,
        Place::Response => style == ParamStyle::Header,
        Place::Representation => style == ParamStyle::Plain || style == ParamStyle::Query,
    }
}

/// Something odd in a document that does not keep code from being emitted.
#[derive(Debug, Clone, PartialEq, Eq)]
pub enum Warning {
    /// Documentation is in a namespace that is not known: it is taken as it is written.
    UnknownNamespace(String),
    /// A parameter, by its name, has a style that is not meant for the place it stands in.
    StyleNotAllowed(Place, String),
    /// A parameter, by its name, has neither a declared type nor a link nor options: its
    /// type is any JSON value.
    UntypedParam(String),
}

/// A warning, by the characters of its text.
pub enum WarningView {
    UnknownNamespace(Seq<char>),
    StyleNotAllowed(Place, Seq<char>),
    UntypedParam(Seq<char>),
}

impl Warning {
    /// This warning as plain data.
    pub open spec fn view(&self) -> WarningView {
        match self {
            Warning::UnknownNamespace(ns) => WarningView::UnknownNamespace(ns@),
            Warning::StyleNotAllowed(place, name) => WarningView::StyleNotAllowed(*place, name@),
            Warning::UntypedParam(name) => WarningView::UntypedParam(name@),
        }
    }

    /// The words for a place.
    pub open spec fn spec_place_words(place: Place) -> Seq<char> {
        match place {
            Place::Resource => "a resource"@,
            Place::ResourceType => "a resource type"@,
            Place::Request => "a request"@,
            Place::Response => "a response"@,
            Place::Representation => "a representation"@,
        }
    }

    /// A warning in words.
    pub open spec fn spec_message(w: WarningView) -> Seq<char> {
        match w {
            WarningView::UnknownNamespace(ns) => "Unknown xmlns: "@ + ns,
            WarningView::StyleNotAllowed(place, name) => "Invalid param style for `"@ + name
                + "` in "@ + Self::spec_place_words(place),
            WarningView::UntypedParam(name) => "No type for param `"@ + name + "`"@,
        }
    }

    /// The warning in words.
    pub fn message(&self) -> (r: String)
        ensures
            r@ == Self::spec_message(self@),
    {
        match self {
            Warning::UnknownNamespace(ns) => crate::text::cat2("Unknown xmlns: ", ns.as_str()),
            Warning::StyleNotAllowed(place, name) => {
                let words = match place {
                    Place::Resource => "a resource",
                    Place::ResourceType => "a resource type",
                    Place::Request => "a request",
                    Place::Response => "a response",
                    Place::Representation => "a representation",
                };
                crate::text::cat4("Invalid param style for `", name.as_str(), "` in ", words)
            },
            Warning::UntypedParam(name) => crate::text::cat3(
                "No type for param `",
                name.as_str(),
                "`",
            ),
        }
    }
}

/// Warnings, by the characters of their texts.
pub open spec fn warnings_view(v: Seq<Warning>) -> Seq<WarningView> {
    v.map_values(|w: Warning| w@)
}

fn push_warning(out: &mut Vec<Warning>, w: Warning)
    ensures
        warnings_view(final(out)@) == warnings_view(old(out)@).push(w@),
{
    assert(warnings_view(out@.push(w)) =~= warnings_view(out@).push(w@));
    out.push(w);
}

/// Whether nothing says which type a parameter has.
pub open spec fn spec_untyped(p: Param) -> bool {
    p.declared_type@.len() == 0 && p.links@.len() == 0 && p.options is None
}

/// The warnings about one parameter in its place: that its style is not meant for the
/// place, and that it has no type.
pub open spec fn spec_param_warnings(p: Param, place: Place) -> Seq<WarningView> {
    (if spec_style_allowed(place, p.style) {
        Seq::<WarningView>::empty()
    } else {
        seq![WarningView::StyleNotAllowed(place, p.name@)]
    }) + (if spec_untyped(p) {
        seq![WarningView::UntypedParam(p.name@)]
    } else {
        Seq::<WarningView>::empty()
    })
}

fn param_warnings(out: &mut Vec<Warning>, p: &Param, place: Place)
    ensures
        warnings_view(final(out)@) == warnings_view(old(out)@) + spec_param_warnings(*p, place),
{
    let ghost start = warnings_view(out@);
    if !style_allowed(place, p.style) {
        push_warning(out, Warning::StyleNotAllowed(place, p.name.clone()));
    }
    if p.declared_type.as_str().is_empty() && p.links.len() == 0 && p.options.is_none() {
        push_warning(out, Warning::UntypedParam(p.name.clone()));
    }
    assert(warnings_view(out@) =~= start + spec_param_warnings(*p, place));
}

/// The warnings about the parameters of a list that stand in one place.
pub open spec fn spec_params_warnings(params: Seq<Param>, place: Place) -> Seq<WarningView>
    decreases params.len(),
{
    if params.len() == 0 {
        Seq::empty()
    } else {
        spec_params_warnings(params.drop_last(), place) + spec_param_warnings(params.last(), place)
    }
}

fn params_warnings(out: &mut Vec<Warning>, params: &Vec<Param>, place: Place)
    ensures
        warnings_view(final(out)@) == warnings_view(old(out)@) + spec_params_warnings(
            params@,
            place,
        ),
{
    let ghost start = warnings_view(out@);
    let mut i: usize = 0;
    assert(start + spec_params_warnings(params@.take(0), place) =~= start);
    while i < params.len()
        invariant
            i <= params.len(),
            warnings_view(out@) == start + spec_params_warnings(params@.take(i as int), place),
        decreases params.len() - i,
    {
        proof {
            let next = params@.take(i + 1);
            assert(next.drop_last() =~= params@.take(i as int));
            assert(next.last() == params@[i as int]);
        }
        let ghost before = spec_params_warnings(params@.take(i as int), place);
        let ghost more = spec_param_warnings(params@[i as int], place);
        param_warnings(out, &params[i], place);
        assert((start + before) + more =~= start + (before + more));
        i = i + 1;
    }
    assert(params@.take(params@.len() as int) =~= params@);
}

/// The warnings about the parameters of a representation: none for a reference.
pub open spec fn spec_representation_warnings(r: Representation) -> Seq<WarningView> {
    match r {
        Representation::Definition(d) => spec_params_warnings(d.params@, Place::Representation),
        Representation::Reference(_) => Seq::empty(),
    }
}

fn representation_warnings(out: &mut Vec<Warning>, r: &Representation)
    ensures
        warnings_view(final(out)@) == warnings_view(old(out)@) + spec_representation_warnings(*r),
{
    match r {
        Representation::Definition(d) => {
            params_warnings(out, &d.params, Place::Representation);
        },
        Representation::Reference(_) => {
            assert(warnings_view(out@) + Seq::<WarningView>::empty() =~= warnings_view(out@));
        },
    }
}

/// The warnings about the representations of a list.
pub open spec fn spec_representations_warnings(items: Seq<Representation>) -> Seq<WarningView>
    decreases items.len(),
{
    if items.len() == 0 {
        Seq::empty()
    } else {
        spec_representations_warnings(items.drop_last()) + spec_representation_warnings(items.last())
    }
}

fn representations_warnings(out: &mut Vec<Warning>, items: &Vec<Representation>)
    ensures
        warnings_view(final(out)@) == warnings_view(old(out)@) + spec_representations_warnings(items@),
{
    let ghost start = warnings_view(out@);
    let mut i: usize = 0;
    assert(start + spec_representations_warnings(items@.take(0)) =~= start);
    while i < items.len()
        invariant
            i <= items.len(),
            warnings_view(out@) == start + spec_representations_warnings(items@.take(i as int)),
        decreases items.len() - i,
    {
        proof {
            let next = items@.take(i + 1);
            assert(next.drop_last() =~= items@.take(i as int));
            assert(next.last() == items@[i as int]);
        }
        let ghost before = spec_representations_warnings(items@.take(i as int));
        let ghost more = spec_representation_warnings(items@[i as int]);
        representation_warnings(out, &items[i]);
        assert((start + before) + more =~= start + (before + more));
        i = i + 1;
    }
    assert(items@.take(items@.len() as int) =~= items@);
}

/// The warnings about a request: about its own parameters, then about those of its
/// representations.
pub open spec fn spec_request_warnings(r: Request) -> Seq<WarningView> {
    spec_params_warnings(r.params@, Place::Request) + spec_representations_warnings(
        r.representations@,
    )
}

/// The warnings about a response: about its own parameters, then about those of its
/// representations.
pub open spec fn spec_response_warnings(r: Response) -> Seq<WarningView> {
    spec_params_warnings(r.params@, Place::Response) + spec_representations_warnings(
        r.representations@,
    )
}

fn response_warnings(out: &mut Vec<Warning>, r: &Response)
    ensures
        warnings_view(final(out)@) == warnings_view(old(out)@) + spec_response_warnings(*r),
{
    let ghost start = warnings_view(out@);
    params_warnings(out, &r.params, Place::Response);
    representations_warnings(out, &r.representations);
    assert(warnings_view(out@) =~= start + spec_response_warnings(*r));
}

/// The warnings about the responses of a list.
pub open spec fn spec_responses_warnings(items: Seq<Response>) -> Seq<WarningView>
    decreases items.len(),
{
    if items.len() == 0 {
        Seq::empty()
    } else {
        spec_responses_warnings(items.drop_last()) + spec_response_warnings(items.last())
    }
}

fn responses_warnings(out: &mut Vec<Warning>, items: &Vec<Response>)
    ensures
        warnings_view(final(out)@) == warnings_view(old(out)@) + spec_responses_warnings(items@),
{
    let ghost start = warnings_view(out@);
    let mut i: usize = 0;
    assert(start + spec_responses_warnings(items@.take(0)) =~= start);
    while i < items.len()
        invariant
            i <= items.len(),
            warnings_view(out@) == start + spec_responses_warnings(items@.take(i as int)),
        decreases items.len() - i,
    {
        proof {
            let next = items@.take(i + 1);
            assert(next.drop_last() =~= items@.take(i as int));
            assert(next.last() == items@[i as int]);
        }
        let ghost before = spec_responses_warnings(items@.take(i as int));
        let ghost more = spec_response_warnings(items@[i as int]);
        response_warnings(out, &items[i]);
        assert((start + before) + more =~= start + (before + more));
        i = i + 1;
    }
    assert(items@.take(items@.len() as int) =~= items@);
}

/// The warnings about a method: about its request, then about its responses.
pub open spec fn spec_method_warnings(m: Method) -> Seq<WarningView> {
    spec_request_warnings(m.request) + spec_responses_warnings(m.responses@)
}

fn method_warnings(out: &mut Vec<Warning>, m: &Method)
    ensures
        warnings_view(final(out)@) == warnings_view(old(out)@) + spec_method_warnings(*m),
{
    let ghost start = warnings_view(out@);
    params_warnings(out, &m.request.params, Place::Request);
    representations_warnings(out, &m.request.representations);
    responses_warnings(out, &m.responses);
    assert(warnings_view(out@) =~= start + spec_method_warnings(*m));
}

/// The warnings about the methods of a list.
pub open spec fn spec_methods_warnings(items: Seq<Method>) -> Seq<WarningView>
    decreases items.len(),
{
    if items.len() == 0 {
        Seq::empty()
    } else {
        spec_methods_warnings(items.drop_last()) + spec_method_warnings(items.last())
    }
}

fn methods_warnings(out: &mut Vec<Warning>, items: &Vec<Method>)
    ensures
        warnings_view(final(out)@) == warnings_view(old(out)@) + spec_methods_warnings(items@),
{
    let ghost start = warnings_view(out@);
    let mut i: usize = 0;
    assert(start + spec_methods_warnings(items@.take(0)) =~= start);
    while i < items.len()
        invariant
            i <= items.len(),
            warnings_view(out@) == start + spec_methods_warnings(items@.take(i as int)),
        decreases items.len() - i,
    {
        proof {
            let next = items@.take(i + 1);
            assert(next.drop_last() =~= items@.take(i as int));
            assert(next.last() == items@[i as int]);
        }
        let ghost before = spec_methods_warnings(items@.take(i as int));
        let ghost more = spec_method_warnings(items@[i as int]);
        method_warnings(out, &items[i]);
        assert((start + before) + more =~= start + (before + more));
        i = i + 1;
    }
    assert(items@.take(items@.len() as int) =~= items@);
}

/// The warnings about a resource: about its own parameters, then about its
/// sub-resources, then about its methods.
pub open spec fn spec_resource_warnings(r: Resource) -> Seq<WarningView>
    decreases r,
{
    spec_params_warnings(r.params@, Place::Resource) + spec_resources_warnings(r.subresources@)
        + spec_methods_warnings(r.methods@)
}

/// The warnings about the resources of a list.
pub open spec fn spec_resources_warnings(rs: Seq<Resource>) -> Seq<WarningView>
    decreases rs,
{
    if rs.len() == 0 {
        Seq::empty()
    } else {
        spec_resources_warnings(rs.drop_last()) + spec_resource_warnings(rs.last())
    }
}

fn resource_warnings(out: &mut Vec<Warning>, r: &Resource)
    ensures
        warnings_view(final(out)@) == warnings_view(old(out)@) + spec_resource_warnings(*r),
    decreases r,
{
    let ghost start = warnings_view(out@);
    params_warnings(out, &r.params, Place::Resource);
    resources_warnings(out, &r.subresources);
    methods_warnings(out, &r.methods);
    assert(warnings_view(out@) =~= start + spec_resource_warnings(*r));
}

fn resources_warnings(out: &mut Vec<Warning>, items: &Vec<Resource>)
    ensures
        warnings_view(final(out)@) == warnings_view(old(out)@) + spec_resources_warnings(items@),
    decreases items,
{
    let ghost start = warnings_view(out@);
    let mut i: usize = 0;
    assert(start + spec_resources_warnings(items@.take(0)) =~= start);
    while i < items.len()
        invariant
            i <= items.len(),
            warnings_view(out@) == start + spec_resources_warnings(items@.take(i as int)),
        decreases items.len() - i,
    {
        proof {
            let next = items@.take(i + 1);
            assert(next.drop_last() =~= items@.take(i as int));
            assert(next.last() == items@[i as int]);
        }
        let ghost before = spec_resources_warnings(items@.take(i as int));
        let ghost more = spec_resource_warnings(items@[i as int]);
        resource_warnings(out, &items[i]);
        assert((start + before) + more =~= start + (before + more));
        i = i + 1;
    }
    assert(items@.take(items@.len() as int) =~= items@);
}

/// The warnings about a group of resources.
pub open spec fn spec_group_warnings(g: Resources) -> Seq<WarningView> {
    spec_resources_warnings(g.resources@)
}

fn group_warnings(out: &mut Vec<Warning>, g: &Resources)
    ensures
        warnings_view(final(out)@) == warnings_view(old(out)@) + spec_group_warnings(*g),
{
    resources_warnings(out, &g.resources);
}

/// The warnings about the groups of resources of a list.
pub open spec fn spec_groups_warnings(items: Seq<Resources>) -> Seq<WarningView>
    decreases items.len(),
{
    if items.len() == 0 {
        Seq::empty()
    } else {
        spec_groups_warnings(items.drop_last()) + spec_group_warnings(items.last())
    }
}

fn groups_warnings(out: &mut Vec<Warning>, items: &Vec<Resources>)
    ensures
        warnings_view(final(out)@) == warnings_view(old(out)@) + spec_groups_warnings(items@),
{
    let ghost start = warnings_view(out@);
    let mut i: usize = 0;
    assert(start + spec_groups_warnings(items@.take(0)) =~= start);
    while i < items.len()
        invariant
            i <= items.len(),
            warnings_view(out@) == start + spec_groups_warnings(items@.take(i as int)),
        decreases items.len() - i,
    {
        proof {
            let next = items@.take(i + 1);
            assert(next.drop_last() =~= items@.take(i as int));
            assert(next.last() == items@[i as int]);
        }
        let ghost before = spec_groups_warnings(items@.take(i as int));
        let ghost more = spec_group_warnings(items@[i as int]);
        group_warnings(out, &items[i]);
        assert((start + before) + more =~= start + (before + more));
        i = i + 1;
    }
    assert(items@.take(items@.len() as int) =~= items@);
}

/// The warnings about a resource type: about its own parameters, then about its
/// sub-resources, then about its methods.
pub open spec fn spec_resource_type_warnings(t: ResourceType) -> Seq<WarningView> {
    spec_params_warnings(t.params@, Place::ResourceType) + spec_resources_warnings(
        t.subresources@,
    ) + spec_methods_warnings(t.methods@)
}

fn resource_type_warnings(out: &mut Vec<Warning>, t: &ResourceType)
    ensures
        warnings_view(final(out)@) == warnings_view(old(out)@) + spec_resource_type_warnings(*t),
{
    let ghost start = warnings_view(out@);
    params_warnings(out, &t.params, Place::ResourceType);
    resources_warnings(out, &t.subresources);
    methods_warnings(out, &t.methods);
    assert(warnings_view(out@) =~= start + spec_resource_type_warnings(*t));
}

/// The warnings about the resource types of a list.
pub open spec fn spec_resource_types_warnings(items: Seq<ResourceType>) -> Seq<WarningView>
    decreases items.len(),
{
    if items.len() == 0 {
        Seq::empty()
    } else {
        spec_resource_types_warnings(items.drop_last()) + spec_resource_type_warnings(items.last())
    }
}

fn resource_types_warnings(out: &mut Vec<Warning>, items: &Vec<ResourceType>)
    ensures
        warnings_view(final(out)@) == warnings_view(old(out)@) + spec_resource_types_warnings(items@),
{
    let ghost start = warnings_view(out@);
    let mut i: usize = 0;
    assert(start + spec_resource_types_warnings(items@.take(0)) =~= start);
    while i < items.len()
        invariant
            i <= items.len(),
            warnings_view(out@) == start + spec_resource_types_warnings(items@.take(i as int)),
        decreases items.len() - i,
    {
        proof {
            let next = items@.take(i + 1);
            assert(next.drop_last() =~= items@.take(i as int));
            assert(next.last() == items@[i as int]);
        }
        let ghost before = spec_resource_types_warnings(items@.take(i as int));
        let ghost more = spec_resource_type_warnings(items@[i as int]);
        resource_type_warnings(out, &items[i]);
        assert((start + before) + more =~= start + (before + more));
        i = i + 1;
    }
    assert(items@.take(items@.len() as int) =~= items@);
}

/// The warnings about a representation at the top of a document.
pub open spec fn spec_definition_warnings(d: RepresentationDef) -> Seq<WarningView> {
    spec_params_warnings(d.params@, Place::Representation)
}

fn definition_warnings(out: &mut Vec<Warning>, d: &RepresentationDef)
    ensures
        warnings_view(final(out)@) == warnings_view(old(out)@) + spec_definition_warnings(*d),
{
    params_warnings(out, &d.params, Place::Representation);
}

/// The warnings about the representations at the top of a document.
pub open spec fn spec_definitions_warnings(items: Seq<RepresentationDef>) -> Seq<WarningView>
    decreases items.len(),
{
    if items.len() == 0 {
        Seq::empty()
    } else {
        spec_definitions_warnings(items.drop_last()) + spec_definition_warnings(items.last())
    }
}

fn definitions_warnings(out: &mut Vec<Warning>, items: &Vec<RepresentationDef>)
    ensures
        warnings_view(final(out)@) == warnings_view(old(out)@) + spec_definitions_warnings(items@),
{
    let ghost start = warnings_view(out@);
    let mut i: usize = 0;
    assert(start + spec_definitions_warnings(items@.take(0)) =~= start);
    while i < items.len()
        invariant
            i <= items.len(),
            warnings_view(out@) == start + spec_definitions_warnings(items@.take(i as int)),
        decreases items.len() - i,
    {
        proof {
            let next = items@.take(i + 1);
            assert(next.drop_last() =~= items@.take(i as int));
            assert(next.last() == items@[i as int]);
        }
        let ghost before = spec_definitions_warnings(items@.take(i as int));
        let ghost more = spec_definition_warnings(items@[i as int]);
        definition_warnings(out, &items[i]);
        assert((start + before) + more =~= start + (before + more));
        i = i + 1;
    }
    assert(items@.take(items@.len() as int) =~= items@);
}

/// The warning about documentation: that its namespace is not known, where it has one
/// that is not that of XHTML.
pub open spec fn spec_doc_warning(d: Doc) -> Seq<WarningView> {
    match d.xmlns {
        Some(ns) => if ns@ == xhtml_namespace() {
            Seq::<WarningView>::empty()
        } else {
            seq![WarningView::UnknownNamespace(ns@)]
        },
        None => Seq::<WarningView>::empty(),
    }
}

/// The warnings about the documentation of a list.
pub open spec fn spec_docs_warnings(docs: Seq<Doc>) -> Seq<WarningView>
    decreases docs.len(),
{
    if docs.len() == 0 {
        Seq::empty()
    } else {
        spec_docs_warnings(docs.drop_last()) + spec_doc_warning(docs.last())
    }
}

fn docs_warnings(out: &mut Vec<Warning>, docs: &Vec<&Doc>)
    ensures
        warnings_view(final(out)@) == warnings_view(old(out)@) + spec_docs_warnings(
            docs_of(docs@),
        ),
{
    let ghost start = warnings_view(out@);
    let ghost all = docs_of(docs@);
    let mut i: usize = 0;
    assert(start + spec_docs_warnings(all.take(0)) =~= start);
    while i < docs.len()
        invariant
            i <= docs.len(),
            all == docs_of(docs@),
            warnings_view(out@) == start + spec_docs_warnings(all.take(i as int)),
        decreases docs.len() - i,
    {
        proof {
            let next = all.take(i + 1);
            assert(next.drop_last() =~= all.take(i as int));
            assert(next.last() == *docs@[i as int]);
        }
        let ghost before = spec_docs_warnings(all.take(i as int));
        let ghost more = spec_doc_warning(*docs@[i as int]);
        let doc: &Doc = docs[i];
        let ghost so_far = warnings_view(out@);
        match &doc.xmlns {
            Some(ns) => {
                if !is_xhtml(doc) {
                    push_warning(out, Warning::UnknownNamespace(String::from_str(ns.as_str())));
                }
            },
            None => {},
        }
        assert(warnings_view(out@) =~= so_far + more);
        assert((start + before) + more =~= start + (before + more));
        i = i + 1;
    }
    assert(all.take(all.len() as int) =~= all);
}

/// The warnings about a document, in this order: about the parameters of its resources,
/// of its resource types and of its representations, each in document order, and about
/// the documentation that the emitter formats.
pub open spec fn spec_warnings(app: Application) -> Seq<WarningView> {
    spec_groups_warnings(app.resources@) + spec_resource_types_warnings(app.resource_types@)
        + spec_definitions_warnings(app.representations@) + spec_docs_warnings(
        spec_emitted_docs(app),
    )
}

/// The warnings about a document. None of them keeps code from being emitted.
pub fn warnings(app: &Application) -> (r: Vec<Warning>)
    ensures
        warnings_view(r@) == spec_warnings(*app),
{
    let mut out: Vec<Warning> = Vec::new();
    assert(warnings_view(out@) =~= Seq::<WarningView>::empty());
    groups_warnings(&mut out, &app.resources);
    resource_types_warnings(&mut out, &app.resource_types);
    definitions_warnings(&mut out, &app.representations);
    let docs = emitted_docs(app);
    docs_warnings(&mut out, &docs);
    assert(warnings_view(out@) =~= spec_warnings(*app));
    out
}

} // verus!
