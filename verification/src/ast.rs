//! The parsed form of a WADL document.
use vstd::prelude::*;
use vstd::string::*;
use crate::iri::IriReference;
use crate::media::MediaType;
use crate::text::{opt_text, str_eq, chars_of, slice_of, string_of, texts};
use crate::url::{url_fragment, url_joined, url_parsed, url_with_fragment, Url, MAX_URL_CHARS};

pub use crate::options::{OptionEntry, Options};

verus! {

/// Identifier for a resource, method, parameter, etc.
pub type Id = String;

/// How a parameter is passed.
#[derive(Debug, PartialEq, Eq, Clone, Copy, Structural)]
pub enum ParamStyle {
    /// A component of the representation.
    Plain,
    /// A matrix component of the URI.
    Matrix,
    /// A query parameter of the URI.
    Query,
    /// An HTTP header.
    Header,
    /// A value substituted into the path of the resource.
    Template,
}

/// A WADL application.
#[derive(Debug)]
pub struct Application {
    /// Resources defined at the application level.
    pub resources: Vec<Resources>,
    /// Resource types defined at the application level.
    pub resource_types: Vec<ResourceType>,
    /// Documentation for the application.
    pub docs: Vec<Doc>,
    /// List of grammars.
    pub grammars: Vec<Grammar>,
    /// Representations defined at the application level.
    pub representations: Vec<RepresentationDef>,
}

/// A collection of resources.
#[derive(Debug)]
pub struct Resources {
    /// The base URL for the resources.
    pub base: Option<Url>,
    /// The resources defined at this level.
    pub resources: Vec<Resource>,
}

/// A grammar that the document includes.
#[derive(Debug)]
pub struct Grammar {
    /// Where the grammar is.
    pub href: IriReference,
}

/// A reference to a resource type.
#[derive(Debug, Clone, PartialEq, Eq)]
pub enum ResourceTypeRef {
    /// A reference to a resource type defined in the same document.
    Id(Id),
    /// A reference to a resource type defined in another document.
    Link(Url),
    /// An empty reference.
    Empty,
}

/// A resource.
#[derive(Debug)]
pub struct Resource {
    /// The ID of the resource.
    pub id: Option<Id>,
    /// The path of the resource.
    pub path: Option<String>,
    /// The types of the resource.
    pub types: Vec<ResourceTypeRef>,
    /// The query type of the resource.
    pub query_type: MediaType,
    /// The methods defined at this level.
    pub methods: Vec<Method>,
    /// The docs for the resource.
    pub docs: Vec<Doc>,
    /// Sub-resources of this resource.
    pub subresources: Vec<Resource>,
    /// The params for this resource.
    pub params: Vec<Param>,
}

/// An HTTP method.
#[derive(Debug, Clone)]
pub struct Method {
    /// Identifier of this method.
    pub id: Id,
    /// The name of the method.
    pub name: String,
    /// The docs for the method.
    pub docs: Vec<Doc>,
    /// The request for the method.
    pub request: Request,
    /// The responses for the method.
    pub responses: Vec<Response>,
}

/// Documentation.
#[derive(Debug, Clone, PartialEq, Eq, Default)]
pub struct Doc {
    /// The title of the documentation.
    pub title: Option<String>,
    /// The language of the documentation.
    pub lang: Option<String>,
    /// The content of the documentation.
    pub content: String,
    /// The namespace of the documentation.
    pub xmlns: Option<Url>,
}

/// A link to another resource.
#[derive(Debug, Clone, PartialEq, Eq)]
pub struct Link {
    /// The resource type of the link.
    pub resource_type: Option<ResourceTypeRef>,
    /// The relationship of the linked resource to the one that holds the link.
    pub relation: Option<String>,
    /// The relationship of the resource that holds the link to the linked one.
    pub reverse_relation: Option<String>,
    /// Optional documentation.
    pub doc: Option<Doc>,
}

/// A parameter.
#[derive(Debug, Clone, PartialEq, Eq)]
pub struct Param {
    /// The style of the parameter.
    pub style: ParamStyle,
    /// The ID of the parameter.
    pub id: Option<Id>,
    /// The name of the parameter.
    pub name: String,
    /// The name of the parameter's type as the document gives it, empty where it gives none.
    pub declared_type: String,
    /// Path of the parameter.
    pub path: Option<String>,
    /// Whether the parameter is required.
    pub required: bool,
    /// Whether the parameter is repeating.
    pub repeating: bool,
    /// The fixed value of the parameter.
    pub fixed: Option<String>,
    /// The documentation for the parameter.
    pub doc: Option<Doc>,
    /// The links for the parameter.
    pub links: Vec<Link>,
    /// The options for the parameter.
    pub options: Option<Options>,
}

/// A representation definition.
#[derive(Debug, Clone, PartialEq, Eq, Default)]
pub struct RepresentationDef {
    /// The ID of the representation.
    pub id: Option<Id>,
    /// The media type of the representation.
    pub media_type: Option<MediaType>,
    /// The element of the representation.
    pub element: Option<String>,
    /// The profile of the representation.
    pub profile: Option<String>,
    /// The documentation for the representation.
    pub docs: Vec<Doc>,
    /// The parameters for the representation.
    pub params: Vec<Param>,
}

/// A reference to a representation.
#[derive(Debug, Clone)]
pub enum RepresentationRef {
    /// A reference to a representation defined in the same document.
    Id(Id),
    /// A reference to a representation defined in another document.
    Link(Url),
}

/// A representation.
#[derive(Debug, Clone)]
pub enum Representation {
    /// A reference to a representation defined elsewhere.
    Reference(RepresentationRef),
    /// A definition of a representation.
    Definition(RepresentationDef),
}

/// A request.
#[derive(Debug, Default, Clone)]
pub struct Request {
    /// The docs for the request.
    pub docs: Vec<Doc>,
    /// The parameters for the request.
    pub params: Vec<Param>,
    /// The representations for the request.
    pub representations: Vec<Representation>,
}

/// A response.
#[derive(Debug, Clone, Default)]
pub struct Response {
    /// The docs for the response.
    pub docs: Vec<Doc>,
    /// The parameters for the response.
    pub params: Vec<Param>,
    /// The status of the response.
    pub status: Option<i32>,
    /// The representations for the response.
    pub representations: Vec<Representation>,
}

/// A resource type.
#[derive(Debug)]
pub struct ResourceType {
    /// The ID of the resource type.
    pub id: Id,
    /// The query type of the resource type.
    pub query_type: MediaType,
    /// The methods defined at this level.
    pub methods: Vec<Method>,
    /// The docs for the resource type.
    pub docs: Vec<Doc>,
    /// The subresources of the resource type.
    pub subresources: Vec<Resource>,
    /// The params for the resource type.
    pub params: Vec<Param>,
}


/// The serialization of a URL that may be absent.
pub open spec fn opt_url(u: Option<Url>) -> Option<Seq<char>> {
    match u {
        Some(u) => Some(u@),
        None => None,
    }
}

/// The values behind a list of references.
pub open spec fn params_of(v: Seq<&Param>) -> Seq<Param> {
    v.map_values(|p: &Param| *p)
}

/// The declared types of a list of parameters.
pub open spec fn declared_types(v: Seq<Param>) -> Seq<Seq<char>> {
    v.map_values(|p: Param| p.declared_type@)
}

/// The first resource type of the given id.
pub open spec fn spec_resource_type_by_id(types: Seq<ResourceType>, id: Seq<char>) -> Option<
    ResourceType,
>
    decreases types.len(),
{
    if types.len() == 0 {
        None
    } else if types[0].id@ == id {
        Some(types[0])
    } else {
        spec_resource_type_by_id(types.skip(1), id)
    }
}

/// The URL of a resource: its path resolved against the base, or read as a URL of its
/// own where there is no base.
pub open spec fn spec_resource_url(path: Option<Seq<char>>, base: Option<Seq<char>>) -> Option<
    Seq<char>,
> {
    match path {
        None => None,
        Some(p) => match base {
            Some(b) => url_joined(b, p),
            None => url_parsed(p),
        },
    }
}

/// The resources of one group, each with its URL.
pub open spec fn spec_group_resources(group: Resources) -> Seq<(Option<Seq<char>>, Resource)> {
    group.resources@.map_values(
        |r: Resource| (spec_resource_url(opt_text(r.path), opt_url(group.base)), r),
    )
}

/// The resources of all groups in document order, each with its URL.
pub open spec fn spec_all_resources(groups: Seq<Resources>) -> Seq<(Option<Seq<char>>, Resource)>
    decreases groups.len(),
{
    if groups.len() == 0 {
        Seq::empty()
    } else {
        spec_all_resources(groups.drop_last()) + spec_group_resources(groups.last())
    }
}

/// The serializations and values behind a list of resources with their URLs.
pub open spec fn resource_rows(v: Seq<(Option<Url>, &Resource)>) -> Seq<(Option<Seq<char>>, Resource)> {
    v.map_values(|p: (Option<Url>, &Resource)| (opt_url(p.0), *p.1))
}

/// The first resource of a list whose URL is the given one.
pub open spec fn spec_resource_by_url(
    resources: Seq<(Option<Seq<char>>, Resource)>,
    href: Seq<char>,
) -> Option<Resource>
    decreases resources.len(),
{
    if resources.len() == 0 {
        None
    } else if resources[0].0 == Some(href) {
        Some(resources[0].1)
    } else {
        spec_resource_by_url(resources.skip(1), href)
    }
}

/// The parameters of a representation: those of a definition, none of a reference.
pub open spec fn spec_representation_params(r: Representation) -> Seq<Param> {
    match r {
        Representation::Reference(_) => Seq::empty(),
        Representation::Definition(d) => d.params@,
    }
}

/// The parameters of the representations of a list, in their order.
pub open spec fn spec_representations_params(rs: Seq<Representation>) -> Seq<Param>
    decreases rs.len(),
{
    if rs.len() == 0 {
        Seq::empty()
    } else {
        spec_representations_params(rs.drop_last()) + spec_representation_params(rs.last())
    }
}

/// The parameters of a request: its own, then those of its representations.
pub open spec fn spec_request_params(r: Request) -> Seq<Param> {
    r.params@ + spec_representations_params(r.representations@)
}

/// The parameters of a response: its own, then those of its representations.
pub open spec fn spec_response_params(r: Response) -> Seq<Param> {
    r.params@ + spec_representations_params(r.representations@)
}

/// The parameters of the responses of a list, in their order.
pub open spec fn spec_responses_params(rs: Seq<Response>) -> Seq<Param>
    decreases rs.len(),
{
    if rs.len() == 0 {
        Seq::empty()
    } else {
        spec_responses_params(rs.drop_last()) + spec_response_params(rs.last())
    }
}

/// The parameters of a method: those of its request, then those of its responses.
pub open spec fn spec_method_params(m: Method) -> Seq<Param> {
    spec_request_params(m.request) + spec_responses_params(m.responses@)
}

/// The parameters of the methods of a list, in their order.
pub open spec fn spec_methods_params(ms: Seq<Method>) -> Seq<Param>
    decreases ms.len(),
{
    if ms.len() == 0 {
        Seq::empty()
    } else {
        spec_methods_params(ms.drop_last()) + spec_method_params(ms.last())
    }
}

/// The parameters of a resource: its own, then those of its sub-resources, then those
/// of its methods.
pub open spec fn spec_resource_params(r: Resource) -> Seq<Param>
    decreases r,
{
    r.params@ + spec_resources_params(r.subresources@) + spec_methods_params(r.methods@)
}

/// The parameters of the resources of a list, in their order.
pub open spec fn spec_resources_params(rs: Seq<Resource>) -> Seq<Param>
    decreases rs,
{
    if rs.len() == 0 {
        Seq::empty()
    } else {
        spec_resources_params(rs.drop_last()) + spec_resource_params(rs.last())
    }
}

/// The parameters of the resources of all groups, in their order.
pub open spec fn spec_groups_params(groups: Seq<Resources>) -> Seq<Param>
    decreases groups.len(),
{
    if groups.len() == 0 {
        Seq::empty()
    } else {
        spec_groups_params(groups.drop_last()) + spec_resources_params(groups.last().resources@)
    }
}

/// The parameters of a resource type: its own, then those of its sub-resources, then
/// those of its methods.
pub open spec fn spec_resource_type_params(t: ResourceType) -> Seq<Param> {
    t.params@ + spec_resources_params(t.subresources@) + spec_methods_params(t.methods@)
}

/// The parameters of the resource types of a list, in their order.
pub open spec fn spec_resource_types_params(ts: Seq<ResourceType>) -> Seq<Param>
    decreases ts.len(),
{
    if ts.len() == 0 {
        Seq::empty()
    } else {
        spec_resource_types_params(ts.drop_last()) + spec_resource_type_params(ts.last())
    }
}

/// The parameters of the definitions of a list, in their order.
pub open spec fn spec_definitions_params(ds: Seq<RepresentationDef>) -> Seq<Param>
    decreases ds.len(),
{
    if ds.len() == 0 {
        Seq::empty()
    } else {
        spec_definitions_params(ds.drop_last()) + ds.last().params@
    }
}

/// All the parameters of a document, in document order: those of the resources, of the
/// resource types, and of the representations at the top.
pub open spec fn spec_application_params(app: Application) -> Seq<Param> {
    spec_groups_params(app.resources@) + spec_resource_types_params(app.resource_types@)
        + spec_definitions_params(app.representations@)
}

/// Appends references to all the parameters of a list.
pub fn push_params<'a>(out: &mut Vec<&'a Param>, params: &'a Vec<Param>)
    ensures
        params_of(final(out)@) == params_of(old(out)@) + params@,
{
    let mut i: usize = 0;
    assert(params_of(out@) + params@.take(0) =~= params_of(out@));
    while i < params.len()
        invariant
            i <= params.len(),
            params_of(out@) == params_of(old(out)@) + params@.take(i as int),
        decreases params.len() - i,
    {
        let ghost before = out@;
        out.push(&params[i]);
        i = i + 1;
        assert(params_of(out@) =~= params_of(before).push(params@[i - 1]));
        assert(params@.take(i as int) =~= params@.take(i - 1).push(params@[i - 1]));
        assert(params_of(out@) =~= params_of(old(out)@) + params@.take(i as int));
    }
    assert(params@.take(params@.len() as int) =~= params@);
}

/// References to all the parameters of a list.
pub fn refs_of(params: &Vec<Param>) -> (r: Vec<&Param>)
    ensures
        params_of(r@) == params@,
{
    let mut out: Vec<&Param> = Vec::new();
    assert(params_of(out@) =~= Seq::<Param>::empty());
    push_params(&mut out, params);
    assert(Seq::<Param>::empty() + params@ =~= params@);
    out
}

/// Appends the references of `more`.
pub fn push_param_refs<'a>(out: &mut Vec<&'a Param>, more: Vec<&'a Param>)
    ensures
        params_of(final(out)@) == params_of(old(out)@) + params_of(more@),
{
    let mut more = more;
    assert(params_of(out@ + more@) =~= params_of(out@) + params_of(more@));
    out.append(&mut more);
}

fn representations_params<'a>(out: &mut Vec<&'a Param>, representations: &'a Vec<Representation>)
    ensures
        params_of(final(out)@) == params_of(old(out)@) + spec_representations_params(
            representations@,
        ),
{
    let mut i: usize = 0;
    assert(params_of(out@) + spec_representations_params(representations@.take(0)) =~= params_of(
        out@,
    ));
    while i < representations.len()
        invariant
            i <= representations.len(),
            params_of(out@) == params_of(old(out)@) + spec_representations_params(
                representations@.take(i as int),
            ),
        decreases representations.len() - i,
    {
        let ghost before = params_of(out@);
        proof {
            let next = representations@.take(i + 1);
            assert(next.drop_last() =~= representations@.take(i as int));
            assert(next.last() == representations@[i as int]);
        }
        match &representations[i] {
            Representation::Reference(_) => {
                assert(before + Seq::<Param>::empty() =~= before);
            },
            Representation::Definition(d) => {
                push_params(out, &d.params);
            },
        }
        i = i + 1;
        assert(params_of(out@) =~= params_of(old(out)@) + spec_representations_params(
            representations@.take(i as int),
        ));
    }
    assert(representations@.take(representations@.len() as int) =~= representations@);
}

impl Request {
    /// All the parameters of the request.
    pub fn iter_all_params(&self) -> (r: Vec<&Param>)
        ensures
            params_of(r@) == spec_request_params(*self),
    {
        let mut out: Vec<&Param> = Vec::new();
        assert(params_of(out@) =~= Seq::<Param>::empty());
        push_params(&mut out, &self.params);
        representations_params(&mut out, &self.representations);
        assert(Seq::<Param>::empty() + self.params@ =~= self.params@);
        out
    }
}

impl Response {
    /// All the parameters of the response.
    pub fn iter_all_params(&self) -> (r: Vec<&Param>)
        ensures
            params_of(r@) == spec_response_params(*self),
    {
        let mut out: Vec<&Param> = Vec::new();
        assert(params_of(out@) =~= Seq::<Param>::empty());
        push_params(&mut out, &self.params);
        representations_params(&mut out, &self.representations);
        assert(Seq::<Param>::empty() + self.params@ =~= self.params@);
        out
    }
}

impl Method {
    /// All the parameters of the method.
    pub fn iter_all_params(&self) -> (r: Vec<&Param>)
        ensures
            params_of(r@) == spec_method_params(*self),
    {
        let mut out = self.request.iter_all_params();
        let mut i: usize = 0;
        assert(params_of(out@) + spec_responses_params(self.responses@.take(0)) =~= params_of(
            out@,
        ));
        while i < self.responses.len()
            invariant
                i <= self.responses.len(),
                params_of(out@) == spec_request_params(self.request) + spec_responses_params(
                    self.responses@.take(i as int),
                ),
            decreases self.responses.len() - i,
        {
            proof {
                let next = self.responses@.take(i + 1);
                assert(next.drop_last() =~= self.responses@.take(i as int));
                assert(next.last() == self.responses@[i as int]);
            }
            let more = self.responses[i].iter_all_params();
            push_param_refs(&mut out, more);
            i = i + 1;
            assert(params_of(out@) =~= spec_request_params(self.request) + spec_responses_params(
                self.responses@.take(i as int),
            ));
        }
        assert(self.responses@.take(self.responses@.len() as int) =~= self.responses@);
        out
    }
}

fn methods_params<'a>(out: &mut Vec<&'a Param>, methods: &'a Vec<Method>)
    ensures
        params_of(final(out)@) == params_of(old(out)@) + spec_methods_params(methods@),
{
    let mut i: usize = 0;
    assert(params_of(out@) + spec_methods_params(methods@.take(0)) =~= params_of(out@));
    while i < methods.len()
        invariant
            i <= methods.len(),
            params_of(out@) == params_of(old(out)@) + spec_methods_params(methods@.take(i as int)),
        decreases methods.len() - i,
    {
        proof {
            let next = methods@.take(i + 1);
            assert(next.drop_last() =~= methods@.take(i as int));
            assert(next.last() == methods@[i as int]);
        }
        let more = methods[i].iter_all_params();
        push_param_refs(out, more);
        i = i + 1;
        assert(params_of(out@) =~= params_of(old(out)@) + spec_methods_params(
            methods@.take(i as int),
        ));
    }
    assert(methods@.take(methods@.len() as int) =~= methods@);
}

fn resources_params<'a>(out: &mut Vec<&'a Param>, resources: &'a Vec<Resource>)
    ensures
        params_of(final(out)@) == params_of(old(out)@) + spec_resources_params(resources@),
    decreases resources,
{
    let mut i: usize = 0;
    assert(params_of(out@) + spec_resources_params(resources@.take(0)) =~= params_of(out@));
    while i < resources.len()
        invariant
            i <= resources.len(),
            params_of(out@) == params_of(old(out)@) + spec_resources_params(
                resources@.take(i as int),
            ),
        decreases resources.len() - i,
    {
        proof {
            let next = resources@.take(i + 1);
            assert(next.drop_last() =~= resources@.take(i as int));
            assert(next.last() == resources@[i as int]);
        }
        let more = resources[i].iter_all_params();
        push_param_refs(out, more);
        i = i + 1;
        assert(params_of(out@) =~= params_of(old(out)@) + spec_resources_params(
            resources@.take(i as int),
        ));
    }
    assert(resources@.take(resources@.len() as int) =~= resources@);
}

impl Resource {
    /// The URL of this resource: its path resolved against the base, or read as a URL of
    /// its own where there is no base. `None` where it has no path or the path does not
    /// resolve.
    pub fn url(&self, base_url: Option<&Url>) -> (r: Option<Url>)
        ensures
            opt_url(r) == spec_resource_url(
                opt_text(self.path),
                match base_url {
                    Some(b) => Some(b@),
                    None => None,
                },
            ),
    {
        match &self.path {
            None => None,
            Some(p) => match base_url {
                Some(b) => match b.join(p.as_str()) {
                    Ok(u) => Some(u),
                    Err(_) => None,
                },
                None => match Url::parse(p.as_str()) {
                    Ok(u) => Some(u),
                    Err(_) => None,
                },
            },
        }
    }

    /// All the parameters defined in this resource.
    pub fn iter_all_params(&self) -> (r: Vec<&Param>)
        ensures
            params_of(r@) == spec_resource_params(*self),
        decreases self,
    {
        let mut out: Vec<&Param> = Vec::new();
        assert(params_of(out@) =~= Seq::<Param>::empty());
        push_params(&mut out, &self.params);
        assert(Seq::<Param>::empty() + self.params@ =~= self.params@);
        resources_params(&mut out, &self.subresources);
        methods_params(&mut out, &self.methods);
        out
    }

    /// The declared types of all the parameters of this resource.
    pub fn iter_referenced_types(&self) -> (r: Vec<String>)
        ensures
            texts(r@) == declared_types(spec_resource_params(*self)),
    {
        let params = self.iter_all_params();
        types_of(&params)
    }
}

/// The declared types of the given parameters.
pub fn types_of(params: &Vec<&Param>) -> (r: Vec<String>)
    ensures
        texts(r@) == declared_types(params_of(params@)),
{
    let mut out: Vec<String> = Vec::new();
    let mut i: usize = 0;
    while i < params.len()
        invariant
            i <= params.len(),
            texts(out@) =~= declared_types(params_of(params@)).take(i as int),
        decreases params.len() - i,
    {
        let t = params[i].declared_type.clone();
        let ghost before = out@;
        out.push(t);
        i = i + 1;
        assert(texts(out@) =~= texts(before).push(t@));
        assert(declared_types(params_of(params@)).take(i as int) =~= declared_types(
            params_of(params@),
        ).take(i - 1).push(t@));
    }
    assert(declared_types(params_of(params@)).take(params@.len() as int) =~= declared_types(
        params_of(params@),
    ));
    out
}

impl ResourceType {
    /// All the parameters defined in this resource type.
    pub fn iter_all_params(&self) -> (r: Vec<&Param>)
        ensures
            params_of(r@) == spec_resource_type_params(*self),
    {
        let mut out: Vec<&Param> = Vec::new();
        assert(params_of(out@) =~= Seq::<Param>::empty());
        push_params(&mut out, &self.params);
        assert(Seq::<Param>::empty() + self.params@ =~= self.params@);
        resources_params(&mut out, &self.subresources);
        methods_params(&mut out, &self.methods);
        out
    }

    /// The declared types of all the parameters of this resource type.
    pub fn iter_referenced_types(&self) -> (r: Vec<String>)
        ensures
            texts(r@) == declared_types(spec_resource_type_params(*self)),
    {
        let params = self.iter_all_params();
        types_of(&params)
    }
}


/// What names the referenced item: the id itself, or the fragment of the link.
pub open spec fn spec_ref_id(r: ResourceTypeRef) -> Option<Seq<char>> {
    match r {
        ResourceTypeRef::Id(id) => Some(id@),
        ResourceTypeRef::Link(l) => url_fragment(l@),
        ResourceTypeRef::Empty => None,
    }
}

impl ResourceTypeRef {
    /// The id of the referenced resource type.
    pub fn id(&self) -> (r: Option<String>)
        ensures
            opt_text(r) == spec_ref_id(*self),
    {
        match self {
            ResourceTypeRef::Id(id) => Some(id.clone()),
            ResourceTypeRef::Link(l) => l.fragment(),
            ResourceTypeRef::Empty => None,
        }
    }

    /// Reads a reference to a resource type: empty, `#` and an id, or a URL.
    pub fn parse(s: &str) -> (r: Result<ResourceTypeRef, url::ParseError>)
        ensures
            match r {
                Ok(ResourceTypeRef::Empty) => s@.len() == 0,
                Ok(ResourceTypeRef::Id(id)) => s@.len() > 0 && s@[0] == '#' && id@ == s@.skip(1),
                Ok(ResourceTypeRef::Link(l)) => s@.len() > 0 && s@[0] != '#' && url_parsed(s@)
                    == Some(l@),
                Err(_) => s@.len() > 0 && s@[0] != '#' && url_parsed(s@) is None,
            },
    {
        let chars = chars_of(s);
        if chars.len() == 0 {
            Ok(ResourceTypeRef::Empty)
        } else if chars[0] == '#' {
            let rest = slice_of(&chars, 1, chars.len());
            assert(rest@ =~= s@.skip(1));
            Ok(ResourceTypeRef::Id(string_of(&rest)))
        } else {
            match Url::parse(s) {
                Ok(u) => Ok(ResourceTypeRef::Link(u)),
                Err(e) => Err(e),
            }
        }
    }
}

/// What names the referenced representation.
pub open spec fn spec_representation_ref_id(r: RepresentationRef) -> Option<Seq<char>> {
    match r {
        RepresentationRef::Id(id) => Some(id@),
        RepresentationRef::Link(l) => url_fragment(l@),
    }
}

impl RepresentationRef {
    /// The id of the referenced representation.
    pub fn id(&self) -> (r: Option<String>)
        ensures
            opt_text(r) == spec_representation_ref_id(*self),
    {
        match self {
            RepresentationRef::Id(id) => Some(id.clone()),
            RepresentationRef::Link(l) => l.fragment(),
        }
    }
}

/// The URL of a definition against a base: the base with the definition's id as its
/// fragment, nothing where the definition has no id.
pub open spec fn spec_definition_url(id: Option<Seq<char>>, base: Seq<char>) -> Option<Seq<char>> {
    match id {
        Some(id) => Some(url_with_fragment(base, id)),
        None => None,
    }
}

/// The URL of a representation against a base: a link as it is, an id as the fragment
/// of the base, a definition by its id.
pub open spec fn spec_representation_url(r: Representation, base: Seq<char>) -> Option<Seq<char>> {
    match r {
        Representation::Reference(RepresentationRef::Id(id)) => Some(
            url_with_fragment(base, id@),
        ),
        Representation::Reference(RepresentationRef::Link(l)) => Some(l@),
        Representation::Definition(d) => spec_definition_url(opt_text(d.id), base),
    }
}

/// A reference by id and a definition of that id resolve to the same URL against the
/// same base.
pub proof fn lemma_reference_and_definition_share_url(id: String, d: RepresentationDef, base: Seq<char>)
    requires
        opt_text(d.id) == Some(id@),
    ensures
        spec_representation_url(Representation::Reference(RepresentationRef::Id(id)), base)
            == spec_representation_url(Representation::Definition(d), base),
        spec_representation_url(Representation::Definition(d), base) == Some(
            url_with_fragment(base, id@),
        ),
{
}

impl RepresentationDef {
    /// The URL of this representation against a base.
    pub fn url(&self, base_url: &Url) -> (r: Option<Url>)
        requires
            base_url@.len() <= MAX_URL_CHARS,
        ensures
            opt_url(r) == spec_definition_url(opt_text(self.id), base_url@),
    {
        match &self.id {
            Some(id) => Some(base_url.with_fragment(id.as_str())),
            None => None,
        }
    }

    /// The parameters of this representation.
    pub fn iter_all_params(&self) -> (r: Vec<&Param>)
        ensures
            params_of(r@) == self.params@,
    {
        let mut out: Vec<&Param> = Vec::new();
        assert(params_of(out@) =~= Seq::<Param>::empty());
        push_params(&mut out, &self.params);
        assert(Seq::<Param>::empty() + self.params@ =~= self.params@);
        out
    }
}

impl Representation {
    /// The media type of this representation: that of a definition, none of a reference.
    pub fn media_type(&self) -> (r: Option<&MediaType>)
        ensures
            match self {
                Representation::Reference(_) => r is None,
                Representation::Definition(d) => match r {
                    Some(m) => d.media_type == Some(*m),
                    None => d.media_type is None,
                },
            },
    {
        match self {
            Representation::Reference(_) => None,
            Representation::Definition(d) => d.media_type.as_ref(),
        }
    }

    /// The URL of this representation against a base.
    pub fn url(&self, base_url: &Url) -> (r: Option<Url>)
        requires
            base_url@.len() <= MAX_URL_CHARS,
        ensures
            opt_url(r) == spec_representation_url(*self, base_url@),
    {
        match self {
            Representation::Reference(RepresentationRef::Id(id)) => Some(
                base_url.with_fragment(id.as_str()),
            ),
            Representation::Reference(RepresentationRef::Link(l)) => Some(l.clone()),
            Representation::Definition(d) => d.url(base_url),
        }
    }

    /// The definition, where this is one.
    pub fn as_def(&self) -> (r: Option<&RepresentationDef>)
        ensures
            match self {
                Representation::Reference(_) => r is None,
                Representation::Definition(d) => r == Some(d),
            },
    {
        match self {
            Representation::Reference(_) => None,
            Representation::Definition(d) => Some(d),
        }
    }

    /// The parameters of this representation.
    pub fn iter_all_params(&self) -> (r: Vec<&Param>)
        ensures
            params_of(r@) == spec_representation_params(*self),
    {
        match self {
            Representation::Reference(_) => {
                let out: Vec<&Param> = Vec::new();
                assert(params_of(out@) =~= Seq::<Param>::empty());
                out
            },
            Representation::Definition(d) => d.iter_all_params(),
        }
    }
}

impl Doc {
    /// Documentation with the given content and nothing else.
    pub fn new(content: String) -> (r: Self)
        ensures
            r.content == content,
            r.title is None,
            r.lang is None,
            r.xmlns is None,
    {
        Doc { title: None, lang: None, content, xmlns: None }
    }
}

impl Application {
    /// The first resource type of the given id.
    pub fn get_resource_type_by_id(&self, id: &str) -> (r: Option<&ResourceType>)
        ensures
            match r {
                Some(t) => spec_resource_type_by_id(self.resource_types@, id@) == Some(*t),
                None => spec_resource_type_by_id(self.resource_types@, id@) is None,
            },
    {
        let mut i: usize = 0;
        assert(self.resource_types@.skip(0) =~= self.resource_types@);
        while i < self.resource_types.len()
            invariant
                i <= self.resource_types.len(),
                spec_resource_type_by_id(self.resource_types@, id@) == spec_resource_type_by_id(
                    self.resource_types@.skip(i as int),
                    id@,
                ),
            decreases self.resource_types.len() - i,
        {
            if str_eq(self.resource_types[i].id.as_str(), id) {
                return Some(&self.resource_types[i]);
            }
            assert(self.resource_types@.skip(i as int).skip(1) =~= self.resource_types@.skip(
                i + 1,
            ));
            i = i + 1;
        }
        None
    }

    /// The resource type that the fragment of a URL names.
    pub fn get_resource_type_by_href(&self, href: &Url) -> (r: Option<&ResourceType>)
        ensures
            match url_fragment(href@) {
                Some(f) => match r {
                    Some(t) => spec_resource_type_by_id(self.resource_types@, f) == Some(*t),
                    None => spec_resource_type_by_id(self.resource_types@, f) is None,
                },
                None => r is None,
            },
    {
        match href.fragment() {
            Some(f) => self.get_resource_type_by_id(f.as_str()),
            None => None,
        }
    }

    /// The resources of all groups in document order, each with its URL.
    pub fn iter_resources(&self) -> (r: Vec<(Option<Url>, &Resource)>)
        ensures
            resource_rows(r@)
                == spec_all_resources(self.resources@),
    {
        let mut out: Vec<(Option<Url>, &Resource)> = Vec::new();
        let mut g: usize = 0;
        while g < self.resources.len()
            invariant
                g <= self.resources.len(),
                resource_rows(out@)
                    =~= spec_all_resources(self.resources@.take(g as int)),
            decreases self.resources.len() - g,
        {
            let group = &self.resources[g];
            let ghost done = resource_rows(out@);
            proof {
                let next = self.resources@.take(g + 1);
                assert(next.drop_last() =~= self.resources@.take(g as int));
                assert(next.last() == *group);
            }
            let mut i: usize = 0;
            while i < group.resources.len()
                invariant
                    i <= group.resources.len(),
                    resource_rows(out@) =~= done
                        + spec_group_resources(*group).take(i as int),
                decreases group.resources.len() - i,
            {
                let resource = &group.resources[i];
                let url = resource.url(group.base.as_ref());
                let ghost before = resource_rows(out@);
                let ghost row = (opt_url(url), *resource);
                assert(spec_group_resources(*group)[i as int] == row);
                out.push((url, resource));
                i = i + 1;
                assert(resource_rows(out@) =~= before.push(row));
                assert(spec_group_resources(*group).take(i as int) =~= spec_group_resources(
                    *group,
                ).take(i - 1).push(row));
            }
            assert(spec_group_resources(*group).take(group.resources@.len() as int)
                =~= spec_group_resources(*group));
            g = g + 1;
        }
        assert(self.resources@.take(self.resources@.len() as int) =~= self.resources@);
        out
    }

    /// The first resource whose URL is the given one.
    pub fn get_resource_by_href(&self, href: &Url) -> (r: Option<&Resource>)
        ensures
            match r {
                Some(x) => spec_resource_by_url(spec_all_resources(self.resources@), href@)
                    == Some(*x),
                None => spec_resource_by_url(spec_all_resources(self.resources@), href@) is None,
            },
    {
        let all = self.iter_resources();
        let ghost view = resource_rows(all@);
        let mut i: usize = 0;
        assert(view.skip(0) =~= view);
        while i < all.len()
            invariant
                i <= all.len(),
                view == resource_rows(all@),
                view == spec_all_resources(self.resources@),
                spec_resource_by_url(view, href@) == spec_resource_by_url(
                    view.skip(i as int),
                    href@,
                ),
            decreases all.len() - i,
        {
            assert(view.skip(i as int)[0] == view[i as int]);
            assert(view[i as int] == (opt_url(all@[i as int].0), *all@[i as int].1));
            let hit = match &all[i].0 {
                Some(u) => str_eq(u.as_str(), href.as_str()),
                None => false,
            };
            if hit {
                return Some(all[i].1);
            }
            assert(view.skip(i as int).skip(1) =~= view.skip(i + 1));
            i = i + 1;
        }
        None
    }

    /// All the parameters of the document, in document order.
    pub fn iter_all_params(&self) -> (r: Vec<&Param>)
        ensures
            params_of(r@) == spec_application_params(*self),
    {
        let mut out: Vec<&Param> = Vec::new();
        assert(params_of(out@) =~= Seq::<Param>::empty());
        let mut g: usize = 0;
        while g < self.resources.len()
            invariant
                g <= self.resources.len(),
                params_of(out@) =~= spec_groups_params(self.resources@.take(g as int)),
            decreases self.resources.len() - g,
        {
            proof {
                let next = self.resources@.take(g + 1);
                assert(next.drop_last() =~= self.resources@.take(g as int));
                assert(next.last() == self.resources@[g as int]);
            }
            resources_params(&mut out, &self.resources[g].resources);
            g = g + 1;
        }
        assert(self.resources@.take(self.resources@.len() as int) =~= self.resources@);
        let ghost first = params_of(out@);
        let mut t: usize = 0;
        assert(first + spec_resource_types_params(self.resource_types@.take(0)) =~= first);
        while t < self.resource_types.len()
            invariant
                t <= self.resource_types.len(),
                params_of(out@) == first + spec_resource_types_params(
                    self.resource_types@.take(t as int),
                ),
            decreases self.resource_types.len() - t,
        {
            proof {
                let next = self.resource_types@.take(t + 1);
                assert(next.drop_last() =~= self.resource_types@.take(t as int));
                assert(next.last() == self.resource_types@[t as int]);
            }
            let more = self.resource_types[t].iter_all_params();
            push_param_refs(&mut out, more);
            t = t + 1;
            assert(params_of(out@) =~= first + spec_resource_types_params(
                self.resource_types@.take(t as int),
            ));
        }
        assert(self.resource_types@.take(self.resource_types@.len() as int)
            =~= self.resource_types@);
        let ghost second = params_of(out@);
        let mut d: usize = 0;
        assert(second + spec_definitions_params(self.representations@.take(0)) =~= second);
        while d < self.representations.len()
            invariant
                d <= self.representations.len(),
                params_of(out@) == second + spec_definitions_params(
                    self.representations@.take(d as int),
                ),
            decreases self.representations.len() - d,
        {
            proof {
                let next = self.representations@.take(d + 1);
                assert(next.drop_last() =~= self.representations@.take(d as int));
                assert(next.last() == self.representations@[d as int]);
            }
            push_params(&mut out, &self.representations[d].params);
            d = d + 1;
            assert(params_of(out@) =~= second + spec_definitions_params(
                self.representations@.take(d as int),
            ));
        }
        assert(self.representations@.take(self.representations@.len() as int)
            =~= self.representations@);
        out
    }

    /// The declared types of the parameters of the resources and of the resource types.
    pub fn iter_referenced_types(&self) -> (r: Vec<String>)
        ensures
            texts(r@) == declared_types(
                spec_groups_params(self.resources@) + spec_resource_types_params(
                    self.resource_types@,
                ),
            ),
    {
        let mut out: Vec<&Param> = Vec::new();
        assert(params_of(out@) =~= Seq::<Param>::empty());
        let mut g: usize = 0;
        while g < self.resources.len()
            invariant
                g <= self.resources.len(),
                params_of(out@) =~= spec_groups_params(self.resources@.take(g as int)),
            decreases self.resources.len() - g,
        {
            proof {
                let next = self.resources@.take(g + 1);
                assert(next.drop_last() =~= self.resources@.take(g as int));
                assert(next.last() == self.resources@[g as int]);
            }
            resources_params(&mut out, &self.resources[g].resources);
            g = g + 1;
        }
        assert(self.resources@.take(self.resources@.len() as int) =~= self.resources@);
        let ghost first = params_of(out@);
        let mut t: usize = 0;
        assert(first + spec_resource_types_params(self.resource_types@.take(0)) =~= first);
        while t < self.resource_types.len()
            invariant
                t <= self.resource_types.len(),
                params_of(out@) == first + spec_resource_types_params(
                    self.resource_types@.take(t as int),
                ),
            decreases self.resource_types.len() - t,
        {
            proof {
                let next = self.resource_types@.take(t + 1);
                assert(next.drop_last() =~= self.resource_types@.take(t as int));
                assert(next.last() == self.resource_types@[t as int]);
            }
            let more = self.resource_types[t].iter_all_params();
            push_param_refs(&mut out, more);
            t = t + 1;
            assert(params_of(out@) =~= first + spec_resource_types_params(
                self.resource_types@.take(t as int),
            ));
        }
        assert(self.resource_types@.take(self.resource_types@.len() as int)
            =~= self.resource_types@);
        types_of(&out)
    }
}


impl std::str::FromStr for ResourceTypeRef {
    type Err = String;

    /// Reads a reference to a resource type: empty, `#` and an id, or a URL. A text that
    /// is none of these gives the words of the URL parser.
    fn from_str(s: &str) -> (r: Result<Self, String>)
        ensures
            match r {
                Ok(ResourceTypeRef::Empty) => s@.len() == 0,
                Ok(ResourceTypeRef::Id(id)) => s@.len() > 0 && s@[0] == '#' && id@ == s@.skip(1),
                Ok(ResourceTypeRef::Link(l)) => s@.len() > 0 && s@[0] != '#' && url_parsed(s@)
                    == Some(l@),
                Err(_) => s@.len() > 0 && s@[0] != '#' && url_parsed(s@) is None,
            },
    {
        match ResourceTypeRef::parse(s) {
            Ok(t) => Ok(t),
            Err(e) => Err(crate::url::error_text(&e)),
        }
    }
}

/// What says which type a parameter has.
#[derive(Debug, Clone, PartialEq, Eq)]
pub enum TypeRef {
    /// The name of a scalar type.
    Simple(String),
    /// A link to a resource of some type.
    ResourceType(ResourceTypeRef),
    /// A set of permitted values.
    Options(Options),
    /// Nothing.
    NoType,
}

impl Param {
    /// What says which type this parameter has: the declared type where it is not empty;
    /// else the resource type of the first link, empty where the link names none; else the
    /// options; else nothing.
    pub fn type_ref(&self) -> (r: TypeRef)
        ensures
            match r {
                TypeRef::Simple(t) => self.declared_type@.len() > 0 && t@ == self.declared_type@,
                TypeRef::ResourceType(t) => self.declared_type@.len() == 0 && self.links@.len() > 0
                    && t@ == (match self.links@[0].resource_type {
                    Some(x) => x@,
                    None => crate::model::TypeRefView::Empty,
                }),
                TypeRef::Options(o) => self.declared_type@.len() == 0 && self.links@.len() == 0
                    && self.options is Some && o@ == self.options->0@ && o.spec_keys()
                    == self.options->0.spec_keys(),
                TypeRef::NoType => self.declared_type@.len() == 0 && self.links@.len() == 0
                    && self.options is None,
            },
    {
        if !self.declared_type.as_str().is_empty() {
            TypeRef::Simple(self.declared_type.clone())
        } else if self.links.len() > 0 {
            match &self.links[0].resource_type {
                Some(t) => TypeRef::ResourceType(clone_type_ref(t)),
                None => TypeRef::ResourceType(ResourceTypeRef::Empty),
            }
        } else {
            match &self.options {
                Some(o) => TypeRef::Options(o.clone()),
                None => TypeRef::NoType,
            }
        }
    }
}

/// A copy of a reference to a resource type.
pub fn clone_type_ref(t: &ResourceTypeRef) -> (r: ResourceTypeRef)
    ensures
        r@ == t@,
{
    match t {
        ResourceTypeRef::Id(id) => ResourceTypeRef::Id(id.clone()),
        ResourceTypeRef::Link(l) => ResourceTypeRef::Link(l.clone()),
        ResourceTypeRef::Empty => ResourceTypeRef::Empty,
    }
}

impl std::str::FromStr for Application {
    type Err = crate::parse::Error;

    /// Reads a WADL document from its text.
    fn from_str(s: &str) -> (r: Result<Self, crate::parse::Error>)
        ensures
            match r {
                Ok(app) => Ok(app@),
                Err(e) => Err(e.kind()),
            } == crate::parse::spec_parse(s.spec_bytes()),
    {
        crate::parse::parse_string(s)
    }
}


/// The serializations and values of a list of resources with their URLs.
pub open spec fn owned_rows(v: Seq<(Option<Url>, Resource)>) -> Seq<(Option<Seq<char>>, Resource)> {
    v.map_values(|p: (Option<Url>, Resource)| (opt_url(p.0), p.1))
}

/// The resources of all groups are those of the first group, then those of the others.
pub proof fn lemma_all_resources_front(groups: Seq<Resources>)
    requires
        groups.len() > 0,
    ensures
        spec_all_resources(groups) == spec_group_resources(groups[0]) + spec_all_resources(
            groups.skip(1),
        ),
    decreases groups.len(),
{
    if groups.len() == 1 {
        assert(groups.drop_last() =~= Seq::<Resources>::empty());
        assert(groups.skip(1) =~= Seq::<Resources>::empty());
        assert(spec_all_resources(Seq::<Resources>::empty()) =~= Seq::empty());
        assert(spec_all_resources(groups) =~= spec_group_resources(groups[0]));
        assert(spec_group_resources(groups[0]) + Seq::empty() =~= spec_group_resources(groups[0]));
    } else {
        lemma_all_resources_front(groups.drop_last());
        assert(groups.drop_last()[0] == groups[0]);
        assert(groups.drop_last().skip(1) =~= groups.skip(1).drop_last());
        assert(groups.skip(1).last() == groups.last());
        assert((spec_group_resources(groups[0]) + spec_all_resources(groups.skip(1).drop_last()))
            + spec_group_resources(groups.last()) =~= spec_group_resources(groups[0]) + (
        spec_all_resources(groups.skip(1).drop_last()) + spec_group_resources(groups.last())));
    }
}

impl Application {
    /// The resources of all groups in document order, each with its URL, taken out of
    /// the document.
    pub fn into_resources(self) -> (r: Vec<(Option<Url>, Resource)>)
        ensures
            owned_rows(r@) == spec_all_resources(self.resources@),
    {
        let mut groups = self.resources;
        let ghost all = spec_all_resources(groups@);
        let mut out: Vec<(Option<Url>, Resource)> = Vec::new();
        assert(owned_rows(out@) + all =~= all);
        while groups.len() > 0
            invariant
                owned_rows(out@) + spec_all_resources(groups@) == all,
            decreases groups.len(),
        {
            proof {
                lemma_all_resources_front(groups@);
            }
            let ghost before = groups@;
            let group = groups.remove(0);
            assert(groups@ =~= before.skip(1));
            let ghost rows = spec_group_resources(group);
            let ghost done = owned_rows(out@);
            let ghost later = spec_all_resources(groups@);
            let base = group.base;
            let mut resources = group.resources;
            let ghost whole = resources@;
            let ghost mut taken: int = 0;
            assert(rows.take(0) =~= Seq::empty());
            assert(done + Seq::empty() =~= done);
            assert(whole.skip(0) =~= whole);
            while resources.len() > 0
                invariant
                    taken + resources@.len() == whole.len(),
                    resources@ == whole.skip(taken),
                    0 <= taken <= whole.len(),
                    rows.len() == whole.len(),
                    forall|j: int|
                        0 <= j < whole.len() ==> (#[trigger] rows[j]) == (
                            spec_resource_url(opt_text(whole[j].path), opt_url(base)),
                            whole[j],
                        ),
                    owned_rows(out@) == done + rows.take(taken),
                decreases resources.len(),
            {
                let ghost remaining = resources@;
                let resource = resources.remove(0);
                assert(resource == whole[taken]);
                assert(resources@ =~= whole.skip(taken + 1));
                let url = resource.url(base.as_ref());
                let ghost row = (opt_url(url), resource);
                assert(row == rows[taken]);
                let ghost so_far = owned_rows(out@);
                out.push((url, resource));
                proof {
                    taken = taken + 1;
                }
                assert(owned_rows(out@) =~= so_far.push(row));
                assert(rows.take(taken) =~= rows.take(taken - 1).push(row));
                assert(owned_rows(out@) =~= done + rows.take(taken));
            }
            assert(rows.take(rows.len() as int) =~= rows);
            assert((done + rows) + later =~= done + (rows + later));
        }
        assert(spec_all_resources(groups@) =~= Seq::empty());
        assert(owned_rows(out@) + Seq::empty() =~= owned_rows(out@));
        out
    }

    /// The first resource whose URL is the given one, taken out of the document.
    pub fn into_resource_by_href(self, href: &Url) -> (r: Option<Resource>)
        ensures
            r == spec_resource_by_url(spec_all_resources(self.resources@), href@),
    {
        let mut all = self.into_resources();
        let ghost view = owned_rows(all@);
        let mut i: usize = 0;
        assert(view.skip(0) =~= view);
        while i < all.len()
            invariant
                i <= all.len(),
                view == owned_rows(all@),
                view == spec_all_resources(self.resources@),
                spec_resource_by_url(view, href@) == spec_resource_by_url(
                    view.skip(i as int),
                    href@,
                ),
            decreases all.len() - i,
        {
            assert(view.skip(i as int)[0] == view[i as int]);
            assert(view[i as int] == (opt_url(all@[i as int].0), all@[i as int].1));
            let hit = match &all[i].0 {
                Some(u) => str_eq(u.as_str(), href.as_str()),
                None => false,
            };
            if hit {
                let found = all.remove(i);
                return Some(found.1);
            }
            assert(view.skip(i as int).skip(1) =~= view.skip(i + 1));
            i = i + 1;
        }
        None
    }
}


/// The ids of a list of resource types.
pub open spec fn resource_type_ids(types: Seq<ResourceType>) -> Seq<Seq<char>> {
    types.map_values(|t: ResourceType| t.id@)
}

/// No two representations of a list have the same id.
pub open spec fn representation_ids_differ(defs: Seq<RepresentationDef>) -> bool {
    forall|i: int, j: int|
        0 <= i < j < defs.len() && (#[trigger] defs[i]).id is Some && (#[trigger] defs[j]).id is Some
            ==> defs[i].id->0@ != defs[j].id->0@
}

impl Application {
    /// The ids of the document name one item each: no two resource types have the same
    /// id, and no two representations.
    pub open spec fn wf(&self) -> bool {
        &&& resource_type_ids(self.resource_types@).no_duplicates()
        &&& representation_ids_differ(self.representations@)
    }

    /// Whether the ids of the document name one item each.
    pub fn has_unique_ids(&self) -> (r: bool)
        ensures
            r == self.wf(),
    {
        let ghost ids = resource_type_ids(self.resource_types@);
        let mut j: usize = 0;
        while j < self.resource_types.len()
            invariant
                j <= self.resource_types.len(),
                ids == resource_type_ids(self.resource_types@),
                forall|a: int, b: int| 0 <= a < b < j ==> ids[a] != ids[b],
            decreases self.resource_types.len() - j,
        {
            let mut i: usize = 0;
            while i < j
                invariant
                    i <= j < self.resource_types.len(),
                    ids == resource_type_ids(self.resource_types@),
                    forall|a: int| 0 <= a < i ==> ids[a] != ids[j as int],
                decreases j - i,
            {
                if str_eq(self.resource_types[i].id.as_str(), self.resource_types[j].id.as_str()) {
                    assert(ids[i as int] == ids[j as int]);
                    return false;
                }
                i = i + 1;
            }
            j = j + 1;
        }
        assert(ids.no_duplicates()) by {
            assert forall|a: int, b: int|
                0 <= a < ids.len() && 0 <= b < ids.len() && a != b implies ids[a] != ids[b] by {
                if a < b {
                } else {
                    assert(ids[b] != ids[a]);
                }
            }
        }
        let defs = &self.representations;
        let mut k: usize = 0;
        while k < defs.len()
            invariant
                k <= defs.len(),
                defs == &self.representations,
                forall|a: int, b: int|
                    0 <= a < b < k && (#[trigger] defs@[a]).id is Some && (#[trigger] defs@[b]).id is Some
                        ==> defs@[a].id->0@ != defs@[b].id->0@,
            decreases defs.len() - k,
        {
            match &defs[k].id {
                None => {},
                Some(id) => {
                    let mut i: usize = 0;
                    while i < k
                        invariant
                            i <= k < defs.len(),
                            defs == &self.representations,
                            defs@[k as int].id == Some(*id),
                            forall|a: int|
                                0 <= a < i && (#[trigger] defs@[a]).id is Some ==> defs@[a].id->0@
                                    != id@,
                        decreases k - i,
                    {
                        let same = match &defs[i].id {
                            Some(other) => str_eq(other.as_str(), id.as_str()),
                            None => false,
                        };
                        if same {
                            assert(defs@[i as int].id is Some && defs@[k as int].id is Some
                                && defs@[i as int].id->0@ == defs@[k as int].id->0@);
                            return false;
                        }
                        i = i + 1;
                    }
                },
            }
            k = k + 1;
        }
        true
    }
}

/// In a document whose ids name one item each, the resource type that is found for an
/// id is the only one of that id.
pub proof fn lemma_resource_type_is_the_only_one(app: Application, id: Seq<char>, i: int)
    requires
        app.wf(),
        0 <= i < app.resource_types@.len(),
        app.resource_types@[i].id@ == id,
    ensures
        spec_resource_type_by_id(app.resource_types@, id) == Some(app.resource_types@[i]),
{
    lemma_first_resource_type(app.resource_types@, id);
    let found = spec_resource_type_by_id(app.resource_types@, id);
    let ids = resource_type_ids(app.resource_types@);
    assert(ids[i] == id);
    let k = choose|k: int|
        0 <= k < app.resource_types@.len() && found == Some(app.resource_types@[k])
            && app.resource_types@[k].id@ == id;
    assert(ids[k] == id);
}

/// What is found for an id is a resource type of that id, and nothing is found only
/// where there is none.
pub proof fn lemma_first_resource_type(types: Seq<ResourceType>, id: Seq<char>)
    ensures
        match spec_resource_type_by_id(types, id) {
            Some(t) => exists|k: int|
                0 <= k < types.len() && spec_resource_type_by_id(types, id) == Some(
                    #[trigger] types[k],
                ) && types[k].id@ == id,
            None => forall|k: int| 0 <= k < types.len() ==> (#[trigger] types[k]).id@ != id,
        },
    decreases types.len(),
{
    if types.len() > 0 {
        if types[0].id@ == id {
            assert(spec_resource_type_by_id(types, id) == Some(types[0]));
        } else {
            lemma_first_resource_type(types.skip(1), id);
            match spec_resource_type_by_id(types.skip(1), id) {
                Some(t) => {
                    let k = choose|k: int|
                        0 <= k < types.skip(1).len() && spec_resource_type_by_id(
                            types.skip(1),
                            id,
                        ) == Some(#[trigger] types.skip(1)[k]) && types.skip(1)[k].id@ == id;
                    assert(types[k + 1] == types.skip(1)[k]);
                },
                None => {
                    assert forall|k: int| 0 <= k < types.len() implies (#[trigger] types[k]).id@
                        != id by {
                        if k > 0 {
                            assert(types[k] == types.skip(1)[k - 1]);
                        }
                    }
                },
            }
        }
    }
}

} // verus!
