//! The parsed form of a document as plain mathematical values.
use vstd::prelude::*;
use vstd::string::*;
use crate::ast::{
    opt_url, Application, Doc, Grammar, Link, Method, Param, ParamStyle, Representation,
    RepresentationDef, RepresentationRef, Request, Resource, ResourceType, ResourceTypeRef,
    Resources, Response,
};
use crate::media::media_text;
use crate::options::Options;
use crate::text::opt_text;

verus! {

/// Documentation, by the characters of its texts.
pub struct DocView {
    pub title: Option<Seq<char>>,
    pub lang: Option<Seq<char>>,
    pub content: Seq<char>,
    pub xmlns: Option<Seq<char>>,
}

/// A reference to a resource type, by the characters of its texts.
pub enum TypeRefView {
    Id(Seq<char>),
    Link(Seq<char>),
    Empty,
}

/// A link, by the characters of its texts.
pub struct LinkView {
    pub resource_type: Option<TypeRefView>,
    pub relation: Option<Seq<char>>,
    pub reverse_relation: Option<Seq<char>>,
    pub doc: Option<DocView>,
}

/// A set of options: its values in the order of first insertion, and the media type of each.
pub struct OptionsView {
    pub keys: Seq<Seq<char>>,
    pub map: Map<Seq<char>, Option<Seq<char>>>,
}

/// A parameter, by the characters of its texts.
pub struct ParamView {
    pub style: ParamStyle,
    pub id: Option<Seq<char>>,
    pub name: Seq<char>,
    pub declared_type: Seq<char>,
    pub path: Option<Seq<char>>,
    pub required: bool,
    pub repeating: bool,
    pub fixed: Option<Seq<char>>,
    pub doc: Option<DocView>,
    pub links: Seq<LinkView>,
    pub options: Option<OptionsView>,
}

/// A definition of a representation, by the characters of its texts.
pub struct RepresentationDefView {
    pub id: Option<Seq<char>>,
    pub media_type: Option<Seq<char>>,
    pub element: Option<Seq<char>>,
    pub profile: Option<Seq<char>>,
    pub docs: Seq<DocView>,
    pub params: Seq<ParamView>,
}

/// A representation, by the characters of its texts.
pub enum RepresentationView {
    ReferenceId(Seq<char>),
    ReferenceLink(Seq<char>),
    Definition(RepresentationDefView),
}

/// A request, by the characters of its texts.
pub struct RequestView {
    pub docs: Seq<DocView>,
    pub params: Seq<ParamView>,
    pub representations: Seq<RepresentationView>,
}

/// A response, by the characters of its texts.
pub struct ResponseView {
    pub docs: Seq<DocView>,
    pub params: Seq<ParamView>,
    pub status: Option<i32>,
    pub representations: Seq<RepresentationView>,
}

/// A method, by the characters of its texts.
pub struct MethodView {
    pub id: Seq<char>,
    pub name: Seq<char>,
    pub docs: Seq<DocView>,
    pub request: RequestView,
    pub responses: Seq<ResponseView>,
}

/// A resource, by the characters of its texts.
pub struct ResourceView {
    pub id: Option<Seq<char>>,
    pub path: Option<Seq<char>>,
    pub types: Seq<TypeRefView>,
    pub query_type: Seq<char>,
    pub methods: Seq<MethodView>,
    pub docs: Seq<DocView>,
    pub subresources: Seq<ResourceView>,
    pub params: Seq<ParamView>,
}

/// A group of resources, by the characters of its texts.
pub struct ResourcesView {
    pub base: Option<Seq<char>>,
    pub resources: Seq<ResourceView>,
}

/// A resource type, by the characters of its texts.
pub struct ResourceTypeView {
    pub id: Seq<char>,
    pub query_type: Seq<char>,
    pub methods: Seq<MethodView>,
    pub docs: Seq<DocView>,
    pub subresources: Seq<ResourceView>,
    pub params: Seq<ParamView>,
}

/// A document, by the characters of its texts.
pub struct ApplicationView {
    pub resources: Seq<ResourcesView>,
    pub resource_types: Seq<ResourceTypeView>,
    pub docs: Seq<DocView>,
    pub grammars: Seq<Seq<char>>,
    pub representations: Seq<RepresentationDefView>,
}

impl Doc {
    /// This value as plain data: each text by its characters.
    pub open spec fn view(&self) -> DocView {
        DocView {
            title: opt_text(self.title),
            lang: opt_text(self.lang),
            content: self.content@,
            xmlns: opt_url(self.xmlns),
        }
    }
}

/// The plain values of a list of documentation.
pub open spec fn docs_view(v: Seq<Doc>) -> Seq<DocView> {
    v.map_values(|d: Doc| d@)
}

/// The plain value of documentation that may be absent.
pub open spec fn opt_doc_view(d: Option<Doc>) -> Option<DocView> {
    match d {
        Some(d) => Some(d@),
        None => None,
    }
}

impl ResourceTypeRef {
    /// This value as plain data: each text by its characters.
    pub open spec fn view(&self) -> TypeRefView {
        match self {
            ResourceTypeRef::Id(id) => TypeRefView::Id(id@),
            ResourceTypeRef::Link(l) => TypeRefView::Link(l@),
            ResourceTypeRef::Empty => TypeRefView::Empty,
        }
    }
}

/// The plain values of a list of references to resource types.
pub open spec fn type_refs_view(v: Seq<ResourceTypeRef>) -> Seq<TypeRefView> {
    v.map_values(|r: ResourceTypeRef| r@)
}

impl Link {
    /// This value as plain data: each text by its characters.
    pub open spec fn view(&self) -> LinkView {
        LinkView {
            resource_type: match self.resource_type {
                Some(r) => Some(r@),
                None => None,
            },
            relation: opt_text(self.relation),
            reverse_relation: opt_text(self.reverse_relation),
            doc: opt_doc_view(self.doc),
        }
    }
}

/// The plain values of a list of links.
pub open spec fn links_view(v: Seq<Link>) -> Seq<LinkView> {
    v.map_values(|l: Link| l@)
}

/// The plain value of a set of options.
pub open spec fn options_view(o: Options) -> OptionsView {
    OptionsView { keys: o.spec_keys(), map: o@ }
}

impl Param {
    /// This value as plain data: each text by its characters.
    pub open spec fn view(&self) -> ParamView {
        ParamView {
            style: self.style,
            id: opt_text(self.id),
            name: self.name@,
            declared_type: self.declared_type@,
            path: opt_text(self.path),
            required: self.required,
            repeating: self.repeating,
            fixed: opt_text(self.fixed),
            doc: opt_doc_view(self.doc),
            links: links_view(self.links@),
            options: match self.options {
                Some(o) => Some(options_view(o)),
                None => None,
            },
        }
    }
}

/// The plain values of a list of parameters.
pub open spec fn params_view(v: Seq<Param>) -> Seq<ParamView> {
    v.map_values(|p: Param| p@)
}

impl RepresentationDef {
    /// This value as plain data: each text by its characters.
    pub open spec fn view(&self) -> RepresentationDefView {
        RepresentationDefView {
            id: opt_text(self.id),
            media_type: media_text(self.media_type),
            element: opt_text(self.element),
            profile: opt_text(self.profile),
            docs: docs_view(self.docs@),
            params: params_view(self.params@),
        }
    }
}

/// The plain values of a list of definitions.
pub open spec fn definitions_view(v: Seq<RepresentationDef>) -> Seq<RepresentationDefView> {
    v.map_values(|d: RepresentationDef| d@)
}

impl Representation {
    /// This value as plain data: each text by its characters.
    pub open spec fn view(&self) -> RepresentationView {
        match self {
            Representation::Reference(RepresentationRef::Id(id)) => RepresentationView::ReferenceId(
                id@,
            ),
            Representation::Reference(RepresentationRef::Link(l)) => RepresentationView::ReferenceLink(
                l@,
            ),
            Representation::Definition(d) => RepresentationView::Definition(d@),
        }
    }
}

/// The plain values of a list of representations.
pub open spec fn representations_view(v: Seq<Representation>) -> Seq<RepresentationView> {
    v.map_values(|r: Representation| r@)
}

impl Request {
    /// This value as plain data: each text by its characters.
    pub open spec fn view(&self) -> RequestView {
        RequestView {
            docs: docs_view(self.docs@),
            params: params_view(self.params@),
            representations: representations_view(self.representations@),
        }
    }
}

impl Response {
    /// This value as plain data: each text by its characters.
    pub open spec fn view(&self) -> ResponseView {
        ResponseView {
            docs: docs_view(self.docs@),
            params: params_view(self.params@),
            status: self.status,
            representations: representations_view(self.representations@),
        }
    }
}

/// The plain values of a list of responses.
pub open spec fn responses_view(v: Seq<Response>) -> Seq<ResponseView> {
    v.map_values(|r: Response| r@)
}

impl Method {
    /// This value as plain data: each text by its characters.
    pub open spec fn view(&self) -> MethodView {
        MethodView {
            id: self.id@,
            name: self.name@,
            docs: docs_view(self.docs@),
            request: self.request@,
            responses: responses_view(self.responses@),
        }
    }
}

/// The plain values of a list of methods.
pub open spec fn methods_view(v: Seq<Method>) -> Seq<MethodView> {
    v.map_values(|m: Method| m@)
}

impl Resource {
    /// This value as plain data: each text by its characters.
    pub open spec fn view(&self) -> ResourceView
        decreases self,
    {
        ResourceView {
            id: opt_text(self.id),
            path: opt_text(self.path),
            types: type_refs_view(self.types@),
            query_type: self.query_type@,
            methods: methods_view(self.methods@),
            docs: docs_view(self.docs@),
            subresources: resources_view(self.subresources@),
            params: params_view(self.params@),
        }
    }
}

/// The plain values of a list of resources.
pub open spec fn resources_view(v: Seq<Resource>) -> Seq<ResourceView>
    decreases v,
{
    if v.len() == 0 {
        Seq::empty()
    } else {
        resources_view(v.drop_last()).push(v.last().view())
    }
}

impl Resources {
    /// This value as plain data: each text by its characters.
    pub open spec fn view(&self) -> ResourcesView {
        ResourcesView { base: opt_url(self.base), resources: resources_view(self.resources@) }
    }
}

/// The plain values of a list of groups of resources.
pub open spec fn groups_view(v: Seq<Resources>) -> Seq<ResourcesView> {
    v.map_values(|g: Resources| g@)
}

impl ResourceType {
    /// This value as plain data: each text by its characters.
    pub open spec fn view(&self) -> ResourceTypeView {
        ResourceTypeView {
            id: self.id@,
            query_type: self.query_type@,
            methods: methods_view(self.methods@),
            docs: docs_view(self.docs@),
            subresources: resources_view(self.subresources@),
            params: params_view(self.params@),
        }
    }
}

/// The plain values of a list of resource types.
pub open spec fn resource_types_view(v: Seq<ResourceType>) -> Seq<ResourceTypeView> {
    v.map_values(|t: ResourceType| t@)
}

/// Where the grammars of a list are.
pub open spec fn grammars_view(v: Seq<Grammar>) -> Seq<Seq<char>> {
    v.map_values(|g: Grammar| g.href@)
}

impl Application {
    /// This value as plain data: each text by its characters.
    pub open spec fn view(&self) -> ApplicationView {
        ApplicationView {
            resources: groups_view(self.resources@),
            resource_types: resource_types_view(self.resource_types@),
            docs: docs_view(self.docs@),
            grammars: grammars_view(self.grammars@),
            representations: definitions_view(self.representations@),
        }
    }
}

} // verus!
