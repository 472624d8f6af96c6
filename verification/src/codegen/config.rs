//! What a caller can decide about the emitted code, and what can go wrong in emitting it.
use vstd::prelude::*;
use vstd::string::*;
use crate::ast::{Method, Param, RepresentationDef, Request, Response};
use crate::text::{opt_text, texts};

verus! {

/// Where a parameter stands.
pub enum ParamContainer<'a> {
    Request(&'a Method, &'a Request),
    Response(&'a Method, &'a Response),
    Representation(&'a RepresentationDef),
}

/// Why a part of the document could not be turned into code.
#[derive(Debug, Clone, Copy, PartialEq, Eq, Structural)]
pub enum CompileErrorKind {
    /// A parameter names a scalar type that has no counterpart.
    UnknownType,
    /// A representation has a media type for which no code can be emitted.
    UnsupportedMediaType,
    /// A representation that needs a name has no id.
    MissingId,
    /// A method declares more than one response.
    MultipleResponses,
    /// A response offers more than one representation besides its own parameters.
    MultipleRepresentations,
    /// A response has parameters beside a referenced representation.
    ParamsWithRepresentation,
    /// A parameter of a response is no header with a link to a resource type.
    UnsupportedResponseParam,
    /// A parameter of a request is neither a header nor a query parameter.
    UnsupportedRequestParam,
    /// A parameter has a fixed value and repeats.
    RepeatingFixedParam,
    /// A parameter's options were given no name.
    UnknownOptions,
    /// A permitted value leaves no character for the name of its variant.
    InvalidOptionValue,
    /// The name chosen for a set of options is in use for another.
    EnumNameTaken,
}

/// A failure to emit code for one item of the document.
#[derive(Debug)]
pub struct CompileError {
    /// What went wrong.
    pub kind: CompileErrorKind,
    /// The id of the method, representation or resource type, empty where there is none.
    pub item: String,
    /// The name of the parameter, empty where none is involved.
    pub param: String,
    /// The offending type, media type, value or name, empty where there is none.
    pub detail: String,
}

/// A failure, by the characters of its texts.
pub struct Fault {
    pub kind: CompileErrorKind,
    pub item: Seq<char>,
    pub param: Seq<char>,
    pub detail: Seq<char>,
}

impl CompileError {
    /// This value as plain data: each text by its characters.
    pub open spec fn view(&self) -> Fault {
        Fault { kind: self.kind, item: self.item@, param: self.param@, detail: self.detail@ }
    }

    /// A failure of the given kind.
    pub fn new(kind: CompileErrorKind, item: &str, param: &str, detail: &str) -> (r: Self)
        ensures
            r@ == (Fault { kind, item: item@, param: param@, detail: detail@ }),
    {
        CompileError {
            kind,
            item: String::from_str(item),
            param: String::from_str(param),
            detail: String::from_str(detail),
        }
    }

    /// The failure in words.
    pub fn message(&self) -> (r: String)
        ensures
            r@ == spec_message(self@),
    {
        let what = match self.kind {
            CompileErrorKind::UnknownType => "unknown type",
            CompileErrorKind::UnsupportedMediaType => "unsupported media type",
            CompileErrorKind::MissingId => "missing id",
            CompileErrorKind::MultipleResponses => "more than one response",
            CompileErrorKind::MultipleRepresentations => "more than one representation",
            CompileErrorKind::ParamsWithRepresentation => "parameters beside a representation",
            CompileErrorKind::UnsupportedResponseParam => "unsupported response parameter",
            CompileErrorKind::UnsupportedRequestParam => "unsupported request parameter",
            CompileErrorKind::RepeatingFixedParam => "fixed parameter that repeats",
            CompileErrorKind::UnknownOptions => "options without a name",
            CompileErrorKind::InvalidOptionValue => "option value without a name",
            CompileErrorKind::EnumNameTaken => "enum name already taken",
        };
        crate::text::cat7(
            what,
            " in `",
            self.item.as_str(),
            "`, parameter `",
            self.param.as_str(),
            "`: ",
            self.detail.as_str(),
        )
    }
}

/// The words for each kind of failure.
pub open spec fn spec_kind_words(kind: CompileErrorKind) -> Seq<char> {
    match kind {
        CompileErrorKind::UnknownType => "unknown type"@,
        CompileErrorKind::UnsupportedMediaType => "unsupported media type"@,
        CompileErrorKind::MissingId => "missing id"@,
        CompileErrorKind::MultipleResponses => "more than one response"@,
        CompileErrorKind::MultipleRepresentations => "more than one representation"@,
        CompileErrorKind::ParamsWithRepresentation => "parameters beside a representation"@,
        CompileErrorKind::UnsupportedResponseParam => "unsupported response parameter"@,
        CompileErrorKind::UnsupportedRequestParam => "unsupported request parameter"@,
        CompileErrorKind::RepeatingFixedParam => "fixed parameter that repeats"@,
        CompileErrorKind::UnknownOptions => "options without a name"@,
        CompileErrorKind::InvalidOptionValue => "option value without a name"@,
        CompileErrorKind::EnumNameTaken => "enum name already taken"@,
    }
}

/// A failure in words: what, in which item, at which parameter, and the offending text.
pub open spec fn spec_message(f: Fault) -> Seq<char> {
    spec_kind_words(f.kind) + " in `"@ + f.item + "`, parameter `"@ + f.param + "`: "@ + f.detail
}

/// The lines or the failure of an emission, by their characters.
pub open spec fn lines_result(r: Result<Vec<String>, CompileError>) -> Result<Seq<Seq<char>>, Fault> {
    match r {
        Ok(v) => Ok(texts(v@)),
        Err(e) => Err(e@),
    }
}

/// The text or the failure of an emission, by their characters.
pub open spec fn text_result(r: Result<String, CompileError>) -> Result<Seq<char>, Fault> {
    match r {
        Ok(v) => Ok(v@),
        Err(e) => Err(e@),
    }
}

/// A pair of texts that may be absent, by their characters.
pub open spec fn opt_text_pair(p: Option<(String, String)>) -> Option<(Seq<char>, Seq<char>)> {
    match p {
        Some((a, b)) => Some((a@, b@)),
        None => None,
    }
}

/// Lines that may be absent, by their characters.
pub open spec fn opt_lines(p: Option<Vec<String>>) -> Option<Seq<Seq<char>>> {
    match p {
        Some(v) => Some(texts(v@)),
        None => None,
    }
}

/// The decisions that are left to the caller of the emitter, one method for each. Every
/// answer is a function of the arguments, so that the same document and the same
/// customization give the same code.
pub trait Customization {
    /// Whether the emitted methods are asynchronous.
    spec fn spec_asynchronous(&self) -> bool;

    fn asynchronous(&self) -> (r: bool)
        ensures
            r == self.spec_asynchronous(),
    ;

    /// Whether code examples are taken out of documentation that was HTML.
    spec fn spec_strip_code_examples(&self) -> bool;

    fn strip_code_examples(&self) -> (r: bool)
        ensures
            r == self.spec_strip_code_examples(),
    ;

    /// The Markdown text for documentation that is HTML, where the customization has one;
    /// where it has none the documentation is taken as it is written.
    spec fn spec_html_to_markdown(&self, html: Seq<char>) -> Option<Seq<char>>;

    fn html_to_markdown(&self, html: &str) -> (r: Option<String>)
        ensures
            opt_text(r) == self.spec_html_to_markdown(html@),
    ;

    /// The type to use for a parameter in place of the one that would be chosen, given
    /// where it stands, its declared type and its name.
    spec fn spec_override_type_name(
        &self,
        container: ParamContainer,
        declared: Seq<char>,
        param_name: Seq<char>,
    ) -> Option<Seq<char>>;

    fn override_type_name(&self, container: &ParamContainer, declared: &str, param_name: &str) -> (r:
        Option<String>)
        ensures
            opt_text(r) == self.spec_override_type_name(*container, declared@, param_name@),
    ;

    /// Another name for the accessor of a parameter, given its name and the accessor's type.
    spec fn spec_param_accessor_rename(&self, param_name: Seq<char>, ret_type: Seq<char>) -> Option<
        Seq<char>,
    >;

    fn param_accessor_rename(&self, param_name: &str, ret_type: &str) -> (r: Option<String>)
        ensures
            opt_text(r) == self.spec_param_accessor_rename(param_name@, ret_type@),
    ;

    /// Lines to emit after a representation, given the representation and its type name.
    spec fn spec_representation_traits(&self, def: RepresentationDef, name: Seq<char>) -> Option<
        Seq<Seq<char>>,
    >;

    fn representation_traits(&self, def: &RepresentationDef, name: &str) -> (r: Option<Vec<String>>)
        ensures
            opt_lines(r) == self.spec_representation_traits(*def, name@),
    ;

    /// The visibility of a representation's type; `pub` where there is no answer.
    spec fn spec_representation_visibility(&self, name: Seq<char>) -> Option<Seq<char>>;

    fn representation_visibility(&self, name: &str) -> (r: Option<String>)
        ensures
            opt_text(r) == self.spec_representation_visibility(name@),
    ;

    /// The visibility of an accessor, given its name and the type of the field; `pub`
    /// where there is no answer.
    spec fn spec_accessor_visibility(&self, accessor: Seq<char>, field_type: Seq<char>) -> Option<
        Seq<char>,
    >;

    fn accessor_visibility(&self, accessor: &str, field_type: &str) -> (r: Option<String>)
        ensures
            opt_text(r) == self.spec_accessor_visibility(accessor@, field_type@),
    ;

    /// The visibility of a resource type's handle; `pub` where there is no answer.
    spec fn spec_resource_type_visibility(&self, name: Seq<char>) -> Option<Seq<char>>;

    fn resource_type_visibility(&self, name: &str) -> (r: Option<String>)
        ensures
            opt_text(r) == self.spec_resource_type_visibility(name@),
    ;

    /// Another type for what a method returns, and the function that maps to it.
    spec fn spec_map_type_for_response(&self, method: Seq<char>, return_type: Seq<char>) -> Option<
        (Seq<char>, Seq<char>),
    >;

    fn map_type_for_response(&self, method: &str, return_type: &str) -> (r: Option<
        (String, String),
    >)
        ensures
            opt_text_pair(r) == self.spec_map_type_for_response(method@, return_type@),
    ;

    /// Another type for what an accessor returns, and the function that maps to it.
    spec fn spec_map_type_for_accessor(&self, field_type: Seq<char>) -> Option<
        (Seq<char>, Seq<char>),
    >;

    fn map_type_for_accessor(&self, field_type: &str) -> (r: Option<(String, String)>)
        ensures
            opt_text_pair(r) == self.spec_map_type_for_accessor(field_type@),
    ;

    /// Lines to emit after the accessors of a parameter.
    spec fn spec_extend_accessor(&self, param: Param, accessor: Seq<char>, ret_type: Seq<char>) -> Seq<
        Seq<char>,
    >;

    fn extend_accessor(&self, param: &Param, accessor: &str, ret_type: &str) -> (r: Vec<String>)
        ensures
            texts(r@) == self.spec_extend_accessor(*param, accessor@, ret_type@),
    ;

    /// Lines to emit after a method.
    spec fn spec_extend_method(&self, parent: Seq<char>, name: Seq<char>, ret_type: Seq<char>) -> Seq<
        Seq<char>,
    >;

    fn extend_method(&self, parent: &str, name: &str, ret_type: &str) -> (r: Vec<String>)
        ensures
            texts(r@) == self.spec_extend_method(parent@, name@, ret_type@),
    ;

    /// The visibility of a method; `pub` where there is no answer.
    spec fn spec_method_visibility(&self, name: Seq<char>, ret_type: Seq<char>) -> Option<Seq<char>>;

    fn method_visibility(&self, name: &str, ret_type: &str) -> (r: Option<String>)
        ensures
            opt_text(r) == self.spec_method_visibility(name@, ret_type@),
    ;

    /// Whether the accessors of a parameter are marked as deprecated.
    spec fn spec_deprecated_param(&self, param: Param) -> bool;

    fn deprecated_param(&self, param: &Param) -> (r: bool)
        ensures
            r == self.spec_deprecated_param(*param),
    ;

    /// The name of the enum for a parameter's options, given the names in use; where
    /// there is no answer the name comes from the parameter's.
    spec fn spec_options_enum_name(&self, param: Param, taken: Seq<Seq<char>>) -> Option<Seq<char>>;

    fn options_enum_name(&self, param: &Param, taken: &Vec<String>) -> (r: Option<String>)
        ensures
            opt_text(r) == self.spec_options_enum_name(*param, texts(taken@)),
    ;

    /// Documentation in another form; where there is no answer it stays as it is.
    spec fn spec_reformat_docstring(&self, text: Seq<char>) -> Option<Seq<char>>;

    fn reformat_docstring(&self, text: &str) -> (r: Option<String>)
        ensures
            opt_text(r) == self.spec_reformat_docstring(text@),
    ;

    /// The expression that makes a part of a multipart form from a value, given the
    /// parameter's type; where there is no answer the value is sent as text.
    spec fn spec_convert_to_multipart(&self, param_type: Seq<char>, value: Seq<char>) -> Option<
        Seq<char>,
    >;

    fn convert_to_multipart(&self, param_type: &str, value: &str) -> (r: Option<String>)
        ensures
            opt_text(r) == self.spec_convert_to_multipart(param_type@, value@),
    ;

    /// Whether a parameter may be absent.
    spec fn spec_nillable(&self, param: Param) -> bool;

    fn nillable(&self, param: &Param) -> (r: bool)
        ensures
            r == self.spec_nillable(*param),
    ;
}

/// The customization that decides nothing but the two switches: every visibility is
/// `pub`, no type is overridden or mapped, nothing is renamed, extended, deprecated or
/// reformatted, documentation that is HTML is taken as it is written, and a parameter may
/// be absent where it is not required.
#[derive(Debug, Clone, Copy)]
pub struct Config {
    /// Whether to emit asynchronous methods.
    pub asynchronous: bool,
    /// Whether to take code examples out of documentation that was HTML.
    pub strip_code_examples: bool,
}

impl Default for Config {
    fn default() -> (r: Self)
        ensures
            !r.asynchronous,
            !r.strip_code_examples,
    {
        Config { asynchronous: false, strip_code_examples: false }
    }
}

/// The trait of the client that the emitted methods take.
pub open spec fn spec_client_trait_name(asynchronous: bool) -> Seq<char> {
    if asynchronous {
        "wadl::r#async::Client"@
    } else {
        "wadl::blocking::Client"@
    }
}

/// The trait of the client that the emitted methods take.
pub fn client_trait_name_of(asynchronous: bool) -> (r: &'static str)
    ensures
        r@ == spec_client_trait_name(asynchronous),
{
    if asynchronous {
        "wadl::r#async::Client"
    } else {
        "wadl::blocking::Client"
    }
}

impl Config {
    /// The trait of the client that the emitted methods take.
    pub fn client_trait_name(&self) -> (r: &'static str)
        ensures
            r@ == spec_client_trait_name(self.asynchronous),
    {
        client_trait_name_of(self.asynchronous)
    }

    /// Whether a parameter may be absent: where it is not required.
    pub fn nillable(&self, param: &Param) -> (r: bool)
        ensures
            r == !param.required,
    {
        !param.required
    }
}

impl Customization for Config {
    open spec fn spec_asynchronous(&self) -> bool {
        self.asynchronous
    }

    fn asynchronous(&self) -> (r: bool) {
        self.asynchronous
    }

    open spec fn spec_strip_code_examples(&self) -> bool {
        self.strip_code_examples
    }

    fn strip_code_examples(&self) -> (r: bool) {
        self.strip_code_examples
    }

    open spec fn spec_html_to_markdown(&self, html: Seq<char>) -> Option<Seq<char>> {
        None
    }

    fn html_to_markdown(&self, html: &str) -> (r: Option<String>) {
        None
    }

    open spec fn spec_override_type_name(
        &self,
        container: ParamContainer,
        declared: Seq<char>,
        param_name: Seq<char>,
    ) -> Option<Seq<char>> {
        None
    }

    fn override_type_name(&self, container: &ParamContainer, declared: &str, param_name: &str) -> (r:
        Option<String>) {
        None
    }

    open spec fn spec_param_accessor_rename(&self, param_name: Seq<char>, ret_type: Seq<char>) -> Option<
        Seq<char>,
    > {
        None
    }

    fn param_accessor_rename(&self, param_name: &str, ret_type: &str) -> (r: Option<String>) {
        None
    }

    open spec fn spec_representation_traits(&self, def: RepresentationDef, name: Seq<char>) -> Option<
        Seq<Seq<char>>,
    > {
        None
    }

    fn representation_traits(&self, def: &RepresentationDef, name: &str) -> (r: Option<Vec<String>>) {
        None
    }

    open spec fn spec_representation_visibility(&self, name: Seq<char>) -> Option<Seq<char>> {
        None
    }

    fn representation_visibility(&self, name: &str) -> (r: Option<String>) {
        None
    }

    open spec fn spec_accessor_visibility(&self, accessor: Seq<char>, field_type: Seq<char>) -> Option<
        Seq<char>,
    > {
        None
    }

    fn accessor_visibility(&self, accessor: &str, field_type: &str) -> (r: Option<String>) {
        None
    }

    open spec fn spec_resource_type_visibility(&self, name: Seq<char>) -> Option<Seq<char>> {
        None
    }

    fn resource_type_visibility(&self, name: &str) -> (r: Option<String>) {
        None
    }

    open spec fn spec_map_type_for_response(&self, method: Seq<char>, return_type: Seq<char>) -> Option<
        (Seq<char>, Seq<char>),
    > {
        None
    }

    fn map_type_for_response(&self, method: &str, return_type: &str) -> (r: Option<
        (String, String),
    >) {
        None
    }

    open spec fn spec_map_type_for_accessor(&self, field_type: Seq<char>) -> Option<
        (Seq<char>, Seq<char>),
    > {
        None
    }

    fn map_type_for_accessor(&self, field_type: &str) -> (r: Option<(String, String)>) {
        None
    }

    open spec fn spec_extend_accessor(&self, param: Param, accessor: Seq<char>, ret_type: Seq<char>) -> Seq<
        Seq<char>,
    > {
        Seq::empty()
    }

    fn extend_accessor(&self, param: &Param, accessor: &str, ret_type: &str) -> (r: Vec<String>) {
        crate::text::no_lines()
    }

    open spec fn spec_extend_method(&self, parent: Seq<char>, name: Seq<char>, ret_type: Seq<char>) -> Seq<
        Seq<char>,
    > {
        Seq::empty()
    }

    fn extend_method(&self, parent: &str, name: &str, ret_type: &str) -> (r: Vec<String>) {
        crate::text::no_lines()
    }

    open spec fn spec_method_visibility(&self, name: Seq<char>, ret_type: Seq<char>) -> Option<Seq<char>> {
        None
    }

    fn method_visibility(&self, name: &str, ret_type: &str) -> (r: Option<String>) {
        None
    }

    open spec fn spec_deprecated_param(&self, param: Param) -> bool {
        false
    }

    fn deprecated_param(&self, param: &Param) -> (r: bool) {
        false
    }

    open spec fn spec_options_enum_name(&self, param: Param, taken: Seq<Seq<char>>) -> Option<Seq<char>> {
        None
    }

    fn options_enum_name(&self, param: &Param, taken: &Vec<String>) -> (r: Option<String>) {
        None
    }

    open spec fn spec_reformat_docstring(&self, text: Seq<char>) -> Option<Seq<char>> {
        None
    }

    fn reformat_docstring(&self, text: &str) -> (r: Option<String>) {
        None
    }

    open spec fn spec_convert_to_multipart(&self, param_type: Seq<char>, value: Seq<char>) -> Option<
        Seq<char>,
    > {
        None
    }

    fn convert_to_multipart(&self, param_type: &str, value: &str) -> (r: Option<String>) {
        None
    }

    open spec fn spec_nillable(&self, param: Param) -> bool {
        !param.required
    }

    fn nillable(&self, param: &Param) -> (r: bool) {
        !param.required
    }
}

} // verus!
