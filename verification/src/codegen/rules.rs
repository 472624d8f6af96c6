//! A customization that is made of tables: each decision is looked up by the texts it
//! depends on.
use vstd::prelude::*;
use vstd::string::*;
use crate::ast::{Param, RepresentationDef};
use crate::codegen::config::{opt_text_pair, Customization, ParamContainer};
use crate::text::{clone_lines, opt_text, str_eq, texts};

verus! {

/// One entry of a table: the texts that a decision depends on, and the answer.
#[derive(Debug, Clone, Default)]
pub struct Rule {
    /// The texts that must all be the same as those asked for, in their order.
    pub keys: Vec<String>,
    /// The answer: one text, two, or any number of lines, as the decision asks.
    pub answer: Vec<String>,
}

/// The answer of the first entry of a table that has the given keys.
pub open spec fn spec_first_answer(rules: Seq<Rule>, keys: Seq<Seq<char>>) -> Option<Seq<Seq<char>>>
    decreases rules.len(),
{
    if rules.len() == 0 {
        None
    } else if texts(rules[0].keys@) == keys {
        Some(texts(rules[0].answer@))
    } else {
        spec_first_answer(rules.skip(1), keys)
    }
}

/// The characters of each string slice of a list.
pub open spec fn key_texts(keys: Seq<&str>) -> Seq<Seq<char>> {
    keys.map_values(|k: &str| k@)
}

fn same_keys(have: &Vec<String>, want: &Vec<&str>) -> (r: bool)
    ensures
        r == (texts(have@) == key_texts(want@)),
{
    if have.len() != want.len() {
        assert(texts(have@).len() != key_texts(want@).len());
        return false;
    }
    let mut i: usize = 0;
    while i < have.len()
        invariant
            i <= have.len(),
            have.len() == want.len(),
            forall|j: int| 0 <= j < i ==> have@[j]@ == want@[j]@,
        decreases have.len() - i,
    {
        if !str_eq(have[i].as_str(), want[i]) {
            assert(texts(have@)[i as int] != key_texts(want@)[i as int]);
            return false;
        }
        i = i + 1;
    }
    assert(texts(have@) =~= key_texts(want@));
    true
}

/// The answer of the first entry of a table that has the given keys.
pub fn first_answer<'a>(rules: &'a Vec<Rule>, keys: &Vec<&str>) -> (r: Option<&'a Vec<String>>)
    ensures
        (match r {
            Some(a) => Some(texts(a@)),
            None => None,
        }) == spec_first_answer(rules@, key_texts(keys@)),
{
    let mut i: usize = 0;
    assert(rules@.skip(0) =~= rules@);
    while i < rules.len()
        invariant
            i <= rules.len(),
            spec_first_answer(rules@, key_texts(keys@)) == spec_first_answer(
                rules@.skip(i as int),
                key_texts(keys@),
            ),
        decreases rules.len() - i,
    {
        assert(rules@.skip(i as int)[0] == rules@[i as int]);
        if same_keys(&rules[i].keys, keys) {
            return Some(&rules[i].answer);
        }
        assert(rules@.skip(i as int).skip(1) =~= rules@.skip(i + 1));
        i = i + 1;
    }
    None
}

/// The one text that a table answers with: the first text of the answer.
pub open spec fn spec_text_answer(rules: Seq<Rule>, keys: Seq<Seq<char>>) -> Option<Seq<char>> {
    match spec_first_answer(rules, keys) {
        Some(a) => if a.len() > 0 {
            Some(a[0])
        } else {
            None
        },
        None => None,
    }
}

/// The two texts that a table answers with: the first two texts of the answer.
pub open spec fn spec_pair_answer(rules: Seq<Rule>, keys: Seq<Seq<char>>) -> Option<
    (Seq<char>, Seq<char>),
> {
    match spec_first_answer(rules, keys) {
        Some(a) => if a.len() > 1 {
            Some((a[0], a[1]))
        } else {
            None
        },
        None => None,
    }
}

/// The one text that a table answers with.
pub fn text_answer(rules: &Vec<Rule>, keys: &Vec<&str>) -> (r: Option<String>)
    ensures
        opt_text(r) == spec_text_answer(rules@, key_texts(keys@)),
{
    match first_answer(rules, keys) {
        Some(a) => if a.len() > 0 {
            assert(texts(a@)[0] == a@[0]@);
            Some(a[0].clone())
        } else {
            None
        },
        None => None,
    }
}

/// The two texts that a table answers with.
pub fn pair_answer(rules: &Vec<Rule>, keys: &Vec<&str>) -> (r: Option<(String, String)>)
    ensures
        opt_text_pair(r) == spec_pair_answer(rules@, key_texts(keys@)),
{
    match first_answer(rules, keys) {
        Some(a) => if a.len() > 1 {
            assert(texts(a@)[0] == a@[0]@);
            assert(texts(a@)[1] == a@[1]@);
            Some((a[0].clone(), a[1].clone()))
        } else {
            None
        },
        None => None,
    }
}

/// The word for where a parameter stands.
pub open spec fn spec_container_word(container: ParamContainer) -> Seq<char> {
    match container {
        ParamContainer::Request(_, _) => "request"@,
        ParamContainer::Response(_, _) => "response"@,
        ParamContainer::Representation(_) => "representation"@,
    }
}

fn container_word(container: &ParamContainer) -> (r: &'static str)
    ensures
        r@ == spec_container_word(*container),
{
    match container {
        ParamContainer::Request(_, _) => "request",
        ParamContainer::Response(_, _) => "response",
        ParamContainer::Representation(_) => "representation",
    }
}

/// A customization by tables. Each table holds the answers to one decision, looked up
/// by the texts the decision depends on; where a table has no entry the emitter does
/// what it does with the customization that decides nothing.
#[derive(Debug, Clone, Default)]
pub struct Rules {
    /// Whether to emit asynchronous methods.
    pub asynchronous: bool,
    /// Whether to take code examples out of documentation that was HTML.
    pub strip_code_examples: bool,
    /// The Markdown text for documentation that is HTML, by the HTML text.
    pub markdown: Vec<Rule>,
    /// Types of parameters, by `request`, `response` or `representation`, the declared
    /// type and the name of the parameter.
    pub type_overrides: Vec<Rule>,
    /// Names of accessors, by the name of the parameter and the accessor's type.
    pub accessor_renames: Vec<Rule>,
    /// Lines after a representation, by its type name.
    pub representation_traits: Vec<Rule>,
    /// Visibilities of representations, by their type names.
    pub representation_visibilities: Vec<Rule>,
    /// Visibilities of accessors, by their names and the types of their fields.
    pub accessor_visibilities: Vec<Rule>,
    /// Visibilities of handles, by their names.
    pub resource_type_visibilities: Vec<Rule>,
    /// Types and mapping functions for what methods return, by the name of the method
    /// and the type it would return.
    pub response_types: Vec<Rule>,
    /// Types and mapping functions for what accessors return, by the type of the field.
    pub accessor_types: Vec<Rule>,
    /// Lines after accessors, by the name of the parameter, the accessor's name and type.
    pub accessor_extensions: Vec<Rule>,
    /// Lines after methods, by the id of the owner, the method's name and type.
    pub method_extensions: Vec<Rule>,
    /// Visibilities of methods, by their names and types.
    pub method_visibilities: Vec<Rule>,
    /// The parameters whose accessors are deprecated, by their names: any entry counts.
    pub deprecated_params: Vec<Rule>,
    /// Names of enums, by the name of the parameter.
    pub enum_names: Vec<Rule>,
    /// Documentation in another form, by its text.
    pub docstrings: Vec<Rule>,
    /// Expressions for the parts of multipart forms, by the type of the parameter and
    /// the expression of its value.
    pub multipart_parts: Vec<Rule>,
    /// The parameters that may be absent though required, or may not though not
    /// required, by their names: the answer `true` or anything else.
    pub nillable_params: Vec<Rule>,
}

impl Customization for Rules {
    open spec fn spec_asynchronous(&self) -> bool {
        self.asynchronous
    }

    fn asynchronous(&self) -> (r: bool) {
        self.asynchronous
    }

    open spec fn spec_strip_code_examples(&self) -> bool {
        self.strip_code_examples
    }

    fn strip_code_examples(&self) -> (r: bool) {
        self.strip_code_examples
    }

    open spec fn spec_html_to_markdown(&self, html: Seq<char>) -> Option<Seq<char>> {
        spec_text_answer(self.markdown@, seq![html])
    }

    fn html_to_markdown(&self, html: &str) -> (r: Option<String>) {
        let keys = vec![html];
        assert(key_texts(keys@) =~= seq![html@]);
        text_answer(&self.markdown, &keys)
    }

    open spec fn spec_override_type_name(
        &self,
        container: ParamContainer,
        declared: Seq<char>,
        param_name: Seq<char>,
    ) -> Option<Seq<char>> {
        spec_text_answer(
            self.type_overrides@,
            seq![spec_container_word(container), declared, param_name],
        )
    }

    fn override_type_name(&self, container: &ParamContainer, declared: &str, param_name: &str) -> (r:
        Option<String>) {
        let keys = vec![container_word(container), declared, param_name];
        assert(key_texts(keys@) =~= seq![spec_container_word(*container), declared@, param_name@]);
        text_answer(&self.type_overrides, &keys)
    }

    open spec fn spec_param_accessor_rename(&self, param_name: Seq<char>, ret_type: Seq<char>) -> Option<
        Seq<char>,
    > {
        spec_text_answer(self.accessor_renames@, seq![param_name, ret_type])
    }

    fn param_accessor_rename(&self, param_name: &str, ret_type: &str) -> (r: Option<String>) {
        let keys = vec![param_name, ret_type];
        assert(key_texts(keys@) =~= seq![param_name@, ret_type@]);
        text_answer(&self.accessor_renames, &keys)
    }

    open spec fn spec_representation_traits(&self, def: RepresentationDef, name: Seq<char>) -> Option<
        Seq<Seq<char>>,
    > {
        spec_first_answer(self.representation_traits@, seq![name])
    }

    fn representation_traits(&self, def: &RepresentationDef, name: &str) -> (r: Option<Vec<String>>) {
        let keys = vec![name];
        assert(key_texts(keys@) =~= seq![name@]);
        match first_answer(&self.representation_traits, &keys) {
            Some(a) => Some(clone_lines(a)),
            None => None,
        }
    }

    open spec fn spec_representation_visibility(&self, name: Seq<char>) -> Option<Seq<char>> {
        spec_text_answer(self.representation_visibilities@, seq![name])
    }

    fn representation_visibility(&self, name: &str) -> (r: Option<String>) {
        let keys = vec![name];
        assert(key_texts(keys@) =~= seq![name@]);
        text_answer(&self.representation_visibilities, &keys)
    }

    open spec fn spec_accessor_visibility(&self, accessor: Seq<char>, field_type: Seq<char>) -> Option<
        Seq<char>,
    > {
        spec_text_answer(self.accessor_visibilities@, seq![accessor, field_type])
    }

    fn accessor_visibility(&self, accessor: &str, field_type: &str) -> (r: Option<String>) {
        let keys = vec![accessor, field_type];
        assert(key_texts(keys@) =~= seq![accessor@, field_type@]);
        text_answer(&self.accessor_visibilities, &keys)
    }

    open spec fn spec_resource_type_visibility(&self, name: Seq<char>) -> Option<Seq<char>> {
        spec_text_answer(self.resource_type_visibilities@, seq![name])
    }

    fn resource_type_visibility(&self, name: &str) -> (r: Option<String>) {
        let keys = vec![name];
        assert(key_texts(keys@) =~= seq![name@]);
        text_answer(&self.resource_type_visibilities, &keys)
    }

    open spec fn spec_map_type_for_response(&self, method: Seq<char>, return_type: Seq<char>) -> Option<
        (Seq<char>, Seq<char>),
    > {
        spec_pair_answer(self.response_types@, seq![method, return_type])
    }

    fn map_type_for_response(&self, method: &str, return_type: &str) -> (r: Option<
        (String, String),
    >) {
        let keys = vec![method, return_type];
        assert(key_texts(keys@) =~= seq![method@, return_type@]);
        pair_answer(&self.response_types, &keys)
    }

    open spec fn spec_map_type_for_accessor(&self, field_type: Seq<char>) -> Option<
        (Seq<char>, Seq<char>),
    > {
        spec_pair_answer(self.accessor_types@, seq![field_type])
    }

    fn map_type_for_accessor(&self, field_type: &str) -> (r: Option<(String, String)>) {
        let keys = vec![field_type];
        assert(key_texts(keys@) =~= seq![field_type@]);
        pair_answer(&self.accessor_types, &keys)
    }

    open spec fn spec_extend_accessor(&self, param: Param, accessor: Seq<char>, ret_type: Seq<char>) -> Seq<
        Seq<char>,
    > {
        match spec_first_answer(self.accessor_extensions@, seq![param.name@, accessor, ret_type]) {
            Some(a) => a,
            None => Seq::empty(),
        }
    }

    fn extend_accessor(&self, param: &Param, accessor: &str, ret_type: &str) -> (r: Vec<String>) {
        let keys = vec![param.name.as_str(), accessor, ret_type];
        assert(key_texts(keys@) =~= seq![param.name@, accessor@, ret_type@]);
        match first_answer(&self.accessor_extensions, &keys) {
            Some(a) => clone_lines(a),
            None => crate::text::no_lines(),
        }
    }

    open spec fn spec_extend_method(&self, parent: Seq<char>, name: Seq<char>, ret_type: Seq<char>) -> Seq<
        Seq<char>,
    > {
        match spec_first_answer(self.method_extensions@, seq![parent, name, ret_type]) {
            Some(a) => a,
            None => Seq::empty(),
        }
    }

    fn extend_method(&self, parent: &str, name: &str, ret_type: &str) -> (r: Vec<String>) {
        let keys = vec![parent, name, ret_type];
        assert(key_texts(keys@) =~= seq![parent@, name@, ret_type@]);
        match first_answer(&self.method_extensions, &keys) {
            Some(a) => clone_lines(a),
            None => crate::text::no_lines(),
        }
    }

    open spec fn spec_method_visibility(&self, name: Seq<char>, ret_type: Seq<char>) -> Option<Seq<char>> {
        spec_text_answer(self.method_visibilities@, seq![name, ret_type])
    }

    fn method_visibility(&self, name: &str, ret_type: &str) -> (r: Option<String>) {
        let keys = vec![name, ret_type];
        assert(key_texts(keys@) =~= seq![name@, ret_type@]);
        text_answer(&self.method_visibilities, &keys)
    }

    open spec fn spec_deprecated_param(&self, param: Param) -> bool {
        spec_first_answer(self.deprecated_params@, seq![param.name@]) is Some
    }

    fn deprecated_param(&self, param: &Param) -> (r: bool) {
        let keys = vec![param.name.as_str()];
        assert(key_texts(keys@) =~= seq![param.name@]);
        first_answer(&self.deprecated_params, &keys).is_some()
    }

    open spec fn spec_options_enum_name(&self, param: Param, taken: Seq<Seq<char>>) -> Option<Seq<char>> {
        spec_text_answer(self.enum_names@, seq![param.name@])
    }

    fn options_enum_name(&self, param: &Param, taken: &Vec<String>) -> (r: Option<String>) {
        let keys = vec![param.name.as_str()];
        assert(key_texts(keys@) =~= seq![param.name@]);
        text_answer(&self.enum_names, &keys)
    }

    open spec fn spec_reformat_docstring(&self, text: Seq<char>) -> Option<Seq<char>> {
        spec_text_answer(self.docstrings@, seq![text])
    }

    fn reformat_docstring(&self, text: &str) -> (r: Option<String>) {
        let keys = vec![text];
        assert(key_texts(keys@) =~= seq![text@]);
        text_answer(&self.docstrings, &keys)
    }

    open spec fn spec_convert_to_multipart(&self, param_type: Seq<char>, value: Seq<char>) -> Option<
        Seq<char>,
    > {
        spec_text_answer(self.multipart_parts@, seq![param_type, value])
    }

    fn convert_to_multipart(&self, param_type: &str, value: &str) -> (r: Option<String>) {
        let keys = vec![param_type, value];
        assert(key_texts(keys@) =~= seq![param_type@, value@]);
        text_answer(&self.multipart_parts, &keys)
    }

    open spec fn spec_nillable(&self, param: Param) -> bool {
        match spec_text_answer(self.nillable_params@, seq![param.name@]) {
            Some(answer) => answer == "true"@,
            None => !param.required,
        }
    }

    fn nillable(&self, param: &Param) -> (r: bool) {
        let keys = vec![param.name.as_str()];
        assert(key_texts(keys@) =~= seq![param.name@]);
        match text_answer(&self.nillable_params, &keys) {
            Some(answer) => str_eq(answer.as_str(), "true"),
            None => !param.required,
        }
    }
}

} // verus!
