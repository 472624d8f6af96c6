use wadl::ast::{
    Application, Doc, Link, Method, Options, Param, ParamStyle, Representation,
    RepresentationDef, RepresentationRef, Request, Resource, ResourceType, ResourceTypeRef,
    Response, TypeRef,
};
use wadl::codegen::config::CompileErrorKind;
use wadl::codegen::enums::{generate_options, options_rust_enum_name};
use wadl::codegen::method::serialize_representation_def;
use wadl::codegen::names::{checked_enum_rust_value, enum_rust_value, escape_rust_reserved};
use wadl::codegen::operation::{generate_method, generate_method_representation};
use wadl::codegen::option_names::OptionNames;
use wadl::codegen::program::name_options;
use wadl::codegen::representation::{
    generate_representation, generate_resource_type_ref_accessors,
};
use wadl::codegen::types::{param_rust_type, readonly_rust_type, simple_type_rust_type};
use wadl::codegen::{
    camel_case_name, generate, generate_resource_type, indent, snake_case_name, Config,
    ParamContainer,
};
use wadl::iri::IriReference;
use wadl::media::MediaType;
use wadl::parse::{parse_docs, ErrorKind};
use wadl::parse_string;
use wadl::text::{decimal, join, lines_of, spaces};
use wadl::url::Url;
use wadl::xml::XmlElement;

fn param(name: &str, declared: &str) -> Param {
    Param {
        style: ParamStyle::Query,
        id: None,
        name: name.to_string(),
        declared_type: declared.to_string(),
        path: None,
        required: true,
        repeating: false,
        fixed: None,
        doc: None,
        links: vec![],
        options: None,
    }
}

fn method(id: &str, request: Request, responses: Vec<Response>) -> Method {
    Method {
        id: id.to_string(),
        name: "GET".to_string(),
        docs: vec![],
        request,
        responses,
    }
}

fn link_to(target: &str) -> Link {
    Link {
        resource_type: Some(ResourceTypeRef::Id(target.to_string())),
        relation: None,
        reverse_relation: None,
        doc: None,
    }
}

fn json_definition(id: Option<&str>, params: Vec<Param>) -> RepresentationDef {
    RepresentationDef {
        id: id.map(|s| s.to_string()),
        media_type: Some(MediaType::json()),
        element: None,
        profile: None,
        docs: vec![],
        params,
    }
}

#[test]
fn equal_option_sets_share_one_name() {
    let mut first = Options::new();
    first.insert("json".to_string(), Some(MediaType::json()));
    first.insert("xml".to_string(), None);
    let mut second = Options::new();
    second.insert("xml".to_string(), None);
    second.insert("json".to_string(), Some(MediaType::json()));
    assert_eq!(first, second);

    let mut a = param("format", "");
    a.options = Some(first.clone());
    let mut b = param("output", "");
    b.options = Some(second.clone());
    let params = vec![&a, &b];
    let (names, lines, errors) = name_options(&params, &Config::default());
    assert!(errors.is_empty());
    assert_eq!(names.names(), vec!["Format".to_string()]);
    assert_eq!(names.get(&first), Some(&"Format".to_string()));
    assert_eq!(names.get(&second), Some(&"Format".to_string()));
    assert_eq!(lines.iter().filter(|l| l.starts_with("pub enum ")).count(), 1);
}

#[test]
fn different_option_sets_get_different_names() {
    let one = Options::from(vec!["a", "b"]);
    let two = Options::from(vec!["a", "c"]);
    let mut with_media = Options::new();
    with_media.insert("a".to_string(), Some(MediaType::json()));
    with_media.insert("b".to_string(), None);
    assert_ne!(one, two);
    assert_ne!(one, with_media);

    let mut a = param("format", "");
    a.options = Some(one.clone());
    let mut b = param("format", "");
    b.options = Some(two.clone());
    let mut c = param("format", "");
    c.options = Some(with_media.clone());
    let params = vec![&a, &b, &c];
    let (names, _, errors) = name_options(&params, &Config::default());
    assert!(errors.is_empty());
    assert_eq!(names.get(&one), Some(&"Format".to_string()));
    assert_eq!(names.get(&two), Some(&"Format_".to_string()));
    assert_eq!(names.get(&with_media), Some(&"Format__".to_string()));
}

#[test]
fn option_names_refuse_a_second_name_and_a_taken_name() {
    let mut names = OptionNames::new();
    assert!(names.insert(Options::from(vec!["a"]), "A".to_string()));
    assert!(!names.insert(Options::from(vec!["a"]), "B".to_string()));
    assert!(!names.insert(Options::from(vec!["b"]), "A".to_string()));
    assert!(names.is_taken("A"));
    assert!(!names.is_taken("B"));
    let p = param("a", "");
    assert_eq!(options_rust_enum_name(&p, &names), "A_");
}

#[test]
fn options_keep_insertion_order_and_replace_values() {
    let mut options = Options::new();
    options.insert("b".to_string(), None);
    options.insert("a".to_string(), None);
    options.insert("b".to_string(), Some(MediaType::json()));
    assert_eq!(options.len(), 2);
    assert_eq!(options.keys(), vec!["b", "a"]);
    assert_eq!(options.get("b"), Some(&Some(MediaType::json())));
    assert_eq!(options.get("a"), Some(&None));
    assert_eq!(options.get("c"), None);
    assert!(options.contains_key("a"));
    assert!(!options.contains_key("c"));
}

#[test]
fn names_are_stable_under_a_second_conversion() {
    for name in ["foo-bar", "foo_bar_baz", "_foo-bar", "get-some-URL", "x", ""] {
        let once = camel_case_name(name);
        assert_eq!(camel_case_name(&once), once);
    }
    for name in ["FooBar", "GetSomeURL", "_FooBar", "foo-bar", "XMLParser", ""] {
        let once = snake_case_name(name);
        assert_eq!(snake_case_name(&once), once);
    }
}

#[test]
fn a_doubled_separator_is_not_stable() {
    assert_eq!(camel_case_name("a--b"), "A-b");
    assert_eq!(camel_case_name("A-b"), "AB");
    assert_eq!(camel_case_name("foo-"), "Foo");
}

#[test]
fn case_mappings_may_be_longer_than_one_character() {
    assert_eq!(camel_case_name("\u{df}x"), "SSx");
    assert_eq!(snake_case_name("a\u{130}"), "a_i\u{307}");
}

#[test]
fn enum_values_become_identifiers() {
    assert_eq!(enum_rust_value("1 way"), "_1Way");
    assert_eq!(enum_rust_value("a+b"), "Ab");
    assert_eq!(checked_enum_rust_value("foo bar"), Some("FooBar".to_string()));
    assert_eq!(checked_enum_rust_value("+"), None);
    assert_eq!(checked_enum_rust_value(""), None);
    assert_eq!(escape_rust_reserved("types"), "types");
}

#[test]
fn a_resource_resolves_against_its_base() {
    let base = Url::parse("http://example.com/api/").unwrap();
    let resource = Resource {
        id: None,
        path: Some("users".to_string()),
        types: vec![],
        query_type: MediaType::json(),
        methods: vec![],
        docs: vec![],
        subresources: vec![],
        params: vec![],
    };
    assert_eq!(
        resource.url(Some(&base)).unwrap().as_str(),
        "http://example.com/api/users"
    );
    let alone = Resource {
        path: Some("http://example.org/x".to_string()),
        id: None,
        types: vec![],
        query_type: MediaType::json(),
        methods: vec![],
        docs: vec![],
        subresources: vec![],
        params: vec![],
    };
    assert_eq!(alone.url(None).unwrap().as_str(), "http://example.org/x");
    let relative = Resource {
        path: Some("users".to_string()),
        id: None,
        types: vec![],
        query_type: MediaType::json(),
        methods: vec![],
        docs: vec![],
        subresources: vec![],
        params: vec![],
    };
    assert!(relative.url(None).is_none());
    let pathless = Resource {
        path: None,
        id: None,
        types: vec![],
        query_type: MediaType::json(),
        methods: vec![],
        docs: vec![],
        subresources: vec![],
        params: vec![],
    };
    assert!(pathless.url(Some(&base)).is_none());
}

#[test]
fn a_reference_and_a_definition_share_their_url() {
    let base = Url::parse("http://example.com/api").unwrap();
    let reference = Representation::Reference(RepresentationRef::Id("foo".to_string()));
    let definition = Representation::Definition(RepresentationDef {
        id: Some("foo".to_string()),
        ..Default::default()
    });
    assert_eq!(reference.url(&base), definition.url(&base));
    assert_eq!(
        reference.url(&base).unwrap().as_str(),
        "http://example.com/api#foo"
    );
    let nameless = Representation::Definition(RepresentationDef::default());
    assert_eq!(nameless.url(&base), None);
}

#[test]
fn urls_are_read_and_taken_apart_by_the_url_crate() {
    let url = Url::parse("HTTP://Example.COM").unwrap();
    assert_eq!(url.as_str(), "http://example.com/");
    assert!(Url::parse("not a url").is_err());
    assert_eq!(url.join("a/b").unwrap().as_str(), "http://example.com/a/b");
    assert!(url.join("http://[").is_err());
    assert_eq!(url.fragment(), None);
    let with = url.with_fragment("x y");
    assert_eq!(with.as_str(), "http://example.com/#x%20y");
    assert_eq!(with.fragment(), Some("x%20y".to_string()));
    assert_eq!(with.with_fragment("z").as_str(), "http://example.com/#z");
    assert!(url.fits());
    assert_eq!(ResourceTypeRef::Link(with).id(), Some("x%20y".to_string()));
    assert_eq!(ResourceTypeRef::Empty.id(), None);
}

#[test]
fn media_types_are_read_by_the_mime_crate() {
    assert_eq!(
        MediaType::parse("Application/JSON").unwrap().as_str(),
        "application/json"
    );
    assert_eq!(MediaType::parse("Application/JSON").unwrap(), MediaType::json());
    assert!(MediaType::parse("no slash").is_err());
    assert_eq!(MediaType::json().as_str(), "application/json");
}

#[test]
fn iri_references_are_checked_by_the_iri_crate() {
    assert_eq!(IriReference::parse("schema.xsd").unwrap().as_str(), "schema.xsd");
    assert!(IriReference::parse("http://example.com/\u{e9}").is_some());
    assert!(IriReference::parse("%GG").is_none());
}

#[test]
fn wrapping_follows_repeating_and_required() {
    let m = method("m", Request::default(), vec![]);
    let container = ParamContainer::Request(&m, &m.request);
    let names = OptionNames::new();
    let config = Config::default();
    let mut p = param("p", "xsd:string");
    p.repeating = true;
    p.required = false;
    assert_eq!(
        param_rust_type(&container, &p, &config, false, &names).unwrap().0,
        "Option<Vec<String>>"
    );
    p.repeating = false;
    p.required = true;
    assert_eq!(
        param_rust_type(&container, &p, &config, false, &names).unwrap().0,
        "String"
    );
    p.links = vec![link_to("person")];
    assert_eq!(
        param_rust_type(&container, &p, &config, false, &names).unwrap().0,
        "Person"
    );
    assert_eq!(
        param_rust_type(&container, &p, &config, true, &names).unwrap().0,
        "url::Url"
    );
}

#[test]
fn scalar_types_follow_the_table() {
    let m = method("m", Request::default(), vec![]);
    let container = ParamContainer::Request(&m, &m.request);
    let config = Config::default();
    let p = param("p", "");
    for (declared, expected) in [
        ("date", "chrono::NaiveDate"),
        ("xsd:dateTime", "chrono::DateTime<chrono::Utc>"),
        ("a:b:int", "chrono::NaiveTime"),
        ("xsd:int", "i32"),
        ("string", "String"),
        ("binary", "Vec<u8>"),
        ("xs:boolean", "bool"),
        ("", "serde_json::Value"),
    ] {
        if declared == "a:b:int" {
            assert!(simple_type_rust_type(&container, declared, &p, &config).is_err());
            assert_eq!(
                simple_type_rust_type(&container, "x:time", &p, &config).unwrap(),
                expected
            );
        } else {
            assert_eq!(
                simple_type_rust_type(&container, declared, &p, &config).unwrap(),
                expected
            );
        }
    }
    let e = simple_type_rust_type(&container, "xsd:float", &p, &config).unwrap_err();
    assert_eq!(e.kind, CompileErrorKind::UnknownType);
    assert_eq!(e.item, "m");
    assert_eq!(e.param, "p");
    assert_eq!(e.detail, "xsd:float");
    assert_eq!(
        e.message(),
        "unknown type in `m`, parameter `p`: xsd:float"
    );
}

#[test]
fn readonly_types_lose_whitespace_and_marks() {
    assert_eq!(readonly_rust_type("Option< String >"), "Option<&str>");
    assert_eq!(readonly_rust_type("Vec< u8 >"), "&[u8]");
    assert_eq!(readonly_rust_type("*Foo"), "Foo");
    assert_eq!(readonly_rust_type("Option<Option<i32>>"), "Option<Option<&i32>>");
    assert_eq!(readonly_rust_type(""), "&");
}

#[test]
fn param_type_refs_follow_the_order_of_sources() {
    let mut p = param("p", "xsd:string");
    p.links = vec![link_to("person")];
    p.options = Some(Options::from(vec!["a"]));
    assert_eq!(p.type_ref(), TypeRef::Simple("xsd:string".to_string()));
    p.declared_type = String::new();
    assert_eq!(
        p.type_ref(),
        TypeRef::ResourceType(ResourceTypeRef::Id("person".to_string()))
    );
    p.links[0].resource_type = None;
    assert_eq!(p.type_ref(), TypeRef::ResourceType(ResourceTypeRef::Empty));
    p.links = vec![];
    assert_eq!(p.type_ref(), TypeRef::Options(Options::from(vec!["a"])));
    p.options = None;
    assert_eq!(p.type_ref(), TypeRef::NoType);
}

#[test]
fn a_fixed_status_guards_its_own_arm() {
    let response = Response {
        status: Some(200),
        ..Default::default()
    };
    let m = method("list", Request::default(), vec![response]);
    let lines = generate_method(&m, "things", &Config::default(), &OptionNames::new()).unwrap();
    assert!(lines.contains(
        &"            s if s.as_u16() == reqwest::StatusCode::200 => {\n".to_string()
    ));
    assert!(lines.contains(&"                Ok(())\n".to_string()));
    assert!(!lines.iter().any(|l| l.contains("s.is_success()")));

    let any = method("list", Request::default(), vec![Response::default()]);
    let lines = generate_method(&any, "things", &Config::default(), &OptionNames::new()).unwrap();
    assert!(lines.contains(&"            s if s.is_success() => {\n".to_string()));
}

#[test]
fn numbers_are_written_in_decimal() {
    assert_eq!(decimal(0), "0");
    assert_eq!(decimal(7), "7");
    assert_eq!(decimal(200), "200");
    assert_eq!(decimal(-17), "-17");
    assert_eq!(decimal(i32::MAX), "2147483647");
    assert_eq!(decimal(i32::MIN), "-2147483648");
}

#[test]
fn lines_end_at_line_feeds() {
    assert_eq!(lines_of(""), Vec::<String>::new());
    assert_eq!(lines_of("a"), vec!["a"]);
    assert_eq!(lines_of("a\n"), vec!["a"]);
    assert_eq!(lines_of("a\r\nb\r"), vec!["a", "b\r"]);
    assert_eq!(lines_of("\n\nb"), vec!["", "", "b"]);
    assert_eq!(join(&vec!["a".to_string(), "b".to_string()], ", "), "a, b");
    assert_eq!(join(&vec![], ", "), "");
    assert_eq!(spaces(3), "   ");
    assert_eq!(
        indent(2, vec!["x\n".to_string()]),
        vec!["        x\n".to_string()]
    );
}

#[test]
fn method_names_lose_the_prefix_of_their_owner() {
    let m = method("things-getAll", Request::default(), vec![]);
    let lines =
        generate_method_representation(&m, "things", &Config::default(), &OptionNames::new())
            .unwrap();
    assert!(lines[0].starts_with("    pub fn get_all<'a>("));
    let lines =
        generate_method_representation(&m, "other", &Config::default(), &OptionNames::new())
            .unwrap();
    assert!(lines[0].starts_with("    pub fn things_get_all<'a>("));
}

#[test]
fn query_parameters_are_guarded_by_their_types() {
    let mut fixed = param("v", "xsd:string");
    fixed.fixed = Some("1".to_string());
    let mut optional = param("q", "xsd:string");
    optional.required = false;
    let mut many = param("tag", "xsd:string");
    many.repeating = true;
    let mut both = param("type", "xsd:int");
    both.repeating = true;
    both.required = false;
    let mut header = param("X-Token", "xsd:string");
    header.style = ParamStyle::Header;
    let request = Request {
        docs: vec![],
        params: vec![fixed, optional, many, both, header],
        representations: vec![],
    };
    let m = method("find", request, vec![]);
    let text = generate_method(&m, "x", &Config::default(), &OptionNames::new())
        .unwrap()
        .concat();
    assert!(text.contains(
        "pub fn find<'a>(&self, client: &'a dyn wadl::blocking::Client, q: Option<&str>, tag: &[String], r#type: Option<&[i32]>, X-Token: &str) -> std::result::Result<(), wadl::Error> {\n"
    ));
    assert!(text.contains("        url_.query_pairs_mut().append_pair(\"v\", \"1\");\n"));
    assert!(text.contains(
        "        if let Some(q) = q {\n            url_.query_pairs_mut().append_pair(\"q\", &q.to_string());\n        }\n"
    ));
    assert!(text.contains(
        "        for tag in tag {\n            url_.query_pairs_mut().append_pair(\"tag\", &tag.to_string());\n        }\n"
    ));
    assert!(text.contains(
        "        if let Some(r#type) = r#type {\n            for r#type in r#type {\n                url_.query_pairs_mut().append_pair(\"type\", &r#type.to_string());\n            }\n        }\n"
    ));
    assert!(text.contains("        req = req.header(\"X-Token\", &x_token.to_string());\n"));
    assert!(text.contains("    /// # Arguments\n    /// * `q`\n    /// * `tag`\n"));
}

#[test]
fn bodies_follow_the_media_type() {
    let names = OptionNames::new();
    let mut fixed = param("kind", "xsd:string");
    fixed.fixed = Some("x".to_string());
    fixed.required = false;
    let mut optional = param("name", "xsd:string");
    optional.required = false;
    let plain = param("age", "xsd:int");
    let mut def = json_definition(Some("person"), vec![fixed, optional, plain]);
    assert_eq!(
        serialize_representation_def(&def, &Config::default(), &names).unwrap(),
        vec![
            "let mut o = serde_json::Value::Object::new();".to_string(),
            "    o.insert(\"kind\", \"x\");\n".to_string(),
            "    if let Some(name) = name {\n".to_string(),
            "        o.insert(\"name\", &name.to_string());\n".to_string(),
            "    }\n".to_string(),
            "    o.insert(\"age\", &age.to_string());\n".to_string(),
            "req = req.json(&o);\n".to_string(),
        ]
    );
    def.media_type = Some(MediaType::parse("multipart/form-data").unwrap());
    let lines = serialize_representation_def(
        &def,
        &Config {
            asynchronous: true,
            strip_code_examples: false,
        },
        &names,
    )
    .unwrap();
    assert_eq!(lines[0], "let mut form = reqwest::multipart::Form::new();\n");
    assert_eq!(
        lines[1],
        "    form = form.part(\"kind\", reqwest::multipart::Part::text(\"x\"));\n"
    );
    assert_eq!(
        lines[5],
        "    form = form.part(\"age\", reqwest::multipart::Part::text(age.to_string()));\n"
    );
    def.media_type = Some(MediaType::parse("application/x-www-form-urlencoded").unwrap());
    let lines = serialize_representation_def(&def, &Config::default(), &names).unwrap();
    assert_eq!(
        lines[0],
        "let mut serializer = form_urlencoded::Serializer::new(String::new());\n"
    );
    assert_eq!(lines[1], "    serializer.append_pair(\"kind\", \"x\");\n");
    assert_eq!(lines.last().unwrap(), "req = req.body(serializer.finish());\n");
    let mut many = param("tag", "xsd:string");
    many.repeating = true;
    def.params = vec![many];
    let lines = serialize_representation_def(&def, &Config::default(), &names).unwrap();
    assert_eq!(
        lines[1..4],
        [
            "    for tag in tag {\n".to_string(),
            "        serializer.append_pair(\"tag\", &tag.to_string());\n".to_string(),
            "    }\n".to_string(),
        ]
    );
}

#[test]
fn repeating_parameters_are_sent_one_by_one() {
    let names = OptionNames::new();
    let mut many = param("tag", "string");
    many.repeating = true;
    let mut def = json_definition(Some("tags"), vec![many.clone()]);
    assert_eq!(
        serialize_representation_def(&def, &Config::default(), &names).unwrap(),
        vec![
            "let mut o = serde_json::Value::Object::new();".to_string(),
            "    for tag in tag {\n".to_string(),
            "        o.insert(\"tag\", &tag.to_string());\n".to_string(),
            "    }\n".to_string(),
            "req = req.json(&o);\n".to_string(),
        ]
    );
    many.required = false;
    def.params = vec![many.clone()];
    def.media_type = Some(MediaType::parse("multipart/form-data").unwrap());
    assert_eq!(
        serialize_representation_def(&def, &Config::default(), &names).unwrap(),
        vec![
            "let mut form = reqwest::blocking::multipart::Form::new();\n".to_string(),
            "    if let Some(tag) = tag {\n".to_string(),
            "        for tag in tag {\n".to_string(),
            "            form = form.part(\"tag\", reqwest::blocking::multipart::Part::text(tag.to_string()));\n"
                .to_string(),
            "        }\n".to_string(),
            "    }\n".to_string(),
            "req = req.multipart(form);\n".to_string(),
        ]
    );
    many.fixed = Some("x".to_string());
    def.params = vec![many];
    assert_eq!(
        serialize_representation_def(&def, &Config::default(), &names).unwrap()[1],
        "    form = form.part(\"tag\", reqwest::blocking::multipart::Part::text(\"x\"));\n"
    );
}

#[test]
fn parameters_under_a_resource_type_are_all_seen() {
    let mut deep = param("deep", "");
    deep.options = Some(Options::from(vec!["a", "b"]));
    let sub = Resource {
        id: None,
        path: Some("sub".to_string()),
        types: vec![],
        query_type: MediaType::json(),
        methods: vec![method(
            "m",
            Request {
                params: vec![param("inner", "xsd:int")],
                ..Default::default()
            },
            vec![],
        )],
        docs: vec![],
        subresources: vec![],
        params: vec![deep],
    };
    let handle = ResourceType {
        id: "things".to_string(),
        query_type: MediaType::json(),
        methods: vec![method(
            "things-list",
            Request {
                params: vec![param("own_method", "xsd:int")],
                ..Default::default()
            },
            vec![],
        )],
        docs: vec![],
        subresources: vec![sub],
        params: vec![param("own", "xsd:int")],
    };
    let seen: Vec<String> = handle
        .iter_all_params()
        .iter()
        .map(|p| p.name.clone())
        .collect();
    assert_eq!(seen, vec!["own", "deep", "inner", "own_method"]);
    assert_eq!(handle.iter_referenced_types().len(), 4);
    let app = Application {
        resources: vec![],
        resource_types: vec![handle],
        docs: vec![],
        grammars: vec![],
        representations: vec![],
    };
    assert_eq!(app.iter_all_params().len(), 4);
    let text = generate(&app, &Config::default()).unwrap();
    assert!(text.contains("pub enum Deep {\n"));
}

#[test]
fn options_of_values_keep_the_first_occurrences() {
    let values = vec![
        "b".to_string(),
        "a".to_string(),
        "b".to_string(),
        "c".to_string(),
        "a".to_string(),
    ];
    assert_eq!(Options::of_values(&values).keys(), vec!["b", "a", "c"]);
    assert_eq!(Options::from(values).keys(), vec!["b", "a", "c"]);
    assert_eq!(Options::of_values(&vec![]).keys(), Vec::<&str>::new());
}

#[test]
fn html_is_converted_only_where_the_customization_can() {
    let doc = Doc {
        title: None,
        lang: None,
        content: "<p>Some <b>text</b></p>".to_string(),
        xmlns: Some(Url::parse("http://www.w3.org/1999/xhtml").unwrap()),
    };
    assert_eq!(
        wadl::codegen::format_doc(&doc, &Config::default()),
        "<p>Some <b>text</b></p>"
    );
    let rules = wadl::codegen::Rules {
        markdown: vec![wadl::codegen::Rule {
            keys: vec![doc.content.clone()],
            answer: vec!["Some **text**\n```python\nx\n```".to_string()],
        }],
        strip_code_examples: true,
        ..Default::default()
    };
    assert_eq!(wadl::codegen::format_doc(&doc, &rules), "Some **text**");
    let plain = Doc {
        xmlns: None,
        ..doc.clone()
    };
    assert_eq!(
        wadl::codegen::format_doc(&plain, &rules),
        "<p>Some <b>text</b></p>"
    );
}

#[test]
fn a_document_is_surveyed_before_it_is_emitted() {
    let text = "<application>
  <doc>Plain</doc>
  <resources base=\"http://example.com/\">
    <resource path=\"a\">
      <param name=\"p\" style=\"plain\" type=\"xsd:int\"/>
      <resource path=\"b\"><param name=\"t\" style=\"template\"/></resource>
    </resource>
  </resources>
  <resource_type id=\"things\">
    <doc xmlns=\"http://www.w3.org/1999/xhtml\"><p>All <i>things</i></p></doc>
    <param name=\"m\" style=\"matrix\" type=\"xsd:int\"/>
    <method id=\"things-get\" name=\"GET\">
      <doc xmlns=\"http://example.com/other\">Other</doc>
      <request>
        <param name=\"q\" style=\"query\" type=\"xsd:int\"><doc xmlns=\"http://www.w3.org/1999/xhtml\">A <b>q</b></doc></param>
        <param name=\"x\" style=\"template\" type=\"xsd:int\"/>
      </request>
      <response>
        <param name=\"r\" style=\"query\" type=\"xsd:int\"/>
        <representation mediaType=\"application/json\"><param name=\"h\" style=\"header\" type=\"xsd:int\"/></representation>
      </response>
    </method>
  </resource_type>
  <representation id=\"thing\" mediaType=\"application/json\">
    <param name=\"ok\" style=\"plain\" type=\"xsd:int\"/>
    <param name=\"bad\" style=\"header\" type=\"xsd:int\"/>
  </representation>
</application>";
    let app = parse_string(text).unwrap();
    let found: Vec<String> = wadl::codegen::warnings(&app)
        .iter()
        .map(|w| w.message())
        .collect();
    assert_eq!(
        found,
        vec![
            "Invalid param style for `p` in a resource",
            "No type for param `t`",
            "Invalid param style for `m` in a resource type",
            "Invalid param style for `x` in a request",
            "Invalid param style for `r` in a response",
            "Invalid param style for `h` in a representation",
            "Invalid param style for `bad` in a representation",
            "Unknown xmlns: http://example.com/other",
        ]
    );
    assert_eq!(
        wadl::codegen::warnings(&app)[0],
        wadl::codegen::Warning::StyleNotAllowed(wadl::codegen::Place::Resource, "p".to_string())
    );
    assert_eq!(wadl::codegen::emitted_docs(&app).len(), 4);
    let html = wadl::codegen::xhtml_contents(&app);
    assert_eq!(html.len(), 2);
    assert!(html[0].contains("All <"));
    assert!(html[1].starts_with("A <"));
}

#[test]
fn accessors_wrap_and_unwrap_urls() {
    let mut p = param("owner_link", "");
    p.links = vec![link_to("person")];
    let lines = generate_resource_type_ref_accessors(
        "owner_link",
        &ResourceTypeRef::Id("person".to_string()),
        &p,
        &Config::default(),
    );
    assert_eq!(
        lines,
        vec![
            "    pub fn owner_link(&self) -> Person {\n".to_string(),
            "        Person(self.owner_link.clone())\n".to_string(),
            "    }\n".to_string(),
            "\n".to_string(),
            "    pub fn set_owner_link(&mut self, value: Person) {\n".to_string(),
            "        self.owner_link = value.url().clone();\n".to_string(),
            "    }\n".to_string(),
        ]
    );
    p.required = false;
    let lines = generate_resource_type_ref_accessors(
        "owner_link",
        &ResourceTypeRef::Id("person".to_string()),
        &p,
        &Config::default(),
    );
    assert_eq!(lines[0], "    pub fn owner_link(&self) -> Option<Person> {\n");
    assert_eq!(
        lines[1],
        "        self.owner_link.as_ref().map(|x| Person(x.clone()))\n"
    );
    assert_eq!(
        lines[5],
        "        self.owner_link = value.map(|x| x.url().clone());\n"
    );
    assert!(generate_resource_type_ref_accessors(
        "owner_link",
        &ResourceTypeRef::Empty,
        &p,
        &Config::default()
    )
    .is_empty());
}

#[test]
fn a_record_with_absent_fields_has_a_default() {
    let mut p = param("owner-link", "");
    p.required = false;
    p.links = vec![link_to("person")];
    let def = json_definition(Some("team"), vec![p]);
    let text = generate_representation(&def, &Config::default(), &OptionNames::new())
        .unwrap()
        .concat();
    assert!(text.contains("pub struct Team {\n    // was: \n    pub owner_link: Option<url::Url>,\n\n}\n"));
    assert!(text.contains("impl Default for Team {\n    fn default() -> Self {\n        Self {\n            owner_link: Default::default(),\n        }\n    }\n}\n"));
    assert!(text.contains("impl Team {\n    pub fn owner_link(&self) -> Option<Person> {\n"));
}

#[test]
fn enums_list_their_values_in_order() {
    let options = Options::from(vec!["b c", "a"]);
    assert_eq!(
        generate_options("Kind", &options).unwrap(),
        vec![
            "#[derive(Debug, Clone, Copy, PartialEq, Eq, std::hash::Hash, serde::Serialize, serde::Deserialize)]\n".to_string(),
            "pub enum Kind {\n".to_string(),
            "    #[serde(rename = \"b c\")]\n".to_string(),
            "    BC,\n".to_string(),
            "    #[serde(rename = \"a\")]\n".to_string(),
            "    A,\n".to_string(),
            "}\n".to_string(),
            "\n".to_string(),
            "impl std::fmt::Display for Kind {\n".to_string(),
            "    fn fmt(&self, f: &mut std::fmt::Formatter<'_>) -> std::fmt::Result {\n".to_string(),
            "        match self {\n".to_string(),
            "            Kind::BC => write!(f, \"b c\"),\n".to_string(),
            "            Kind::A => write!(f, \"a\"),\n".to_string(),
            "        }\n".to_string(),
            "    }\n".to_string(),
            "}\n".to_string(),
        ]
    );
}

fn kind_of(r: Result<Vec<String>, wadl::codegen::CompileError>) -> CompileErrorKind {
    r.unwrap_err().kind
}

#[test]
fn each_failure_of_emission_has_its_kind() {
    let names = OptionNames::new();
    let config = Config::default();

    let m = method(
        "m",
        Request::default(),
        vec![Response::default(), Response::default()],
    );
    assert_eq!(
        kind_of(generate_method(&m, "x", &config, &names)),
        CompileErrorKind::MultipleResponses
    );

    let reference = || Representation::Reference(RepresentationRef::Id("r".to_string()));
    let two = Response {
        representations: vec![reference(), reference()],
        ..Default::default()
    };
    let m = method("m", Request::default(), vec![two]);
    assert_eq!(
        kind_of(generate_method(&m, "x", &config, &names)),
        CompileErrorKind::MultipleRepresentations
    );

    let mut header = param("h", "xsd:string");
    header.style = ParamStyle::Header;
    header.links = vec![link_to("person")];
    let beside = Response {
        params: vec![header.clone()],
        representations: vec![reference()],
        ..Default::default()
    };
    let m = method("m", Request::default(), vec![beside]);
    assert_eq!(
        kind_of(generate_method(&m, "x", &config, &names)),
        CompileErrorKind::ParamsWithRepresentation
    );

    let link = Representation::Reference(RepresentationRef::Link(
        Url::parse("http://example.com/").unwrap(),
    ));
    let unnamed = Response {
        representations: vec![link],
        ..Default::default()
    };
    let m = method("m", Request::default(), vec![unnamed]);
    assert_eq!(
        kind_of(generate_method(&m, "x", &config, &names)),
        CompileErrorKind::MissingId
    );

    let plain = Response {
        params: vec![param("p", "xsd:string")],
        ..Default::default()
    };
    let m = method("m", Request::default(), vec![plain]);
    assert_eq!(
        kind_of(generate_method(&m, "x", &config, &names)),
        CompileErrorKind::UnsupportedResponseParam
    );

    let found = Response {
        params: vec![header],
        ..Default::default()
    };
    let m = method("m", Request::default(), vec![found]);
    let text = generate_method(&m, "x", &config, &names).unwrap().concat();
    assert!(text.contains("-> std::result::Result<Person, wadl::Error>"));
    assert!(text.contains(
        "                Ok(Person(resp.headers().get(\"h\")?.to_str()?.parse().unwrap()))\n"
    ));

    let mut template = param("id", "xsd:string");
    template.style = ParamStyle::Template;
    let request = Request {
        params: vec![template],
        ..Default::default()
    };
    let m = method("m", request, vec![]);
    assert_eq!(
        kind_of(generate_method(&m, "x", &config, &names)),
        CompileErrorKind::UnsupportedRequestParam
    );

    let mut fixed = param("v", "xsd:string");
    fixed.fixed = Some("1".to_string());
    fixed.repeating = true;
    let request = Request {
        params: vec![fixed],
        ..Default::default()
    };
    let m = method("m", request, vec![]);
    assert_eq!(
        kind_of(generate_method(&m, "x", &config, &names)),
        CompileErrorKind::RepeatingFixedParam
    );

    let mut chosen = param("c", "");
    chosen.options = Some(Options::from(vec!["a"]));
    let request = Request {
        params: vec![chosen],
        ..Default::default()
    };
    let m = method("m", request, vec![]);
    assert_eq!(
        kind_of(generate_method(&m, "x", &config, &names)),
        CompileErrorKind::UnknownOptions
    );

    let mut xml = json_definition(Some("x"), vec![]);
    xml.media_type = Some(MediaType::parse("application/xml").unwrap());
    assert_eq!(
        kind_of(generate_representation(&xml, &config, &names)),
        CompileErrorKind::UnsupportedMediaType
    );
    assert_eq!(
        kind_of(serialize_representation_def(&xml, &config, &names)),
        CompileErrorKind::UnsupportedMediaType
    );
    assert_eq!(
        kind_of(generate_representation(
            &json_definition(None, vec![]),
            &config,
            &names
        )),
        CompileErrorKind::MissingId
    );
    assert_eq!(
        kind_of(generate_options("E", &Options::from(vec!["ok", "+"]))),
        CompileErrorKind::InvalidOptionValue
    );
}

#[test]
fn failures_of_several_items_come_back_together() {
    let bad = |id: &str| {
        method(
            id,
            Request {
                params: vec![param("p", "xsd:float")],
                ..Default::default()
            },
            vec![],
        )
    };
    let handle = ResourceType {
        id: "things".to_string(),
        query_type: MediaType::json(),
        methods: vec![bad("one"), method("fine", Request::default(), vec![]), bad("two")],
        docs: vec![],
        subresources: vec![],
        params: vec![],
    };
    let errors = generate_resource_type(&handle, &Config::default(), &OptionNames::new())
        .unwrap_err();
    assert_eq!(errors.len(), 2);
    assert_eq!(errors[0].item, "one");
    assert_eq!(errors[1].item, "two");

    let mut xml = json_definition(Some("x"), vec![]);
    xml.media_type = None;
    let app = Application {
        resources: vec![],
        resource_types: vec![handle],
        docs: vec![],
        grammars: vec![],
        representations: vec![xml],
    };
    let errors = generate(&app, &Config::default()).unwrap_err();
    assert_eq!(errors.len(), 3);
    assert_eq!(errors[0].kind, CompileErrorKind::UnsupportedMediaType);
    assert_eq!(errors[1].kind, CompileErrorKind::UnknownType);
}

const SAMPLE: &str = "<?xml version=\"1.0\"?>
<application xmlns=\"http://wadl.dev.java.net/2009/02\">
  <doc title=\"Sample\">A sample</doc>
  <grammars><include href=\"sample.xsd\"/></grammars>
  <resources base=\"http://example.com/api/\">
    <resource path=\"people\" type=\"#people\">
      <resource path=\"{id}\" id=\"one\"/>
    </resource>
  </resources>
  <resource_type id=\"people\">
    <doc>All the people</doc>
    <method id=\"people-find\" name=\"GET\">
      <request>
        <param name=\"order\" style=\"query\">
          <option value=\"asc\"/>
          <option value=\"desc\"/>
        </param>
        <param name=\"text\" style=\"query\" type=\"xsd:string\" required=\"true\"/>
      </request>
      <response status=\"200\">
        <representation href=\"#person\"/>
      </response>
    </method>
  </resource_type>
  <representation id=\"person\" mediaType=\"application/json\">
    <param name=\"name\" style=\"plain\" type=\"xsd:string\" required=\"true\"/>
    <param name=\"team_link\" style=\"plain\">
      <link resource_type=\"#team\"/>
    </param>
    <param name=\"sort\" style=\"plain\" required=\"true\">
      <option value=\"desc\"/>
      <option value=\"asc\"/>
    </param>
  </representation>
</application>";

#[test]
fn the_same_document_gives_the_same_code() {
    let app = parse_string(SAMPLE).unwrap();
    let first = generate(&app, &Config::default()).unwrap();
    let second = generate(&app, &Config::default()).unwrap();
    assert_eq!(first, second);
    let again = generate(&parse_string(SAMPLE).unwrap(), &Config::default()).unwrap();
    assert_eq!(first, again);
    assert!(first.starts_with("#[derive(Debug, Clone, Copy, PartialEq, Eq, std::hash::Hash, serde::Serialize, serde::Deserialize)]\npub enum Order {\n    #[serde(rename = \"asc\")]\n    Asc,\n"));
    assert_eq!(first.matches("pub enum ").count(), 1);
    assert!(first.contains("/// # Sample\n///\n/// A sample\n"));
    assert!(first.contains("pub struct Person {\n"));
    assert!(first.contains("    pub sort: Order,\n"));
    assert!(first.contains("    pub team_link: Option<url::Url>,\n"));
    assert!(first.contains("    pub fn team_link(&self) -> Option<Team> {\n"));
    assert!(first.contains("/// All the people\npub struct People (reqwest::Url);\n"));
    assert!(first.contains("    pub fn find<'a>(&self, client: &'a dyn wadl::blocking::Client, order: Option<&Order>, text: &str) -> std::result::Result<Person, wadl::Error> {\n"));
    assert!(first.contains("        req = req.header(reqwest::header::ACCEPT, \"application/json\");\n"));
    assert!(first.contains("                    Some(\"application/json\") => {\n                             Ok(resp.json::<Person>()?)\n                        }\n"));
    let asynchronous = generate(
        &app,
        &Config {
            asynchronous: true,
            strip_code_examples: false,
        },
    )
    .unwrap();
    assert!(asynchronous.contains("    pub async fn find<'a>(&self, client: &'a dyn wadl::r#async::Client"));
    assert!(asynchronous.contains("Ok(resp.json::<Person>().await?)"));
}

#[test]
fn the_sample_is_read_as_written() {
    let app = parse_string(SAMPLE).unwrap();
    assert_eq!(app.docs, vec![Doc {
        title: Some("Sample".to_string()),
        lang: None,
        content: "A sample".to_string(),
        xmlns: Some(Url::parse("http://wadl.dev.java.net/2009/02").unwrap()),
    }]);
    assert_eq!(app.grammars.len(), 1);
    assert_eq!(app.grammars[0].href.as_str(), "sample.xsd");
    assert_eq!(app.resources.len(), 1);
    assert_eq!(app.resources[0].base.as_ref().unwrap().as_str(), "http://example.com/api/");
    let people = &app.resources[0].resources[0];
    assert_eq!(people.types, vec![ResourceTypeRef::Id("people".to_string())]);
    assert_eq!(people.query_type.as_str(), "application/x-www-form-urlencoded");
    assert_eq!(people.subresources.len(), 1);
    assert_eq!(people.subresources[0].id, Some("one".to_string()));
    assert_eq!(people.subresources[0].types, vec![ResourceTypeRef::Empty]);
    assert_eq!(app.resource_types.len(), 1);
    let find = &app.resource_types[0].methods[0];
    assert_eq!(find.id, "people-find");
    assert_eq!(find.request.params[0].options, Some(Options::from(vec!["desc", "asc"])));
    assert_eq!(find.request.params[0].options.as_ref().unwrap().keys(), vec!["asc", "desc"]);
    assert!(!find.request.params[0].required);
    assert!(find.request.params[1].required);
    assert_eq!(find.responses[0].status, Some(200));
    assert_eq!(app.representations.len(), 1);
    assert_eq!(app.representations[0].params[1].links[0].resource_type, Some(ResourceTypeRef::Id("team".to_string())));
    assert_eq!(app.iter_all_params().len(), 5);
    assert_eq!(app.iter_referenced_types(), vec!["".to_string(), "xsd:string".to_string()]);
    let found = app.get_resource_by_href(&Url::parse("http://example.com/api/people").unwrap());
    assert_eq!(found.unwrap().path, Some("people".to_string()));
    assert_eq!(app.iter_resources().len(), 1);
    let by_trait: Application = SAMPLE.parse().unwrap();
    assert_eq!(by_trait.resource_types[0].id, "people");
}

fn parse_kind(text: &str) -> ErrorKind {
    parse_string(text).unwrap_err().error_kind()
}

#[test]
fn each_failure_of_reading_has_its_kind() {
    assert_eq!(parse_kind("<application>"), ErrorKind::Xml);
    assert_eq!(parse_kind(""), ErrorKind::Xml);
    assert_eq!(
        parse_kind("<application><resources base=\"not a url\"/></application>"),
        ErrorKind::Url
    );
    assert_eq!(
        parse_kind("<application><resources><resource type=\"nothing\"/></resources></application>"),
        ErrorKind::Url
    );
    assert_eq!(
        parse_kind("<application><resource_type id=\"x\" queryType=\"none\"/></application>"),
        ErrorKind::Mime
    );
    assert_eq!(
        parse_kind("<application><grammars><include href=\"%GG\"/></grammars></application>"),
        ErrorKind::Iri
    );
    assert_eq!(
        parse_kind("<application><grammars><include/></grammars></application>"),
        ErrorKind::Invalid
    );
    assert_eq!(
        parse_kind("<application><resource_type/></application>"),
        ErrorKind::Invalid
    );
    assert_eq!(
        parse_kind("<application><representation href=\"#x\"/></application>"),
        ErrorKind::Invalid
    );
    for param in [
        "<param name=\"a\"/>",
        "<param style=\"query\"/>",
        "<param name=\"a\" style=\"other\"/>",
        "<param name=\"a\" style=\"query\"><option/></param>",
        "<param name=\"a\" style=\"query\"><doc/><doc/></param>",
    ] {
        let text = format!(
            "<application><resource_type id=\"x\">{}</resource_type></application>",
            param
        );
        assert_eq!(parse_kind(&text), ErrorKind::Invalid);
    }
    let status = "<application><resource_type id=\"x\"><method><response status=\"2xx\"/></method></resource_type></application>";
    assert_eq!(parse_kind(status), ErrorKind::Invalid);
    let error = parse_string("<application>").unwrap_err();
    assert!(error.message().starts_with("XML error: "));
    let error = parse_string("<application><resources base=\"x\"/></application>").unwrap_err();
    assert!(error.message().starts_with("URL error: relative URL"));
    let error =
        parse_string("<application><resource_type id=\"x\" queryType=\"none\"/></application>")
            .unwrap_err();
    assert!(error.message().starts_with("MIME error: "));
    assert!(error.message().len() > "MIME error: ".len());
}

#[test]
fn documentation_keeps_its_markup() {
    let xml = "<method xmlns=\"http://www.w3.org/1999/xhtml\"><doc>See <b>this</b> and <i>that</i></doc></method>";
    let element = XmlElement::parse(xml.as_bytes()).unwrap();
    let docs = parse_docs(&element).unwrap();
    assert_eq!(docs.len(), 1);
    assert_eq!(
        docs[0].xmlns,
        Some(Url::parse("http://www.w3.org/1999/xhtml").unwrap())
    );
    assert!(docs[0].content.starts_with("See <?xml"));
    assert!(docs[0].content.contains(">this</b> and <?xml"));
    assert!(docs[0].content.ends_with(">that</i>"));
    assert_eq!(element.name, "method");
    assert_eq!(element.attribute("missing"), None);
    assert_eq!(element.children.len(), 1);
}

#[test]
fn ids_are_checked_for_uniqueness() {
    let handle = |id: &str| ResourceType {
        id: id.to_string(),
        query_type: MediaType::json(),
        methods: vec![],
        docs: vec![],
        subresources: vec![],
        params: vec![],
    };
    let mut app = Application {
        resources: vec![],
        resource_types: vec![handle("a"), handle("b")],
        docs: vec![],
        grammars: vec![],
        representations: vec![
            json_definition(Some("x"), vec![]),
            json_definition(None, vec![]),
            json_definition(None, vec![]),
            json_definition(Some("y"), vec![]),
        ],
    };
    assert!(app.has_unique_ids());
    app.representations.push(json_definition(Some("x"), vec![]));
    assert!(!app.has_unique_ids());
    app.representations.pop();
    app.resource_types.push(handle("a"));
    assert!(!app.has_unique_ids());
    assert_eq!(app.get_resource_type_by_id("a").unwrap().id, "a");
}

#[test]
fn a_resource_can_be_taken_out_of_its_document() {
    let app = parse_string(SAMPLE).unwrap();
    let href = Url::parse("http://example.com/api/people").unwrap();
    let taken = app.into_resource_by_href(&href).unwrap();
    assert_eq!(taken.path, Some("people".to_string()));
    assert_eq!(taken.subresources.len(), 1);
    let app = parse_string(SAMPLE).unwrap();
    let other = Url::parse("http://example.com/api/teams").unwrap();
    assert!(app.into_resource_by_href(&other).is_none());
    let app = parse_string(SAMPLE).unwrap();
    let all = app.into_resources();
    assert_eq!(all.len(), 1);
    assert_eq!(all[0].0.as_ref().unwrap().as_str(), "http://example.com/api/people");
}

#[test]
fn the_premise_of_stable_field_names_can_be_tested() {
    for name in ["FooBar", "GetSomeURL", "foo-bar", "\u{130}stanbul", "\u{c9}t\u{e9}", ""] {
        assert!(wadl::codegen::names::is_lowercase_settled(name));
        let once = snake_case_name(name);
        assert_eq!(snake_case_name(&once), once);
        assert!(!once.contains("__"));
    }
    assert_eq!(snake_case_name("a__B-_c"), "a__b__c");
}

#[test]
fn an_element_tells_its_markup_and_its_namespaces() {
    let xml = "<a xmlns=\"http://example.com/ns\" xmlns:p=\"http://example.com/p\" k=\"v\"><!-- c --><b>t</b><![CDATA[d]]></a>";
    let element = XmlElement::parse(xml.as_bytes()).unwrap();
    assert_eq!(element.namespace(""), Some("http://example.com/ns".to_string()));
    assert_eq!(element.namespace("p"), Some("http://example.com/p".to_string()));
    assert_eq!(element.namespace("q"), None);
    assert_eq!(element.attribute("k"), Some(&"v".to_string()));
    let markup = element.markup().unwrap();
    assert!(markup.starts_with("<?xml"));
    assert!(markup.contains("<b>t</b>"));
    assert_eq!(element.children.len(), 3);
    assert!(matches!(&element.children[0], wadl::xml::XmlNode::Comment(c) if c == " c "));
    assert!(matches!(&element.children[1], wadl::xml::XmlNode::Element(b) if b.name == "b"));
    assert!(matches!(&element.children[2], wadl::xml::XmlNode::CData(d) if d == "d"));
    let bare = XmlElement::parse("<a/>".as_bytes()).unwrap();
    assert_eq!(bare.namespace(""), None);
}
