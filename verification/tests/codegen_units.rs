use std::str::FromStr;
use wadl::ast::{
    Doc, Link, Method, Options, Param, ParamStyle, RepresentationDef, RepresentationRef, Request,
    ResourceType, ResourceTypeRef, Response,
};
use wadl::codegen::method::{apply_map_fn, rust_type_for_response, supported_representation_def};
use wadl::codegen::names::{enum_rust_value, escape_rust_reserved};
use wadl::codegen::operation::generate_method;
use wadl::codegen::option_names::OptionNames;
use wadl::codegen::representation::generate_representation_struct_json;
use wadl::codegen::types::{
    param_rust_type, readonly_rust_type, representation_rust_type, resource_type_rust_type,
};
use wadl::codegen::{
    camel_case_name, format_arg_doc, format_doc, generate, generate_doc, generate_resource_type,
    snake_case_name, strip_code_examples, Config, ParamContainer, Rule, Rules,
};
use wadl::media::MediaType;
use wadl::url::Url;
use wadl::WADL_MIME_TYPE;

pub const XHTML_MIME_TYPE: &str = "application/xhtml+xml";

/// The customization that decides nothing, with the Markdown for one HTML text.
fn with_markdown(html: &str) -> Rules {
    Rules {
        markdown: vec![Rule {
            keys: vec![html.to_string()],
            answer: vec![html2md::parse_html(html)],
        }],
        ..Default::default()
    }
}

#[test]
fn codegen_test_camel_case_name() {
    assert_eq!(camel_case_name("foo-bar"), "FooBar");
    assert_eq!(camel_case_name("foo-bar-baz"), "FooBarBaz");
    assert_eq!(camel_case_name("foo-bar-baz-quux"), "FooBarBazQuux");
    assert_eq!(camel_case_name("_foo-bar"), "_fooBar");
    assert_eq!(camel_case_name("service-root-json"), "ServiceRootJson");
    assert_eq!(camel_case_name("get-some-URL"), "GetSomeURL");
}

#[test]
fn test_generate_empty() {
    let input = wadl::ast::Application {
        docs: vec![],
        representations: vec![],
        resource_types: vec![],
        resources: vec![],
        grammars: vec![],
    };
    let config = Config::default();
    let lines = generate(&input, &config).unwrap();
    assert_eq!(lines, "".to_string());
}

#[test]
fn test_enum_rust_value() {
    assert_eq!(enum_rust_value("foo"), "Foo");
    assert_eq!(enum_rust_value("foo bar"), "FooBar");
    assert_eq!(enum_rust_value("foo bar blah"), "FooBarBlah");
    assert_eq!(enum_rust_value("foo-bar"), "FooBar");
}

#[test]
fn codegen_test_snake_case_name() {
    assert_eq!(snake_case_name("F"), "f");
    assert_eq!(snake_case_name("FooBar"), "foo_bar");
    assert_eq!(snake_case_name("FooBarBaz"), "foo_bar_baz");
    assert_eq!(snake_case_name("FooBarBazQuux"), "foo_bar_baz_quux");
    assert_eq!(snake_case_name("_FooBar"), "_foo_bar");
    assert_eq!(snake_case_name("ServiceRootJson"), "service_root_json");
    assert_eq!(snake_case_name("GetSomeURL"), "get_some_url");
}

#[test]
fn test_strip_code_examples() {
    let input = "This is a test\n```python\ndef foo():\n    pass\n```\n\nThis is another test\n```python\ndef bar():\n    pass\n```\n";
    let expected = "This is a test\n\nThis is another test";
    assert_eq!(strip_code_examples(input.to_string()), expected);
}

#[test]
fn test_format_doc_plain() {
    let doc = Doc {
        title: None,
        lang: None,
        content: "This is a test".to_string(),
        xmlns: None,
    };

    assert_eq!(
        format_doc(&doc, &Config::default()),
        "This is a test".to_string()
    );
}

#[test]
fn test_format_doc_html() {
    let doc = Doc {
        title: None,
        lang: None,
        content: "<p>This is a test</p>".to_string(),
        xmlns: Some(Url::parse("http://www.w3.org/1999/xhtml").unwrap()),
    };

    assert_eq!(
        format_doc(&doc, &with_markdown(&doc.content)),
        "This is a test".to_string()
    );
}

#[test]
fn test_format_doc_html_link() {
    let doc = Doc {
        title: None,
        lang: None,
        content: "<p>This is a <a href=\"https://example.com\">test</a></p>".to_string(),
        xmlns: Some(Url::parse("http://www.w3.org/1999/xhtml").unwrap()),
    };

    assert_eq!(
        format_doc(&doc, &with_markdown(&doc.content)),
        "This is a [test](https://example.com)".to_string()
    );
}

#[test]
fn test_generate_doc_plain() {
    let doc = Doc {
        title: Some("Foo".to_string()),
        lang: None,
        content: "This is a test".to_string(),
        xmlns: None,
    };

    assert_eq!(
        generate_doc(&doc, 0, &Config::default()),
        vec![
            "/// # Foo\n".to_string(),
            "///\n".to_string(),
            "/// This is a test\n".to_string(),
        ]
    );
}

#[test]
fn test_generate_doc_html() {
    let doc = Doc {
        title: Some("Foo".to_string()),
        lang: None,
        content: "<p>This is a test</p>".to_string(),
        xmlns: Some(Url::parse("http://www.w3.org/1999/xhtml").unwrap()),
    };

    assert_eq!(
        generate_doc(&doc, 0, &with_markdown(&doc.content)),
        vec![
            "/// # Foo\n".to_string(),
            "///\n".to_string(),
            "/// This is a test\n".to_string(),
        ]
    );
}

#[test]
fn test_generate_doc_multiple_lines() {
    let doc = Doc {
        title: Some("Foo".to_string()),
        lang: None,
        content: "This is a test\n\nThis is another test".to_string(),
        xmlns: None,
    };

    assert_eq!(
        generate_doc(&doc, 0, &Config::default()),
        vec![
            "/// # Foo\n".to_string(),
            "///\n".to_string(),
            "/// This is a test\n".to_string(),
            "///\n".to_string(),
            "/// This is another test\n".to_string(),
        ]
    );
}

#[test]
fn test_resource_type_rust_type() {
    let rt = ResourceTypeRef::from_str("https://api.launchpad.net/1.0/#person").unwrap();
    assert_eq!(resource_type_rust_type(&rt), "Person");
}

#[test]
fn test_param_rust_type() {
    let rt = ResourceTypeRef::from_str("https://api.launchpad.net/1.0/#person").unwrap();
    let mut param = Param {
        name: "person".to_string(),
        declared_type: "string".to_string(),
        required: true,
        repeating: false,
        fixed: None,
        doc: None,
        options: None,
        id: None,
        style: ParamStyle::Plain,
        path: None,
        links: vec![Link {
            resource_type: Some(rt),
            relation: None,
            reverse_relation: None,
            doc: None,
        }],
    };

    let method = Method {
        docs: vec![],
        id: "getPerson".to_string(),
        name: "getPerson".to_string(),
        request: Request {
            docs: vec![],
            params: vec![param.clone()],
            representations: vec![],
        },
        responses: vec![Response {
            status: None,
            docs: vec![],
            params: vec![param.clone()],
            representations: vec![],
        }],
    };

    let container = ParamContainer::Request(&method, &method.request);
    let none = OptionNames::new();

    let (param_type, _) =
        param_rust_type(&container, &param, &Config::default(), false, &none).unwrap();
    assert_eq!(param_type, "Person");

    param.required = false;
    let (param_type, _) =
        param_rust_type(&container, &param, &Config::default(), false, &none).unwrap();
    assert_eq!(param_type, "Option<Person>");

    param.repeating = true;
    param.required = true;
    let (param_type, _) =
        param_rust_type(&container, &param, &Config::default(), false, &none).unwrap();
    assert_eq!(param_type, "Vec<Person>");

    param.repeating = false;
    param.declared_type = "string".to_string();
    param.links = vec![];
    let (param_type, _) =
        param_rust_type(&container, &param, &Config::default(), false, &none).unwrap();
    assert_eq!(param_type, "String");

    param.declared_type = "binary".to_string();
    let (param_type, _) =
        param_rust_type(&container, &param, &Config::default(), false, &none).unwrap();
    assert_eq!(param_type, "Vec<u8>");

    param.declared_type = "xsd:date".to_string();
    let (param_type, _) =
        param_rust_type(&container, &param, &Config::default(), false, &none).unwrap();
    assert_eq!(param_type, "chrono::NaiveDate");

    param.declared_type = "string".to_string();
    param.options = Some(Options::from(vec!["one".to_string(), "two".to_string()]));
    let mut names = OptionNames::new();
    assert!(names.insert(
        Options::from(vec!["one".to_string(), "two".to_string()]),
        "MyOptions".to_string()
    ));
    let (param_type, _) =
        param_rust_type(&container, &param, &Config::default(), false, &names).unwrap();
    assert_eq!(param_type, "MyOptions");
}

#[test]
fn test_readonly_rust_type() {
    assert_eq!(readonly_rust_type("String"), "&str");
    assert_eq!(readonly_rust_type("Vec<String>"), "&[String]");
    assert_eq!(
        readonly_rust_type("Option<Vec<String>>"),
        "Option<&[String]>"
    );
    assert_eq!(readonly_rust_type("Option<String>"), "Option<&str>");
    assert_eq!(readonly_rust_type("usize"), "&usize");
}

#[test]
fn test_escape_rust_reserved() {
    assert_eq!(escape_rust_reserved("type"), "r#type");
    assert_eq!(escape_rust_reserved("match"), "r#match");
    assert_eq!(escape_rust_reserved("move"), "r#move");
    assert_eq!(escape_rust_reserved("use"), "r#use");
    assert_eq!(escape_rust_reserved("loop"), "r#loop");
    assert_eq!(escape_rust_reserved("continue"), "r#continue");
    assert_eq!(escape_rust_reserved("break"), "r#break");
    assert_eq!(escape_rust_reserved("fn"), "r#fn");
    assert_eq!(escape_rust_reserved("struct"), "r#struct");
    assert_eq!(escape_rust_reserved("enum"), "r#enum");
    assert_eq!(escape_rust_reserved("trait"), "r#trait");
    assert_eq!(escape_rust_reserved("impl"), "r#impl");
    assert_eq!(escape_rust_reserved("pub"), "r#pub");
    assert_eq!(escape_rust_reserved("as"), "r#as");
    assert_eq!(escape_rust_reserved("const"), "r#const");
    assert_eq!(escape_rust_reserved("let"), "r#let");
    assert_eq!(escape_rust_reserved("foo"), "foo");
}

#[test]
fn test_representation_rust_type() {
    let rt = RepresentationRef::Id("person".to_string());
    assert_eq!(representation_rust_type(&rt), "Person");
}

#[test]
fn test_generate_representation() {
    let input = RepresentationDef {
        media_type: Some(MediaType::parse("application/json").unwrap()),
        element: None,
        profile: None,
        docs: vec![],
        id: Some("person".to_string()),
        params: vec![
            Param {
                name: "name".to_string(),
                declared_type: "string".to_string(),
                style: ParamStyle::Plain,
                required: true,
                doc: Some(Doc::new("The name of the person".to_string())),
                path: None,
                id: None,
                repeating: false,
                fixed: None,
                links: vec![],
                options: None,
            },
            Param {
                name: "age".to_string(),
                declared_type: "xs:int".to_string(),
                required: true,
                doc: Some(Doc::new("The age of the person".to_string())),
                style: ParamStyle::Query,
                path: None,
                id: None,
                repeating: false,
                fixed: None,
                links: vec![],
                options: None,
            },
        ],
    };

    let config = Config::default();

    let lines = generate_representation_struct_json(&input, &config, &OptionNames::new()).unwrap();

    assert_eq!(
        lines,
        vec![
            "/// Representation of the `person` resource\n".to_string(),
            "#[derive(Debug, Clone, PartialEq, serde::Serialize, serde::Deserialize)]\n"
                .to_string(),
            "pub struct Person {\n".to_string(),
            "    // was: string\n".to_string(),
            "    /// The name of the person\n".to_string(),
            "    pub name: String,\n".to_string(),
            "\n".to_string(),
            "    // was: xs:int\n".to_string(),
            "    /// The age of the person\n".to_string(),
            "    pub age: i32,\n".to_string(),
            "\n".to_string(),
            "}\n".to_string(),
            "\n".to_string(),
        ]
    );
}

#[test]
fn test_supported_representation_def() {
    let mut d = RepresentationDef {
        media_type: Some(MediaType::parse(WADL_MIME_TYPE).unwrap()),
        ..Default::default()
    };
    assert!(!supported_representation_def(&d));

    d.media_type = Some(MediaType::parse(XHTML_MIME_TYPE).unwrap());
    assert!(!supported_representation_def(&d));

    d.media_type = Some(MediaType::parse("application/json").unwrap());
    assert!(!supported_representation_def(&d));
}

fn header_param(id: Option<&str>, links: Vec<Link>) -> Param {
    Param {
        id: id.map(|s| s.to_string()),
        name: "foo".to_string(),
        declared_type: "string".to_string(),
        style: ParamStyle::Header,
        doc: None,
        required: true,
        repeating: false,
        fixed: None,
        path: None,
        links,
        options: None,
    }
}

#[test]
fn test_rust_type_for_response() {
    let mut input = Response {
        params: vec![header_param(Some("foo"), Vec::new())],
        ..Default::default()
    };

    let method = Method {
        name: "GET".to_string(),
        id: "get".to_string(),
        docs: Vec::new(),
        request: Request::default(),
        responses: vec![input.clone()],
    };
    let names = OptionNames::new();

    assert_eq!(
        rust_type_for_response(&method, &input, "foo", &names).unwrap(),
        "String".to_string()
    );

    input.params = vec![
        header_param(Some("foo"), Vec::new()),
        Param {
            id: Some("bar".to_string()),
            name: "bar".to_string(),
            declared_type: "string".to_string(),
            style: ParamStyle::Header,
            doc: None,
            required: true,
            repeating: false,
            fixed: None,
            path: None,
            links: Vec::new(),
            options: None,
        },
    ];
    assert_eq!(
        rust_type_for_response(&method, &input, "foo", &names).unwrap(),
        "(String, String)".to_string()
    );

    input.params = vec![header_param(
        Some("foo"),
        vec![Link {
            relation: None,
            reverse_relation: None,
            resource_type: Some(ResourceTypeRef::from_str("http://example.com/#foo").unwrap()),
            doc: None,
        }],
    )];
    assert_eq!(
        rust_type_for_response(&method, &input, "foo", &names).unwrap(),
        "Foo".to_string()
    );

    input.params = vec![header_param(
        Some("foo"),
        vec![Link {
            relation: None,
            reverse_relation: None,
            resource_type: Some(ResourceTypeRef::from_str("http://example.com/#foo").unwrap()),
            doc: None,
        }],
    )];
    assert_eq!(
        rust_type_for_response(&method, &input, "foo", &names).unwrap(),
        "Foo".to_string()
    );

    input.params = vec![header_param(
        None,
        vec![Link {
            relation: None,
            reverse_relation: None,
            resource_type: None,
            doc: None,
        }],
    )];
    assert_eq!(
        rust_type_for_response(&method, &input, "foo", &names).unwrap(),
        "url::Url".to_string()
    );
}

#[test]
fn test_format_arg_doc() {
    let config = Config::default();
    assert_eq!(
        format_arg_doc("foo", None, &config),
        vec!["    /// * `foo`\n".to_string()]
    );
    assert_eq!(
        format_arg_doc("foo", Some(&Doc::new("bar".to_string())), &config),
        vec!["    /// * `foo`: bar\n".to_string()]
    );
    assert_eq!(
        format_arg_doc("foo", Some(&Doc::new("bar\nbaz".to_string())), &config),
        vec![
            "    /// * `foo`: bar\n".to_string(),
            "    ///     baz\n".to_string()
        ]
    );
    assert_eq!(
        format_arg_doc("foo", Some(&Doc::new("bar\n\nbaz".to_string())), &config),
        vec![
            "    /// * `foo`: bar\n".to_string(),
            "    ///\n".to_string(),
            "    ///     baz\n".to_string()
        ]
    );
}

#[test]
fn test_apply_map_fn() {
    assert_eq!(apply_map_fn(None, "x", false), "x".to_string());
    assert_eq!(
        apply_map_fn(Some("Some"), "x", false),
        "Some(x)".to_string()
    );
    assert_eq!(
        apply_map_fn(Some("Some"), "x", true),
        "x.map(Some)".to_string()
    );
    assert_eq!(
        apply_map_fn(Some("|y|y+1"), "x", false),
        "(|y|y+1)(x)".to_string()
    );
    assert_eq!(
        apply_map_fn(Some("|y|y+1"), "x", true),
        "x.map(|y|y+1)".to_string()
    );
}

#[test]
fn test_generate_method() {
    let input = Method {
        id: "foo".to_string(),
        name: "GET".to_string(),
        docs: vec![],
        request: Request {
            docs: vec![],
            params: vec![],
            representations: vec![],
        },
        responses: vec![],
    };
    let config = Config::default();
    let lines = generate_method(&input, "bar", &config, &OptionNames::new()).unwrap();
    assert_eq!(lines, vec![
        "    pub fn foo<'a>(&self, client: &'a dyn wadl::blocking::Client) -> std::result::Result<(), wadl::Error> {\n".to_string(),
        "        let mut url_ = self.url().clone();\n".to_string(),
        "\n".to_string(),
        "        let mut req = client.request(reqwest::Method::GET, url_);\n".to_string(),
        "\n".to_string(),
        "        let resp = req.send()?;\n".to_string(),
        "        match resp.status() {\n".to_string(),
        "            s if s.is_success() => Ok(()),\n".to_string(),
        "            s => Err(wadl::Error::UnhandledStatus(s))\n".to_string(),
        "        }\n".to_string(),
        "    }\n".to_string(),
        "\n".to_string(),
    ]);
}

#[test]
fn test_generate_resource_type() {
    let input = ResourceType {
        id: "foo".to_string(),
        docs: vec![],
        methods: vec![],
        query_type: MediaType::json(),
        params: vec![],
        subresources: vec![],
    };
    let config = Config::default();
    let lines = generate_resource_type(&input, &config, &OptionNames::new()).unwrap();
    assert_eq!(
        lines,
        vec![
            "pub struct Foo (reqwest::Url);\n".to_string(),
            "\n".to_string(),
            "impl Foo {\n".to_string(),
            "}\n".to_string(),
            "\n".to_string(),
            "impl wadl::Resource for Foo {\n".to_string(),
            "    fn url(&self) -> &reqwest::Url {\n".to_string(),
            "        &self.0\n".to_string(),
            "    }\n".to_string(),
            "}\n".to_string(),
            "\n".to_string(),
        ]
    );
}
