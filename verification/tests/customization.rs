use wadl::ast::{
    Doc, Link, Method, Options, Param, ParamStyle, RepresentationDef, Request, ResourceType,
    ResourceTypeRef, Response,
};
use wadl::codegen::config::CompileErrorKind;
use wadl::codegen::method::serialize_representation_def;
use wadl::codegen::option_names::OptionNames;
use wadl::codegen::program::name_options;
use wadl::codegen::representation::generate_representation;
use wadl::codegen::rules::{first_answer, text_answer};
use wadl::codegen::types::param_rust_type;
use wadl::codegen::{
    generate_doc, generate_resource_type, Config, Customization, ParamContainer, Rule, Rules,
};
use wadl::media::MediaType;

fn rule(keys: &[&str], answer: &[&str]) -> Rule {
    Rule {
        keys: keys.iter().map(|k| k.to_string()).collect(),
        answer: answer.iter().map(|a| a.to_string()).collect(),
    }
}

fn param(name: &str, declared: &str) -> Param {
    Param {
        style: ParamStyle::Plain,
        id: None,
        name: name.to_string(),
        declared_type: declared.to_string(),
        path: None,
        required: false,
        repeating: false,
        fixed: None,
        doc: None,
        links: vec![],
        options: None,
    }
}

fn link_to(target: &str) -> Link {
    Link {
        resource_type: Some(ResourceTypeRef::Id(target.to_string())),
        relation: None,
        reverse_relation: None,
        doc: None,
    }
}

#[test]
fn tables_answer_with_their_first_entry() {
    let table = vec![
        rule(&["a", "b"], &["first"]),
        rule(&["a"], &[]),
        rule(&["a", "b"], &["second"]),
    ];
    assert_eq!(text_answer(&table, &vec!["a", "b"]), Some("first".to_string()));
    assert_eq!(text_answer(&table, &vec!["a"]), None);
    assert_eq!(first_answer(&table, &vec!["a"]), Some(&vec![]));
    assert_eq!(first_answer(&table, &vec!["b", "a"]), None);
    assert_eq!(first_answer(&table, &vec![]), None);
}

#[test]
fn the_default_tables_decide_nothing() {
    let rules = Rules::default();
    let config = Config::default();
    let p = param("p", "xsd:string");
    assert_eq!(rules.asynchronous(), config.asynchronous());
    assert_eq!(rules.nillable(&p), config.nillable(&p));
    assert_eq!(rules.deprecated_param(&p), false);
    assert_eq!(rules.method_visibility("m", "()"), None);
    assert_eq!(rules.extend_method("a", "b", "c"), Vec::<String>::new());
    let doc = Doc::new("a\nb".to_string());
    assert_eq!(generate_doc(&doc, 1, &rules), generate_doc(&doc, 1, &config));
}

#[test]
fn an_override_wins_over_links_and_options() {
    let rules = Rules {
        type_overrides: vec![rule(
            &["representation", "xsd:special", "thing"],
            &["Special"],
        )],
        nillable_params: vec![rule(&["thing"], &["false"])],
        ..Default::default()
    };
    let mut p = param("thing", "xsd:special");
    p.links = vec![link_to("person")];
    p.options = Some(Options::from(vec!["a"]));
    let def = RepresentationDef::default();
    let container = ParamContainer::Representation(&def);
    let names = OptionNames::new();
    assert_eq!(
        param_rust_type(&container, &p, &rules, false, &names).unwrap().0,
        "Special"
    );
    let method = Method {
        id: "m".to_string(),
        name: "GET".to_string(),
        docs: vec![],
        request: Request::default(),
        responses: vec![],
    };
    let container = ParamContainer::Request(&method, &method.request);
    assert_eq!(
        param_rust_type(&container, &p, &rules, false, &names).unwrap().0,
        "Person"
    );
    let mut required = param("other", "xsd:int");
    required.required = true;
    let lenient = Rules {
        nillable_params: vec![rule(&["other"], &["true"])],
        ..Default::default()
    };
    assert_eq!(
        param_rust_type(&container, &required, &lenient, false, &names).unwrap().0,
        "Option<i32>"
    );
}

#[test]
fn a_taken_name_is_a_failure_of_its_own() {
    let rules = Rules {
        enum_names: vec![rule(&["a"], &["Choice"]), rule(&["b"], &["Choice"])],
        ..Default::default()
    };
    let mut a = param("a", "");
    a.options = Some(Options::from(vec!["x"]));
    let mut b = param("b", "");
    b.options = Some(Options::from(vec!["y"]));
    let mut c = param("c", "");
    c.options = Some(Options::from(vec!["x"]));
    let mut d = param("d", "");
    d.options = Some(Options::from(vec!["z"]));
    let params = vec![&a, &b, &c, &d];
    let (names, lines, errors) = name_options(&params, &rules);
    assert_eq!(names.names(), vec!["Choice".to_string(), "D".to_string()]);
    assert_eq!(errors.len(), 1);
    assert_eq!(errors[0].kind, CompileErrorKind::EnumNameTaken);
    assert_eq!(errors[0].param, "b");
    assert_eq!(errors[0].detail, "Choice");
    assert_eq!(lines[1], "pub enum Choice {\n");
}

#[test]
fn the_tables_shape_records_and_handles() {
    let rules = Rules {
        asynchronous: true,
        accessor_renames: vec![rule(&["old_owner_link", "Rc<Person>"], &["old_owner"])],
        representation_traits: vec![rule(&["Team"], &["impl Marker for Team {}\n"])],
        representation_visibilities: vec![rule(&["Team"], &["pub(crate)"])],
        accessor_visibilities: vec![rule(&["old_owner", "Person"], &[""])],
        resource_type_visibilities: vec![rule(&["Teams"], &[""])],
        response_types: vec![rule(&["create", "Person"], &["Box<Person>", "Box::new"])],
        accessor_types: vec![rule(&["Person"], &["Rc<Person>", "Rc::new"])],
        accessor_extensions: vec![rule(
            &["old_owner_link", "old_owner", "Rc<Person>"],
            &["    // after old_owner\n"],
        )],
        method_extensions: vec![rule(
            &["teams", "create", "Box<Person>"],
            &["    // after create\n"],
        )],
        method_visibilities: vec![rule(&["create", "Box<Person>"], &["pub(super)"])],
        deprecated_params: vec![rule(&["old_owner_link"], &[])],
        docstrings: vec![rule(&["Make a team"], &["Makes a team."])],
        nillable_params: vec![
            rule(&["old_owner_link"], &["no"]),
            rule(&["Location"], &["no"]),
        ],
        ..Default::default()
    };
    let mut link = param("old_owner_link", "");
    link.links = vec![link_to("person")];
    let def = RepresentationDef {
        id: Some("team".to_string()),
        media_type: Some(MediaType::json()),
        element: None,
        profile: None,
        docs: vec![],
        params: vec![link],
    };
    let text = generate_representation(&def, &rules, &OptionNames::new())
        .unwrap()
        .concat();
    assert!(text.contains("pub(crate) struct Team {\n"));
    assert!(text.contains("    pub old_owner_link: url::Url,\n"));
    assert!(!text.contains("impl Default for Team"));
    assert!(text.contains(
        "    #[deprecated]    fn old_owner(&self) -> Rc<Person> {\n        Rc::new(Person(self.old_owner_link.clone())\n    }\n"
    ));
    assert!(text.contains("    fn set_old_owner(&mut self, value: Rc<Person>) {\n"));
    assert!(text.contains("    // after old_owner\n}\n\nimpl Marker for Team {}\n"));

    let response = Response {
        params: vec![Param {
            style: ParamStyle::Header,
            required: true,
            links: vec![link_to("person")],
            ..param("Location", "")
        }],
        ..Default::default()
    };
    let handle = ResourceType {
        id: "teams".to_string(),
        query_type: MediaType::json(),
        methods: vec![Method {
            id: "teams-create".to_string(),
            name: "POST".to_string(),
            docs: vec![Doc::new("Make a team".to_string())],
            request: Request::default(),
            responses: vec![response],
        }],
        docs: vec![],
        subresources: vec![],
        params: vec![],
    };
    let text = generate_resource_type(&handle, &rules, &OptionNames::new())
        .unwrap()
        .concat();
    assert!(text.starts_with("struct Teams (reqwest::Url);\n"));
    assert!(text.contains(
        "    /// Makes a team.\n    pub(super) async fn create<'a>(&self, client: &'a dyn wadl::r#async::Client) -> std::result::Result<Box<Person>, wadl::Error> {\n"
    ));
    assert!(text.contains(
        "        let mut req = client.request(reqwest::Method::POST, url_).await;\n"
    ));
    assert!(text.contains("        let resp = req.send().await?;\n"));
    assert!(text.contains(
        "                Ok(Box::new(Person(resp.headers().get(\"Location\")?.to_str()?.parse().unwrap())))\n"
    ));
    assert!(text.contains("    // after create\n}\n"));
}

#[test]
fn a_multipart_part_can_be_made_by_the_tables() {
    let rules = Rules {
        multipart_parts: vec![rule(&["&File", "&upload.to_string()"], &["upload.part()"])],
        type_overrides: vec![rule(&["representation", "xsd:file", "upload"], &["File"])],
        ..Default::default()
    };
    let mut upload = param("upload", "xsd:file");
    upload.required = true;
    let mut note = param("note", "xsd:string");
    note.required = true;
    let def = RepresentationDef {
        id: Some("upload".to_string()),
        media_type: Some(MediaType::parse("multipart/form-data").unwrap()),
        element: None,
        profile: None,
        docs: vec![],
        params: vec![upload, note],
    };
    assert_eq!(
        serialize_representation_def(&def, &rules, &OptionNames::new()).unwrap(),
        vec![
            "let mut form = reqwest::blocking::multipart::Form::new();\n".to_string(),
            "    form = form.part(\"upload\", upload.part());\n".to_string(),
            "    form = form.part(\"note\", reqwest::blocking::multipart::Part::text(note.to_string()));\n"
                .to_string(),
            "req = req.multipart(form);\n".to_string(),
        ]
    );
}
