use std::str::FromStr;
use wadl::ast::{
    Application, Options, Representation, RepresentationDef, RepresentationRef, Resource,
    ResourceType, ResourceTypeRef, Resources,
};
use wadl::media::MediaType;
use wadl::url::Url;

fn resource_type(id: &str) -> ResourceType {
    ResourceType {
        id: id.to_string(),
        query_type: MediaType::json(),
        methods: vec![],
        docs: vec![],
        subresources: vec![],
        params: vec![],
    }
}

#[test]
fn parse_resource_type_ref() {
    assert_eq!(
        ResourceTypeRef::Empty,
        ResourceTypeRef::from_str("").unwrap()
    );
    assert_eq!(
        ResourceTypeRef::Id("id".to_owned()),
        ResourceTypeRef::from_str("#id").unwrap()
    );
    assert_eq!(
        ResourceTypeRef::Link(Url::parse("https://example.com").unwrap()),
        ResourceTypeRef::from_str("https://example.com").unwrap()
    );
}

#[test]
fn test_resource_url() {
    let r = Resource {
        id: None,
        path: Some("/foo".to_string()),
        types: vec![],
        query_type: MediaType::json(),
        methods: vec![],
        docs: vec![],
        subresources: vec![],
        params: vec![],
    };
    assert_eq!(
        r.url(Some(&Url::parse("http://example.com").unwrap())).unwrap(),
        Url::parse("http://example.com/foo").unwrap()
    );
    assert_eq!(
        r.url(Some(&Url::parse("http://example.com/bar").unwrap())).unwrap(),
        Url::parse("http://example.com/foo").unwrap()
    );
}

#[test]
fn test_representation_url() {
    let base_url = Url::parse("http://example.com").unwrap();
    let r = Representation::Reference(RepresentationRef::Id("foo".to_string()));
    assert_eq!(
        r.url(&base_url).unwrap(),
        Url::parse("http://example.com#foo").unwrap()
    );
    let r = Representation::Reference(RepresentationRef::Link(
        Url::parse("http://example.com#foo").unwrap(),
    ));
    assert_eq!(
        r.url(&base_url).unwrap(),
        Url::parse("http://example.com#foo").unwrap()
    );
    let r = Representation::Definition(RepresentationDef {
        id: Some("foo".to_string()),
        ..Default::default()
    });
    assert_eq!(
        r.url(&base_url).unwrap(),
        Url::parse("http://example.com#foo").unwrap()
    );
}

#[test]
fn test_representation_id() {
    let r = Representation::Reference(RepresentationRef::Id("foo".to_string()));
    assert_eq!(r.as_def(), None);
    let r = Representation::Definition(RepresentationDef {
        id: Some("foo".to_string()),
        ..Default::default()
    });
    assert_eq!(r.as_def().unwrap().id, Some("foo".to_string()));
}

#[test]
fn test_application_get_resource_type_by_id() {
    let app = Application {
        resources: vec![],
        resource_types: vec![resource_type("user"), resource_type("admin")],
        docs: vec![],
        grammars: vec![],
        representations: vec![],
    };

    assert!(app.get_resource_type_by_id("user").is_some());
    assert_eq!(app.get_resource_type_by_id("user").unwrap().id, "user");
    assert!(app.get_resource_type_by_id("nonexistent").is_none());
}

#[test]
fn test_application_get_resource_type_by_href() {
    let app = Application {
        resources: vec![],
        resource_types: vec![resource_type("user")],
        docs: vec![],
        grammars: vec![],
        representations: vec![],
    };

    let url_with_fragment = Url::parse("http://example.com#user").unwrap();
    assert!(app.get_resource_type_by_href(&url_with_fragment).is_some());

    let url_without_fragment = Url::parse("http://example.com").unwrap();
    assert!(app
        .get_resource_type_by_href(&url_without_fragment)
        .is_none());

    let url_wrong_fragment = Url::parse("http://example.com#nonexistent").unwrap();
    assert!(app.get_resource_type_by_href(&url_wrong_fragment).is_none());
}

#[test]
fn test_application_iter_resources_empty() {
    let app = Application {
        resources: vec![],
        resource_types: vec![],
        docs: vec![],
        grammars: vec![],
        representations: vec![],
    };

    let resources = app.iter_resources();
    assert_eq!(resources.len(), 0);
}

#[test]
fn test_application_get_resource_by_href() {
    let base_url = Url::parse("http://example.com/api/").unwrap();
    let resource = Resource {
        id: Some("users".to_string()),
        path: Some("users".to_string()),
        types: vec![],
        query_type: MediaType::json(),
        params: vec![],
        methods: vec![],
        subresources: vec![],
        docs: vec![],
    };

    let resources_group = Resources {
        base: Some(base_url.clone()),
        resources: vec![resource],
    };

    let app = Application {
        resources: vec![resources_group],
        resource_types: vec![],
        docs: vec![],
        grammars: vec![],
        representations: vec![],
    };

    let search_url = Url::parse("http://example.com/api/users").unwrap();
    let found = app.get_resource_by_href(&search_url);
    assert!(found.is_some());
    assert_eq!(found.unwrap().id.as_ref().unwrap(), "users");

    let not_found_url = Url::parse("http://example.com/api/notfound").unwrap();
    assert!(app.get_resource_by_href(&not_found_url).is_none());
}

#[test]
fn test_options_empty() {
    let options = Options::new();
    assert!(options.is_empty());

    let keys = options.keys();
    assert_eq!(keys.len(), 0);

    let iter = options.iter();
    assert_eq!(iter.len(), 0);
}

#[test]
fn test_options_with_data() {
    let mut options = Options::new();
    options.insert("json".to_string(), Some(MediaType::json()));
    options.insert("xml".to_string(), None);

    assert!(!options.is_empty());

    let keys = options.keys();
    assert_eq!(keys.len(), 2);
    assert!(keys.contains(&"json"));
    assert!(keys.contains(&"xml"));

    let iter = options.iter();
    assert_eq!(iter.len(), 2);
}

#[test]
fn test_options_from_vec_string() {
    let vec = vec!["json".to_string(), "xml".to_string()];

    let options: Options = vec.into();
    assert!(!options.is_empty());
    assert_eq!(options.keys().len(), 2);
}

#[test]
fn test_options_from_vec_str() {
    let vec = vec!["json", "xml"];

    let options: Options = vec.into();
    assert!(!options.is_empty());
    assert_eq!(options.keys().len(), 2);
}

#[test]
fn test_resource_iter_referenced_types_empty() {
    let resource = Resource {
        id: None,
        path: None,
        types: vec![],
        query_type: MediaType::json(),
        params: vec![],
        methods: vec![],
        subresources: vec![],
        docs: vec![],
    };

    let types = resource.iter_referenced_types();
    assert_eq!(types.len(), 0);
}
