use wadl::ast::{Doc, ParamStyle, Representation};
use wadl::media::MediaType;
use wadl::parse::{
    parse_method, parse_options, parse_representations, parse_request, parse_response,
};
use wadl::parse_string;
use wadl::xml::XmlElement;

#[test]
fn test_parse_options() {
    let xml = "
        <param name=\"format\">
            <option value=\"json\" mediaType=\"application/json\"/>
            <option value=\"xml\" mediaType=\"application/xml\"/>
        </param>
    ";
    let element = XmlElement::parse(xml.as_bytes()).unwrap();
    let options = parse_options(&element).unwrap().unwrap();
    assert_eq!(options.len(), 2);
    assert_eq!(
        options.get("json").unwrap(),
        &Some(MediaType::parse("application/json").unwrap())
    );
    assert_eq!(
        options.get("xml").unwrap(),
        &Some(MediaType::parse("application/xml").unwrap())
    );
}

#[test]
fn test_parse_representations() {
    let xml = "<response xmlns:xml=\"http://www.w3.org/XML/1998/namespace\">
        <representation id=\"foo\" mediaType=\"application/json\">
            <doc xml:lang=\"en\">Foo</doc>
            <param name=\"foo\" style=\"plain\" type=\"xs:string\" required=\"true\" default=\"bar\" fixed=\"baz\">
                <doc xml:lang=\"en\">Foo</doc>
            </param>
            <param name=\"bar\" style=\"query\" type=\"xs:string\" required=\"true\" default=\"bar\" fixed=\"baz\">
                <doc xml:lang=\"en\">Bar</doc>
            </param>
        </representation>
        <representation href='#bar' />
        <representation href=\"http://example.com/bar\" />
        </response>
    ";

    let root = XmlElement::parse(xml.as_bytes()).unwrap();

    let representations = parse_representations(&root).unwrap();

    assert_eq!(representations.len(), 3);

    if let Representation::Definition(r) = &representations[0] {
        assert_eq!(r.id, Some("foo".to_string()));
        assert_eq!(r.media_type, Some(MediaType::parse("application/json").unwrap()));
        assert_eq!(r.docs.len(), 1);
        assert_eq!(r.docs[0].content, "Foo");
        assert_eq!(r.docs[0].lang, Some("en".to_string()));
        assert_eq!(r.params.len(), 2);
        assert_eq!(r.params[0].name, "foo");
        assert_eq!(r.params[0].style, ParamStyle::Plain);
        assert!(r.params[0].required);
        assert_eq!(r.params[0].fixed, Some("baz".to_string()));
        assert_eq!(r.params[0].doc.as_ref().unwrap().content, "Foo");
        assert_eq!(r.params[0].doc.as_ref().unwrap().lang, Some("en".to_string()));
        assert_eq!(r.params[1].name, "bar");
        assert_eq!(r.params[1].style, ParamStyle::Query);
        assert!(r.params[1].required);
        assert_eq!(r.params[1].fixed, Some("baz".to_string()));
    }
}

#[test]
fn test_parses_response() {
    let xml = "
        <response status=\"200\">
            <param name=\"foo\" style=\"plain\" type=\"xs:string\" required=\"true\" default=\"bar\" fixed=\"baz\">
                <doc xml:lang=\"en\">Foo</doc>
            </param>
            <param name=\"bar\" style=\"query\" type=\"xs:string\" required=\"true\" default=\"bar\" fixed=\"baz\">
                <doc xml:lang=\"en\">Bar</doc>
            </param>
            <param name=\"baz\" style=\"header\" type=\"xs:string\" required=\"true\" default=\"bar\" fixed=\"baz\">
                <doc xml:lang=\"en\">Baz</doc>
            </param>
            <representation href='#foo' />
            <representation href=\"http://example.com/bar\" />
            <representation mediaType=\"application/json\" />
            <representation element=\"foo\" />
            <representation profile=\"http://example.com/profile\" />
        </response>
    ";

    let element = XmlElement::parse(xml.as_bytes()).unwrap();

    let response = parse_response(&element).unwrap();

    assert_eq!(response.status, Some(200));
    assert_eq!(response.representations.len(), 5);
}

#[test]
fn test_parse_request() {
    let xml = "
        <request>
            <param name=\"foo\" style=\"plain\" type=\"xs:string\" required=\"true\" default=\"bar\" fixed=\"baz\">
                <doc xml:lang=\"en\">Foo</doc>
            </param>
            <param name=\"bar\" style=\"query\" type=\"xs:string\" required=\"true\" default=\"bar\" fixed=\"baz\">
                <doc xml:lang=\"en\">Bar</doc>
            </param>
            <param name=\"baz\" style=\"header\" type=\"xs:string\" required=\"true\" default=\"bar\" fixed=\"baz\">
                <doc xml:lang=\"en\">Baz</doc>
            </param>
            <representation mediaType=\"application/json\" element=\"foo\" profile=\"bar\" id=\"baz\">
                <doc xml:lang=\"en\">Foo</doc>
            </representation>
            <representation href='#qux'/>
        </request>
    ";

    let element = XmlElement::parse(xml.as_bytes()).unwrap();

    let request = parse_request(&element).unwrap();

    assert_eq!(request.docs.len(), 0);
    assert_eq!(request.params.len(), 3);
    assert_eq!(request.representations.len(), 2);
}

#[test]
fn test_parse_method() {
    let xml = "
        <method name=\"GET\">
            <doc>Get a list of all the widgets</doc>
            <request>
                <doc>Filter the list of widgets</doc>
                <param name=\"filter\" style=\"query\" type=\"string\" required=\"false\">
                    <doc>Filter the list of widgets</doc>
                </param>
            </request>
            <response status=\"200\">
                <doc>Return a list of widgets</doc>
                <representation mediaType=\"application/json\">
                    <doc>Return a list of widgets</doc>
                </representation>
                <param name=\"id\" style=\"plain\" type=\"string\" required=\"true\">
                    <doc>Return a list of widgets</doc>
                </param>
                <param name=\"name\" style=\"plain\" type=\"string\" required=\"true\">
                    <doc>Return a list of widgets</doc>
                </param>

            </response>
        </method>
    ";

    let method = parse_method(&XmlElement::parse(xml.as_bytes()).unwrap()).unwrap();

    assert_eq!(method.id, "");
    assert_eq!(method.name, "GET");
    assert_eq!(method.docs, vec![Doc { content: "Get a list of all the widgets".to_string(), ..Default::default() }]);
    assert_eq!(method.request.docs, vec![Doc { content: "Filter the list of widgets".to_string(), ..Default::default() }]);
    assert_eq!(method.request.params.len(), 1);
    assert_eq!(method.request.params[0].name, "filter");
    assert_eq!(method.request.params[0].doc.as_ref().unwrap(), &Doc{ content: "Filter the list of widgets".to_string(), ..Default::default() });
    assert_eq!(method.responses.len(), 1);
    assert_eq!(method.responses[0].docs, vec![Doc { content: "Return a list of widgets".to_string(), ..Default::default() }]);
    assert_eq!(method.responses[0].status, Some(200));
    assert_eq!(method.responses[0].representations.len(), 1);
    assert_eq!(method.responses[0].representations[0].as_def().unwrap().media_type, Some(MediaType::parse("application/json").unwrap()));
    assert_eq!(method.responses[0].params.len(), 2);
}

#[test]
fn test_parse_empty_xml() {
    let xml = "<?xml version=\"1.0\" encoding=\"UTF-8\"?>
    <application xmlns=\"http://wadl.dev.java.net/2009/02\">
    </application>";

    let result = parse_string(xml);
    assert!(result.is_ok());
}

#[test]
fn test_parse_invalid_xml() {
    let xml = "<?xml version=\"1.0\" encoding=\"UTF-8\"?>
    <invalid-root>
    </invalid-root>";

    let result = parse_string(xml);
    assert!(result.is_ok());
    let app = result.unwrap();
    assert!(app.resources.is_empty());
}

#[test]
fn test_minimal_wadl() {
    let xml = "<?xml version=\"1.0\" encoding=\"UTF-8\"?>
    <application xmlns=\"http://wadl.dev.java.net/2009/02\">
        <resources base=\"http://example.com/api/\">
            <resource path=\"users\">
                <method name=\"GET\">
                    <response status=\"200\"/>
                </method>
            </resource>
        </resources>
    </application>";

    let result = parse_string(xml);
    assert!(result.is_ok());

    let app = result.unwrap();
    assert_eq!(app.resources.len(), 1);
    assert_eq!(app.resources[0].resources.len(), 1);
    assert_eq!(app.resources[0].resources[0].methods.len(), 1);
}

#[test]
fn test_wadl_with_params() {
    let xml = "<?xml version=\"1.0\" encoding=\"UTF-8\"?>
    <application xmlns=\"http://wadl.dev.java.net/2009/02\">
        <resources base=\"http://example.com/api/\">
            <resource path=\"users/{id}\">
                <param name=\"id\" style=\"template\" type=\"xsd:string\" required=\"true\"/>
                <method name=\"GET\">
                    <request>
                        <param name=\"format\" style=\"query\" type=\"xsd:string\" default=\"json\"/>
                    </request>
                    <response status=\"200\"/>
                </method>
            </resource>
        </resources>
    </application>";

    let result = parse_string(xml);
    assert!(result.is_ok());

    let app = result.unwrap();
    let resource = &app.resources[0].resources[0];
    assert_eq!(resource.params.len(), 1);
    assert_eq!(resource.params[0].name, "id");

    let method = &resource.methods[0];
    assert_eq!(method.request.params.len(), 1);
    assert_eq!(method.request.params[0].name, "format");
}
