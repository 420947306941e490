use tldr::{Article, Date, Elem, Error, Newsletter, Node, Selector, scrape};
use tldr::{extract_text, has_child, select_elements, select_single_element};

fn text(s: &str) -> Node {
    Node::Text(s.to_string())
}

fn elem(tag: &str, children: Vec<Node>) -> Node {
    Node::Element(Elem {
        tag: tag.to_string(),
        classes: Vec::new(),
        attrs: Vec::new(),
        children,
    })
}

fn elem_attrs(tag: &str, attrs: Vec<(&str, &str)>, children: Vec<Node>) -> Node {
    Node::Element(Elem {
        tag: tag.to_string(),
        classes: Vec::new(),
        attrs: attrs
            .into_iter()
            .map(|(k, v)| (k.to_string(), v.to_string()))
            .collect(),
        children,
    })
}

fn fixture_html() -> String {
    r#"
        <div class="content-center">
            <h1>Title of Newsletter</h1>
            <h2>Subtitle of Newsletter</h2>
            <div>
                <div>
                    <a href="http://example.com/article">
                        <h3>Article Title</h3>
                    </a>
                    <div>Description of Article</div>
                </div>
            </div>
        </div>
    "#
    .to_string()
}

#[test]
fn test_scrape_successful() {
    let date = Date::from_ymd(2023, 4, 12).unwrap();

    let result = scrape(fixture_html(), "News".to_string(), date).unwrap();
    assert_eq!(result.title, "Title of Newsletter");
    assert_eq!(result.subtitle, "Subtitle of Newsletter");
    assert_eq!(result.articles.len(), 1);
    assert_eq!(result.articles[0].title, "Article Title");
    assert_eq!(result.articles[0].description, "Description of Article");
    assert_eq!(result.articles[0].url, "http://example.com/article");
}

#[test]
fn test_scrape_no_content() {
    let html = r#"<div class="wrong-class"></div>"#;
    let date = Date::from_ymd(2023, 4, 12).unwrap();
    assert!(scrape(html.to_string(), "News".to_string(), date).is_err());
}

#[test]
fn test_extract_text_success() {
    let element = elem("div", vec![elem("h1", vec![text("Hello World")])]);
    assert_eq!(extract_text(&element, Selector::tag("h1")).unwrap(), "Hello World");
}

#[test]
fn test_extract_text_fail() {
    let element = elem("div", vec![elem("h1", vec![text("Hello World")])]);
    assert!(extract_text(&element, Selector::tag("h2")).is_err());
}

#[test]
fn test_select_single_element_success() {
    let element = elem("div", vec![elem("p", vec![text("Paragraph")])]);
    assert!(select_single_element(&element, Selector::tag("p")).is_ok());
}

#[test]
fn test_select_single_element_not_found() {
    let element = elem("div", vec![elem("p", vec![text("Paragraph")])]);
    assert!(select_single_element(&element, Selector::tag("h1")).is_err());
}

#[test]
fn test_select_elements_success() {
    let element = elem(
        "div",
        vec![elem("span", vec![text("One")]), elem("span", vec![text("Two")])],
    );
    let elements = select_elements(&element, &Selector::tag("span"));
    assert_eq!(elements.len(), 2);
}

#[test]
fn test_has_child_success() {
    let element = elem("div", vec![elem("a", vec![elem("h3", vec![text("Title")])])]);
    assert!(has_child(&element, &Selector::desc_chain("a", "h3")));
}

#[test]
fn test_has_child_failure() {
    let element = elem("div", vec![elem("a", vec![elem("h3", vec![text("Title")])])]);
    assert!(!has_child(&element, &Selector::desc_chain("a", "h4")));
}

#[test]
fn fixture_yields_full_record() {
    let date = Date::from_ymd(2023, 4, 12).unwrap();
    let result = scrape(fixture_html(), "News".to_string(), date).unwrap();
    let expected = Newsletter {
        title: "Title of Newsletter".to_string(),
        subtitle: "Subtitle of Newsletter".to_string(),
        category: "News".to_string(),
        date,
        articles: vec![Article {
            title: "Article Title".to_string(),
            description: "Description of Article".to_string(),
            url: "http://example.com/article".to_string(),
        }],
    };
    assert_eq!(result, expected);
}

#[test]
fn wrong_class_reports_element_not_found() {
    let html = r#"<div class="wrong-class"></div>"#;
    let date = Date::from_ymd(2023, 4, 12).unwrap();
    let result = scrape(html.to_string(), "News".to_string(), date);
    assert_eq!(
        result,
        Err(Error::ElementNotFound(Selector::Class("content-center".to_string())))
    );
}

#[test]
fn missing_title_reports_element_not_found() {
    let html = r#"<div class="content-center"><h2>Sub</h2></div>"#;
    let date = Date::from_ymd(2023, 4, 12).unwrap();
    let result = scrape(html.to_string(), "News".to_string(), date);
    assert_eq!(
        result,
        Err(Error::ElementNotFound(Selector::Tag("h1".to_string())))
    );
}

#[test]
fn missing_subtitle_reports_element_not_found() {
    let html = r#"<div class="content-center"><h1>Title</h1></div>"#;
    let date = Date::from_ymd(2023, 4, 12).unwrap();
    let result = scrape(html.to_string(), "News".to_string(), date);
    assert_eq!(
        result,
        Err(Error::ElementNotFound(Selector::Tag("h2".to_string())))
    );
}

#[test]
fn empty_content_region_yields_no_articles() {
    let html = r#"<div class="content-center"><h1>Title</h1><h2>Sub</h2></div>"#;
    let date = Date::from_ymd(2023, 4, 12).unwrap();
    let result = scrape(html.to_string(), "News".to_string(), date).unwrap();
    assert_eq!(result.articles.len(), 0);
}

#[test]
fn non_article_items_are_skipped_without_error() {
    let html = r#"
        <div class="content-center">
            <h1>Title</h1>
            <h2>Sub</h2>
            <div>
                <div><p>Just an advertisement</p></div>
                <div>
                    <a href="http://example.com/a"><h3>First</h3></a>
                    <div>Desc one</div>
                </div>
                <div><span>Section header</span></div>
                <div>
                    <a href="http://example.com/b"><h3>Second</h3></a>
                    <div>Desc two</div>
                </div>
            </div>
        </div>
    "#;
    let date = Date::from_ymd(2023, 4, 12).unwrap();
    let result = scrape(html.to_string(), "News".to_string(), date).unwrap();
    assert_eq!(result.articles.len(), 2);
    assert_eq!(result.articles[0].title, "First");
    assert_eq!(result.articles[1].title, "Second");
}

#[test]
fn articles_keep_document_order_across_sections() {
    let html = r#"
        <div class="content-center">
            <h1>Title</h1>
            <h2>Sub</h2>
            <div>
                <div>
                    <a href="http://example.com/1"><h3>One</h3></a>
                    <div>D1</div>
                </div>
                <div>
                    <a href="http://example.com/2"><h3>Two</h3></a>
                    <div>D2</div>
                </div>
            </div>
            <div>
                <div>
                    <a href="http://example.com/3"><h3>Three</h3></a>
                    <div>D3</div>
                </div>
            </div>
        </div>
    "#;
    let date = Date::from_ymd(2023, 4, 12).unwrap();
    let result = scrape(html.to_string(), "News".to_string(), date).unwrap();
    let titles: Vec<&str> = result.articles.iter().map(|a| a.title.as_str()).collect();
    assert_eq!(titles, ["One", "Two", "Three"]);
    let urls: Vec<&str> = result.articles.iter().map(|a| a.url.as_str()).collect();
    assert_eq!(urls, ["http://example.com/1", "http://example.com/2", "http://example.com/3"]);
}

#[test]
fn discriminated_item_without_description_aborts_extraction() {
    let html = r#"
        <div class="content-center">
            <h1>Title</h1>
            <h2>Sub</h2>
            <div>
                <div>
                    <a href="http://example.com/ok"><h3>Fine</h3></a>
                    <div>Desc</div>
                </div>
                <div>
                    <a href="http://example.com/bad"><h3>Broken</h3></a>
                </div>
            </div>
        </div>
    "#;
    let date = Date::from_ymd(2023, 4, 12).unwrap();
    let result = scrape(html.to_string(), "News".to_string(), date);
    assert_eq!(
        result,
        Err(Error::ElementNotFound(Selector::ChildTag("div".to_string())))
    );
}

#[test]
fn anchor_without_href_reports_missing_attribute() {
    let html = r#"
        <div class="content-center">
            <h1>Title</h1>
            <h2>Sub</h2>
            <div>
                <div>
                    <a><h3>No link</h3></a>
                    <div>Desc</div>
                </div>
            </div>
        </div>
    "#;
    let date = Date::from_ymd(2023, 4, 12).unwrap();
    let result = scrape(html.to_string(), "News".to_string(), date);
    assert_eq!(result, Err(Error::MissingAttribute("href".to_string())));
}

#[test]
fn text_extraction_concatenates_descendants_in_document_order() {
    let element = elem(
        "div",
        vec![
            text("a"),
            elem("p", vec![text("b"), elem("em", vec![text("c")]), text("d")]),
            text("e"),
        ],
    );
    assert_eq!(extract_text(&elem("r", vec![element]), Selector::tag("div")).unwrap(), "abcde");
}

#[test]
fn class_selector_matches_any_of_several_classes() {
    let target = Node::Element(Elem {
        tag: "div".to_string(),
        classes: vec!["wide".to_string(), "content-center".to_string()],
        attrs: Vec::new(),
        children: vec![text("hit")],
    });
    let root = elem("html", vec![elem("body", vec![target])]);
    assert!(has_child(&root, &Selector::class("content-center")));
    assert!(!has_child(&root, &Selector::class("content")));
}

#[test]
fn first_of_several_content_regions_is_used() {
    let html = r#"
        <div class="content-center"><h1>First</h1><h2>S1</h2></div>
        <div class="content-center"><h1>Second</h1><h2>S2</h2></div>
    "#;
    let date = Date::from_ymd(2023, 4, 12).unwrap();
    let result = scrape(html.to_string(), "News".to_string(), date).unwrap();
    assert_eq!(result.title, "First");
}

#[test]
fn href_attribute_is_taken_from_first_direct_anchor() {
    let item = elem_attrs(
        "div",
        vec![],
        vec![
            elem_attrs(
                "a",
                vec![("id", "x"), ("href", "http://example.com/z")],
                vec![elem("h3", vec![text("T")])],
            ),
            elem("div", vec![text("D")]),
        ],
    );
    let article = tldr::scrape_article(&item).unwrap();
    assert_eq!(article.url, "http://example.com/z");
    assert_eq!(article.title, "T");
    assert_eq!(article.description, "D");
}
