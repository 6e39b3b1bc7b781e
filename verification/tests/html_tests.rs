use klamer_dev::html::{
    html_element_with_attributes, Anchor, Attribute, Attributes, Div, Header, Header1, Header2,
    HtmxAttributes, Hr, Img, IntoHtml, SimpleDiv, Ulist,
};

#[test]
fn attribute_rendering() {
    assert_eq!(
        Attribute::CLASS(vec!["post-list".to_string(), "wide".to_string()]).to_string(),
        "class=\"post-list wide\""
    );
    assert_eq!(Attribute::WIDTH(150).to_string(), "width=\"150\"");
    assert_eq!(Attribute::HEIGHT(20).to_string(), "height=\"20\"");
    assert_eq!(Attribute::MARGIN(3).to_string(), "margin=\"3\"");
    assert_eq!(Attribute::WidthPercent(50).to_string(), "width=\"50%\"");
    assert_eq!(Attribute::HeightPercent(9).to_string(), "height=\"9%\"");
    assert_eq!(Attribute::WidthEm(2).to_string(), "width=\"2em\"");
    assert_eq!(Attribute::HeightEm(4).to_string(), "height=\"4em\"");
    assert_eq!(Attribute::WidthVw(150).to_string(), "width=\"150vw\"");
    assert_eq!(Attribute::HeightVw(30).to_string(), "height=\"30vw\"");
}

#[test]
fn htmx_attribute_rendering() {
    assert_eq!(
        HtmxAttributes::GET("/blog".to_string()).to_string(),
        "hx-get=\"/blog\""
    );
    assert_eq!(HtmxAttributes::POST("/a".to_string()).to_string(), "hx-post=\"/a\"");
    assert_eq!(HtmxAttributes::PUT("/b".to_string()).to_string(), "hx-put=\"/b\"");
    assert_eq!(HtmxAttributes::PATCH("/c".to_string()).to_string(), "hx-patch=\"/c\"");
    assert_eq!(HtmxAttributes::DELETE("/d".to_string()).to_string(), "hx-delete=\"/d\"");
}

#[test]
fn element_with_no_attributes() {
    assert_eq!(html_element_with_attributes("hr", None, &None), "<hr  />");
}

#[test]
fn element_with_custom_and_attribute_sets() {
    let attrs = Attributes {
        htmx_attributes: vec![HtmxAttributes::GET("/x".to_string())],
        attributes: vec![Attribute::WIDTH(10), Attribute::CLASS(vec!["c".to_string()])],
    };
    let got = html_element_with_attributes(
        "img",
        Some(vec!["src=\"/logo.png\"".to_string(), "alt=\"logo\"".to_string()]),
        &Some(attrs),
    );
    assert_eq!(
        got,
        "<img src=\"/logo.png\" alt=\"logo\" hx-get=\"/x\" width=\"10\" class=\"c\" />"
    );
}

#[test]
fn default_attributes_are_empty() {
    let attrs = Attributes::default();
    assert!(attrs.htmx_attributes.is_empty());
    assert!(attrs.attributes.is_empty());
}

#[test]
fn headers_render() {
    assert_eq!(Header("T".to_string()).html_string(), "<h1  />T</h1>");
    assert_eq!(Header1("A".to_string()).html_string(), "<h1  />A</h1>");
    assert_eq!(Header2("Posts".to_string()).html_string(), "<h2  />Posts</h2>");
}

#[test]
fn hr_renders() {
    assert_eq!(Hr.html_string(), "<hr  /></hr>");
}

#[test]
fn anchor_renders() {
    let a = Anchor("/blog/postname".to_string(), "postname".to_string());
    assert_eq!(
        a.html_string(),
        "<a href=\"/blog/postname\" />postname</a>"
    );
}

#[test]
fn simple_div_renders() {
    let d = SimpleDiv(None, "inner".to_string());
    assert_eq!(d.html_string(), "<div  />inner</div>");
}

#[test]
fn img_renders() {
    let img = Img {
        uri: "/logo.png".to_string(),
        alt_text: "Klamer.dev logo".to_string(),
        attributes: Some(Attributes {
            htmx_attributes: vec![],
            attributes: vec![Attribute::WidthVw(150)],
        }),
    };
    assert_eq!(
        img.html_string(),
        "<img src=\"/logo.png\" alt=\"Klamer.dev logo\" width=\"150vw\" /></img>"
    );
}

#[test]
fn div_renders_elements_in_order() {
    let d = Div {
        elements: vec![
            Box::new("one".to_string()),
            Box::new(Anchor("/two".to_string(), "two".to_string())),
        ],
        attributes: Some(Attributes {
            htmx_attributes: vec![],
            attributes: vec![Attribute::CLASS(vec!["Content".to_string()])],
        }),
    };
    assert_eq!(
        d.html_string(),
        "<div  class=\"Content\" />one<a href=\"/two\" />two</a></div>"
    );
}

#[test]
fn empty_div_renders() {
    let d = Div { elements: vec![], attributes: None };
    assert_eq!(d.html_string(), "<div  /></div>");
}

#[test]
fn ulist_wraps_each_item() {
    let list = Ulist {
        items: vec![Box::new("a".to_string()), Box::new("b".to_string())],
        attributes: Some(Attributes {
            htmx_attributes: vec![],
            attributes: vec![Attribute::CLASS(vec!["section-items".to_string()])],
        }),
        item_attributes: Some(Attributes {
            htmx_attributes: vec![],
            attributes: vec![Attribute::CLASS(vec!["section-item".to_string()])],
        }),
    };
    assert_eq!(
        list.html_string(),
        "<ul  class=\"section-items\" /><li  class=\"section-item\" />a</li><li  class=\"section-item\" />b</li></ul>"
    );
}
