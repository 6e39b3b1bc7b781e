//! The HTML building blocks of the site's pages: attributes, a few
//! element types, and the function that opens an element with its
//! attributes. Each renderer's contract gives the exact string it
//! produces.

use vstd::prelude::*;

use crate::strings::{join, spec_dec, spec_join, u64_to_string};

verus! {

/// A plain HTML attribute: a class list or one of the sizing
/// attributes, rendered as `name="value"` with the unit appended to
/// numeric values where one applies.
#[derive(Clone)]
pub enum Attribute {
    CLASS(Vec<String>),
    WIDTH(u32),
    HEIGHT(u32),
    MARGIN(u32),
    WidthPercent(u32),
    HeightPercent(u32),
    WidthEm(u32),
    HeightEm(u32),
    WidthVw(u32),
    HeightVw(u32),
}

/// The rendering of one plain attribute.
pub open spec fn spec_attribute(a: Attribute) -> Seq<char> {
    match a {
        Attribute::CLASS(s) => "class=\""@ + spec_join(s@.map_values(|x: String| x@), " "@)
            + "\""@,
        Attribute::WIDTH(u) => "width=\""@ + spec_dec(u as nat) + "\""@,
        Attribute::HEIGHT(u) => "height=\""@ + spec_dec(u as nat) + "\""@,
        Attribute::MARGIN(u) => "margin=\""@ + spec_dec(u as nat) + "\""@,
        Attribute::WidthPercent(u) => "width=\""@ + spec_dec(u as nat) + "%\""@,
        Attribute::HeightPercent(u) => "height=\""@ + spec_dec(u as nat) + "%\""@,
        Attribute::WidthEm(u) => "width=\""@ + spec_dec(u as nat) + "em\""@,
        Attribute::HeightEm(u) => "height=\""@ + spec_dec(u as nat) + "em\""@,
        Attribute::WidthVw(u) => "width=\""@ + spec_dec(u as nat) + "vw\""@,
        Attribute::HeightVw(u) => "height=\""@ + spec_dec(u as nat) + "vw\""@,
    }
}

impl Attribute {
    /// Renders the attribute as `name="value"`.
    pub fn to_string(&self) -> (r: String)
        ensures
            r@ == spec_attribute(*self),
    {
        match self {
            Attribute::CLASS(s) => {
                let mut r = String::from_str("class=\"");
                r.append(join(s, " ").as_str());
                r.append("\"");
                r
            },
            Attribute::WIDTH(u) => numeric_attribute("width=\"", *u, "\""),
            Attribute::HEIGHT(u) => numeric_attribute("height=\"", *u, "\""),
            Attribute::MARGIN(u) => numeric_attribute("margin=\"", *u, "\""),
            Attribute::WidthPercent(u) => numeric_attribute("width=\"", *u, "%\""),
            Attribute::HeightPercent(u) => numeric_attribute("height=\"", *u, "%\""),
            Attribute::WidthEm(u) => numeric_attribute("width=\"", *u, "em\""),
            Attribute::HeightEm(u) => numeric_attribute("height=\"", *u, "em\""),
            Attribute::WidthVw(u) => numeric_attribute("width=\"", *u, "vw\""),
            Attribute::HeightVw(u) => numeric_attribute("height=\"", *u, "vw\""),
        }
    }
}

fn numeric_attribute(prefix: &str, u: u32, suffix: &str) -> (r: String)
    ensures
        r@ == prefix@ + spec_dec(u as nat) + suffix@,
{
    let mut r = String::from_str(prefix);
    r.append(u64_to_string(u as u64).as_str());
    r.append(suffix);
    r
}

/// An htmx request attribute, rendered as `hx-verb="target"`.
#[derive(Clone)]
pub enum HtmxAttributes {
    GET(String),
    POST(String),
    PUT(String),
    PATCH(String),
    DELETE(String),
}

/// The rendering of one htmx attribute.
pub open spec fn spec_htmx_attribute(h: HtmxAttributes) -> Seq<char> {
    match h {
        HtmxAttributes::GET(s) => "hx-get=\""@ + s@ + "\""@,
        HtmxAttributes::POST(s) => "hx-post=\""@ + s@ + "\""@,
        HtmxAttributes::PUT(s) => "hx-put=\""@ + s@ + "\""@,
        HtmxAttributes::PATCH(s) => "hx-patch=\""@ + s@ + "\""@,
        HtmxAttributes::DELETE(s) => "hx-delete=\""@ + s@ + "\""@,
    }
}

impl HtmxAttributes {
    /// Renders the htmx attribute as `hx-verb="target"`.
    pub fn to_string(&self) -> (r: String)
        ensures
            r@ == spec_htmx_attribute(*self),
    {
        match self {
            HtmxAttributes::GET(s) => wrapped_attribute("hx-get=\"", s, "\""),
            HtmxAttributes::POST(s) => wrapped_attribute("hx-post=\"", s, "\""),
            HtmxAttributes::PUT(s) => wrapped_attribute("hx-put=\"", s, "\""),
            HtmxAttributes::PATCH(s) => wrapped_attribute("hx-patch=\"", s, "\""),
            HtmxAttributes::DELETE(s) => wrapped_attribute("hx-delete=\"", s, "\""),
        }
    }
}

fn wrapped_attribute(prefix: &str, s: &String, suffix: &str) -> (r: String)
    ensures
        r@ == prefix@ + s@ + suffix@,
{
    let mut r = String::from_str(prefix);
    r.append(s.as_str());
    r.append(suffix);
    r
}

/// The attribute sets that an element can carry.
#[derive(Clone)]
pub struct Attributes {
    pub htmx_attributes: Vec<HtmxAttributes>,
    pub attributes: Vec<Attribute>,
}

impl Default for Attributes {
    /// An empty attribute set.
    fn default() -> (r: Self)
        ensures
            r.htmx_attributes@.len() == 0,
            r.attributes@.len() == 0,
    {
        Attributes { htmx_attributes: Vec::new(), attributes: Vec::new() }
    }
}

/// Each htmx attribute rendered with a space before it, concatenated.
pub open spec fn spec_htmx_attributes(hs: Seq<HtmxAttributes>) -> Seq<char>
    decreases hs.len(),
{
    if hs.len() == 0 {
        Seq::empty()
    } else {
        " "@ + spec_htmx_attribute(hs[0]) + spec_htmx_attributes(hs.drop_first())
    }
}

/// Each plain attribute rendered with a space before it, concatenated.
pub open spec fn spec_attributes(attrs: Seq<Attribute>) -> Seq<char>
    decreases attrs.len(),
{
    if attrs.len() == 0 {
        Seq::empty()
    } else {
        " "@ + spec_attribute(attrs[0]) + spec_attributes(attrs.drop_first())
    }
}

/// The opening of an element: its name, then the custom attribute
/// strings joined by spaces, then the attribute sets, each entry
/// preceded by a space, closed with ` />`.
pub open spec fn spec_element(
    component: Seq<char>,
    custom: Option<Seq<Seq<char>>>,
    attrs: Option<Attributes>,
) -> Seq<char> {
    "<"@ + component + " "@ + (match custom {
        Option::Some(v) => spec_join(v, " "@),
        Option::None => Seq::empty(),
    }) + (match attrs {
        Option::Some(a) => spec_htmx_attributes(a.htmx_attributes@) + spec_attributes(
            a.attributes@,
        ),
        Option::None => Seq::empty(),
    }) + " />"@
}

/// Opens an element with the given name and attributes, closed with
/// ` />`.
pub fn html_element_with_attributes(
    component: &str,
    custom_attributes: Option<Vec<String>>,
    attributes: &Option<Attributes>,
) -> (r: String)
    ensures
        r@ == spec_element(
            component@,
            match custom_attributes {
                Option::Some(v) => Option::Some(v@.map_values(|x: String| x@)),
                Option::None => Option::None,
            },
            *attributes,
        ),
{
    let mut r = String::from_str("<");
    r.append(component);
    r.append(" ");
    match &custom_attributes {
        Option::Some(custom) => {
            r.append(join(custom, " ").as_str());
        },
        Option::None => {},
    }
    let ghost base = r@;
    match attributes {
        Option::Some(a) => {
            let mut i: usize = 0;
            let hn = a.htmx_attributes.len();
            proof {
                assert(a.htmx_attributes@.skip(0) =~= a.htmx_attributes@);
            }
            while i < hn
                invariant
                    i <= hn,
                    hn == a.htmx_attributes@.len(),
                    r@ + spec_htmx_attributes(a.htmx_attributes@.skip(i as int)) == base
                        + spec_htmx_attributes(a.htmx_attributes@),
                decreases hn - i,
            {
                let ghost r0 = r@;
                r.append(" ");
                r.append(a.htmx_attributes[i].to_string().as_str());
                proof {
                    assert(a.htmx_attributes@.skip(i as int).drop_first() =~= a.htmx_attributes@
                        .skip(i + 1));
                    assert(r@ + spec_htmx_attributes(a.htmx_attributes@.skip(i + 1)) =~= r0
                        + spec_htmx_attributes(a.htmx_attributes@.skip(i as int)));
                }
                i = i + 1;
            }
            proof {
                assert(a.htmx_attributes@.skip(hn as int) =~= Seq::<HtmxAttributes>::empty());
                assert(r@ + spec_htmx_attributes(a.htmx_attributes@.skip(hn as int)) =~= r@);
            }
            let ghost base2 = r@;
            let mut j: usize = 0;
            let an = a.attributes.len();
            proof {
                assert(a.attributes@.skip(0) =~= a.attributes@);
            }
            while j < an
                invariant
                    j <= an,
                    an == a.attributes@.len(),
                    r@ + spec_attributes(a.attributes@.skip(j as int)) == base2 + spec_attributes(
                        a.attributes@,
                    ),
                decreases an - j,
            {
                let ghost r0 = r@;
                r.append(" ");
                r.append(a.attributes[j].to_string().as_str());
                proof {
                    assert(a.attributes@.skip(j as int).drop_first() =~= a.attributes@.skip(j + 1));
                    assert(r@ + spec_attributes(a.attributes@.skip(j + 1)) =~= r0 + spec_attributes(
                        a.attributes@.skip(j as int),
                    ));
                }
                j = j + 1;
            }
            proof {
                assert(a.attributes@.skip(an as int) =~= Seq::<Attribute>::empty());
                assert(r@ + spec_attributes(a.attributes@.skip(an as int)) =~= r@);
            }
        },
        Option::None => {},
    }
    r.append(" />");
    proof {
        assert(r@ =~= spec_element(
            component@,
            match custom_attributes {
                Option::Some(v) => Option::Some(v@.map_values(|x: String| x@)),
                Option::None => Option::None,
            },
            *attributes,
        ));
    }
    r
}

/// A value that renders itself as an HTML fragment; the contract of
/// `html_string` ties the rendering to `spec_html`.
pub trait IntoHtml {
    spec fn spec_html(&self) -> Seq<char>;

    fn html_string(&self) -> (r: String)
        ensures
            r@ == self.spec_html(),
    ;
}

impl IntoHtml for String {
    open spec fn spec_html(&self) -> Seq<char> {
        self@
    }

    fn html_string(&self) -> (r: String) {
        self.clone()
    }
}

/// A top-level heading.
#[derive(Clone)]
pub struct Header(pub String);

impl IntoHtml for Header {
    open spec fn spec_html(&self) -> Seq<char> {
        spec_element("h1"@, Option::None, Option::None) + self.0@ + "</h1>"@
    }

    fn html_string(&self) -> (r: String) {
        let mut r = html_element_with_attributes("h1", None, &None);
        r.append(self.0.as_str());
        r.append("</h1>");
        r
    }
}

/// A top-level heading.
pub struct Header1(pub String);

impl IntoHtml for Header1 {
    open spec fn spec_html(&self) -> Seq<char> {
        spec_element("h1"@, Option::None, Option::None) + self.0@ + "</h1>"@
    }

    fn html_string(&self) -> (r: String) {
        let mut r = html_element_with_attributes("h1", None, &None);
        r.append(self.0.as_str());
        r.append("</h1>");
        r
    }
}

/// A second-level heading.
pub struct Header2(pub String);

impl IntoHtml for Header2 {
    open spec fn spec_html(&self) -> Seq<char> {
        spec_element("h2"@, Option::None, Option::None) + self.0@ + "</h2>"@
    }

    fn html_string(&self) -> (r: String) {
        let mut r = html_element_with_attributes("h2", None, &None);
        r.append(self.0.as_str());
        r.append("</h2>");
        r
    }
}

/// A horizontal rule.
pub struct Hr;

impl IntoHtml for Hr {
    open spec fn spec_html(&self) -> Seq<char> {
        spec_element("hr"@, Option::None, Option::None) + "</hr>"@
    }

    fn html_string(&self) -> (r: String) {
        let mut r = html_element_with_attributes("hr", None, &None);
        r.append("</hr>");
        r
    }
}

/// An anchor around a fragment, with its target.
pub struct Anchor<T: IntoHtml>(pub String, pub T);

impl<T: IntoHtml> IntoHtml for Anchor<T> {
    open spec fn spec_html(&self) -> Seq<char> {
        spec_element(
            "a"@,
            Option::Some(seq!["href=\""@ + self.0@ + "\""@]),
            Option::None,
        ) + self.1.spec_html() + "</a>"@
    }

    fn html_string(&self) -> (r: String) {
        let mut custom: Vec<String> = Vec::new();
        custom.push(wrapped_attribute("href=\"", &self.0, "\""));
        proof {
            assert(custom@.map_values(|x: String| x@) =~= seq!["href=\""@ + self.0@ + "\""@]);
        }
        let mut r = html_element_with_attributes("a", Some(custom), &None);
        r.append(self.1.html_string().as_str());
        r.append("</a>");
        r
    }
}

/// A div around one fragment, with optional attributes.
pub struct SimpleDiv<T: IntoHtml>(pub Option<Attributes>, pub T);

impl<T: IntoHtml> IntoHtml for SimpleDiv<T> {
    open spec fn spec_html(&self) -> Seq<char> {
        spec_element("div"@, Option::None, self.0) + self.1.spec_html() + "</div>"@
    }

    fn html_string(&self) -> (r: String) {
        let mut r = html_element_with_attributes("div", None, &self.0);
        r.append(self.1.html_string().as_str());
        r.append("</div>");
        r
    }
}

/// The renderings of a row of fragments, concatenated.
pub open spec fn spec_elements_html(elements: Seq<Box<dyn IntoHtml>>) -> Seq<char>
    decreases elements.len(),
{
    if elements.len() == 0 {
        Seq::empty()
    } else {
        elements[0].spec_html() + spec_elements_html(elements.drop_first())
    }
}

fn render_elements_into(r: &mut String, elements: &Vec<Box<dyn IntoHtml>>)
    ensures
        final(r)@ == old(r)@ + spec_elements_html(elements@),
{
    let ghost base = r@;
    let n = elements.len();
    let mut i: usize = 0;
    proof {
        assert(elements@.skip(0) =~= elements@);
        assert(base + (Seq::<char>::empty() + spec_elements_html(elements@)) =~= base
            + spec_elements_html(elements@));
    }
    while i < n
        invariant
            i <= n,
            n == elements@.len(),
            r@ + spec_elements_html(elements@.skip(i as int)) == base + spec_elements_html(
                elements@,
            ),
        decreases n - i,
    {
        let ghost r0 = r@;
        r.append(elements[i].html_string().as_str());
        proof {
            assert(elements@.skip(i as int).drop_first() =~= elements@.skip(i + 1));
            assert(r@ + spec_elements_html(elements@.skip(i + 1)) =~= r0 + spec_elements_html(
                elements@.skip(i as int),
            ));
        }
        i = i + 1;
    }
    proof {
        assert(elements@.skip(n as int) =~= Seq::<Box<dyn IntoHtml>>::empty());
        assert(r@ + spec_elements_html(elements@.skip(n as int)) =~= r@);
    }
}

/// A div around a row of fragments, with optional attributes.
pub struct Div {
    pub elements: Vec<Box<dyn IntoHtml>>,
    pub attributes: Option<Attributes>,
}

impl IntoHtml for Div {
    open spec fn spec_html(&self) -> Seq<char> {
        spec_element("div"@, Option::None, self.attributes) + spec_elements_html(self.elements@)
            + "</div>"@
    }

    fn html_string(&self) -> (r: String) {
        let mut r = html_element_with_attributes("div", None, &self.attributes);
        render_elements_into(&mut r, &self.elements);
        r.append("</div>");
        r
    }
}

/// The renderings of the list items, each wrapped in an `li`
/// element carrying the shared item attributes, concatenated.
pub open spec fn spec_list_items(
    items: Seq<Box<dyn IntoHtml>>,
    item_attributes: Option<Attributes>,
) -> Seq<char>
    decreases items.len(),
{
    if items.len() == 0 {
        Seq::empty()
    } else {
        spec_element("li"@, Option::None, item_attributes) + items[0].spec_html() + "</li>"@
            + spec_list_items(items.drop_first(), item_attributes)
    }
}

/// An unordered list of fragments, with optional attributes on the
/// list and on each item.
pub struct Ulist {
    pub items: Vec<Box<dyn IntoHtml>>,
    pub attributes: Option<Attributes>,
    pub item_attributes: Option<Attributes>,
}

impl IntoHtml for Ulist {
    open spec fn spec_html(&self) -> Seq<char> {
        spec_element("ul"@, Option::None, self.attributes) + spec_list_items(
            self.items@,
            self.item_attributes,
        ) + "</ul>"@
    }

    fn html_string(&self) -> (r: String) {
        let mut r = html_element_with_attributes("ul", None, &self.attributes);
        let ghost base = r@;
        let n = self.items.len();
        let mut i: usize = 0;
        proof {
            assert(self.items@.skip(0) =~= self.items@);
            assert(base + (Seq::<char>::empty() + spec_list_items(
                self.items@,
                self.item_attributes,
            )) =~= base + spec_list_items(self.items@, self.item_attributes));
        }
        while i < n
            invariant
                i <= n,
                n == self.items@.len(),
                r@ + spec_list_items(self.items@.skip(i as int), self.item_attributes) == base
                    + spec_list_items(self.items@, self.item_attributes),
            decreases n - i,
        {
            let ghost r0 = r@;
            r.append(html_element_with_attributes("li", None, &self.item_attributes).as_str());
            r.append(self.items[i].html_string().as_str());
            r.append("</li>");
            proof {
                assert(self.items@.skip(i as int).drop_first() =~= self.items@.skip(i + 1));
                assert(r@ + spec_list_items(self.items@.skip(i + 1), self.item_attributes) =~= r0
                    + spec_list_items(self.items@.skip(i as int), self.item_attributes));
            }
            i = i + 1;
        }
        proof {
            assert(self.items@.skip(n as int) =~= Seq::<Box<dyn IntoHtml>>::empty());
            assert(r@ + spec_list_items(self.items@.skip(n as int), self.item_attributes) =~= r@);
        }
        r.append("</ul>");
        r
    }
}

/// An image with its source, alternative text, and optional
/// attributes.
pub struct Img {
    pub uri: String,
    pub alt_text: String,
    pub attributes: Option<Attributes>,
}

impl IntoHtml for Img {
    open spec fn spec_html(&self) -> Seq<char> {
        spec_element(
            "img"@,
            Option::Some(seq!["src=\""@ + self.uri@ + "\""@, "alt=\""@ + self.alt_text@ + "\""@]),
            self.attributes,
        ) + "</img>"@
    }

    fn html_string(&self) -> (r: String) {
        let mut custom: Vec<String> = Vec::new();
        custom.push(wrapped_attribute("src=\"", &self.uri, "\""));
        custom.push(wrapped_attribute("alt=\"", &self.alt_text, "\""));
        proof {
            assert(custom@.map_values(|x: String| x@) =~= seq![
                "src=\""@ + self.uri@ + "\""@,
                "alt=\""@ + self.alt_text@ + "\""@,
            ]);
        }
        let mut r = html_element_with_attributes("img", Some(custom), &self.attributes);
        r.append("</img>");
        r
    }
}

} // verus!
