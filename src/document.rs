use vstd::prelude::*;

use crate::geometry::{
    bar_corners, chevron_points, create_bar, create_t, create_v, t_corners, BarPosition, Width,
    DEGENERATE_MILLI,
};
use crate::text::{
    fixed_text, format_fixed, polygon_path, polygon_path_text, rectangle_path, rectangle_path_text,
    spaced_points, spaced_text,
};
use svg::node::element::Element;

verus! {

#[verifier::external_type_specification]
#[verifier::external_body]
pub struct ExElement(Element);

/// A markup element without children: a tag and its attributes in order.
pub struct Shape {
    pub tag: String,
    pub attributes: Vec<(String, String)>,
}

/// A definition: a tag, its attributes, and the one element it holds.
pub struct Definition {
    pub tag: String,
    pub attributes: Vec<(String, String)>,
    pub child: Shape,
}

/// The logo as a document: a view box, the definitions block, and the shapes
/// in drawing order (later shapes cover earlier ones).
pub struct LogoDocument {
    pub view_box: String,
    pub definitions: Vec<Definition>,
    pub shapes: Vec<Shape>,
}

/// Why a width gives no logo.
#[derive(Clone, Copy, Debug, PartialEq, Eq, Structural)]
pub enum LogoError {
    /// The width is 20: the chevron's sides are vertical lines, which have no
    /// slope to intersect.
    DegenerateLine,
}

pub type AttributesView = Seq<(Seq<char>, Seq<char>)>;

pub open spec fn attributes_view(a: Seq<(String, String)>) -> AttributesView {
    a.map_values(|p: (String, String)| (p.0@, p.1@))
}

pub open spec fn shape_view(s: Shape) -> (Seq<char>, AttributesView) {
    (s.tag@, attributes_view(s.attributes@))
}

pub open spec fn definition_view(d: Definition) -> (Seq<char>, AttributesView, (Seq<char>, AttributesView)) {
    (d.tag@, attributes_view(d.attributes@), shape_view(d.child))
}

pub open spec fn fill_reference() -> Seq<char> {
    "url(#bg)"@
}

/// The full-canvas clip region and the top-to-bottom background gradient.
pub open spec fn definitions_spec() -> Seq<(Seq<char>, AttributesView, (Seq<char>, AttributesView))> {
    seq![
        ("clipPath"@, seq![("id"@, "cut-off-top"@)], ("rect"@, seq![
            ("x"@, "0"@),
            ("y"@, "0"@),
            ("width"@, "20"@),
            ("height"@, "20"@),
        ])),
        ("linearGradient"@, seq![
            ("id"@, "bg"@),
            ("x1"@, "0.5"@),
            ("y1"@, "0"@),
            ("x2"@, "0.5"@),
            ("y2"@, "1"@),
        ], ("stop"@, seq![("offset"@, "100%"@), ("stop-color"@, "white"@)])),
    ]
}

pub open spec fn bar_spec(width: Width, position: BarPosition) -> (Seq<char>, AttributesView) {
    ("path"@, seq![("d"@, rectangle_path_text(bar_corners(width, position))), ("fill"@, fill_reference())])
}

pub open spec fn v_spec(width: Width) -> (Seq<char>, AttributesView) {
    ("polyline"@, seq![
        ("points"@, spaced_text(chevron_points(width))),
        ("fill"@, "none"@),
        ("stroke"@, fill_reference()),
        ("stroke-width"@, fixed_text(10_000_000 * width.milli)),
        ("stroke-linecap"@, "square"@),
        ("clip-path"@, "url(#cut-off-top)"@),
    ])
}

pub open spec fn t_spec(width: Width) -> (Seq<char>, AttributesView) {
    ("path"@, seq![("d"@, polygon_path_text(t_corners(width))), ("fill"@, fill_reference())])
}

/// The shapes in drawing order: left bar, right bar, V, T.
pub open spec fn shapes_spec(width: Width) -> Seq<(Seq<char>, AttributesView)> {
    seq![bar_spec(width, BarPosition::Left), bar_spec(width, BarPosition::Right), v_spec(width), t_spec(width)]
}

pub open spec fn view_box_spec() -> Seq<char> {
    "0 0 20 20"@
}

/// What the logo document of `width` holds.
pub open spec fn is_logo_document(d: LogoDocument, width: Width) -> bool {
    &&& d.view_box@ == view_box_spec()
    &&& d.definitions@.map_values(|x: Definition| definition_view(x)) == definitions_spec()
    &&& d.shapes@.map_values(|x: Shape| shape_view(x)) == shapes_spec(width)
}

fn text(s: &str) -> (r: String)
    ensures
        r@ == s@,
{
    let mut r = String::new();
    r.append(s);
    r
}

fn attribute(name: &str, value: String) -> (r: (String, String))
    ensures
        r.0@ == name@,
        r.1@ == value@,
{
    (text(name), value)
}

fn create_defs() -> (r: Vec<Definition>)
    ensures
        r@.map_values(|x: Definition| definition_view(x)) == definitions_spec(),
{
    let rect = Shape {
        tag: text("rect"),
        attributes: vec![
            attribute("x", text("0")),
            attribute("y", text("0")),
            attribute("width", text("20")),
            attribute("height", text("20")),
        ],
    };
    let clip_path = Definition {
        tag: text("clipPath"),
        attributes: vec![attribute("id", text("cut-off-top"))],
        child: rect,
    };
    let stop = Shape {
        tag: text("stop"),
        attributes: vec![attribute("offset", text("100%")), attribute("stop-color", text("white"))],
    };
    let gradient = Definition {
        tag: text("linearGradient"),
        attributes: vec![
            attribute("id", text("bg")),
            attribute("x1", text("0.5")),
            attribute("y1", text("0")),
            attribute("x2", text("0.5")),
            attribute("y2", text("1")),
        ],
        child: stop,
    };
    let r = vec![clip_path, gradient];
    proof {
        assert(attributes_view(r@[0].attributes@) =~= definitions_spec()[0].1);
        assert(attributes_view(r@[0].child.attributes@) =~= definitions_spec()[0].2.1);
        assert(attributes_view(r@[1].attributes@) =~= definitions_spec()[1].1);
        assert(attributes_view(r@[1].child.attributes@) =~= definitions_spec()[1].2.1);
        assert(r@.map_values(|x: Definition| definition_view(x)) =~= definitions_spec());
    }
    r
}


fn shape(tag: &str, attributes: Vec<(String, String)>) -> (r: Shape)
    ensures
        r.tag@ == tag@,
        r.attributes@ == attributes@,
{
    Shape { tag: text(tag), attributes }
}

/// The logo for `width`: definitions, the two side bars, the V and the T, in
/// that order, inside a 20 by 20 view box.
pub fn logo_document(width: Width) -> (r: Result<LogoDocument, LogoError>)
    ensures
        r is Err <==> width.milli == DEGENERATE_MILLI,
        r matches Err(e) ==> e == LogoError::DegenerateLine,
        r matches Ok(d) ==> is_logo_document(d, width),
{
    let t = match create_t(width) {
        Some(ps) => ps,
        None => {
            return Err(LogoError::DegenerateLine);
        },
    };
    let definitions = create_defs();
    let left = create_bar(width, BarPosition::Left);
    let right = create_bar(width, BarPosition::Right);
    let v = create_v(width);
    let left_bar = shape("path", vec![attribute("d", rectangle_path(&left)), attribute("fill", text("url(#bg)"))]);
    let right_bar = shape("path", vec![attribute("d", rectangle_path(&right)), attribute("fill", text("url(#bg)"))]);
    let chevron = shape(
        "polyline",
        vec![
            attribute("points", spaced_points(&v.points)),
            attribute("fill", text("none")),
            attribute("stroke", text("url(#bg)")),
            attribute("stroke-width", format_fixed(v.stroke)),
            attribute("stroke-linecap", text("square")),
            attribute("clip-path", text("url(#cut-off-top)")),
        ],
    );
    let tee = shape("path", vec![attribute("d", polygon_path(&t)), attribute("fill", text("url(#bg)"))]);
    let shapes = vec![left_bar, right_bar, chevron, tee];
    proof {
        assert(attributes_view(shapes@[0].attributes@) =~= shapes_spec(width)[0].1);
        assert(attributes_view(shapes@[1].attributes@) =~= shapes_spec(width)[1].1);
        assert(attributes_view(shapes@[2].attributes@) =~= shapes_spec(width)[2].1);
        assert(attributes_view(shapes@[3].attributes@) =~= shapes_spec(width)[3].1);
        assert(shapes@.map_values(|x: Shape| shape_view(x)) =~= shapes_spec(width));
    }
    Ok(LogoDocument { view_box: text("0 0 20 20"), definitions, shapes })
}

/// Two logo documents for the same width hold the same view box, the same
/// definitions and the same shapes, attribute for attribute.
pub proof fn logo_document_deterministic(a: LogoDocument, b: LogoDocument, width: Width)
    requires
        is_logo_document(a, width),
        is_logo_document(b, width),
    ensures
        a.view_box@ == b.view_box@,
        a.definitions@.map_values(|x: Definition| definition_view(x)) == b.definitions@.map_values(
            |x: Definition| definition_view(x),
        ),
        a.shapes@.map_values(|x: Shape| shape_view(x)) == b.shapes@.map_values(|x: Shape| shape_view(x)),
{
}

/// Whatever the width, a logo document has the view box `0 0 20 20`, one
/// definitions block (the clip region, then the gradient) and four shapes in
/// drawing order: a path, a path, a polyline and a path.
pub proof fn logo_document_layout(d: LogoDocument, width: Width)
    requires
        is_logo_document(d, width),
    ensures
        d.view_box@ == "0 0 20 20"@,
        d.definitions.len() == 2,
        d.definitions[0].tag@ == "clipPath"@,
        d.definitions[1].tag@ == "linearGradient"@,
        d.shapes.len() == 4,
        d.shapes[0].tag@ == "path"@,
        d.shapes[1].tag@ == "path"@,
        d.shapes[2].tag@ == "polyline"@,
        d.shapes[3].tag@ == "path"@,
{
    let dv = d.definitions@.map_values(|x: Definition| definition_view(x));
    let sv = d.shapes@.map_values(|x: Shape| shape_view(x));
    assert(dv.len() == 2);
    assert(sv.len() == 4);
    assert(dv[0].0 == d.definitions[0].tag@);
    assert(dv[1].0 == d.definitions[1].tag@);
    assert(sv[0].0 == d.shapes[0].tag@);
    assert(sv[1].0 == d.shapes[1].tag@);
    assert(sv[2].0 == d.shapes[2].tag@);
    assert(sv[3].0 == d.shapes[3].tag@);
}

/// The tag that an svg element holds.
pub uninterp spec fn element_tag(e: Element) -> Seq<char>;

/// The attributes that an svg element holds, by name.
pub uninterp spec fn element_attributes(e: Element) -> Map<Seq<char>, Seq<char>>;

/// The markup of each child of an svg element, in order.
pub uninterp spec fn element_children(e: Element) -> Seq<Seq<char>>;

/// The markup that svg writes for an element with this tag, these attributes
/// and children with this markup (elements only, no bare text).
pub uninterp spec fn svg_markup(
    tag: Seq<char>,
    attributes: Map<Seq<char>, Seq<char>>,
    children: Seq<Seq<char>>,
) -> Seq<char>;

pub open spec fn element_markup(e: Element) -> Seq<char> {
    svg_markup(element_tag(e), element_attributes(e), element_children(e))
}

/// `m` with each attribute of `a` set in turn, a later one replacing an
/// earlier one of the same name.
pub open spec fn with_attributes(m: Map<Seq<char>, Seq<char>>, a: AttributesView) -> Map<Seq<char>, Seq<char>>
    decreases a.len(),
{
    if a.len() == 0 {
        m
    } else {
        with_attributes(m, a.drop_last()).insert(a.last().0, a.last().1)
    }
}

pub open spec fn shape_markup(s: (Seq<char>, AttributesView)) -> Seq<char> {
    svg_markup(s.0, with_attributes(Map::empty(), s.1), Seq::empty())
}

pub open spec fn definition_markup(d: (Seq<char>, AttributesView, (Seq<char>, AttributesView))) -> Seq<char> {
    svg_markup(d.0, with_attributes(Map::empty(), d.1), seq![shape_markup(d.2)])
}

pub open spec fn no_attributes() -> Map<Seq<char>, Seq<char>> {
    Map::empty()
}

pub open spec fn namespace_attributes() -> Map<Seq<char>, Seq<char>> {
    no_attributes().insert("xmlns"@, "http://www.w3.org/2000/svg"@)
}

/// The markup of a document: an `svg` root with the SVG namespace and the
/// view box, holding a `defs` element with the definitions, then the shapes.
pub open spec fn document_markup(
    view_box: Seq<char>,
    definitions: Seq<(Seq<char>, AttributesView, (Seq<char>, AttributesView))>,
    shapes: Seq<(Seq<char>, AttributesView)>,
) -> Seq<char> {
    let defs = svg_markup("defs"@, Map::empty(), definitions.map_values(|d| definition_markup(d)));
    svg_markup(
        "svg"@,
        namespace_attributes().insert("viewBox"@, view_box),
        seq![defs] + shapes.map_values(|x| shape_markup(x)),
    )
}

/// Relies on svg's `Element::new`: an element with this name, no attributes
/// and no children.
#[verifier::external_body]
fn new_element(name: &str) -> (r: Element)
    ensures
        element_tag(r) == name@,
        element_attributes(r) == no_attributes(),
        element_children(r).len() == 0,
{
    Element::new(name)
}

/// Relies on svg's `Document::new` (an `svg` element whose one attribute is
/// the SVG namespace) and its conversion into a plain element.
#[verifier::external_body]
fn new_document() -> (r: Element)
    ensures
        element_tag(r) == "svg"@,
        element_attributes(r) == namespace_attributes(),
        element_children(r).len() == 0,
{
    svg::Document::new().into()
}

/// Relies on svg's `Node::assign` for elements: inserts one attribute into
/// the element's map of attributes.
#[verifier::external_body]
fn set_attribute(element: &mut Element, name: &str, value: &str)
    ensures
        element_tag(*final(element)) == element_tag(*old(element)),
        element_attributes(*final(element)) == element_attributes(*old(element)).insert(name@, value@),
        element_children(*final(element)) == element_children(*old(element)),
{
    svg::Node::assign(element, name, value)
}

/// Relies on svg's `Node::append` for elements: adds a child after the others.
#[verifier::external_body]
fn append_child(element: &mut Element, child: Element)
    ensures
        element_tag(*final(element)) == element_tag(*old(element)),
        element_attributes(*final(element)) == element_attributes(*old(element)),
        element_children(*final(element)) == element_children(*old(element)).push(element_markup(child)),
{
    svg::Node::append(element, child)
}

/// Relies on svg's `Display` for elements: the markup depends on the tag,
/// the attributes (written sorted by name) and the children's markup alone.
#[verifier::external_body]
fn markup(element: &Element) -> (r: String)
    ensures
        r@ == svg_markup(element_tag(*element), element_attributes(*element), element_children(*element)),
{
    element.to_string()
}

fn set_attributes(element: &mut Element, attributes: &Vec<(String, String)>)
    ensures
        element_tag(*final(element)) == element_tag(*old(element)),
        element_attributes(*final(element)) == with_attributes(
            element_attributes(*old(element)),
            attributes_view(attributes@),
        ),
        element_children(*final(element)) == element_children(*old(element)),
{
    let ghost start = element_attributes(*element);
    let mut i: usize = 0;
    while i < attributes.len()
        invariant
            i <= attributes.len(),
            element_tag(*element) == element_tag(*old(element)),
            element_children(*element) == element_children(*old(element)),
            start == element_attributes(*old(element)),
            element_attributes(*element) == with_attributes(start, attributes_view(attributes@.subrange(0, i as int))),
        decreases attributes.len() - i,
    {
        set_attribute(element, attributes[i].0.as_str(), attributes[i].1.as_str());
        proof {
            assert(attributes_view(attributes@.subrange(0, i + 1)).drop_last() =~= attributes_view(
                attributes@.subrange(0, i as int),
            ));
        }
        i = i + 1;
    }
    assert(attributes@.subrange(0, attributes@.len() as int) =~= attributes@);
}

fn shape_element(s: &Shape) -> (r: Element)
    ensures
        element_markup(r) == shape_markup(shape_view(*s)),
{
    let mut e = new_element(s.tag.as_str());
    set_attributes(&mut e, &s.attributes);
    assert(element_children(e) =~= Seq::empty());
    e
}

/// Writes a document as SVG markup: the definitions inside one `defs`
/// element, then the shapes, in the document's order.
pub fn render(document: &LogoDocument) -> (r: String)
    ensures
        r@ == document_markup(
            document.view_box@,
            document.definitions@.map_values(|x: Definition| definition_view(x)),
            document.shapes@.map_values(|x: Shape| shape_view(x)),
        ),
{
    let ghost dv = document.definitions@.map_values(|x: Definition| definition_view(x));
    let ghost sv = document.shapes@.map_values(|x: Shape| shape_view(x));
    let mut root = new_document();
    set_attribute(&mut root, "viewBox", document.view_box.as_str());
    let mut defs = new_element("defs");
    assert(element_children(defs) =~= dv.subrange(0, 0).map_values(|d| definition_markup(d)));
    let mut i: usize = 0;
    while i < document.definitions.len()
        invariant
            i <= document.definitions.len(),
            dv == document.definitions@.map_values(|x: Definition| definition_view(x)),
            element_tag(defs) == "defs"@,
            element_attributes(defs) == Map::<Seq<char>, Seq<char>>::empty(),
            element_children(defs) == dv.subrange(0, i as int).map_values(|d| definition_markup(d)),
        decreases document.definitions.len() - i,
    {
        let d = &document.definitions[i];
        let mut e = new_element(d.tag.as_str());
        set_attributes(&mut e, &d.attributes);
        append_child(&mut e, shape_element(&d.child));
        append_child(&mut defs, e);
        proof {
            assert(element_children(e) =~= seq![shape_markup(shape_view(d.child))]);
            assert(dv.subrange(0, i + 1).map_values(|d| definition_markup(d)) =~= dv.subrange(
                0,
                i as int,
            ).map_values(|d| definition_markup(d)).push(definition_markup(dv[i as int])));
        }
        i = i + 1;
    }
    assert(dv.subrange(0, dv.len() as int) =~= dv);
    let ghost defs_markup = element_markup(defs);
    append_child(&mut root, defs);
    assert(element_children(root) =~= seq![defs_markup] + sv.subrange(0, 0).map_values(|x| shape_markup(x)));
    let mut j: usize = 0;
    while j < document.shapes.len()
        invariant
            j <= document.shapes.len(),
            sv == document.shapes@.map_values(|x: Shape| shape_view(x)),
            element_tag(root) == "svg"@,
            element_attributes(root) == namespace_attributes().insert("viewBox"@, document.view_box@),
            element_children(root) == seq![defs_markup] + sv.subrange(0, j as int).map_values(|x| shape_markup(x)),
        decreases document.shapes.len() - j,
    {
        append_child(&mut root, shape_element(&document.shapes[j]));
        proof {
            assert(sv.subrange(0, j + 1).map_values(|x| shape_markup(x)) =~= sv.subrange(0, j as int).map_values(
                |x| shape_markup(x),
            ).push(shape_markup(sv[j as int])));
        }
        j = j + 1;
    }
    assert(sv.subrange(0, sv.len() as int) =~= sv);
    assert(element_children(root) =~= seq![defs_markup] + sv.map_values(|x| shape_markup(x)));
    markup(&root)
}

/// The logo for `width` as SVG markup; fails exactly where `logo_document` does.
pub fn generate_logo(width: Width) -> (r: Result<String, LogoError>)
    ensures
        r is Err <==> width.milli == DEGENERATE_MILLI,
        r matches Err(e) ==> e == LogoError::DegenerateLine,
        r matches Ok(s) ==> s@ == document_markup(view_box_spec(), definitions_spec(), shapes_spec(width)),
{
    match logo_document(width) {
        Ok(d) => Ok(render(&d)),
        Err(e) => Err(e),
    }
}

} // verus!
