use logo_gen::document::{generate_logo, logo_document, LogoError};
use logo_gen::geometry::{create_bar, create_t, create_v, BarPosition, Point, Width};
use logo_gen::text::{format_fixed, polygon_path, rectangle_path, spaced_points};

const UNIT: i128 = 10_000_000_000;

fn width(milli: i32) -> Width {
    Width { milli }
}

fn pt(x_tenths: i128, y_tenths: i128) -> Point {
    Point { x: x_tenths * UNIT / 10, y: y_tenths * UNIT / 10 }
}

#[test]
fn example_width_four_markup() {
    let svg = generate_logo(width(4000)).unwrap();
    assert!(svg.contains(r#"d="M0,0 H4 V20 H0 z""#));
    assert!(svg.contains(r#"d="M16,0 H20 V20 H16 z""#));
    assert!(svg.contains(r#"points="2 0 10 20 18 0""#));
    assert!(svg.contains(r#"stroke-width="4""#));
}

#[test]
fn example_width_four_t_path() {
    let svg = generate_logo(width(4000)).unwrap();
    assert!(svg.contains(r#"d="M6,0 L14,0 L12.4,4 L11.6,4 L11.6,6 L10,10 L8.4,6 L8.4,4 L7.6,4 z""#));
}

#[test]
fn same_width_same_markup() {
    for milli in [0, 1500, 2000, 4000, 7999, -3000] {
        assert_eq!(generate_logo(width(milli)), generate_logo(width(milli)));
    }
}

#[test]
fn view_box_is_fixed() {
    for milli in [0, 1, 2500, 4000, 19999, 20001, 100000, -5000] {
        let svg = generate_logo(width(milli)).unwrap();
        assert!(svg.contains(r#"viewBox="0 0 20 20""#));
        assert_eq!(logo_document(width(milli)).unwrap().view_box, "0 0 20 20");
    }
}

#[test]
fn markup_has_namespace_and_root() {
    let svg = generate_logo(width(2000)).unwrap();
    assert!(svg.starts_with("<svg"));
    assert!(svg.contains(r#"xmlns="http://www.w3.org/2000/svg""#));
    assert!(svg.ends_with("</svg>"));
}

#[test]
fn one_definitions_block_then_four_shapes_in_order() {
    let svg = generate_logo(width(3000)).unwrap();
    assert_eq!(svg.matches("<defs>").count(), 1);
    assert_eq!(svg.matches("</defs>").count(), 1);
    let after_defs = &svg[svg.find("</defs>").unwrap()..];
    let tags: Vec<&str> = after_defs
        .split('<')
        .filter(|s| s.starts_with("path ") || s.starts_with("polyline "))
        .map(|s| s.split(' ').next().unwrap())
        .collect();
    assert_eq!(tags, vec!["path", "path", "polyline", "path"]);
    let doc = logo_document(width(3000)).unwrap();
    assert_eq!(doc.definitions.len(), 2);
    assert_eq!(doc.definitions[0].tag, "clipPath");
    assert_eq!(doc.definitions[1].tag, "linearGradient");
    let shape_tags: Vec<&str> = doc.shapes.iter().map(|s| s.tag.as_str()).collect();
    assert_eq!(shape_tags, vec!["path", "path", "polyline", "path"]);
}

#[test]
fn definitions_clip_and_gradient() {
    let svg = generate_logo(width(4000)).unwrap();
    assert!(svg.contains(r#"<clipPath id="cut-off-top">"#));
    assert!(svg.contains(r#"<rect height="20" width="20" x="0" y="0"/>"#));
    assert!(svg.contains(r#"<linearGradient id="bg" x1="0.5" x2="0.5" y1="0" y2="1">"#));
    assert!(svg.contains(r#"<stop offset="100%" stop-color="white"/>"#));
}

#[test]
fn bars_mirror_about_centre() {
    for milli in [0, 1250, 4000, 7000] {
        let l = create_bar(width(milli), BarPosition::Left);
        let r = create_bar(width(milli), BarPosition::Right);
        let mirror = [1, 0, 3, 2];
        for i in 0..4 {
            assert_eq!(r[i].x, 20 * UNIT - l[mirror[i]].x);
            assert_eq!(r[i].y, l[mirror[i]].y);
        }
    }
}

#[test]
fn bar_corners_width_four() {
    assert_eq!(create_bar(width(4000), BarPosition::Left), vec![pt(0, 0), pt(40, 0), pt(40, 200), pt(0, 200)]);
    assert_eq!(create_bar(width(4000), BarPosition::Right), vec![pt(160, 0), pt(200, 0), pt(200, 200), pt(160, 200)]);
}

#[test]
fn v_apex_and_ends() {
    for milli in [0, 1000, 2500, 6000] {
        let v = create_v(width(milli));
        let half = milli as i128 * UNIT / 2000;
        assert_eq!(v.points, vec![Point { x: half, y: 0 }, pt(100, 200), Point { x: 20 * UNIT - half, y: 0 }]);
        assert_eq!(v.stroke, milli as i128 * UNIT / 1000);
    }
}

#[test]
fn t_has_nine_corners() {
    for milli in [1, 500, 4000, 7999, 30000, -2000] {
        assert_eq!(create_t(width(milli)).unwrap().len(), 9);
    }
}

#[test]
fn t_corners_width_four() {
    let t = create_t(width(4000)).unwrap();
    assert_eq!(
        t,
        vec![pt(60, 0), pt(140, 0), pt(124, 40), pt(116, 40), pt(116, 60), pt(100, 100), pt(84, 60), pt(84, 40), pt(76, 40)]
    );
}

#[test]
fn t_corners_width_zero_meet_at_centre() {
    let t = create_t(width(0)).unwrap();
    assert_eq!(t[0], pt(0, 0));
    assert_eq!(t[1], pt(200, 0));
    assert_eq!(t[5], pt(100, 200));
    assert_eq!(t[6], pt(100, 200));
}

#[test]
fn scaling_from_two_to_four() {
    let a = create_bar(width(2000), BarPosition::Left);
    let b = create_bar(width(4000), BarPosition::Left);
    assert_eq!(a[1].x - a[0].x, 2 * UNIT);
    assert_eq!(b[1].x - b[0].x, 4 * UNIT);
    assert_eq!(create_v(width(2000)).stroke * 2, create_v(width(4000)).stroke);
    // The spike's tip sits at 20 - 2.5 w on the centre line.
    assert_eq!(create_t(width(2000)).unwrap()[5], pt(100, 150));
    assert_eq!(create_t(width(4000)).unwrap()[5], pt(100, 100));
}

#[test]
fn degenerate_width_is_refused() {
    assert_eq!(create_t(width(20000)), None);
    assert_eq!(generate_logo(width(20000)), Err(LogoError::DegenerateLine));
    assert!(logo_document(width(20000)).is_err());
    assert!(generate_logo(width(19999)).is_ok());
}

#[test]
fn fixed_point_text() {
    assert_eq!(format_fixed(0), "0");
    assert_eq!(format_fixed(4 * UNIT), "4");
    assert_eq!(format_fixed(84 * UNIT / 10), "8.4");
    assert_eq!(format_fixed(-5 * UNIT / 10), "-0.5");
    assert_eq!(format_fixed(1), "0.0000000001");
    assert_eq!(format_fixed(123 * UNIT + 45), "123.0000000045");
    assert_eq!(format_fixed(i128::MIN), "-17014118346046923173168730371.5884105728");
    assert_eq!(format_fixed(i128::MAX), "17014118346046923173168730371.5884105727");
}

#[test]
fn path_texts() {
    let ps = vec![pt(0, 0), pt(15, 0), pt(15, 200), pt(0, 200)];
    assert_eq!(rectangle_path(&ps), "M0,0 H1.5 V20 H0 z");
    assert_eq!(polygon_path(&ps), "M0,0 L1.5,0 L1.5,20 L0,20 z");
    assert_eq!(polygon_path(&vec![pt(-5, 3)]), "M-0.5,0.3 z");
    assert_eq!(spaced_points(&ps), "0 0 1.5 0 1.5 20 0 20");
    assert_eq!(spaced_points(&vec![]), "");
}

#[test]
fn negative_width_is_accepted() {
    let svg = generate_logo(width(-2000)).unwrap();
    assert!(svg.contains(r#"points="-1 0 10 20 21 0""#));
    assert!(svg.contains(r#"stroke-width="-2""#));
}

#[test]
fn chevron_attributes() {
    let svg = generate_logo(width(4000)).unwrap();
    assert!(svg.contains(
        r#"<polyline clip-path="url(#cut-off-top)" fill="none" points="2 0 10 20 18 0" stroke="url(#bg)" stroke-linecap="square" stroke-width="4"/>"#
    ));
    assert!(!svg.contains("linejoin"));
}

#[test]
fn whole_markup_width_four() {
    let svg = generate_logo(width(4000)).unwrap();
    let expected = [
        r#"<svg viewBox="0 0 20 20" xmlns="http://www.w3.org/2000/svg">"#, "\n",
        "<defs>\n",
        r#"<clipPath id="cut-off-top">"#, "\n",
        r#"<rect height="20" width="20" x="0" y="0"/>"#, "\n",
        "</clipPath>\n",
        r#"<linearGradient id="bg" x1="0.5" x2="0.5" y1="0" y2="1">"#, "\n",
        r#"<stop offset="100%" stop-color="white"/>"#, "\n",
        "</linearGradient>\n",
        "</defs>\n",
        r#"<path d="M0,0 H4 V20 H0 z" fill="url(#bg)"/>"#, "\n",
        r#"<path d="M16,0 H20 V20 H16 z" fill="url(#bg)"/>"#, "\n",
        r#"<polyline clip-path="url(#cut-off-top)" fill="none" points="2 0 10 20 18 0" stroke="url(#bg)" stroke-linecap="square" stroke-width="4"/>"#, "\n",
        r#"<path d="M6,0 L14,0 L12.4,4 L11.6,4 L11.6,6 L10,10 L8.4,6 L8.4,4 L7.6,4 z" fill="url(#bg)"/>"#, "\n",
        "</svg>",
    ]
    .concat();
    assert_eq!(svg, expected);
}
