use rqr::builder::QrBuilder;
use rqr::ec_level::ECLevel;
use rqr::matrix::{Matrix, Module};
use rqr::render::{to_dbg_string, Color, StringRenderer, SvgRenderer};
use rqr::version::Version;

#[test]
fn color() {
    assert_eq!(Color::new(255, 100, 32), Color::hex(0xff6420));
    assert_eq!(Color::hex(0xff6420).to_hex_str(), "#ff6420");
    assert_eq!(Color::new(255, 0, 0).to_hex_str(), "#ff0000");
    assert_eq!("#f92".parse::<Color>().unwrap(), Color::hex(0xff9922));
    assert_eq!("#f1a293".parse::<Color>().unwrap(), Color::hex(0xf1a293));
    assert!("#ooo".parse::<Color>().is_err())
}

#[test]
fn color_parsing_edges() {
    assert_eq!(Color::from_4_hex("#700").unwrap(), Color::new(0x77, 0, 0));
    assert_eq!(Color::from_7_hex("#3477FF").unwrap(), Color::new(0x34, 0x77, 0xff));
    assert!(Color::from_4_hex("f920").is_err());
    assert!(Color::from_7_hex("#12345g").is_err());
    assert!(Color::parse("#12345").is_err());
    assert!(Color::parse("").is_err());
    assert!(Color::parse("#+1+2+3").is_err());
    assert_eq!(Color::hex(0x0a0b0c).to_hex_str(), "#0a0b0c");
}

#[test]
fn string_renderer() {
    let mut builder = QrBuilder::new().version(Version::new(1)).ecl(ECLevel::Q);
    builder.add_all("HELLO WORLD").unwrap();
    let s = StringRenderer::new()
        .light_module('~')
        .dark_module('X')
        .module_dimensions(2, 1)
        .render_matrix(&builder.matrix);
    let expected = "XXXXXXXXXXXXXX~~~~~~~~XX~~~~XXXXXXXXXXXXXX\nXX~~~~~~~~~~XX~~XXXX~~~~XX~~XX~~~~~~~~~~XX\nXX~~XXXXXX~~XX~~~~XX~~XXXX~~XX~~XXXXXX~~XX\nXX~~XXXXXX~~XX~~XXXXXXXXXX~~XX~~XXXXXX~~XX\nXX~~XXXXXX~~XX~~XXXX~~XX~~~~XX~~XXXXXX~~XX\nXX~~~~~~~~~~XX~~~~XX~~~~XX~~XX~~~~~~~~~~XX\nXXXXXXXXXXXXXX~~XX~~XX~~XX~~XXXXXXXXXXXXXX\n~~~~~~~~~~~~~~~~XXXX~~XXXX~~~~~~~~~~~~~~~~\n~~XX~~XXXXXXXX~~XXXX~~~~XXXXXX~~XXXX~~XX~~\nXX~~XXXXXXXX~~XX~~~~~~~~XXXXXXXX~~XXXXXX~~\n~~~~XX~~XX~~XXXX~~~~~~XX~~~~XXXX~~~~~~~~~~\nXX~~XXXX~~XX~~~~~~XX~~XXXX~~~~~~XXXX~~~~~~\nXXXX~~XXXXXXXXXXXXXXXX~~XXXXXX~~XXXXXXXXXX\n~~~~~~~~~~~~~~~~XX~~~~~~XX~~~~XX~~XX~~~~~~\nXXXXXXXXXXXXXX~~~~XXXX~~~~XXXX~~~~XXXXXXXX\nXX~~~~~~~~~~XX~~XX~~XX~~~~XX~~~~XX~~XXXXXX\nXX~~XXXXXX~~XX~~XXXX~~XX~~~~XX~~~~~~XXXXXX\nXX~~XXXXXX~~XX~~XX~~XXXXXX~~~~~~XX~~XX~~~~\nXX~~XXXXXX~~XX~~~~XX~~~~~~~~XX~~~~~~~~XXXX\nXX~~~~~~~~~~XX~~XXXXXX~~~~XXXXXX~~~~XXXX~~\nXXXXXXXXXXXXXX~~~~XX~~XX~~~~~~~~~~~~~~XX~~\n";
    assert_eq!(s, expected);
}

#[test]
fn string_renderer_quiet_zone_and_height() {
    let mut m = Matrix::new(2);
    m.set(0, 0, Module::Function(true));
    m.set(1, 1, Module::Data(true));
    let s = StringRenderer::new().quiet_zone(true).module_dimensions(1, 2).render_matrix(&m);
    let expected = "\n\n\n\n\n\n\n\n    #.    \n    #.    \n    .#    \n    .#    \n\n\n\n\n\n\n\n\n";
    assert_eq!(s, expected);
    assert_eq!(StringRenderer::new().render_matrix(&m), "#.\n.#\n");
    assert_eq!(to_dbg_string(&m), "\n#?\n?X\n");
}

#[test]
fn svg_renderer_small_symbol() {
    let mut m = Matrix::new(2);
    m.set(0, 0, Module::Function(true));
    m.set(1, 1, Module::Data(true));
    let s = SvgRenderer::new()
        .light_module(Color::new(229, 189, 227))
        .dark_module(Color::new(119, 0, 0))
        .dimensions(25, 10)
        .quiet_zone(false)
        .render_matrix(&m);
    let expected = "<?xml version=\"1.0\" standalone=\"yes\"?>\n<svg xmlns=\"http://www.w3.org/2000/svg\" version=\"1.1\"\n    viewBox=\"0 0 26 10\" shape-rendering=\"crispEdges\">\n<rect x=\"0\" y=\"0\" width=\"26\" height=\"10\" fill=\"#e5bde3\"/>\n<path fill=\"#770000\" d=\"M0 0h13v5H0V0M13 5h13v5H13V5\"/></svg>\n";
    assert_eq!(s, expected);
}

#[test]
fn svg_renderer() {
    let mut builder = QrBuilder::new().version(Version::new(1)).ecl(ECLevel::Q);
    builder.add_all("HELLO WORLD").unwrap();
    let s = SvgRenderer::new()
        .light_module(Color::new(229, 189, 227))
        .dark_module(Color::new(119, 0, 0))
        .dimensions(200, 200)
        .render_matrix(&builder.matrix);
    // 29 cells with the quiet zone, 7 pixels each.
    assert!(s.starts_with("<?xml version=\"1.0\" standalone=\"yes\"?>\n<svg xmlns=\"http://www.w3.org/2000/svg\" version=\"1.1\"\n    viewBox=\"0 0 203 203\" shape-rendering=\"crispEdges\">\n<rect x=\"0\" y=\"0\" width=\"203\" height=\"203\" fill=\"#e5bde3\"/>\n<path fill=\"#770000\" d=\"M28 28h7v7H28V28M35 28h7v7H35V28"));
    assert!(s.ends_with("\"/></svg>\n"));
    let dark = builder.matrix.modules.iter().filter(|m| m.is_dark()).count();
    assert_eq!(s.matches('M').count(), dark);
}
