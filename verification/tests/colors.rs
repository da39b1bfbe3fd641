use slapdash::model::{Color, Widget, WidgetType};

const PALETTE: [Color; 28] = [
    Color::Red,
    Color::Pink,
    Color::Purple,
    Color::DeepPurple,
    Color::Indigo,
    Color::Blue,
    Color::LightBlue,
    Color::Cyan,
    Color::Aqua,
    Color::Teal,
    Color::Green,
    Color::LightGreen,
    Color::Lime,
    Color::Sand,
    Color::Khaki,
    Color::Yellow,
    Color::Amber,
    Color::Orange,
    Color::DeepOrange,
    Color::BlueGray,
    Color::Brown,
    Color::LightGray,
    Color::Gray,
    Color::DarkGray,
    Color::PaleRed,
    Color::PaleYellow,
    Color::PaleGreen,
    Color::PaleBlue,
];

#[test]
fn default_color_is_teal() {
    assert_eq!(Color::default(), Color::Teal);
}

#[test]
fn css_classes_of_the_palette() {
    let classes: Vec<&str> = PALETTE.iter().map(|c| c.to_css_class()).collect();
    assert_eq!(
        classes,
        vec![
            "w3-red",
            "w3-pink",
            "w3-purple",
            "w3-deep-purple",
            "w3-indigo",
            "w3-blue",
            "w3-light-blue",
            "w3-cyan",
            "w3-aqua",
            "w3-teal",
            "w3-green",
            "w3-light-green",
            "w3-lime",
            "w3-sand",
            "w3-khaki",
            "w3-yellow",
            "w3-amber",
            "w3-orange",
            "w3-deep-orange",
            "w3-blue-gray",
            "w3-brown",
            "w3-light-gray",
            "w3-gray",
            "w3-dark-gray",
            "w3-pale-red",
            "w3-pale-yellow",
            "w3-pale-green",
            "w3-pale-blue",
        ]
    );
}

#[test]
fn strokes_of_the_palette() {
    let white = [
        Color::Red,
        Color::Pink,
        Color::Purple,
        Color::DeepPurple,
        Color::Indigo,
        Color::Blue,
        Color::Teal,
        Color::Green,
        Color::DeepOrange,
        Color::BlueGray,
        Color::Brown,
        Color::DarkGray,
    ];
    for color in PALETTE.iter() {
        let expected = if white.contains(color) { "white" } else { "black" };
        assert_eq!(color.to_css_stroke(), expected, "{:?}", color);
    }
}

#[test]
fn widget_styles_follow_its_color() {
    let widget = Widget {
        label: "l".to_string(),
        left: 1,
        top: 1,
        width: 1,
        height: 1,
        series: "s".to_string(),
        typ: WidgetType::Value,
        color: Color::Amber,
    };
    assert_eq!(widget.color_css_class(), "w3-amber");
    assert_eq!(widget.stroke_css_color(), "black");
    let copy = widget.clone();
    assert_eq!(copy.label, "l");
    assert_eq!(copy.series, "s");
    assert_eq!(copy.color, Color::Amber);
    assert_eq!(copy.typ, WidgetType::Value);
    assert_eq!((copy.left, copy.top, copy.width, copy.height), (1, 1, 1, 1));
}
