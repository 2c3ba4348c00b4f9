use shlog::config::{
    parse_hex_byte, parse_hex_color, parse_repeated_hex_digit, try_parse_hex_color, ShaderSource,
};
use shlog::{
    BackgroundConfig, BackgroundKind, Color, Config, InputConfig, InputType, PostConfig,
    ShaderConfig,
};

#[test]
fn the_default_configuration() {
    let config = Config::default();
    assert_eq!(config.background.kind, BackgroundKind::Shader);
    assert!(config.background.path.is_none());
    assert!(config.background.color.is_none());
    assert!(config.background.effect.is_none());
    assert_eq!(config.input.input_type, InputType::Terminal);
    assert_eq!(config.input.font_size, 72);
    assert!(config.post.path.is_none());
    assert!(ShaderConfig::default().path.is_none());
    assert!(BackgroundConfig::default().effect.is_none());
    assert_eq!(InputConfig::default().font_size, 72);
}

#[test]
fn the_last_shader_is_built_in_unless_configured() {
    match PostConfig::default().shader_src() {
        ShaderSource::Builtin(text) => {
            assert!(text.starts_with("precision highp float; uniform sampler2D u_tex; uniform"));
            assert!(text.ends_with("gl_FragColor = vec4(color, 1.0); }"));
        }
        other => panic!("unexpected source: {:?}", other),
    }
    let config = PostConfig { path: Some("post.glsl".to_owned()) };
    assert!(matches!(config.shader_src(), ShaderSource::File(path) if path == "post.glsl"));
}

#[test]
fn colors_are_read_in_three_forms() {
    let color = |r, g, b, a| Ok(Color { r, g, b, a });
    assert_eq!(parse_hex_color("#1af"), color(0x11, 0xaa, 0xff, 255));
    assert_eq!(parse_hex_color("#1A2b3C"), color(0x1a, 0x2b, 0x3c, 255));
    assert_eq!(parse_hex_color("#1a2b3c4d"), color(0x1a, 0x2b, 0x3c, 0x4d));
    assert_eq!(parse_hex_color("#+1+2+3"), color(1, 2, 3, 255));
}

#[test]
fn what_is_no_color_is_complained_about() {
    let complaint = |text: &str| parse_hex_color(text).unwrap_err();
    assert_eq!(complaint(""), "color must start with '#'");
    assert_eq!(complaint("112233"), "color must start with '#'");
    assert_eq!(complaint("#"), "color must be #rgb, #rrggbb, or #rrggbbaa");
    assert_eq!(complaint("#1234"), "color must be #rgb, #rrggbb, or #rrggbbaa");
    assert_eq!(complaint("#12g"), "invalid hex color byte 'gg'");
    assert_eq!(complaint("#0011-1"), "invalid hex color byte '-1'");
    assert_eq!(complaint("#zz00yy"), "invalid hex color byte 'zz'");
    assert_eq!(complaint("#001122x3"), "invalid hex color byte 'x3'");
    assert_eq!(complaint("#++1122"), "invalid hex color byte '++'");
}

#[test]
fn a_color_that_cuts_a_character_is_not_read() {
    assert_eq!(try_parse_hex_color("#1\u{e9}"), None);
    assert_eq!(try_parse_hex_color("#00a\u{e9}1"), None);
    assert_eq!(try_parse_hex_color("#\u{e9}0000"), Some(Err("invalid hex color byte '\u{e9}'".to_owned())));
    assert_eq!(try_parse_hex_color("#zz\u{20ac}1"), Some(Err("invalid hex color byte 'zz'".to_owned())));
    assert_eq!(try_parse_hex_color("#fff").unwrap(), parse_hex_color("#fff"));
}

#[test]
fn bytes_are_read_as_the_standard_library_does() {
    for text in ["", "+", "-", "0", "f", "+f", "ff", "+ff", "0ff", "100", "00000000ff", "g0", "-1", "++1"] {
        let expected = u8::from_str_radix(text, 16)
            .map_err(|_| format!("invalid hex color byte '{}'", text));
        assert_eq!(parse_hex_byte(text), expected);
    }
    assert_eq!(parse_repeated_hex_digit("c"), Ok(0xcc));
    assert_eq!(parse_repeated_hex_digit("+"), Err("invalid hex color byte '++'".to_owned()));
}

#[test]
fn a_color_is_read_back_in_either_case() {
    for n in 0..=255u8 {
        let color = Color { r: n, g: n ^ 0x5a, b: 255 - n, a: n / 2 };
        let Color { r, g, b, a } = color;
        assert_eq!(parse_hex_color(&format!("#{r:02x}{g:02x}{b:02x}{a:02x}")), Ok(color));
        assert_eq!(parse_hex_color(&format!("#{r:02X}{g:02x}{b:02X}{a:02X}")), Ok(color));
        let opaque = Color { a: 255, ..color };
        assert_eq!(parse_hex_color(&format!("#{r:02X}{g:02X}{b:02X}")), Ok(opaque));
        assert_eq!(parse_hex_color(&format!("#{r:02x}{g:02x}{b:02x}Ff")), Ok(opaque));
    }
}
