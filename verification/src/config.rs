//! The configuration of the greeter.

use crate::text::slice;
use vstd::prelude::*;
use vstd::string::*;

verus! {

/// The shader of the last rendering pass, unless the configuration names another.
pub const POST_FSHAD: &'static str = "precision highp float; \
             uniform sampler2D u_tex; \
	             uniform float u_time; \
	             uniform float u_aspect; \
	             uniform vec2 u_resolution; \
	             uniform int u_login_state; \
	             uniform float u_state_time; \
	             varying vec2 v_uv; \
                 float hash(float n) { n = fract(n * 0.1031); n *= n + 33.33; n *= n + n; return fract(n); } \
	             void main() { \
                 vec2 centered = v_uv * 2.0 - 1.0; \
                 centered.x *= u_aspect; \
                 float r2 = dot(centered, centered); \
	                 vec2 curved = centered * (1.0 + 0.018 * r2); \
	                 curved.x /= u_aspect; \
	                 vec2 uv = curved * 0.5 + 0.5; \
	                 vec2 feather = 4.0 / u_resolution; \
	                 vec2 edge = smoothstep(vec2(0.0), feather, uv) * smoothstep(vec2(0.0), feather, 1.0 - uv); \
	                 float screen_mask = edge.x * edge.y; \
	                 uv = clamp(uv, vec2(0.0), vec2(1.0)); \
	                 float burst = pow(max(0.0, sin(u_time * 0.7 + sin(u_time * 0.19) * 2.4)), 18.0); \
                         float failure_hit = 0.0; \
                         if (u_login_state == 4) { failure_hit = exp(-u_state_time * 2.8); } \
                         float glitch_band = floor(uv.y * 48.0); \
                         float glitch_tick = mod(floor(u_time * 18.0), 64.0); \
                         float glitch_gate = step(0.72, hash(glitch_band * 17.0 + glitch_tick)); \
                         float glitch_offset = (hash(glitch_band * 61.0 + glitch_tick * 7.0) - 0.5) * 0.09 * failure_hit * glitch_gate; \
		                 uv.x += sin(uv.y * 42.0 + u_time * 18.0) * 0.0025 * burst + glitch_offset; \
                         uv.x = fract(uv.x); \
		                 uv = clamp(uv, vec2(0.0), vec2(1.0)); \
                 vec2 px = 1.0 / u_resolution; \
                 float aberration = 0.0007 + 0.0012 * r2 + 0.006 * failure_hit; \
                 float red = texture2D(u_tex, uv + vec2(aberration, 0.0)).r; \
                 float green = texture2D(u_tex, uv).g; \
                 float blue = texture2D(u_tex, uv - vec2(aberration, 0.0)).b; \
                 vec4 base = vec4(red, green, blue, 1.0); \
                 vec3 glow = texture2D(u_tex, uv + vec2(px.x * 2.0, 0.0)).rgb; \
                 glow += texture2D(u_tex, uv - vec2(px.x * 2.0, 0.0)).rgb; \
                 glow += texture2D(u_tex, uv + vec2(0.0, px.y * 2.0)).rgb; \
                 glow += texture2D(u_tex, uv - vec2(0.0, px.y * 2.0)).rgb; \
                 glow *= 0.25; \
                 float scanline = 0.965 + 0.035 * sin(uv.y * u_resolution.y * 3.14159); \
                 float vignette = smoothstep(1.18, 0.35, length(centered)); \
                 float luma = dot(base.rgb, vec3(0.299, 0.587, 0.114)); \
                 float white_variation = 1.0 + 0.045 * sin(u_time * 1.7 + uv.y * 17.0 + uv.x * 5.0); \
                 vec3 color = base.rgb + glow * 0.22; \
                 color *= mix(1.0, white_variation, smoothstep(0.45, 0.85, luma)); \
		                 color *= scanline; \
		                 color *= 0.88 + 0.12 * vignette; \
                         color += vec3(0.02, 0.025, 0.04) * burst; \
                         color = mix(color, vec3(color.r + 0.45, color.g * 0.55, color.b * 0.55), failure_hit); \
		                 color = mix(vec3(0.03, 0.028, 0.04), color, screen_mask); \
	                 gl_FragColor = vec4(color, 1.0); \
	             }";

#[derive(Clone, Debug)]
pub struct Config {
    pub background: BackgroundConfig,
    pub input: InputConfig,
    pub post: PostConfig,
}

#[derive(Clone, Debug)]
pub struct BackgroundConfig {
    pub kind: BackgroundKind,
    pub path: Option<String>,
    pub color: Option<Color>,
    pub effect: Option<BackgroundEffect>,
}

#[derive(Clone, Copy, Debug, PartialEq, Eq, Structural)]
pub struct Color {
    pub r: u8,
    pub g: u8,
    pub b: u8,
    pub a: u8,
}

#[derive(Clone, Copy, Debug, PartialEq, Eq, Structural)]
pub enum BackgroundKind {
    Color,
    Image,
    Video,
    Shader,
}

#[derive(Clone, Debug)]
pub struct InputConfig {
    /// Spelled `type` in the configuration file.
    pub input_type: InputType,
    pub font_size: usize,
}

#[derive(Clone, Copy, Debug, PartialEq, Eq, Structural)]
pub enum InputType {
    Floating,
    Terminal,
}

#[derive(Clone, Debug, PartialEq, Eq)]
pub struct BackgroundEffect {
    pub path: String,
}

#[derive(Clone, Debug)]
pub struct ShaderConfig {
    pub path: Option<String>,
}

#[derive(Clone, Debug)]
pub struct PostConfig {
    pub path: Option<String>,
}

/// Where the text of a shader is to be had.
#[derive(Clone, Debug)]
pub enum ShaderSource {
    /// In the file of this path.
    File(String),
    /// Here.
    Builtin(&'static str),
}

impl BackgroundConfig {
    /// A shader background without a file, a colour or an effect.
    pub open spec fn is_default(self) -> bool {
        self.kind is Shader && self.path is None && self.color is None && self.effect is None
    }
}

impl InputConfig {
    /// Terminal input at 72 pixels.
    pub open spec fn is_default(self) -> bool {
        self.input_type is Terminal && self.font_size == 72
    }
}

impl Default for Config {
    fn default() -> (config: Self)
        ensures
            config.background.is_default(),
            config.input.is_default(),
            config.post.path is None,
    {
        Self {
            background: BackgroundConfig::default(),
            input: InputConfig::default(),
            post: PostConfig::default(),
        }
    }
}

impl Default for BackgroundConfig {
    fn default() -> (config: Self)
        ensures
            config.is_default(),
    {
        Self { kind: BackgroundKind::Shader, path: None, color: None, effect: None }
    }
}

impl Default for InputConfig {
    fn default() -> (config: Self)
        ensures
            config.is_default(),
    {
        Self { input_type: InputType::Terminal, font_size: 72 }
    }
}

impl Default for ShaderConfig {
    fn default() -> (config: Self)
        ensures
            config.path is None,
    {
        Self { path: None }
    }
}

impl Default for PostConfig {
    fn default() -> (config: Self)
        ensures
            config.path is None,
    {
        Self { path: None }
    }
}

impl PostConfig {
    /// The shader of the last pass: the configured file, or the built-in one.
    pub fn shader_src(&self) -> (source: ShaderSource)
        ensures
            match (self.path, source) {
                (Some(path), ShaderSource::File(file)) => file@ == path@,
                (None, ShaderSource::Builtin(text)) => text@ == POST_FSHAD@,
                _ => false,
            },
    {
        match &self.path {
            Some(path) => ShaderSource::File(path.clone()),
            None => ShaderSource::Builtin(POST_FSHAD),
        }
    }
}

/// The value of a hexadecimal digit.
pub open spec fn hex_digit(c: char) -> Option<int> {
    if '0' <= c <= '9' {
        Some(c as int - '0' as int)
    } else if 'a' <= c <= 'f' {
        Some(c as int - 'a' as int + 10)
    } else if 'A' <= c <= 'F' {
        Some(c as int - 'A' as int + 10)
    } else {
        None
    }
}

/// The value of a row of hexadecimal digits, if they are all digits.
pub open spec fn hex_number(digits: Seq<char>) -> Option<int>
    decreases digits.len(),
{
    if digits.len() == 0 {
        Some(0)
    } else {
        match (hex_number(digits.drop_last()), hex_digit(digits.last())) {
            (Some(high), Some(low)) => Some(16 * high + low),
            _ => None,
        }
    }
}

/// The digits of a number: what follows a plus sign, if there is one.
pub open spec fn digits_of(text: Seq<char>) -> Seq<char> {
    if text.len() > 1 && text[0] == '+' {
        text.drop_first()
    } else {
        text
    }
}

/// The byte that a text writes in hexadecimal, with or without a plus sign before it.
pub open spec fn hex_byte(text: Seq<char>) -> Option<u8> {
    match hex_number(digits_of(text)) {
        Some(n) => if text.len() > 0 && n <= 255 {
            Some(n as u8)
        } else {
            None
        },
        None => None,
    }
}

/// The complaint about a text that is no byte.
pub open spec fn bad_byte(text: Seq<char>) -> Seq<char> {
    "invalid hex color byte '"@ + text + "'"@
}

/// The number of bytes in a text.
pub open spec fn byte_len(text: Seq<char>) -> int {
    vstd::utf8::encode_utf8(text).len() as int
}

/// The lengths that a colour can have, without the number sign.
pub open spec fn is_color_len(len: int) -> bool {
    len == 3 || len == 6 || len == 8
}

/// The byte range of a channel: one digit each in the short form, else two.
pub open spec fn channel_start(hex: Seq<char>, i: int) -> int {
    if byte_len(hex) == 3 {
        i
    } else {
        2 * i
    }
}

/// The two digits of a channel; the short form has them doubled.
pub open spec fn channel(hex: Seq<char>, i: int) -> Seq<char> {
    let part = crate::text::slice_of(hex, channel_start(hex, i), channel_start(hex, i + 1));
    if byte_len(hex) == 3 {
        part + part
    } else {
        part
    }
}

/// Whether a channel ends between characters.
pub open spec fn can_slice_channel(hex: Seq<char>, i: int) -> bool {
    crate::text::can_slice(hex, channel_start(hex, i), channel_start(hex, i + 1))
}

/// The number of channels: the longest form has an alpha channel.
pub open spec fn channel_count(hex: Seq<char>) -> int {
    if byte_len(hex) == 8 {
        4
    } else {
        3
    }
}

/// Whether the first `n` channels are bytes.
pub open spec fn channels_parse(hex: Seq<char>, n: int) -> bool {
    forall|i: int| 0 <= i < n ==> hex_byte(#[trigger] channel(hex, i)) is Some
}

/// Whether every channel that is looked at ends between characters. Channels are looked at up
/// to the first that is no byte.
pub open spec fn channels_are_whole(hex: Seq<char>) -> bool {
    is_color_len(byte_len(hex)) ==> forall|i: int|
        0 <= i < channel_count(hex) && channels_parse(hex, i) ==> #[trigger] can_slice_channel(
            hex,
            i,
        )
}

/// Whether a colour can be read without cutting a character in two.
pub open spec fn is_readable_color(value: Seq<char>) -> bool {
    value.len() > 0 && value[0] == '#' ==> channels_are_whole(value.drop_first())
}

/// The colour that a text writes, or the complaint about it.
pub open spec fn color_of(value: Seq<char>) -> Result<Color, Seq<char>> {
    let hex = value.drop_first();
    if value.len() == 0 || value[0] != '#' {
        Err("color must start with '#'"@)
    } else if !is_color_len(byte_len(hex)) {
        Err("color must be #rgb, #rrggbb, or #rrggbbaa"@)
    } else if hex_byte(channel(hex, 0)) is None {
        Err(bad_byte(channel(hex, 0)))
    } else if hex_byte(channel(hex, 1)) is None {
        Err(bad_byte(channel(hex, 1)))
    } else if hex_byte(channel(hex, 2)) is None {
        Err(bad_byte(channel(hex, 2)))
    } else if channel_count(hex) == 4 && hex_byte(channel(hex, 3)) is None {
        Err(bad_byte(channel(hex, 3)))
    } else {
        Ok(
            Color {
                r: hex_byte(channel(hex, 0))->0,
                g: hex_byte(channel(hex, 1))->0,
                b: hex_byte(channel(hex, 2))->0,
                a: if channel_count(hex) == 4 {
                    hex_byte(channel(hex, 3))->0
                } else {
                    255
                },
            },
        )
    }
}

/// A result whose complaint is compared as text.
pub open spec fn same_result<T>(result: Result<T, String>, expected: Result<T, Seq<char>>) -> bool {
    match (result, expected) {
        (Ok(value), Ok(wanted)) => value == wanted,
        (Err(complaint), Err(wanted)) => complaint@ == wanted,
        _ => false,
    }
}

/// Reads a colour as `#rgb`, `#rrggbb` or `#rrggbbaa`.
pub fn parse_hex_color(value: &str) -> (result: Result<Color, String>)
    requires
        is_readable_color(value@),
    ensures
        same_result(result, color_of(value@)),
{
    try_parse_hex_color(value).unwrap()
}

/// Reads a colour, or returns `None` if that would cut a character in two.
pub fn try_parse_hex_color(value: &str) -> (result: Option<Result<Color, String>>)
    ensures
        match result {
            Some(result) => is_readable_color(value@) && same_result(result, color_of(value@)),
            None => !is_readable_color(value@),
        },
{
    if value.unicode_len() == 0 || value.get_char(0) != '#' {
        return Some(Err("color must start with '#'".to_owned()));
    }
    let hex = without_sign(value);
    let len: usize = hex.as_bytes().len();
    if len != 3 && len != 6 && len != 8 {
        return Some(Err("color must be #rgb, #rrggbb, or #rrggbbaa".to_owned()));
    }
    let r = match parse_channel(hex, 0) {
        Some(Ok(r)) => r,
        Some(Err(complaint)) => {
            return Some(Err(complaint));
        },
        None => {
            return None;
        },
    };
    let g = match parse_channel(hex, 1) {
        Some(Ok(g)) => g,
        Some(Err(complaint)) => {
            return Some(Err(complaint));
        },
        None => {
            return None;
        },
    };
    let b = match parse_channel(hex, 2) {
        Some(Ok(b)) => b,
        Some(Err(complaint)) => {
            return Some(Err(complaint));
        },
        None => {
            return None;
        },
    };
    if len != 8 {
        return Some(Ok(Color { r, g, b, a: 255 }));
    }
    match parse_channel(hex, 3) {
        Some(Ok(a)) => Some(Ok(Color { r, g, b, a })),
        Some(Err(complaint)) => Some(Err(complaint)),
        None => None,
    }
}

/// A colour without its number sign.
fn without_sign(value: &str) -> (hex: &str)
    requires
        value@.len() > 0,
        value@[0] == '#',
    ensures
        hex@ == value@.drop_first(),
{
    let ghost bytes = value.spec_bytes();
    let ghost rest = vstd::utf8::encode_utf8(value@.drop_first());
    proof {
        broadcast use vstd::utf8::group_utf8_lib;
        assert(bytes =~= vstd::utf8::encode_scalar('#' as u32) + rest);
        vstd::utf8::encode_utf8_first_scalar(value@);
        reveal_with_fuel(vstd::utf8::is_char_boundary, 2);
    }
    let (_, hex) = value.split_at(1);
    proof {
        broadcast use vstd::utf8::group_utf8_lib;
        assert(hex.spec_bytes() =~= rest);
        assert(vstd::utf8::decode_utf8(hex.spec_bytes()) == hex@);
    }
    hex
}

/// Reads one channel, or returns `None` if its end cuts a character in two.
fn parse_channel(hex: &str, i: usize) -> (result: Option<Result<u8, String>>)
    requires
        is_color_len(byte_len(hex@)),
        i < channel_count(hex@),
        i > 0 ==> can_slice_channel(hex@, i - 1),
    ensures
        result is Some <==> can_slice_channel(hex@, i as int),
        result matches Some(result) ==> same_result(
            result,
            match hex_byte(channel(hex@, i as int)) {
                Some(byte) => Ok(byte),
                None => Err(bad_byte(channel(hex@, i as int))),
            },
        ),
{
    let short = hex.as_bytes().len() == 3;
    let width: usize = if short {
        1
    } else {
        2
    };
    proof {
        broadcast use vstd::utf8::group_utf8_lib;
        assert(vstd::utf8::is_char_boundary(hex.spec_bytes(), 0));
    }
    if !hex.is_char_boundary(width * (i + 1)) {
        return None;
    }
    let part = slice(hex, width * i, width * (i + 1));
    if short {
        Some(parse_repeated_hex_digit(part))
    } else {
        Some(parse_hex_byte(part))
    }
}

/// Reads a byte from a digit that stands for two.
pub fn parse_repeated_hex_digit(value: &str) -> (result: Result<u8, String>)
    ensures
        same_result(
            result,
            match hex_byte(value@ + value@) {
                Some(byte) => Ok(byte),
                None => Err(bad_byte(value@ + value@)),
            },
        ),
{
    let mut doubled = value.to_owned();
    doubled.append(value);
    parse_hex_byte(doubled.as_str())
}

/// Reads a byte in hexadecimal.
pub fn parse_hex_byte(value: &str) -> (result: Result<u8, String>)
    ensures
        same_result(
            result,
            match hex_byte(value@) {
                Some(byte) => Ok(byte),
                None => Err(bad_byte(value@)),
            },
        ),
{
    let len: usize = value.unicode_len();
    let start: usize = if len > 1 && value.get_char(0) == '+' {
        1
    } else {
        0
    };
    let ghost digits = digits_of(value@);
    assert(digits =~= value@.skip(start as int));
    // The number that the digits read so far write; what exceeds a byte counts as 256.
    let mut n: u32 = 0;
    let mut all_digits = true;
    for i in start..len
        invariant
            len == value@.len(),
            start <= len,
            digits == value@.skip(start as int),
            n <= 256,
            match hex_number(digits.take(i - start)) {
                Some(m) => all_digits && 0 <= m && (if m <= 255 {
                    n == m
                } else {
                    n == 256
                }),
                None => !all_digits,
            },
    {
        let c = value.get_char(i);
        assert(digits.take(i + 1 - start).drop_last() =~= digits.take(i - start));
        assert(digits.take(i + 1 - start).last() == c);
        match parse_hex_digit(c) {
            Some(digit) => {
                n = if n * 16 + digit <= 255 {
                    n * 16 + digit
                } else {
                    256
                };
            },
            None => {
                all_digits = false;
            },
        }
    }
    assert(digits.take(len - start) =~= digits);
    if all_digits && len > 0 && n <= 255 {
        Ok(n as u8)
    } else {
        let mut complaint = "invalid hex color byte '".to_owned();
        complaint.append(value);
        complaint.append("'");
        Err(complaint)
    }
}

/// The value of a hexadecimal digit.
fn parse_hex_digit(c: char) -> (digit: Option<u32>)
    ensures
        match digit {
            Some(d) => hex_digit(c) == Some(d as int) && d < 16,
            None => hex_digit(c) is None,
        },
{
    if '0' <= c && c <= '9' {
        Some(c as u32 - '0' as u32)
    } else if 'a' <= c && c <= 'f' {
        Some(c as u32 - 'a' as u32 + 10)
    } else if 'A' <= c && c <= 'F' {
        Some(c as u32 - 'A' as u32 + 10)
    } else {
        None
    }
}

/// A text of ASCII characters is always readable.
pub proof fn law_ascii_is_readable(value: Seq<char>)
    requires
        vstd::utf8::is_ascii_chars(value),
    ensures
        is_readable_color(value),
{
    if value.len() > 0 {
        let hex = value.drop_first();
        assert(vstd::utf8::is_ascii_chars(hex));
        lemma_ascii_channels(hex);
    }
}

/// The channels of an ASCII colour, by characters.
proof fn lemma_ascii_channels(hex: Seq<char>)
    requires
        vstd::utf8::is_ascii_chars(hex),
    ensures
        byte_len(hex) == hex.len(),
        is_color_len(hex.len() as int) ==> forall|i: int|
            0 <= i < channel_count(hex) ==> #[trigger] can_slice_channel(hex, i),
        hex.len() == 3 ==> forall|i: int|
            0 <= i < 3 ==> #[trigger] channel(hex, i) == seq![hex[i], hex[i]],
        hex.len() == 6 || hex.len() == 8 ==> forall|i: int|
            0 <= i < channel_count(hex) ==> #[trigger] channel(hex, i) == seq![
                hex[2 * i],
                hex[2 * i + 1],
            ],
{
    crate::text::lemma_ascii_slice(hex, 0, 0);
    if is_color_len(hex.len() as int) {
        assert forall|i: int| 0 <= i < channel_count(hex) implies #[trigger] can_slice_channel(
            hex,
            i,
        ) by {
            crate::text::lemma_ascii_slice(hex, channel_start(hex, i), channel_start(hex, i + 1));
        }
        assert forall|i: int| 0 <= i < channel_count(hex) implies #[trigger] channel(hex, i) == if hex.len()
            == 3 {
            seq![hex[i], hex[i]]
        } else {
            seq![hex[2 * i], hex[2 * i + 1]]
        } by {
            crate::text::lemma_ascii_slice(hex, channel_start(hex, i), channel_start(hex, i + 1));
            if hex.len() == 3 {
                assert(hex.subrange(i, i + 1) + hex.subrange(i, i + 1) =~= seq![hex[i], hex[i]]);
            } else {
                assert(hex.subrange(2 * i, 2 * i + 2) =~= seq![hex[2 * i], hex[2 * i + 1]]);
            }
        }
    }
}

/// The short form of a colour means the long form with each digit doubled.
pub proof fn law_short_form(r: char, g: char, b: char)
    requires
        vstd::utf8::is_ascii_chars(seq![r, g, b]),
    ensures
        color_of(seq!['#', r, g, b]) == color_of(seq!['#', r, r, g, g, b, b]),
{
    let short = seq![r, g, b];
    let long = seq![r, r, g, g, b, b];
    assert(seq!['#', r, g, b].drop_first() =~= short);
    assert(seq!['#', r, r, g, g, b, b].drop_first() =~= long);
    assert(short[0] == r && short[1] == g && short[2] == b);
    assert(vstd::utf8::is_ascii_chars(long));
    lemma_ascii_channels(short);
    lemma_ascii_channels(long);
    assert(channel(short, 0) =~= channel(long, 0));
    assert(channel(short, 1) =~= channel(long, 1));
    assert(channel(short, 2) =~= channel(long, 2));
}

/// Whether two digits, of either case, write a byte.
pub open spec fn writes_byte(digits: Seq<char>, byte: u8) -> bool {
    &&& digits.len() == 2
    &&& hex_digit(digits[0]) == Some(byte as int / 16)
    &&& hex_digit(digits[1]) == Some(byte as int % 16)
}

proof fn lemma_written_byte(digits: Seq<char>, byte: u8)
    requires
        writes_byte(digits, byte),
    ensures
        hex_byte(digits) == Some(byte),
        vstd::utf8::is_ascii_chars(digits),
{
    let high = digits.drop_last();
    assert(high.drop_last() =~= Seq::empty());
    assert(hex_number(high.drop_last()) == Some(0int));
    assert(high.last() == digits[0]);
    assert(hex_number(high) == Some(byte as int / 16));
    assert(hex_number(digits) == Some(byte as int));
}

/// A colour without an alpha channel is opaque.
pub proof fn law_opaque_by_default(digits: Seq<char>, alpha: Seq<char>)
    requires
        digits.len() == 6,
        vstd::utf8::is_ascii_chars(digits),
        writes_byte(alpha, 255),
    ensures
        color_of(seq!['#'] + digits) == color_of(seq!['#'] + digits + alpha),
{
    let full = digits + alpha;
    lemma_written_byte(alpha, 255);
    assert((seq!['#'] + digits).drop_first() =~= digits);
    assert((seq!['#'] + digits + alpha).drop_first() =~= full);
    assert(vstd::utf8::is_ascii_chars(full)) by {
        assert forall|i| 0 <= i < full.len() implies '\0' <= #[trigger] full[i] <= '\u{7f}' by {
            if i < 6 {
                assert(full[i] == digits[i]);
            } else {
                assert(full[i] == alpha[i - 6]);
            }
        }
    }
    lemma_ascii_channels(digits);
    lemma_ascii_channels(full);
    assert(channel(digits, 0) =~= channel(full, 0));
    assert(channel(digits, 1) =~= channel(full, 1));
    assert(channel(digits, 2) =~= channel(full, 2));
    assert(channel(full, 3) =~= alpha);
}

/// The digit with a value below sixteen.
pub open spec fn digit_char(n: int) -> char {
    if n < 10 {
        ('0' as int + n) as char
    } else {
        ('a' as int + (n - 10)) as char
    }
}

/// Every byte can be written.
pub proof fn law_every_byte_can_be_written(byte: u8)
    ensures
        writes_byte(seq![digit_char(byte as int / 16), digit_char(byte as int % 16)], byte),
{
}

/// However the bytes of a colour are written, in digits of either case, the colour is read back as
/// it is. An opaque one needs no alpha channel.
pub proof fn law_written_colors_are_read_back(
    color: Color,
    r: Seq<char>,
    g: Seq<char>,
    b: Seq<char>,
    a: Seq<char>,
)
    requires
        writes_byte(r, color.r),
        writes_byte(g, color.g),
        writes_byte(b, color.b),
        writes_byte(a, color.a),
    ensures
        color_of(seq!['#'] + r + g + b + a) == Ok::<Color, Seq<char>>(color),
        color.a == 255 ==> color_of(seq!['#'] + r + g + b) == Ok::<Color, Seq<char>>(color),
{
    let digits = r + g + b;
    let hex = digits + a;
    let value = seq!['#'] + r + g + b + a;
    lemma_written_byte(r, color.r);
    lemma_written_byte(g, color.g);
    lemma_written_byte(b, color.b);
    lemma_written_byte(a, color.a);
    assert(value.drop_first() =~= hex);
    assert(vstd::utf8::is_ascii_chars(hex));
    lemma_ascii_channels(hex);
    assert(channel(hex, 0) =~= r);
    assert(channel(hex, 1) =~= g);
    assert(channel(hex, 2) =~= b);
    assert(channel(hex, 3) =~= a);
    if color.a == 255 {
        assert(vstd::utf8::is_ascii_chars(digits));
        law_opaque_by_default(digits, a);
        assert(seq!['#'] + digits =~= seq!['#'] + r + g + b);
        assert(seq!['#'] + digits + a =~= value);
    }
}

/// The sixteen digits have their values in either case, and nothing else is a digit.
pub proof fn law_hex_digits(c: char)
    ensures
        forall|i: int|
            0 <= i < 16 ==> hex_digit(#[trigger] "0123456789abcdef"@[i]) == Some(i) && hex_digit(
                "0123456789ABCDEF"@[i],
            ) == Some(i),
        hex_digit(c) is Some ==> "0123456789abcdef"@.contains(c) || "0123456789ABCDEF"@.contains(c),
{
    reveal_strlit("0123456789abcdef");
    reveal_strlit("0123456789ABCDEF");
    if let Some(n) = hex_digit(c) {
        if 'A' <= c <= 'F' {
            assert("0123456789ABCDEF"@[n] == c);
        } else {
            assert("0123456789abcdef"@[n] == c);
        }
    }
}

/// Digits are read from the left, each further one in the lowest place. Anything but a digit spoils
/// them.
pub proof fn law_hex_numbers(digits: Seq<char>, c: char)
    ensures
        hex_number(Seq::empty()) == Some(0int),
        hex_number(digits.push(c)) == if hex_number(digits) is Some && hex_digit(c) is Some {
            Some(hex_number(digits)->0 * 16 + hex_digit(c)->0)
        } else {
            None
        },
{
    assert(digits.push(c).drop_last() =~= digits);
}

/// A text is a byte if it has digits, with or without one plus sign before them, of a number up to
/// 255.
pub proof fn law_hex_bytes(digits: Seq<char>)
    requires
        digits.len() > 0,
        digits[0] != '+',
    ensures
        hex_byte(Seq::empty()) is None,
        hex_byte(seq!['+']) is None,
        hex_byte(digits) == hex_byte(seq!['+'] + digits),
        hex_byte(seq!['+', '+'] + digits) is None,
        hex_byte(digits) is Some <==> (hex_number(digits) matches Some(n) && 0 <= n <= 255),
        hex_byte(digits) matches Some(byte) ==> hex_number(digits) == Some(byte as int),
{
    lemma_numbers_are_positive(digits);
    lemma_plus_is_no_digit(seq!['+']);
    assert((seq!['+'] + digits).drop_first() =~= digits);
    let twice = seq!['+', '+'] + digits;
    assert(twice.drop_first()[0] == '+');
    lemma_plus_is_no_digit(twice.drop_first());
}

proof fn lemma_numbers_are_positive(digits: Seq<char>)
    ensures
        hex_number(digits) matches Some(n) ==> n >= 0,
    decreases digits.len(),
{
    if digits.len() > 0 {
        lemma_numbers_are_positive(digits.drop_last());
    }
}

proof fn lemma_plus_is_no_digit(text: Seq<char>)
    requires
        text.len() > 0,
        text[0] == '+',
    ensures
        hex_number(text) is None,
    decreases text.len(),
{
    if text.len() > 1 {
        assert(text.drop_last()[0] == '+');
        lemma_plus_is_no_digit(text.drop_last());
    }
}

/// A colour begins with a number sign.
pub proof fn law_colors_begin_with_a_sign(value: Seq<char>)
    requires
        value.len() == 0 || value[0] != '#',
    ensures
        color_of(value) == Err::<Color, Seq<char>>("color must start with '#'"@),
        is_readable_color(value),
{
}

/// Behind the number sign a colour has three, six or eight bytes.
pub proof fn law_colors_have_three_lengths(digits: Seq<char>)
    requires
        !set![3nat, 6, 8].contains(vstd::utf8::encode_utf8(digits).len()),
    ensures
        color_of(seq!['#'] + digits) == Err::<Color, Seq<char>>(
            "color must be #rgb, #rrggbb, or #rrggbbaa"@,
        ),
        is_readable_color(seq!['#'] + digits),
{
    let lens = set![3nat, 6, 8];
    assert(lens.contains(3) && lens.contains(6) && lens.contains(8));
    assert((seq!['#'] + digits).drop_first() =~= digits);
}

/// Where the digits of a channel are no byte, the complaint shows them: those of the first such
/// channel, as they stand, or doubled in the short form.
pub proof fn law_first_bad_channel_is_named(digits: Seq<char>, i: int)
    requires
        vstd::utf8::is_ascii_chars(digits),
        digits.len() == 3 || digits.len() == 6 || digits.len() == 8,
        0 <= i < if digits.len() == 8 {
            4int
        } else {
            3
        },
        forall|j: int| 0 <= j < i ==> hex_byte(#[trigger] two_digits(digits, j)) is Some,
        hex_byte(two_digits(digits, i)) is None,
    ensures
        color_of(seq!['#'] + digits) == Err::<Color, Seq<char>>(
            "invalid hex color byte '"@ + two_digits(digits, i) + "'"@,
        ),
{
    assert((seq!['#'] + digits).drop_first() =~= digits);
    lemma_ascii_channels(digits);
    assert(forall|j: int|
        0 <= j < channel_count(digits) ==> #[trigger] channel(digits, j) == two_digits(digits, j));
    assert(i > 0 ==> hex_byte(two_digits(digits, 0)) is Some);
    assert(i > 1 ==> hex_byte(two_digits(digits, 1)) is Some);
    assert(i > 2 ==> hex_byte(two_digits(digits, 2)) is Some);
}

/// The two digits of a channel, by characters.
pub open spec fn two_digits(digits: Seq<char>, i: int) -> Seq<char> {
    if digits.len() == 3 {
        seq![digits[i], digits[i]]
    } else {
        seq![digits[2 * i], digits[2 * i + 1]]
    }
}

/// The default configuration: a shader without a file as the background, no colour and no effect,
/// and terminal input in a font of 72 pixels.
pub proof fn law_defaults(background: BackgroundConfig, input: InputConfig)
    ensures
        background.is_default() <==> background.kind is Shader && background.path is None
            && background.color is None && background.effect is None,
        input.is_default() <==> input.input_type is Terminal && input.font_size == 72,
{
}

} // verus!
