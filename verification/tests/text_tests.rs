use pumpkin_text::catalog::{Catalog, Locale};
use pumpkin_text::color::{color_text, parse_color, Color, NamedColor, RGBColor, ARGBColor};
use pumpkin_text::component::{TextComponent, TextComponentBase, TextContent};
use pumpkin_text::console::wrap_hover_event_osc8;
use pumpkin_text::render::{click_target, obfuscate_text, remove_ansi_color_code, wrap_click_event_osc8};
use pumpkin_text::shape::{decode, DecodeError, ObjectShape, Shape};
use pumpkin_text::style::{ClickEvent, HoverEvent, Style};

fn dbg_eq(a: &TextComponentBase, b: &TextComponentBase) -> bool {
    format!("{:?}", a) == format!("{:?}", b)
}

#[test]
fn test_serialize_text_component() {
    let msg_comp = TextComponent::translate(
        "multiplayer.player.joined",
        vec![TextComponent::text("NAME")],
    )
    .color_named(NamedColor::Yellow);

    let bytes = msg_comp.encode();

    let expected_bytes = [
        0x0A, 0x08, 0x00, 0x09, 0x74, 0x72, 0x61, 0x6E, 0x73, 0x6C, 0x61, 0x74, 0x65, 0x00,
        0x19, 0x6D, 0x75, 0x6C, 0x74, 0x69, 0x70, 0x6C, 0x61, 0x79, 0x65, 0x72, 0x2E, 0x70,
        0x6C, 0x61, 0x79, 0x65, 0x72, 0x2E, 0x6A, 0x6F, 0x69, 0x6E, 0x65, 0x64, 0x09, 0x00,
        0x04, 0x77, 0x69, 0x74, 0x68, 0x0A, 0x00, 0x00, 0x00, 0x01, 0x08, 0x00, 0x04, 0x74,
        0x65, 0x78, 0x74, 0x00, 0x04, 0x4E, 0x41, 0x4D, 0x45, 0x00, 0x08, 0x00, 0x05, 0x63,
        0x6F, 0x6C, 0x6F, 0x72, 0x00, 0x06, 0x79, 0x65, 0x6C, 0x6C, 0x6F, 0x77, 0x00,
    ];

    assert_eq!(bytes, expected_bytes);
}

#[test]
fn plain_text_encodes_to_single_text_field() {
    let bytes = TextComponent::text("Hello").encode();
    let expected = [
        0x0A, 0x08, 0x00, 0x04, b't', b'e', b'x', b't', 0x00, 0x05, b'H', b'e', b'l', b'l',
        b'o', 0x00,
    ];
    assert_eq!(bytes, expected);
}

#[test]
fn multibyte_text_length_counts_utf8_bytes() {
    let bytes = TextComponent::text("\u{a7}").encode();
    let expected = [0x0A, 0x08, 0x00, 0x04, b't', b'e', b'x', b't', 0x00, 0x02, 0xC2, 0xA7, 0x00];
    assert_eq!(bytes, expected);
}

#[test]
fn merge_with_default_changes_nothing() {
    let styled = TextComponent::text("x")
        .bold()
        .color_named(NamedColor::Aqua)
        .insertion("hi".to_string())
        .0
        .style;
    let d1 = Style::default().merge(&styled);
    let d2 = styled.merge(&Style::default());
    assert_eq!(format!("{:?}", styled), format!("{:?}", d1));
    assert_eq!(format!("{:?}", styled), format!("{:?}", d2));
}

#[test]
fn nearest_ancestor_wins_bold() {
    let mut grandparent = Style::default();
    grandparent.bold = Some(true);
    let parent = Style::default();
    let mut child = Style::default();
    child.bold = Some(false);
    let effective = grandparent.merge(&parent).merge(&child);
    assert_eq!(effective.bold, Some(false));

    let effective_unset = grandparent.merge(&parent).merge(&Style::default());
    assert_eq!(effective_unset.bold, Some(true));
}

#[test]
fn resolve_is_idempotent() {
    let mut cat = Catalog::new();
    cat.add(
        "custom:greet".to_string(),
        Locale::EnUs,
        "Hi %s!".to_string(),
    );
    let node = TextComponent::custom(
        "custom",
        "greet",
        Locale::EnUs,
        vec![TextComponent::text("Steve")],
    )
    .add_text("tail")
    .0;
    let once = node.to_translated(&cat);
    let twice = once.to_translated(&cat);
    assert!(dbg_eq(&once, &twice));
}

#[test]
fn positional_substitution_follows_template_order() {
    let mut cat = Catalog::new();
    cat.add(
        "custom:attack".to_string(),
        Locale::EnUs,
        "%2$s hit %1$s".to_string(),
    );
    let node = TextComponent::custom(
        "custom",
        "attack",
        Locale::EnUs,
        vec![TextComponent::text("A"), TextComponent::text("B")],
    )
    .0;
    assert_eq!(node.get_text(&cat, Locale::EnUs), "B hit A");

    let resolved = node.to_translated(&cat);
    match &resolved.content {
        TextContent::Text { text } => assert_eq!(text, ""),
        other => panic!("unexpected content {:?}", other),
    }
    assert_eq!(resolved.extra.len(), 3);
    match &resolved.extra[0].content {
        TextContent::Text { text } => assert_eq!(text, "B"),
        other => panic!("unexpected content {:?}", other),
    }
    match &resolved.extra[1].content {
        TextContent::Text { text } => assert_eq!(text, " hit "),
        other => panic!("unexpected content {:?}", other),
    }
    match &resolved.extra[2].content {
        TextContent::Text { text } => assert_eq!(text, "A"),
        other => panic!("unexpected content {:?}", other),
    }
}

#[test]
fn implicit_tokens_consume_arguments_in_order() {
    let mut cat = Catalog::new();
    cat.add("custom:two".to_string(), Locale::EnUs, "%s and %s".to_string());
    let node = TextComponent::custom(
        "custom",
        "two",
        Locale::EnUs,
        vec![TextComponent::text("x"), TextComponent::text("y")],
    )
    .0;
    assert_eq!(node.get_text(&cat, Locale::EnUs), "x and y");
}

#[test]
fn out_of_range_argument_becomes_empty_text() {
    let mut cat = Catalog::new();
    cat.add("custom:far".to_string(), Locale::EnUs, "%3$s x".to_string());
    let node = TextComponent::custom(
        "custom",
        "far",
        Locale::EnUs,
        vec![TextComponent::text("a")],
    )
    .0;
    assert_eq!(node.get_text(&cat, Locale::EnUs), " x");
}

#[test]
fn percent_without_token_is_literal() {
    let mut cat = Catalog::new();
    cat.add("custom:pct".to_string(), Locale::EnUs, "100% sure %0$s".to_string());
    let node = TextComponent::custom("custom", "pct", Locale::EnUs, vec![]).0;
    assert_eq!(node.get_text(&cat, Locale::EnUs), "100% sure %0$s");
}

#[test]
fn missing_template_falls_back_to_key() {
    let cat = Catalog::new();
    let node = TextComponent::translate("some.unknown.key", vec![]).0;
    assert_eq!(node.get_text(&cat, Locale::EnUs), "minecraft:some.unknown.key");
}

#[test]
fn custom_key_is_namespaced_and_lowercased() {
    let node = TextComponent::custom("MyPlugin", "GrEeT", Locale::EnUs, vec![]).0;
    match &node.content {
        TextContent::Custom { key, .. } => assert_eq!(key, "myplugin:greet"),
        other => panic!("unexpected content {:?}", other),
    }
}

#[test]
fn chat_decorated_fills_placeholders() {
    let comp = TextComponent::chat_decorated(
        "&a<{DISPLAYNAME}> {MESSAGE}".to_string(),
        "Steve".to_string(),
        "hello".to_string(),
    );
    match &comp.0.content {
        TextContent::Text { text } => assert_eq!(text, "\u{a7}a<Steve> hello"),
        other => panic!("unexpected content {:?}", other),
    }
}

#[test]
fn console_render_bold_red_with_child() {
    let cat = Catalog::new();
    let comp = TextComponent::text("Hi")
        .bold()
        .color_named(NamedColor::Red)
        .add_child(TextComponent::text("there"))
        .add_child(TextComponent::text("friend"));
    let out = comp.to_pretty_console(&cat);
    let styled_hi = "\u{1b}[1m\u{1b}[91mHi\u{1b}[0m\u{1b}[0m";
    let styled_there = "\u{1b}[1m\u{1b}[91mthere\u{1b}[0m\u{1b}[0m";
    let styled_friend = "\u{1b}[1m\u{1b}[91mfriend\u{1b}[0m\u{1b}[0m";
    // The node's own text and the first child are not separated; each further
    // child is preceded by exactly one newline.
    let expected = format!("{}{}\n{}", styled_hi, styled_there, styled_friend);
    assert_eq!(out, expected);
    assert_eq!(remove_ansi_color_code(&out), "Hithere\nfriend");
}

#[test]
fn click_target_run_command() {
    let click = ClickEvent::RunCommand { command: "say hi".to_string() };
    assert_eq!(click_target(&click), "mc:run_command:say hi");
    let wrapped = wrap_click_event_osc8(&click, "X");
    assert_eq!(
        wrapped,
        "\u{1b}]8;;mc:run_command:say hi\u{1b}\\X\u{1b}]8;;\u{1b}\\"
    );
}

#[test]
fn hover_item_tooltip_wraps_in_hyperlink() {
    let cat = Catalog::new();
    let hover = HoverEvent::ShowItem { id: "stone".to_string(), count: Some(35) };
    let wrapped = wrap_hover_event_osc8(&hover, "X", &cat);
    assert_eq!(
        wrapped,
        "\u{1b}]8;;tooltip:Item: stone x35\u{1b}\\X\u{1b}]8;;\u{1b}\\"
    );
    let unknown = HoverEvent::ShowItem { id: "stone".to_string(), count: None };
    let wrapped2 = wrap_hover_event_osc8(&unknown, "X", &cat);
    assert_eq!(
        wrapped2,
        "\u{1b}]8;;tooltip:Item: stone x?\u{1b}\\X\u{1b}]8;;\u{1b}\\"
    );
}

#[test]
fn obfuscation_keeps_whitespace_and_length() {
    let out = obfuscate_text("ab cd\tz");
    let chars: Vec<char> = out.chars().collect();
    assert_eq!(chars.len(), 7);
    assert_eq!(chars[2], ' ');
    assert_eq!(chars[5], '\t');
    for (i, c) in chars.iter().enumerate() {
        if i != 2 && i != 5 {
            assert!(*c >= 'a' && *c < 'z');
        }
    }
}

#[test]
fn strip_ansi_consumes_whole_escapes() {
    assert_eq!(remove_ansi_color_code("\u{1b}[31mred\u{1b}[0m"), "red");
    assert_eq!(remove_ansi_color_code("plain"), "plain");
    assert_eq!(remove_ansi_color_code("\u{1b}[38;2;1;2;3mx"), "x");
}

#[test]
fn shape_round_trip_bare_string() {
    let node = TextComponent::text("Hello").0;
    let shape = node.encode_to_shape();
    assert!(matches!(shape, Shape::Str(_)));
    let back = decode(&shape).unwrap();
    assert!(dbg_eq(&node, &back));
}

#[test]
fn shape_round_trip_list() {
    let node = TextComponent::text("")
        .add_child(TextComponent::text("a"))
        .add_child(TextComponent::text("b").bold())
        .0;
    let shape = node.encode_to_shape();
    assert!(matches!(shape, Shape::List(_)));
    let back = decode(&shape).unwrap();
    assert!(dbg_eq(&node, &back));
}

#[test]
fn shape_round_trip_object() {
    let node = TextComponent::translate(
        "multiplayer.player.joined",
        vec![TextComponent::text("NAME")],
    )
    .color_named(NamedColor::Yellow)
    .color_rgb(RGBColor { red: 10, green: 255, blue: 16 })
    .underlined()
    .insertion("paste".to_string())
    .click_event(ClickEvent::OpenUrl { url: "https://example.com".to_string() })
    .hover_event(HoverEvent::ShowEntity {
        id: "zombie".to_string(),
        name: Some(vec![TextComponent::text("Bob").0]),
        uuid: Some("123".to_string()),
    })
    .font("minecraft:uniform".to_string())
    .shadow_color(ARGBColor { alpha: 1, red: 2, green: 3, blue: 4 })
    .add_child(TextComponent::text("kid"))
    .0;
    let shape = node.encode_to_shape();
    assert!(matches!(shape, Shape::Obj(_)));
    let back = decode(&shape).unwrap();
    assert!(dbg_eq(&node, &back));
}

fn empty_object() -> ObjectShape {
    ObjectShape {
        text: None,
        translate: None,
        with: None,
        selector: None,
        separator: None,
        keybind: None,
        extra: None,
        color: None,
        bold: None,
        italic: None,
        underlined: None,
        strikethrough: None,
        obfuscated: None,
        insertion: None,
        click_event: None,
        hover_event: None,
        font: None,
        shadow_color: None,
    }
}

#[test]
fn object_without_content_keys_is_rejected() {
    let mut obj = empty_object();
    obj.bold = Some(true);
    assert!(matches!(decode(&Shape::Obj(obj)), Err(DecodeError::UnknownContent)));
}

#[test]
fn object_with_bad_color_is_rejected() {
    let mut obj = empty_object();
    obj.text = Some("x".to_string());
    obj.color = Some("nope".to_string());
    assert!(matches!(decode(&Shape::Obj(obj)), Err(DecodeError::BadColor)));
}

#[test]
fn decoder_priority_text_over_translate() {
    let mut obj = empty_object();
    obj.text = Some("t".to_string());
    obj.translate = Some("k".to_string());
    let back = decode(&Shape::Obj(obj)).unwrap();
    assert!(matches!(back.content, TextContent::Text { .. }));
}

#[test]
fn color_strings_parse_and_print() {
    assert_eq!(parse_color("yellow"), Some(Color::Named(NamedColor::Yellow)));
    assert_eq!(
        parse_color("#0aff10"),
        Some(Color::Rgb(RGBColor { red: 0x0a, green: 0xff, blue: 0x10 }))
    );
    assert_eq!(parse_color("salmon"), None);
    assert_eq!(parse_color("#12345"), None);
    assert_eq!(color_text(&Color::Named(NamedColor::DarkGray)), "dark_gray");
    assert_eq!(
        color_text(&Color::Rgb(RGBColor { red: 0x0a, green: 0xff, blue: 0x10 })),
        "#0aff10"
    );
}

#[test]
fn selector_and_keybind_flatten_to_raw_strings() {
    let cat = Catalog::new();
    let sel = TextComponent::from_content(TextContent::EntityNames {
        selector: "@a".to_string(),
        separator: None,
    });
    assert_eq!(sel.0.get_text(&cat, Locale::EnUs), "@a");
    let key = TextComponent::from_content(TextContent::Keybind {
        keybind: "key.jump".to_string(),
    });
    assert_eq!(key.0.get_text(&cat, Locale::EnUs), "key.jump");
}

#[test]
fn resolution_reaches_tooltips() {
    let mut cat = Catalog::new();
    cat.add("custom:tip".to_string(), Locale::EnUs, "deep".to_string());
    let inner = TextComponent::custom("custom", "tip", Locale::EnUs, vec![]).0;
    let node = TextComponent::text("outer")
        .hover_event(HoverEvent::ShowText { value: vec![inner] })
        .0;
    let resolved = node.to_translated(&cat);
    match &resolved.style.hover_event {
        Some(HoverEvent::ShowText { value }) => match &value[0].content {
            TextContent::Text { text } => assert_eq!(text, "deep"),
            other => panic!("unexpected content {:?}", other),
        },
        other => panic!("unexpected hover {:?}", other),
    }
}

#[test]
fn lookup_honors_the_locale() {
    let mut cat = Catalog::new();
    cat.add("custom:hi".to_string(), Locale::EnUs, "hello".to_string());
    cat.add("custom:hi".to_string(), Locale::DeDe, "hallo".to_string());
    let node = TextComponent::custom("custom", "hi", Locale::DeDe, vec![]).0;
    assert_eq!(node.get_text(&cat, Locale::EnUs), "hello");
    assert_eq!(node.get_text(&cat, Locale::DeDe), "hallo");
    let resolved = node.to_translated(&cat);
    match &resolved.content {
        TextContent::Text { text } => assert_eq!(text, "hallo"),
        other => panic!("unexpected content {:?}", other),
    }
}

#[test]
fn boolean_style_fields_encode_as_byte_tags() {
    let bytes = TextComponent::text("x").italic().strikethrough().encode();
    let mut expected: Vec<u8> = vec![0x0A];
    expected.extend_from_slice(&[0x08, 0x00, 0x04]);
    expected.extend_from_slice(b"text");
    expected.extend_from_slice(&[0x00, 0x01, b'x']);
    expected.extend_from_slice(&[0x01, 0x00, 0x06]);
    expected.extend_from_slice(b"italic");
    expected.push(0x01);
    expected.extend_from_slice(&[0x01, 0x00, 0x0D]);
    expected.extend_from_slice(b"strikethrough");
    expected.push(0x01);
    expected.push(0x00);
    assert_eq!(bytes, expected);
}

#[test]
fn translate_encode_skips_empty_with() {
    let bytes = TextComponent::translate("chat.type.text", vec![]).encode();
    let mut expected: Vec<u8> = vec![0x0A, 0x08, 0x00, 0x09];
    expected.extend_from_slice(b"translate");
    expected.extend_from_slice(&[0x00, 0x0E]);
    expected.extend_from_slice(b"chat.type.text");
    expected.push(0x00);
    assert_eq!(bytes, expected);
}
