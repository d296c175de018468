use scene_tree::scan::{classify, parse_i32, Directive};
use scene_tree::scene_tree_text;

const TEE: &str = "\u{251c}\u{2500}\u{2500} ";
const ELL: &str = "\u{2514}\u{2500}\u{2500} ";
const GUIDE: &str = "\u{2502}   ";

fn lines(ls: &[&str]) -> Vec<Vec<u8>> {
    ls.iter().map(|s| s.as_bytes().to_vec()).collect()
}

fn text(out: Vec<u8>) -> String {
    String::from_utf8(out).unwrap()
}

#[test]
fn minimal_root_renders_name_only() {
    let input = lines(&["[node name=\"root\"]"]);
    let out = text(scene_tree_text(&input));
    assert_eq!(out, "root\n");
}

#[test]
fn ext_reference_resolves_to_type_and_path() {
    let input = lines(&[
        "[ext_resource type=\"Texture\" uid=\"uid://abc\" path=\"res://icon.png\" id=\"1\"]",
        "[node name=\"root\"]",
        "texture = ExtResource(\"1\")",
    ]);
    let out = text(scene_tree_text(&input));
    assert_eq!(out, "root\n    * texture: (Texture) res://icon.png\n");
}

#[test]
fn ext_path_with_spaces_survives_field_split() {
    let input = lines(&[
        "[ext_resource path=\"res://my file.png\" type=\"Texture\" id=\"2\"]",
        "[node name=\"root\"]",
        "t = ExtResource(\"2\")",
    ]);
    let out = text(scene_tree_text(&input));
    assert_eq!(out, "root\n    * t: (Texture) res://my file.png\n");
}

#[test]
fn sub_reference_inlines_parameters_in_order() {
    let input = lines(&[
        "[sub_resource type=\"Shader\" id=\"2\"]",
        "code = xyz",
        "lang = glsl",
        "[node name=\"root\"]",
        "mat = SubResource(\"2\")",
    ]);
    let out = text(scene_tree_text(&input));
    // the indentation is six spaces plus the key length plus two ("mat" gives
    // eleven), and only the last sub-parameter takes the terminal connector
    let expected = format!(
        "root\n    * mat: (Shader)\n           {TEE}code: xyz\n           {ELL}lang: glsl\n"
    );
    assert_eq!(out, expected);
}

#[test]
fn flat_declarations_assemble_into_tree() {
    let input = lines(&[
        "[node name=\"root\"]",
        "[node name=\"childA\" parent=\".\"]",
        "[node name=\"grandchild\" parent=\"childA\"]",
    ]);
    let out = text(scene_tree_text(&input));
    let expected = format!("root\n{ELL}childA\n    {ELL}grandchild\n");
    assert_eq!(out, expected);
}

#[test]
fn missing_ancestors_become_placeholders() {
    let input = lines(&[
        "[node name=\"root\"]",
        "[node name=\"leaf\" parent=\"X/Y\"]",
    ]);
    let out = text(scene_tree_text(&input));
    let expected = format!("root\n{ELL}X\n    {ELL}Y\n        {ELL}leaf\n");
    assert_eq!(out, expected);
}

#[test]
fn connector_glyphs_with_two_children_and_parameter() {
    let input = lines(&[
        "[node name=\"root\"]",
        "size = 10",
        "[node name=\"a\" parent=\".\"]",
        "[node name=\"b\" parent=\".\"]",
    ]);
    let out = text(scene_tree_text(&input));
    let expected = format!("root\n{GUIDE}* size: 10\n{TEE}a\n{ELL}b\n");
    assert_eq!(out, expected);
}

#[test]
fn dot_target_binds_to_root_name() {
    let input = lines(&[
        "[node name=\"root\"]",
        "[connection signal=\"pressed\" from=\".\" to=\".\" method=\"on_pressed\"]",
    ]);
    let out = text(scene_tree_text(&input));
    assert_eq!(out, "root\n    * connection: .:pressed() => root:on_pressed()\n");
}

#[test]
fn connection_binds_to_named_node() {
    let input = lines(&[
        "[node name=\"root\"]",
        "[node name=\"btn\" parent=\".\"]",
        "[connection signal=\"pressed\" from=\"btn\" to=\"root\" method=\"go\"]",
    ]);
    let out = text(scene_tree_text(&input));
    let expected = format!("root\n{ELL}btn\n        * connection: btn:pressed() => root:go()\n");
    assert_eq!(out, expected);
}

#[test]
fn connection_binds_at_most_once_first_match() {
    let input = lines(&[
        "[node name=\"root\"]",
        "[node name=\"mid\" parent=\".\"]",
        "[node name=\"x\" parent=\".\"]",
        "[node name=\"x\" parent=\"mid\"]",
        "[connection signal=\"s\" from=\"x\" to=\"root\" method=\"m\"]",
    ]);
    let out = text(scene_tree_text(&input));
    let expected = format!(
        "root\n{TEE}mid\n{GUIDE}{ELL}x\n{ELL}x\n        * connection: x:s() => root:m()\n"
    );
    assert_eq!(out, expected);
}

#[test]
fn duplicate_names_keep_first_declaration() {
    let input = lines(&[
        "[node name=\"root\"]",
        "[node name=\"a\" parent=\".\"]",
        "x = 1",
        "[node name=\"a\" parent=\".\"]",
        "y = 2",
    ]);
    let out = text(scene_tree_text(&input));
    let expected = format!("root\n{ELL}a\n        * x: 1\n");
    assert_eq!(out, expected);
}

#[test]
fn instanced_node_shows_resource_line() {
    let input = lines(&[
        "[ext_resource path=\"res://Sub.tscn\" type=\"PackedScene\" id=\"1\"]",
        "[node name=\"root\"]",
        "[node name=\"inst\" parent=\".\" instance=ExtResource( 1 )]",
    ]);
    let out = text(scene_tree_text(&input));
    let expected = format!("root\n{ELL}inst\n        * (PackedScene) res://Sub.tscn\n");
    assert_eq!(out, expected);
}

#[test]
fn unresolvable_reference_fails_closed_to_empty() {
    let input = lines(&[
        "[node name=\"root\"]",
        "t = ExtResource(\"9\")",
    ]);
    let out = text(scene_tree_text(&input));
    assert_eq!(out, "root\n    * t: \n");
}

#[test]
fn child_with_distinct_type_shows_type_tag() {
    let input = lines(&[
        "[node name=\"root\" type=\"Node2D\"]",
        "[node name=\"hud\" type=\"Control\" parent=\".\"]",
        "[node name=\"same\" type=\"same\" parent=\".\"]",
    ]);
    let out = text(scene_tree_text(&input));
    let expected = format!("root\n{TEE}hud (Control)\n{ELL}same\n");
    assert_eq!(out, expected);
}

#[test]
fn assignments_route_to_sub_resource_before_first_node() {
    let input = lines(&[
        "[sub_resource type=\"Style\" id=\"s1\"]",
        "color = red",
        "[node name=\"root\"]",
        "flag = yes",
        "box = SubResource(\"s1\")",
    ]);
    let out = text(scene_tree_text(&input));
    let expected = format!(
        "root\n    * flag: yes\n    * box: (Style)\n           {ELL}color: red\n"
    );
    assert_eq!(out, expected);
}

#[test]
fn unrecognized_lines_are_ignored() {
    let input = lines(&[
        "[gd_scene load_steps=2 format=3]",
        "",
        "; stray text",
        "[node name=\"root\"]",
    ]);
    let out = text(scene_tree_text(&input));
    assert_eq!(out, "root\n");
}

#[test]
fn classify_node_attributes_in_any_order() {
    match classify("[node name=\"n\" parent=\".\" type=\"Spatial\" index=\"3\"]".as_bytes()) {
        Directive::NodeDecl { name, kind, parent, index, instance } => {
            assert_eq!(name, b"n".to_vec());
            assert_eq!(kind, b"Spatial".to_vec());
            assert_eq!(parent, b".".to_vec());
            assert_eq!(index, 3);
            assert!(instance.is_none());
        },
        _ => panic!("expected a node declaration"),
    }
}

#[test]
fn classify_unparsable_index_defaults() {
    match classify("[node name=\"n\" index=\"abc\"]".as_bytes()) {
        Directive::NodeDecl { index, .. } => assert_eq!(index, -1),
        _ => panic!("expected a node declaration"),
    }
}

#[test]
fn classify_sub_resource_id_with_letters() {
    match classify("[sub_resource type=\"Shader\" id=\"2_abc81\"]".as_bytes()) {
        Directive::Sub { kind, id } => {
            assert_eq!(kind, b"Shader".to_vec());
            assert_eq!(id, b"2_abc81".to_vec());
        },
        _ => panic!("expected a sub-resource declaration"),
    }
}

#[test]
fn classify_assignment_key_shape() {
    match classify("wait_time = 2.0".as_bytes()) {
        Directive::Assign { key, val } => {
            assert_eq!(key, b"wait_time".to_vec());
            assert_eq!(val, b"2.0".to_vec());
        },
        _ => panic!("expected an assignment"),
    }
    assert!(matches!(classify("Camera = 1".as_bytes()), Directive::Other));
    assert!(matches!(classify("key= 1".as_bytes()), Directive::Other));
}

#[test]
fn parse_i32_accepts_signed_decimals() {
    assert_eq!(parse_i32(b"123"), Some(123));
    assert_eq!(parse_i32(b"-5"), Some(-5));
    assert_eq!(parse_i32(b"+7"), Some(7));
    assert_eq!(parse_i32(b"0"), Some(0));
    assert_eq!(parse_i32(b"2147483647"), Some(2147483647));
    assert_eq!(parse_i32(b"-2147483648"), Some(-2147483648));
}

#[test]
fn parse_i32_rejects_malformed_and_overflow() {
    assert_eq!(parse_i32(b""), None);
    assert_eq!(parse_i32(b"-"), None);
    assert_eq!(parse_i32(b"12a"), None);
    assert_eq!(parse_i32(b" 3"), None);
    assert_eq!(parse_i32(b"2147483648"), None);
    assert_eq!(parse_i32(b"-2147483649"), None);
    assert_eq!(parse_i32(b"99999999999999999999"), None);
}

#[test]
fn ext_resource_replaced_on_duplicate_id() {
    let input = lines(&[
        "[ext_resource type=\"Texture\" path=\"res://a.png\" id=\"1\"]",
        "[ext_resource type=\"Texture\" path=\"res://b.png\" id=\"1\"]",
        "[node name=\"root\"]",
        "t = ExtResource(\"1\")",
    ]);
    let out = text(scene_tree_text(&input));
    assert_eq!(out, "root\n    * t: (Texture) res://b.png\n");
}

#[test]
fn rightmost_reference_in_value_wins() {
    let input = lines(&[
        "[ext_resource type=\"Texture\" path=\"res://a.png\" id=\"1\"]",
        "[ext_resource type=\"Texture\" path=\"res://b.png\" id=\"2\"]",
        "[node name=\"root\"]",
        "t = ExtResource(\"1\") and ExtResource(\"2\")",
    ]);
    let out = text(scene_tree_text(&input));
    assert_eq!(out, "root\n    * t: (Texture) res://b.png\n");
}

#[test]
fn connection_line_tolerates_trailing_text() {
    let input = lines(&[
        "[node name=\"root\"]",
        "[connection signal=\"s\" from=\"root\" to=\"root\" method=\"m\"] ; note",
    ]);
    let out = text(scene_tree_text(&input));
    assert_eq!(out, "root\n    * connection: root:s() => root:m()\n");
}

#[test]
fn empty_type_attribute_is_ignored() {
    match classify("[node name=\"n\" type=\"\" parent=\".\"]".as_bytes()) {
        Directive::NodeDecl { kind, parent, .. } => {
            assert!(kind.is_empty());
            assert_eq!(parent, b".".to_vec());
        },
        _ => panic!("expected a node declaration"),
    }
}

#[test]
fn ext_field_without_value_boundary_is_skipped() {
    // the bare `path` token fuses with the following field across the
    // quote-space boundary, so neither path nor type is assigned
    match classify("[ext_resource path type=\"Texture\" id=\"3\"]".as_bytes()) {
        Directive::Ext { res } => {
            assert!(res.path.is_empty());
            assert!(res.kind.is_empty());
            assert_eq!(res.id, b"3".to_vec());
        },
        _ => panic!("expected an external-resource declaration"),
    }
}

#[test]
fn later_root_declaration_fills_root_slot_keeping_children() {
    let input = lines(&[
        "[node name=\"first\"]",
        "[node name=\"a\" parent=\".\"]",
        "[node name=\"second\"]",
    ]);
    let out = text(scene_tree_text(&input));
    let expected = format!("second\n{ELL}a\n");
    assert_eq!(out, expected);
}

#[test]
fn nested_guides_extend_through_depth() {
    let input = lines(&[
        "[node name=\"root\"]",
        "[node name=\"a\" parent=\".\"]",
        "[node name=\"b\" parent=\"a\"]",
        "k = v",
        "[node name=\"d\" parent=\"a\"]",
        "[node name=\"c\" parent=\".\"]",
    ]);
    let out = text(scene_tree_text(&input));
    let expected = format!(
        "root\n{TEE}a\n{GUIDE}{TEE}b\n{GUIDE}{GUIDE}    * k: v\n{GUIDE}{ELL}d\n{ELL}c\n"
    );
    assert_eq!(out, expected);
}
