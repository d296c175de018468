use scene_tree::model::{Connection, ExtResource, Node, SubResource};
use scene_tree::render::render;
use scene_tree::state::{find_ext, find_sub, resolve_value, ParserState};

#[test]
fn ext_resource_new_keeps_fields() {
    let r = ExtResource::new(
        b"res://icon.png".to_vec(),
        b"Texture".to_vec(),
        b"uid://abc".to_vec(),
        b"1".to_vec(),
    );
    assert_eq!(r.path, b"res://icon.png".to_vec());
    assert_eq!(r.kind, b"Texture".to_vec());
    assert_eq!(r.uid, b"uid://abc".to_vec());
    assert_eq!(r.id, b"1".to_vec());
}

#[test]
fn sub_resource_new_starts_empty() {
    let r = SubResource::new(b"Shader".to_vec());
    assert_eq!(r.kind, b"Shader".to_vec());
    assert!(r.id.is_empty());
    assert!(r.parameters.is_empty());
}

#[test]
fn connection_new_keeps_fields() {
    let c = Connection::new(
        b"pressed".to_vec(),
        b"btn".to_vec(),
        b"root".to_vec(),
        b"go".to_vec(),
    );
    assert_eq!(c.signal, b"pressed".to_vec());
    assert_eq!(c.from, b"btn".to_vec());
    assert_eq!(c.to, b"root".to_vec());
    assert_eq!(c.method, b"go".to_vec());
}

#[test]
fn node_new_defaults() {
    let n = Node::new(b"root".to_vec());
    assert_eq!(n.name, b"root".to_vec());
    assert!(n.kind.is_empty());
    assert!(n.parent.is_empty());
    assert_eq!(n.index, -1);
    assert!(n.instance.is_none());
    assert!(n.parameters.is_empty());
    assert!(n.children.is_empty());
    assert!(n.connections.is_empty());
    assert!(!n.declared);
}

#[test]
fn add_child_descends_and_keeps_insertion_order() {
    let mut root = Node::new(b"root".to_vec());
    let mut a = Node::new(b"a".to_vec());
    a.declared = true;
    let mut b = Node::new(b"b".to_vec());
    b.declared = true;
    let mut leaf = Node::new(b"leaf".to_vec());
    leaf.declared = true;
    root.add_child(a, Vec::new());
    root.add_child(b, Vec::new());
    root.add_child(leaf, vec![b"a".to_vec()]);
    assert_eq!(root.children.len(), 2);
    assert_eq!(root.children[0].name, b"a".to_vec());
    assert_eq!(root.children[1].name, b"b".to_vec());
    assert_eq!(root.children[0].children.len(), 1);
    assert_eq!(root.children[0].children[0].name, b"leaf".to_vec());
}

#[test]
fn add_child_skips_empty_path_segments() {
    let mut root = Node::new(b"root".to_vec());
    let mut leaf = Node::new(b"leaf".to_vec());
    leaf.declared = true;
    root.add_child(leaf, vec![b"".to_vec(), b"x".to_vec(), b"".to_vec()]);
    assert_eq!(root.children.len(), 1);
    assert_eq!(root.children[0].name, b"x".to_vec());
    assert!(!root.children[0].declared);
    assert_eq!(root.children[0].children[0].name, b"leaf".to_vec());
}

#[test]
fn add_child_fills_in_placeholder_keeping_subtree() {
    let mut root = Node::new(b"root".to_vec());
    let mut leaf = Node::new(b"leaf".to_vec());
    leaf.declared = true;
    root.add_child(leaf, vec![b"x".to_vec()]);
    // x exists only as a placeholder so far
    assert!(!root.children[0].declared);
    let mut x = Node::new(b"x".to_vec());
    x.kind = b"Control".to_vec();
    x.declared = true;
    root.add_child(x, Vec::new());
    assert_eq!(root.children.len(), 1);
    assert!(root.children[0].declared);
    assert_eq!(root.children[0].kind, b"Control".to_vec());
    assert_eq!(root.children[0].children[0].name, b"leaf".to_vec());
}

#[test]
fn find_child_reports_first_position() {
    let mut root = Node::new(b"root".to_vec());
    let a = Node::new(b"a".to_vec());
    let b = Node::new(b"b".to_vec());
    root.add_child(a, Vec::new());
    root.add_child(b, Vec::new());
    assert_eq!(root.find_child(b"a"), Some(0));
    assert_eq!(root.find_child(b"b"), Some(1));
    assert_eq!(root.find_child(b"c"), None);
}

#[test]
fn state_tables_and_resolution() {
    let mut st = ParserState::init();
    st.consume_line(b"[ext_resource type=\"Texture\" path=\"res://a.png\" id=\"1\"]");
    st.consume_line(b"[sub_resource type=\"Style\" id=\"s1\"]");
    st.consume_line(b"margin = 4");
    assert!(find_ext(&st.ext_resources, b"1").is_some());
    assert!(find_ext(&st.ext_resources, b"2").is_none());
    let s = find_sub(&st.sub_resources, b"s1").unwrap();
    assert_eq!(s.parameters.len(), 1);
    assert_eq!(s.parameters[0].key, b"margin".to_vec());
    assert_eq!(s.parameters[0].val, b"4".to_vec());

    let (v, sp) = resolve_value(b"ExtResource(\"1\")", &st.ext_resources, &st.sub_resources);
    assert_eq!(v, b"(Texture) res://a.png".to_vec());
    assert!(sp.is_empty());
    let (v, sp) = resolve_value(b"SubResource(\"s1\")", &st.ext_resources, &st.sub_resources);
    assert_eq!(v, b"(Style)".to_vec());
    assert_eq!(sp.len(), 1);
    let (v, sp) = resolve_value(b"plain text", &st.ext_resources, &st.sub_resources);
    assert_eq!(v, b"plain text".to_vec());
    assert!(sp.is_empty());
}

#[test]
fn render_lone_instanced_root() {
    let mut root = Node::new(b"root".to_vec());
    root.declared = true;
    root.instance = Some(ExtResource::new(
        b"res://Main.tscn".to_vec(),
        b"PackedScene".to_vec(),
        Vec::new(),
        b"1".to_vec(),
    ));
    let out = render(&root);
    assert_eq!(
        String::from_utf8(out).unwrap(),
        "root (PackedScene) res://Main.tscn\n"
    );
}
