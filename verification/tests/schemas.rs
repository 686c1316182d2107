use cs2_dumper::schemas::{
    class_field, enum_member, is_schema_system_interface, metadata_kind, name_field, network_var_names, nonempty_name,
    schema_map, schema_module_name, schema_system_access, type_scope, Class, ClassMetadata,
    Enum, EnumMember, MetadataKind, SchemaSystemRef, TypeScope,
};
use cs2_dumper::text::strip_spaces;

fn class(name: &str) -> Class {
    Class {
        name: name.to_string(),
        module_name: "libclient.so".to_string(),
        parent_name: None,
        metadata: vec![],
        fields: vec![],
    }
}

fn enumeration(name: &str) -> Enum {
    Enum {
        name: name.to_string(),
        alignment: 4,
        size: 1,
        members: vec![EnumMember { name: "A".to_string(), value: -1 }],
    }
}

#[test]
fn decodes_the_schema_system_reference() {
    let lea = [0x48, 0x8D, 0x05, 0x10, 0x00, 0x00, 0x00];
    assert_eq!(schema_system_access(0x1000, &lea), Some(SchemaSystemRef::Instance(0x1017)));
    let mov = [0x48, 0x8B, 0x05, 0xF0, 0xFF, 0xFF, 0xFF];
    assert_eq!(schema_system_access(0x1000, &mov), Some(SchemaSystemRef::Pointer(0x0FF7)));
    let other = [0x48, 0x8B, 0x0D, 0x10, 0x00, 0x00, 0x00];
    assert_eq!(schema_system_access(0x1000, &other), None);
    assert_eq!(schema_system_access(0x1000, &[0xC3]), None);
}

#[test]
fn recognises_the_schema_system_interface() {
    assert!(is_schema_system_interface("SchemaSystem_001"));
    assert!(!is_schema_system_interface("SchemaSystem_002"));
    assert!(!is_schema_system_interface(""));
}

#[test]
fn names_and_types() {
    assert_eq!(schema_module_name("client"), "client.so");
    assert_eq!(nonempty_name(String::new()), None);
    assert_eq!(nonempty_name("C_BaseEntity".to_string()), Some("C_BaseEntity".to_string()));
    assert_eq!(strip_spaces("CHandle< C_BaseEntity >"), "CHandle<C_BaseEntity>");
    let field = class_field("m_hOwner".to_string(), "CHandle< C_BaseEntity >", 0x440);
    assert_eq!(field.name, "m_hOwner");
    assert_eq!(field.typename, "CHandle<C_BaseEntity>");
    assert_eq!(field.offset, 0x440);
}

#[test]
fn classifies_metadata() {
    assert_eq!(metadata_kind("MNetworkChangeCallback"), MetadataKind::NetworkChangeCallback);
    assert_eq!(metadata_kind("MNetworkVarNames"), MetadataKind::NetworkVarNames);
    assert_eq!(metadata_kind("MNetworkEnable"), MetadataKind::Unknown);
    match network_var_names("m_vec".to_string(), "Vector 2D") {
        ClassMetadata::NetworkVarNames { name, typename } => {
            assert_eq!(name, "m_vec");
            assert_eq!(typename, "Vector2D");
        }
        _ => panic!("wrong metadata"),
    }
}

#[test]
fn empty_type_scopes_are_dropped() {
    assert!(type_scope("libempty.so".to_string(), vec![], vec![]).is_none());
    let scope = type_scope("libclient.so".to_string(), vec![class("C_A")], vec![]).unwrap();
    assert_eq!(scope.module_name, "libclient.so");
    assert_eq!(scope.classes.len(), 1);
    assert!(type_scope("libclient.so".to_string(), vec![], vec![enumeration("E")]).is_some());
}

#[test]
fn later_type_scopes_replace_earlier_ones() {
    let scopes = vec![
        TypeScope { module_name: "libclient.so".to_string(), classes: vec![class("Old")], enums: vec![] },
        TypeScope { module_name: "libengine2.so".to_string(), classes: vec![], enums: vec![enumeration("E")] },
        TypeScope { module_name: "libclient.so".to_string(), classes: vec![class("New")], enums: vec![] },
    ];
    let map = schema_map(scopes);
    let (classes, enums) = map.get("libclient.so").unwrap();
    assert_eq!(classes.len(), 1);
    assert_eq!(classes[0].name, "New");
    assert!(enums.is_empty());
    let (classes, enums) = map.get("libengine2.so").unwrap();
    assert!(classes.is_empty());
    assert_eq!(enums[0].members[0].value, -1);
    assert!(map.get("libserver.so").is_none());
}

#[test]
fn name_fields_end_at_the_first_nul() {
    let mut raw = [0u8; 16];
    raw[..6].copy_from_slice(b"client");
    raw[7..10].copy_from_slice(b"xyz");
    assert_eq!(name_field(&raw), "client");
    assert_eq!(name_field(b"engine2"), "engine2");
    assert_eq!(name_field(&[0u8; 4]), "");
    assert_eq!(name_field(&[b'a', 0xFF, b'b', 0]), "a\u{FFFD}b");
}

#[test]
fn enum_values_are_read_as_signed() {
    let member = enum_member("NONE".to_string(), u64::MAX);
    assert_eq!(member.name, "NONE");
    assert_eq!(member.value, -1);
    assert_eq!(enum_member("ONE".to_string(), 1).value, 1);
}
