use cs2_dumper::schemas::{
    class_from_parts, enum_from_parts, BindingError, BindingListWalk, Class, ClassMetadata,
    ElementAction, ElementEvent, Enum, EnumMember, ListKind, ParentAction, ParentEvent,
    ParentLookup, SchemaSearch, ScopeAction, ScopeEvent, ScopeWalk, SearchAction, SearchEvent,
};

fn class(name: &str) -> Class {
    Class {
        name: name.to_string(),
        module_name: "libclient.so".to_string(),
        parent_name: None,
        metadata: vec![],
        fields: vec![],
    }
}

fn registration(name: &str, create_fn: u64, next: u64) -> SearchEvent {
    SearchEvent::Registration { name: name.to_string(), create_fn, next }
}

#[test]
fn an_empty_interface_list_has_no_schema_system() {
    assert_eq!(SchemaSearch::new(0).action(), SearchAction::NotFound);
}

#[test]
fn finds_the_schema_system_through_lea() {
    let mut search = SchemaSearch::new(0x100);
    assert_eq!(search.action(), SearchAction::ReadRegistration(0x100));
    assert_eq!(search.step(registration("VEngineCvar007", 0x500, 0x200)), SearchAction::ReadRegistration(0x200));
    assert_eq!(search.step(registration("SchemaSystem_001", 0x1000, 0x300)), SearchAction::ReadCode(0x1000));
    let lea = vec![0x48, 0x8D, 0x05, 0x10, 0x00, 0x00, 0x00];
    assert_eq!(search.step(SearchEvent::Code(lea)), SearchAction::ReadSystem(0x1017));
    assert_eq!(search.step(SearchEvent::System { registration_count: 3 }), SearchAction::Found(0x1017));
}

#[test]
fn a_mov_goes_through_a_pointer_and_dead_ends_go_on() {
    let mut search = SchemaSearch::new(0x100);
    search.step(registration("SchemaSystem_001", 0x1000, 0x200));
    let mov = vec![0x48, 0x8B, 0x05, 0x10, 0x00, 0x00, 0x00];
    assert_eq!(search.step(SearchEvent::Code(mov.clone())), SearchAction::ReadPointer(0x1017));
    // A null pointer: on to the next registration.
    assert_eq!(search.step(SearchEvent::Pointer(0)), SearchAction::ReadRegistration(0x200));
    search.step(registration("SchemaSystem_001", 0x1000, 0x300));
    search.step(SearchEvent::Code(mov));
    assert_eq!(search.step(SearchEvent::Pointer(0x9000)), SearchAction::ReadSystem(0x9000));
    // No registrations yet: on to the next registration.
    assert_eq!(search.step(SearchEvent::System { registration_count: 0 }), SearchAction::ReadRegistration(0x300));
    search.step(registration("SchemaSystem_001", 0x2000, 0));
    // Code that is no RIP-relative load: on to the end of the list.
    assert_eq!(search.step(SearchEvent::Code(vec![0xC3, 0, 0, 0, 0, 0, 0])), SearchAction::NotFound);
}

#[test]
fn unexpected_events_change_nothing() {
    let mut search = SchemaSearch::new(0x100);
    assert_eq!(search.step(SearchEvent::Pointer(5)), SearchAction::ReadRegistration(0x100));
}

#[test]
fn parent_lookup() {
    let none = ParentLookup::new(0);
    assert_eq!(none.action(), ParentAction::Done);
    assert_eq!(none.finish(), None);

    let mut lookup = ParentLookup::new(0x10);
    assert_eq!(lookup.action(), ParentAction::ReadBaseClass(0x10));
    assert_eq!(lookup.step(ParentEvent::BaseClass { class: 0x20 }), ParentAction::ReadClassName(0x20));
    assert_eq!(lookup.step(ParentEvent::Name("C_BaseEntity".to_string())), ParentAction::Done);
    assert_eq!(lookup.finish(), Some("C_BaseEntity".to_string()));

    let mut empty = ParentLookup::new(0x10);
    empty.step(ParentEvent::BaseClass { class: 0x20 });
    empty.step(ParentEvent::Name(String::new()));
    assert_eq!(empty.finish(), None);

    let mut failed = ParentLookup::new(0x10);
    assert_eq!(failed.step(ParentEvent::Failed), ParentAction::Done);
    assert_eq!(failed.finish(), None);
}

#[test]
fn classes_and_enums_need_a_name() {
    assert_eq!(
        class_from_parts(String::new(), "client".to_string(), None, vec![], vec![]).err(),
        Some(BindingError::EmptyName)
    );
    let c = class_from_parts(
        "C_Foo".to_string(),
        "client".to_string(),
        Some("C_Bar".to_string()),
        vec![],
        vec![ClassMetadata::Unknown { name: "MNetworkEnable".to_string() }],
    )
    .unwrap();
    assert_eq!(c.name, "C_Foo");
    assert_eq!(c.module_name, "client.so");
    assert_eq!(c.parent_name, Some("C_Bar".to_string()));
    assert_eq!(c.metadata.len(), 1);

    assert_eq!(enum_from_parts(String::new(), 4, 0, vec![]).err(), Some(BindingError::EmptyName));
    let e = enum_from_parts("EFoo".to_string(), 4, 1, vec![EnumMember { name: "A".to_string(), value: 1 }]).unwrap();
    assert_eq!((e.name.as_str(), e.alignment, e.size, e.members.len()), ("EFoo", 4, 1, 1));
}

#[test]
fn field_list_skips_untyped_fields() {
    let mut walk = BindingListWalk::new(ListKind::Fields, 0x100, 3);
    assert_eq!(walk.action(), ElementAction::ReadField(0));
    assert_eq!(walk.step(ElementEvent::Field { type_ptr: 0, offset: 8 }), ElementAction::ReadField(1));
    assert_eq!(walk.step(ElementEvent::Field { type_ptr: 0x40, offset: 0x10 }), ElementAction::ReadFieldNames);
    assert_eq!(
        walk.step(ElementEvent::FieldNames { name: "m_h".to_string(), raw_typename: "CHandle< X >".to_string() }),
        ElementAction::ReadField(2)
    );
    walk.step(ElementEvent::Field { type_ptr: 0x50, offset: 0x18 });
    assert_eq!(
        walk.step(ElementEvent::FieldNames { name: "m_i".to_string(), raw_typename: "int32".to_string() }),
        ElementAction::Done
    );
    let fields = walk.into_fields().unwrap();
    assert_eq!(fields.len(), 2);
    assert_eq!((fields[0].name.as_str(), fields[0].typename.as_str(), fields[0].offset), ("m_h", "CHandle<X>", 0x10));
    assert_eq!(fields[1].offset, 0x18);
}

#[test]
fn a_null_list_is_empty_and_a_failed_read_loses_the_list() {
    let walk = BindingListWalk::new(ListKind::Fields, 0, 5);
    assert_eq!(walk.action(), ElementAction::Done);
    assert_eq!(walk.into_fields().unwrap().len(), 0);

    let mut walk = BindingListWalk::new(ListKind::Members, 0x100, 2);
    walk.step(ElementEvent::Enumerator { name: "A".to_string(), raw_value: 0 });
    assert_eq!(walk.step(ElementEvent::Failed), ElementAction::Failed);
    assert!(walk.into_members().is_none());
}

#[test]
fn metadata_list_reads_by_name() {
    let mut walk = BindingListWalk::new(ListKind::Metadata, 0x100, 4);
    assert_eq!(walk.action(), ElementAction::ReadMetadata(0));
    // No network value: skipped.
    assert_eq!(walk.step(ElementEvent::Metadata { network_value: 0 }), ElementAction::ReadMetadata(1));
    walk.step(ElementEvent::Metadata { network_value: 0x40 });
    assert_eq!(walk.step(ElementEvent::MetadataName("MNetworkEnable".to_string())), ElementAction::ReadMetadata(2));
    walk.step(ElementEvent::Metadata { network_value: 0x50 });
    assert_eq!(
        walk.step(ElementEvent::MetadataName("MNetworkChangeCallback".to_string())),
        ElementAction::ReadCallbackName
    );
    assert_eq!(walk.step(ElementEvent::CallbackName("OnChanged".to_string())), ElementAction::ReadMetadata(3));
    walk.step(ElementEvent::Metadata { network_value: 0x60 });
    assert_eq!(walk.step(ElementEvent::MetadataName("MNetworkVarNames".to_string())), ElementAction::ReadVarNames);
    assert_eq!(
        walk.step(ElementEvent::VarNames { name: "m_v".to_string(), raw_typename: "Vector 2D".to_string() }),
        ElementAction::Done
    );
    let metadata = walk.into_metadata().unwrap();
    assert_eq!(metadata.len(), 3);
    assert!(matches!(&metadata[0], ClassMetadata::Unknown { name } if name == "MNetworkEnable"));
    assert!(matches!(&metadata[1], ClassMetadata::NetworkChangeCallback { name } if name == "OnChanged"));
    assert!(matches!(&metadata[2], ClassMetadata::NetworkVarNames { name, typename } if name == "m_v" && typename == "Vector2D"));
}

#[test]
fn enumerators_are_read_as_signed_values() {
    let mut walk = BindingListWalk::new(ListKind::Members, 0x100, 2);
    assert_eq!(walk.action(), ElementAction::ReadEnumerator(0));
    walk.step(ElementEvent::Enumerator { name: "NONE".to_string(), raw_value: u64::MAX });
    assert_eq!(walk.step(ElementEvent::Enumerator { name: "ONE".to_string(), raw_value: 1 }), ElementAction::Done);
    let members = walk.into_members().unwrap();
    assert_eq!((members[0].value, members[1].value), (-1, 1));
}

#[test]
fn scope_walk_drops_failed_bindings_and_empty_scopes() {
    let mut walk = ScopeWalk::new(3);
    assert_eq!(walk.action(), ScopeAction::ReadScope(0));
    assert_eq!(walk.step(ScopeEvent::Scope { module_name: "client.dll".to_string() }), ScopeAction::ReadBindings);
    walk.step(ScopeEvent::Class(Some(class("C_A"))));
    walk.step(ScopeEvent::Class(None));
    walk.step(ScopeEvent::Class(Some(class("C_B"))));
    assert_eq!(walk.step(ScopeEvent::EndScope), ScopeAction::ReadScope(1));
    walk.step(ScopeEvent::Scope { module_name: "empty".to_string() });
    walk.step(ScopeEvent::Enum(None));
    walk.step(ScopeEvent::EndScope);
    walk.step(ScopeEvent::Scope { module_name: "engine2.dll".to_string() });
    walk.step(ScopeEvent::Enum(Some(Enum { name: "E".to_string(), alignment: 4, size: 0, members: vec![] })));
    assert_eq!(walk.step(ScopeEvent::EndScope), ScopeAction::Done);
    let scopes = walk.finish().unwrap();
    assert_eq!(scopes.len(), 2);
    assert_eq!(scopes[0].module_name, "client.dll");
    assert_eq!(scopes[0].classes.iter().map(|c| c.name.as_str()).collect::<Vec<_>>(), vec!["C_A", "C_B"]);
    assert_eq!(scopes[1].module_name, "engine2.dll");
    assert_eq!(scopes[1].enums.len(), 1);
}

#[test]
fn a_failed_scope_read_loses_the_walk() {
    let mut walk = ScopeWalk::new(2);
    walk.step(ScopeEvent::Scope { module_name: "client.dll".to_string() });
    walk.step(ScopeEvent::Class(Some(class("C_A"))));
    walk.step(ScopeEvent::EndScope);
    assert_eq!(walk.step(ScopeEvent::Failed), ScopeAction::Failed);
    assert!(walk.finish().is_none());
}
