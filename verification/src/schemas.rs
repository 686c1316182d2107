//! The schema system's classes and enums, and the decisions taken while reading
//! them out of the game.

use vstd::prelude::*;
use vstd::string::StringExecFns;

use crate::elf::{first_nul, le_u32, read_u32};
use crate::names::NameMap;
use crate::text::{lossy_utf8, str_equal, strip_spaces, utf8_lossy, without_spaces};

verus! {

/// A piece of static metadata attached to a class.
#[derive(Clone, Debug)]
pub enum ClassMetadata {
    Unknown { name: String },
    NetworkChangeCallback { name: String },
    NetworkVarNames { name: String, typename: String },
}

/// A class of a module's type scope.
#[derive(Clone, Debug)]
pub struct Class {
    pub name: String,
    pub module_name: String,
    pub parent_name: Option<String>,
    pub metadata: Vec<ClassMetadata>,
    pub fields: Vec<ClassField>,
}

/// A field of a class, at an offset into it.
#[derive(Clone, Debug)]
pub struct ClassField {
    pub name: String,
    pub typename: String,
    pub offset: i32,
}

/// An enum of a module's type scope.
#[derive(Clone, Debug)]
pub struct Enum {
    pub name: String,
    pub alignment: u8,
    pub size: u16,
    pub members: Vec<EnumMember>,
}

/// A member of an enum.
#[derive(Clone, Debug)]
pub struct EnumMember {
    pub name: String,
    pub value: i64,
}

/// The classes and enums that the schema system registers for one module.
#[derive(Clone, Debug)]
pub struct TypeScope {
    pub module_name: String,
    pub classes: Vec<Class>,
    pub enums: Vec<Enum>,
}

/// How a piece of class metadata is read, by its name.
#[derive(Debug, Clone, Copy, PartialEq, Eq)]
pub enum MetadataKind {
    /// `MNetworkChangeCallback`: the value names a callback.
    NetworkChangeCallback,
    /// `MNetworkVarNames`: the value names a variable and its type.
    NetworkVarNames,
    /// Anything else: only the metadata name is kept.
    Unknown,
}

/// How the schema system instance is reached from the code of its interface's
/// create function.
#[derive(Debug, Clone, Copy, PartialEq, Eq)]
pub enum SchemaSystemRef {
    /// `lea rax, [rip + disp32]`: the instance is at this address.
    Instance(u64),
    /// `mov rax, [rip + disp32]`: a pointer to the instance is at this address.
    Pointer(u64),
}

/// The name of the interface that creates the schema system.
pub open spec fn schema_system_interface_name() -> Seq<char> {
    "SchemaSystem_001"@
}

/// The kind of a piece of metadata named `name`.
pub open spec fn metadata_kind_of(name: Seq<char>) -> MetadataKind {
    if name == "MNetworkChangeCallback"@ {
        MetadataKind::NetworkChangeCallback
    } else if name == "MNetworkVarNames"@ {
        MetadataKind::NetworkVarNames
    } else {
        MetadataKind::Unknown
    }
}

/// Whether `code` starts with `48 8B 05` (`mov rax, [rip + disp32]`) or `48 8D 05`
/// (`lea rax, [rip + disp32]`).
pub open spec fn loads_rip_relative(code: Seq<u8>) -> bool {
    &&& code.len() >= 3
    &&& code[0] == 0x48
    &&& (code[1] == 0x8B || code[1] == 0x8D)
    &&& code[2] == 0x05
}

/// The target of the 7-byte RIP-relative load at `create_fn`: the sign-extended
/// displacement added to the address of the next instruction, modulo 2^64.
pub open spec fn rip_load_target(create_fn: u64, code: Seq<u8>) -> u64 {
    let disp = match le_u32(code, 3) {
        Some(d) => d as i32,
        None => 0,
    };
    ((create_fn + 7 + disp) % 0x1_0000_0000_0000_0000) as u64
}

/// How the schema system is reached from the create function code `code` at
/// `create_fn`, if that code is a RIP-relative load.
pub open spec fn schema_system_ref(create_fn: u64, code: Seq<u8>) -> Option<SchemaSystemRef> {
    if loads_rip_relative(code) {
        let target = rip_load_target(create_fn, code);
        if code[1] == 0x8D {
            Some(SchemaSystemRef::Instance(target))
        } else {
            Some(SchemaSystemRef::Pointer(target))
        }
    } else {
        None
    }
}

/// The per-module map of type scopes: a later scope of the same module replaces an
/// earlier one.
pub open spec fn scopes_map(scopes: Seq<TypeScope>) -> Map<Seq<char>, (Vec<Class>, Vec<Enum>)>
    decreases scopes.len(),
{
    if scopes.len() == 0 {
        Map::empty()
    } else {
        scopes_map(scopes.drop_last()).insert(
            scopes.last().module_name@,
            (scopes.last().classes, scopes.last().enums),
        )
    }
}

/// The bytes of a fixed-size, NUL-terminated name field: up to the first NUL, or the
/// whole field when it has none.
pub open spec fn name_field_bytes(raw: Seq<u8>) -> Seq<u8> {
    match first_nul(raw, 0) {
        Some(e) => raw.take(e),
        None => raw,
    }
}

/// The name held in a fixed-size, NUL-terminated name field (such as a type scope's
/// module name), decoded as UTF-8 with invalid sequences replaced.
pub fn name_field(raw: &[u8]) -> (r: String)
    ensures
        r@ == lossy_utf8(name_field_bytes(raw@)),
{
    let mut end: usize = 0;
    while end < raw.len() && raw[end] != 0
        invariant
            end <= raw.len(),
            first_nul(raw@, 0) == first_nul(raw@, end as int),
        decreases raw.len() - end,
    {
        end = end + 1;
    }
    proof {
        if end == raw.len() {
            assert(raw@.take(end as int) =~= raw@);
        }
    }
    utf8_lossy(&raw[0..end])
}

/// A later type scope of a module replaces an earlier one: the classes and enums of a
/// module are those of its last scope.
pub proof fn lemma_last_scope_wins(scopes: Seq<TypeScope>, i: int)
    requires
        0 <= i < scopes.len(),
        forall|j: int|
            i < j < scopes.len() ==> #[trigger] scopes[j].module_name@ != scopes[i].module_name@,
    ensures
        scopes_map(scopes).dom().contains(scopes[i].module_name@),
        scopes_map(scopes)[scopes[i].module_name@] == (scopes[i].classes, scopes[i].enums),
    decreases scopes.len(),
{
    if i < scopes.len() - 1 {
        let rest = scopes.drop_last();
        assert forall|j: int| i < j < rest.len() implies #[trigger] rest[j].module_name@
            != rest[i].module_name@ by {
            assert(rest[j] == scopes[j]);
        }
        lemma_last_scope_wins(rest, i);
        assert(scopes.last().module_name@ != scopes[i].module_name@);
    }
}

/// Whether `name` is the interface that creates the schema system.
pub fn is_schema_system_interface(name: &str) -> (r: bool)
    ensures
        r == (name@ == schema_system_interface_name()),
{
    str_equal(name, "SchemaSystem_001")
}

/// How the schema system is reached from the code at its create function.
pub fn schema_system_access(create_fn: u64, code: &[u8]) -> (r: Option<SchemaSystemRef>)
    requires
        loads_rip_relative(code@) ==> code@.len() >= 7,
    ensures
        r == schema_system_ref(create_fn, code@),
{
    if !(code.len() >= 3 && code[0] == 0x48 && (code[1] == 0x8B || code[1] == 0x8D) && code[2]
        == 0x05) {
        return None;
    }
    let disp = match read_u32(code, 3) {
        Some(d) => d as i32,
        None => 0,
    };
    let target = create_fn.wrapping_add(7).wrapping_add_signed(disp as i64);
    if code[1] == 0x8D {
        Some(SchemaSystemRef::Instance(target))
    } else {
        Some(SchemaSystemRef::Pointer(target))
    }
}

/// The module name of a class binding: the scope's name with the `.so` suffix.
pub fn schema_module_name(raw: &str) -> (r: String)
    ensures
        r@ == raw@ + ".so"@,
{
    let mut name = String::from_str(raw);
    name.append(".so");
    name
}

/// The name, unless it is empty. Classes and enums without a name are skipped, and a
/// base class without a name is no parent.
pub fn nonempty_name(name: String) -> (r: Option<String>)
    ensures
        r == (if name@.len() == 0 {
            None
        } else {
            Some(name)
        }),
{
    if name.as_str().is_empty() {
        None
    } else {
        Some(name)
    }
}

/// A class field; the spaces are removed from its type name.
pub fn class_field(name: String, raw_typename: &str, offset: i32) -> (r: ClassField)
    ensures
        r.name == name,
        r.typename@ == without_spaces(raw_typename@),
        r.offset == offset,
{
    ClassField { name, typename: strip_spaces(raw_typename), offset }
}

/// How metadata named `name` is read.
pub fn metadata_kind(name: &str) -> (r: MetadataKind)
    ensures
        r == metadata_kind_of(name@),
{
    if str_equal(name, "MNetworkChangeCallback") {
        MetadataKind::NetworkChangeCallback
    } else if str_equal(name, "MNetworkVarNames") {
        MetadataKind::NetworkVarNames
    } else {
        MetadataKind::Unknown
    }
}

/// `MNetworkVarNames` metadata; the spaces are removed from the type name.
pub fn network_var_names(name: String, raw_typename: &str) -> (r: ClassMetadata)
    ensures
        r matches ClassMetadata::NetworkVarNames { name: n, typename: t } && n == name && t@
            == without_spaces(raw_typename@),
{
    ClassMetadata::NetworkVarNames { name, typename: strip_spaces(raw_typename) }
}

/// An enum member; the enumerator's 64-bit value is read as signed.
pub fn enum_member(name: String, raw_value: u64) -> (r: EnumMember)
    ensures
        r.name == name,
        r.value == raw_value as i64,
{
    EnumMember { name, value: raw_value as i64 }
}

/// A type scope with its classes and enums, unless it has neither.
pub fn type_scope(module_name: String, classes: Vec<Class>, enums: Vec<Enum>) -> (r: Option<
    TypeScope,
>)
    ensures
        r == (if classes@.len() == 0 && enums@.len() == 0 {
            None
        } else {
            Some(TypeScope { module_name, classes, enums })
        }),
{
    if classes.len() == 0 && enums.len() == 0 {
        None
    } else {
        Some(TypeScope { module_name, classes, enums })
    }
}

/// The classes and enums of each module, from its type scopes in order.
pub fn schema_map(scopes: Vec<TypeScope>) -> (r: NameMap<(Vec<Class>, Vec<Enum>)>)
    ensures
        r.wf(),
        r@ == scopes_map(scopes@),
{
    let ghost all = scopes@;
    let mut map: NameMap<(Vec<Class>, Vec<Enum>)> = NameMap::new();
    for scope in it: scopes.into_iter()
        invariant
            map.wf(),
            it.seq() == all,
            map@ == scopes_map(all.take(it.index() as int)),
    {
        proof {
            let k = it.index() as int;
            assert(all.take(k + 1).drop_last() =~= all.take(k));
        }
        map.insert(scope.module_name, (scope.classes, scope.enums));
    }
    proof {
        assert(all.take(all.len() as int) =~= all);
    }
    map
}


// ---------------------------------------------------------------------------
// Finding the schema system
// ---------------------------------------------------------------------------

/// Where the search for the schema system stands.
#[derive(Debug, Clone, Copy, PartialEq, Eq)]
pub enum SearchState {
    /// The interface registration at `at` is next (0: the end of the list).
    Registration { at: u64 },
    /// The schema system's create function at `create_fn` is to be decoded.
    Code { create_fn: u64, next: u64 },
    /// A pointer to the instance is at `at`.
    Pointer { at: u64, next: u64 },
    /// An instance is at `at`; it counts only when it has registrations.
    System { at: u64, next: u64 },
    /// The schema system is at `at`.
    Found { at: u64 },
}

/// What was read for the search.
#[derive(Debug, Clone, PartialEq, Eq)]
pub enum SearchEvent {
    /// A registration: its name, its create function and the next registration.
    Registration { name: String, create_fn: u64, next: u64 },
    /// The 7 bytes of code at the create function.
    Code(Vec<u8>),
    /// The pointer to the instance.
    Pointer(u64),
    /// The instance's registration count.
    System { registration_count: u64 },
}

/// What the search needs next.
#[derive(Debug, Clone, Copy, PartialEq, Eq)]
pub enum SearchAction {
    /// Read the registration (create function, name, next) at this address.
    ReadRegistration(u64),
    /// Read the 7 bytes of code at this address.
    ReadCode(u64),
    /// Read the pointer at this address.
    ReadPointer(u64),
    /// Read the schema system instance at this address.
    ReadSystem(u64),
    /// The schema system is the instance at this address.
    Found(u64),
    /// No registration leads to a registered schema system.
    NotFound,
}

/// The search starts at the head of the module's interface list.
pub open spec fn search_start(head: u64) -> SearchState {
    SearchState::Registration { at: head }
}

/// What the search in state `s` needs next.
pub open spec fn search_action(s: SearchState) -> SearchAction {
    match s {
        SearchState::Registration { at } => if at == 0 {
            SearchAction::NotFound
        } else {
            SearchAction::ReadRegistration(at)
        },
        SearchState::Code { create_fn, next: _ } => SearchAction::ReadCode(create_fn),
        SearchState::Pointer { at, next: _ } => SearchAction::ReadPointer(at),
        SearchState::System { at, next: _ } => SearchAction::ReadSystem(at),
        SearchState::Found { at } => SearchAction::Found(at),
    }
}

/// The state after the event `ev`: the registration named `SchemaSystem_001` has its
/// code decoded; a `lea` leads to the instance, a `mov` to a pointer to it (none when
/// null); an instance with no registrations does not count. Every dead end goes on
/// with the next registration. An event the state does not wait for changes nothing.
pub open spec fn search_next(s: SearchState, ev: SearchEvent) -> SearchState {
    match s {
        SearchState::Registration { at } => match ev {
            SearchEvent::Registration { name, create_fn, next } => if at == 0 {
                s
            } else if name@ == schema_system_interface_name() {
                SearchState::Code { create_fn, next }
            } else {
                SearchState::Registration { at: next }
            },
            _ => s,
        },
        SearchState::Code { create_fn, next } => match ev {
            SearchEvent::Code(code) => match schema_system_ref(create_fn, code@) {
                Some(SchemaSystemRef::Instance(at)) => SearchState::System { at, next },
                Some(SchemaSystemRef::Pointer(at)) => SearchState::Pointer { at, next },
                None => SearchState::Registration { at: next },
            },
            _ => s,
        },
        SearchState::Pointer { at: _, next } => match ev {
            SearchEvent::Pointer(p) => if p == 0 {
                SearchState::Registration { at: next }
            } else {
                SearchState::System { at: p, next }
            },
            _ => s,
        },
        SearchState::System { at, next } => match ev {
            SearchEvent::System { registration_count } => if registration_count > 0 {
                SearchState::Found { at }
            } else {
                SearchState::Registration { at: next }
            },
            _ => s,
        },
        SearchState::Found { .. } => s,
    }
}

/// One step of the search: the next state and what it needs.
pub open spec fn search_step(s: SearchState, ev: SearchEvent) -> (SearchState, SearchAction) {
    let t = search_next(s, ev);
    (t, search_action(t))
}

/// Whether the code in `ev`, if any, is long enough to decode (the create function's
/// code is read 7 bytes at a time).
pub open spec fn code_complete(ev: SearchEvent) -> bool {
    ev matches SearchEvent::Code(code) ==> (loads_rip_relative(code@) ==> code@.len() >= 7)
}

/// The search for the schema system along a module's interface registrations. Any
/// `SearchState` is one the search can be in, so the state carries no invariant.
pub struct SchemaSearch {
    state: SearchState,
}

impl SchemaSearch {
    /// Where the search stands.
    pub closed spec fn state(&self) -> SearchState {
        self.state
    }

    /// Starts at the list head `head`.
    pub fn new(head: u64) -> (r: SchemaSearch)
        ensures
            r.state() == search_start(head),
    {
        SchemaSearch { state: SearchState::Registration { at: head } }
    }

    /// What the search needs next.
    pub fn action(&self) -> (a: SearchAction)
        ensures
            a == search_action(self.state()),
    {
        match self.state {
            SearchState::Registration { at } => if at == 0 {
                SearchAction::NotFound
            } else {
                SearchAction::ReadRegistration(at)
            },
            SearchState::Code { create_fn, next: _ } => SearchAction::ReadCode(create_fn),
            SearchState::Pointer { at, next: _ } => SearchAction::ReadPointer(at),
            SearchState::System { at, next: _ } => SearchAction::ReadSystem(at),
            SearchState::Found { at } => SearchAction::Found(at),
        }
    }

    /// Takes what was read and tells what is needed next.
    pub fn step(&mut self, ev: SearchEvent) -> (a: SearchAction)
        requires
            code_complete(ev),
        ensures
            (final(self).state(), a) == search_step(old(self).state(), ev),
    {
        let next_state = match self.state {
            SearchState::Registration { at } => match ev {
                SearchEvent::Registration { name, create_fn, next } => if at == 0 {
                    self.state
                } else if is_schema_system_interface(name.as_str()) {
                    SearchState::Code { create_fn, next }
                } else {
                    SearchState::Registration { at: next }
                },
                _ => self.state,
            },
            SearchState::Code { create_fn, next } => match ev {
                SearchEvent::Code(code) => match schema_system_access(create_fn, code.as_slice()) {
                    Some(SchemaSystemRef::Instance(at)) => SearchState::System { at, next },
                    Some(SchemaSystemRef::Pointer(at)) => SearchState::Pointer { at, next },
                    None => SearchState::Registration { at: next },
                },
                _ => self.state,
            },
            SearchState::Pointer { at: _, next } => match ev {
                SearchEvent::Pointer(p) => if p == 0 {
                    SearchState::Registration { at: next }
                } else {
                    SearchState::System { at: p, next }
                },
                _ => self.state,
            },
            SearchState::System { at, next } => match ev {
                SearchEvent::System { registration_count } => if registration_count > 0 {
                    SearchState::Found { at }
                } else {
                    SearchState::Registration { at: next }
                },
                _ => self.state,
            },
            SearchState::Found { .. } => self.state,
        };
        self.state = next_state;
        self.action()
    }
}

// ---------------------------------------------------------------------------
// Class and enum bindings
// ---------------------------------------------------------------------------

/// Why a class or enum binding gives no class or enum.
#[derive(Debug, Clone, Copy, PartialEq, Eq)]
pub enum BindingError {
    /// The binding has an empty name.
    EmptyName,
}

/// A class from the parts read of its binding: its name (which must not be empty),
/// its scope's module name (which gets the `.so` suffix), its parent, fields and
/// metadata.
pub fn class_from_parts(
    name: String,
    module_raw: String,
    parent_name: Option<String>,
    fields: Vec<ClassField>,
    metadata: Vec<ClassMetadata>,
) -> (r: Result<Class, BindingError>)
    ensures
        match r {
            Err(e) => name@.len() == 0 && e == BindingError::EmptyName,
            Ok(c) => {
                &&& name@.len() > 0
                &&& c.name == name
                &&& c.module_name@ == module_raw@ + ".so"@
                &&& c.parent_name == parent_name
                &&& c.fields == fields
                &&& c.metadata == metadata
            },
        },
{
    if name.as_str().is_empty() {
        return Err(BindingError::EmptyName);
    }
    let module_name = schema_module_name(module_raw.as_str());
    Ok(Class { name, module_name, parent_name, metadata, fields })
}

/// An enum from the parts read of its binding; its name must not be empty.
pub fn enum_from_parts(name: String, alignment: u8, size: u16, members: Vec<EnumMember>) -> (r:
    Result<Enum, BindingError>)
    ensures
        match r {
            Err(e) => name@.len() == 0 && e == BindingError::EmptyName,
            Ok(en) => name@.len() > 0 && en == (Enum { name, alignment, size, members }),
        },
{
    if name.as_str().is_empty() {
        return Err(BindingError::EmptyName);
    }
    Ok(Enum { name, alignment, size, members })
}

/// Where the lookup of a class's parent name stands.
#[derive(Debug, Clone, PartialEq, Eq)]
pub enum ParentState {
    /// The base class record at `at` is next.
    BaseClass { at: u64 },
    /// The name of the parent class binding at `at` is next.
    ClassName { at: u64 },
    /// The lookup is over.
    Done(Option<String>),
}

/// What was read for the parent lookup.
#[derive(Debug, Clone, PartialEq, Eq)]
pub enum ParentEvent {
    /// The base class record, pointing at the parent's class binding.
    BaseClass { class: u64 },
    /// The parent's name.
    Name(String),
    /// A read failed.
    Failed,
}

/// What the parent lookup needs next.
#[derive(Debug, Clone, Copy, PartialEq, Eq)]
pub enum ParentAction {
    /// Read the base class record at this address.
    ReadBaseClass(u64),
    /// Read the class binding at this address and its name.
    ReadClassName(u64),
    /// The lookup is over.
    Done,
}

/// A class whose binding has no base classes (a null pointer) has no parent.
pub open spec fn parent_start(base_classes: u64) -> ParentState {
    if base_classes == 0 {
        ParentState::Done(None)
    } else {
        ParentState::BaseClass { at: base_classes }
    }
}

/// The parent lookup after `ev`: any failed read, or an empty name, means no parent.
pub open spec fn parent_next(s: ParentState, ev: ParentEvent) -> ParentState {
    match s {
        ParentState::BaseClass { .. } => match ev {
            ParentEvent::BaseClass { class } => ParentState::ClassName { at: class },
            ParentEvent::Failed => ParentState::Done(None),
            _ => s,
        },
        ParentState::ClassName { .. } => match ev {
            ParentEvent::Name(name) => ParentState::Done(
                if name@.len() == 0 {
                    None
                } else {
                    Some(name)
                },
            ),
            ParentEvent::Failed => ParentState::Done(None),
            _ => s,
        },
        ParentState::Done(_) => s,
    }
}

/// What the parent lookup in state `s` needs next.
pub open spec fn parent_action(s: ParentState) -> ParentAction {
    match s {
        ParentState::BaseClass { at } => ParentAction::ReadBaseClass(at),
        ParentState::ClassName { at } => ParentAction::ReadClassName(at),
        ParentState::Done(_) => ParentAction::Done,
    }
}

/// The lookup of a class's parent name through its first base class.
pub struct ParentLookup {
    state: ParentState,
}

impl ParentLookup {
    pub closed spec fn state(&self) -> ParentState {
        self.state
    }

    /// A finished lookup holds no empty name.
    pub closed spec fn wf(&self) -> bool {
        self.state matches ParentState::Done(Some(name)) ==> name@.len() > 0
    }

    /// Starts from the binding's base class pointer.
    pub fn new(base_classes: u64) -> (r: ParentLookup)
        ensures
            r.wf(),
            r.state() == parent_start(base_classes),
    {
        if base_classes == 0 {
            ParentLookup { state: ParentState::Done(None) }
        } else {
            ParentLookup { state: ParentState::BaseClass { at: base_classes } }
        }
    }

    /// What the lookup needs next.
    pub fn action(&self) -> (a: ParentAction)
        ensures
            a == parent_action(self.state()),
    {
        match &self.state {
            ParentState::BaseClass { at } => ParentAction::ReadBaseClass(*at),
            ParentState::ClassName { at } => ParentAction::ReadClassName(*at),
            ParentState::Done(_) => ParentAction::Done,
        }
    }

    /// Takes what was read and tells what is needed next.
    pub fn step(&mut self, ev: ParentEvent) -> (a: ParentAction)
        requires
            old(self).wf(),
        ensures
            final(self).wf(),
            final(self).state() == parent_next(old(self).state(), ev),
            a == parent_action(final(self).state()),
    {
        let is_base = match &self.state {
            ParentState::BaseClass { .. } => true,
            _ => false,
        };
        let is_name = match &self.state {
            ParentState::ClassName { .. } => true,
            _ => false,
        };
        if is_base {
            match ev {
                ParentEvent::BaseClass { class } => {
                    self.state = ParentState::ClassName { at: class };
                },
                ParentEvent::Failed => {
                    self.state = ParentState::Done(None);
                },
                _ => {},
            }
        } else if is_name {
            match ev {
                ParentEvent::Name(name) => {
                    self.state = ParentState::Done(nonempty_name(name));
                },
                ParentEvent::Failed => {
                    self.state = ParentState::Done(None);
                },
                _ => {},
            }
        }
        self.action()
    }

    /// The parent name found, if the lookup is over with one.
    pub fn finish(self) -> (r: Option<String>)
        requires
            self.wf(),
        ensures
            r matches Some(name) ==> name@.len() > 0,
            r == (match self.state() {
                ParentState::Done(p) => p,
                _ => None,
            }),
    {
        match self.state {
            ParentState::Done(p) => p,
            _ => None,
        }
    }
}

// ---------------------------------------------------------------------------
// Fields, metadata and enum members
// ---------------------------------------------------------------------------

/// Which list of a binding is walked.
#[derive(Debug, Clone, Copy, PartialEq, Eq, Structural)]
pub enum ListKind {
    /// A class binding's fields.
    Fields,
    /// A class binding's static metadata.
    Metadata,
    /// An enum binding's enumerators.
    Members,
}

/// Where the walk stands within the current element.
#[derive(Debug, Clone, Copy, PartialEq, Eq, Structural)]
pub enum ElementPhase {
    /// The element at the current index is next.
    Entry,
    /// A field with a type: its name and type name are next.
    FieldNames { offset: i32 },
    /// Metadata with a network value: its name (and the value) are next.
    MetadataName,
    /// `MNetworkChangeCallback` metadata: the callback name is next.
    CallbackName,
    /// `MNetworkVarNames` metadata: the variable name and type name are next.
    VarNames,
}

/// What was read for the list walk.
#[derive(Debug, Clone, PartialEq, Eq)]
pub enum ElementEvent {
    /// A field entry: its type pointer and offset.
    Field { type_ptr: u64, offset: i32 },
    /// The field's name and the name of its type.
    FieldNames { name: String, raw_typename: String },
    /// A metadata entry: its network value pointer.
    Metadata { network_value: u64 },
    /// The metadata's name (its network value was read with it).
    MetadataName(String),
    /// The callback name of `MNetworkChangeCallback` metadata.
    CallbackName(String),
    /// The variable name and type name of `MNetworkVarNames` metadata.
    VarNames { name: String, raw_typename: String },
    /// An enumerator: its name and raw 64-bit value.
    Enumerator { name: String, raw_value: u64 },
    /// A read failed.
    Failed,
}

/// What the list walk needs next.
#[derive(Debug, Clone, Copy, PartialEq, Eq)]
pub enum ElementAction {
    /// Read the field entry with this index.
    ReadField(u64),
    /// Read the current field's name, its type and the type's name.
    ReadFieldNames,
    /// Read the metadata entry with this index.
    ReadMetadata(u64),
    /// Read the current metadata's name and network value.
    ReadMetadataName,
    /// Read the callback name of the current network value.
    ReadCallbackName,
    /// Read the variable name and type name of the current network value.
    ReadVarNames,
    /// Read the enumerator with this index and its name.
    ReadEnumerator(u64),
    /// The list is complete.
    Done,
    /// A read failed: the whole list is lost.
    Failed,
}

/// A piece of metadata by its names.
pub enum MetadataView {
    Unknown(Seq<char>),
    NetworkChangeCallback(Seq<char>),
    NetworkVarNames(Seq<char>, Seq<char>),
}

pub open spec fn field_view(f: ClassField) -> (Seq<char>, Seq<char>, i32) {
    (f.name@, f.typename@, f.offset)
}

pub open spec fn metadata_view(m: ClassMetadata) -> MetadataView {
    match m {
        ClassMetadata::Unknown { name } => MetadataView::Unknown(name@),
        ClassMetadata::NetworkChangeCallback { name } => MetadataView::NetworkChangeCallback(name@),
        ClassMetadata::NetworkVarNames { name, typename } => MetadataView::NetworkVarNames(
            name@,
            typename@,
        ),
    }
}

pub open spec fn member_view(m: EnumMember) -> (Seq<char>, i64) {
    (m.name@, m.value)
}

/// The state of a list walk, with the elements found by their names.
pub struct ListView {
    pub kind: ListKind,
    pub count: u64,
    pub index: u64,
    pub phase: ElementPhase,
    pub failed: bool,
    pub fields: Seq<(Seq<char>, Seq<char>, i32)>,
    pub metadata: Seq<MetadataView>,
    pub members: Seq<(Seq<char>, i64)>,
}

/// A list at `list_ptr` of `count` elements; a null list has none.
pub open spec fn list_start(kind: ListKind, list_ptr: u64, count: u64) -> ListView {
    ListView {
        kind,
        count: if list_ptr == 0 {
            0
        } else {
            count
        },
        index: 0,
        phase: ElementPhase::Entry,
        failed: false,
        fields: Seq::empty(),
        metadata: Seq::empty(),
        members: Seq::empty(),
    }
}

/// Whether every element has been handled.
pub open spec fn list_done(s: ListView) -> bool {
    s.phase == ElementPhase::Entry && s.index >= s.count
}

/// The walk moves on to the next element.
pub open spec fn list_advance(s: ListView) -> ListView {
    ListView { index: (s.index + 1) as u64, phase: ElementPhase::Entry, ..s }
}

/// The list walk after `ev`: a failed read loses the whole list; a field without a
/// type and metadata without a network value are skipped; the metadata name decides
/// what else is read of it; field and variable type names lose their spaces; an
/// enumerator's value is read as signed. An event the walk does not wait for
/// changes nothing.
pub open spec fn list_next(s: ListView, ev: ElementEvent) -> ListView {
    if s.failed || list_done(s) {
        s
    } else {
        match ev {
            ElementEvent::Failed => ListView { failed: true, ..s },
            ElementEvent::Field { type_ptr, offset } => if s.kind == ListKind::Fields && s.phase
                == ElementPhase::Entry {
                if type_ptr == 0 {
                    list_advance(s)
                } else {
                    ListView { phase: ElementPhase::FieldNames { offset }, ..s }
                }
            } else {
                s
            },
            ElementEvent::FieldNames { name, raw_typename } => match s.phase {
                ElementPhase::FieldNames { offset } => list_advance(
                    ListView {
                        fields: s.fields.push((name@, without_spaces(raw_typename@), offset)),
                        ..s
                    },
                ),
                _ => s,
            },
            ElementEvent::Metadata { network_value } => if s.kind == ListKind::Metadata
                && s.phase == ElementPhase::Entry {
                if network_value == 0 {
                    list_advance(s)
                } else {
                    ListView { phase: ElementPhase::MetadataName, ..s }
                }
            } else {
                s
            },
            ElementEvent::MetadataName(name) => if s.phase == ElementPhase::MetadataName {
                match metadata_kind_of(name@) {
                    MetadataKind::NetworkChangeCallback => ListView {
                        phase: ElementPhase::CallbackName,
                        ..s
                    },
                    MetadataKind::NetworkVarNames => ListView {
                        phase: ElementPhase::VarNames,
                        ..s
                    },
                    MetadataKind::Unknown => list_advance(
                        ListView { metadata: s.metadata.push(MetadataView::Unknown(name@)), ..s },
                    ),
                }
            } else {
                s
            },
            ElementEvent::CallbackName(name) => if s.phase == ElementPhase::CallbackName {
                list_advance(
                    ListView {
                        metadata: s.metadata.push(MetadataView::NetworkChangeCallback(name@)),
                        ..s
                    },
                )
            } else {
                s
            },
            ElementEvent::VarNames { name, raw_typename } => if s.phase
                == ElementPhase::VarNames {
                list_advance(
                    ListView {
                        metadata: s.metadata.push(
                            MetadataView::NetworkVarNames(name@, without_spaces(raw_typename@)),
                        ),
                        ..s
                    },
                )
            } else {
                s
            },
            ElementEvent::Enumerator { name, raw_value } => if s.kind == ListKind::Members
                && s.phase == ElementPhase::Entry {
                list_advance(
                    ListView { members: s.members.push((name@, raw_value as i64)), ..s },
                )
            } else {
                s
            },
        }
    }
}

/// What the list walk in state `s` needs next.
pub open spec fn list_action(s: ListView) -> ElementAction {
    if s.failed {
        ElementAction::Failed
    } else {
        match s.phase {
            ElementPhase::Entry => if s.index >= s.count {
                ElementAction::Done
            } else {
                match s.kind {
                    ListKind::Fields => ElementAction::ReadField(s.index),
                    ListKind::Metadata => ElementAction::ReadMetadata(s.index),
                    ListKind::Members => ElementAction::ReadEnumerator(s.index),
                }
            },
            ElementPhase::FieldNames { .. } => ElementAction::ReadFieldNames,
            ElementPhase::MetadataName => ElementAction::ReadMetadataName,
            ElementPhase::CallbackName => ElementAction::ReadCallbackName,
            ElementPhase::VarNames => ElementAction::ReadVarNames,
        }
    }
}

/// A walk over one list of a binding: its fields, its metadata or its enumerators.
pub struct BindingListWalk {
    kind: ListKind,
    count: u64,
    index: u64,
    phase: ElementPhase,
    failed: bool,
    fields: Vec<ClassField>,
    metadata: Vec<ClassMetadata>,
    members: Vec<EnumMember>,
}

impl BindingListWalk {
    /// The state of the walk.
    pub closed spec fn state(&self) -> ListView {
        ListView {
            kind: self.kind,
            count: self.count,
            index: self.index,
            phase: self.phase,
            failed: self.failed,
            fields: self.fields@.map_values(|f: ClassField| field_view(f)),
            metadata: self.metadata@.map_values(|m: ClassMetadata| metadata_view(m)),
            members: self.members@.map_values(|m: EnumMember| member_view(m)),
        }
    }

    pub closed spec fn wf(&self) -> bool {
        &&& self.index <= self.count
        &&& self.phase != ElementPhase::Entry ==> self.index < self.count
    }

    /// Starts a walk over the `count` elements of the list at `list_ptr`.
    pub fn new(kind: ListKind, list_ptr: u64, count: u64) -> (r: BindingListWalk)
        ensures
            r.wf(),
            r.state() == list_start(kind, list_ptr, count),
    {
        let r = BindingListWalk {
            kind,
            count: if list_ptr == 0 {
                0
            } else {
                count
            },
            index: 0,
            phase: ElementPhase::Entry,
            failed: false,
            fields: Vec::new(),
            metadata: Vec::new(),
            members: Vec::new(),
        };
        assert(r.state().fields =~= Seq::<(Seq<char>, Seq<char>, i32)>::empty());
        assert(r.state().metadata =~= Seq::<MetadataView>::empty());
        assert(r.state().members =~= Seq::<(Seq<char>, i64)>::empty());
        r
    }

    /// What the walk needs next.
    pub fn action(&self) -> (a: ElementAction)
        ensures
            a == list_action(self.state()),
    {
        if self.failed {
            return ElementAction::Failed;
        }
        match self.phase {
            ElementPhase::Entry => if self.index >= self.count {
                ElementAction::Done
            } else {
                match self.kind {
                    ListKind::Fields => ElementAction::ReadField(self.index),
                    ListKind::Metadata => ElementAction::ReadMetadata(self.index),
                    ListKind::Members => ElementAction::ReadEnumerator(self.index),
                }
            },
            ElementPhase::FieldNames { .. } => ElementAction::ReadFieldNames,
            ElementPhase::MetadataName => ElementAction::ReadMetadataName,
            ElementPhase::CallbackName => ElementAction::ReadCallbackName,
            ElementPhase::VarNames => ElementAction::ReadVarNames,
        }
    }

    /// Moves on to the next element.
    fn advance(&mut self)
        requires
            old(self).wf(),
            old(self).index < old(self).count,
        ensures
            final(self).wf(),
            final(self).state() == list_advance(old(self).state()),
    {
        self.index = self.index + 1;
        self.phase = ElementPhase::Entry;
    }

    /// Takes what was read and tells what is needed next.
    pub fn step(&mut self, ev: ElementEvent) -> (a: ElementAction)
        requires
            old(self).wf(),
        ensures
            final(self).wf(),
            final(self).state() == list_next(old(self).state(), ev),
            a == list_action(final(self).state()),
    {
        let done = self.phase == ElementPhase::Entry && self.index >= self.count;
        if self.failed || done {
            return self.action();
        }
        let ghost before = self.state();
        match ev {
            ElementEvent::Failed => {
                self.failed = true;
            },
            ElementEvent::Field { type_ptr, offset } => {
                if self.kind == ListKind::Fields && self.phase == ElementPhase::Entry {
                    if type_ptr == 0 {
                        self.advance();
                    } else {
                        self.phase = ElementPhase::FieldNames { offset };
                    }
                }
            },
            ElementEvent::FieldNames { name, raw_typename } => {
                match self.phase {
                    ElementPhase::FieldNames { offset } => {
                        let field = class_field(name, raw_typename.as_str(), offset);
                        let ghost fields = self.fields@;
                        self.fields.push(field);
                        assert(self.fields@.map_values(|f: ClassField| field_view(f))
                            =~= fields.map_values(|f: ClassField| field_view(f)).push(
                            field_view(field),
                        ));
                        self.advance();
                    },
                    _ => {},
                }
            },
            ElementEvent::Metadata { network_value } => {
                if self.kind == ListKind::Metadata && self.phase == ElementPhase::Entry {
                    if network_value == 0 {
                        self.advance();
                    } else {
                        self.phase = ElementPhase::MetadataName;
                    }
                }
            },
            ElementEvent::MetadataName(name) => {
                if self.phase == ElementPhase::MetadataName {
                    match metadata_kind(name.as_str()) {
                        MetadataKind::NetworkChangeCallback => {
                            self.phase = ElementPhase::CallbackName;
                        },
                        MetadataKind::NetworkVarNames => {
                            self.phase = ElementPhase::VarNames;
                        },
                        MetadataKind::Unknown => {
                            let m = ClassMetadata::Unknown { name };
                            self.push_metadata(m);
                            self.advance();
                        },
                    }
                }
            },
            ElementEvent::CallbackName(name) => {
                if self.phase == ElementPhase::CallbackName {
                    let m = ClassMetadata::NetworkChangeCallback { name };
                    self.push_metadata(m);
                    self.advance();
                }
            },
            ElementEvent::VarNames { name, raw_typename } => {
                if self.phase == ElementPhase::VarNames {
                    let m = network_var_names(name, raw_typename.as_str());
                    self.push_metadata(m);
                    self.advance();
                }
            },
            ElementEvent::Enumerator { name, raw_value } => {
                if self.kind == ListKind::Members && self.phase == ElementPhase::Entry {
                    let member = enum_member(name, raw_value);
                    let ghost members = self.members@;
                    self.members.push(member);
                    assert(self.members@.map_values(|m: EnumMember| member_view(m))
                        =~= members.map_values(|m: EnumMember| member_view(m)).push(
                        member_view(member),
                    ));
                    self.advance();
                }
            },
        }
        self.action()
    }

    /// Adds a piece of metadata to those found.
    fn push_metadata(&mut self, m: ClassMetadata)
        ensures
            final(self).state() == (ListView {
                metadata: old(self).state().metadata.push(metadata_view(m)),
                ..old(self).state()
            }),
            final(self).wf() == old(self).wf(),
            final(self).index == old(self).index,
            final(self).count == old(self).count,
            final(self).phase == old(self).phase,
    {
        let ghost metadata = self.metadata@;
        self.metadata.push(m);
        assert(self.metadata@.map_values(|x: ClassMetadata| metadata_view(x))
            =~= metadata.map_values(|x: ClassMetadata| metadata_view(x)).push(metadata_view(m)));
    }

    /// The fields found, or `None` when a read failed.
    pub fn into_fields(self) -> (r: Option<Vec<ClassField>>)
        ensures
            r is None <==> self.state().failed,
            r matches Some(v) ==> v@.map_values(|f: ClassField| field_view(f))
                == self.state().fields,
    {
        if self.failed {
            None
        } else {
            Some(self.fields)
        }
    }

    /// The metadata found, or `None` when a read failed.
    pub fn into_metadata(self) -> (r: Option<Vec<ClassMetadata>>)
        ensures
            r is None <==> self.state().failed,
            r matches Some(v) ==> v@.map_values(|m: ClassMetadata| metadata_view(m))
                == self.state().metadata,
    {
        if self.failed {
            None
        } else {
            Some(self.metadata)
        }
    }

    /// The enum members found, or `None` when a read failed.
    pub fn into_members(self) -> (r: Option<Vec<EnumMember>>)
        ensures
            r is None <==> self.state().failed,
            r matches Some(v) ==> v@.map_values(|m: EnumMember| member_view(m))
                == self.state().members,
    {
        if self.failed {
            None
        } else {
            Some(self.members)
        }
    }
}

// ---------------------------------------------------------------------------
// Type scopes
// ---------------------------------------------------------------------------

/// Where the walk over the type scopes stands.
#[derive(Debug, Clone, Copy, PartialEq, Eq, Structural)]
pub enum ScopePhase {
    /// The scope at the current index is next.
    Entry,
    /// The current scope's class and enum bindings are being read.
    Bindings,
}

/// What was read for the type scope walk.
#[derive(Debug, Clone)]
pub enum ScopeEvent {
    /// The scope at the current index, by its module name.
    Scope { module_name: String },
    /// A class binding of the current scope: `None` when reading it failed.
    Class(Option<Class>),
    /// An enum binding of the current scope: `None` when reading it failed.
    Enum(Option<Enum>),
    /// All bindings of the current scope are read.
    EndScope,
    /// Reading a scope failed.
    Failed,
}

/// What the type scope walk needs next.
#[derive(Debug, Clone, Copy, PartialEq, Eq)]
pub enum ScopeAction {
    /// Read the scope with this index.
    ReadScope(u64),
    /// Read the current scope's class and enum bindings, then end the scope.
    ReadBindings,
    /// All scopes are read.
    Done,
    /// Reading a scope failed: the whole walk is lost.
    Failed,
}

/// A type scope by its module name, classes and enums.
pub open spec fn scope_view(t: TypeScope) -> (Seq<char>, Seq<Class>, Seq<Enum>) {
    (t.module_name@, t.classes@, t.enums@)
}

/// The state of a type scope walk.
pub struct ScopeView {
    pub count: u64,
    pub index: u64,
    pub phase: ScopePhase,
    pub failed: bool,
    pub name: Seq<char>,
    pub classes: Seq<Class>,
    pub enums: Seq<Enum>,
    pub scopes: Seq<(Seq<char>, Seq<Class>, Seq<Enum>)>,
}

/// A walk over `count` scopes.
pub open spec fn scope_start(count: u64) -> ScopeView {
    ScopeView {
        count,
        index: 0,
        phase: ScopePhase::Entry,
        failed: false,
        name: Seq::empty(),
        classes: Seq::empty(),
        enums: Seq::empty(),
        scopes: Seq::empty(),
    }
}

/// Whether every scope has been read.
pub open spec fn scopes_done(s: ScopeView) -> bool {
    s.phase == ScopePhase::Entry && s.index >= s.count
}

/// The walk after `ev`: a failed scope read loses the walk; a failed binding is
/// dropped; a scope with neither classes nor enums is dropped; the scopes keep their
/// order. An event the walk does not wait for changes nothing.
pub open spec fn scope_next(s: ScopeView, ev: ScopeEvent) -> ScopeView {
    if s.failed || scopes_done(s) {
        s
    } else {
        match ev {
            ScopeEvent::Failed => ScopeView { failed: true, ..s },
            ScopeEvent::Scope { module_name } => if s.phase == ScopePhase::Entry {
                ScopeView {
                    phase: ScopePhase::Bindings,
                    name: module_name@,
                    classes: Seq::empty(),
                    enums: Seq::empty(),
                    ..s
                }
            } else {
                s
            },
            ScopeEvent::Class(c) => match c {
                Some(c) => if s.phase == ScopePhase::Bindings {
                    ScopeView { classes: s.classes.push(c), ..s }
                } else {
                    s
                },
                None => s,
            },
            ScopeEvent::Enum(e) => match e {
                Some(e) => if s.phase == ScopePhase::Bindings {
                    ScopeView { enums: s.enums.push(e), ..s }
                } else {
                    s
                },
                None => s,
            },
            ScopeEvent::EndScope => if s.phase == ScopePhase::Bindings {
                ScopeView {
                    index: (s.index + 1) as u64,
                    phase: ScopePhase::Entry,
                    scopes: if s.classes.len() == 0 && s.enums.len() == 0 {
                        s.scopes
                    } else {
                        s.scopes.push((s.name, s.classes, s.enums))
                    },
                    name: Seq::empty(),
                    classes: Seq::empty(),
                    enums: Seq::empty(),
                    ..s
                }
            } else {
                s
            },
        }
    }
}

/// What the walk in state `s` needs next.
pub open spec fn scope_action(s: ScopeView) -> ScopeAction {
    if s.failed {
        ScopeAction::Failed
    } else if s.phase == ScopePhase::Bindings {
        ScopeAction::ReadBindings
    } else if s.index >= s.count {
        ScopeAction::Done
    } else {
        ScopeAction::ReadScope(s.index)
    }
}

/// A walk over the schema system's type scopes.
pub struct ScopeWalk {
    count: u64,
    index: u64,
    phase: ScopePhase,
    failed: bool,
    name: String,
    classes: Vec<Class>,
    enums: Vec<Enum>,
    scopes: Vec<TypeScope>,
}

impl ScopeWalk {
    /// The state of the walk.
    pub closed spec fn state(&self) -> ScopeView {
        ScopeView {
            count: self.count,
            index: self.index,
            phase: self.phase,
            failed: self.failed,
            name: self.name@,
            classes: self.classes@,
            enums: self.enums@,
            scopes: self.scopes@.map_values(|t: TypeScope| scope_view(t)),
        }
    }

    pub closed spec fn wf(&self) -> bool {
        &&& self.index <= self.count
        &&& self.phase == ScopePhase::Bindings ==> self.index < self.count
    }

    /// Starts a walk over `count` scopes.
    pub fn new(count: u64) -> (r: ScopeWalk)
        ensures
            r.wf(),
            r.state() == scope_start(count),
    {
        let r = ScopeWalk {
            count,
            index: 0,
            phase: ScopePhase::Entry,
            failed: false,
            name: String::new(),
            classes: Vec::new(),
            enums: Vec::new(),
            scopes: Vec::new(),
        };
        assert(r.state().scopes =~= Seq::<(Seq<char>, Seq<Class>, Seq<Enum>)>::empty());
        r
    }

    /// What the walk needs next.
    pub fn action(&self) -> (a: ScopeAction)
        ensures
            a == scope_action(self.state()),
    {
        if self.failed {
            ScopeAction::Failed
        } else if self.phase == ScopePhase::Bindings {
            ScopeAction::ReadBindings
        } else if self.index >= self.count {
            ScopeAction::Done
        } else {
            ScopeAction::ReadScope(self.index)
        }
    }

    /// Takes what was read and tells what is needed next.
    pub fn step(&mut self, ev: ScopeEvent) -> (a: ScopeAction)
        requires
            old(self).wf(),
        ensures
            final(self).wf(),
            final(self).state() == scope_next(old(self).state(), ev),
            a == scope_action(final(self).state()),
    {
        let done = self.phase == ScopePhase::Entry && self.index >= self.count;
        if self.failed || done {
            return self.action();
        }
        match ev {
            ScopeEvent::Failed => {
                self.failed = true;
            },
            ScopeEvent::Scope { module_name } => {
                if self.phase == ScopePhase::Entry {
                    self.phase = ScopePhase::Bindings;
                    self.name = module_name;
                    self.classes = Vec::new();
                    self.enums = Vec::new();
                }
            },
            ScopeEvent::Class(c) => {
                if let Some(c) = c {
                    if self.phase == ScopePhase::Bindings {
                        self.classes.push(c);
                    }
                }
            },
            ScopeEvent::Enum(e) => {
                if let Some(e) = e {
                    if self.phase == ScopePhase::Bindings {
                        self.enums.push(e);
                    }
                }
            },
            ScopeEvent::EndScope => {
                if self.phase == ScopePhase::Bindings {
                    let mut name = String::new();
                    let mut classes: Vec<Class> = Vec::new();
                    let mut enums: Vec<Enum> = Vec::new();
                    std::mem::swap(&mut name, &mut self.name);
                    std::mem::swap(&mut classes, &mut self.classes);
                    std::mem::swap(&mut enums, &mut self.enums);
                    let ghost before = self.scopes@;
                    match type_scope(name, classes, enums) {
                        Some(t) => {
                            self.scopes.push(t);
                            assert(self.scopes@.map_values(|x: TypeScope| scope_view(x))
                                =~= before.map_values(|x: TypeScope| scope_view(x)).push(
                                scope_view(t),
                            ));
                        },
                        None => {},
                    }
                    self.index = self.index + 1;
                    self.phase = ScopePhase::Entry;
                }
            },
        }
        self.action()
    }

    /// The type scopes read, in order, or `None` when reading a scope failed.
    pub fn finish(self) -> (r: Option<Vec<TypeScope>>)
        ensures
            r is None <==> self.state().failed,
            r matches Some(v) ==> v@.map_values(|t: TypeScope| scope_view(t))
                == self.state().scopes,
    {
        if self.failed {
            None
        } else {
            Some(self.scopes)
        }
    }
}

} // verus!
