use az_objectstream::az_uuid::AzUuid;
use az_objectstream::context::{
    ObjectStreamReadContext, ReflectedClass, ReflectedClassKey, ReflectedField, UnregisteredClassPolicy,
};
use az_objectstream::convert::ObjectStreamConverters;
use az_objectstream::error::ObjectStreamError;
use az_objectstream::lookup::LumberyardHashes;
use az_objectstream::reader::{close_binary_element, open_binary_element, BinaryElementHeader, BinaryListEnd, PendingElement};
use az_objectstream::stream::TypeResolutionState;
use az_objectstream::tree::{Element, ObjectStream};

struct NoConverters;

impl ObjectStreamConverters for NoConverters {
    fn convert_version(&self, _: ReflectedClassKey, e: Element, from: u32, to: u32) -> Result<Element, ObjectStreamError> {
        Err(ObjectStreamError::UnsupportedVersionConversion { type_id: e.id, element_version: from, current_version: to })
    }

    fn convert_data(
        &self,
        _: ReflectedClassKey,
        _: Element,
        source_type_id: AzUuid,
        target_type_id: AzUuid,
    ) -> Result<Element, ObjectStreamError> {
        Err(ObjectStreamError::UnsupportedDataConversion { target_type_id, source_type_id })
    }
}

fn header(id: u128, name_crc: Option<u32>) -> BinaryElementHeader {
    BinaryElementHeader {
        flags: 0x08,
        name_crc,
        version: None,
        id: AzUuid::from_u128(id),
        specialization: None,
        data_size: None,
        name: None,
        field: None,
    }
}

fn read(
    events: &[Option<BinaryElementHeader>],
    context: Option<&ObjectStreamReadContext>,
) -> Result<ObjectStream, ObjectStreamError> {
    let mut stream = ObjectStream::new(3);
    let mut stack: Vec<PendingElement> = Vec::new();
    for event in events {
        match event {
            Some(h) => {
                let pending = open_binary_element(h, 3, None, context, &stack)?;
                stack.push(pending);
            }
            None => {
                if close_binary_element(&mut stack, &mut stream, context, &NoConverters, 3)?
                    == BinaryListEnd::RootTerminator
                {
                    break;
                }
            }
        }
    }
    Ok(stream)
}

#[test]
fn raw_read_builds_the_tree_in_wire_order() {
    let events = [
        Some(header(1, None)),
        Some(header(2, Some(7))),
        None,
        Some(header(3, Some(8))),
        None,
        None,
        None,
    ];
    let stream = read(&events, None).unwrap();
    assert_eq!(stream.elements.len(), 1);
    let root = &stream.elements[0];
    assert_eq!(*root.raw_type_id(), AzUuid::from_u128(1));
    assert_eq!(root.type_resolution(), TypeResolutionState::Raw);
    let ids: Vec<u128> = root.children().iter().map(|c| c.raw_type_id().as_u128()).collect();
    assert_eq!(ids, vec![2, 3]);
}

#[test]
fn root_terminator_closes_nothing() {
    let mut stream = ObjectStream::new(3);
    let mut stack: Vec<PendingElement> = Vec::new();
    assert_eq!(
        close_binary_element(&mut stack, &mut stream, None, &NoConverters, 3).unwrap(),
        BinaryListEnd::RootTerminator
    );
    assert!(stream.elements.is_empty());
}

#[test]
fn unregistered_subtree_is_skipped_once_under_the_native_policy() {
    let parent_id = 0x10;
    let mut parent = ReflectedClass::new(AzUuid::from_u128(parent_id));
    parent.insert_field(7, ReflectedField::new(AzUuid::from_u128(0x11)));
    let mut context = ObjectStreamReadContext::default();
    context.insert_class(AzUuid::from_u128(parent_id), parent).unwrap();
    let context = context.with_unregistered_class_policy(UnregisteredClassPolicy::NativeSkip);
    let events = [
        Some(header(parent_id, None)),
        Some(header(0x99, Some(7))),
        Some(header(0x98, Some(1))),
        None,
        None,
        None,
        None,
    ];
    let stream = read(&events, Some(&context)).unwrap();
    assert_eq!(stream.skipped_children, 1);
    assert!(stream.elements[0].is_leaf());
    assert_eq!(stream.elements[0].type_resolution(), TypeResolutionState::Resolved);
}

#[test]
fn unregistered_class_fails_under_the_strict_policy() {
    let context = ObjectStreamReadContext::default();
    let events = [Some(header(0x99, None)), None, None];
    assert!(matches!(read(&events, Some(&context)), Err(ObjectStreamError::UnresolvedElementType { .. })));
}

#[test]
fn resolved_child_is_bound_to_its_parent_field() {
    let parent_id = AzUuid::from_u128(0x20);
    let child_id = AzUuid::from_u128(0x21);
    let mut parent = ReflectedClass::new(parent_id);
    parent.insert_named_field("Value", ReflectedField::new(child_id));
    let mut context = ObjectStreamReadContext::default();
    context.insert_class(parent_id, parent).unwrap();
    let child_class = context.insert_class(child_id, ReflectedClass::new(child_id)).unwrap();
    let crc = az_objectstream::crc::field_name_crc("Value");
    let events = [Some(header(0x20, None)), Some(header(0x21, Some(crc))), None, None, None];
    let stream = read(&events, Some(&context)).unwrap();
    let child = &stream.elements[0].children()[0];
    assert_eq!(child.resolved_class(), Some(child_class));
    assert_eq!(child.field().map(String::as_str), Some("Value"));
}

#[test]
fn header_names_come_from_the_type_table() {
    let id = AzUuid::from_u128(0x30);
    let mut names = LumberyardHashes::new();
    names.insert_type_name(id, "Thing");
    let mut context = ObjectStreamReadContext::new(names, az_objectstream::context::ObjectStreamDialect::O3de);
    context.insert_class(id, ReflectedClass::new(id)).unwrap();
    let mut h = header(0x30, None);
    h.name = Some("WireName".to_string());
    let pending = open_binary_element(&h, 3, Some(context.names()), Some(&context), &[]).unwrap();
    assert_eq!(pending.element.name(), "Thing");
    let raw = open_binary_element(&h, 3, None, None, &[]).unwrap();
    assert_eq!(raw.element.name(), "WireName");
    let with_data = raw.with_payload(vec![1, 2, 3]);
    assert_eq!(with_data.element.data(), Some(&[1u8, 2, 3][..]));
}

#[test]
fn payload_on_a_class_without_serializer_is_rejected() {
    let id = AzUuid::from_u128(0x40);
    let mut context = ObjectStreamReadContext::default();
    context.insert_class(id, ReflectedClass::new(id)).unwrap();
    let mut h = header(0x40, None);
    h.data_size = Some(4);
    assert!(matches!(
        open_binary_element(&h, 3, None, Some(&context), &[]),
        Err(ObjectStreamError::MissingSerializer { type_id }) if type_id == id
    ));
}
