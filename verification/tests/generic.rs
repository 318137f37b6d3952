use netlink_rust::base::Header;
use netlink_rust::generic::{
    AttributeId, Command, Family, FamilyId, Message, MulticastAttributeId, MulticastGroup,
    OperationAttributeId,
};
use netlink_rust::{
    Attribute, ConvertFrom, Error, MessageMode, NativePack, NetlinkErrorKind, Protocol,
};

#[test]
fn check_family_ids() {
    assert_eq!(u16::from(FamilyId::Control), libc::GENL_ID_CTRL as u16);
    assert_eq!(
        u16::from(FamilyId::VirtualFileSystemDiskQuota),
        libc::GENL_ID_VFS_DQUOT as u16
    );
    assert_eq!(u16::from(FamilyId::Raid), libc::GENL_ID_PMCRAID as u16);
}

#[test]
fn check_commands() {
    assert_eq!(u8::from(Command::Unspecified), libc::CTRL_CMD_UNSPEC as u8);
    assert_eq!(u8::from(Command::NewFamily), libc::CTRL_CMD_NEWFAMILY as u8);
    assert_eq!(u8::from(Command::DelFamily), libc::CTRL_CMD_DELFAMILY as u8);
    assert_eq!(u8::from(Command::GetFamily), libc::CTRL_CMD_GETFAMILY as u8);
    assert_eq!(u8::from(Command::NewOps), libc::CTRL_CMD_NEWOPS as u8);
    assert_eq!(u8::from(Command::DelOps), libc::CTRL_CMD_DELOPS as u8);
    assert_eq!(u8::from(Command::GetOps), libc::CTRL_CMD_GETOPS as u8);
    assert_eq!(
        u8::from(Command::NewMulticastGroup),
        libc::CTRL_CMD_NEWMCAST_GRP as u8
    );
    assert_eq!(
        u8::from(Command::DelMulticastGroup),
        libc::CTRL_CMD_DELMCAST_GRP as u8
    );
    assert_eq!(
        u8::from(Command::GetMulticastGroup),
        libc::CTRL_CMD_GETMCAST_GRP as u8
    );
}

#[test]
fn check_attributes() {
    assert_eq!(u16::from(AttributeId::Unspecified), libc::CTRL_ATTR_UNSPEC as u16);
    assert_eq!(u16::from(AttributeId::FamilyId), libc::CTRL_ATTR_FAMILY_ID as u16);
    assert_eq!(
        u16::from(AttributeId::FamilyName),
        libc::CTRL_ATTR_FAMILY_NAME as u16
    );
    assert_eq!(u16::from(AttributeId::Version), libc::CTRL_ATTR_VERSION as u16);
    assert_eq!(u16::from(AttributeId::HeaderSize), libc::CTRL_ATTR_HDRSIZE as u16);
    assert_eq!(
        u16::from(AttributeId::MaximumAttributes),
        libc::CTRL_ATTR_MAXATTR as u16
    );
    assert_eq!(u16::from(AttributeId::Operations), libc::CTRL_ATTR_OPS as u16);
    assert_eq!(
        u16::from(AttributeId::MulticastGroups),
        libc::CTRL_ATTR_MCAST_GROUPS as u16
    );
}

#[test]
fn check_operation_attributes() {
    assert_eq!(
        u16::from(OperationAttributeId::Unspecified),
        libc::CTRL_ATTR_OP_UNSPEC as u16
    );
    assert_eq!(u16::from(OperationAttributeId::Id), libc::CTRL_ATTR_OP_ID as u16);
    assert_eq!(
        u16::from(OperationAttributeId::Flags),
        libc::CTRL_ATTR_OP_FLAGS as u16
    );
}

#[test]
fn check_multicast_attributes() {
    assert_eq!(
        u16::from(MulticastAttributeId::Unspecified),
        libc::CTRL_ATTR_MCAST_GRP_UNSPEC as u16
    );
    assert_eq!(
        u16::from(MulticastAttributeId::Name),
        libc::CTRL_ATTR_MCAST_GRP_NAME as u16
    );
    assert_eq!(
        u16::from(MulticastAttributeId::Id),
        libc::CTRL_ATTR_MCAST_GRP_ID as u16
    );
}

#[test]
fn check_protocols() {
    assert_eq!(i32::from(Protocol::Route), libc::NETLINK_ROUTE);
    assert_eq!(i32::from(Protocol::KObjectUevent), libc::NETLINK_KOBJECT_UEVENT);
    assert_eq!(i32::from(Protocol::Generic), libc::NETLINK_GENERIC);
    assert_eq!(i32::from(Protocol::Connector), libc::NETLINK_CONNECTOR);
    assert_eq!(i32::from(Protocol::Crypto), 20);
    assert_eq!(Protocol::convert_from(16), Some(Protocol::Generic));
    assert_eq!(Protocol::convert_from(21), Some(Protocol::SMC));
    assert_eq!(Protocol::convert_from(22), None);
    assert_eq!(Protocol::convert_from(-1), None);
    assert!(16 == Protocol::Generic);
    assert!(15 != Protocol::Generic);
}

#[test]
fn identifier_conversions() {
    for raw in 0..=255u8 {
        let command = Command::from(raw);
        match Command::convert_from(raw) {
            Some(found) => {
                assert_eq!(found, command);
                assert_eq!(u8::from(found), raw);
                assert!(raw == found);
            }
            None => {
                assert!(raw > 9);
                assert_eq!(command, Command::Unspecified);
            }
        }
    }
    assert_eq!(AttributeId::from(7), AttributeId::MulticastGroups);
    assert_eq!(AttributeId::from(8), AttributeId::Unspecified);
    assert_eq!(AttributeId::convert_from(8), None);
    assert_eq!(FamilyId::convert_from(16), Some(FamilyId::Control));
    assert_eq!(FamilyId::convert_from(19), None);
    assert_eq!(MulticastAttributeId::from(2), MulticastAttributeId::Id);
    assert_eq!(OperationAttributeId::from(3), OperationAttributeId::Unspecified);
}

fn kind_of<T: std::fmt::Debug>(r: Result<T, Error>) -> NetlinkErrorKind {
    match r {
        Err(Error::Netlink(e)) => e.kind,
        other => panic!("unexpected {:?}", other),
    }
}

fn packed(attributes: &[Attribute]) -> Vec<u8> {
    let mut bytes = Vec::new();
    for attribute in attributes {
        let start = bytes.len();
        bytes.resize(start + attribute.pack_size(), 0);
        attribute.pack(&mut bytes[start..]).unwrap();
    }
    bytes
}

fn group(id: u32, name: &str) -> Attribute {
    let inner = packed(&[
        Attribute::new(MulticastAttributeId::Id, id),
        Attribute::new_string_with_nul(MulticastAttributeId::Name, name),
    ]);
    Attribute::new_bytes(1u16, &inner)
}

fn family_payload(id: Option<u16>, name: &str, groups: &[Attribute]) -> Vec<u8> {
    let mut attributes = vec![Attribute::new_string_with_nul(AttributeId::FamilyName, name)];
    if let Some(id) = id {
        attributes.push(Attribute::new(AttributeId::FamilyId, id));
    }
    attributes.push(Attribute::new(AttributeId::Version, 1u32));
    if !groups.is_empty() {
        attributes.push(Attribute::new_bytes(AttributeId::MulticastGroups, &packed(groups)));
    }
    let mut payload = vec![1u8, 2, 0, 0];
    payload.extend(packed(&attributes));
    payload
}

fn data_message(identifier: u16, payload: Vec<u8>) -> netlink_rust::Message {
    netlink_rust::Message {
        header: Header {
            length: 16 + payload.len() as u32,
            identifier,
            flags: 0,
            sequence: 1,
            pid: 0,
        },
        data: payload,
    }
}

#[test]
fn message_unpack() {
    let payload = family_payload(Some(21), "nlctrl", &[]);
    let (used, message) = Message::unpack(&payload).unwrap();
    assert_eq!(used, payload.len());
    assert_eq!(message.family, 0xffff);
    assert_eq!(message.family(), 0xffff);
    assert_eq!(message.command, 1);
    assert_eq!(message.version, 2);
    assert_eq!(message.flags.bits(), 0);
    assert_eq!(message.attributes.len(), 3);
    assert_eq!(message.attributes[0].as_string().unwrap(), "nlctrl");
    assert_eq!(message.attributes[1].as_u16().unwrap(), 21);
    assert_eq!(kind_of(Message::unpack(&[1, 2, 0])), NetlinkErrorKind::NotEnoughData);
    let (used, message) = Message::unpack(&[1, 2, 0, 0]).unwrap();
    assert_eq!(used, 4);
    assert!(message.attributes.is_empty());
}

#[test]
fn message_builders() {
    let mut message = Message::new(FamilyId::Control, Command::GetFamily, MessageMode::Dump);
    assert_eq!(message.family, 16);
    assert_eq!(message.command, 3);
    assert_eq!(message.version, 1);
    assert_eq!(message.flags.bits(), 0x0301);
    message.set_flags(MessageMode::Acknowledge.into());
    assert_eq!(message.flags.bits(), 0x0005);
    message.append_attribute(Attribute::new_bytes(9u16, &[1]));
    assert_eq!(message.attributes.len(), 1);
    assert_eq!(message.attributes[0].identifier, 9);
}

#[test]
fn requests() {
    let request = Family::name_request("nl80211");
    assert_eq!(request.family, 16);
    assert_eq!(request.command, 3);
    assert_eq!(request.version, 1);
    assert_eq!(request.flags.bits(), 0x0005);
    assert_eq!(request.attributes.len(), 1);
    assert_eq!(request.attributes[0].identifier, 2);
    assert_eq!(request.attributes[0].data, b"nl80211".to_vec());

    let request = Family::id_request(0x1234u16.to_le());
    assert_eq!(request.flags.bits(), 0x0005);
    assert_eq!(request.attributes.len(), 1);
    assert_eq!(request.attributes[0].identifier, 1);
    assert_eq!(request.attributes[0].data, vec![0x34, 0x12]);

    let request = Family::all_request();
    assert_eq!(request.family, 16);
    assert_eq!(request.command, 3);
    assert_eq!(request.flags.bits(), 0x0301);
    assert!(request.attributes.is_empty());
}

#[test]
fn family_from_message() {
    let payload = family_payload(
        Some(28),
        "nl80211",
        &[group(5, "config"), group(6, "scan"), Attribute::new_bytes(3u16, &[])],
    );
    let (_, message) = Message::unpack(&payload).unwrap();
    let family = Family::from_message(message).unwrap();
    assert_eq!(family.id, 28);
    assert_eq!(family.name, "nl80211");
    // the group without identifier is dropped
    assert_eq!(family.multicast_groups.len(), 2);
    assert_eq!(family.multicast_groups[0].id, 5);
    assert_eq!(family.multicast_groups[0].name, "config");
    assert_eq!(family.multicast_groups[1].id, 6);
    assert_eq!(family.multicast_groups[1].name, "scan");
}

#[test]
fn family_without_identifier_is_not_found() {
    let (_, message) = Message::unpack(&family_payload(None, "ghost", &[])).unwrap();
    assert_eq!(kind_of(Family::from_message(message)), NetlinkErrorKind::NotFound);
    let (_, message) = Message::unpack(&family_payload(Some(0), "ghost", &[])).unwrap();
    assert_eq!(kind_of(Family::from_message(message)), NetlinkErrorKind::NotFound);
    let (_, message) = Message::unpack(&[3, 1, 0, 0]).unwrap();
    assert_eq!(kind_of(Family::from_message(message)), NetlinkErrorKind::NotFound);
}

#[test]
fn family_decode_failures() {
    let mut payload = vec![1u8, 2, 0, 0];
    payload.extend(packed(&[Attribute::new_bytes(AttributeId::FamilyId, &[1])]));
    let (_, message) = Message::unpack(&payload).unwrap();
    assert_eq!(kind_of(Family::from_message(message)), NetlinkErrorKind::NotEnoughData);

    let mut payload = vec![1u8, 2, 0, 0];
    payload.extend(packed(&[
        Attribute::new(AttributeId::FamilyId, 7u16),
        Attribute::new_bytes(AttributeId::FamilyName, &[0xff, 0]),
    ]));
    let (_, message) = Message::unpack(&payload).unwrap();
    assert!(matches!(Family::from_message(message), Err(Error::Utf8(_))));

    let bad_group = Attribute::new_bytes(
        1u16,
        &packed(&[Attribute::new_bytes(MulticastAttributeId::Name, &[0xc0])]),
    );
    let (_, message) = Message::unpack(&family_payload(Some(7), "x", &[bad_group])).unwrap();
    assert!(matches!(Family::from_message(message), Err(Error::FromUtf8(_))));
}

#[test]
fn multicast_group_from_bytes() {
    let bytes = packed(&[
        Attribute::new_string_with_nul(MulticastAttributeId::Name, "mlme"),
        Attribute::new(MulticastAttributeId::Id, 9u32),
        Attribute::new_bytes(77u16, &[1, 2, 3]),
    ]);
    let group: MulticastGroup = MulticastGroup::from_bytes(&bytes).unwrap().unwrap();
    assert_eq!(group.id, 9);
    assert_eq!(group.name, "mlme");
    // no identifier: no group
    let bytes = packed(&[Attribute::new_string_with_nul(MulticastAttributeId::Name, "mlme")]);
    assert!(MulticastGroup::from_bytes(&bytes).unwrap().is_none());
    // an identifier that is too short clears an earlier one
    let bytes = packed(&[
        Attribute::new(MulticastAttributeId::Id, 9u32),
        Attribute::new_bytes(MulticastAttributeId::Id, &[1, 2]),
    ]);
    assert!(MulticastGroup::from_bytes(&bytes).unwrap().is_none());
    assert!(MulticastGroup::from_bytes(&[]).unwrap().is_none());
}

#[test]
fn lookup_by_name() {
    let batch = vec![
        data_message(17, family_payload(Some(1), "nl80211", &[])),
        data_message(16, family_payload(Some(20), "nlctrl", &[])),
        data_message(16, family_payload(Some(28), "nl80211", &[group(3, "scan")])),
        data_message(16, family_payload(Some(29), "nl80211", &[])),
    ];
    let family = Family::from_name(&batch, "nl80211").unwrap().unwrap();
    assert_eq!(family.id, 28);
    assert_eq!(family.multicast_groups.len(), 1);
    assert!(Family::from_name(&batch, "nl802").unwrap().is_none());
    // no reply at all: the kernel knows no such family
    assert_eq!(kind_of(Family::from_name(&Vec::new(), "nl80211")), NetlinkErrorKind::NotFound);
    // a reply that does not decode in front of the match ends the lookup
    let batch = vec![
        data_message(16, family_payload(None, "nlctrl", &[])),
        data_message(16, family_payload(Some(28), "nl80211", &[])),
    ];
    assert_eq!(kind_of(Family::from_name(&batch, "nl80211")), NetlinkErrorKind::NotFound);
    let batch = vec![data_message(16, vec![1, 2])];
    assert_eq!(kind_of(Family::from_name(&batch, "nl80211")), NetlinkErrorKind::NotEnoughData);
}

#[test]
fn lookup_by_id() {
    let batch = vec![
        data_message(16, family_payload(Some(20), "nlctrl", &[])),
        data_message(16, family_payload(Some(28), "nl80211", &[])),
    ];
    assert_eq!(Family::from_id(&batch, 28u16).unwrap().unwrap().name, "nl80211");
    assert_eq!(Family::from_id(&batch, 20u8).unwrap().unwrap().name, "nlctrl");
    assert_eq!(Family::with_id(&batch, 20).unwrap().unwrap().name, "nlctrl");
    assert!(Family::from_id(&batch, 21u16).unwrap().is_none());
    assert_eq!(kind_of(Family::from_id(&Vec::new(), 21u16)), NetlinkErrorKind::NotFound);
    assert_eq!(kind_of(Family::with_id(&Vec::new(), 21)), NetlinkErrorKind::NotFound);
    assert!(Family::from_data(&data_message(18, vec![])).unwrap().is_none());
}

#[test]
fn list_all() {
    let batch = vec![
        data_message(16, family_payload(Some(20), "nlctrl", &[])),
        data_message(24, vec![9, 9]),
        data_message(16, family_payload(Some(28), "nl80211", &[group(3, "scan")])),
    ];
    let families = Family::all(&batch).unwrap();
    assert_eq!(families.len(), 2);
    assert_eq!(families[0].id, 20);
    assert_eq!(families[0].name, "nlctrl");
    assert_eq!(families[1].id, 28);
    assert_eq!(families[1].multicast_groups[0].name, "scan");
    assert!(Family::all(&Vec::new()).unwrap().is_empty());
    let batch = vec![
        data_message(16, family_payload(Some(20), "nlctrl", &[])),
        data_message(16, family_payload(None, "ghost", &[])),
    ];
    assert_eq!(kind_of(Family::all(&batch)), NetlinkErrorKind::NotFound);
}
