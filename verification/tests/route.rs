use netlink_rust::route::{AddressFamilyAttribute, FamilyId, InterfaceInformationMessage, Message};
use netlink_rust::{Attribute, ConvertFrom, Error, NativePack, NetlinkErrorKind};

#[test]
fn check_route_commands() {
    assert_eq!(u16::from(FamilyId::NewLink), libc::RTM_NEWLINK);
    assert_eq!(u16::from(FamilyId::DeleteLink), libc::RTM_DELLINK);
    assert_eq!(u16::from(FamilyId::GetLink), libc::RTM_GETLINK);
    assert_eq!(u16::from(FamilyId::SetLink), libc::RTM_SETLINK);
    assert_eq!(FamilyId::convert_from(18), Some(FamilyId::GetLink));
    assert_eq!(FamilyId::convert_from(20), None);
    assert!(16 == FamilyId::NewLink);
}

#[test]
fn check_link_attributes() {
    assert_eq!(u16::from(AddressFamilyAttribute::Unspecified), libc::IFLA_UNSPEC);
    assert_eq!(u16::from(AddressFamilyAttribute::Address), libc::IFLA_ADDRESS);
    assert_eq!(u16::from(AddressFamilyAttribute::InterfaceName), libc::IFLA_IFNAME);
    assert_eq!(u16::from(AddressFamilyAttribute::MTU), libc::IFLA_MTU);
    assert_eq!(u16::from(AddressFamilyAttribute::DeviceMap), libc::IFLA_MAP);
    assert_eq!(u16::from(AddressFamilyAttribute::OperationState), libc::IFLA_OPERSTATE);
    assert_eq!(u16::from(AddressFamilyAttribute::Stats64), libc::IFLA_STATS64);
    assert_eq!(u16::from(AddressFamilyAttribute::Xdp), libc::IFLA_XDP);
    assert_eq!(
        u16::from(AddressFamilyAttribute::InterfaceNetworkNameSpaceId),
        libc::IFLA_IF_NETNSID
    );
    for raw in 0..100u16 {
        let lenient = AddressFamilyAttribute::from(raw);
        match AddressFamilyAttribute::convert_from(raw) {
            Some(found) => {
                assert!(raw <= 46);
                assert_eq!(found, lenient);
                assert_eq!(u16::from(found), raw);
            }
            None => {
                assert!(raw > 46);
                assert_eq!(lenient, AddressFamilyAttribute::Unspecified);
            }
        }
    }
}

#[test]
fn new_message() {
    let message = Message::new(FamilyId::GetLink);
    assert_eq!(message.family, 18);
    assert!(message.attributes.is_empty());
}

#[test]
fn interface_information() {
    let mut data = vec![
        0x00, 0x00, // family, reserved
        0x04, 0x03, // type
        0x01, 0x00, 0x00, 0x00, // index
        0x49, 0x00, 0x01, 0x00, // flags
        0xff, 0xff, 0xff, 0xff, // change
    ];
    let name = Attribute::new_string_with_nul(AddressFamilyAttribute::InterfaceName, "lo");
    let mtu = Attribute::new(AddressFamilyAttribute::MTU, 65536u32);
    let start = data.len();
    data.resize(start + 8 + 8, 0);
    let rest = name.pack(&mut data[start..]).unwrap();
    mtu.pack(rest).unwrap();
    let (used, message) = InterfaceInformationMessage::unpack(&data).unwrap();
    assert_eq!(used, 32);
    assert_eq!(message.family, 0);
    assert_eq!(message.kind, 0x0304u16.to_le());
    assert_eq!(message.index, 1i32.to_le());
    assert_eq!(message.flags, 0x00010049u32.to_le());
    assert_eq!(message.change, u32::MAX);
    assert_eq!(message.attributes.len(), 2);
    let mut names = Vec::new();
    for attribute in &message.attributes {
        if attribute.identifier == AddressFamilyAttribute::InterfaceName {
            names.push(attribute.as_string().unwrap());
        }
    }
    assert_eq!(names, vec!["lo".to_string()]);
    assert!(!names[0].contains('\0'));
    assert_eq!(message.attributes[1].as_u32().unwrap(), 65536);
}

#[test]
fn interface_information_needs_sixteen_bytes() {
    match InterfaceInformationMessage::unpack(&[0u8; 15]) {
        Err(Error::Netlink(e)) => assert_eq!(e.kind, NetlinkErrorKind::NotEnoughData),
        other => panic!("unexpected {:?}", other),
    }
    let (used, message) = InterfaceInformationMessage::unpack(&[0u8; 16]).unwrap();
    assert_eq!(used, 16);
    assert!(message.attributes.is_empty());
    let mut data = vec![0u8; 16];
    data.extend([9u8, 0, 3, 0, 1, 2, 3]);
    let (used, message) = InterfaceInformationMessage::unpack(&data).unwrap();
    assert_eq!(used, 16);
    assert!(message.attributes.is_empty());
}
