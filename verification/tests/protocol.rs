use crafty::entity::EntityKind;
use crafty::protocol::{
    entity_header_bytes, parse_entity_header, parse_remove_entity, remove_entity_bytes, MessageToServerKind,
    ServerUpdateKind,
};

#[test]
fn server_update_codes() {
    let kinds = [
        ServerUpdateKind::LoadChunk,
        ServerUpdateKind::LoggedIn,
        ServerUpdateKind::SendAction,
        ServerUpdateKind::RegisterEntity,
        ServerUpdateKind::UpdatePosition,
        ServerUpdateKind::Attack,
        ServerUpdateKind::RemoveEntity,
    ];
    for (code, kind) in kinds.iter().enumerate() {
        assert_eq!(kind.to_u8() as usize, code);
        assert_eq!(ServerUpdateKind::from_u8(code as u8), Some(*kind));
        assert_eq!(kind.is_heavy(), *kind == ServerUpdateKind::LoadChunk);
    }
    assert_eq!(ServerUpdateKind::from_u8(7), None);
    assert_eq!(ServerUpdateKind::from_u8(255), None);
}

#[test]
fn message_to_server_codes() {
    let kinds = [
        MessageToServerKind::Login,
        MessageToServerKind::OnNewPosition,
        MessageToServerKind::OnNewAction,
        MessageToServerKind::Attack,
        MessageToServerKind::SpawnRequest,
    ];
    for (code, kind) in kinds.iter().enumerate() {
        assert_eq!(kind.to_u8() as usize, code);
        assert_eq!(MessageToServerKind::from_u8(code as u8), Some(*kind));
    }
    assert_eq!(MessageToServerKind::from_u8(5), None);
}

#[test]
fn remove_entity_payload_round_trip() {
    assert_eq!(remove_entity_bytes(258), vec![0, 0, 1, 2]);
    assert_eq!(remove_entity_bytes(258), 258u32.to_be_bytes().to_vec());
    for id in [0u32, 1, 258, 0x1234_5678, u32::MAX] {
        assert_eq!(parse_remove_entity(&remove_entity_bytes(id)), id);
    }
    assert_eq!(parse_remove_entity(&[0xff, 0, 0, 1, 9]), 0xff00_0001);
}

#[test]
fn entity_header_round_trip() {
    let bytes = entity_header_bytes(113, EntityKind::Monster1);
    assert_eq!(bytes, vec![113, 1]);
    assert_eq!(parse_entity_header(&bytes), (113, EntityKind::Monster1));
    assert_eq!(parse_entity_header(&[7, 0, 42]), (7, EntityKind::Player));
    assert_eq!(parse_entity_header(&[7, 9]), (7, EntityKind::Monster1));
}
