use demoparser::bitreader::Bitreader;
use demoparser::entity_ops::{delete_entity, read_entity_op, EntityOp};
use demoparser::entity_state::{Entity, EntityState};
use demoparser::error::DemoParserError;
use demoparser::game_types::{EntityType, Teams};
use demoparser::prop_controller::SpecialIDs;
use demoparser::sendtables::Serializer;
use std::collections::HashMap;

fn empty_state() -> EntityState {
    EntityState {
        entities: Vec::new(),
        players: Vec::new(),
        teams: Teams { team1_entid: None, team2_entid: None, team3_entid: None },
        special_ids: SpecialIDs::default(),
        rules_entity_id: None,
        c4_entity_id: None,
        tick: 0,
    }
}

fn serializers() -> Vec<Serializer> {
    vec![
        Serializer { name: "CCSGameRulesProxy".to_string(), fields: vec![] },
        Serializer { name: "CSmokeGrenadeProjectile".to_string(), fields: vec![] },
    ]
}

#[test]
fn entity_headers_give_the_id_and_op() {
    // id moves on by 1 + 2, then op 2: create
    let bytes = [0x82u8];
    let mut br = Bitreader::new(&bytes);
    assert_eq!(read_entity_op(&mut br, -1, 0), Ok((2, EntityOp::CreateAndUpdate)));
    // op 3: delete
    let bytes = [0xC0u8];
    let mut br = Bitreader::new(&bytes);
    assert_eq!(read_entity_op(&mut br, 4, 0), Ok((5, EntityOp::Delete)));
    // op 0 with visibility bits whose low bit is set: unchanged
    let bytes = [0x00u8, 0x01];
    let mut br = Bitreader::new(&bytes);
    assert_eq!(read_entity_op(&mut br, 4, 1), Ok((5, EntityOp::Unchanged)));
    let mut br = Bitreader::new(&bytes);
    assert_eq!(read_entity_op(&mut br, 4, 0), Ok((5, EntityOp::Update)));
    let mut br = Bitreader::new(&[]);
    assert_eq!(read_entity_op(&mut br, 4, 0), Err(DemoParserError::OutOfBitsError));
}

#[test]
fn created_entities_take_their_slot() {
    let mut s = empty_state();
    let mut projectiles = Vec::new();
    let header = [1u8, 0, 0, 0, 0];
    let mut br = Bitreader::new(&header);
    assert_eq!(s.create_entity(&mut br, 3, &serializers(), &mut projectiles), Ok(1));
    assert_eq!(s.entities.len(), 4);
    assert!(s.entities[0].is_none() && s.entities[2].is_none());
    let e = s.entities[3].as_ref().unwrap();
    assert_eq!((e.entity_id, e.cls_id, e.entity_type), (3, 1, EntityType::Projectile));
    assert!(e.props.is_empty());
    assert_eq!(projectiles, vec![3]);
    assert_eq!(br.bits_remaining(), Some(7));
    let mut br = Bitreader::new(&header);
    assert_eq!(s.create_entity(&mut br, 3, &serializers(), &mut projectiles), Ok(1));
    assert_eq!(projectiles, vec![3]);
}

#[test]
fn entity_creation_failures() {
    let mut s = empty_state();
    let mut projectiles = Vec::new();
    let rules = [0u8, 0, 0, 0, 0];
    let mut br = Bitreader::new(&rules);
    assert_eq!(s.create_entity(&mut br, 100001, &serializers(), &mut projectiles), Err(DemoParserError::VectorResizeFailure));
    assert_eq!(s.rules_entity_id, Some(100001));
    assert!(s.entities.is_empty());
    let mut br = Bitreader::new(&rules);
    assert_eq!(s.create_entity(&mut br, -5, &serializers(), &mut projectiles), Err(DemoParserError::EntityNotFound));
    let unknown = [7u8, 0, 0, 0, 0];
    let mut br = Bitreader::new(&unknown);
    assert_eq!(s.create_entity(&mut br, 1, &serializers(), &mut projectiles), Err(DemoParserError::ClassNotFound));
    let mut br = Bitreader::new(&[1u8]);
    assert_eq!(s.create_entity(&mut br, 1, &serializers(), &mut projectiles), Err(DemoParserError::OutOfBitsError));
}

#[test]
fn deleted_entities_leave_their_slot_and_the_projectiles() {
    let mut entities: Vec<Option<Entity>> = vec![
        None,
        Some(Entity { cls_id: 0, entity_id: 1, props: HashMap::new(), entity_type: EntityType::Projectile }),
    ];
    let mut projectiles = vec![1, 4, 1];
    delete_entity(&mut entities, &mut projectiles, 1);
    assert!(entities[1].is_none());
    assert_eq!(projectiles, vec![4]);
    delete_entity(&mut entities, &mut projectiles, 9);
    assert_eq!(entities.len(), 2);
    assert_eq!(projectiles, vec![4]);
}
