use pomme_client::ring::{
    ChunkPos, ChunkRing, ChunkSectionPos, SectionRing, CHUNK_RING_SIZE, MAX_SIZE,
    SECTION_RING_SIZE,
};
use pomme_client::version::{
    clear_session_protocol, selected_protocol, session_protocol, set_selected_protocol,
    set_session_protocol, ProtocolState,
};

#[test]
fn positions_a_ring_width_apart_share_a_slot() {
    let ring: ChunkRing<(usize, usize)> = ChunkRing::from_fn(|x, z| (x, z));
    assert_eq!(ring.buf.len(), CHUNK_RING_SIZE);
    let width = MAX_SIZE as i32;
    let near = ring.get(ChunkPos { x: 3, z: -4 });
    assert_eq!(*near, (3, MAX_SIZE - 4));
    assert_eq!(*ring.get(ChunkPos { x: 3 + width, z: -4 - width }), *near);
}

#[test]
fn positions_within_a_window_have_slots_of_their_own() {
    let ring: ChunkRing<(usize, usize)> = ChunkRing::from_fn(|x, z| (x, z));
    let mut seen = std::collections::HashSet::new();
    for x in -64..=64 {
        for z in -64..=64 {
            assert!(seen.insert(*ring.get(ChunkPos { x, z })));
        }
    }
    assert_eq!(seen.len(), CHUNK_RING_SIZE);
}

#[test]
fn only_positions_near_the_centre_are_in_range() {
    let ring: ChunkRing<u8> = ChunkRing::new(9);
    let center = ChunkPos { x: 100, z: -100 };
    assert_eq!(ring.get_in_range(ChunkPos { x: 164, z: -164 }, center), Some(&9));
    assert_eq!(ring.get_in_range(ChunkPos { x: 165, z: -100 }, center), None);
    assert_eq!(ring.get_in_range(ChunkPos { x: 100, z: -165 }, center), None);
    let far = ChunkPos { x: i32::MAX, z: i32::MIN };
    assert_eq!(ring.get_in_range(far, ChunkPos { x: i32::MIN, z: i32::MAX }), None);
}

#[test]
fn sections_have_a_slot_for_each_height() {
    let ring: SectionRing<(usize, usize, usize)> = SectionRing::from_fn(|x, z, y| (x, z, y));
    assert_eq!(ring.buf.len(), SECTION_RING_SIZE);
    assert_eq!(*ring.get(ChunkSectionPos { x: -1, y: 5, z: 2 }), (128, 2, 5));
    assert_eq!(*ring.get(ChunkSectionPos { x: 128, y: 37, z: -127 }), (128, 2, 5));
}

#[test]
fn the_first_selected_protocol_stands() {
    let mut state = ProtocolState::new();
    assert_eq!(selected_protocol(&state, 775), 775);
    set_selected_protocol(&mut state, 770);
    set_selected_protocol(&mut state, 760);
    assert_eq!(selected_protocol(&state, 775), 770);
}

#[test]
fn no_session_leaks_into_the_next() {
    let mut state = ProtocolState::new();
    set_selected_protocol(&mut state, 770);
    assert_eq!(session_protocol(&state, 775), 770);
    set_session_protocol(&mut state, 768);
    assert_eq!(session_protocol(&state, 775), 768);
    clear_session_protocol(&mut state);
    assert_eq!(session_protocol(&state, 775), 770);
}
