use particle_sims::fountain::{Fountain, Frame, COPIES, PARTICLE_COMPONENTS};

#[test]
fn buffers_hold_six_numbers_per_particle() {
    assert_eq!(PARTICLE_COMPONENTS, 6);
    assert_eq!(COPIES, 2);
    assert_eq!(Fountain::new(0).num_particles(), 0);
    assert_eq!(Fountain::new(5).num_particles(), 0);
    assert_eq!(Fountain::new(6).num_particles(), 1);
    assert_eq!(Fountain::new(6000).num_particles(), 1000);
    assert_eq!(Fountain::new(6005).num_particles(), 1000);
}

#[test]
fn nothing_is_born_at_first() {
    assert_eq!(Fountain::new(600).born_particles(), 0);
}

#[test]
fn copies_trade_places_every_frame() {
    let mut fountain = Fountain::new(60);
    let first = fountain.advance(0);
    assert_eq!(first, Frame { update_vao: 0, feedback_buffer: 1, draw_vao: 2, count: 0 });
    let second = fountain.advance(0);
    assert_eq!(second, Frame { update_vao: 1, feedback_buffer: 0, draw_vao: 3, count: 0 });
    let third = fountain.advance(0);
    assert_eq!(third, first);
}

#[test]
fn a_frame_handles_the_particles_born_before_it() {
    let mut fountain = Fountain::new(60);
    assert_eq!(fountain.advance(3).count, 0);
    assert_eq!(fountain.born_particles(), 3);
    assert_eq!(fountain.advance(7).count, 3);
    assert_eq!(fountain.born_particles(), 7);
    assert_eq!(fountain.advance(7).count, 7);
}

#[test]
fn no_more_particles_are_born_than_the_buffers_hold() {
    let mut fountain = Fountain::new(60);
    fountain.advance(1000);
    assert_eq!(fountain.born_particles(), 10);
    fountain.advance(usize::MAX);
    assert_eq!(fountain.born_particles(), 10);
}

#[test]
fn once_all_are_born_the_number_stays() {
    let mut fountain = Fountain::new(60);
    fountain.advance(10);
    fountain.advance(2);
    assert_eq!(fountain.born_particles(), 10);
    assert_eq!(fountain.advance(0).count, 10);
}

#[test]
fn before_all_are_born_the_number_follows_the_rate() {
    let mut fountain = Fountain::new(60);
    fountain.advance(5);
    fountain.advance(2);
    assert_eq!(fountain.born_particles(), 2);
}

#[test]
fn a_fountain_without_particles_never_bears_any() {
    let mut fountain = Fountain::new(3);
    assert_eq!(fountain.advance(9).count, 0);
    assert_eq!(fountain.born_particles(), 0);
}
