use particle_advection::ping_pong::PingPongBuffers;

#[test]
fn new_writes_first_buffer() {
    let pp = PingPongBuffers::new([10u32, 20u32]);
    assert_eq!(pp.current, 0);
    assert_eq!(*pp.write_buf(), 10);
    assert_eq!(*pp.read_buf(), 20);
}

#[test]
fn swap_exchanges_roles() {
    let mut pp = PingPongBuffers::new([10u32, 20u32]);
    let written = *pp.write_buf();
    pp.swap();
    assert_eq!(pp.current, 1);
    assert_eq!(*pp.read_buf(), written);
    assert_eq!(*pp.write_buf(), 10 + 20 - written);
}

#[test]
fn swap_twice_restores() {
    let mut pp = PingPongBuffers::new(['a', 'b']);
    pp.swap();
    pp.swap();
    assert_eq!(pp.current, 0);
    assert_eq!(*pp.write_buf(), 'a');
    assert_eq!(pp.buffers, ['a', 'b']);
}

#[test]
fn swap_flips_low_bit_of_any_index() {
    let mut pp = PingPongBuffers { buffers: [1u8, 2u8], current: 6 };
    pp.swap();
    assert_eq!(pp.current, 7);
}

#[test]
fn read_and_write_never_alias() {
    let mut pp = PingPongBuffers::new([0usize, 1usize]);
    for _ in 0..5 {
        assert_ne!(*pp.read_buf(), *pp.write_buf());
        pp.swap();
    }
}
