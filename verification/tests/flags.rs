use telnet_server::flags::add_flag;
use telnet_server::nonblocking_flags;

#[test]
fn the_flag_is_added() {
    assert_eq!(add_flag(0b0010, 0b0100), 0b0110);
    assert_eq!(add_flag(0b0110, 0b0100), 0b0110);
}

#[test]
fn a_file_is_made_nonblocking() {
    let nonblock = nix::fcntl::O_NONBLOCK.bits();
    let flags = nix::fcntl::O_RDWR.bits();
    assert_eq!(nonblocking_flags(flags, nonblock), flags | nonblock);
}

#[test]
fn bits_without_a_name_are_dropped() {
    let nonblock = nix::fcntl::O_NONBLOCK.bits();
    let flags = nix::fcntl::O_RDWR.bits();
    let unnamed = !nix::fcntl::OFlag::all().bits();
    assert_ne!(unnamed, 0);
    assert_eq!(nonblocking_flags(flags | unnamed, nonblock), flags | nonblock);
}
