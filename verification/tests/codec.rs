use telnet_server::codec::split_at_escape;

#[test]
fn bytes_are_split_at_the_first_escape() {
    assert_eq!(split_at_escape(&[]), 0);
    assert_eq!(split_at_escape(&[1, 2, 3]), 3);
    assert_eq!(split_at_escape(&[1, 255, 3, 255]), 1);
    assert_eq!(split_at_escape(&[255]), 0);
}
