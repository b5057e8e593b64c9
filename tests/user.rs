use online_judge::user::{Permissions, User};

#[test]
fn user_accessors() {
    let u = User::new(7, "a@b.c", "alice", "hash");
    assert_eq!(u.id(), 7);
    assert_eq!(u.email(), "a@b.c");
    assert_eq!(u.username(), "alice");
    assert_eq!(u.password(), "hash");
}

#[test]
fn admin_permission() {
    assert!(Permissions::admin().is_admin());
}
