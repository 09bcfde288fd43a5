use github_integration::user::User;

#[test]
fn test_is_authenticated() {
    let user = User { id: Some(42) };
    assert_eq!(user.is_authenticated(), true);
}

#[test]
fn test_is_not_authenticated() {
    let user = User { id: None };
    assert_eq!(user.is_authenticated(), false);
}
