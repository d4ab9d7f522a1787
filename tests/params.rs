use fastrapi::params::extract_path_param_names;

#[test]
fn test_extract_path_params() {
    assert_eq!(
        extract_path_param_names("/users/{user_id}/posts/{post_id}"),
        vec!["user_id", "post_id"]
    );
    assert_eq!(extract_path_param_names("/users/{id}"), vec!["id"]);
    assert_eq!(extract_path_param_names("/users"), Vec::<String>::new());
}

#[test]
fn path_params_skip_empty_and_unclosed() {
    assert_eq!(extract_path_param_names("/a/{}/b"), Vec::<String>::new());
    assert_eq!(extract_path_param_names("/a/{x"), Vec::<String>::new());
    assert_eq!(extract_path_param_names("/a/{x{y}/z"), vec!["y"]);
    assert_eq!(extract_path_param_names("/a/x}/{é}"), vec!["é"]);
}
