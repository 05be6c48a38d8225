use nailgun_pool::args::{is_client_arg, is_cp_flag, split_args, ArgSplitError};

fn strings(v: &[&str]) -> Vec<String> {
    v.iter().map(|s| s.to_string()).collect()
}

#[test]
fn split_args_classpath_shape() {
    let args = strings(&["-Xmx1g", "-cp", "a.jar:b.jar", "com.example.Main", "--flag", "in.txt"]);
    let parsed = split_args(&args, "/opt/nailgun.jar").unwrap();
    assert_eq!(parsed.nailgun_args, strings(&["-Xmx1g", "-cp", "/opt/nailgun.jar:a.jar:b.jar"]));
    assert_eq!(parsed.client_args, strings(&["com.example.Main", "--flag", "in.txt"]));
}

#[test]
fn split_args_long_classpath_flag() {
    let args = strings(&["-classpath", "x.jar", "Main"]);
    let parsed = split_args(&args, "ng.jar").unwrap();
    assert_eq!(parsed.nailgun_args, strings(&["-classpath", "ng.jar:x.jar"]));
    assert_eq!(parsed.client_args, strings(&["Main"]));
}

#[test]
fn split_args_uses_first_classpath_flag() {
    let args = strings(&["-cp", "a.jar", "Main", "-cp", "b.jar"]);
    let parsed = split_args(&args, "ng.jar").unwrap();
    assert_eq!(parsed.nailgun_args, strings(&["-cp", "ng.jar:a.jar"]));
    assert_eq!(parsed.client_args, strings(&["Main", "-cp", "b.jar"]));
}

#[test]
fn split_args_without_classpath_flag_fails() {
    let args = strings(&["-Xmx1g", "com.example.Main"]);
    assert_eq!(split_args(&args, "ng.jar").unwrap_err(), ArgSplitError::MissingClasspathFlag);
}

#[test]
fn split_args_without_classpath_value_fails() {
    let args = strings(&["-Xmx1g", "-cp"]);
    assert_eq!(split_args(&args, "ng.jar").unwrap_err(), ArgSplitError::MissingClasspathValue);
}

#[test]
fn split_args_without_main_class_fails() {
    let args = strings(&["-cp", "a.jar"]);
    assert_eq!(split_args(&args, "ng.jar").unwrap_err(), ArgSplitError::MissingMainClass);
}

#[test]
fn split_args_flag_after_classpath_fails() {
    let args = strings(&["-cp", "a.jar", "-Xmx1g", "com.example.Main"]);
    assert_eq!(split_args(&args, "ng.jar").unwrap_err(), ArgSplitError::FlagAfterClasspath);
}

#[test]
fn split_args_empty_vector_fails() {
    let args: Vec<String> = Vec::new();
    assert_eq!(split_args(&args, "ng.jar").unwrap_err(), ArgSplitError::MissingClasspathFlag);
}

#[test]
fn client_arg_recognizes_at_files() {
    assert!(is_client_arg(&"@argfile".to_string()));
    assert!(!is_client_arg(&"argfile".to_string()));
    assert!(!is_client_arg(&"".to_string()));
}

#[test]
fn cp_flag_recognizes_both_spellings() {
    assert!(is_cp_flag(&"-cp".to_string()));
    assert!(is_cp_flag(&"-classpath".to_string()));
    assert!(!is_cp_flag(&"-classpat".to_string()));
    assert!(!is_cp_flag(&"cp".to_string()));
}
