use scorch_project::project::{check_project_path, Module, ProjectError, ScorchProject, FILE_EXTENSION};

fn module(id: &str) -> Module {
    Module { id: id.to_string(), url: format!("https://example.com/{}.git", id), branch: "main".to_string() }
}

#[test]
fn project_path_with_suffix_is_accepted() {
    assert_eq!(check_project_path("demo.scproj"), Ok(()));
    assert_eq!(check_project_path(&format!("dir/test_project{}", FILE_EXTENSION)), Ok(()));
}

#[test]
fn project_path_without_suffix_is_refused() {
    assert_eq!(
        check_project_path("test_project.json"),
        Err(ProjectError::BadExtension("test_project.json".to_string()))
    );
    assert_eq!(check_project_path("scproj"), Err(ProjectError::BadExtension("scproj".to_string())));
    assert_eq!(check_project_path(""), Err(ProjectError::BadExtension(String::new())));
}

#[test]
fn distinct_module_ids_validate() {
    let project = ScorchProject {
        name: "demo".to_string(),
        main: "main.scorch".to_string(),
        includes: vec!["x.scorch".to_string()],
        modules: vec![module("lib"), module("util")],
    };
    assert_eq!(project.validate(), Ok(()));
    let empty = ScorchProject {
        name: "demo".to_string(),
        main: "main.scorch".to_string(),
        includes: vec![],
        modules: vec![],
    };
    assert_eq!(empty.validate(), Ok(()));
}

#[test]
fn duplicate_module_id_is_refused() {
    let project = ScorchProject {
        name: "demo".to_string(),
        main: "main.scorch".to_string(),
        includes: vec![],
        modules: vec![module("lib"), module("util"), module("lib")],
    };
    assert_eq!(project.validate(), Err(ProjectError::DuplicateModule("lib".to_string())));
}
