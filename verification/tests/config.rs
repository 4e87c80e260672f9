use dev_suite::config::{
    add_self_to_maintainers, create_repo_config, create_user_config, create_user_config_for,
    get_repo_config, get_user_config, repo_config_path, set_repo_config, set_user_config,
    show_repo_config, show_user_config, user_config_path, RepoConfig, UserConfig,
};
use dev_suite::error::Error;
use dev_suite::plan::{Base, Effect, Location};

const ADA: u128 = 0x11111111_2222_4333_8444_555555555555;
const BOB: u128 = 0x66666666_7777_4888_8999_aaaaaaaaaaaa;

fn ada() -> UserConfig {
    UserConfig { name: "Ada".to_string(), uuid: ADA }
}

fn text(effect: &Effect) -> &str {
    match effect {
        Effect::Write(_, text) => text,
        other => panic!("unexpected effect {:?}", other),
    }
}

#[test]
fn the_configurations_have_their_places() {
    assert_eq!(
        user_config_path(),
        Location {
            base: Base::UserConfig,
            parts: vec!["dev-suite".to_string(), "user-config.toml".to_string()]
        }
    );
    assert_eq!(
        repo_config_path(),
        Location {
            base: Base::Repository,
            parts: vec![".dev-suite".to_string(), "repo-config.toml".to_string()]
        }
    );
}

#[test]
fn a_new_user_keeps_the_name_and_gets_a_random_identifier() {
    let a = UserConfig::new("Ada".to_string());
    let b = UserConfig::new("Ada".to_string());
    assert_eq!(a.name, "Ada");
    assert_eq!(uuid::Uuid::from_u128(a.uuid).get_version_num(), 4);
    assert_eq!((a.uuid >> 76) & 0xf, 4);
    assert_eq!((a.uuid >> 62) & 0b11, 0b10);
    assert_ne!(a.uuid, b.uuid);
}

#[test]
fn a_user_survives_the_file() {
    let written = set_user_config(&ada()).unwrap();
    assert_eq!(text(&written), "name = 'Ada'\nuuid = '11111111-2222-4333-8444-555555555555'\n");
    assert_eq!(get_user_config(Some(text(&written).as_bytes())), Ok(ada()));
}

#[test]
fn maintainers_survive_the_file() {
    let repo = RepoConfig {
        maintainers: vec![("Ada".to_string(), ADA), ("Bob B.".to_string(), BOB)],
    };
    let written = set_repo_config(&repo).unwrap();
    assert_eq!(get_repo_config(Some(text(&written).as_bytes())), Ok(repo));
    let none = set_repo_config(&RepoConfig::new()).unwrap();
    assert_eq!(text(&none), "maintainers = []\n");
    assert_eq!(get_repo_config(Some(text(&none).as_bytes())), Ok(RepoConfig::new()));
}

#[test]
fn a_missing_file_means_that_nothing_was_set_up() {
    assert_eq!(get_user_config(None), Err(Error::NotInitialized));
    assert_eq!(get_repo_config(None), Err(Error::NotInitialized));
    assert_eq!(add_self_to_maintainers(None, None), Err(Error::NotInitialized));
}

#[test]
fn a_file_that_holds_something_else_is_reported() {
    assert_eq!(
        get_user_config(Some(b"name = 'Ada'\n")),
        Err(Error::IOError(
            "dev-suite/user-config.toml".to_string(),
            "missing or invalid field uuid".to_string()
        ))
    );
    assert_eq!(
        get_user_config(Some(b"name = 'Ada'\nuuid = 'nope'\n")),
        Err(Error::IOError(
            "dev-suite/user-config.toml".to_string(),
            "missing or invalid field uuid".to_string()
        ))
    );
    assert_eq!(
        get_repo_config(Some(b"maintainers = [['Ada']]\n")),
        Err(Error::IOError(
            ".dev-suite/repo-config.toml".to_string(),
            "missing or invalid field maintainers".to_string()
        ))
    );
    assert!(matches!(get_repo_config(Some(b"maintainers = [")), Err(Error::IOError(_, _))));
}

#[test]
fn the_user_joins_the_maintainers_once() {
    let mut repo = RepoConfig { maintainers: vec![("Bob".to_string(), BOB)] };
    assert!(!repo.lists(&ada()));
    assert!(repo.add(&ada()));
    assert_eq!(repo.maintainers, vec![("Bob".to_string(), BOB), ("Ada".to_string(), ADA)]);
    assert!(repo.lists(&ada()));
    assert!(!repo.add(&ada()));
    assert_eq!(repo.maintainers.len(), 2);
    assert!(repo.add(&UserConfig { name: "Ada".to_string(), uuid: BOB }));
    assert!(repo.add(&UserConfig { name: "Bob".to_string(), uuid: ADA }));
    assert_eq!(repo.maintainers.len(), 4);
}

#[test]
fn adding_oneself_writes_the_repository_s_configuration_anew() {
    let repo = text(&set_repo_config(&RepoConfig { maintainers: vec![("Bob".to_string(), BOB)] })
        .unwrap())
    .to_string();
    let user = text(&set_user_config(&ada()).unwrap()).to_string();
    let effects = add_self_to_maintainers(Some(repo.as_bytes()), Some(user.as_bytes())).unwrap();
    assert_eq!(effects.len(), 1);
    match &effects[0] {
        Effect::Write(at, written) => {
            assert_eq!(at, &repo_config_path());
            assert_eq!(
                get_repo_config(Some(written.as_bytes())).unwrap().maintainers,
                vec![("Bob".to_string(), BOB), ("Ada".to_string(), ADA)]
            );
            let again = add_self_to_maintainers(Some(written.as_bytes()), Some(user.as_bytes()));
            assert_eq!(again, Ok(Vec::new()));
        }
        other => panic!("unexpected effect {:?}", other),
    }
    assert_eq!(
        add_self_to_maintainers(Some(repo.as_bytes()), None),
        Err(Error::NotInitialized)
    );
}

#[test]
fn creating_leaves_alone_what_exists() {
    let dir = Location { base: Base::UserConfig, parts: vec!["dev-suite".to_string()] };
    assert_eq!(create_user_config_for(&ada(), true, true), Ok(Vec::new()));
    assert_eq!(
        create_user_config_for(&ada(), false, true),
        Ok(vec![Effect::CreateDir(dir.clone())])
    );
    assert_eq!(
        create_user_config_for(&ada(), false, false),
        Ok(vec![Effect::CreateDir(dir), set_user_config(&ada()).unwrap()])
    );
    assert_eq!(
        create_user_config_for(&ada(), true, false),
        Ok(vec![set_user_config(&ada()).unwrap()])
    );
    let made = create_user_config("Ada".to_string(), true, false).unwrap();
    assert_eq!(get_user_config(Some(text(&made[0]).as_bytes())).unwrap().name, "Ada");
    assert_eq!(create_user_config("Ada".to_string(), true, true), Ok(Vec::new()));
}

#[test]
fn a_new_repository_has_no_maintainers() {
    let dir = Location { base: Base::Repository, parts: vec![".dev-suite".to_string()] };
    assert_eq!(create_repo_config(true, true), Ok(Vec::new()));
    assert_eq!(
        create_repo_config(false, false),
        Ok(vec![
            Effect::CreateDir(dir),
            Effect::Write(repo_config_path(), "maintainers = []\n".to_string())
        ])
    );
}

#[test]
fn configurations_are_shown_as_name_and_identifier() {
    assert_eq!(show_user_config(&ada()), "Ada - 11111111-2222-4333-8444-555555555555");
    let repo = RepoConfig { maintainers: vec![("Ada".to_string(), ADA), ("Bob".to_string(), BOB)] };
    assert_eq!(
        show_repo_config(&repo),
        vec![
            "Ada - 11111111-2222-4333-8444-555555555555".to_string(),
            "Bob - 66666666-7777-4888-8999-aaaaaaaaaaaa".to_string()
        ]
    );
    assert!(show_repo_config(&RepoConfig::new()).is_empty());
}
