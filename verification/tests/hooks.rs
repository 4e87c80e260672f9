use dev_suite::error::Error;
use dev_suite::hooks::{
    extension, git_hook, hook_names, hooked_dir, init, link, pick_stub, shebang, stub_name,
    wrapper, Language, Stubs, Target,
};
use dev_suite::plan::{Base, Effect, Location, EXECUTABLE};

const HOOKS: [&str; 18] = [
    "applypatch-msg",
    "post-applypatch",
    "pre-commit",
    "prepare-commit-msg",
    "commit-msg",
    "post-commit",
    "pre-rebase",
    "post-checkout",
    "post-merge",
    "pre-push",
    "pre-receive",
    "update",
    "post-receive",
    "post-update",
    "push-to-checkout",
    "pre-auto-gc",
    "post-rewrite",
    "sendemail-validate",
];

fn place(parts: &[&str]) -> Location {
    Location { base: Base::Repository, parts: parts.iter().map(|p| p.to_string()).collect() }
}

fn lang(lang: &str) {
    let (language, ext, line) = match lang {
        "bash" => (Language::Bash, "sh", "#!/usr/bin/env bash"),
        "python" => (Language::Python, "py", "#!/usr/bin/env python3"),
        "ruby" => (Language::Ruby, "rb", "#!/usr/bin/env ruby"),
        _ => unreachable!(),
    };
    let effects = init(language, &vec![false; 18], &vec![false; 18]);
    for hook in &HOOKS {
        let dev_hook = place(&[".dev-suite", "hooked", &format!("{}.{}", hook, ext)]);
        let git_hook = place(&[".git", "hooks", hook]);
        let written: Vec<&String> = effects
            .iter()
            .filter_map(|e| match e {
                Effect::WriteExecutable(at, text) if at == &dev_hook => Some(text),
                _ => None,
            })
            .collect();
        assert_eq!(written.len(), 1);
        let shebang = written[0].lines().nth(0).unwrap().to_owned();
        assert_eq!(shebang, line);
        assert!(effects.contains(&Effect::Link(dev_hook, git_hook)));
    }
    assert_eq!(EXECUTABLE & 511, 0o755);
}

#[test]
fn init_bash() {
    lang("bash")
}

#[test]
fn init_python() {
    lang("python")
}

#[test]
fn init_ruby() {
    lang("ruby")
}

#[test]
fn the_hooks_are_git_s_eighteen() {
    let names = hook_names();
    assert_eq!(names.len(), 18);
    assert_eq!(names, HOOKS.iter().map(|h| h.to_string()).collect::<Vec<String>>());
}

#[test]
fn a_fresh_repository_gets_every_stub_wrapper_and_link_in_order() {
    let effects = init(Language::Bash, &Vec::new(), &Vec::new());
    assert_eq!(effects.len(), 1 + 18 * 3);
    assert_eq!(effects[0], Effect::CreateDir(place(&[".dev-suite", "hooked", "wrapper"])));
    for (i, hook) in HOOKS.iter().enumerate() {
        let stub = place(&[".dev-suite", "hooked", &format!("{}.sh", hook)]);
        assert_eq!(
            effects[1 + 3 * i],
            Effect::WriteExecutable(stub.clone(), "#!/usr/bin/env bash".to_string())
        );
        assert_eq!(
            effects[2 + 3 * i],
            Effect::WriteExecutable(
                place(&[".dev-suite", "hooked", "wrapper", &format!("{}.sh", hook)]),
                format!(
                    "#!C:\\Program Files\\Git\\bin\\sh.exe\nbash.exe .dev-suite/hooked/{}.sh\n",
                    hook
                )
            )
        );
        assert_eq!(effects[3 + 3 * i], Effect::Link(stub, place(&[".git", "hooks", hook])));
    }
}

#[test]
fn what_exists_is_left_alone() {
    assert_eq!(
        init(Language::Ruby, &vec![true; 18], &vec![true; 18]),
        vec![Effect::CreateDir(place(&[".dev-suite", "hooked", "wrapper"]))]
    );
    let mut stubs = vec![true; 18];
    stubs[2] = false;
    let mut linked = vec![true; 18];
    linked[4] = false;
    let effects = init(Language::Python, &stubs, &linked);
    assert_eq!(
        effects,
        vec![
            Effect::CreateDir(place(&[".dev-suite", "hooked", "wrapper"])),
            Effect::WriteExecutable(
                place(&[".dev-suite", "hooked", "pre-commit.py"]),
                "#!/usr/bin/env python3".to_string()
            ),
            Effect::WriteExecutable(
                place(&[".dev-suite", "hooked", "wrapper", "pre-commit.sh"]),
                "#!C:\\Program Files\\Git\\bin\\sh.exe\npy.exe .dev-suite/hooked/pre-commit.py\n"
                    .to_string()
            ),
            Effect::Link(
                place(&[".dev-suite", "hooked", "commit-msg.py"]),
                place(&[".git", "hooks", "commit-msg"])
            ),
        ]
    );
}

#[test]
fn each_language_has_its_extension_and_first_line() {
    assert_eq!(extension(Language::Bash), "sh");
    assert_eq!(extension(Language::Python), "py");
    assert_eq!(extension(Language::Ruby), "rb");
    assert_eq!(shebang(Language::Bash), "#!/usr/bin/env bash");
    assert_eq!(shebang(Language::Python), "#!/usr/bin/env python3");
    assert_eq!(shebang(Language::Ruby), "#!/usr/bin/env ruby");
    assert_eq!(stub_name("pre-push", Language::Ruby), "pre-push.rb");
    assert_eq!(
        wrapper("update", Language::Ruby),
        "#!C:\\Program Files\\Git\\bin\\sh.exe\nruby.exe .dev-suite/hooked/update.rb\n"
    );
    assert_eq!(hooked_dir(), place(&[".dev-suite", "hooked"]));
    assert_eq!(git_hook("update"), place(&[".git", "hooks", "update"]));
}

#[test]
fn python_comes_before_ruby_before_bash() {
    let s = |python, ruby, bash| Stubs { python, ruby, bash };
    assert_eq!(pick_stub(s(true, true, true)), Some(Language::Python));
    assert_eq!(pick_stub(s(false, true, true)), Some(Language::Ruby));
    assert_eq!(pick_stub(s(false, false, true)), Some(Language::Bash));
    assert_eq!(pick_stub(s(false, false, false)), None);
}

#[test]
fn linking_links_what_is_not_linked_yet() {
    let stubs = vec![Stubs { python: false, ruby: false, bash: true }; 18];
    let mut linked = vec![true; 18];
    linked[0] = false;
    linked[17] = false;
    let (effects, outcome) = link(Target::Stubs, &stubs, &linked);
    assert_eq!(outcome, Ok(()));
    assert_eq!(
        effects,
        vec![
            Effect::Link(
                place(&[".dev-suite", "hooked", "applypatch-msg.sh"]),
                place(&[".git", "hooks", "applypatch-msg"])
            ),
            Effect::Link(
                place(&[".dev-suite", "hooked", "sendemail-validate.sh"]),
                place(&[".git", "hooks", "sendemail-validate"])
            ),
        ]
    );
}

#[test]
fn linking_stops_at_the_first_hook_without_a_stub() {
    let mut stubs = vec![Stubs { python: true, ruby: false, bash: false }; 18];
    stubs[2] = Stubs { python: false, ruby: false, bash: false };
    stubs[5] = Stubs { python: false, ruby: false, bash: false };
    let (effects, outcome) = link(Target::Stubs, &stubs, &vec![false; 18]);
    let missing = Error::IOError(
        ".dev-suite/hooked/pre-commit".to_string(),
        "does not exist. Have you initialized the repo to use hooked?".to_string(),
    );
    assert_eq!(outcome, Err(missing));
    assert_eq!(
        outcome.unwrap_err().message(),
        ".dev-suite/hooked/pre-commit: does not exist. Have you initialized the repo to use \
         hooked?"
    );
    assert_eq!(
        effects,
        vec![
            Effect::Link(
                place(&[".dev-suite", "hooked", "applypatch-msg.py"]),
                place(&[".git", "hooks", "applypatch-msg"])
            ),
            Effect::Link(
                place(&[".dev-suite", "hooked", "post-applypatch.py"]),
                place(&[".git", "hooks", "post-applypatch"])
            ),
        ]
    );
}

#[test]
fn linking_names_the_hook_that_has_no_stub() {
    for (i, hook) in HOOKS.iter().enumerate() {
        let mut stubs = vec![Stubs { python: false, ruby: true, bash: false }; 18];
        stubs[i] = Stubs { python: false, ruby: false, bash: false };
        let (effects, outcome) = link(Target::Stubs, &stubs, &vec![true; 18]);
        assert!(effects.is_empty());
        assert_eq!(
            outcome,
            Err(Error::IOError(
                format!(".dev-suite/hooked/{}", hook),
                "does not exist. Have you initialized the repo to use hooked?".to_string()
            ))
        );
    }
    let (none, outcome) = link(Target::Stubs, &Vec::new(), &Vec::new());
    assert!(none.is_empty());
    assert_eq!(
        outcome,
        Err(Error::IOError(
            ".dev-suite/hooked/applypatch-msg".to_string(),
            "does not exist. Have you initialized the repo to use hooked?".to_string()
        ))
    );
}

#[test]
fn linking_writes_no_stub_and_touches_no_hook_that_exists() {
    let stubs = vec![Stubs { python: true, ruby: true, bash: true }; 18];
    let mut linked = vec![false; 18];
    linked[3] = true;
    let (effects, outcome) = link(Target::Stubs, &stubs, &linked);
    assert_eq!(outcome, Ok(()));
    assert_eq!(effects.len(), 17);
    for effect in &effects {
        match effect {
            Effect::Link(target, link) => {
                assert_eq!(target.parts[..2], [".dev-suite".to_string(), "hooked".to_string()]);
                assert_eq!(link.parts[..2], [".git".to_string(), "hooks".to_string()]);
                assert_ne!(link.parts[2], "prepare-commit-msg");
                assert_eq!(target.parts[2], format!("{}.py", link.parts[2]));
            }
            other => panic!("unexpected effect {:?}", other),
        }
    }
    assert_eq!(link(Target::Stubs, &stubs, &vec![true; 18]), (Vec::new(), Ok(())));
}

#[test]
fn linking_to_wrappers_looks_among_the_wrappers() {
    let mut stubs = vec![Stubs { python: false, ruby: false, bash: true }; 18];
    let mut linked = vec![true; 18];
    linked[1] = false;
    let (effects, outcome) = link(Target::Wrappers, &stubs, &linked);
    assert_eq!(outcome, Ok(()));
    assert_eq!(
        effects,
        vec![Effect::Link(
            place(&[".dev-suite", "hooked", "wrapper", "post-applypatch.sh"]),
            place(&[".git", "hooks", "post-applypatch"])
        )]
    );
    stubs[0] = Stubs { python: false, ruby: false, bash: false };
    let (effects, outcome) = link(Target::Wrappers, &stubs, &linked);
    assert!(effects.is_empty());
    assert_eq!(
        outcome,
        Err(Error::IOError(
            ".dev-suite/hooked/wrapper/applypatch-msg".to_string(),
            "does not exist. Have you initialized the repo to use hooked?".to_string()
        ))
    );
}
