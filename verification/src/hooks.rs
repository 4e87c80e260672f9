//! Git hooks kept in the repository: a stub for each of git's eighteen
//! hooks under `.dev-suite/hooked`, and a link to it from `.git/hooks`.

use crate::error::{outcome_view, Error, ErrorView};
use crate::plan::{effect_views, Base, Effect, EffectView, Location, LocationView};
use crate::text::texts;
use vstd::prelude::*;
use vstd::string::StringExecFns;

verus! {

/// The language that the stubs are written in.
#[derive(Debug, Clone, Copy, PartialEq, Eq, Structural)]
pub enum Language {
    Bash,
    Python,
    Ruby,
}

/// The names of git's hooks, in the order in which they are dealt with.
pub open spec fn hooks() -> Seq<Seq<char>> {
    seq![
        "applypatch-msg"@,
        "post-applypatch"@,
        "pre-commit"@,
        "prepare-commit-msg"@,
        "commit-msg"@,
        "post-commit"@,
        "pre-rebase"@,
        "post-checkout"@,
        "post-merge"@,
        "pre-push"@,
        "pre-receive"@,
        "update"@,
        "post-receive"@,
        "post-update"@,
        "push-to-checkout"@,
        "pre-auto-gc"@,
        "post-rewrite"@,
        "sendemail-validate"@,
    ]
}

/// The names of git's hooks, in the order in which they are dealt with.
pub fn hook_names() -> (names: Vec<String>)
    ensures
        texts(names@) == hooks(),
        names.len() == 18,
{
    let mut names: Vec<String> = Vec::new();
    names.push(String::from_str("applypatch-msg"));
    names.push(String::from_str("post-applypatch"));
    names.push(String::from_str("pre-commit"));
    names.push(String::from_str("prepare-commit-msg"));
    names.push(String::from_str("commit-msg"));
    names.push(String::from_str("post-commit"));
    names.push(String::from_str("pre-rebase"));
    names.push(String::from_str("post-checkout"));
    names.push(String::from_str("post-merge"));
    names.push(String::from_str("pre-push"));
    names.push(String::from_str("pre-receive"));
    names.push(String::from_str("update"));
    names.push(String::from_str("post-receive"));
    names.push(String::from_str("post-update"));
    names.push(String::from_str("push-to-checkout"));
    names.push(String::from_str("pre-auto-gc"));
    names.push(String::from_str("post-rewrite"));
    names.push(String::from_str("sendemail-validate"));
    assert(texts(names@) =~= hooks());
    names
}

/// The extension of a stub's file.
pub open spec fn extension_of(lang: Language) -> Seq<char> {
    match lang {
        Language::Bash => "sh"@,
        Language::Python => "py"@,
        Language::Ruby => "rb"@,
    }
}

/// The first line of a stub.
pub open spec fn shebang_of(lang: Language) -> Seq<char> {
    match lang {
        Language::Bash => "#!/usr/bin/env bash"@,
        Language::Python => "#!/usr/bin/env python3"@,
        Language::Ruby => "#!/usr/bin/env ruby"@,
    }
}

/// The program that runs a stub where a shell has to be told.
pub open spec fn runner_of(lang: Language) -> Seq<char> {
    match lang {
        Language::Bash => "bash.exe"@,
        Language::Python => "py.exe"@,
        Language::Ruby => "ruby.exe"@,
    }
}

/// The name of the stub's file for a hook.
pub open spec fn stub_name_of(hook: Seq<char>, lang: Language) -> Seq<char> {
    hook + "."@ + extension_of(lang)
}

/// The wrapper for a hook: a shell script that runs the stub.
pub open spec fn wrapper_of(hook: Seq<char>, lang: Language) -> Seq<char> {
    "#!C:\\Program Files\\Git\\bin\\sh.exe\n"@ + runner_of(lang) + " .dev-suite/hooked/"@
        + stub_name_of(hook, lang) + "\n"@
}

/// The directory of the stubs.
pub open spec fn hooked_place() -> LocationView {
    LocationView::at(Base::Repository).join(".dev-suite"@).join("hooked"@)
}

/// The directory of the wrappers.
pub open spec fn wrapper_place() -> LocationView {
    hooked_place().join("wrapper"@)
}

/// The place of git's own hook of this name.
pub open spec fn git_hook_place(hook: Seq<char>) -> LocationView {
    LocationView::at(Base::Repository).join(".git"@).join("hooks"@).join(hook)
}

/// The extension of a stub's file.
pub fn extension(lang: Language) -> (ext: String)
    ensures
        ext@ == extension_of(lang),
{
    match lang {
        Language::Bash => String::from_str("sh"),
        Language::Python => String::from_str("py"),
        Language::Ruby => String::from_str("rb"),
    }
}

/// The first line of a stub.
pub fn shebang(lang: Language) -> (line: String)
    ensures
        line@ == shebang_of(lang),
{
    match lang {
        Language::Bash => String::from_str("#!/usr/bin/env bash"),
        Language::Python => String::from_str("#!/usr/bin/env python3"),
        Language::Ruby => String::from_str("#!/usr/bin/env ruby"),
    }
}

/// The program that runs a stub where a shell has to be told.
pub fn runner(lang: Language) -> (program: String)
    ensures
        program@ == runner_of(lang),
{
    match lang {
        Language::Bash => String::from_str("bash.exe"),
        Language::Python => String::from_str("py.exe"),
        Language::Ruby => String::from_str("ruby.exe"),
    }
}

/// The name of the stub's file for `hook`.
pub fn stub_name(hook: &str, lang: Language) -> (name: String)
    ensures
        name@ == stub_name_of(hook@, lang),
{
    String::from_str(hook).concat(".").concat(extension(lang).as_str())
}

/// The wrapper for `hook`.
pub fn wrapper(hook: &str, lang: Language) -> (script: String)
    ensures
        script@ == wrapper_of(hook@, lang),
{
    String::from_str("#!C:\\Program Files\\Git\\bin\\sh.exe\n").concat(
        runner(lang).as_str(),
    ).concat(" .dev-suite/hooked/").concat(stub_name(hook, lang).as_str()).concat("\n")
}

/// The directory of the stubs.
pub fn hooked_dir() -> (place: Location)
    ensures
        place@ == hooked_place(),
{
    Location::at(Base::Repository).join(".dev-suite").join("hooked")
}

/// The place of git's own hook called `hook`.
pub fn git_hook(hook: &str) -> (place: Location)
    ensures
        place@ == git_hook_place(hook@),
{
    Location::at(Base::Repository).join(".git").join("hooks").join(hook)
}

/// Whether the flag at `i` is set; a missing flag is not set.
pub open spec fn flag(flags: Seq<bool>, i: int) -> bool {
    0 <= i < flags.len() && flags[i]
}

/// What the initializer wants done for one hook: where its stub does not
/// exist yet, the stub and its wrapper are written, both to be run; where
/// git's hook does not exist yet, it is made a link to the stub.
pub open spec fn init_steps(hook: Seq<char>, lang: Language, stub_exists: bool, hook_exists: bool) -> Seq<
    EffectView,
> {
    let stub = hooked_place().join(stub_name_of(hook, lang));
    let made = if stub_exists {
        Seq::empty()
    } else {
        seq![
            EffectView::WriteExecutable(stub, shebang_of(lang)),
            EffectView::WriteExecutable(
                wrapper_place().join(stub_name_of(hook, Language::Bash)),
                wrapper_of(hook, lang),
            ),
        ]
    };
    let linked = if hook_exists {
        Seq::empty()
    } else {
        seq![EffectView::Link(stub, git_hook_place(hook))]
    };
    made + linked
}

/// What the initializer wants done for the first `n` hooks, after the
/// directory of the wrappers was made.
pub open spec fn init_upto(lang: Language, n: int, stubs: Seq<bool>, linked: Seq<bool>) -> Seq<
    EffectView,
>
    decreases n,
{
    if n <= 0 {
        seq![EffectView::CreateDir(wrapper_place())]
    } else {
        init_upto(lang, n - 1, stubs, linked) + init_steps(
            hooks()[n - 1],
            lang,
            flag(stubs, n - 1),
            flag(linked, n - 1),
        )
    }
}

/// Whether the flag at `i` is set.
fn flag_at(flags: &Vec<bool>, i: usize) -> (b: bool)
    ensures
        b == flag(flags@, i as int),
{
    i < flags.len() && flags[i]
}

/// Appends `more` to `out`.
fn append_effects(out: &mut Vec<Effect>, more: Vec<Effect>)
    ensures
        effect_views(final(out)@) == effect_views(old(out)@) + effect_views(more@),
{
    let mut more = more;
    let ghost before = effect_views(out@);
    let ghost added = effect_views(more@);
    out.append(&mut more);
    assert(effect_views(out@) =~= before + added);
}

/// What the initializer wants done for `hook`.
pub fn init_hook(hook: &str, lang: Language, stub_exists: bool, hook_exists: bool) -> (effects: Vec<
    Effect,
>)
    ensures
        effect_views(effects@) == init_steps(hook@, lang, stub_exists, hook_exists),
{
    let mut effects: Vec<Effect> = Vec::new();
    let name = stub_name(hook, lang);
    if !stub_exists {
        effects.push(Effect::WriteExecutable(hooked_dir().join(name.as_str()), shebang(lang)));
        effects.push(
            Effect::WriteExecutable(
                hooked_dir().join("wrapper").join(stub_name(hook, Language::Bash).as_str()),
                wrapper(hook, lang),
            ),
        );
    }
    if !hook_exists {
        effects.push(Effect::Link(hooked_dir().join(name.as_str()), git_hook(hook)));
    }
    assert(effect_views(effects@) =~= init_steps(hook@, lang, stub_exists, hook_exists));
    effects
}

/// Sets the repository up for hooks in `lang`. `stubs` says for each hook,
/// in the order of [`hooks`], whether its stub exists already, and `linked`
/// whether git's hook exists already; what exists is left alone.
pub fn init(lang: Language, stubs: &Vec<bool>, linked: &Vec<bool>) -> (effects: Vec<Effect>)
    ensures
        effect_views(effects@) == init_upto(lang, 18, stubs@, linked@),
{
    let names = hook_names();
    let mut effects: Vec<Effect> = Vec::new();
    effects.push(Effect::CreateDir(hooked_dir().join("wrapper")));
    assert(effect_views(effects@) =~= init_upto(lang, 0, stubs@, linked@));
    let mut i: usize = 0;
    while i < 18
        invariant
            i <= 18,
            names.len() == 18,
            texts(names@) == hooks(),
            effect_views(effects@) == init_upto(lang, i as int, stubs@, linked@),
        decreases 18 - i,
    {
        assert(names@[i as int]@ == hooks()[i as int]);
        let more = init_hook(names[i].as_str(), lang, flag_at(stubs, i), flag_at(linked, i));
        append_effects(&mut effects, more);
        i += 1;
    }
    effects
}

/// Which stubs of a hook exist.
#[derive(Debug, Clone, Copy, PartialEq, Eq, Structural)]
pub struct Stubs {
    pub python: bool,
    pub ruby: bool,
    pub bash: bool,
}

/// The language of the stub to link: Python's before Ruby's before Bash's.
pub open spec fn pick(stubs: Stubs) -> Option<Language> {
    if stubs.python {
        Some(Language::Python)
    } else if stubs.ruby {
        Some(Language::Ruby)
    } else if stubs.bash {
        Some(Language::Bash)
    } else {
        None
    }
}

/// The language of the stub to link.
pub fn pick_stub(stubs: Stubs) -> (lang: Option<Language>)
    ensures
        lang == pick(stubs),
{
    if stubs.python {
        Some(Language::Python)
    } else if stubs.ruby {
        Some(Language::Ruby)
    } else if stubs.bash {
        Some(Language::Bash)
    } else {
        None
    }
}

/// The stubs of the hook at `i`; where nothing is said of a hook, it has
/// none.
pub open spec fn stubs_at(stubs: Seq<Stubs>, i: int) -> Stubs {
    if 0 <= i < stubs.len() {
        stubs[i]
    } else {
        Stubs { python: false, ruby: false, bash: false }
    }
}

/// What git's hooks are linked to: the stubs themselves, or, on a system
/// where git runs its hooks through a shell of its own, their wrappers.
#[derive(Debug, Clone, Copy, PartialEq, Eq, Structural)]
pub enum Target {
    Stubs,
    Wrappers,
}

/// The directory of the files that git's hooks are linked to.
pub open spec fn target_place(target: Target) -> LocationView {
    match target {
        Target::Stubs => hooked_place(),
        Target::Wrappers => wrapper_place(),
    }
}

/// The directory of the files that git's hooks are linked to.
pub fn target_dir(target: Target) -> (place: Location)
    ensures
        place@ == target_place(target),
{
    match target {
        Target::Stubs => hooked_dir(),
        Target::Wrappers => hooked_dir().join("wrapper"),
    }
}

/// What linking has come to after the first hooks: what it wants done, and
/// the hook at which it had to stop, if it had to.
pub ghost struct Linking {
    pub effects: Seq<EffectView>,
    pub stopped: Option<int>,
}

/// What linking wants done for the first `n` hooks. It goes through the
/// hooks in order and stops at the first that has no stub; what it wanted
/// done before that stays. For a hook with a stub, git's hook is made a link
/// to the stub unless git's hook exists.
pub open spec fn link_upto(n: int, target: Target, stubs: Seq<Stubs>, linked: Seq<bool>) -> Linking
    decreases n,
{
    if n <= 0 {
        Linking { effects: Seq::empty(), stopped: None }
    } else {
        let before = link_upto(n - 1, target, stubs, linked);
        if before.stopped is Some {
            before
        } else {
            match pick(stubs_at(stubs, n - 1)) {
                None => Linking { effects: before.effects, stopped: Some(n - 1) },
                Some(lang) => if flag(linked, n - 1) {
                    before
                } else {
                    Linking {
                        effects: before.effects.push(
                            EffectView::Link(
                                target_place(target).join(stub_name_of(hooks()[n - 1], lang)),
                                git_hook_place(hooks()[n - 1]),
                            ),
                        ),
                        stopped: None,
                    }
                },
            }
        }
    }
}

/// What is said of a hook that has no stub.
pub open spec fn no_stub() -> Seq<char> {
    "does not exist. Have you initialized the repo to use hooked?"@
}

/// The error for the hook at `i`, which has no stub: it names the place
/// where the stub would be, without an extension.
pub open spec fn missing_stub(target: Target, i: int) -> ErrorView {
    ErrorView::IOError(target_place(target).join(hooks()[i]).display(), no_stub())
}

/// How linking ends: in peace, or with the error for the first hook that
/// has no stub.
pub open spec fn link_outcome(target: Target, stubs: Seq<Stubs>, linked: Seq<bool>) -> Result<
    (),
    ErrorView,
> {
    match link_upto(18, target, stubs, linked).stopped {
        None => Ok(()),
        Some(i) => Err(missing_stub(target, i)),
    }
}

/// Once linking has stopped it stays as it is.
proof fn lemma_link_stopped(n: int, m: int, target: Target, stubs: Seq<Stubs>, linked: Seq<bool>)
    requires
        0 <= n <= m,
        link_upto(n, target, stubs, linked).stopped is Some,
    ensures
        link_upto(m, target, stubs, linked) == link_upto(n, target, stubs, linked),
    decreases m - n,
{
    if n < m {
        lemma_link_stopped(n, m - 1, target, stubs, linked);
    }
}

/// Where linking stops is the first hook without a stub, and it stops at
/// none if every hook has one.
pub proof fn lemma_link_stops_at_the_first_gap(
    n: int,
    target: Target,
    stubs: Seq<Stubs>,
    linked: Seq<bool>,
)
    requires
        0 <= n,
    ensures
        match link_upto(n, target, stubs, linked).stopped {
            Some(i) => 0 <= i < n && pick(stubs_at(stubs, i)) is None && forall|j: int|
                0 <= j < i ==> pick(#[trigger] stubs_at(stubs, j)) is Some,
            None => forall|j: int| 0 <= j < n ==> pick(#[trigger] stubs_at(stubs, j)) is Some,
        },
    decreases n,
{
    if n > 0 {
        lemma_link_stops_at_the_first_gap(n - 1, target, stubs, linked);
    }
}

/// Whether `effect` makes git's hook at `j` a link to the file that was
/// picked for it, git's hook not being there yet.
pub open spec fn links_hook(
    effect: EffectView,
    j: int,
    target: Target,
    stubs: Seq<Stubs>,
    linked: Seq<bool>,
) -> bool {
    &&& !flag(linked, j)
    &&& pick(stubs_at(stubs, j)) is Some
    &&& effect == EffectView::Link(
        target_place(target).join(stub_name_of(hooks()[j], pick(stubs_at(stubs, j))->0)),
        git_hook_place(hooks()[j]),
    )
}

/// Linking makes links and nothing else: whatever it wants done makes a hook
/// of git that is not there yet a link to a file that is. No stub is
/// written, and no hook of git that exists is touched.
pub proof fn lemma_link_only_links(
    n: int,
    target: Target,
    stubs: Seq<Stubs>,
    linked: Seq<bool>,
    k: int,
)
    requires
        0 <= n,
        0 <= k < link_upto(n, target, stubs, linked).effects.len(),
    ensures
        exists|j: int|
            0 <= j < n && #[trigger] links_hook(
                link_upto(n, target, stubs, linked).effects[k],
                j,
                target,
                stubs,
                linked,
            ),
    decreases n,
{
    if n > 0 {
        let before = link_upto(n - 1, target, stubs, linked);
        let now = link_upto(n, target, stubs, linked);
        if k < before.effects.len() {
            lemma_link_only_links(n - 1, target, stubs, linked, k);
            let j = choose|j: int|
                0 <= j < n - 1 && #[trigger] links_hook(before.effects[k], j, target, stubs, linked);
            assert(now.effects[k] == before.effects[k]);
            assert(links_hook(now.effects[k], j, target, stubs, linked));
        } else {
            assert(links_hook(now.effects[k], n - 1, target, stubs, linked));
        }
    }
}

/// Links git's hooks to the stubs that exist, or to their wrappers where
/// `target` says so. `stubs` says for each hook, in the order of [`hooks`],
/// which of the files to link to exist, and `linked` whether git's hook
/// exists already. A hook without such a file ends the linking with an
/// error that names the place where the file would be. What was to be done
/// up to there is still to be done.
pub fn link(target: Target, stubs: &Vec<Stubs>, linked: &Vec<bool>) -> (r: (
    Vec<Effect>,
    Result<(), Error>,
))
    ensures
        effect_views(r.0@) == link_upto(18, target, stubs@, linked@).effects,
        outcome_view(r.1) == link_outcome(target, stubs@, linked@),
{
    let names = hook_names();
    let mut effects: Vec<Effect> = Vec::new();
    assert(effect_views(effects@) =~= Seq::<EffectView>::empty());
    let mut i: usize = 0;
    while i < 18
        invariant
            i <= 18,
            names.len() == 18,
            texts(names@) == hooks(),
            effect_views(effects@) == link_upto(i as int, target, stubs@, linked@).effects,
            link_upto(i as int, target, stubs@, linked@).stopped is None,
        decreases 18 - i,
    {
        assert(names@[i as int]@ == hooks()[i as int]);
        let hook = names[i].as_str();
        let found = if i < stubs.len() {
            stubs[i]
        } else {
            Stubs { python: false, ruby: false, bash: false }
        };
        match pick_stub(found) {
            None => {
                proof {
                    lemma_link_stopped(i + 1, 18, target, stubs@, linked@);
                }
                let place = target_dir(target).join(hook).display();
                let cause = String::from_str(
                    "does not exist. Have you initialized the repo to use hooked?",
                );
                return (effects, Err(Error::IOError(place, cause)));
            },
            Some(lang) => {
                if !flag_at(linked, i) {
                    let ghost before = effect_views(effects@);
                    let file = target_dir(target).join(stub_name(hook, lang).as_str());
                    let effect = Effect::Link(file, git_hook(hook));
                    effects.push(effect);
                    assert(effect_views(effects@) =~= before.push(effect@));
                }
            },
        }
        i += 1;
    }
    (effects, Ok(()))
}

/// Setting up a repository in which every stub and every hook of git
/// exists does nothing but make sure of the wrappers' directory: what exists
/// is neither written over nor linked again.
pub proof fn lemma_init_leaves_what_exists(
    lang: Language,
    n: int,
    stubs: Seq<bool>,
    linked: Seq<bool>,
)
    requires
        0 <= n <= 18,
        n <= stubs.len(),
        n <= linked.len(),
        forall|i: int| 0 <= i < n ==> #[trigger] stubs[i],
        forall|i: int| 0 <= i < n ==> #[trigger] linked[i],
    ensures
        init_upto(lang, n, stubs, linked) == seq![EffectView::CreateDir(wrapper_place())],
    decreases n,
{
    if n > 0 {
        lemma_init_leaves_what_exists(lang, n - 1, stubs, linked);
        assert(init_steps(hooks()[n - 1], lang, true, true) =~= Seq::<EffectView>::empty());
        assert(init_upto(lang, n - 1, stubs, linked) + Seq::<EffectView>::empty() =~= init_upto(
            lang,
            n - 1,
            stubs,
            linked,
        ));
    }
}

/// Linking in a repository in which every hook has a stub and every hook
/// of git exists does nothing and does not fail.
pub proof fn lemma_link_leaves_what_exists(
    n: int,
    target: Target,
    stubs: Seq<Stubs>,
    linked: Seq<bool>,
)
    requires
        0 <= n <= 18,
        n <= stubs.len(),
        n <= linked.len(),
        forall|i: int| 0 <= i < n ==> pick(#[trigger] stubs[i]) is Some,
        forall|i: int| 0 <= i < n ==> #[trigger] linked[i],
    ensures
        link_upto(n, target, stubs, linked) == (Linking { effects: Seq::empty(), stopped: None }),
    decreases n,
{
    if n > 0 {
        lemma_link_leaves_what_exists(n - 1, target, stubs, linked);
    }
}

} // verus!
