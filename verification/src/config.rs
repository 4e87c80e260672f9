//! Who the user is, and who maintains a repository.

use crate::codec::{field_error, id_at, not_a_table, readable};
use crate::document::{
    all_texts, as_list, as_table, entry_shapes, get_list, get_text, keys_of, list_at, list_value,
    lookup, parse, parsed, print, printed, shape, shapes, table_value, text_at, text_value,
    texts_of, Doc,
};
use crate::error::{Error, ErrorView};
use crate::id::{format_uuid, is_v4, parse_uuid, random_v4, uuid_parse, uuid_text};
use crate::plan::{
    effect_views, plan_view, Base, Effect, EffectView, Location, LocationView,
};
use crate::text::texts;
use vstd::prelude::*;
use vstd::string::StringExecFns;

verus! {

/// A user of the suite: a display name and an identifier that is made once
/// and never changes.
#[derive(Debug, PartialEq, Eq)]
pub struct UserConfig {
    /// The name of the user.
    pub name: String,
    /// The identifier of the user.
    pub uuid: u128,
}

/// A [`UserConfig`] with its name as a sequence of characters.
pub ghost struct UserConfigView {
    pub name: Seq<char>,
    pub uuid: u128,
}

impl View for UserConfig {
    type V = UserConfigView;

    open spec fn view(&self) -> UserConfigView {
        UserConfigView { name: self.name@, uuid: self.uuid }
    }
}

impl Clone for UserConfig {
    fn clone(&self) -> (copy: UserConfig)
        ensures
            copy == *self,
    {
        UserConfig { name: self.name.clone(), uuid: self.uuid }
    }
}

impl UserConfig {
    /// A user called `name`, with a fresh random identifier. Which
    /// identifier that is, is a matter of chance.
    pub fn new(name: String) -> (user: UserConfig)
        ensures
            user.name == name,
            is_v4(user.uuid),
    {
        UserConfig { name, uuid: random_v4() }
    }
}

/// The maintainers of a repository, in the order in which they joined.
#[derive(Debug, PartialEq, Eq)]
pub struct RepoConfig {
    pub maintainers: Vec<(String, u128)>,
}

/// A maintainer as contracts see one: name and identifier.
pub open spec fn maintainer_view(m: (String, u128)) -> (Seq<char>, u128) {
    (m.0@, m.1)
}

impl View for RepoConfig {
    type V = Seq<(Seq<char>, u128)>;

    open spec fn view(&self) -> Seq<(Seq<char>, u128)> {
        self.maintainers@.map_values(|m: (String, u128)| maintainer_view(m))
    }
}

impl RepoConfig {
    /// A repository without maintainers.
    pub fn new() -> (repo: RepoConfig)
        ensures
            repo@ == Seq::<(Seq<char>, u128)>::empty(),
    {
        let repo = RepoConfig { maintainers: Vec::new() };
        assert(repo@ =~= Seq::<(Seq<char>, u128)>::empty());
        repo
    }

    /// Whether the user with this name and identifier is among the
    /// maintainers.
    pub fn lists(&self, user: &UserConfig) -> (found: bool)
        ensures
            found == self@.contains((user.name@, user.uuid)),
    {
        let mut i: usize = 0;
        while i < self.maintainers.len()
            invariant
                i <= self.maintainers.len(),
                forall|j: int| 0 <= j < i ==> self@[j] != (user.name@, user.uuid),
            decreases self.maintainers.len() - i,
        {
            if self.maintainers[i].0 == user.name && self.maintainers[i].1 == user.uuid {
                assert(self@[i as int] == (user.name@, user.uuid));
                return true;
            }
            i += 1;
        }
        false
    }

    /// Adds the user to the maintainers unless the same name and identifier
    /// are listed already. Returns whether the list changed.
    pub fn add(&mut self, user: &UserConfig) -> (changed: bool)
        ensures
            final(self)@ == with_maintainer(old(self)@, user@),
            changed == !old(self)@.contains((user.name@, user.uuid)),
    {
        if self.lists(user) {
            false
        } else {
            let ghost before = self@;
            self.maintainers.push((user.name.clone(), user.uuid));
            assert(self@ =~= before.push((user.name@, user.uuid)));
            true
        }
    }
}

/// The maintainers after the user asked to be one: as before if the user's
/// name and identifier were listed already, else with that pair at the end.
pub open spec fn with_maintainer(
    maintainers: Seq<(Seq<char>, u128)>,
    user: UserConfigView,
) -> Seq<(Seq<char>, u128)> {
    if maintainers.contains((user.name, user.uuid)) {
        maintainers
    } else {
        maintainers.push((user.name, user.uuid))
    }
}

/// Asking twice to be a maintainer is asking once: after the first time the
/// user is listed, and the list stays as it is.
pub proof fn lemma_adding_twice(maintainers: Seq<(Seq<char>, u128)>, user: UserConfigView)
    ensures
        with_maintainer(maintainers, user).contains((user.name, user.uuid)),
        with_maintainer(with_maintainer(maintainers, user), user) == with_maintainer(
            maintainers,
            user,
        ),
        forall|i: int|
            0 <= i < maintainers.len() ==> with_maintainer(maintainers, user)[i]
                == maintainers[i],
{
    let after = with_maintainer(maintainers, user);
    if !maintainers.contains((user.name, user.uuid)) {
        assert(after[maintainers.len() as int] == (user.name, user.uuid));
    }
}

/// The place of the user's configuration.
pub open spec fn user_config_place() -> LocationView {
    LocationView::at(Base::UserConfig).join("dev-suite"@).join("user-config.toml"@)
}

/// The place of the repository's configuration.
pub open spec fn repo_config_place() -> LocationView {
    LocationView::at(Base::Repository).join(".dev-suite"@).join("repo-config.toml"@)
}

/// The place of the user's configuration.
pub fn user_config_path() -> (place: Location)
    ensures
        place@ == user_config_place(),
{
    Location::at(Base::UserConfig).join("dev-suite").join("user-config.toml")
}

/// The place of the repository's configuration.
pub fn repo_config_path() -> (place: Location)
    ensures
        place@ == repo_config_place(),
{
    Location::at(Base::Repository).join(".dev-suite").join("repo-config.toml")
}

/// The document of a user's configuration.
pub open spec fn user_doc(user: UserConfigView) -> Doc {
    Doc::Table(seq![("name"@, Doc::Text(user.name)), ("uuid"@, Doc::Text(uuid_text(user.uuid)))])
}

/// The user that a document holds, or why it holds none: a table with a
/// text under `name` and an identifier under `uuid`.
pub open spec fn user_of(doc: Doc) -> Result<UserConfigView, Seq<char>> {
    match doc {
        Doc::Table(e) => if text_at(e, "name"@) is None {
            Err(field_error("name"@))
        } else if id_at(e, "uuid"@) is None {
            Err(field_error("uuid"@))
        } else {
            Ok(UserConfigView { name: text_at(e, "name"@)->0, uuid: id_at(e, "uuid"@)->0 })
        },
        _ => Err(not_a_table()),
    }
}

/// The item of the list of maintainers for one maintainer.
pub open spec fn maintainer_doc(m: (Seq<char>, u128)) -> Doc {
    Doc::List(seq![Doc::Text(m.0), Doc::Text(uuid_text(m.1))])
}

/// The maintainer that an item holds, if it holds one: a list of exactly two
/// texts, of which the second is an identifier.
pub open spec fn maintainer_of(item: Doc) -> Option<(Seq<char>, u128)> {
    match item {
        Doc::List(parts) => match all_texts(parts) {
            Some(t) => if t.len() == 2 {
                match uuid_parse(t[1]) {
                    Some(id) => Some((t[0], id)),
                    None => None,
                }
            } else {
                None
            },
            None => None,
        },
        _ => None,
    }
}

/// The maintainers that a list holds, if every item holds one.
pub open spec fn maintainers_of(items: Seq<Doc>) -> Option<Seq<(Seq<char>, u128)>> {
    if forall|i: int| 0 <= i < items.len() ==> maintainer_of(#[trigger] items[i]) is Some {
        Some(items.map_values(|d: Doc| maintainer_of(d)->0))
    } else {
        None
    }
}

/// The document of a repository's configuration.
pub open spec fn repo_doc(maintainers: Seq<(Seq<char>, u128)>) -> Doc {
    Doc::Table(
        seq![
            (
                "maintainers"@,
                Doc::List(maintainers.map_values(|m: (Seq<char>, u128)| maintainer_doc(m))),
            ),
        ],
    )
}

/// The maintainers that a document holds, or why it holds none: a table
/// with a list of maintainers under `maintainers`.
pub open spec fn repo_of(doc: Doc) -> Result<Seq<(Seq<char>, u128)>, Seq<char>> {
    match doc {
        Doc::Table(e) => match list_at(e, "maintainers"@) {
            Some(items) => match maintainers_of(items) {
                Some(m) => Ok(m),
                None => Err(field_error("maintainers"@)),
            },
            None => Err(field_error("maintainers"@)),
        },
        _ => Err(not_a_table()),
    }
}

/// What reading a configuration file comes to: a file that is not there
/// means that nothing was set up; a file that cannot be parsed or holds
/// something else is reported with its place and the reason.
pub open spec fn user_in(file: Option<Seq<u8>>) -> Result<UserConfigView, ErrorView> {
    match file {
        None => Err(ErrorView::NotInitialized),
        Some(bytes) => match parsed(bytes) {
            Err(reason) => Err(ErrorView::IOError(user_config_place().display(), reason)),
            Ok(doc) => match user_of(doc) {
                Ok(user) => Ok(user),
                Err(reason) => Err(ErrorView::IOError(user_config_place().display(), reason)),
            },
        },
    }
}

/// What reading the repository's configuration comes to.
pub open spec fn repo_in(file: Option<Seq<u8>>) -> Result<Seq<(Seq<char>, u128)>, ErrorView> {
    match file {
        None => Err(ErrorView::NotInitialized),
        Some(bytes) => match parsed(bytes) {
            Err(reason) => Err(ErrorView::IOError(repo_config_place().display(), reason)),
            Ok(doc) => match repo_of(doc) {
                Ok(m) => Ok(m),
                Err(reason) => Err(ErrorView::IOError(repo_config_place().display(), reason)),
            },
        },
    }
}

/// The bytes of a file that may be missing, as contracts see them.
pub open spec fn file_view(file: Option<&[u8]>) -> Option<Seq<u8>> {
    match file {
        Some(bytes) => Some(bytes@),
        None => None,
    }
}

/// The text `"missing or invalid field "` followed by `name`.
fn field_missing(name: &str) -> (reason: String)
    ensures
        reason@ == field_error(name@),
{
    String::from_str("missing or invalid field ").concat(name)
}

/// The user that the value `v` holds, or why it holds none.
pub fn user_from_value(v: &toml::Value) -> (r: Result<UserConfig, String>)
    ensures
        match r {
            Ok(u) => user_of(shape(*v)) == Ok::<UserConfigView, Seq<char>>(u@),
            Err(e) => user_of(shape(*v)) == Err::<UserConfigView, Seq<char>>(e@),
        },
{
    let entries = match as_table(v) {
        Some(entries) => entries,
        None => {
            return Err(String::from_str("expected a table"));
        },
    };
    let name = match get_text(&entries, "name") {
        Some(s) => s,
        None => {
            return Err(field_missing("name"));
        },
    };
    let uuid = match get_text(&entries, "uuid") {
        Some(s) => match parse_uuid(s.as_str()) {
            Some(id) => id,
            None => {
                return Err(field_missing("uuid"));
            },
        },
        None => {
            return Err(field_missing("uuid"));
        },
    };
    Ok(UserConfig { name, uuid })
}

/// The maintainer that the item `v` holds, if it holds one.
fn maintainer_from_value(v: &toml::Value) -> (m: Option<(String, u128)>)
    ensures
        match m {
            Some(pair) => maintainer_of(shape(*v)) == Some(maintainer_view(pair)),
            None => maintainer_of(shape(*v)) is None,
        },
{
    let items = match as_list(v) {
        Some(items) => items,
        None => {
            return None;
        },
    };
    let mut parts = match texts_of(&items) {
        Some(parts) => parts,
        None => {
            return None;
        },
    };
    if parts.len() != 2 {
        return None;
    }
    match parse_uuid(parts[1].as_str()) {
        Some(id) => {
            let ghost before = texts(parts@);
            let name = parts.remove(0);
            assert(name@ == before[0]);
            Some((name, id))
        },
        None => None,
    }
}

/// The repository's configuration that the value `v` holds, or why it holds
/// none.
pub fn repo_from_value(v: &toml::Value) -> (r: Result<RepoConfig, String>)
    ensures
        match r {
            Ok(repo) => repo_of(shape(*v)) == Ok::<Seq<(Seq<char>, u128)>, Seq<char>>(repo@),
            Err(e) => repo_of(shape(*v)) == Err::<Seq<(Seq<char>, u128)>, Seq<char>>(e@),
        },
{
    let entries = match as_table(v) {
        Some(entries) => entries,
        None => {
            return Err(String::from_str("expected a table"));
        },
    };
    let items = match get_list(&entries, "maintainers") {
        Some(items) => items,
        None => {
            return Err(field_missing("maintainers"));
        },
    };
    let ghost all = shapes(items@);
    let mut maintainers: Vec<(String, u128)> = Vec::new();
    let mut i: usize = 0;
    while i < items.len()
        invariant
            i <= items.len(),
            all == shapes(items@),
            maintainers.len() == i,
            repo_of(shape(*v)) == match maintainers_of(all) {
                Some(m) => Ok::<Seq<(Seq<char>, u128)>, Seq<char>>(m),
                None => Err(field_error("maintainers"@)),
            },
            forall|j: int|
                0 <= j < i ==> maintainer_of(all[j]) == Some(
                    maintainer_view(#[trigger] maintainers@[j]),
                ),
        decreases items.len() - i,
    {
        match maintainer_from_value(&items[i]) {
            Some(pair) => {
                maintainers.push(pair);
            },
            None => {
                assert(all[i as int] == shape(items@[i as int]));
                assert(maintainer_of(all[i as int]) is None);
                assert(maintainers_of(all) is None);
                return Err(field_missing("maintainers"));
            },
        }
        i += 1;
    }
    let repo = RepoConfig { maintainers };
    proof {
        assert forall|j: int| 0 <= j < all.len() implies maintainer_of(#[trigger] all[j])
            is Some by {
            assert(maintainer_of(all[j]) == Some(maintainer_view(maintainers@[j])));
        }
        assert(repo@ =~= all.map_values(|d: Doc| maintainer_of(d)->0));
    }
    Ok(repo)
}

/// Reads the user's configuration from the bytes of its file, or from the
/// lack of one.
pub fn get_user_config(file: Option<&[u8]>) -> (r: Result<UserConfig, Error>)
    ensures
        match r {
            Ok(u) => user_in(file_view(file)) == Ok::<UserConfigView, ErrorView>(u@),
            Err(e) => user_in(file_view(file)) == Err::<UserConfigView, ErrorView>(e@),
        },
{
    let bytes = match file {
        Some(bytes) => bytes,
        None => {
            return Err(Error::NotInitialized);
        },
    };
    let decoded = match parse(bytes) {
        Ok(v) => user_from_value(&v),
        Err(reason) => Err(reason),
    };
    match decoded {
        Ok(user) => Ok(user),
        Err(reason) => Err(Error::IOError(user_config_path().display(), reason)),
    }
}

/// Reads the repository's configuration from the bytes of its file, or from
/// the lack of one.
pub fn get_repo_config(file: Option<&[u8]>) -> (r: Result<RepoConfig, Error>)
    ensures
        match r {
            Ok(repo) => repo_in(file_view(file)) == Ok::<Seq<(Seq<char>, u128)>, ErrorView>(
                repo@,
            ),
            Err(e) => repo_in(file_view(file)) == Err::<Seq<(Seq<char>, u128)>, ErrorView>(e@),
        },
{
    let bytes = match file {
        Some(bytes) => bytes,
        None => {
            return Err(Error::NotInitialized);
        },
    };
    let decoded = match parse(bytes) {
        Ok(v) => repo_from_value(&v),
        Err(reason) => Err(reason),
    };
    match decoded {
        Ok(repo) => Ok(repo),
        Err(reason) => Err(Error::IOError(repo_config_path().display(), reason)),
    }
}

/// The keys of a user's table differ.
proof fn lemma_user_keys()
    ensures
        "name"@ != "uuid"@,
{
    reveal_strlit("name");
    reveal_strlit("uuid");
    assert("name"@[0] == 'n' && "uuid"@[0] == 'u');
}

/// A user's configuration as a TOML value. Read back, it is the user again.
pub fn user_value(user: &UserConfig) -> (v: toml::Value)
    ensures
        shape(v) == user_doc(user@),
        user_of(shape(v)) == Ok::<UserConfigView, Seq<char>>(user@),
{
    let mut entries: Vec<(String, toml::Value)> = Vec::new();
    entries.push((String::from_str("name"), text_value(user.name.clone())));
    entries.push((String::from_str("uuid"), text_value(format_uuid(user.uuid))));
    proof {
        lemma_user_keys();
        reveal_with_fuel(lookup, 3);
        let made = entry_shapes(entries@);
        let wanted = user_doc(user@)->Table_0;
        assert(made[0] == wanted[0]);
        assert(made[1] == wanted[1]);
        assert(made =~= wanted);
        assert(keys_of(entries@) =~= seq!["name"@, "uuid"@]);
    }
    table_value(entries)
}

/// The maintainers as a TOML value. Read back, they are the maintainers
/// again.
pub fn repo_value(repo: &RepoConfig) -> (v: toml::Value)
    ensures
        shape(v) == repo_doc(repo@),
        repo_of(shape(v)) == Ok::<Seq<(Seq<char>, u128)>, Seq<char>>(repo@),
{
    let mut items: Vec<toml::Value> = Vec::new();
    let mut i: usize = 0;
    while i < repo.maintainers.len()
        invariant
            i <= repo.maintainers.len(),
            items.len() == i,
            forall|j: int|
                0 <= j < i ==> shape(#[trigger] items@[j]) == maintainer_doc(repo@[j])
                    && readable(repo@[j].1),
        decreases repo.maintainers.len() - i,
    {
        let mut parts: Vec<toml::Value> = Vec::new();
        parts.push(text_value(repo.maintainers[i].0.clone()));
        parts.push(text_value(format_uuid(repo.maintainers[i].1)));
        assert(shapes(parts@) =~= seq![
            Doc::Text(repo@[i as int].0),
            Doc::Text(uuid_text(repo@[i as int].1)),
        ]);
        items.push(list_value(parts));
        i += 1;
    }
    let mut entries: Vec<(String, toml::Value)> = Vec::new();
    entries.push((String::from_str("maintainers"), list_value(items)));
    proof {
        let listed = repo@.map_values(|m: (Seq<char>, u128)| maintainer_doc(m));
        assert(shapes(items@) =~= listed);
        let made = entry_shapes(entries@);
        assert(made =~= repo_doc(repo@)->Table_0);
        reveal_with_fuel(lookup, 2);
        assert forall|j: int| 0 <= j < listed.len() implies maintainer_of(#[trigger] listed[j])
            == Some(repo@[j]) by {
            let parts = listed[j]->List_0;
            assert(parts[0] is Text && parts[1] is Text);
            assert(all_texts(parts)->0 =~= seq![repo@[j].0, uuid_text(repo@[j].1)]);
            assert(readable(repo@[j].1));
        }
        assert(maintainers_of(listed)->0 =~= repo@);
        assert(keys_of(entries@) =~= seq!["maintainers"@]);
    }
    table_value(entries)
}

/// What writing a user's configuration comes to.
pub open spec fn user_written(user: UserConfigView) -> Result<EffectView, ErrorView> {
    match printed(user_doc(user)) {
        Ok(text) => Ok(EffectView::Write(user_config_place(), text)),
        Err(reason) => Err(ErrorView::IOError(user_config_place().display(), reason)),
    }
}

/// What writing a repository's configuration comes to.
pub open spec fn repo_written(maintainers: Seq<(Seq<char>, u128)>) -> Result<
    EffectView,
    ErrorView,
> {
    match printed(repo_doc(maintainers)) {
        Ok(text) => Ok(EffectView::Write(repo_config_place(), text)),
        Err(reason) => Err(ErrorView::IOError(repo_config_place().display(), reason)),
    }
}

/// An effect or a failure, as contracts see it.
pub open spec fn effect_view(r: Result<Effect, Error>) -> Result<EffectView, ErrorView> {
    match r {
        Ok(effect) => Ok(effect@),
        Err(e) => Err(e@),
    }
}

/// Writes the user's configuration: says what is to be written where.
pub fn set_user_config(user: &UserConfig) -> (r: Result<Effect, Error>)
    ensures
        effect_view(r) == user_written(user@),
{
    match print(&user_value(user)) {
        Ok(text) => Ok(Effect::Write(user_config_path(), text)),
        Err(reason) => Err(Error::IOError(user_config_path().display(), reason)),
    }
}

/// Writes the repository's configuration: says what is to be written where.
pub fn set_repo_config(repo: &RepoConfig) -> (r: Result<Effect, Error>)
    ensures
        effect_view(r) == repo_written(repo@),
{
    match print(&repo_value(repo)) {
        Ok(text) => Ok(Effect::Write(repo_config_path(), text)),
        Err(reason) => Err(Error::IOError(repo_config_path().display(), reason)),
    }
}

/// What creating a configuration wants done: the directory is made where it
/// is missing, and the file is written where it is missing. What exists is
/// left alone.
pub open spec fn creating(
    dir: LocationView,
    dir_exists: bool,
    file_exists: bool,
    written: Result<EffectView, ErrorView>,
) -> Result<Seq<EffectView>, ErrorView> {
    let made = if dir_exists {
        Seq::empty()
    } else {
        seq![EffectView::CreateDir(dir)]
    };
    if file_exists {
        Ok(made)
    } else {
        match written {
            Ok(effect) => Ok(made.push(effect)),
            Err(e) => Err(e),
        }
    }
}

/// Creates the configuration of the user `user` unless there is one.
pub fn create_user_config_for(user: &UserConfig, dir_exists: bool, file_exists: bool) -> (r: Result<
    Vec<Effect>,
    Error,
>)
    ensures
        plan_view(r) == creating(
            LocationView::at(Base::UserConfig).join("dev-suite"@),
            dir_exists,
            file_exists,
            user_written(user@),
        ),
{
    let mut effects: Vec<Effect> = Vec::new();
    if !dir_exists {
        effects.push(Effect::CreateDir(Location::at(Base::UserConfig).join("dev-suite")));
    }
    let ghost made = effect_views(effects@);
    assert(made =~= if dir_exists {
        Seq::<EffectView>::empty()
    } else {
        seq![EffectView::CreateDir(LocationView::at(Base::UserConfig).join("dev-suite"@))]
    });
    if !file_exists {
        match set_user_config(user) {
            Ok(effect) => {
                effects.push(effect);
                assert(effect_views(effects@) =~= made.push(effect@));
            },
            Err(e) => {
                return Err(e);
            },
        }
    }
    Ok(effects)
}

/// Creates the configuration of a user called `name`, with a fresh random
/// identifier, unless there is a configuration already. Which identifier the
/// user gets is a matter of chance.
pub fn create_user_config(name: String, dir_exists: bool, file_exists: bool) -> (r: Result<
    Vec<Effect>,
    Error,
>)
    ensures
        exists|uuid: u128|
            is_v4(uuid) && plan_view(r) == creating(
                LocationView::at(Base::UserConfig).join("dev-suite"@),
                dir_exists,
                file_exists,
                #[trigger] user_written(UserConfigView { name: name@, uuid }),
            ),
{
    let user = UserConfig::new(name);
    let r = create_user_config_for(&user, dir_exists, file_exists);
    assert(is_v4(user.uuid) && plan_view(r) == creating(
        LocationView::at(Base::UserConfig).join("dev-suite"@),
        dir_exists,
        file_exists,
        user_written(UserConfigView { name: name@, uuid: user.uuid }),
    ));
    r
}

/// Creates the configuration of the repository, without maintainers,
/// unless there is one.
pub fn create_repo_config(dir_exists: bool, file_exists: bool) -> (r: Result<Vec<Effect>, Error>)
    ensures
        plan_view(r) == creating(
            LocationView::at(Base::Repository).join(".dev-suite"@),
            dir_exists,
            file_exists,
            repo_written(Seq::empty()),
        ),
{
    let mut effects: Vec<Effect> = Vec::new();
    if !dir_exists {
        effects.push(Effect::CreateDir(Location::at(Base::Repository).join(".dev-suite")));
    }
    let ghost made = effect_views(effects@);
    assert(made =~= if dir_exists {
        Seq::<EffectView>::empty()
    } else {
        seq![EffectView::CreateDir(LocationView::at(Base::Repository).join(".dev-suite"@))]
    });
    if !file_exists {
        match set_repo_config(&RepoConfig::new()) {
            Ok(effect) => {
                effects.push(effect);
                assert(effect_views(effects@) =~= made.push(effect@));
            },
            Err(e) => {
                return Err(e);
            },
        }
    }
    Ok(effects)
}

/// What adding the user to the maintainers wants done: both configurations
/// are read, the repository's first; if the user is listed nothing is done,
/// else the repository's configuration is written with the user at the end.
pub open spec fn adding(repo_file: Option<Seq<u8>>, user_file: Option<Seq<u8>>) -> Result<
    Seq<EffectView>,
    ErrorView,
> {
    match repo_in(repo_file) {
        Err(e) => Err(e),
        Ok(maintainers) => match user_in(user_file) {
            Err(e) => Err(e),
            Ok(user) => if maintainers.contains((user.name, user.uuid)) {
                Ok(Seq::empty())
            } else {
                match repo_written(maintainers.push((user.name, user.uuid))) {
                    Ok(effect) => Ok(seq![effect]),
                    Err(e) => Err(e),
                }
            },
        },
    }
}

/// Adds the user to the maintainers of the repository. `repo_file` and
/// `user_file` are the bytes of the two configuration files, where they
/// exist.
pub fn add_self_to_maintainers(repo_file: Option<&[u8]>, user_file: Option<&[u8]>) -> (r: Result<
    Vec<Effect>,
    Error,
>)
    ensures
        plan_view(r) == adding(file_view(repo_file), file_view(user_file)),
{
    let mut repo = match get_repo_config(repo_file) {
        Ok(repo) => repo,
        Err(e) => {
            return Err(e);
        },
    };
    let user = match get_user_config(user_file) {
        Ok(user) => user,
        Err(e) => {
            return Err(e);
        },
    };
    let mut effects: Vec<Effect> = Vec::new();
    if repo.add(&user) {
        match set_repo_config(&repo) {
            Ok(effect) => {
                effects.push(effect);
                assert(effect_views(effects@) =~= seq![effect@]);
            },
            Err(e) => {
                return Err(e);
            },
        }
    } else {
        assert(effect_views(effects@) =~= Seq::<EffectView>::empty());
    }
    Ok(effects)
}

/// The line that shows a name and an identifier.
pub open spec fn shown_line(name: Seq<char>, uuid: u128) -> Seq<char> {
    name + " - "@ + uuid_text(uuid)
}

/// The line that shows a name and an identifier written as `id`.
pub fn name_and_id(name: &str, id: &str) -> (line: String)
    ensures
        line@ == name@ + " - "@ + id@,
{
    String::from_str(name).concat(" - ").concat(id)
}

/// The line that shows the user.
pub fn show_user_config(user: &UserConfig) -> (line: String)
    ensures
        line@ == shown_line(user.name@, user.uuid),
{
    name_and_id(user.name.as_str(), format_uuid(user.uuid).as_str())
}

/// The lines that show the maintainers, one for each, in their order.
pub fn show_repo_config(repo: &RepoConfig) -> (lines: Vec<String>)
    ensures
        texts(lines@) == repo@.map_values(|m: (Seq<char>, u128)| shown_line(m.0, m.1)),
{
    let mut lines: Vec<String> = Vec::new();
    let mut i: usize = 0;
    while i < repo.maintainers.len()
        invariant
            i <= repo.maintainers.len(),
            lines.len() == i,
            forall|j: int|
                0 <= j < i ==> (#[trigger] lines@[j])@ == shown_line(repo@[j].0, repo@[j].1),
        decreases repo.maintainers.len() - i,
    {
        lines.push(
            name_and_id(
                repo.maintainers[i].0.as_str(),
                format_uuid(repo.maintainers[i].1).as_str(),
            ),
        );
        i += 1;
    }
    assert(texts(lines@) =~= repo@.map_values(|m: (Seq<char>, u128)| shown_line(m.0, m.1)));
    lines
}

} // verus!
