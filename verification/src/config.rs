//! Where the inbox lies and whose it is, from the configuration and the working directory.
use vstd::prelude::*;

use crate::text::{cut_once, split_at_mark, strip_tail, without_tail, words};

verus! {

/// A JSON value of `serde_json`.
#[verifier::external_type_specification]
#[verifier::external_body]
pub struct ExValue(serde_json::Value);

/// The members of a JSON object that are strings, by their keys. A value that is no object
/// has none.
pub uninterp spec fn string_members(config: serde_json::Value) -> Map<Seq<char>, Seq<char>>;

/// `Value::get` with a key, and `Value::as_str` of what it finds: the string that the object
/// holds under the key. There is none where the value is no object, where it holds nothing
/// under the key, and where what it holds is no string.
#[verifier::external_body]
fn string_member<'a>(config: &'a serde_json::Value, key: &str) -> (text: Option<&'a str>)
    ensures
        text is Some <==> string_members(*config).dom().contains(key@),
        text matches Some(found) ==> found@ == string_members(*config)[key@],
{
    config.get(key).and_then(serde_json::Value::as_str)
}

/// The string under a key, if there is one.
pub open spec fn member(members: Map<Seq<char>, Seq<char>>, key: Seq<char>) -> Option<Seq<char>> {
    if members.dom().contains(key) {
        Some(members[key])
    } else {
        None
    }
}

/// The text, if there is one, as a sequence of characters.
pub open spec fn text_of(text: Option<&str>) -> Option<Seq<char>> {
    match text {
        Some(text) => Some(text@),
        None => None,
    }
}

/// What a setting comes to: its own text, or a fallback where there is none or it is empty.
pub open spec fn setting(value: Option<Seq<char>>, fallback: Seq<char>) -> Seq<char> {
    match value {
        Some(text) if text.len() > 0 => text,
        _ => fallback,
    }
}

/// Where a path starts.
#[derive(Debug, PartialEq, Eq)]
pub enum InboxRoot {
    /// The directory of the configuration.
    ConfigDir,
    /// The directory of the program's state.
    StateDir,
    /// The working directory.
    WorkingDir,
    /// A path that the configuration gives.
    Given(String),
}

/// A directory: where the way to it starts, and the names that lead on from there.
#[derive(Debug, PartialEq, Eq)]
pub struct InboxPath {
    pub root: InboxRoot,
    pub names: Vec<String>,
}

/// Where a path starts, with texts as sequences of characters.
pub enum PathRoot {
    ConfigDir,
    StateDir,
    WorkingDir,
    Given(Seq<char>),
}

impl View for InboxRoot {
    type V = PathRoot;

    open spec fn view(&self) -> PathRoot {
        match self {
            InboxRoot::ConfigDir => PathRoot::ConfigDir,
            InboxRoot::StateDir => PathRoot::StateDir,
            InboxRoot::WorkingDir => PathRoot::WorkingDir,
            InboxRoot::Given(path) => PathRoot::Given(path@),
        }
    }
}

impl View for InboxPath {
    type V = (PathRoot, Seq<Seq<char>>);

    open spec fn view(&self) -> (PathRoot, Seq<Seq<char>>) {
        (self.root@, words(self.names@))
    }
}

impl InboxPath {
    /// The directory itself that paths start from.
    pub fn at(root: InboxRoot) -> (path: Self)
        ensures
            path@.0 == root@,
            path@.1 == Seq::<Seq<char>>::empty(),
    {
        InboxPath { root, names: Vec::new() }
    }

    /// The directory of this name below this one.
    pub fn join(self, name: &str) -> (path: Self)
        ensures
            path@.0 == self@.0,
            path@.1 == self@.1.push(name@),
    {
        let InboxPath { root, mut names } = self;
        let ghost before = names@;
        names.push(name.to_owned());
        assert(words(names@) =~= words(before).push(name@));
        InboxPath { root, names }
    }
}

impl Clone for InboxPath {
    fn clone(&self) -> (path: Self)
        ensures
            path@ == self@,
    {
        let root = match &self.root {
            InboxRoot::ConfigDir => InboxRoot::ConfigDir,
            InboxRoot::StateDir => InboxRoot::StateDir,
            InboxRoot::WorkingDir => InboxRoot::WorkingDir,
            InboxRoot::Given(path) => InboxRoot::Given(path.clone()),
        };
        let mut names: Vec<String> = Vec::new();
        let mut index: usize = 0;
        while index < self.names.len()
            invariant
                index <= self.names.len(),
                names@ =~= self.names@.take(index as int),
            decreases self.names.len() - index,
        {
            names.push(self.names[index].clone());
            index += 1;
        }
        assert(names@ =~= self.names@);
        InboxPath { root, names }
    }
}

/// Where the inbox lies, where messages wait for approval, where state is kept, and who
/// speaks from where.
#[derive(Debug, Clone, PartialEq, Eq)]
pub struct InboxEnv {
    pub inbox_dir: InboxPath,
    pub pending_dir: InboxPath,
    pub state_dir: InboxPath,
    pub oracle: String,
    pub node: String,
}

/// The inbox's directory: `inbox` in the configured directory, else in `ψ` below the
/// working directory, if that is there, else in `psi` below it.
pub open spec fn inbox_place(psi: Option<Seq<char>>, unicode_exists: bool) -> (
    PathRoot,
    Seq<Seq<char>>,
) {
    match psi {
        Some(path) => (PathRoot::Given(path), seq!["inbox"@]),
        None => if unicode_exists {
            (PathRoot::WorkingDir, seq!["ψ"@, "inbox"@])
        } else {
            (PathRoot::WorkingDir, seq!["psi"@, "inbox"@])
        },
    }
}

/// The name of the directory two above one that these names lead to: one of the names, or
/// the name of the directory they start from, where exactly two lead on from there. Of what
/// lies further up nothing is known.
pub open spec fn two_above(names: Seq<Seq<char>>, root_name: Option<Seq<char>>) -> Option<
    Seq<char>,
> {
    if names.len() > 2 {
        Some(names[names.len() - 3])
    } else if names.len() == 2 {
        root_name
    } else {
        None
    }
}

/// The oracle that a repository's name gives: without the mark of a work tree and what
/// follows it, and without `-oracle` behind it.
pub open spec fn oracle_of_repo(name: Seq<char>) -> Option<Seq<char>> {
    let base = match cut_once(name, ".wt-"@) {
        Some((front, _)) => front,
        None => name,
    };
    let oracle = without_tail(base, "-oracle"@);
    if oracle.len() > 0 {
        Some(oracle)
    } else {
        None
    }
}

/// The oracle that the inbox belongs to: the configured one where the inbox's directory is
/// configured too, else the one that the repository's name gives, if it gives one.
pub open spec fn inbox_owner(
    psi: Option<Seq<char>>,
    oracle: Option<Seq<char>>,
    repo: Option<Seq<char>>,
) -> Seq<char> {
    let configured = setting(oracle, "local"@);
    match repo {
        Some(name) if psi is None => match oracle_of_repo(name) {
            Some(named) => named,
            None => configured,
        },
        _ => configured,
    }
}

/// Whether the surroundings are those that the settings give, in a working directory of this
/// name.
pub open spec fn is_env(
    env: InboxEnv,
    psi: Option<Seq<char>>,
    oracle: Option<Seq<char>>,
    node: Option<Seq<char>>,
    unicode_exists: bool,
    working_name: Option<Seq<char>>,
) -> bool {
    &&& env.inbox_dir@ == inbox_place(psi, unicode_exists)
    &&& env.pending_dir@ == (PathRoot::ConfigDir, seq!["pending"@])
    &&& env.state_dir@ == (PathRoot::StateDir, Seq::<Seq<char>>::empty())
    &&& env.oracle@ == inbox_owner(
        psi,
        oracle,
        two_above(inbox_place(psi, unicode_exists).1, working_name),
    )
    &&& env.node@ == setting(node, "cli"@)
}

/// A configured directory keeps the configured oracle, whatever the repository is called.
pub proof fn given_place_keeps_its_owner(
    path: Seq<char>,
    oracle: Option<Seq<char>>,
    repo: Option<Seq<char>>,
)
    ensures
        inbox_owner(Some(path), oracle, repo) == setting(oracle, "local"@),
        inbox_place(Some(path), true) == inbox_place(Some(path), false),
        inbox_place(Some(path), true).0 == PathRoot::Given(path),
{
}

/// Without a configured directory, the name of the working directory decides over the
/// configured oracle, so two repositories under one configuration keep two inboxes apart.
pub proof fn repository_decides_over_configuration(
    oracle: Option<Seq<char>>,
    other: Option<Seq<char>>,
    unicode_exists: bool,
    name: Seq<char>,
)
    requires
        oracle_of_repo(name) is Some,
    ensures
        two_above(inbox_place(None, unicode_exists).1, Some(name)) == Some(name),
        inbox_owner(None, oracle, Some(name)) == oracle_of_repo(name)->0,
        inbox_owner(None, oracle, Some(name)) == inbox_owner(None, other, Some(name)),
{
}

/// What a setting comes to: its own text, or a fallback where there is none or it is empty.
pub fn inbox_setting(value: Option<&str>, fallback: &str) -> (text: String)
    ensures
        text@ == setting(text_of(value), fallback@),
{
    match value {
        Some(text) if !text.is_empty() => text.to_owned(),
        _ => fallback.to_owned(),
    }
}

/// The inbox's directory, where `psi` is configured or nothing is. `unicode_exists` says
/// whether `ψ/inbox` is there below the working directory.
pub fn inbox_place_from(psi: Option<&str>, unicode_exists: bool) -> (path: InboxPath)
    ensures
        path@ == inbox_place(text_of(psi), unicode_exists),
{
    let path = match psi {
        Some(psi) => InboxPath::at(InboxRoot::Given(psi.to_owned())).join("inbox"),
        None => if unicode_exists {
            InboxPath::at(InboxRoot::WorkingDir).join("ψ").join("inbox")
        } else {
            InboxPath::at(InboxRoot::WorkingDir).join("psi").join("inbox")
        },
    };
    assert(path@.1 =~= inbox_place(text_of(psi), unicode_exists).1);
    path
}

/// The name of the directory two above this one. `root_name` is the name of the directory
/// that the path starts from.
pub fn inbox_repo_of<'a>(path: &'a InboxPath, root_name: Option<&'a str>) -> (name: Option<&'a str>)
    ensures
        text_of(name) == two_above(path@.1, text_of(root_name)),
{
    let count: usize = path.names.len();
    assert(path@.1.len() == count);
    if count > 2 {
        Some(path.names[count - 3].as_str())
    } else if count == 2 {
        root_name
    } else {
        None
    }
}

/// The oracle that an inbox's place gives. `repo` is the name of the directory two above the
/// inbox, if there is one and its name is a text.
pub fn inbox_oracle_from_dir(repo: Option<&str>) -> (oracle: Option<String>)
    ensures
        match oracle {
            Some(oracle) => repo matches Some(name) && oracle_of_repo(name@) == Some(oracle@),
            None => repo matches Some(name) ==> oracle_of_repo(name@) is None,
        },
{
    let name = match repo {
        Some(name) => name,
        None => {
            return None;
        },
    };
    let base = match split_at_mark(name, ".wt-") {
        Some((front, _)) => front,
        None => name,
    };
    let oracle = strip_tail(base, "-oracle");
    if oracle.is_empty() {
        None
    } else {
        Some(oracle.to_owned())
    }
}

/// The oracle that the inbox belongs to, from the two settings that bear on it.
pub fn inbox_owner_from(psi: Option<&str>, oracle: Option<&str>, repo: Option<&str>) -> (owner:
    String)
    ensures
        owner@ == inbox_owner(text_of(psi), text_of(oracle), text_of(repo)),
{
    if psi.is_some() {
        return inbox_setting(oracle, "local");
    }
    match inbox_oracle_from_dir(repo) {
        Some(owner) => owner,
        None => inbox_setting(oracle, "local"),
    }
}

/// Everything the inbox has to know of its surroundings, from the three settings that bear on
/// it and the name of the working directory.
pub fn inbox_env_from_settings(
    psi: Option<&str>,
    oracle: Option<&str>,
    node: Option<&str>,
    unicode_exists: bool,
    working_name: Option<&str>,
) -> (env: InboxEnv)
    ensures
        is_env(
            env,
            text_of(psi),
            text_of(oracle),
            text_of(node),
            unicode_exists,
            text_of(working_name),
        ),
{
    let inbox_dir = inbox_place_from(psi, unicode_exists);
    let owner = inbox_owner_from(psi, oracle, inbox_repo_of(&inbox_dir, working_name));
    let pending_dir = InboxPath::at(InboxRoot::ConfigDir).join("pending");
    assert(pending_dir@.1 =~= seq!["pending"@]);
    InboxEnv {
        inbox_dir,
        pending_dir,
        state_dir: InboxPath::at(InboxRoot::StateDir),
        oracle: owner,
        node: inbox_setting(node, "cli"),
    }
}

/// A string of the configuration, or a fallback where there is none or it is empty.
pub fn inbox_config_string(config: &serde_json::Value, key: &str, fallback: &str) -> (text: String)
    ensures
        text@ == setting(member(string_members(*config), key@), fallback@),
{
    inbox_setting(string_member(config, key), fallback)
}

/// The inbox's directory. `unicode_exists` says whether `ψ/inbox` is there below the working
/// directory.
pub fn inbox_resolve_dir(config: &serde_json::Value, unicode_exists: bool) -> (path: InboxPath)
    ensures
        path@ == inbox_place(member(string_members(*config), "psiPath"@), unicode_exists),
{
    inbox_place_from(string_member(config, "psiPath"), unicode_exists)
}

/// The oracle that the inbox belongs to. `repo` is the name of the directory two above it.
pub fn inbox_resolve_oracle(config: &serde_json::Value, repo: Option<&str>) -> (oracle: String)
    ensures
        oracle@ == inbox_owner(
            member(string_members(*config), "psiPath"@),
            member(string_members(*config), "oracle"@),
            text_of(repo),
        ),
{
    inbox_owner_from(string_member(config, "psiPath"), string_member(config, "oracle"), repo)
}

/// Everything the inbox has to know of its surroundings, in a working directory of this name.
pub fn inbox_env_from_config(
    config: &serde_json::Value,
    unicode_exists: bool,
    working_name: Option<&str>,
) -> (env: InboxEnv)
    ensures
        is_env(
            env,
            member(string_members(*config), "psiPath"@),
            member(string_members(*config), "oracle"@),
            member(string_members(*config), "node"@),
            unicode_exists,
            text_of(working_name),
        ),
{
    inbox_env_from_settings(
        string_member(config, "psiPath"),
        string_member(config, "oracle"),
        string_member(config, "node"),
        unicode_exists,
        working_name,
    )
}

/// Where messages wait for approval among the program's state.
pub fn inbox_state_pending_dir(env: &InboxEnv) -> (path: InboxPath)
    ensures
        path@.0 == env.state_dir@.0,
        path@.1 == env.state_dir@.1.push("pending"@),
{
    env.state_dir.clone().join("pending")
}

/// Where a day's archive lies.
pub open spec fn processed_place(env: InboxEnv, day: Seq<char>) -> (PathRoot, Seq<Seq<char>>) {
    (env.inbox_dir@.0, env.inbox_dir@.1.push("processed"@).push(day))
}

/// Where a day's archive lies.
pub fn inbox_processed_dir(env: &InboxEnv, day: &str) -> (path: InboxPath)
    ensures
        path@ == processed_place(*env, day@),
{
    env.inbox_dir.clone().join("processed").join(day)
}

} // verus!
