//! The launch command: which runtime a version needs, and the exact
//! argument list the runtime is started with.
use vstd::prelude::*;

use crate::models::{JavaVersion, Profile, VersionData};
use crate::resolver::{is_legacy_index, string_views};
use crate::text::{seq_starts_with, text_eq, text_starts_with};

verus! {

/// What a version needs from its runtime: a major version, and whether only
/// that exact major will do.
#[derive(Clone, Copy, Debug, PartialEq, Eq, Structural)]
pub struct RuntimeRequirement {
    pub major: u32,
    pub strict: bool,
}

/// The id prefixes of the versions that predate runtime metadata and run
/// only on major version 8.
pub open spec fn legacy_runtime_prefixes() -> Seq<Seq<char>> {
    seq!["a"@, "b"@, "1.8"@, "1.7"@, "1.6"@, "1.5"@, "1.4"@, "1.3"@, "1.2"@, "1.1"@, "1.0"@]
}

/// The version id begins with one of the legacy prefixes.
pub open spec fn needs_legacy_runtime(id: Seq<char>) -> bool {
    exists|i: int|
        0 <= i < legacy_runtime_prefixes().len() && seq_starts_with(
            id,
            #[trigger] legacy_runtime_prefixes()[i],
        )
}

/// The runtime a version needs: the one its descriptor names, not strictly;
/// else exactly 8 for legacy ids; else 17 or newer.
pub open spec fn runtime_requirement_spec(id: Seq<char>, java: Option<JavaVersion>) -> RuntimeRequirement {
    match java {
        Some(j) => RuntimeRequirement { major: j.major_version, strict: false },
        None => if needs_legacy_runtime(id) {
            RuntimeRequirement { major: 8, strict: true }
        } else {
            RuntimeRequirement { major: 17, strict: false }
        },
    }
}

fn starts_with_legacy_prefix(id: &str) -> (r: bool)
    ensures
        r == needs_legacy_runtime(id@),
{
    let prefixes: Vec<&'static str> = vec!["a", "b", "1.8", "1.7", "1.6", "1.5", "1.4", "1.3", "1.2", "1.1", "1.0"];
    let ghost views = seq!["a"@, "b"@, "1.8"@, "1.7"@, "1.6"@, "1.5"@, "1.4"@, "1.3"@, "1.2"@, "1.1"@, "1.0"@];
    assert(views =~= legacy_runtime_prefixes());
    assert forall|k: int| 0 <= k < 11 implies (#[trigger] prefixes@[k])@ == views[k] by {}
    let mut i: usize = 0;
    while i < prefixes.len()
        invariant
            i <= prefixes@.len(),
            prefixes@.len() == 11,
            views == legacy_runtime_prefixes(),
            forall|k: int| 0 <= k < 11 ==> (#[trigger] prefixes@[k])@ == views[k],
            forall|k: int| 0 <= k < i ==> !seq_starts_with(id@, #[trigger] views[k]),
        decreases prefixes@.len() - i,
    {
        if text_starts_with(id, prefixes[i]) {
            assert(seq_starts_with(id@, views[i as int]));
            return true;
        }
        i = i + 1;
    }
    false
}

/// The runtime that the version `version_id` with descriptor `data` needs.
pub fn runtime_requirement(version_id: &str, data: &VersionData) -> (r: RuntimeRequirement)
    ensures
        r == runtime_requirement_spec(version_id@, data.java_version),
{
    match data.get_required_java_version() {
        Some(major) => RuntimeRequirement { major, strict: false },
        None => if starts_with_legacy_prefix(version_id) {
            RuntimeRequirement { major: 8, strict: true }
        } else {
            RuntimeRequirement { major: 17, strict: false }
        },
    }
}

/// The words of `s` between runs of white space, as `str::split_whitespace`
/// yields them.
pub uninterp spec fn whitespace_words(s: Seq<char>) -> Seq<Seq<char>>;

/// Relies on `str::split_whitespace`: the words of `s`, in order, without
/// the white space around them.
#[verifier::external_body]
fn split_words(s: &str) -> (r: Vec<String>)
    ensures
        string_views(r@) == whitespace_words(s@),
{
    s.split_whitespace().map(|w| w.to_string()).collect()
}

/// The first profile named `username`.
pub open spec fn find_profile(profiles: Seq<Profile>, username: Seq<char>) -> Option<Profile>
    decreases profiles.len(),
{
    if profiles.len() == 0 {
        None
    } else if profiles[0].username@ == username {
        Some(profiles[0])
    } else {
        find_profile(profiles.drop_first(), username)
    }
}

/// The extra runtime arguments of the first profile named `username`: the
/// words of its argument string, if it has one.
pub open spec fn profile_args_spec(profiles: Seq<Profile>, username: Seq<char>) -> Option<
    Seq<Seq<char>>,
> {
    match find_profile(profiles, username) {
        Some(p) => match p.jvm_args {
            Some(a) => Some(whitespace_words(a@)),
            None => None,
        },
        None => None,
    }
}

/// The extra runtime arguments that the profile named `username` asks for.
pub fn jvm_args_for(profiles: &Vec<Profile>, username: &str) -> (r: Option<Vec<String>>)
    ensures
        match r {
            Some(v) => profile_args_spec(profiles@, username@) == Some(string_views(v@)),
            None => profile_args_spec(profiles@, username@) is None,
        },
{
    let mut i: usize = 0;
    assert(profiles@.subrange(0, profiles@.len() as int) =~= profiles@);
    while i < profiles.len()
        invariant
            i <= profiles@.len(),
            find_profile(profiles@, username@) == find_profile(
                profiles@.subrange(i as int, profiles@.len() as int),
                username@,
            ),
        decreases profiles@.len() - i,
    {
        let ghost rest = profiles@.subrange(i as int, profiles@.len() as int);
        assert(rest.drop_first() =~= profiles@.subrange(i + 1, profiles@.len() as int));
        assert(rest[0] == profiles@[i as int]);
        if text_eq(profiles[i].username.as_str(), username) {
            return match &profiles[i].jvm_args {
                Some(a) => Some(split_words(a.as_str())),
                None => None,
            };
        }
        i = i + 1;
    }
    None
}

/// Everything the launch command is built from. Paths are as the platform
/// writes them.
#[derive(Clone, Debug)]
pub struct LaunchOptions {
    pub version_id: String,
    pub username: String,
    /// The entry point named by the descriptor; empty when it names none.
    pub main_class: String,
    pub classpath: String,
    pub natives_dir: String,
    pub game_dir: String,
    /// The assets directory, and its `legacy` mirror for legacy indexes.
    pub assets_dir: String,
    pub legacy_assets_dir: String,
    pub asset_index_id: String,
    /// Extra runtime arguments; none means the default heap settings.
    pub jvm_args: Option<Vec<String>>,
}

/// The heap settings used when a profile gives no runtime arguments.
pub open spec fn default_jvm_args() -> Seq<Seq<char>> {
    seq!["-Xms512M"@, "-Xmx2G"@]
}

/// Version ids of the alpha and beta eras, started with positional arguments.
pub open spec fn positional_launch(id: Seq<char>) -> bool {
    seq_starts_with(id, "a"@) || seq_starts_with(id, "b"@)
}

/// The asset index is one of the legacy layouts.
pub open spec fn legacy_index_spec(id: Seq<char>) -> bool {
    id == "legacy"@ || id == "pre-1.6"@
}

/// The runtime arguments: extra ones, the native path, launcher identity and
/// the classpath.
pub open spec fn runtime_args_spec(o: LaunchOptions) -> Seq<Seq<char>> {
    let extra = match o.jvm_args {
        Some(v) => string_views(v@),
        None => default_jvm_args(),
    };
    extra + seq![
        "-Djava.library.path="@ + o.natives_dir@,
        "-Dminecraft.launcher.brand=CustomLauncher"@,
        "-Dminecraft.launcher.version=1.0"@,
        "-cp"@,
        o.classpath@,
    ]
}

/// The game arguments of the flag form: identity, directories, the asset
/// index (for non-legacy indexes) and placeholder credentials.
pub open spec fn game_args_spec(o: LaunchOptions) -> Seq<Seq<char>> {
    let main = if o.main_class@.len() == 0 {
        "net.minecraft.client.main.Main"@
    } else {
        o.main_class@
    };
    let assets = if legacy_index_spec(o.asset_index_id@) {
        o.legacy_assets_dir@
    } else {
        o.assets_dir@
    };
    let index = if legacy_index_spec(o.asset_index_id@) {
        Seq::<Seq<char>>::empty()
    } else {
        seq!["--assetIndex"@, o.asset_index_id@]
    };
    seq![
        main,
        "--username"@,
        o.username@,
        "--version"@,
        o.version_id@,
        "--gameDir"@,
        o.game_dir@,
        "--assetsDir"@,
        assets,
    ] + index + seq![
        "--accessToken"@,
        "0"@,
        "--uuid"@,
        "00000000-0000-0000-0000-000000000000"@,
        "--userProperties"@,
        "{}"@,
    ]
}

/// The full argument list passed to the runtime.
pub open spec fn launch_arguments_spec(o: LaunchOptions) -> Seq<Seq<char>> {
    if positional_launch(o.version_id@) {
        runtime_args_spec(o) + seq![
            "net.minecraft.client.Minecraft"@,
            o.username@,
            "token:0:0"@,
        ]
    } else {
        runtime_args_spec(o) + game_args_spec(o)
    }
}

fn push_str(v: &mut Vec<String>, s: &str)
    ensures
        string_views(final(v)@) == string_views(old(v)@).push(s@),
{
    let ghost before = v@;
    v.push(String::from_str(s));
    assert(string_views(v@) =~= string_views(before).push(s@));
}

fn concat_args(a: &mut Vec<String>, mut b: Vec<String>)
    ensures
        string_views(final(a)@) == string_views(old(a)@) + string_views(b@),
{
    let ghost a0 = a@;
    let ghost b0 = b@;
    a.append(&mut b);
    assert(string_views(a@) =~= string_views(a0) + string_views(b0));
}

fn runtime_args(o: &LaunchOptions) -> (r: Vec<String>)
    ensures
        string_views(r@) == runtime_args_spec(*o),
{
    let mut args: Vec<String> = Vec::new();
    match &o.jvm_args {
        Some(extra) => {
            let mut i: usize = 0;
            while i < extra.len()
                invariant
                    i <= extra@.len(),
                    string_views(args@) == string_views(extra@.subrange(0, i as int)),
                decreases extra@.len() - i,
            {
                push_str(&mut args, extra[i].as_str());
                i = i + 1;
                assert(string_views(extra@.subrange(0, i as int)) =~= string_views(
                    extra@.subrange(0, i - 1),
                ).push(extra@[i - 1]@));
            }
            assert(extra@.subrange(0, i as int) =~= extra@);
        },
        None => {
            push_str(&mut args, "-Xms512M");
            push_str(&mut args, "-Xmx2G");
            assert(string_views(args@) =~= default_jvm_args());
        },
    }
    let mut library_path = String::from_str("-Djava.library.path=");
    library_path.append(o.natives_dir.as_str());
    push_str(&mut args, library_path.as_str());
    push_str(&mut args, "-Dminecraft.launcher.brand=CustomLauncher");
    push_str(&mut args, "-Dminecraft.launcher.version=1.0");
    push_str(&mut args, "-cp");
    push_str(&mut args, o.classpath.as_str());
    assert(string_views(args@) =~= runtime_args_spec(*o));
    args
}

fn game_args_head(o: &LaunchOptions) -> (r: Vec<String>)
    ensures
        string_views(r@) == seq![
            if o.main_class@.len() == 0 {
                "net.minecraft.client.main.Main"@
            } else {
                o.main_class@
            },
            "--username"@,
            o.username@,
            "--version"@,
            o.version_id@,
            "--gameDir"@,
            o.game_dir@,
            "--assetsDir"@,
            if legacy_index_spec(o.asset_index_id@) {
                o.legacy_assets_dir@
            } else {
                o.assets_dir@
            },
        ],
{
    let mut args: Vec<String> = Vec::new();
    if o.main_class.as_str().unicode_len() == 0 {
        push_str(&mut args, "net.minecraft.client.main.Main");
    } else {
        push_str(&mut args, o.main_class.as_str());
    }
    push_str(&mut args, "--username");
    push_str(&mut args, o.username.as_str());
    push_str(&mut args, "--version");
    push_str(&mut args, o.version_id.as_str());
    push_str(&mut args, "--gameDir");
    push_str(&mut args, o.game_dir.as_str());
    push_str(&mut args, "--assetsDir");
    if is_legacy_index(o.asset_index_id.as_str()) {
        push_str(&mut args, o.legacy_assets_dir.as_str());
    } else {
        push_str(&mut args, o.assets_dir.as_str());
    }
    args
}

fn game_args_tail(o: &LaunchOptions) -> (r: Vec<String>)
    ensures
        string_views(r@) == (if legacy_index_spec(o.asset_index_id@) {
            Seq::<Seq<char>>::empty()
        } else {
            seq!["--assetIndex"@, o.asset_index_id@]
        }) + seq![
            "--accessToken"@,
            "0"@,
            "--uuid"@,
            "00000000-0000-0000-0000-000000000000"@,
            "--userProperties"@,
            "{}"@,
        ],
{
    let mut args: Vec<String> = Vec::new();
    if !is_legacy_index(o.asset_index_id.as_str()) {
        push_str(&mut args, "--assetIndex");
        push_str(&mut args, o.asset_index_id.as_str());
    }
    push_str(&mut args, "--accessToken");
    push_str(&mut args, "0");
    push_str(&mut args, "--uuid");
    push_str(&mut args, "00000000-0000-0000-0000-000000000000");
    push_str(&mut args, "--userProperties");
    push_str(&mut args, "{}");
    args
}

/// The arguments the runtime is started with, in order.
pub fn build_launch_arguments(o: &LaunchOptions) -> (r: Vec<String>)
    ensures
        string_views(r@) == launch_arguments_spec(*o),
{
    let mut args = runtime_args(o);
    let id = o.version_id.as_str();
    if text_starts_with(id, "a") || text_starts_with(id, "b") {
        let mut tail: Vec<String> = Vec::new();
        push_str(&mut tail, "net.minecraft.client.Minecraft");
        push_str(&mut tail, o.username.as_str());
        push_str(&mut tail, "token:0:0");
        concat_args(&mut args, tail);
        return args;
    }
    let head = game_args_head(o);
    let tail = game_args_tail(o);
    let ghost hv = string_views(head@);
    let ghost tv = string_views(tail@);
    concat_args(&mut args, head);
    concat_args(&mut args, tail);
    assert(hv + tv =~= game_args_spec(*o));
    assert(string_views(args@) =~= runtime_args_spec(*o) + game_args_spec(*o));
    args
}

} // verus!
