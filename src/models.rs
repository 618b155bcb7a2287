//! The version descriptor, profile and progress types.
//!
//! Maps keyed by strings in the descriptor documents (native classifiers,
//! asset objects) are held as vectors of `(key, value)` entries in document
//! order; a lookup takes the first entry with the key.
use vstd::prelude::*;

verus! {

/// The list of published versions.
#[derive(Clone, Debug)]
pub struct VersionManifest {
    pub versions: Vec<VersionInfo>,
}

/// Where a version's asset index lives, and its id.
#[derive(Clone, Debug)]
pub struct AssetIndex {
    pub id: String,
    pub url: String,
}

/// The runtime a version asks for.
#[derive(Clone, Debug)]
pub struct JavaVersion {
    pub component: String,
    pub major_version: u32,
}

impl JavaVersion {
    pub fn get_major_version(&self) -> (r: u32)
        ensures
            r == self.major_version,
    {
        self.major_version
    }
}

/// The descriptor of one version: what it needs and how to start it.
#[derive(Clone, Debug)]
pub struct VersionData {
    pub downloads: Downloads,
    pub libraries: Vec<Library>,
    pub main_class: String,
    pub asset_index: AssetIndex,
    pub java_version: Option<JavaVersion>,
}

impl VersionData {
    /// The runtime major version that the descriptor names, if it names one.
    pub fn get_required_java_version(&self) -> (r: Option<u32>)
        ensures
            r == (match self.java_version {
                Some(j) => Some(j.major_version),
                None => None,
            }),
    {
        match &self.java_version {
            Some(j) => Some(j.get_major_version()),
            None => None,
        }
    }
}

/// One entry of the version manifest.
#[derive(Clone, Debug)]
pub struct VersionInfo {
    pub id: String,
    pub release_type: String,
    pub url: String,
}

/// The main archive's download.
#[derive(Clone, Debug)]
pub struct Downloads {
    pub client: DownloadInfo,
}

/// The objects of an asset index: `(virtual path, object)` entries.
#[derive(Clone, Debug)]
pub struct AssetIndexData {
    pub objects: Vec<(String, AssetObject)>,
}

/// One asset object, addressed by the hash of its bytes.
#[derive(Clone, Debug)]
pub struct AssetObject {
    pub hash: String,
}

#[derive(Clone, Debug)]
pub struct DownloadInfo {
    pub url: String,
}

/// A dependency of a version.
#[derive(Clone, Debug)]
pub struct Library {
    pub downloads: Option<LibraryDownloads>,
    pub rules: Vec<Rule>,
    /// `(platform name, classifier)` entries.
    pub natives: Option<Vec<(String, String)>>,
    pub extract: Option<Extract>,
}

/// The primary file of a library and its platform-specific bundles.
#[derive(Clone, Debug)]
pub struct LibraryDownloads {
    pub artifact: Option<Artifact>,
    /// `(classifier, artifact)` entries.
    pub classifiers: Option<Vec<(String, Artifact)>>,
}

/// A fetchable file: its path below its category's directory and its URL.
#[derive(Clone, Debug)]
pub struct Artifact {
    pub path: String,
    pub url: String,
}

/// A conditional rule: `action` is `"allow"` or `"deny"`.
#[derive(Clone, Debug)]
pub struct Rule {
    pub action: String,
    pub os: Option<Os>,
}

#[derive(Clone, Debug)]
pub struct Os {
    pub name: Option<String>,
}

/// Archive entries to leave out when a native bundle is unpacked.
#[derive(Clone, Debug)]
pub struct Extract {
    pub exclude: Option<Vec<String>>,
}

/// A player profile: a name and optional extra runtime arguments.
#[derive(Clone, Debug)]
pub struct Profile {
    pub username: String,
    pub jvm_args: Option<String>,
}

/// The first value of `key` among `(key, value)` entries.
pub open spec fn lookup<V>(entries: Seq<(String, V)>, key: Seq<char>) -> Option<V>
    decreases entries.len(),
{
    if entries.len() == 0 {
        None
    } else if entries[0].0@ == key {
        Some(entries[0].1)
    } else {
        lookup(entries.drop_first(), key)
    }
}

/// The platform the launcher runs on.
#[derive(Clone, Copy, Debug, PartialEq, Eq, Structural)]
pub enum Platform {
    Windows,
    Linux,
    Osx,
}

/// The name that descriptor rules and native maps use for a platform.
pub open spec fn platform_name(p: Platform) -> Seq<char> {
    match p {
        Platform::Windows => "windows"@,
        Platform::Linux => "linux"@,
        Platform::Osx => "osx"@,
    }
}

/// The name that descriptor rules and native maps use for `platform`.
pub fn get_current_os(platform: Platform) -> (r: &'static str)
    ensures
        r@ == platform_name(platform),
{
    match platform {
        Platform::Windows => "windows",
        Platform::Linux => "linux",
        Platform::Osx => "osx",
    }
}

/// The stages of a launch, in the order in which they are reached.
#[derive(Clone, Copy, Debug, PartialEq, Eq, Structural)]
pub enum LaunchStage {
    PreparingLibraries,
    DownloadingLibraries,
    ExtractingNatives,
    PreparingAssets,
    DownloadingAssets,
    AssetLoadComplete,
    ValidatingJava,
    BuildingArguments,
    StartingProcess,
    ProcessStarted,
    LaunchingGame,
    Complete,
}

/// The position of a stage in launch order.
pub open spec fn stage_rank(s: LaunchStage) -> nat {
    match s {
        LaunchStage::PreparingLibraries => 0,
        LaunchStage::DownloadingLibraries => 1,
        LaunchStage::ExtractingNatives => 2,
        LaunchStage::PreparingAssets => 3,
        LaunchStage::DownloadingAssets => 4,
        LaunchStage::AssetLoadComplete => 5,
        LaunchStage::ValidatingJava => 6,
        LaunchStage::BuildingArguments => 7,
        LaunchStage::StartingProcess => 8,
        LaunchStage::ProcessStarted => 9,
        LaunchStage::LaunchingGame => 10,
        LaunchStage::Complete => 11,
    }
}

/// The percentage at which a stage starts.
pub open spec fn stage_base(s: LaunchStage) -> nat {
    match s {
        LaunchStage::PreparingLibraries => 0,
        LaunchStage::DownloadingLibraries => 10,
        LaunchStage::ExtractingNatives => 20,
        LaunchStage::PreparingAssets => 30,
        LaunchStage::DownloadingAssets => 40,
        LaunchStage::AssetLoadComplete => 50,
        LaunchStage::ValidatingJava => 60,
        LaunchStage::BuildingArguments => 70,
        LaunchStage::StartingProcess => 80,
        LaunchStage::ProcessStarted => 90,
        LaunchStage::LaunchingGame => 95,
        LaunchStage::Complete => 100,
    }
}

/// The percentage at which a stage ends: the start of the next one.
pub open spec fn stage_end(s: LaunchStage) -> nat {
    match s {
        LaunchStage::PreparingLibraries => 10,
        LaunchStage::DownloadingLibraries => 20,
        LaunchStage::ExtractingNatives => 30,
        LaunchStage::PreparingAssets => 40,
        LaunchStage::DownloadingAssets => 50,
        LaunchStage::AssetLoadComplete => 60,
        LaunchStage::ValidatingJava => 70,
        LaunchStage::BuildingArguments => 80,
        LaunchStage::StartingProcess => 90,
        LaunchStage::ProcessStarted => 95,
        LaunchStage::LaunchingGame => 100,
        LaunchStage::Complete => 100,
    }
}

/// The overall progress, in hundredths of a percent, of `current` out of
/// `total` within `stage`: the stage's share of `[0, 100]`, interpolated
/// linearly and rounded down. With `total == 0` the launch counts as done.
pub open spec fn percentage_spec(stage: LaunchStage, current: nat, total: nat) -> nat {
    if total == 0 {
        10000
    } else {
        let c = if current < total {
            current
        } else {
            total
        };
        stage_base(stage) * 100 + (c * ((stage_end(stage) - stage_base(stage)) as nat) * 100)
            / total
    }
}

/// A progress report sent from the launch to whoever displays it.
#[derive(Clone, Debug)]
pub struct LaunchProgress {
    pub stage: LaunchStage,
    pub message: String,
    pub current: usize,
    pub total: usize,
}

fn stage_bounds(s: LaunchStage) -> (r: (u32, u32))
    ensures
        r.0 == stage_base(s),
        r.1 == stage_end(s),
{
    match s {
        LaunchStage::PreparingLibraries => (0, 10),
        LaunchStage::DownloadingLibraries => (10, 20),
        LaunchStage::ExtractingNatives => (20, 30),
        LaunchStage::PreparingAssets => (30, 40),
        LaunchStage::DownloadingAssets => (40, 50),
        LaunchStage::AssetLoadComplete => (50, 60),
        LaunchStage::ValidatingJava => (60, 70),
        LaunchStage::BuildingArguments => (70, 80),
        LaunchStage::StartingProcess => (80, 90),
        LaunchStage::ProcessStarted => (90, 95),
        LaunchStage::LaunchingGame => (95, 100),
        LaunchStage::Complete => (100, 100),
    }
}

impl LaunchProgress {
    /// The overall progress in hundredths of a percent (`0..=10000`).
    pub fn percentage(&self) -> (r: u32)
        ensures
            r == percentage_spec(self.stage, self.current as nat, self.total as nat),
            r <= 10000,
    {
        if self.total == 0 {
            return 10000;
        }
        let (base, end) = stage_bounds(self.stage);
        let t = self.total as u128;
        let c: u128 = if self.current < self.total {
            self.current as u128
        } else {
            self.total as u128
        };
        let width = (end - base) as u128;
        assert(c * width <= t * 10) by (nonlinear_arith)
            requires
                c <= t,
                width <= 10,
        ;
        assert(t * 10 <= 10 * 0xffff_ffff_ffff_ffff) by (nonlinear_arith)
            requires
                t <= 0xffff_ffff_ffff_ffff,
        ;
        let part = (c * width * 100) / t;
        assert(part <= width * 100) by {
            lemma_share_within(c as nat, width as nat, t as nat);
        }
        (base as u128 * 100 + part) as u32
    }
}

/// `c` out of `t` of a span of `w` (scaled by 100) lies within that span.
proof fn lemma_share_within(c: nat, w: nat, t: nat)
    requires
        c <= t,
        t > 0,
    ensures
        (c * w * 100) / t <= w * 100,
        c == 0 ==> (c * w * 100) / t == 0,
        c == t ==> (c * w * 100) / t == w * 100,
{
    assert(c * w * 100 <= t * (w * 100)) by (nonlinear_arith)
        requires
            c <= t,
    ;
    vstd::arithmetic::div_mod::lemma_div_is_ordered(
        (c * w * 100) as int,
        (t * (w * 100)) as int,
        t as int,
    );
    vstd::arithmetic::div_mod::lemma_div_multiples_vanish((w * 100) as int, t as int);
    if c == t {
        assert(c * w * 100 == t * (w * 100)) by (nonlinear_arith)
            requires
                c == t,
        ;
    }
}

/// Within one stage and for a fixed total, the percentage never decreases
/// as `current` grows.
pub proof fn lemma_percentage_monotonic(stage: LaunchStage, c1: nat, c2: nat, total: nat)
    requires
        c1 <= c2,
    ensures
        percentage_spec(stage, c1, total) <= percentage_spec(stage, c2, total),
{
    if total > 0 {
        let a = if c1 < total {
            c1
        } else {
            total
        };
        let b = if c2 < total {
            c2
        } else {
            total
        };
        let w = (stage_end(stage) - stage_base(stage)) as nat;
        assert(a * w * 100 <= b * w * 100) by (nonlinear_arith)
            requires
                a <= b,
        ;
        vstd::arithmetic::div_mod::lemma_div_is_ordered(
            (a * w * 100) as int,
            (b * w * 100) as int,
            total as int,
        );
    }
}

/// A stage's percentages start at its base value, reach the start of the
/// next stage once `current` reaches `total`, and stay in between.
pub proof fn lemma_percentage_stage_span(stage: LaunchStage, current: nat, total: nat)
    requires
        total > 0,
    ensures
        stage_base(stage) * 100 <= percentage_spec(stage, current, total) <= stage_end(stage) * 100,
        current == 0 ==> percentage_spec(stage, current, total) == stage_base(stage) * 100,
        current >= total ==> percentage_spec(stage, current, total) == stage_end(stage) * 100,
        percentage_spec(stage, current, total) <= 10000,
{
    let c = if current < total {
        current
    } else {
        total
    };
    let w = (stage_end(stage) - stage_base(stage)) as nat;
    lemma_share_within(c, w, total);
}

/// Each stage ends where the next one in launch order starts, so reports
/// whose stages never go back never show a smaller percentage.
pub proof fn lemma_percentage_across_stages(
    s1: LaunchStage,
    c1: nat,
    t1: nat,
    s2: LaunchStage,
    c2: nat,
    t2: nat,
)
    requires
        stage_rank(s1) < stage_rank(s2),
        t1 > 0,
        t2 > 0,
    ensures
        percentage_spec(s1, c1, t1) <= percentage_spec(s2, c2, t2),
{
    lemma_percentage_stage_span(s1, c1, t1);
    lemma_percentage_stage_span(s2, c2, t2);
    assert(stage_end(s1) <= stage_base(s2));
}

} // verus!
