//! Finding and starting the desktop program on Windows.

use crate::error::{AppError, ErrorModel};
use crate::outside::{first_group, maybe, regex_group};
use crate::platform::{same_installation, Installation, InstallationModel};
use crate::text::{
    ascii_lowercase, contains_text, join2, lower, occurs, replace_char, replaced, texts,
};
use vstd::prelude::*;

verus! {

/// Where an installation keeps its executable, most likely place first.
pub const EXECUTABLE_LOCATIONS: [&'static str; 6] = [
    "app\\Codex.exe",
    "app\\ChatGPT.exe",
    "Codex.exe",
    "ChatGPT.exe",
    "OpenAI Codex.exe",
    "app\\OpenAI Codex.exe",
];

/// The directories below the user's local data that may hold an installation.
pub const LOCAL_LOCATIONS: [&'static str; 4] = [
    "Programs\\Codex",
    "Programs\\OpenAI Codex",
    "Codex",
    "OpenAI\\Codex",
];

/// The directories below a directory of programs that may hold an installation.
pub const PROGRAM_LOCATIONS: [&'static str; 2] = ["Codex", "OpenAI\\Codex"];

/// What names the executable in the manifest of a package.
pub const MANIFEST_PATTERN: &'static str =
    "(?i)<Application\\b[^>]*\\bExecutable\\s*=\\s*[\\\"']([^\\\"']+)[\\\"']";

/// The identity under which the packaged program is activated.
pub const APPLICATION_ID: &'static str = "OpenAI.Codex_2p2nqsd0c76g0!App";

/// A file that exists, with the directory that holds it.
#[derive(Debug)]
pub struct Located {
    pub executable: String,
    pub parent: Option<String>,
}

/// What stands at a path.
#[derive(Debug)]
pub enum Probe {
    /// A file.
    File(Located),
    /// A directory: for each of [`EXECUTABLE_LOCATIONS`] the file that stands there, and the
    /// file that the package's manifest names.
    Directory(Vec<Option<Located>>, Option<Located>),
    /// Neither.
    Missing,
}

/// The installation that runs a file; none where no directory holds the file.
pub open spec fn located_installation(found: Located) -> Option<InstallationModel> {
    match found.parent {
        Some(parent) => Some(
            InstallationModel { app_path: parent@, executable: found.executable@ },
        ),
        None => None,
    }
}

/// Whether `k` is the first place at which a file stands.
pub open spec fn first_found(places: Seq<Option<Located>>, k: int) -> bool {
    &&& 0 <= k < places.len()
    &&& places[k] is Some
    &&& forall|i: int| 0 <= i < k ==> (#[trigger] places[i]) is None
}

/// What an outcome holds.
pub open spec fn installation_of(found: Option<Installation>) -> Option<InstallationModel> {
    match found {
        Some(installation) => Some(installation@),
        None => None,
    }
}

fn run_from(found: &Located) -> (r: Option<Installation>)
    ensures
        installation_of(r) == located_installation(*found),
{
    match &found.parent {
        Some(parent) => Some(
            Installation { app_path: parent.clone(), executable: found.executable.clone() },
        ),
        None => None,
    }
}

/// The installation at a path: the file itself, or in a directory the first of the known
/// places that holds a file, or else the file that the manifest names.
pub fn installation_from_path(probe: &Probe) -> (r: Option<Installation>)
    ensures
        match *probe {
            Probe::File(found) => installation_of(r) == located_installation(found),
            Probe::Directory(places, packaged) => {
                &&& forall|k: int| #[trigger]
                    first_found(places@, k) ==> installation_of(r) == located_installation(
                        places@[k]->0,
                    )
                &&& (forall|k: int| !#[trigger] first_found(places@, k)) ==> match packaged {
                    Some(found) => installation_of(r) == located_installation(found),
                    None => r is None,
                }
            },
            Probe::Missing => r is None,
        },
{
    match probe {
        Probe::File(found) => run_from(found),
        Probe::Directory(places, packaged) => {
            let mut i: usize = 0;
            while i < places.len()
                invariant
                    i <= places@.len(),
                    *probe == Probe::Directory(*places, *packaged),
                    forall|j: int| 0 <= j < i ==> (#[trigger] places@[j]) is None,
                decreases places@.len() - i,
            {
                if let Some(found) = &places[i] {
                    assert(first_found(places@, i as int));
                    assert forall|k: int| #[trigger] first_found(places@, k) implies k == i by {
                        assert(k < i ==> places@[k] is None);
                        assert(k > i ==> places@[i as int] is None);
                    }
                    return run_from(found);
                }
                i += 1;
            }
            match packaged {
                Some(found) => run_from(found),
                None => None,
            }
        },
        Probe::Missing => None,
    }
}

/// The executable that the manifest of a package names, as a path below the package.
pub open spec fn manifest_names(contents: Seq<char>) -> Option<Seq<char>> {
    named_executable(regex_group(MANIFEST_PATTERN@, contents))
}

/// The path that a captured name stands for: slashes become backslashes.
pub open spec fn named_executable(captured: Option<Seq<char>>) -> Option<Seq<char>> {
    match captured {
        Some(name) => Some(replaced(name, '/', '\\')),
        None => None,
    }
}

/// The path that a captured name stands for.
pub fn executable_path(captured: Option<String>) -> (r: Option<String>)
    ensures
        maybe(r) == named_executable(maybe(captured)),
{
    match captured {
        Some(name) => Some(replace_char(&name, '/', '\\')),
        None => None,
    }
}

/// The executable that the manifest of a package names, as a path below the package.
pub fn manifest_executable(contents: &str) -> (r: Option<String>)
    ensures
        maybe(r) == manifest_names(contents@),
{
    executable_path(first_group(MANIFEST_PATTERN, contents))
}

/// A directory below another.
#[derive(Debug)]
pub struct Location {
    pub base: String,
    pub relative: &'static str,
}

/// The directories `relatives` below `base`, if there is one.
pub open spec fn below(base: Option<String>, relatives: Seq<&'static str>) -> Seq<
    (Seq<char>, Seq<char>),
> {
    match base {
        Some(base) => Seq::new(relatives.len(), |i: int| (base@, relatives[i]@)),
        None => Seq::empty(),
    }
}

/// What a list of locations holds.
pub open spec fn location_models(list: Seq<Location>) -> Seq<(Seq<char>, Seq<char>)> {
    Seq::new(list.len(), |i: int| (list[i].base@, list[i].relative@))
}

/// The usual places of an installation, in the order in which they are tried.
pub open spec fn usual_places(local: Option<String>, programs: Option<String>, programs_x86: Option<
    String,
>) -> Seq<(Seq<char>, Seq<char>)> {
    below(local, LOCAL_LOCATIONS@) + below(programs, PROGRAM_LOCATIONS@) + below(
        programs_x86,
        PROGRAM_LOCATIONS@,
    )
}

fn add_below(list: &mut Vec<Location>, base: &Option<String>, relatives: &[&'static str])
    ensures
        location_models(final(list)@) == location_models(old(list)@) + below(*base, relatives@),
{
    if let Some(base_path) = base {
        let mut i: usize = 0;
        let ghost before = list@;
        while i < relatives.len()
            invariant
                i <= relatives@.len(),
                before == old(list)@,
                *base == Some(*base_path),
                location_models(list@) == location_models(before) + below(*base, relatives@).take(
                    i as int,
                ),
            decreases relatives@.len() - i,
        {
            let ghost seen = list@;
            list.push(Location { base: base_path.clone(), relative: relatives[i] });
            assert(location_models(list@) =~= location_models(seen).push(
                (base_path@, relatives@[i as int]@),
            ));
            assert(below(*base, relatives@).take(i + 1) =~= below(*base, relatives@).take(
                i as int,
            ).push((base_path@, relatives@[i as int]@)));
            i += 1;
        }
        assert(below(*base, relatives@).take(i as int) =~= below(*base, relatives@));
    }
    assert(base is None ==> location_models(list@) =~= location_models(old(list)@) + below(
        *base,
        relatives@,
    ));
}

/// The usual places of an installation: below the user's local data, then below the two
/// directories of programs, as far as they are known.
pub fn common_install_locations(
    local: Option<String>,
    programs: Option<String>,
    programs_x86: Option<String>,
) -> (r: Vec<Location>)
    ensures
        location_models(r@) == usual_places(local, programs, programs_x86),
{
    let mut list: Vec<Location> = Vec::new();
    add_below(&mut list, &local, &LOCAL_LOCATIONS);
    add_below(&mut list, &programs, &PROGRAM_LOCATIONS);
    add_below(&mut list, &programs_x86, &PROGRAM_LOCATIONS);
    assert(location_models(Seq::<Location>::empty()) =~= Seq::empty());
    assert(location_models(list@) =~= usual_places(local, programs, programs_x86));
    list
}

/// Whether a registered package is the program, by its name.
pub fn is_codex_package(name: &str) -> (r: bool)
    ensures
        r == occurs(lower(name@), "codex"@),
{
    let low = ascii_lowercase(name);
    contains_text(&low, "codex")
}

/// An installation that was found, and when its executable was last changed, in nanoseconds
/// since the epoch, where that is known.
#[derive(Debug)]
pub struct Candidate {
    pub installation: Installation,
    pub modified: Option<i128>,
}

/// Whether one time of change comes before another; an unknown one comes before all others.
pub open spec fn earlier(a: Option<i128>, b: Option<i128>) -> bool {
    match (a, b) {
        (None, Some(_)) => true,
        (Some(x), Some(y)) => x < y,
        _ => false,
    }
}

/// Whether the `k`-th candidate is the one changed last; of several the last in the list.
pub open spec fn newest(candidates: Seq<Candidate>, k: int) -> bool {
    &&& 0 <= k < candidates.len()
    &&& forall|i: int|
        0 <= i < k ==> !earlier(candidates[k].modified, (#[trigger] candidates[i]).modified)
    &&& forall|i: int|
        k < i < candidates.len() ==> earlier(
            (#[trigger] candidates[i]).modified,
            candidates[k].modified,
        )
}

fn is_earlier(a: Option<i128>, b: Option<i128>) -> (r: bool)
    ensures
        r == earlier(a, b),
{
    match (a, b) {
        (None, Some(_)) => true,
        (Some(x), Some(y)) => x < y,
        _ => false,
    }
}

/// What the user reads where nothing was found.
pub open spec fn nothing_found() -> ErrorModel {
    ErrorModel::Message(
        "未找到 Windows Codex 安装。请安装 Codex，或将 CODEX_APP_PATH 设置为 Codex.exe、ChatGPT.exe 或其安装目录。"@,
    )
}

/// Whether an outcome is the installation to use: the configured one, or else the candidate
/// changed last, or else an error.
pub open spec fn found(
    configured: Option<Installation>,
    candidates: Seq<Candidate>,
    outcome: Result<Installation, AppError>,
) -> bool {
    match configured {
        Some(installation) => outcome is Ok && outcome->Ok_0@ == installation@,
        None => if candidates.len() > 0 {
            outcome is Ok && exists|k: int| #[trigger]
                newest(candidates, k) && outcome->Ok_0@ == candidates[k].installation@
        } else {
            outcome is Err && outcome->Err_0@ == nothing_found()
        },
    }
}

/// The installation to use.
pub fn discover(configured: Option<Installation>, candidates: &Vec<Candidate>) -> (r: Result<
    Installation,
    AppError,
>)
    ensures
        found(configured, candidates@, r),
{
    if let Some(installation) = configured {
        return Ok(installation);
    }
    if candidates.len() == 0 {
        return Err(
            AppError::Message(
                "未找到 Windows Codex 安装。请安装 Codex，或将 CODEX_APP_PATH 设置为 Codex.exe、ChatGPT.exe 或其安装目录。".to_owned(),
            ),
        );
    }
    let mut best: usize = 0;
    let mut i: usize = 1;
    while i < candidates.len()
        invariant
            best < i <= candidates@.len(),
            newest(candidates@.take(i as int), best as int),
        decreases candidates@.len() - i,
    {
        let ghost before = candidates@.take(i as int);
        let ghost after = candidates@.take(i + 1);
        let ghost last = best as int;
        assert forall|j: int| 0 <= j < i implies after[j] == before[j] by {}
        if !is_earlier(candidates[i].modified, candidates[best].modified) {
            best = i;
            assert forall|j: int| 0 <= j < i implies !earlier(
                after[i as int].modified,
                (#[trigger] after[j]).modified,
            ) by {
                assert(after[j] == before[j]);
                assert(after[last] == before[last]);
            }
        } else {
            assert forall|j: int| best < j < after.len() implies earlier(
                (#[trigger] after[j]).modified,
                after[best as int].modified,
            ) by {
                if j < i {
                    assert(after[j] == before[j]);
                }
            }
            assert forall|j: int| 0 <= j < best implies !earlier(
                after[best as int].modified,
                (#[trigger] after[j]).modified,
            ) by {
                assert(after[j] == before[j]);
            }
        }
        i += 1;
    }
    assert(candidates@.take(i as int) =~= candidates@);
    Ok(same_installation(&candidates[best].installation))
}

/// The arguments that open the debugging port, on the loopback address only; empty texts
/// otherwise.
pub fn launch_arguments(enable_cdp: bool) -> (r: [&'static str; 2])
    ensures
        texts(r@) == if enable_cdp {
            seq!["--remote-debugging-address=127.0.0.1"@, "--remote-debugging-port=9229"@]
        } else {
            seq![""@, ""@]
        },
{
    let r = if enable_cdp {
        ["--remote-debugging-address=127.0.0.1", "--remote-debugging-port=9229"]
    } else {
        ["", ""]
    };
    assert(texts(r@) =~= if enable_cdp {
        seq!["--remote-debugging-address=127.0.0.1"@, "--remote-debugging-port=9229"@]
    } else {
        seq![""@, ""@]
    });
    r
}

/// How the program is started.
#[derive(Debug)]
pub enum Start {
    /// Run the executable with these arguments.
    Run(Vec<&'static str>),
    /// Activate the package with this line of arguments; where that fails, run the executable.
    Activate(&'static str, &'static str),
}

/// The arguments with which the executable itself is run.
pub open spec fn run_arguments(enable_cdp: bool) -> Seq<Seq<char>> {
    if enable_cdp {
        seq!["--remote-debugging-address=127.0.0.1"@, "--remote-debugging-port=9229"@]
    } else {
        Seq::empty()
    }
}

/// The arguments with which the executable itself is run: those of [`launch_arguments`] that
/// are not empty.
pub fn executable_arguments(enable_cdp: bool) -> (r: Vec<&'static str>)
    ensures
        texts(r@) == run_arguments(enable_cdp),
{
    proof {
        reveal_strlit("--remote-debugging-address=127.0.0.1");
        reveal_strlit("--remote-debugging-port=9229");
        reveal_strlit("");
    }
    let arguments = launch_arguments(enable_cdp);
    let mut list: Vec<&'static str> = Vec::new();
    assert(texts(arguments@)[0] == arguments@[0]@);
    assert(texts(arguments@)[1] == arguments@[1]@);
    if !arguments[0].is_empty() {
        list.push(arguments[0]);
    }
    if !arguments[1].is_empty() {
        list.push(arguments[1]);
    }
    assert(texts(list@) =~= run_arguments(enable_cdp));
    list
}

/// Whether an executable belongs to the package of the store, by its path.
pub open spec fn store_package(executable: Seq<char>) -> bool {
    occurs(lower(executable), "\\windowsapps\\openai.codex_"@)
}

/// What a [`Start`] says.
pub enum StartModel {
    Run(Seq<Seq<char>>),
    Activate(Seq<char>, Seq<char>),
}

impl View for Start {
    type V = StartModel;

    open spec fn view(&self) -> StartModel {
        match self {
            Start::Run(arguments) => StartModel::Run(texts(arguments@)),
            Start::Activate(application, arguments) => StartModel::Activate(
                application@,
                arguments@,
            ),
        }
    }
}

/// How an executable is started: one of a package of the store by activation, any other by
/// running it.
pub open spec fn start_of(executable: Seq<char>, enable_cdp: bool) -> StartModel {
    if store_package(executable) {
        StartModel::Activate(
            APPLICATION_ID@,
            if enable_cdp {
                "--remote-debugging-address=127.0.0.1 --remote-debugging-port=9229"@
            } else {
                ""@
            },
        )
    } else {
        StartModel::Run(run_arguments(enable_cdp))
    }
}

/// How an installation is started.
pub fn start(installation: &Installation, enable_cdp: bool) -> (r: Start)
    ensures
        r@ == start_of(installation.executable@, enable_cdp),
{
    let low = ascii_lowercase(&installation.executable);
    if contains_text(&low, "\\windowsapps\\openai.codex_") {
        Start::Activate(
            APPLICATION_ID,
            if enable_cdp {
                "--remote-debugging-address=127.0.0.1 --remote-debugging-port=9229"
            } else {
                ""
            },
        )
    } else {
        Start::Run(executable_arguments(enable_cdp))
    }
}

/// What is left to do after an activation: nothing where it succeeded, or else to run the
/// executable, since some packages go by another identifier.
pub fn after_activation(succeeded: bool, enable_cdp: bool) -> (r: Option<Start>)
    ensures
        match r {
            Some(start) => !succeeded && start@ == StartModel::Run(run_arguments(enable_cdp)),
            None => succeeded,
        },
{
    if succeeded {
        None
    } else {
        Some(Start::Run(executable_arguments(enable_cdp)))
    }
}

/// The error when the component services could not be set up.
pub fn com_failed(error: &str) -> (r: AppError)
    ensures
        r@ == ErrorModel::Message("初始化 Windows COM 失败："@ + error@),
{
    AppError::Message(join2("初始化 Windows COM 失败：", error))
}

/// The error when the activator could not be made.
pub fn activator_failed(error: &str) -> (r: AppError)
    ensures
        r@ == ErrorModel::Message("创建 Codex 激活器失败："@ + error@),
{
    AppError::Message(join2("创建 Codex 激活器失败：", error))
}

} // verus!
