//! Finding and starting the desktop program on macOS.

use crate::error::{AppError, ErrorModel};
use crate::platform::Installation;
use crate::text::texts;
use vstd::prelude::*;

verus! {

/// The names of the executable in a bundle, most likely first.
pub const EXECUTABLE_NAMES: [&'static str; 3] = ["Codex", "ChatGPT", "OpenAI Codex"];

/// The bundles that may hold the program, as paths from the root or from the user's home.
pub const BUNDLES: [(bool, &'static str); 4] = [
    (false, "/Applications/Codex.app"),
    (true, "Applications/Codex.app"),
    (false, "/Applications/ChatGPT.app"),
    (true, "Applications/ChatGPT.app"),
];

/// A place to look for a bundle.
#[derive(Debug)]
pub struct Place {
    /// Whether the path starts at the user's home.
    pub in_home: bool,
    pub path: String,
}

/// What a list of places holds.
pub open spec fn place_models(list: Seq<Place>) -> Seq<(bool, Seq<char>)> {
    Seq::new(list.len(), |i: int| (list[i].in_home, list[i].path@))
}

/// The places to look at, in order: the configured one, then the usual ones.
pub open spec fn places(configured: Option<String>) -> Seq<(bool, Seq<char>)> {
    let usual = Seq::new(BUNDLES@.len(), |i: int| (BUNDLES@[i].0, BUNDLES@[i].1@));
    match configured {
        Some(path) => seq![(false, path@)] + usual,
        None => usual,
    }
}

/// The places to look at, in order: the configured one, then the usual ones.
pub fn candidate_places(configured: Option<String>) -> (r: Vec<Place>)
    ensures
        place_models(r@) == places(configured),
{
    let mut list: Vec<Place> = Vec::new();
    let ghost usual = Seq::new(BUNDLES@.len(), |i: int| (BUNDLES@[i].0, BUNDLES@[i].1@));
    let ghost first = place_models(seq![]);
    if let Some(path) = configured {
        list.push(Place { in_home: false, path });
        proof {
            first = seq![(false, path@)];
        }
    }
    assert(place_models(list@) =~= first);
    let mut i: usize = 0;
    while i < 4
        invariant
            i <= 4,
            usual == Seq::new(BUNDLES@.len(), |i: int| (BUNDLES@[i].0, BUNDLES@[i].1@)),
            usual.len() == 4,
            place_models(list@) == first + usual.take(i as int),
        decreases 4 - i,
    {
        let ghost seen = list@;
        let (in_home, path) = BUNDLES[i];
        list.push(Place { in_home, path: path.to_owned() });
        assert(usual[i as int] == (in_home, path@));
        assert(place_models(list@) =~= place_models(seen).push(usual[i as int]));
        assert(usual.take(i + 1) =~= usual.take(i as int).push(usual[i as int]));
        i += 1;
    }
    assert(usual.take(4) =~= usual);
    assert(place_models(list@) =~= places(configured));
    list
}

/// What stands in a bundle's directory of executables.
#[derive(Debug)]
pub struct Bundle {
    pub app_path: String,
    /// For each of [`EXECUTABLE_NAMES`] the file of that name.
    pub named: Vec<Option<String>>,
    /// The first entry of the directory, where it can be listed.
    pub first_entry: Option<String>,
}

/// Whether `executable` is the first of the known names in the bundle.
pub open spec fn first_named(bundle: Bundle, k: int) -> bool {
    &&& 0 <= k < bundle.named@.len()
    &&& bundle.named@[k] is Some
    &&& forall|i: int| 0 <= i < k ==> (#[trigger] bundle.named@[i]) is None
}

/// Whether a bundle runs by that executable: the first of the known names that it holds, or
/// else the first entry of its directory.
pub open spec fn runs_by(bundle: Bundle, executable: Seq<char>) -> bool {
    (exists|k: int| #[trigger]
        first_named(bundle, k) && bundle.named@[k]->0@ == executable) || ((forall|k: int|
        !#[trigger] first_named(bundle, k)) && bundle.first_entry is Some
        && bundle.first_entry->0@ == executable)
}

/// Whether a bundle holds nothing to run.
pub open spec fn idle(bundle: Bundle) -> bool {
    &&& forall|k: int| 0 <= k < bundle.named@.len() ==> (#[trigger] bundle.named@[k]) is None
    &&& bundle.first_entry is None
}

fn executable_of(bundle: &Bundle) -> (r: Option<String>)
    ensures
        match r {
            Some(executable) => runs_by(*bundle, executable@),
            None => idle(*bundle),
        },
{
    let mut i: usize = 0;
    while i < bundle.named.len()
        invariant
            i <= bundle.named@.len(),
            forall|j: int| 0 <= j < i ==> (#[trigger] bundle.named@[j]) is None,
        decreases bundle.named@.len() - i,
    {
        if let Some(executable) = &bundle.named[i] {
            assert(first_named(*bundle, i as int));
            return Some(executable.clone());
        }
        i += 1;
    }
    match &bundle.first_entry {
        Some(executable) => Some(executable.clone()),
        None => None,
    }
}

/// Whether an outcome is the installation to use: the first bundle that holds something to run,
/// or else an error.
pub open spec fn found(bundles: Seq<Bundle>, outcome: Result<Installation, AppError>) -> bool {
    match outcome {
        Ok(installation) => exists|k: int|
            0 <= k < bundles.len() && (forall|i: int| 0 <= i < k ==> idle(bundles[i]))
                && installation.app_path@ == (#[trigger] bundles[k]).app_path@ && runs_by(
                bundles[k],
                installation.executable@,
            ),
        Err(error) => {
            &&& forall|i: int| 0 <= i < bundles.len() ==> idle(bundles[i])
            &&& error@ == ErrorModel::Message(
                "未找到 macOS Codex 安装，可通过 CODEX_APP_PATH 指定位置。"@,
            )
        },
    }
}

/// The installation to use.
pub fn discover(bundles: &Vec<Bundle>) -> (r: Result<Installation, AppError>)
    ensures
        found(bundles@, r),
{
    let mut i: usize = 0;
    while i < bundles.len()
        invariant
            i <= bundles@.len(),
            forall|j: int| 0 <= j < i ==> idle(bundles@[j]),
        decreases bundles@.len() - i,
    {
        if let Some(executable) = executable_of(&bundles[i]) {
            assert(bundles@[i as int].app_path@ == bundles[i as int].app_path@);
            return Ok(Installation { app_path: bundles[i].app_path.clone(), executable });
        }
        i += 1;
    }
    Err(
        AppError::Message(
            "未找到 macOS Codex 安装，可通过 CODEX_APP_PATH 指定位置。".to_owned(),
        ),
    )
}

/// The arguments that open the debugging port, on the loopback address only; none otherwise.
pub fn launch_arguments(enable_cdp: bool) -> (r: Vec<&'static str>)
    ensures
        texts(r@) == if enable_cdp {
            seq!["--remote-debugging-address=127.0.0.1"@, "--remote-debugging-port=9229"@]
        } else {
            Seq::empty()
        },
{
    let mut list: Vec<&'static str> = Vec::new();
    if enable_cdp {
        list.push("--remote-debugging-address=127.0.0.1");
        list.push("--remote-debugging-port=9229");
    }
    assert(texts(list@) =~= if enable_cdp {
        seq!["--remote-debugging-address=127.0.0.1"@, "--remote-debugging-port=9229"@]
    } else {
        Seq::empty()
    });
    list
}

} // verus!
