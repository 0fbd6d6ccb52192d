//! Finding the launcher of the backend and putting its command together.

use vstd::prelude::*;
use vstd::string::*;
use crate::text::{
    decimal, decimal_text, is_space, join_path, joined, lemma_trimmed_empty_iff_blank,
    lossy_text, text_view, texts, trim_text, trimmed, utf8_lossy,
};

verus! {

/// The user's home directory, where there is one.
///
/// Trusted: wraps `dirs::home_dir`, the path written out as text. The
/// result depends on the environment, so the contract claims nothing of it.
#[verifier::external_body]
fn home_dir() -> (home: Option<String>) {
    let home = dirs::home_dir()?;
    Some(home.to_string_lossy().into_owned())
}

/// The launcher that the login shell named: what it wrote, without the white
/// space around it, or nothing where that is empty.
pub open spec fn candidate_of(answer: Seq<char>) -> Option<Seq<char>> {
    if trimmed(answer).len() == 0 {
        None
    } else {
        Some(trimmed(answer))
    }
}

/// An answer that holds anything but white space names a launcher, and no
/// other answer does.
pub proof fn lemma_candidate_iff_not_blank(answer: Seq<char>)
    ensures
        candidate_of(answer) is Some <==> (exists|k: int|
            0 <= k < answer.len() && !is_space(answer[k])),
{
    lemma_trimmed_empty_iff_blank(answer);
}

/// The launcher that the text of the login shell's answer names.
pub fn candidate_in_text(answer: &str) -> (path: Option<String>)
    ensures
        text_view(path) == candidate_of(answer@),
{
    let path = trim_text(answer);
    if path.as_str().unicode_len() == 0 {
        None
    } else {
        Some(path)
    }
}

/// The launcher that the login shell named, from the bytes that it wrote.
pub fn shell_candidate(answer: &Vec<u8>) -> (path: Option<String>)
    ensures
        text_view(path) == candidate_of(utf8_lossy(answer@)),
{
    let text = lossy_text(answer);
    candidate_in_text(text.as_str())
}

/// Position `i` holds the first `true` among `flags`.
pub open spec fn is_first_true(flags: Seq<bool>, i: int) -> bool {
    &&& 0 <= i < flags.len()
    &&& flags[i]
    &&& forall|j: int| 0 <= j < i ==> !flags[j]
}

/// Picks the first candidate that exists. `exists` tells of each candidate,
/// in their order, whether it was found.
pub fn first_existing(exists: &Vec<bool>) -> (pick: Option<usize>)
    ensures
        match pick {
            Some(i) => is_first_true(exists@, i as int),
            None => forall|j: int| 0 <= j < exists@.len() ==> !exists@[j],
        },
{
    let mut i: usize = 0;
    while i < exists.len()
        invariant
            i <= exists@.len(),
            forall|j: int| 0 <= j < i ==> !exists@[j],
        decreases exists@.len() - i,
    {
        if exists[i] {
            return Some(i);
        }
        i = i + 1;
    }
    None
}

/// Chooses the launcher. The one that the login shell named is taken where
/// it exists. Else the first of `fallbacks` that exists is taken, `exists`
/// telling of each in their order whether it was found; a fallback of which
/// nothing is told counts as missing. Where none exists, none is chosen.
pub fn choose_launcher(
    shell: Option<String>,
    shell_exists: bool,
    fallbacks: &Vec<String>,
    exists: &Vec<bool>,
) -> (pick: Option<String>)
    ensures
        shell is Some && shell_exists ==> pick == shell,
        !(shell is Some && shell_exists) ==> match pick {
            Some(path) => exists|i: int|
                is_first_true(exists@, i) && i < fallbacks@.len() && path == fallbacks@[i],
            None => forall|i: int| is_first_true(exists@, i) ==> i >= fallbacks@.len(),
        },
{
    if shell_exists {
        match shell {
            Some(path) => {
                return Some(path);
            },
            None => {},
        }
    }
    match first_existing(exists) {
        Some(i) => {
            if i < fallbacks.len() {
                let path = fallbacks[i].clone();
                assert(is_first_true(exists@, i as int) && i < fallbacks@.len() && path
                    == fallbacks@[i as int]);
                Some(path)
            } else {
                assert forall|k: int| is_first_true(exists@, k) implies k >= fallbacks@.len() by {
                    assert(is_first_true(exists@, i as int));
                    if k < i {
                        assert(!exists@[k]);
                    } else if k > i {
                        assert(!exists@[i as int]);
                    }
                }
                None
            }
        },
        None => None,
    }
}

/// The places where the launcher is looked for when the login shell named
/// none: the two below the home directory, where there are such, then the
/// two system-wide ones.
pub open spec fn fallback_texts(local: Option<Seq<char>>, cargo: Option<Seq<char>>) -> Seq<
    Seq<char>,
> {
    let system = seq!["/usr/local/bin/uv"@, "/opt/homebrew/bin/uv"@];
    let second = match cargo {
        Some(path) => seq![path] + system,
        None => system,
    };
    match local {
        Some(path) => seq![path] + second,
        None => second,
    }
}

/// The fallbacks in their order, given the two places below the home
/// directory.
pub fn fallback_list(local: Option<String>, cargo: Option<String>) -> (list: Vec<String>)
    ensures
        texts(list@) == fallback_texts(
            text_view(local),
            text_view(cargo),
        ),
{
    let mut list: Vec<String> = Vec::new();
    match local {
        Some(path) => {
            list.push(path);
        },
        None => {},
    }
    match cargo {
        Some(path) => {
            list.push(path);
        },
        None => {},
    }
    list.push(String::from_str("/usr/local/bin/uv"));
    list.push(String::from_str("/opt/homebrew/bin/uv"));
    proof {
        assert(texts(list@) =~= fallback_texts(
            text_view(local),
            text_view(cargo),
        ));
    }
    list
}

/// The fallbacks for a home directory: below it the launcher's own place
/// and the package manager's, then the two system-wide places. Without a home
/// directory only the latter two.
pub open spec fn home_fallback_texts(home: Option<Seq<char>>) -> Seq<Seq<char>> {
    match home {
        Some(dir) => fallback_texts(
            Some(joined(dir, ".local/bin/uv"@)),
            Some(joined(dir, ".cargo/bin/uv"@)),
        ),
        None => fallback_texts(None, None),
    }
}

/// An optional text slice by its characters.
pub open spec fn slice_view(text: Option<&str>) -> Option<Seq<char>> {
    match text {
        Some(t) => Some(t@),
        None => None,
    }
}

/// The fallbacks in their order, given the home directory.
pub fn home_fallbacks(home: Option<&str>) -> (list: Vec<String>)
    ensures
        texts(list@) == home_fallback_texts(slice_view(home)),
        list@.len() == (if home is Some {
            4int
        } else {
            2int
        }),
{
    let list = match home {
        Some(dir) => {
            let local = join_path(dir, ".local/bin/uv");
            let cargo = join_path(dir, ".cargo/bin/uv");
            fallback_list(Some(local), Some(cargo))
        },
        None => fallback_list(None, None),
    };
    proof {
        assert(texts(list@).len() == list@.len());
    }
    list
}

/// The fallbacks on this machine: those for the home directory that the
/// system names, whichever that is.
pub fn runtime_fallbacks() -> (list: Vec<String>)
    ensures
        exists|home: Option<Seq<char>>| texts(list@) == home_fallback_texts(home),
{
    let home = home_dir();
    let list = match home {
        Some(dir) => {
            let list = home_fallbacks(Some(dir.as_str()));
            assert(texts(list@) == home_fallback_texts(Some(dir@)));
            list
        },
        None => {
            let list = home_fallbacks(None);
            assert(texts(list@) == home_fallback_texts(None));
            list
        },
    };
    list
}

/// The command that launches the backend.
#[derive(Debug, Clone, PartialEq, Eq)]
pub struct LaunchPlan {
    /// The program to run.
    pub program: String,
    /// Its arguments.
    pub args: Vec<String>,
    /// Whether the program is the launcher (else an interpreter run
    /// directly).
    pub via_launcher: bool,
    /// Whether the backend's output goes to the boot log. Where the log
    /// could not be prepared the backend is launched all the same, its
    /// output discarded.
    pub redirect: bool,
}

/// The arguments that bind the backend to the loopback address and `port`.
pub open spec fn server_arguments(port: u16) -> Seq<Seq<char>> {
    seq![
        "-m"@,
        "uvicorn"@,
        "solat_engine.main:app"@,
        "--host"@,
        "127.0.0.1"@,
        "--port"@,
        decimal(port as nat),
        "--log-level"@,
        "info"@,
    ]
}

/// The arguments of the launch: through the launcher the interpreter is
/// named first.
pub open spec fn launch_arguments(via_launcher: bool, port: u16) -> Seq<Seq<char>> {
    if via_launcher {
        seq!["run"@, "python"@] + server_arguments(port)
    } else {
        server_arguments(port)
    }
}

/// The program of the launch: the launcher where one was found, else the
/// interpreter of the backend's own environment where that exists, else the
/// interpreter by its bare name.
pub open spec fn launch_program(launcher: Option<Seq<char>>, local_python: Option<Seq<char>>) -> Seq<
    char,
> {
    match launcher {
        Some(path) => path,
        None => match local_python {
            Some(path) => path,
            None => "python3"@,
        },
    }
}

/// Plans the launch of the backend on `port`. `log_ready` tells whether the
/// boot log could be opened for writing: it decides only where the output
/// goes, never whether the backend is launched.
pub fn launch_plan(
    launcher: Option<String>,
    local_python: Option<String>,
    port: u16,
    log_ready: bool,
) -> (plan: LaunchPlan)
    ensures
        plan.via_launcher == launcher is Some,
        plan.redirect == log_ready,
        plan.program@ == launch_program(
            text_view(launcher),
            text_view(local_python),
        ),
        texts(plan.args@) == launch_arguments(launcher is Some, port),
{
    let via_launcher = launcher.is_some();
    let program = match launcher {
        Some(path) => path,
        None => match local_python {
            Some(path) => path,
            None => String::from_str("python3"),
        },
    };
    let mut args: Vec<String> = Vec::new();
    if via_launcher {
        args.push(String::from_str("run"));
        args.push(String::from_str("python"));
    }
    args.push(String::from_str("-m"));
    args.push(String::from_str("uvicorn"));
    args.push(String::from_str("solat_engine.main:app"));
    args.push(String::from_str("--host"));
    args.push(String::from_str("127.0.0.1"));
    args.push(String::from_str("--port"));
    args.push(decimal_text(port as u32));
    args.push(String::from_str("--log-level"));
    args.push(String::from_str("info"));
    proof {
        assert(texts(args@) =~= launch_arguments(via_launcher, port));
    }
    LaunchPlan { program, args, via_launcher, redirect: log_ready }
}

/// Why the backend could not be spawned. A boot log that cannot be prepared
/// is no such reason.
#[derive(Debug, Clone, PartialEq, Eq)]
pub enum SpawnError {
    /// The backend's directory was not found.
    NoEngineDir,
    /// The system refused to create the process, with its error.
    Spawn { via_launcher: bool, error: String },
}

/// The text of a spawn error.
pub open spec fn spawn_error_text(error: SpawnError) -> Seq<char> {
    match error {
        SpawnError::NoEngineDir => "Could not find engine directory"@,
        SpawnError::Spawn { via_launcher, error } => if via_launcher {
            "Failed to spawn engine via uv: "@ + error@
        } else {
            "Failed to spawn engine via python3: "@ + error@
        },
    }
}

impl SpawnError {
    /// The error as the caller of a start reads it.
    pub fn message(&self) -> (text: String)
        ensures
            text@ == spawn_error_text(*self),
    {
        match self {
            SpawnError::NoEngineDir => String::from_str("Could not find engine directory"),
            SpawnError::Spawn { via_launcher, error } => {
                let mut text = if *via_launcher {
                    String::from_str("Failed to spawn engine via uv: ")
                } else {
                    String::from_str("Failed to spawn engine via python3: ")
                };
                text.append(error.as_str());
                text
            },
        }
    }
}

/// The arguments of the health request: quiet, errors shown, failing on a
/// status that is no success, two seconds at most, to the health page on the
/// loopback address and `port`.
pub fn health_arguments(port: u16) -> (args: Vec<String>)
    ensures
        texts(args@) == seq![
            "-sS"@,
            "--fail"@,
            "--max-time"@,
            "2"@,
            "http://127.0.0.1:"@ + decimal(port as nat) + "/health"@,
        ],
{
    let mut url = String::from_str("http://127.0.0.1:");
    let digits = decimal_text(port as u32);
    url.append(digits.as_str());
    url.append("/health");
    let mut args: Vec<String> = Vec::new();
    args.push(String::from_str("-sS"));
    args.push(String::from_str("--fail"));
    args.push(String::from_str("--max-time"));
    args.push(String::from_str("2"));
    args.push(url);
    proof {
        assert(texts(args@) =~= seq![
            "-sS"@,
            "--fail"@,
            "--max-time"@,
            "2"@,
            "http://127.0.0.1:"@ + decimal(port as nat) + "/health"@,
        ]);
    }
    args
}

} // verus!
