//! Java: which executable to look for, how to read the version that
//! `java -version` reports, the order in which installed Javas are searched
//! (JAVA_HOME, PATH, common Windows install folders, the launcher's own
//! runtime folder), and where Adoptium serves a portable JRE.
//!
//! Reading the environment, listing folders and running candidates happen
//! outside this library; the search is a step function that says what to do
//! next with what was learned.

use std::path::PathBuf;
use vstd::prelude::*;

use crate::minecraft::{custom_error, spec_custom_error, McError, Platform};
use crate::text::{
    chars_between, chars_of, extend_str, owned, find_char, lemma_decimal_digits, lemma_find_at,
    lemma_parse_decimal_roundtrip, lemma_split_append_plain, lemma_split_nonempty,
    lemma_split_prefix_kept, parse_u32, push_decimal, spec_decimal, spec_find, spec_is_digit,
    spec_parse_u32, spec_split, split_chars, string_of,
};

verus! {

#[derive(Debug)]
pub struct JavaInstall {
    pub path: PathBuf,
    pub version: u32,
}

/// The name of the Java executable on a platform.
pub fn java_executable(platform: Platform) -> (r: &'static str)
    ensures
        r@ == spec_java_executable(platform),
{
    if platform == Platform::Windows {
        "java.exe"
    } else {
        "java"
    }
}

/// The major version in the output of `java -version`: the text between the
/// first two double quotes, split at dots; its first part, unless that part is
/// 1 and a second part exists (the legacy "1.x" numbering), in which case the
/// second part. Nothing when a quote is missing or the part is not a number.
pub open spec fn spec_parse_java_version(output: Seq<char>) -> Option<u32> {
    match spec_find(output, '"') {
        None => None,
        Some(i) => {
            let rest = output.subrange(i + 1, output.len() as int);
            match spec_find(rest, '"') {
                None => None,
                Some(j) => spec_version_major(rest.subrange(0, j)),
            }
        },
    }
}

/// The major version of a version text such as `21.0.1` or `1.8.0_271`.
pub open spec fn spec_version_major(version: Seq<char>) -> Option<u32> {
    let parts = spec_split(version, '.');
    match spec_parse_u32(parts[0]) {
        None => None,
        Some(first) => if first == 1 && parts.len() >= 2 {
            spec_parse_u32(parts[1])
        } else {
            Some(first)
        },
    }
}

/// Whether `rest` may follow the major number of a version text: nothing, or
/// a dot and more, without a double quote.
pub open spec fn spec_version_tail(rest: Seq<char>) -> bool {
    &&& (rest.len() == 0 || rest[0] == '.')
    &&& forall|i: int| 0 <= i < rest.len() ==> rest[i] != '"'
}

/// The version is read from the first quoted text of the output: a version
/// `<major>.<...>` reports `major` (for any major but 1), and the legacy
/// numbering `1.<major>.<...>` reports `major` too.
pub proof fn lemma_quoted_version_major(
    prefix: Seq<char>,
    major: u32,
    rest: Seq<char>,
    suffix: Seq<char>,
)
    requires
        forall|i: int| 0 <= i < prefix.len() ==> prefix[i] != '"',
        spec_version_tail(rest),
    ensures
        major != 1 ==> spec_parse_java_version(
            prefix + seq!['"'] + spec_decimal(major as nat) + rest + seq!['"'] + suffix,
        ) == Some(major),
        spec_parse_java_version(
            prefix + seq!['"'] + seq!['1', '.'] + spec_decimal(major as nat) + rest + seq!['"']
                + suffix,
        ) == Some(major),
{
    let d = spec_decimal(major as nat);
    lemma_decimal_digits(major as nat);
    lemma_parse_decimal_roundtrip(major);
    assert forall|i: int| 0 <= i < d.len() implies d[i] != '"' && d[i] != '.' by {
        assert(spec_is_digit(d[i]));
    }
    // modern numbering
    let v1 = d + rest;
    assert forall|i: int| 0 <= i < v1.len() implies v1[i] != '"' by {
        if i >= d.len() {
            assert(v1[i] == rest[i - d.len()]);
        }
    }
    lemma_read_between_quotes(prefix, v1, suffix);
    assert(prefix + seq!['"'] + d + rest + seq!['"'] + suffix =~= prefix + seq!['"'] + v1 + seq![
        '"',
    ] + suffix);
    lemma_split_starts_with(Seq::<char>::empty(), d, rest);
    assert(Seq::<char>::empty() + d =~= d);
    assert(Seq::<char>::empty() + d + rest =~= v1);
    if major != 1 {
        assert(spec_version_major(v1) == Some(major));
    }
    // legacy numbering
    let one = seq!['1'];
    let v2 = seq!['1', '.'] + d + rest;
    assert forall|i: int| 0 <= i < v2.len() implies v2[i] != '"' by {
        if i >= 2 + d.len() {
            assert(v2[i] == rest[i - 2 - d.len()]);
        } else if i >= 2 {
            assert(v2[i] == d[i - 2]);
        }
    }
    lemma_read_between_quotes(prefix, v2, suffix);
    assert(prefix + seq!['"'] + seq!['1', '.'] + d + rest + seq!['"'] + suffix =~= prefix + seq![
        '"',
    ] + v2 + seq!['"'] + suffix);
    lemma_split_starts_with(seq!['1', '.'], d, rest);
    assert(spec_split(seq!['1', '.'], '.') == seq![one, Seq::<char>::empty()]) by {
        lemma_split_append_plain(Seq::<char>::empty(), one, '.');
        assert(Seq::<char>::empty() + one =~= one);
        assert(seq!['1', '.'].drop_last() =~= one);
        assert(spec_split(one, '.') =~= seq![one]);
    }
    assert(spec_decimal(1) =~= one) by {
        assert(seq!['0', '1', '2', '3', '4', '5', '6', '7', '8', '9'][1] == '1');
    }
    lemma_parse_decimal_roundtrip(1);
    assert(seq!['1', '.'] + d + rest =~= v2);
    assert(spec_version_major(v2) == Some(major));
}

/// The text between the first two double quotes is the version text.
proof fn lemma_read_between_quotes(prefix: Seq<char>, version: Seq<char>, suffix: Seq<char>)
    requires
        forall|i: int| 0 <= i < prefix.len() ==> prefix[i] != '"',
        forall|i: int| 0 <= i < version.len() ==> version[i] != '"',
    ensures
        spec_parse_java_version(prefix + seq!['"'] + version + seq!['"'] + suffix)
            == spec_version_major(version),
{
    let out = prefix + seq!['"'] + version + seq!['"'] + suffix;
    let p = prefix.len() as int;
    assert(out[p] == '"');
    assert forall|j: int| 0 <= j < p implies out[j] != '"' by {
        assert(out[j] == prefix[j]);
    }
    lemma_find_at(out, '"', p);
    let rest = out.subrange(p + 1, out.len() as int);
    assert(rest =~= version + seq!['"'] + suffix);
    let v = version.len() as int;
    assert(rest[v] == '"');
    assert forall|j: int| 0 <= j < v implies rest[j] != '"' by {
        assert(rest[j] == version[j]);
    }
    lemma_find_at(rest, '"', v);
    assert(rest.subrange(0, v) =~= version);
}

/// Splitting `head + d + rest` at dots, where `head` ends a piece and `d`
/// holds no dot: the pieces of `head`, then `d`, then those of `rest`.
proof fn lemma_split_starts_with(head: Seq<char>, d: Seq<char>, rest: Seq<char>)
    requires
        forall|i: int| 0 <= i < d.len() ==> d[i] != '.',
        spec_version_tail(rest),
        spec_split(head, '.').last().len() == 0,
    ensures
        spec_split(head + d + rest, '.').len() >= spec_split(head, '.').len(),
        forall|k: int|
            0 <= k < spec_split(head, '.').len() - 1 ==> #[trigger] spec_split(head + d + rest, '.')[k]
                == spec_split(head, '.')[k],
        spec_split(head + d + rest, '.')[spec_split(head, '.').len() - 1] == d,
{
    lemma_split_nonempty(head, '.');
    let h = spec_split(head, '.');
    lemma_split_append_plain(head, d, '.');
    let hd = spec_split(head + d, '.');
    assert(h.last() + d =~= d);
    assert(hd == h.update(h.len() - 1, d));
    if rest.len() == 0 {
        assert(head + d + rest =~= head + d);
    } else {
        let dot = (head + d).push('.');
        assert(dot.drop_last() =~= head + d);
        assert(spec_split(dot, '.') == hd.push(Seq::<char>::empty()));
        assert(dot + rest.drop_first() =~= head + d + rest);
        assert forall|k: int| 0 <= k < h.len() implies #[trigger] spec_split(head + d + rest, '.')[k]
            == hd[k] by {
            lemma_split_prefix_kept(dot, rest.drop_first(), '.', k);
        }
        lemma_split_prefix_kept(dot, rest.drop_first(), '.', 0);
    }
}

/// Parses `java -version` output. Examples:
/// - `openjdk version "21.0.1" 2023-10-17`        -> 21
/// - `java version "1.8.0_271"`                   -> 8 (legacy "1.x" format)
/// - `openjdk version "17.0.7" 2023-04-18`        -> 17
pub fn parse_java_version(output: &str) -> (r: Option<u32>)
    ensures
        r == spec_parse_java_version(output@),
{
    let s = chars_of(output);
    assert(s@.subrange(0, s@.len() as int) =~= s@);
    let start = match find_char(&s, '"', 0) {
        Some(i) => i + 1,
        None => {
            return None;
        },
    };
    let ghost rest = s@.subrange(start as int, s@.len() as int);
    let end = match find_char(&s, '"', start) {
        Some(j) => j,
        None => {
            return None;
        },
    };
    let version_str = chars_between(&s, start, end);
    assert(version_str@ =~= rest.subrange(0, end - start));
    let parts = split_chars(&version_str, '.');
    proof {
        crate::text::lemma_split_nonempty(version_str@, '.');
    }
    let first = match parse_u32(&parts[0]) {
        Some(v) => v,
        None => {
            return None;
        },
    };
    if first == 1 && parts.len() >= 2 {
        parse_u32(&parts[1])
    } else {
        Some(first)
    }
}

/// What a candidate Java gives: the install when the version it reports (in
/// `java -version` output, written on stderr) is at least the one required.
pub open spec fn spec_check_java(stderr: Seq<char>, required_major: u32) -> Option<u32> {
    match spec_parse_java_version(stderr) {
        Some(v) => if v >= required_major {
            Some(v)
        } else {
            None
        },
        None => None,
    }
}

/// Decides on one candidate Java from what `java -version` printed on stderr:
/// valid when it reports a major version of at least `required_major`.
pub fn check_java(path: PathBuf, stderr: &str, required_major: u32) -> (r: Option<JavaInstall>)
    ensures
        match r {
            Some(j) => j.path == path && spec_check_java(stderr@, required_major) == Some(j.version),
            None => spec_check_java(stderr@, required_major) is None,
        },
{
    let version = match parse_java_version(stderr) {
        Some(v) => v,
        None => {
            return None;
        },
    };
    if version >= required_major {
        Some(JavaInstall { path, version })
    } else {
        None
    }
}

/// A lower requirement never rejects a candidate that a higher one accepts,
/// and reads the same version from it.
pub proof fn lemma_lower_requirement_accepts(stderr: Seq<char>, lower: u32, higher: u32)
    requires
        lower <= higher,
        spec_check_java(stderr, higher) is Some,
    ensures
        spec_check_java(stderr, lower) == spec_check_java(stderr, higher),
{
}

/// Where a search stops over the outputs its candidates printed, in search
/// order (none for a candidate that could not be run): at the first whose
/// output reports a version of at least `required_major`, or nowhere.
pub open spec fn spec_search_stop(outputs: Seq<Option<Seq<char>>>, required_major: u32) -> Option<int>
    decreases outputs.len(),
{
    if outputs.len() == 0 {
        None
    } else if outputs[0] matches Some(o) && spec_check_java(o, required_major) is Some {
        Some(0)
    } else {
        match spec_search_stop(outputs.drop_first(), required_major) {
            Some(k) => Some(k + 1),
            None => None,
        }
    }
}

/// Whether candidate `k` printed a version of at least `required_major`.
pub open spec fn spec_finds_at_least(outputs: Seq<Option<Seq<char>>>, k: int, required_major: u32) -> bool {
    0 <= k < outputs.len() && match outputs[k] {
        Some(o) => match spec_check_java(o, required_major) {
            Some(v) => v >= required_major,
            None => false,
        },
        None => false,
    }
}

/// Over a whole search: the candidates come in an order that does not depend
/// on the required version (`java_search_step` states each next candidate
/// without it), and the search stops at the first candidate found valid.
/// Over the same candidates' outputs, a search for a lower version stops no
/// later than one for a higher version, so it finds a Java whenever the
/// higher one does; and what a search finds has at least the version it asked
/// for.
pub proof fn lemma_java_search_monotone(outputs: Seq<Option<Seq<char>>>, lower: u32, higher: u32)
    requires
        lower <= higher,
    ensures
        spec_search_stop(outputs, higher) matches Some(k) ==> (spec_search_stop(outputs, lower) matches Some(
            k1,
        ) && k1 <= k),
        spec_search_stop(outputs, lower) matches Some(k) ==> spec_finds_at_least(outputs, k, lower),
    decreases outputs.len(),
{
    if outputs.len() > 0 {
        lemma_java_search_monotone(outputs.drop_first(), lower, higher);
        if let Some(o) = outputs[0] {
            if spec_check_java(o, higher) is Some {
                lemma_lower_requirement_accepts(o, lower, higher);
            }
        }
        if let Some(k) = spec_search_stop(outputs, lower) {
            if k > 0 {
                assert(outputs[k] == outputs.drop_first()[k - 1]);
            }
        }
    }
}


/// The Adoptium query for the latest JRE of a major version on a platform:
/// `windows`, `mac`, or `linux` for anything else; `aarch64` or `x64`.
pub open spec fn spec_adoptium_url(major: u32, platform: Platform, aarch64: bool) -> Seq<char> {
    let os = match platform {
        Platform::Windows => "windows"@,
        Platform::MacOs => "mac"@,
        _ => "linux"@,
    };
    let arch = if aarch64 {
        "aarch64"@
    } else {
        "x64"@
    };
    "https://api.adoptium.net/v3/assets/latest/"@ + spec_decimal(major as nat)
        + "/hotspot?architecture="@ + arch + "&image_type=jre&os="@ + os + "&vendor=eclipse"@
}

/// Returns the Adoptium address to ask for the requested major version.
pub fn adoptium_url(major: u32, platform: Platform, aarch64: bool) -> (r: String)
    ensures
        r@ == spec_adoptium_url(major, platform, aarch64),
{
    let os = match platform {
        Platform::Windows => "windows",
        Platform::MacOs => "mac",
        _ => "linux",
    };
    let arch = if aarch64 {
        "aarch64"
    } else {
        "x64"
    };
    let mut out = chars_of("https://api.adoptium.net/v3/assets/latest/");
    push_decimal(&mut out, major as u64);
    extend_str(&mut out, "/hotspot?architecture=");
    extend_str(&mut out, arch);
    extend_str(&mut out, "&image_type=jre&os=");
    extend_str(&mut out, os);
    extend_str(&mut out, "&vendor=eclipse");
    assert(out@ =~= spec_adoptium_url(major, platform, aarch64));
    string_of(&out)
}


// =====================================================================
// THE SEARCH FOR AN INSTALLED JAVA, STEP BY STEP
// =====================================================================

/// The number of common Windows install folders searched.
pub const INSTALL_FOLDERS: usize = 5;

/// The common Windows install folders, in the order they are searched.
pub open spec fn spec_install_folder(i: int) -> Seq<char> {
    seq![
        "C:\\Program Files\\Eclipse Adoptium"@,
        "C:\\Program Files\\Java"@,
        "C:\\Program Files\\Microsoft"@,
        "C:\\Program Files\\Zulu"@,
        "C:\\Program Files\\Amazon Corretto"@,
    ][i]
}

/// The Windows install folders searched are exactly these five, in this
/// order: Eclipse Adoptium, Java, Microsoft, Zulu and Amazon Corretto, each
/// directly under `C:\\Program Files`.
pub proof fn lemma_install_folders()
    ensures
        forall|i: int|
            0 <= i < INSTALL_FOLDERS ==> #[trigger] spec_install_folder(i) == "C:\\Program Files\\"@
                + seq![
                "Eclipse Adoptium"@,
                "Java"@,
                "Microsoft"@,
                "Zulu"@,
                "Amazon Corretto"@,
            ][i],
{
    reveal_strlit("C:\\Program Files\\");
    reveal_strlit("Eclipse Adoptium");
    reveal_strlit("Java");
    reveal_strlit("Microsoft");
    reveal_strlit("Zulu");
    reveal_strlit("Amazon Corretto");
    reveal_strlit("C:\\Program Files\\Eclipse Adoptium");
    reveal_strlit("C:\\Program Files\\Java");
    reveal_strlit("C:\\Program Files\\Microsoft");
    reveal_strlit("C:\\Program Files\\Zulu");
    reveal_strlit("C:\\Program Files\\Amazon Corretto");
    assert forall|i: int| 0 <= i < INSTALL_FOLDERS implies #[trigger] spec_install_folder(i)
        == "C:\\Program Files\\"@ + seq![
        "Eclipse Adoptium"@,
        "Java"@,
        "Microsoft"@,
        "Zulu"@,
        "Amazon Corretto"@,
    ][i] by {
        if i == 0 {
            assert(spec_install_folder(0) =~= "C:\\Program Files\\"@ + "Eclipse Adoptium"@);
        } else if i == 1 {
            assert(spec_install_folder(1) =~= "C:\\Program Files\\"@ + "Java"@);
        } else if i == 2 {
            assert(spec_install_folder(2) =~= "C:\\Program Files\\"@ + "Microsoft"@);
        } else if i == 3 {
            assert(spec_install_folder(3) =~= "C:\\Program Files\\"@ + "Zulu"@);
        } else {
            assert(spec_install_folder(4) =~= "C:\\Program Files\\"@ + "Amazon Corretto"@);
        }
    }
}

/// The `i`-th common Windows install folder.
pub fn install_folder(i: usize) -> (r: &'static str)
    requires
        i < INSTALL_FOLDERS,
    ensures
        r@ == spec_install_folder(i as int),
{
    if i == 0 {
        "C:\\Program Files\\Eclipse Adoptium"
    } else if i == 1 {
        "C:\\Program Files\\Java"
    } else if i == 2 {
        "C:\\Program Files\\Microsoft"
    } else if i == 3 {
        "C:\\Program Files\\Zulu"
    } else {
        "C:\\Program Files\\Amazon Corretto"
    }
}

/// A folder the search starts from: one written as text (the value of
/// `JAVA_HOME`, `java` itself, a Windows install folder), or the launcher's
/// own Java runtime folder.
#[derive(Debug)]
pub enum JavaFolder {
    Text(String),
    Runtime,
}

/// A Java executable to try: a folder followed by components, each joined
/// onto the previous one.
#[derive(Debug)]
pub struct JavaCandidate {
    pub start: JavaFolder,
    pub parts: Vec<String>,
}

/// Where a search for an installed Java stands. It waits for the value of
/// `JAVA_HOME`, for the check of a candidate, or for the listing of a folder
/// whose subfolders hold candidates; `entries` are that folder's entries and
/// `next` the one being checked.
#[derive(Debug)]
pub enum JavaSearchState {
    Start,
    AwaitHome,
    CheckingHome,
    CheckingPath,
    AwaitInstalls { index: usize },
    CheckingInstalls { index: usize, entries: Vec<String>, next: usize },
    AwaitRuntime,
    CheckingRuntime { entries: Vec<String>, next: usize },
    Finished,
}

/// What the search learns from the outside: that it may begin, the value of
/// `JAVA_HOME` (none when unset), what running a candidate with `-version`
/// printed on stderr, with the path it was run at (none when it could not be
/// run), or the names of a folder's entries (none when the folder is
/// missing or cannot be read).
#[derive(Debug)]
pub enum JavaProbe {
    Begin,
    JavaHome { value: Option<String> },
    Ran { path: PathBuf, stderr: Option<String> },
    Listed { entries: Option<Vec<String>> },
}

/// What the search asks of the outside: the value of `JAVA_HOME`, to check a
/// candidate, to list a folder, or to stop with what it found.
#[derive(Debug)]
pub enum JavaSearchAction {
    ReadJavaHome,
    Check { candidate: JavaCandidate },
    List { folder: JavaFolder },
    Finish { found: Option<JavaInstall> },
}

/// The text of a folder given as text; nothing for the runtime folder.
pub open spec fn spec_folder_text(f: JavaFolder) -> Option<Seq<char>> {
    match f {
        JavaFolder::Text(t) => Some(t@),
        JavaFolder::Runtime => None,
    }
}

/// Whether `a` checks the candidate `start` followed by `parts`.
pub open spec fn spec_checks(a: JavaSearchAction, start: Option<Seq<char>>, parts: Seq<Seq<char>>) -> bool {
    a matches JavaSearchAction::Check { candidate } && spec_folder_text(candidate.start) == start
        && candidate.parts@.map_values(|s: String| s@) == parts
}

/// Whether `a` lists the folder `folder`.
pub open spec fn spec_lists(a: JavaSearchAction, folder: Option<Seq<char>>) -> bool {
    a matches JavaSearchAction::List { folder: f } && spec_folder_text(f) == folder
}

/// The entries a listing gave: none for a missing folder.
pub open spec fn spec_listed(entries: Option<Vec<String>>) -> Seq<String> {
    match entries {
        Some(v) => v@,
        None => Seq::empty(),
    }
}

/// What comes once the candidates below the Windows install folders before
/// `k` are exhausted: the listing of folder `k`, or of the runtime folder.
pub open spec fn spec_after_installs(k: int, r: (JavaSearchState, JavaSearchAction)) -> bool {
    if k < INSTALL_FOLDERS {
        &&& r.0 matches JavaSearchState::AwaitInstalls { index } && index == k
        &&& spec_lists(r.1, Some(spec_install_folder(k)))
    } else {
        &&& r.0 is AwaitRuntime
        &&& spec_lists(r.1, None)
    }
}

/// What comes once `JAVA_HOME` and the PATH gave nothing: the Windows install
/// folders on Windows, the runtime folder elsewhere.
pub open spec fn spec_after_path(platform: Platform, r: (JavaSearchState, JavaSearchAction)) -> bool {
    if platform == Platform::Windows {
        spec_after_installs(0, r)
    } else {
        spec_after_installs(INSTALL_FOLDERS as int, r)
    }
}

/// The executable below a subfolder: `<entry>/bin/<java executable>`.
pub open spec fn spec_below(platform: Platform, entry: Seq<char>) -> Seq<Seq<char>> {
    seq![entry, "bin"@, spec_java_executable(platform)]
}

/// The name of the Java executable on a platform.
pub open spec fn spec_java_executable(platform: Platform) -> Seq<char> {
    if platform == Platform::Windows {
        "java.exe"@
    } else {
        "java"@
    }
}

/// Which event each state waits for, in a state that the search can reach.
pub open spec fn spec_java_search_expects(state: JavaSearchState, event: JavaProbe) -> bool {
    match state {
        JavaSearchState::Start => event is Begin,
        JavaSearchState::AwaitHome => event is JavaHome,
        JavaSearchState::CheckingHome => event is Ran,
        JavaSearchState::CheckingPath => event is Ran,
        JavaSearchState::AwaitInstalls { index } => event is Listed && index < INSTALL_FOLDERS,
        JavaSearchState::CheckingInstalls { index, entries, next } => event is Ran && index
            < INSTALL_FOLDERS && next < entries@.len(),
        JavaSearchState::AwaitRuntime => event is Listed,
        JavaSearchState::CheckingRuntime { entries, next } => event is Ran && next
            < entries@.len(),
        JavaSearchState::Finished => false,
    }
}

fn candidate(start: JavaFolder, entry: Option<&String>, exe: &str) -> (r: JavaCandidate)
    ensures
        r.start == start,
        r.parts@.map_values(|s: String| s@) == match entry {
            Some(e) => seq![e@, "bin"@, exe@],
            None => seq!["bin"@, exe@],
        },
{
    let mut parts: Vec<String> = Vec::new();
    if let Some(e) = entry {
        parts.push(e.clone());
    }
    parts.push(owned("bin"));
    parts.push(owned(exe));
    assert(parts@.map_values(|s: String| s@) =~= match entry {
        Some(e) => seq![e@, "bin"@, exe@],
        None => seq!["bin"@, exe@],
    });
    JavaCandidate { start, parts }
}

fn after_installs(k: usize) -> (r: (JavaSearchState, JavaSearchAction))
    requires
        k <= INSTALL_FOLDERS,
    ensures
        spec_after_installs(k as int, r),
{
    if k < INSTALL_FOLDERS {
        (
            JavaSearchState::AwaitInstalls { index: k },
            JavaSearchAction::List { folder: JavaFolder::Text(owned(install_folder(k))) },
        )
    } else {
        (JavaSearchState::AwaitRuntime, JavaSearchAction::List { folder: JavaFolder::Runtime })
    }
}

fn after_path(platform: Platform) -> (r: (JavaSearchState, JavaSearchAction))
    ensures
        spec_after_path(platform, r),
{
    if platform == Platform::Windows {
        after_installs(0)
    } else {
        after_installs(INSTALL_FOLDERS)
    }
}

fn check_path() -> (r: (JavaSearchState, JavaSearchAction))
    ensures
        r.0 is CheckingPath,
        spec_checks(r.1, Some("java"@), seq![]),
{
    let parts: Vec<String> = Vec::new();
    assert(parts@.map_values(|s: String| s@) =~= Seq::<Seq<char>>::empty());
    let a = JavaSearchAction::Check {
        candidate: JavaCandidate { start: JavaFolder::Text(owned("java")), parts },
    };
    (JavaSearchState::CheckingPath, a)
}

/// Whether running a candidate found a valid Java.
pub open spec fn spec_ran_valid(event: JavaProbe, required_major: u32) -> bool {
    event matches JavaProbe::Ran { stderr: Some(s), .. } && spec_check_java(s@, required_major) is Some
}

/// Whether running a candidate found no valid Java.
pub open spec fn spec_ran_invalid(event: JavaProbe, required_major: u32) -> bool {
    event is Ran && !spec_ran_valid(event, required_major)
}

/// Whether `j` is the Java that running the candidate found.
pub open spec fn spec_found_by(event: JavaProbe, required_major: u32, j: JavaInstall) -> bool {
    event matches JavaProbe::Ran { path, stderr: Some(s) } && j.path == path && spec_check_java(
        s@,
        required_major,
    ) == Some(j.version)
}

fn run_result(path: PathBuf, stderr: Option<String>, required_major: u32) -> (r: Option<JavaInstall>)
    ensures
        match r {
            Some(j) => stderr matches Some(s) && j.path == path && spec_check_java(s@, required_major)
                == Some(j.version),
            None => !(stderr matches Some(s) && spec_check_java(s@, required_major) is Some),
        },
{
    match stderr {
        Some(s) => check_java(path, s.as_str(), required_major),
        None => None,
    }
}

fn found(j: JavaInstall) -> (r: (JavaSearchState, JavaSearchAction))
    ensures
        r.0 is Finished,
        r.1 == (JavaSearchAction::Finish { found: Some(j) }),
{
    (JavaSearchState::Finished, JavaSearchAction::Finish { found: Some(j) })
}

/// One step of the search for an installed Java of at least
/// `required_major`: from where it stands and what it just learned, the state
/// it moves to and what it asks for next. The candidates come in this order:
/// `$JAVA_HOME/bin/<exe>` when `JAVA_HOME` is set, then `java` on the PATH,
/// then on Windows `<sub>/bin/java.exe` for each entry `<sub>` of each common
/// install folder in turn, then `<sub>/bin/<exe>` for each entry of the
/// launcher's runtime folder. The first candidate found valid is the result;
/// none is the result once the candidates run out.
pub fn java_search_step(
    platform: Platform,
    required_major: u32,
    state: JavaSearchState,
    event: JavaProbe,
) -> (r: (JavaSearchState, JavaSearchAction))
    requires
        spec_java_search_expects(state, event),
    ensures
        (r.0 is Finished) == (r.1 is Finish),
        spec_ran_valid(event, required_major) ==> (r.1 matches JavaSearchAction::Finish {
            found: Some(j),
        } && spec_found_by(event, required_major, j)),
        r.1 matches JavaSearchAction::Finish { found: Some(j) } ==> j.version >= required_major,
        match state {
            JavaSearchState::Start => r.0 is AwaitHome && r.1 is ReadJavaHome,
            JavaSearchState::AwaitHome => match event {
                JavaProbe::JavaHome { value: Some(h) } => r.0 is CheckingHome && spec_checks(
                    r.1,
                    Some(h@),
                    seq!["bin"@, spec_java_executable(platform)],
                ),
                _ => r.0 is CheckingPath && spec_checks(r.1, Some("java"@), seq![]),
            },
            JavaSearchState::CheckingHome => spec_ran_invalid(event, required_major) ==> (
            r.0 is CheckingPath && spec_checks(r.1, Some("java"@), seq![])),
            JavaSearchState::CheckingPath => spec_ran_invalid(event, required_major) ==> spec_after_path(platform, r),
            JavaSearchState::AwaitInstalls { index } => match event {
                JavaProbe::Listed { entries } => if spec_listed(entries).len() > 0 {
                    &&& r.0 matches JavaSearchState::CheckingInstalls { index: i, entries: e, next }
                        && i == index && e@ == spec_listed(entries) && next == 0
                    &&& spec_checks(
                        r.1,
                        Some(spec_install_folder(index as int)),
                        spec_below(platform, spec_listed(entries)[0]@),
                    )
                } else {
                    spec_after_installs(index + 1, r)
                },
                _ => true,
            },
            JavaSearchState::CheckingInstalls { index, entries, next } => spec_ran_invalid(
                event,
                required_major,
            ) ==> if next + 1 < entries@.len() {
                &&& r.0 matches JavaSearchState::CheckingInstalls { index: i, entries: e, next: n }
                    && i == index && e == entries && n == next + 1
                &&& spec_checks(
                    r.1,
                    Some(spec_install_folder(index as int)),
                    spec_below(platform, entries@[next + 1]@),
                )
            } else {
                spec_after_installs(index + 1, r)
            },
            JavaSearchState::AwaitRuntime => match event {
                JavaProbe::Listed { entries } => if spec_listed(entries).len() > 0 {
                    &&& r.0 matches JavaSearchState::CheckingRuntime { entries: e, next } && e@
                        == spec_listed(entries) && next == 0
                    &&& spec_checks(r.1, None, spec_below(platform, spec_listed(entries)[0]@))
                } else {
                    r.1 == (JavaSearchAction::Finish { found: None })
                },
                _ => true,
            },
            JavaSearchState::CheckingRuntime { entries, next } => spec_ran_invalid(
                event,
                required_major,
            ) ==> if next + 1 < entries@.len() {
                &&& r.0 matches JavaSearchState::CheckingRuntime { entries: e, next: n } && e
                    == entries && n == next + 1
                &&& spec_checks(r.1, None, spec_below(platform, entries@[next + 1]@))
            } else {
                r.1 == (JavaSearchAction::Finish { found: None })
            },
            JavaSearchState::Finished => true,
        },
{
    let exe = java_executable(platform);
    match (state, event) {
        (JavaSearchState::Start, JavaProbe::Begin) => (
            JavaSearchState::AwaitHome,
            JavaSearchAction::ReadJavaHome,
        ),
        (JavaSearchState::AwaitHome, JavaProbe::JavaHome { value }) => match value {
            Some(h) => {
                let c = candidate(JavaFolder::Text(h), None, exe);
                (JavaSearchState::CheckingHome, JavaSearchAction::Check { candidate: c })
            },
            None => check_path(),
        },
        (JavaSearchState::CheckingHome, JavaProbe::Ran { path, stderr }) => match run_result(path, stderr, required_major) {
            Some(j) => found(j),
            None => check_path(),
        },
        (JavaSearchState::CheckingPath, JavaProbe::Ran { path, stderr }) => match run_result(path, stderr, required_major) {
            Some(j) => found(j),
            None => after_path(platform),
        },
        (JavaSearchState::AwaitInstalls { index }, JavaProbe::Listed { entries }) => {
            let es = match entries {
                Some(v) => v,
                None => Vec::new(),
            };
            if es.len() > 0 {
                let c = candidate(JavaFolder::Text(owned(install_folder(index))), Some(&es[0]), exe);
                (
                    JavaSearchState::CheckingInstalls { index, entries: es, next: 0 },
                    JavaSearchAction::Check { candidate: c },
                )
            } else {
                after_installs(index + 1)
            }
        },
        (JavaSearchState::CheckingInstalls { index, entries, next }, JavaProbe::Ran { path, stderr }) => {
            match run_result(path, stderr, required_major) {
                Some(j) => found(j),
                None => {
                    let n = entries.len();
                    if next < n - 1 {
                        let c = candidate(
                            JavaFolder::Text(owned(install_folder(index))),
                            Some(&entries[next + 1]),
                            exe,
                        );
                        (
                            JavaSearchState::CheckingInstalls { index, entries, next: next + 1 },
                            JavaSearchAction::Check { candidate: c },
                        )
                    } else {
                        after_installs(index + 1)
                    }
                },
            }
        },
        (JavaSearchState::AwaitRuntime, JavaProbe::Listed { entries }) => {
            let es = match entries {
                Some(v) => v,
                None => Vec::new(),
            };
            if es.len() > 0 {
                let c = candidate(JavaFolder::Runtime, Some(&es[0]), exe);
                (
                    JavaSearchState::CheckingRuntime { entries: es, next: 0 },
                    JavaSearchAction::Check { candidate: c },
                )
            } else {
                (JavaSearchState::Finished, JavaSearchAction::Finish { found: None })
            }
        },
        (JavaSearchState::CheckingRuntime { entries, next }, JavaProbe::Ran { path, stderr }) => {
            match run_result(path, stderr, required_major) {
                Some(j) => found(j),
                None => {
                    let n = entries.len();
                    if next < n - 1 {
                        let c = candidate(JavaFolder::Runtime, Some(&entries[next + 1]), exe);
                        (
                            JavaSearchState::CheckingRuntime { entries, next: next + 1 },
                            JavaSearchAction::Check { candidate: c },
                        )
                    } else {
                        (JavaSearchState::Finished, JavaSearchAction::Finish { found: None })
                    }
                },
            }
        },
        (_, _) => {
            proof {
                assert(false);
            }
            (JavaSearchState::Finished, JavaSearchAction::Finish { found: None })
        },
    }
}

/// Starts the search for an installed Java of at least `required_major` (see
/// `java_search_step`): its first state and action, which asks for the value
/// of `JAVA_HOME`. The caller carries out each action and hands what it
/// learned to `java_search_step` until the search finishes.
pub fn get_or_detect_java(platform: Platform, required_major: u32) -> (r: (
    JavaSearchState,
    JavaSearchAction,
))
    ensures
        r.0 is AwaitHome,
        r.1 is ReadJavaHome,
{
    java_search_step(platform, required_major, JavaSearchState::Start, JavaProbe::Begin)
}

/// A JRE package that Adoptium lists: where to download it and its file name.
#[derive(Debug)]
pub struct AdoptiumPackage {
    pub link: String,
    pub name: String,
}

/// The package to download among those Adoptium listed, newest first: the
/// first one's address and file name, or an error when none is listed.
pub fn first_adoptium_release(packages: Vec<AdoptiumPackage>) -> (r: Result<(String, String), McError>)
    ensures
        packages@.len() > 0 ==> (r matches Ok((link, name)) && link == packages@[0].link && name
            == packages@[0].name),
        packages@.len() == 0 ==> (r matches Err(e) && spec_custom_error(
            e,
            "Aucune release Adoptium trouvée"@,
        )),
{
    let mut packages = packages;
    if packages.len() == 0 {
        Err(custom_error("Aucune release Adoptium trouvée"))
    } else {
        let p = packages.remove(0);
        Ok((p.link, p.name))
    }
}

} // verus!
