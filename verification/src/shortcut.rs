//! The Start Menu shortcut that carries the AppUserModelID on Windows: its
//! name, where it goes, and how its failures are reported.

use vstd::prelude::*;
use vstd::string::*;
use crate::error::OperationError;
use crate::paths::{
    extension, file_stem, has_prefix, has_root, is_separator, is_verbatim, join_path, join_path_text, needs_separator, path_extension,
    path_file_stem, path_string,
};
use crate::text::{
    ascii_upper_seq, char_is_control, concat, eq_ignore_ascii_case, is_control_char, lemma_trim_idempotent, same_text,
    text_eq_ignore_ascii_case, texts, to_ascii_uppercase, trim, trim_seq,
};

verus! {

/// Characters Windows does not allow in a file name.
pub open spec fn is_forbidden_name_char(c: char) -> bool {
    is_control_char(c) || c == '<' || c == '>' || c == ':' || c == '"' || c == '/' || c == '\\' || c == '|'
        || c == '?' || c == '*'
}

/// The characters before the first dot.
pub open spec fn before_first_dot(s: Seq<char>) -> Seq<char>
    decreases s.len(),
{
    if s.len() == 0 || s[0] == '.' {
        seq![]
    } else {
        seq![s[0]] + before_first_dot(s.drop_first())
    }
}

/// The device names Windows reserves, in upper case.
pub open spec fn is_reserved_device_name(s: Seq<char>) -> bool {
    ||| s == "CON"@ ||| s == "PRN"@ ||| s == "AUX"@ ||| s == "NUL"@
    ||| s == "COM1"@ ||| s == "COM2"@ ||| s == "COM3"@ ||| s == "COM4"@ ||| s == "COM5"@
    ||| s == "COM6"@ ||| s == "COM7"@ ||| s == "COM8"@ ||| s == "COM9"@
    ||| s == "LPT1"@ ||| s == "LPT2"@ ||| s == "LPT3"@ ||| s == "LPT4"@ ||| s == "LPT5"@
    ||| s == "LPT6"@ ||| s == "LPT7"@ ||| s == "LPT8"@ ||| s == "LPT9"@
}

/// The reason given for a name that cannot be a single Windows file name.
pub const INVALID_NAME_ERROR: &'static str = "name must be a valid single Windows file name";

/// The name trimmed of white space, when it is a valid single Windows file
/// name: not empty, not ending in `.` or space, free of control and reserved
/// characters, and not a reserved device name before its first dot.
pub open spec fn windows_name_check(name: Seq<char>) -> Result<Seq<char>, Seq<char>> {
    let t = trim_seq(name);
    let invalid = t.len() == 0 || t.last() == '.' || t.last() == ' ' || exists|i: int|
        0 <= i < t.len() && is_forbidden_name_char(#[trigger] t[i]);
    let reserved = is_reserved_device_name(ascii_upper_seq(before_first_dot(t)));
    if invalid || reserved {
        Err(INVALID_NAME_ERROR@)
    } else {
        Ok(t)
    }
}

/// Whether `r` is the outcome `check` describes.
pub open spec fn text_outcome(r: Result<String, String>, check: Result<Seq<char>, Seq<char>>) -> bool {
    match check {
        Ok(x) => r matches Ok(s) && s@ == x,
        Err(x) => r matches Err(s) && s@ == x,
    }
}

fn is_reserved_device_text(s: &str) -> (r: bool)
    ensures
        r == is_reserved_device_name(s@),
{
    same_text(s, "CON") || same_text(s, "PRN") || same_text(s, "AUX") || same_text(s, "NUL")
        || same_text(s, "COM1") || same_text(s, "COM2") || same_text(s, "COM3") || same_text(s, "COM4")
        || same_text(s, "COM5") || same_text(s, "COM6") || same_text(s, "COM7") || same_text(s, "COM8")
        || same_text(s, "COM9") || same_text(s, "LPT1") || same_text(s, "LPT2") || same_text(s, "LPT3")
        || same_text(s, "LPT4") || same_text(s, "LPT5") || same_text(s, "LPT6") || same_text(s, "LPT7")
        || same_text(s, "LPT8") || same_text(s, "LPT9")
}

fn text_before_first_dot(s: &str) -> (r: String)
    ensures
        r@ == before_first_dot(s@),
{
    let n = s.unicode_len();
    let mut k: usize = 0;
    while k < n && s.get_char(k) != '.'
        invariant
            n == s@.len(),
            k <= n,
            forall|j: int| 0 <= j < k ==> #[trigger] s@[j] != '.',
        decreases n - k,
    {
        k = k + 1;
    }
    proof {
        lemma_before_first_dot(s@, k as int);
    }
    s.substring_char(0, k).to_owned()
}

proof fn lemma_before_first_dot(s: Seq<char>, k: int)
    requires
        0 <= k <= s.len(),
        forall|j: int| 0 <= j < k ==> #[trigger] s[j] != '.',
        k < s.len() ==> s[k] == '.',
    ensures
        before_first_dot(s) == s.subrange(0, k),
    decreases s.len(),
{
    if s.len() == 0 || s[0] == '.' {
        assert(s.subrange(0, k) =~= Seq::<char>::empty());
    } else {
        let t = s.drop_first();
        assert forall|j: int| 0 <= j < k - 1 implies #[trigger] t[j] != '.' by {
            assert(t[j] == s[j + 1]);
        }
        if k - 1 < t.len() {
            assert(t[k - 1] == s[k]);
        }
        lemma_before_first_dot(t, k - 1);
        assert(seq![s[0]] + t.subrange(0, k - 1) =~= s.subrange(0, k));
    }
}

/// Checks that `name`, trimmed, can be a single Windows file name, and returns it trimmed.
pub fn valid_windows_name(name: &str) -> (r: Result<String, String>)
    ensures
        text_outcome(r, windows_name_check(name@)),
{
    let t = trim(name);
    let n = t.unicode_len();
    let mut invalid = n == 0;
    if !invalid {
        let last = t.get_char(n - 1);
        invalid = last == '.' || last == ' ';
    }
    let mut i: usize = 0;
    while i < n && !invalid
        invariant
            n == t@.len(),
            t@ == trim_seq(name@),
            i <= n,
            !invalid ==> forall|j: int| 0 <= j < i ==> !is_forbidden_name_char(#[trigger] t@[j]),
            invalid ==> windows_name_check(name@) is Err,
            invalid == (t@.len() == 0 || t@.last() == '.' || t@.last() == ' ' || exists|j: int|
                0 <= j < i && is_forbidden_name_char(#[trigger] t@[j])),
        decreases n - i,
    {
        let c = t.get_char(i);
        if char_is_control(c) || c == '<' || c == '>' || c == ':' || c == '"' || c == '/' || c == '\\' || c == '|'
            || c == '?' || c == '*' {
            invalid = true;
        }
        i = i + 1;
    }
    let stem = text_before_first_dot(t.as_str());
    let upper = to_ascii_uppercase(stem.as_str());
    let reserved = is_reserved_device_text(upper.as_str());
    if invalid || reserved {
        Err(INVALID_NAME_ERROR.to_owned())
    } else {
        Ok(t)
    }
}

/// The extensions of host scripts whose name stands for the application.
pub open spec fn is_script_extension(e: Seq<char>) -> bool {
    ||| eq_ignore_ascii_case(e, "js"@) ||| eq_ignore_ascii_case(e, "mjs"@)
    ||| eq_ignore_ascii_case(e, "cjs"@) ||| eq_ignore_ascii_case(e, "jsx"@)
    ||| eq_ignore_ascii_case(e, "ts"@) ||| eq_ignore_ascii_case(e, "mts"@)
    ||| eq_ignore_ascii_case(e, "cts"@) ||| eq_ignore_ascii_case(e, "tsx"@)
    ||| eq_ignore_ascii_case(e, "py"@) ||| eq_ignore_ascii_case(e, "php"@)
}

fn text_is_script_extension(e: &str) -> (r: bool)
    ensures
        r == is_script_extension(e@),
{
    text_eq_ignore_ascii_case(e, "js") || text_eq_ignore_ascii_case(e, "mjs")
        || text_eq_ignore_ascii_case(e, "cjs") || text_eq_ignore_ascii_case(e, "jsx")
        || text_eq_ignore_ascii_case(e, "ts") || text_eq_ignore_ascii_case(e, "mts")
        || text_eq_ignore_ascii_case(e, "cts") || text_eq_ignore_ascii_case(e, "tsx")
        || text_eq_ignore_ascii_case(e, "py") || text_eq_ignore_ascii_case(e, "php")
}

/// The stem of the first argument that names a host script.
pub open spec fn first_script_stem(args: Seq<Seq<char>>) -> Option<Seq<char>>
    decreases args.len(),
{
    if args.len() == 0 {
        None
    } else {
        let a = args[0];
        if extension(a) matches Some(e) && is_script_extension(e) && file_stem(a) is Some {
            file_stem(a)
        } else {
            first_script_stem(args.drop_first())
        }
    }
}

/// The reason given when no name can be inferred.
pub const NO_NAME_ERROR: &'static str = "cannot infer a name from the host script or executable";

/// The application name: the requested one, else the stem of the first host
/// script among the arguments, else the stem of the executable; checked as a
/// single Windows file name.
pub open spec fn application_name_choice(
    requested: Option<Seq<char>>,
    executable: Seq<char>,
    args: Seq<Seq<char>>,
) -> Result<Seq<char>, Seq<char>> {
    match requested {
        Some(name) => windows_name_check(name),
        None => {
            let inferred = match first_script_stem(args) {
                Some(s) => Some(s),
                None => file_stem(executable),
            };
            match inferred {
                Some(name) => windows_name_check(name),
                None => Err(NO_NAME_ERROR@),
            }
        },
    }
}

/// The view of an optional string slice.
pub open spec fn opt_str(o: Option<&str>) -> Option<Seq<char>> {
    match o {
        Some(s) => Some(s@),
        None => None,
    }
}

/// The stem of the first argument that names a host script.
fn find_script_stem(arguments: &Vec<String>) -> (r: Option<String>)
    ensures
        match r {
            Some(x) => first_script_stem(texts(arguments@)) == Some(x@),
            None => first_script_stem(texts(arguments@)) is None,
        },
{
    let n = arguments.len();
    let mut i: usize = 0;
    assert(texts(arguments@).subrange(0, n as int) =~= texts(arguments@));
    while i < n
        invariant
            n == arguments@.len(),
            i <= n,
            first_script_stem(texts(arguments@)) == first_script_stem(texts(arguments@).subrange(i as int, n as int)),
        decreases n - i,
    {
        let a = arguments[i].as_str();
        let ghost rest = texts(arguments@).subrange(i as int, n as int);
        assert(rest[0] == a@);
        assert(rest.drop_first() =~= texts(arguments@).subrange(i + 1, n as int));
        let matched = match path_extension(a) {
            Some(e) => text_is_script_extension(e.as_str()),
            None => false,
        };
        if matched {
            if let Some(stem) = path_file_stem(a) {
                return Some(stem);
            }
        }
        i = i + 1;
    }
    assert(texts(arguments@).subrange(n as int, n as int).len() == 0);
    None
}

/// Infers the name of the application's Start Menu shortcut from the request,
/// the host's command-line arguments (without the program) and its executable.
pub fn application_name_from_args(requested: Option<&str>, executable: &str, arguments: &Vec<String>) -> (r: Result<
    String,
    String,
>)
    ensures
        text_outcome(r, application_name_choice(opt_str(requested), executable@, texts(arguments@))),
{
    if let Some(name) = requested {
        return valid_windows_name(name);
    }
    let script = find_script_stem(arguments);
    let inferred = match script {
        Some(s) => Some(s),
        None => path_file_stem(executable),
    };
    match inferred {
        Some(name) => valid_windows_name(name.as_str()),
        None => Err(NO_NAME_ERROR.to_owned()),
    }
}

/// The operation named when the host's executable cannot be found.
pub const RESOLVE_EXECUTABLE_OPERATION: &'static str = "resolve-executable";

/// The operation named when no valid shortcut name can be had.
pub const RESOLVE_SHORTCUT_NAME_OPERATION: &'static str = "resolve-shortcut-name";

/// The error for an executable path that could not be found, with the reason.
pub fn executable_error(message: &str) -> (r: OperationError)
    ensures
        r.operation@ == RESOLVE_EXECUTABLE_OPERATION@,
        r.message@ == message@,
        r.executable_path is None,
        r.shortcut_path is None,
        r.webview_data_directory is None,
{
    OperationError::plain(RESOLVE_EXECUTABLE_OPERATION, message)
}

/// The name of the Start Menu shortcut for `executable`, as
/// `application_name_from_args` infers it; a failure is reported with the
/// executable's path.
pub fn shortcut_name(requested: Option<&str>, executable: &str, arguments: &Vec<String>) -> (r: Result<
    String,
    OperationError,
>)
    ensures
        match application_name_choice(opt_str(requested), executable@, texts(arguments@)) {
            Ok(name) => r matches Ok(n) && n@ == name,
            Err(reason) => r matches Err(e) && e.operation@ == RESOLVE_SHORTCUT_NAME_OPERATION@ && e.message@ == reason
                && (e.executable_path matches Some(p) && p@ == executable@) && e.shortcut_path is None
                && e.webview_data_directory is None,
        },
{
    match application_name_from_args(requested, executable, arguments) {
        Ok(name) => Ok(name),
        Err(message) => Err(OperationError {
            operation: RESOLVE_SHORTCUT_NAME_OPERATION.to_owned(),
            message,
            executable_path: Some(path_string(executable)),
            shortcut_path: None,
            webview_data_directory: None,
        }),
    }
}

/// Where the shortcut named `name` goes: directly under the Start Menu's
/// Programs directory, as `<name>.lnk`.
pub open spec fn shortcut_path(programs: Seq<char>, name: Seq<char>) -> Seq<char> {
    join_path(programs, name + ".lnk"@)
}

/// The path of the Start Menu shortcut named `name` under `programs`.
pub fn start_menu_shortcut_path(programs: &str, name: &str) -> (r: String)
    ensures
        r@ == shortcut_path(programs@, name@),
{
    let file = concat(name, ".lnk");
    join_path_text(programs, file.as_str())
}

/// A failed registration step, with the executable and shortcut paths.
pub fn registration_error(operation: &str, message: String, executable: &str, shortcut: &str) -> (r: OperationError)
    ensures
        r.operation@ == operation@,
        r.message@ == message@,
        r.executable_path matches Some(p) && p@ == executable@,
        r.shortcut_path matches Some(p) && p@ == shortcut@,
        r.webview_data_directory is None,
{
    OperationError {
        operation: operation.to_owned(),
        message,
        executable_path: Some(path_string(executable)),
        shortcut_path: Some(path_string(shortcut)),
        webview_data_directory: None,
    }
}

/// The shortcut of a name accepted by `windows_name_check` lies directly in the Programs
/// directory: its path is that directory, a separator when it needs one, and
/// `<name>.lnk`, which holds no separator and replaces nothing of the directory.
/// (Stated for a Programs directory that is not verbatim, `\\?\...`, onto
/// which `Path::join` normalizes instead of appending.)
pub proof fn law_shortcut_is_directly_under_programs(programs: Seq<char>, name: Seq<char>, checked: Seq<char>)
    requires
        windows_name_check(name) == Ok::<Seq<char>, Seq<char>>(checked),
        !is_verbatim(programs),
    ensures
        shortcut_path(programs, checked) == programs + (if needs_separator(programs) {
            seq!['\\']
        } else {
            seq![]
        }) + checked + ".lnk"@,
        forall|i: int| 0 <= i < (checked + ".lnk"@).len() ==> !is_separator(#[trigger] (checked + ".lnk"@)[i]),
{
    reveal_strlit(".lnk");
    let file = checked + ".lnk"@;
    assert(checked.len() > 0);
    assert(!is_forbidden_name_char(checked[0]));
    if checked.len() >= 2 {
        assert(!is_forbidden_name_char(checked[1]));
        assert(file[1] == checked[1]);
    } else {
        assert(file[1] == '.');
    }
    assert(file[0] == checked[0]);
    assert(!has_prefix(file));
    assert(!has_root(file));
    assert forall|i: int| 0 <= i < file.len() implies !is_separator(#[trigger] file[i]) by {
        if i < checked.len() {
            assert(file[i] == checked[i]);
            assert(!is_forbidden_name_char(checked[i]));
        }
    }
    if !needs_separator(programs) {
        assert(programs + file =~= programs + seq![] + checked + ".lnk"@);
    } else {
        assert(programs + seq!['\\'] + file =~= programs + seq!['\\'] + checked + ".lnk"@);
    }
}

/// A name accepted by `windows_name_check` is accepted again unchanged: the name check is
/// idempotent, so the stored shortcut name is its own checked form.
pub proof fn law_checked_name_is_stable(name: Seq<char>, checked: Seq<char>)
    requires
        windows_name_check(name) == Ok::<Seq<char>, Seq<char>>(checked),
    ensures
        windows_name_check(checked) == Ok::<Seq<char>, Seq<char>>(checked),
{
    lemma_trim_idempotent(name);
}

/// An extension the original host scripts use: `js`, `mjs`, `cjs`, `jsx`, `ts`,
/// `mts`, `cts`, `tsx`, `py` or `php`, in any ASCII case.
pub open spec fn names_host_script(e: Seq<char>) -> bool {
    eq_ignore_ascii_case(e, "js"@) || eq_ignore_ascii_case(e, "mjs"@) || eq_ignore_ascii_case(e, "cjs"@)
        || eq_ignore_ascii_case(e, "jsx"@) || eq_ignore_ascii_case(e, "ts"@) || eq_ignore_ascii_case(e, "mts"@)
        || eq_ignore_ascii_case(e, "cts"@) || eq_ignore_ascii_case(e, "tsx"@) || eq_ignore_ascii_case(e, "py"@)
        || eq_ignore_ascii_case(e, "php"@)
}

/// Argument `a` is a host script with a file stem.
pub open spec fn is_host_script_argument(a: Seq<char>) -> bool {
    &&& extension(a) matches Some(e) && names_host_script(e)
    &&& file_stem(a) is Some
}

proof fn lemma_first_script(args: Seq<Seq<char>>, k: int)
    requires
        0 <= k < args.len(),
        is_host_script_argument(args[k]),
        forall|j: int| 0 <= j < k ==> !is_host_script_argument(#[trigger] args[j]),
    ensures
        first_script_stem(args) == file_stem(args[k]),
    decreases k,
{
    if k > 0 {
        assert(!is_host_script_argument(args[0]));
        let rest = args.drop_first();
        assert forall|j: int| 0 <= j < k - 1 implies !is_host_script_argument(#[trigger] rest[j]) by {
            assert(rest[j] == args[j + 1]);
        }
        lemma_first_script(rest, k - 1);
    }
}

/// The first host script names the shortcut: with no name requested, when
/// argument `k` is the first argument whose extension is `js`, `mjs`, `cjs`,
/// `jsx`, `ts`, `mts`, `cts`, `tsx`, `py` or `php` (any ASCII case) and that
/// has a file stem, the name is that stem, checked as a Windows file name.
pub proof fn law_first_host_script_names_the_shortcut(
    executable: Seq<char>,
    args: Seq<Seq<char>>,
    k: int,
    r: Result<String, String>,
)
    requires
        text_outcome(r, application_name_choice(None, executable, args)),
        0 <= k < args.len(),
        is_host_script_argument(args[k]),
        forall|j: int| 0 <= j < k ==> !is_host_script_argument(#[trigger] args[j]),
    ensures
        match file_stem(args[k]) {
            Some(stem) => text_outcome(r, windows_name_check(stem)),
            None => false,
        },
{
    lemma_first_script(args, k);
}


} // verus!
