//! The Sound Library: resolves a [`SoundId`] to a playable URI, lists the
//! bundled and custom sounds, and validates imports.
//!
//! Sounds live as files in two directories: bundled ones (shipped with the
//! app) by file stem, custom ones (imported by the user) by token. A file
//! counts as a sound when its extension, lower-cased, is one of
//! `mp3`, `m4a`, `ogg`, `wav`.
use vstd::prelude::*;

use super::sound_id::SoundId;
use crate::build::config::{join_path, path_join};
use crate::text::{
    chars_of, map_char, map_char_exec, push_chars, push_str_chars, rfind_char,
    rfind_char_below_exec, lemma_rfind_char_below_props, seq_lt, seq_lt_exec, slice_chars,
    string_of,
};

verus! {

#[verifier::external_type_specification]
#[verifier::external_body]
pub struct ExIoError(std::io::Error);

/// How the platform is asked for the system-default sound. Implemented by
/// the platform layer, and by a mock in tests; nothing is promised of an
/// implementation here.
pub trait SoundBackend {
    /// The system default alarm sound URI.
    fn system_default_uri(&self) -> String;
}

/// Errors returned by Sound Library operations.
#[derive(Debug)]
pub enum SoundError {
    Io { operation: &'static str, source: std::io::Error },
    SourceNotReadable(String),
    EmptyImport,
    UnsupportedExtension(String),
}

/// A bundled or custom sound.
#[derive(Debug, Clone, PartialEq, Eq)]
pub struct SoundEntry {
    pub id: SoundId,
    /// Suggested display label (the file stem).
    pub label: String,
    /// The file's path.
    pub path: String,
}

/// The allowed sound file extensions (lower-case).
pub open spec fn allowed_extensions() -> Seq<Seq<char>> {
    seq!["mp3"@, "m4a"@, "ogg"@, "wav"@]
}

/// `str::to_lowercase`.
pub uninterp spec fn lowercase(s: Seq<char>) -> Seq<char>;

/// `str::to_lowercase`: the Unicode lower-case mapping of every character.
#[verifier::external_body]
fn to_lowercase(s: &str) -> (r: String)
    ensures
        r@ == lowercase(s@),
{
    s.to_lowercase()
}

/// `Path::exists` on `path`. What it returns depends on the file system, so
/// nothing is stated of it.
#[verifier::external_body]
fn path_exists(path: &str) -> (r: bool) {
    std::path::Path::new(path).exists()
}

/// `b` is an answer `Path::exists` gave for the path `p`.
pub closed spec fn probe_said(p: Seq<char>, b: bool) -> bool {
    exists|s: &str| s@ == p && #[trigger] call_ensures(path_exists, (s,), b)
}

/// The position of the first `true` in `answers` at or after `i`.
pub open spec fn first_true_from(answers: Seq<bool>, i: int) -> Option<int>
    decreases answers.len() - i,
{
    if i < 0 || i >= answers.len() {
        None
    } else if answers[i] {
        Some(i)
    } else {
        first_true_from(answers, i + 1)
    }
}

/// The position of the first `true` in `answers`.
pub open spec fn first_true(answers: Seq<bool>) -> Option<int> {
    first_true_from(answers, 0)
}

pub proof fn lemma_first_true_from(answers: Seq<bool>, i: int)
    requires
        0 <= i,
    ensures
        first_true_from(answers, i) matches Some(k) ==> i <= k < answers.len() && answers[k]
            && forall|j: int| i <= j < k ==> !answers[j],
        first_true_from(answers, i) is None ==> forall|j: int| i <= j < answers.len() ==> !answers[j],
    decreases answers.len() - i,
{
    if i < answers.len() && !answers[i] {
        lemma_first_true_from(answers, i + 1);
    }
}

/// The position of the first probe that found its file, given the probes'
/// answers in order; `None` when none did.
pub fn first_found(answers: &[bool]) -> (r: Option<usize>)
    ensures
        match r {
            Some(i) => first_true(answers@) == Some(i as int),
            None => first_true(answers@) is None,
        },
{
    let mut i: usize = 0;
    while i < answers.len()
        invariant
            i <= answers.len(),
            first_true_from(answers@, i as int) == first_true(answers@),
        decreases answers.len() - i,
    {
        if answers[i] {
            return Some(i);
        }
        i = i + 1;
    }
    None
}

fn is_allowed_extension(ext: &str) -> (r: bool)
    ensures
        r == allowed_extensions().contains(ext@),
{
    let e = chars_of(ext);
    let r = crate::text::str_eq(ext, "mp3") || crate::text::str_eq(ext, "m4a")
        || crate::text::str_eq(ext, "ogg") || crate::text::str_eq(ext, "wav");
    proof {
        let a = allowed_extensions();
        if r {
            if ext@ == "mp3"@ {
                assert(a[0] == ext@);
            } else if ext@ == "m4a"@ {
                assert(a[1] == ext@);
            } else if ext@ == "ogg"@ {
                assert(a[2] == ext@);
            } else {
                assert(a[3] == ext@);
            }
        } else {
            if a.contains(ext@) {
                let i = choose|i: int| 0 <= i < a.len() && a[i] == ext@;
                assert(i == 0 || i == 1 || i == 2 || i == 3);
            }
        }
    }
    r
}

/// The extension of a file name, as `Path::extension` gives it: what
/// follows the last `'.'`, unless that dot begins the name or there is none.
pub open spec fn extension_of(name: Seq<char>) -> Option<Seq<char>> {
    match rfind_char(name, '.') {
        Some(i) => if i == 0 {
            None
        } else {
            Some(name.skip(i + 1))
        },
        None => None,
    }
}

/// The stem of a file name, as `Path::file_stem` gives it: what precedes
/// the last `'.'`, or the whole name when the extension is absent.
pub open spec fn stem_of(name: Seq<char>) -> Seq<char> {
    match rfind_char(name, '.') {
        Some(i) => if i == 0 {
            name
        } else {
            name.take(i)
        },
        None => name,
    }
}

/// The lower-cased extension, or the empty text when there is none.
pub open spec fn lower_extension(name: Seq<char>) -> Seq<char> {
    match extension_of(name) {
        Some(e) => lowercase(e),
        None => seq![],
    }
}

/// The file `name` is a sound file: its lower-cased extension is allowed.
pub open spec fn is_sound_file(name: Seq<char>) -> bool {
    allowed_extensions().contains(lower_extension(name))
}

fn split_name(name: &str) -> (r: (Option<String>, String))
    ensures
        match r.0 {
            Some(e) => extension_of(name@) == Some(e@),
            None => extension_of(name@) is None,
        },
        r.1@ == stem_of(name@),
{
    let n = chars_of(name);
    proof {
        lemma_rfind_char_below_props(n@, '.', n@.len() as int);
    }
    match rfind_char_below_exec(n.as_slice(), '.', n.len()) {
        Some(i) => {
            if i == 0 {
                (None, string_of(n.as_slice()))
            } else {
                let e = slice_chars(n.as_slice(), i + 1, n.len());
                let s = slice_chars(n.as_slice(), 0, i);
                assert(e@ =~= n@.skip(i + 1));
                assert(s@ =~= n@.take(i as int));
                (Some(string_of(e.as_slice())), string_of(s.as_slice()))
            }
        },
        None => (None, string_of(n.as_slice())),
    }
}

fn lower_extension_exec(name: &str) -> (r: String)
    ensures
        r@ == lower_extension(name@),
{
    let (ext, _) = split_name(name);
    match ext {
        Some(e) => to_lowercase(e.as_str()),
        None => String::new(),
    }
}

/// Check a file of `len` bytes named `file_name` for import.
pub fn check_import(len: usize, file_name: &str) -> (r: Result<String, SoundError>)
    ensures
        len == 0 ==> r matches Err(SoundError::EmptyImport),
        len > 0 && !is_sound_file(file_name@) ==> (r matches Err(SoundError::UnsupportedExtension(
            e,
        )) && e@ == lower_extension(file_name@)),
        len > 0 && is_sound_file(file_name@) ==> (r matches Ok(e) && e@ == lower_extension(
            file_name@,
        )),
{
    if len == 0 {
        return Err(SoundError::EmptyImport);
    }
    let ext = lower_extension_exec(file_name);
    if !is_allowed_extension(ext.as_str()) {
        return Err(SoundError::UnsupportedExtension(ext));
    }
    Ok(ext)
}

/// The file name an import is stored under: `<token>.<ext>`.
pub fn import_file_name(token: &str, ext: &str) -> (r: String)
    ensures
        r@ == token@ + seq!['.'] + ext@,
{
    let mut n = chars_of(token);
    n.push('.');
    push_str_chars(&mut n, ext);
    string_of(n.as_slice())
}

/// A lowercase hexadecimal digit.
pub open spec fn is_lower_hex(c: char) -> bool {
    (48 <= (c as u32) <= 57) || (97 <= (c as u32) <= 102)
}

/// The shape every version 4 UUID has when printed in its hyphenated
/// lowercase form: 36 characters, `-` at positions 8, 13, 18 and 23,
/// lowercase hexadecimal digits elsewhere, the version digit `4` at
/// position 14 and a variant digit `8`, `9`, `a` or `b` at position 19.
pub open spec fn is_v4_token(t: Seq<char>) -> bool {
    &&& t.len() == 36
    &&& forall|i: int|
        0 <= i < 36 ==> if i == 8 || i == 13 || i == 18 || i == 23 {
            t[i] == '-'
        } else {
            is_lower_hex(#[trigger] t[i])
        }
    &&& t[14] == '4'
    &&& (t[19] == '8' || t[19] == '9' || t[19] == 'a' || t[19] == 'b')
}

/// `uuid::Uuid::new_v4`, printed with `to_string`: a fresh random token.
/// The value rests on chance; what holds of every outcome is its shape,
/// which the crate's source fixes (random bits with the version and variant
/// bits set, printed as hyphenated lowercase hex). The call panics only
/// when the operating system's random source fails.
#[verifier::external_body]
fn new_v4_token() -> (r: String)
    ensures
        is_v4_token(r@),
{
    uuid::Uuid::new_v4().to_string()
}

/// Plan the import of a file of `len` bytes named `file_name`: check it,
/// then give it a fresh token. Returns the token (the custom sound's id) and
/// the name it is stored under in the custom directory, `<token>.<ext>`.
pub fn plan_import(len: usize, file_name: &str) -> (r: Result<(String, String), SoundError>)
    ensures
        len == 0 ==> r matches Err(SoundError::EmptyImport),
        len > 0 && !is_sound_file(file_name@) ==> (r matches Err(SoundError::UnsupportedExtension(
            e,
        )) && e@ == lower_extension(file_name@)),
        len > 0 && is_sound_file(file_name@) ==> (r matches Ok((token, name)) && is_v4_token(
            token@,
        ) && name@ == token@ + seq!['.'] + lower_extension(file_name@)),
{
    match check_import(len, file_name) {
        Ok(ext) => {
            let token = new_v4_token();
            let name = import_file_name(token.as_str(), ext.as_str());
            Ok((token, name))
        },
        Err(e) => Err(e),
    }
}

/// The paths probed for the sound `stem` in `dir`, in order: the name as
/// given (custom tokens carry their extension), then the name with each
/// allowed extension.
pub open spec fn candidate_paths(dir: Seq<char>, stem: Seq<char>) -> Seq<Seq<char>> {
    seq![
        path_join(dir, stem),
        path_join(dir, stem + ".mp3"@),
        path_join(dir, stem + ".m4a"@),
        path_join(dir, stem + ".ogg"@),
        path_join(dir, stem + ".wav"@),
    ]
}

/// Every allowed extension is tried: the paths probed for `stem` in `dir`
/// are the name as given, then `stem.<e>` for each allowed extension `e`,
/// in the order of the allowed extensions.
pub proof fn law_candidates_try_every_allowed_extension(dir: Seq<char>, stem: Seq<char>)
    ensures
        candidate_paths(dir, stem).len() == allowed_extensions().len() + 1,
        candidate_paths(dir, stem)[0] == path_join(dir, stem),
        forall|k: int|
            0 <= k < allowed_extensions().len() ==> #[trigger] candidate_paths(dir, stem)[k + 1]
                == path_join(dir, stem + seq!['.'] + allowed_extensions()[k]),
{
    reveal_strlit(".mp3");
    reveal_strlit(".m4a");
    reveal_strlit(".ogg");
    reveal_strlit(".wav");
    reveal_strlit("mp3");
    reveal_strlit("m4a");
    reveal_strlit("ogg");
    reveal_strlit("wav");
    assert(".mp3"@ =~= seq!['.'] + "mp3"@);
    assert(".m4a"@ =~= seq!['.'] + "m4a"@);
    assert(".ogg"@ =~= seq!['.'] + "ogg"@);
    assert(".wav"@ =~= seq!['.'] + "wav"@);
    assert(stem + ".mp3"@ =~= stem + seq!['.'] + "mp3"@);
    assert(stem + ".m4a"@ =~= stem + seq!['.'] + "m4a"@);
    assert(stem + ".ogg"@ =~= stem + seq!['.'] + "ogg"@);
    assert(stem + ".wav"@ =~= stem + seq!['.'] + "wav"@);
}

/// A listed sound's name splits at its last dot: the label (the stem) and
/// the extension, joined by a dot, give the name back, and the extension
/// holds no dot; a name without an extension is its own label. So the id an
/// entry carries leads back to the listed file: when the extension is
/// absent or allowed as written, the file is among the paths probed for
/// the entry's label.
pub proof fn law_listed_name_splits_at_last_dot(dir: Seq<char>, name: Seq<char>, custom: bool)
    ensures
        match extension_of(name) {
            Some(e) => stem_of(name) + seq!['.'] + e == name && stem_of(name).len() > 0
                && forall|k: int| 0 <= k < e.len() ==> e[k] != '.',
            None => stem_of(name) == name,
        },
        entry_of(dir, name, custom).1 == stem_of(name),
        (extension_of(name) matches Some(e) ==> allowed_extensions().contains(e))
            ==> candidate_paths(dir, entry_of(dir, name, custom).1).contains(path_join(dir, name)),
{
    lemma_rfind_char_below_props(name, '.', name.len() as int);
    law_candidates_try_every_allowed_extension(dir, stem_of(name));
    let c = candidate_paths(dir, stem_of(name));
    match extension_of(name) {
        Some(e) => {
            let i = rfind_char(name, '.')->0;
            assert(name.take(i) + seq!['.'] + name.skip(i + 1) =~= name);
            if allowed_extensions().contains(e) {
                let k = choose|k: int| 0 <= k < allowed_extensions().len() && allowed_extensions()[k] == e;
                assert(c[k + 1] == path_join(dir, name));
                assert(c.contains(path_join(dir, name)));
            }
        },
        None => {
            assert(c[0] == path_join(dir, name));
        },
    }
}

/// The paths probed for the sound `stem` in `dir`.
pub fn candidate_paths_exec(dir: &str, stem: &str) -> (r: Vec<String>)
    ensures
        r@.len() == 5,
        forall|i: int| 0 <= i < 5 ==> #[trigger] r@[i]@ == candidate_paths(dir@, stem@)[i],
{
    let mut out: Vec<String> = Vec::new();
    out.push(join_path(dir, stem));
    let exts: [&str; 4] = [".mp3", ".m4a", ".ogg", ".wav"];
    let mut k: usize = 0;
    while k < 4
        invariant
            k <= 4,
            exts@ == seq![".mp3", ".m4a", ".ogg", ".wav"],
            out@.len() == k + 1,
            forall|i: int| 0 <= i < k + 1 ==> #[trigger] out@[i]@ == candidate_paths(dir@, stem@)[i],
        decreases 4 - k,
    {
        let mut n = chars_of(stem);
        push_str_chars(&mut n, exts[k]);
        let name = string_of(n.as_slice());
        out.push(join_path(dir, name.as_str()));
        k = k + 1;
    }
    out
}

/// The `file://` URI of a path: backslashes written as slashes, and a
/// `file:///` prefix for a path that does not start with `/`.
pub open spec fn file_uri_spec(path: Seq<char>) -> Seq<char> {
    let s = map_char(path, '\\', '/');
    if s.len() > 0 && s[0] == '/' {
        "file://"@ + s
    } else {
        "file:///"@ + s
    }
}

/// Convert a file-system path to a `file://` URI string.
pub fn file_uri(path: &str) -> (r: String)
    ensures
        r@ == file_uri_spec(path@),
{
    let p = chars_of(path);
    let s = map_char_exec(p.as_slice(), '\\', '/');
    let mut out = if s.len() > 0 && s[0] == '/' {
        chars_of("file://")
    } else {
        chars_of("file:///")
    };
    push_chars(&mut out, s.as_slice());
    string_of(out.as_slice())
}

/// The URI `resolve` gives for `id`, once the first existing candidate file
/// (`located`) and the backend's system default are known: `silent://` for
/// silence, the backend's URI for the system default, and for a bundled or
/// custom sound the file URI of the located file, falling back to the
/// system default when none exists.
pub open spec fn resolved_uri(
    id: SoundId,
    located: Option<Seq<char>>,
    system_default: Seq<char>,
) -> Seq<char> {
    match id {
        SoundId::Silent => "silent://"@,
        SoundId::SystemDefault => system_default,
        _ => match located {
            Some(p) => file_uri_spec(p),
            None => system_default,
        },
    }
}

/// `answers` are what `Path::exists` said of the five candidate paths of
/// `stem` in `dir`, in order.
pub open spec fn probed(dir: Seq<char>, stem: Seq<char>, answers: Seq<bool>) -> bool {
    answers.len() == 5 && forall|i: int|
        0 <= i < 5 ==> probe_said(candidate_paths(dir, stem)[i], #[trigger] answers[i])
}

/// The candidate the answers pick: the first one that was found.
pub open spec fn located_by(dir: Seq<char>, stem: Seq<char>, answers: Seq<bool>) -> Option<
    Seq<char>,
> {
    match first_true(answers) {
        Some(i) => Some(candidate_paths(dir, stem)[i]),
        None => None,
    }
}

/// Sound Library rooted at a bundled and a custom directory.
pub struct SoundLibrary<B: SoundBackend> {
    bundled_dir: String,
    custom_dir: String,
    backend: B,
}

impl<B: SoundBackend> SoundLibrary<B> {
    pub closed spec fn bundled(&self) -> Seq<char> {
        self.bundled_dir@
    }

    pub closed spec fn custom(&self) -> Seq<char> {
        self.custom_dir@
    }

    /// The backend the library asks for the system default.
    pub closed spec fn backend_of(&self) -> B {
        self.backend
    }

    /// `r` is what resolving the bundled or custom `id` gives when the
    /// probes of its candidate files answered `answers`: the file URI of
    /// the first candidate found, or else what the backend's
    /// `system_default_uri` returned.
    pub open spec fn resolved_with(&self, id: SoundId, r: String, answers: Seq<bool>) -> bool {
        &&& probed(self.dir_of(id), id_stem(id), answers)
        &&& match located_by(self.dir_of(id), id_stem(id), answers) {
            Some(p) => r@ == file_uri_spec(p),
            None => call_ensures(B::system_default_uri, (&self.backend_of(),), r),
        }
    }

    /// The directory a sound id's files live in.
    pub open spec fn dir_of(&self, id: SoundId) -> Seq<char> {
        match id {
            SoundId::Custom(_) => self.custom(),
            _ => self.bundled(),
        }
    }

    /// A library rooted at the supplied directories.
    pub fn new(bundled_dir: String, custom_dir: String, backend: B) -> (r: Self)
        ensures
            r.bundled() == bundled_dir@,
            r.custom() == custom_dir@,
            r.backend_of() == backend,
    {
        SoundLibrary { bundled_dir, custom_dir, backend }
    }

    /// The bundled-sounds directory.
    pub fn bundled_dir(&self) -> (r: &str)
        ensures
            r@ == self.bundled(),
    {
        self.bundled_dir.as_str()
    }

    /// The custom-sounds directory.
    pub fn custom_dir(&self) -> (r: &str)
        ensures
            r@ == self.custom(),
    {
        self.custom_dir.as_str()
    }

    /// The first candidate file of `stem` in `dir` that exists: every
    /// candidate is probed, and the answers decide.
    fn locate(dir: &str, stem: &str) -> (r: Option<String>)
        ensures
            exists|answers: Seq<bool>|
                #[trigger] probed(dir@, stem@, answers) && opt_string_view(r) == located_by(
                    dir@,
                    stem@,
                    answers,
                ),
    {
        let cands = candidate_paths_exec(dir, stem);
        let mut answers: Vec<bool> = Vec::new();
        let mut i: usize = 0;
        while i < 5
            invariant
                i <= 5,
                cands@.len() == 5,
                forall|j: int| 0 <= j < 5 ==> #[trigger] cands@[j]@ == candidate_paths(dir@, stem@)[j],
                answers@.len() == i,
                forall|j: int|
                    0 <= j < i ==> probe_said(candidate_paths(dir@, stem@)[j], #[trigger] answers@[j]),
            decreases 5 - i,
        {
            let c = cands[i].as_str();
            let b = path_exists(c);
            proof {
                assert(c@ == candidate_paths(dir@, stem@)[i as int]);
                assert(call_ensures(path_exists, (c,), b));
                assert(probe_said(candidate_paths(dir@, stem@)[i as int], b));
            }
            answers.push(b);
            i = i + 1;
        }
        assert(probed(dir@, stem@, answers@));
        proof {
            lemma_first_true_from(answers@, 0);
        }
        match first_found(answers.as_slice()) {
            Some(k) => {
                let p = cands[k].clone();
                assert(candidate_paths(dir@, stem@)[k as int] == p@);
                Some(p)
            },
            None => None,
        }
    }

    /// The URI for `id` given the located file and the system default; see
    /// [`resolved_uri`].
    pub fn resolve_located(id: &SoundId, located: Option<String>, system_default: String) -> (r:
        String)
        ensures
            r@ == resolved_uri(*id, opt_string_view(located), system_default@),
    {
        match id {
            SoundId::Silent => "silent://".to_owned(),
            SoundId::SystemDefault => system_default,
            _ => match located {
                Some(p) => file_uri(p.as_str()),
                None => system_default,
            },
        }
    }

    /// Resolve a [`SoundId`] to a playable URI. `silent://` for silence;
    /// the backend's system default for the system default; for a bundled
    /// or custom sound, the `file://` URI of the first candidate file that
    /// exists, falling back to the backend's system default when none does.
    /// Which file exists is the file system's to say.
    pub fn resolve(&self, id: &SoundId) -> (r: String)
        ensures
            *id is Silent ==> r@ == "silent://"@,
            *id is SystemDefault ==> call_ensures(B::system_default_uri, (&self.backend_of(),), r),
            (*id is Bundled || *id is Custom) ==> exists|answers: Seq<bool>|
                #[trigger] self.resolved_with(*id, r, answers),
    {
        match id {
            SoundId::Silent => "silent://".to_owned(),
            SoundId::SystemDefault => self.backend.system_default_uri(),
            SoundId::Bundled(stem) => {
                let l = Self::locate(self.bundled_dir.as_str(), stem.as_str());
                assert(self.dir_of(*id) == self.bundled_dir@ && id_stem(*id) == stem@);
                let ghost ans = choose|a: Seq<bool>|
                    #[trigger] probed(self.dir_of(*id), id_stem(*id), a) && opt_string_view(l)
                        == located_by(self.dir_of(*id), id_stem(*id), a);
                let r = match l {
                    Some(p) => file_uri(p.as_str()),
                    None => self.backend.system_default_uri(),
                };
                assert(self.resolved_with(*id, r, ans));
                r
            },
            SoundId::Custom(token) => {
                let l = Self::locate(self.custom_dir.as_str(), token.as_str());
                assert(self.dir_of(*id) == self.custom_dir@ && id_stem(*id) == token@);
                let ghost ans = choose|a: Seq<bool>|
                    #[trigger] probed(self.dir_of(*id), id_stem(*id), a) && opt_string_view(l)
                        == located_by(self.dir_of(*id), id_stem(*id), a);
                let r = match l {
                    Some(p) => file_uri(p.as_str()),
                    None => self.backend.system_default_uri(),
                };
                assert(self.resolved_with(*id, r, ans));
                r
            },
        }
    }
}

/// The text of an optional string.
pub open spec fn opt_string_view(o: Option<String>) -> Option<Seq<char>> {
    match o {
        Some(p) => Some(p@),
        None => None,
    }
}

/// The name a bundled or custom id is looked up by.
pub open spec fn id_stem(id: SoundId) -> Seq<char> {
    match id {
        SoundId::Bundled(s) => s@,
        SoundId::Custom(t) => t@,
        _ => seq![],
    }
}

// ---------------------------------------------------------------------------
// Listing
// ---------------------------------------------------------------------------

/// The entry a sound file `name` in `dir` gives.
pub open spec fn entry_of(dir: Seq<char>, name: Seq<char>, custom: bool) -> (SoundIdView, Seq<char>, Seq<char>) {
    (
        if custom {
            SoundIdView::Custom(stem_of(name))
        } else {
            SoundIdView::Bundled(stem_of(name))
        },
        stem_of(name),
        path_join(dir, name),
    )
}

/// A sound id with its text as a plain value.
pub enum SoundIdView {
    Bundled(Seq<char>),
    Custom(Seq<char>),
    SystemDefault,
    Silent,
}

/// The plain value of a sound id.
pub open spec fn id_view(id: SoundId) -> SoundIdView {
    match id {
        SoundId::Bundled(s) => SoundIdView::Bundled(s@),
        SoundId::Custom(t) => SoundIdView::Custom(t@),
        SoundId::SystemDefault => SoundIdView::SystemDefault,
        SoundId::Silent => SoundIdView::Silent,
    }
}

/// The plain value of an entry.
pub open spec fn entry_view(e: SoundEntry) -> (SoundIdView, Seq<char>, Seq<char>) {
    (id_view(e.id), e.label@, e.path@)
}

/// The entries of the sound files among `names`, in order.
pub open spec fn sound_entries(dir: Seq<char>, names: Seq<Seq<char>>, custom: bool) -> Seq<
    (SoundIdView, Seq<char>, Seq<char>),
>
    decreases names.len(),
{
    if names.len() == 0 {
        seq![]
    } else {
        let prev = sound_entries(dir, names.drop_last(), custom);
        if is_sound_file(names.last()) {
            prev.push(entry_of(dir, names.last(), custom))
        } else {
            prev
        }
    }
}

/// `x` inserted after every entry whose label is not greater than its own
/// (stable insertion by label).
pub open spec fn insert_by_label(
    s: Seq<(SoundIdView, Seq<char>, Seq<char>)>,
    x: (SoundIdView, Seq<char>, Seq<char>),
) -> Seq<(SoundIdView, Seq<char>, Seq<char>)>
    decreases s.len(),
{
    if s.len() == 0 {
        seq![x]
    } else if seq_lt(x.1, s[0].1) {
        seq![x] + s
    } else {
        seq![s[0]] + insert_by_label(s.drop_first(), x)
    }
}

/// `s` stably sorted by label.
pub open spec fn sort_by_label(s: Seq<(SoundIdView, Seq<char>, Seq<char>)>) -> Seq<
    (SoundIdView, Seq<char>, Seq<char>),
>
    decreases s.len(),
{
    if s.len() == 0 {
        seq![]
    } else {
        insert_by_label(sort_by_label(s.drop_last()), s.last())
    }
}

proof fn lemma_insert_at(
    s: Seq<(SoundIdView, Seq<char>, Seq<char>)>,
    x: (SoundIdView, Seq<char>, Seq<char>),
    k: int,
)
    requires
        0 <= k <= s.len(),
        forall|j: int| 0 <= j < k ==> !seq_lt(x.1, #[trigger] s[j].1),
        k < s.len() ==> seq_lt(x.1, s[k].1),
    ensures
        insert_by_label(s, x) == s.take(k) + seq![x] + s.skip(k),
    decreases s.len(),
{
    if s.len() == 0 {
        assert(s.take(k) + seq![x] + s.skip(k) =~= seq![x]);
    } else if k == 0 {
        assert(s.take(k) + seq![x] + s.skip(k) =~= seq![x] + s);
    } else {
        let t = s.drop_first();
        assert forall|j: int| 0 <= j < k - 1 implies !seq_lt(x.1, #[trigger] t[j].1) by {
            assert(t[j] == s[j + 1]);
        }
        if k - 1 < t.len() {
            assert(t[k - 1] == s[k]);
        }
        lemma_insert_at(t, x, k - 1);
        assert(s.take(k) + seq![x] + s.skip(k) =~= seq![s[0]] + (t.take(k - 1) + seq![x] + t.skip(
            k - 1,
        )));
    }
}

/// The sound entries of the files `names` of the directory `dir` (its
/// regular files, in the order the directory lists them): each file whose
/// lower-cased extension is allowed gives an entry labelled by its stem,
/// identified as a custom sound when `custom` and a bundled one otherwise;
/// the entries are stably sorted by label.
pub fn entries_from_names(dir: &str, names: &Vec<String>, custom: bool) -> (r: Vec<SoundEntry>)
    ensures
        r@.map_values(|e: SoundEntry| entry_view(e)) == sort_by_label(
            sound_entries(dir@, names@.map_values(|n: String| n@), custom),
        ),
{
    let ghost ns = names@.map_values(|n: String| n@);
    let mut out: Vec<SoundEntry> = Vec::new();
    let mut i: usize = 0;
    assert(ns.take(0) =~= Seq::<Seq<char>>::empty());
    while i < names.len()
        invariant
            i <= names.len(),
            ns == names@.map_values(|n: String| n@),
            out@.map_values(|e: SoundEntry| entry_view(e)) == sort_by_label(
                sound_entries(dir@, ns.take(i as int), custom),
            ),
        decreases names.len() - i,
    {
        let ghost t1 = ns.take(i + 1);
        assert(t1.drop_last() =~= ns.take(i as int));
        assert(t1.last() == names@[i as int]@);
        let name = names[i].as_str();
        let ext = lower_extension_exec(name);
        if is_allowed_extension(ext.as_str()) {
            let (_, stem) = split_name(name);
            let id = if custom {
                SoundId::Custom(stem.clone())
            } else {
                SoundId::Bundled(stem.clone())
            };
            let entry = SoundEntry { id, label: stem, path: join_path(dir, name) };
            let ghost x = entry_view(entry);
            assert(x == entry_of(dir@, names@[i as int]@, custom));
            let ghost before = out@.map_values(|e: SoundEntry| entry_view(e));
            let ghost prev = sound_entries(dir@, ns.take(i as int), custom);
            assert(is_sound_file(t1.last()));
            assert(sound_entries(dir@, t1, custom) == prev.push(x));
            assert(prev.push(x).drop_last() =~= prev);
            assert(sort_by_label(prev.push(x)) == insert_by_label(sort_by_label(prev), x));
            // find the stable insertion point
            let mut k: usize = 0;
            while k < out.len() && !seq_lt_exec(
                crate::text::chars_of(entry.label.as_str()).as_slice(),
                crate::text::chars_of(out[k].label.as_str()).as_slice(),
            )
                invariant
                    k <= out.len(),
                    before == out@.map_values(|e: SoundEntry| entry_view(e)),
                    x == entry_view(entry),
                    forall|j: int| 0 <= j < k ==> !seq_lt(x.1, #[trigger] before[j].1),
                decreases out.len() - k,
            {
                assert(before[k as int] == entry_view(out@[k as int]));
                k = k + 1;
            }
            proof {
                if k < out.len() {
                    assert(before[k as int] == entry_view(out@[k as int]));
                }
                lemma_insert_at(before, x, k as int);
            }
            out.insert(k, entry);
            assert(out@.map_values(|e: SoundEntry| entry_view(e)) =~= before.take(k as int) + seq![
                x,
            ] + before.skip(k as int));
        } else {
            assert(!is_sound_file(t1.last()));
            assert(sound_entries(dir@, t1, custom) == sound_entries(dir@, ns.take(i as int), custom));
        }
        i = i + 1;
    }
    assert(ns.take(names.len() as int) =~= ns);
    out
}

} // verus!
