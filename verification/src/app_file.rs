//! Which emulator loads an app file.
//!
//! A `.zip` file is an archive of a KTF, LGT or SKT app; a `.jar` file is a
//! KTF, LGT or SKT jar, or else a plain J2ME midlet. The first platform, in
//! that order, that recognises the file loads it. Any other file is refused.

use vstd::prelude::*;
use crate::text::{chars_of, string_of_prefix};

verus! {

/// Whether `s` ends with `suffix`.
pub open spec fn has_suffix(s: Seq<char>, suffix: Seq<char>) -> bool {
    suffix.len() <= s.len() && s.skip(s.len() - suffix.len()) == suffix
}

/// `s` with every trailing repetition of a non-empty `suffix` removed (what
/// `str::trim_end_matches` does with a string pattern).
pub open spec fn trim_suffix_all(s: Seq<char>, suffix: Seq<char>) -> Seq<char>
    decreases s.len(),
{
    if suffix.len() > 0 && has_suffix(s, suffix) {
        trim_suffix_all(s.take(s.len() - suffix.len()), suffix)
    } else {
        s
    }
}

/// `s` repeated `n` times.
pub open spec fn repeated(s: Seq<char>, n: nat) -> Seq<char>
    decreases n,
{
    if n == 0 {
        Seq::empty()
    } else {
        repeated(s, (n - 1) as nat) + s
    }
}

/// The kind of an app file, by its name.
#[derive(Debug, PartialEq, Eq)]
pub enum AppFile {
    /// A zip archive of a carrier app.
    Archive,
    /// A jar; `name` is the file name without its `.jar` ending, used as the
    /// app's name and id.
    Jar { name: String },
}

/// The emulators an app can run on.
#[derive(Clone, Copy, Debug, PartialEq, Eq, Structural)]
pub enum EmulatorKind {
    Ktf,
    Lgt,
    Skt,
    J2me,
}

/// Why an app file cannot be loaded.
#[derive(Debug, PartialEq, Eq)]
pub enum LoadError {
    /// An archive that no carrier platform recognises.
    UnknownArchiveFormat,
    /// A file that is neither a `.zip` nor a `.jar`; holds the file name.
    UnsupportedFileType(String),
}

/// The message a load error is reported with.
pub open spec fn load_error_message(e: LoadError) -> Seq<char> {
    match e {
        LoadError::UnknownArchiveFormat => "Unknown archive format"@,
        LoadError::UnsupportedFileType(name) => "Unsupported file type: "@ + name@
            + " (expected .zip or .jar)"@,
    }
}

impl LoadError {
    /// The message this error is reported with.
    pub fn message(&self) -> (m: String)
        ensures
            m@ == load_error_message(*self),
    {
        match self {
            LoadError::UnknownArchiveFormat => String::from_str("Unknown archive format"),
            LoadError::UnsupportedFileType(name) => {
                let mut m = String::from_str("Unsupported file type: ");
                m.append(name.as_str());
                m.append(" (expected .zip or .jar)");
                m
            },
        }
    }
}

/// What the kind of a file named `filename` is, or the error it is refused
/// with.
pub open spec fn app_file_kind(filename: Seq<char>) -> Option<Option<Seq<char>>> {
    if has_suffix(filename, ".zip"@) {
        Some(None)
    } else if has_suffix(filename, ".jar"@) {
        Some(Some(trim_suffix_all(filename, ".jar"@)))
    } else {
        None
    }
}

fn ends_with_chars(s: &Vec<char>, end: usize, suffix: &Vec<char>) -> (res: bool)
    requires
        end <= s.len(),
    ensures
        res == has_suffix(s@.take(end as int), suffix@),
{
    if suffix.len() > end {
        return false;
    }
    let start = end - suffix.len();
    for i in 0..suffix.len()
        invariant
            start + suffix.len() == end,
            end <= s.len(),
            forall|j: int| 0 <= j < i ==> s@[start + j] == suffix@[j],
    {
        if s[start + i] != suffix[i] {
            assert(s@.take(end as int).skip(start as int)[i as int] != suffix@[i as int]);
            return false;
        }
    }
    assert(s@.take(end as int).skip(start as int) =~= suffix@);
    true
}

/// Sorts an app file by its name: `.zip` first, then `.jar` (whose name,
/// with every trailing `.jar` removed, names the app); anything else is
/// refused with `UnsupportedFileType`.
pub fn classify_app_file(filename: &str) -> (res: Result<AppFile, LoadError>)
    ensures
        match res {
            Ok(AppFile::Archive) => app_file_kind(filename@) == Some(None::<Seq<char>>),
            Ok(AppFile::Jar { name }) => app_file_kind(filename@) == Some(Some(name@)),
            Err(LoadError::UnsupportedFileType(name)) => app_file_kind(filename@) is None && name@
                == filename@,
            Err(LoadError::UnknownArchiveFormat) => false,
        },
{
    let chars = chars_of(filename);
    let zip = chars_of(".zip");
    let jar = chars_of(".jar");
    assert(chars@.take(chars.len() as int) =~= chars@);
    if ends_with_chars(&chars, chars.len(), &zip) {
        return Ok(AppFile::Archive);
    }
    if !ends_with_chars(&chars, chars.len(), &jar) {
        return Err(LoadError::UnsupportedFileType(String::from_str(filename)));
    }
    let mut end = chars.len();
    while ends_with_chars(&chars, end, &jar)
        invariant
            end <= chars.len(),
            jar@ == ".jar"@,
            trim_suffix_all(chars@.take(end as int), ".jar"@) == trim_suffix_all(chars@, ".jar"@),
        decreases end,
    {
        proof {
            reveal_strlit(".jar");
            assert(chars@.take(end as int).take(end - 4) =~= chars@.take(end - 4));
        }
        end = end - jar.len();
    }
    proof {
        reveal_strlit(".jar");
    }
    let name = string_of_prefix(&chars, end);
    Ok(AppFile::Jar { name })
}

/// The platform that loads an archive: the first of KTF, LGT and SKT that
/// recognises it (each flag says whether that platform does).
pub fn archive_emulator(ktf: bool, lgt: bool, skt: bool) -> (res: Result<EmulatorKind, LoadError>)
    ensures
        match res {
            Ok(kind) => (kind == EmulatorKind::Ktf && ktf) || (kind == EmulatorKind::Lgt && !ktf
                && lgt) || (kind == EmulatorKind::Skt && !ktf && !lgt && skt),
            Err(e) => e is UnknownArchiveFormat && !ktf && !lgt && !skt,
        },
{
    if ktf {
        Ok(EmulatorKind::Ktf)
    } else if lgt {
        Ok(EmulatorKind::Lgt)
    } else if skt {
        Ok(EmulatorKind::Skt)
    } else {
        Err(LoadError::UnknownArchiveFormat)
    }
}

/// The platform that loads a jar: the first of KTF, LGT and SKT that
/// recognises it, else plain J2ME.
pub fn jar_emulator(ktf: bool, lgt: bool, skt: bool) -> (kind: EmulatorKind)
    ensures
        kind == if ktf {
            EmulatorKind::Ktf
        } else if lgt {
            EmulatorKind::Lgt
        } else if skt {
            EmulatorKind::Skt
        } else {
            EmulatorKind::J2me
        },
{
    if ktf {
        EmulatorKind::Ktf
    } else if lgt {
        EmulatorKind::Lgt
    } else if skt {
        EmulatorKind::Skt
    } else {
        EmulatorKind::J2me
    }
}

/// Trimming a non-empty suffix leaves a name that no longer ends with it,
/// and the original is that name followed by some number of copies of the
/// suffix.
pub proof fn lemma_trim_suffix_all(s: Seq<char>, suffix: Seq<char>)
    requires
        suffix.len() > 0,
    ensures
        !has_suffix(trim_suffix_all(s, suffix), suffix),
        exists|n: nat| trim_suffix_all(s, suffix) + #[trigger] repeated(suffix, n) == s,
    decreases s.len(),
{
    if has_suffix(s, suffix) {
        let shorter = s.take(s.len() - suffix.len());
        lemma_trim_suffix_all(shorter, suffix);
        let t = trim_suffix_all(shorter, suffix);
        let n = choose|n: nat| t + #[trigger] repeated(suffix, n) == shorter;
        assert(repeated(suffix, n + 1) == repeated(suffix, n) + suffix);
        assert(shorter + suffix =~= s);
        assert(t + repeated(suffix, n + 1) =~= s);
    } else {
        assert(s + repeated(suffix, 0) =~= s);
    }
}

/// The app name of a jar is its file name without the `.jar` ending: it
/// does not end in `.jar`, and adding back one or more `.jar` gives the file
/// name.
pub proof fn lemma_jar_name(filename: Seq<char>)
    requires
        app_file_kind(filename) matches Some(Some(_)),
    ensures
        app_file_kind(filename) matches Some(Some(name)) && !has_suffix(name, ".jar"@) && exists|n: nat|
            n >= 1 && name + #[trigger] repeated(".jar"@, n) == filename,
{
    reveal_strlit(".jar");
    let name = trim_suffix_all(filename, ".jar"@);
    lemma_trim_suffix_all(filename, ".jar"@);
    let n = choose|n: nat| name + #[trigger] repeated(".jar"@, n) == filename;
    if n == 0 {
        assert(name + repeated(".jar"@, 0) =~= name);
    }
}

} // verus!
