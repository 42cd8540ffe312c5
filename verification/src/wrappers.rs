use vstd::prelude::*;
use vstd::string::StringSliceAdditionalSpecFns;

verus! {

/// Appends one character to a string (`String::push`). Trusted: the string's
/// characters after the call are its characters before it followed by `c`.
#[verifier::external_body]
pub(crate) fn push_char(s: &mut String, c: char)
    ensures
        final(s)@ == old(s)@.push(c),
{
    s.push(c)
}

} // verus!

verus! {

/// `std::time::Instant`, carried through the scheduler as an opaque value.
#[verifier::external_type_specification]
#[verifier::external_body]
pub struct ExInstant(std::time::Instant);

/// Nanoseconds from `earlier` to `now` (`Instant::duration_since`, read with
/// `Duration::as_nanos`); zero when `earlier` is later. Nothing is claimed of
/// the value: an `Instant` is opaque here.
#[verifier::external_body]
pub(crate) fn nanos_between(now: std::time::Instant, earlier: std::time::Instant) -> u128 {
    now.duration_since(earlier).as_nanos()
}

} // verus!

verus! {

/// Whole seconds since the Unix epoch on the system clock
/// (`SystemTime::now().duration_since(UNIX_EPOCH)`, read with `as_secs`);
/// `None` when the clock is before the epoch. Nothing is claimed of the value:
/// it is the time.
#[verifier::external_body]
pub(crate) fn secs_since_epoch() -> Option<u64> {
    match std::time::SystemTime::now().duration_since(std::time::UNIX_EPOCH) {
        Ok(duration) => Some(duration.as_secs()),
        Err(_) => None,
    }
}

/// `std::str::from_utf8`: the string whose UTF-8 encoding is `bytes`, or
/// `None` when `bytes` is not valid UTF-8.
#[verifier::external_body]
pub(crate) fn utf8_str(bytes: &[u8]) -> (r: Option<&str>)
    ensures
        r is Some <==> vstd::utf8::valid_utf8(bytes@),
        r matches Some(s) ==> s.spec_bytes() == bytes@,
{
    match std::str::from_utf8(bytes) {
        Ok(s) => Some(s),
        Err(_) => None,
    }
}

/// The extension of a path (`Path::extension`, read as UTF-8 with
/// `OsStr::to_str`), as std computes it from the path's last component.
pub uninterp spec fn path_extension_of(path: Seq<char>) -> Option<Seq<char>>;

/// `Path::new(path).extension()` as a string. Trusted: the result is
/// `path_extension_of` the path; how std finds the last component and its
/// extension is not restated here.
#[verifier::external_body]
pub(crate) fn path_extension(path: &str) -> (r: Option<String>)
    ensures
        match r {
            Some(e) => path_extension_of(path@) == Some(e@),
            None => path_extension_of(path@) is None,
        },
{
    match std::path::Path::new(path).extension() {
        Some(extension) => match extension.to_str() {
            Some(text) => Some(text.to_owned()),
            None => None,
        },
        None => None,
    }
}

} // verus!

verus! {

/// Whether two paths are equal as `std::path::Path` compares them.
pub uninterp spec fn paths_equal(a: Seq<char>, b: Seq<char>) -> bool;

/// `Path::new(a) == Path::new(b)`: paths compare by their components, so
/// equal strings are equal paths (and, e.g., a trailing `/` is not a
/// difference). Trusted: the result is `paths_equal` of the two strings, and
/// identical strings compare equal; the component rules are not restated.
#[verifier::external_body]
pub(crate) fn same_path(a: &str, b: &str) -> (r: bool)
    ensures
        r == paths_equal(a@, b@),
        a@ == b@ ==> r,
{
    std::path::Path::new(a) == std::path::Path::new(b)
}

} // verus!

verus! {

/// `serde_json::Value`: the result of a script evaluation or a status
/// report, carried into a response as an opaque value.
#[verifier::external_type_specification]
#[verifier::external_body]
pub struct ExJsonValue(serde_json::Value);

/// What `serde_json::to_string` gives for a string: its JSON text (or the
/// text of the error).
pub uninterp spec fn json_string_text(s: Seq<char>) -> Result<Seq<char>, Seq<char>>;

/// `serde_json::to_string` of a string. Trusted: the result, or the error's
/// `Display` text, is `json_string_text` of the string; the quoting and
/// escaping rules are not restated.
#[verifier::external_body]
pub(crate) fn json_string(s: &String) -> (r: Result<String, String>)
    ensures
        match r {
            Ok(t) => json_string_text(s@) == Ok::<Seq<char>, Seq<char>>(t@),
            Err(e) => json_string_text(s@) == Err::<Seq<char>, Seq<char>>(e@),
        },
{
    match serde_json::to_string(s) {
        Ok(text) => Ok(text),
        Err(error) => Err(error.to_string()),
    }
}

} // verus!

verus! {

/// Whether `std::path::Path` reads a path as relative.
pub uninterp spec fn path_is_relative(path: Seq<char>) -> bool;

/// `Path::is_relative`. Trusted: the result is `path_is_relative` of the
/// path (on Unix: it does not begin with `/`).
#[verifier::external_body]
pub(crate) fn is_relative_path(path: &str) -> (r: bool)
    ensures
        r == path_is_relative(path@),
{
    std::path::Path::new(path).is_relative()
}

/// The directory that `Path::parent` gives for a path, if any.
pub uninterp spec fn path_parent(path: Seq<char>) -> Option<Seq<char>>;

/// `Path::parent`, as a string. Trusted: the result is `path_parent` of the
/// path.
#[verifier::external_body]
pub(crate) fn parent_path(path: &str) -> (r: Option<String>)
    ensures
        match r {
            Some(p) => path_parent(path@) == Some(p@),
            None => path_parent(path@) is None,
        },
{
    std::path::Path::new(path).parent().map(|parent| parent.to_string_lossy().into_owned())
}

/// The path that `Path::join` gives for `base` and `path`.
pub uninterp spec fn path_joined(base: Seq<char>, path: Seq<char>) -> Seq<char>;

/// `Path::join`, as a string. Trusted: the result is `path_joined` of the
/// two paths.
#[verifier::external_body]
pub(crate) fn join_path(base: &str, path: &str) -> (r: String)
    ensures
        r@ == path_joined(base@, path@),
{
    std::path::Path::new(base).join(path).to_string_lossy().into_owned()
}

/// The `file:` URL that `url::Url::from_file_path` gives for a path, as
/// text, or `None` where it refuses the path.
pub uninterp spec fn file_url_of(path: Seq<char>) -> Option<Seq<char>>;

/// `Url::from_file_path`, serialized. Trusted: the result is `file_url_of`
/// the path; how paths are percent-encoded is not restated.
#[verifier::external_body]
pub(crate) fn file_url(path: &str) -> (r: Option<String>)
    ensures
        match r {
            Some(u) => file_url_of(path@) == Some(u@),
            None => file_url_of(path@) is None,
        },
{
    match url::Url::from_file_path(path) {
        Ok(url) => Some(url.to_string()),
        Err(()) => None,
    }
}

} // verus!
