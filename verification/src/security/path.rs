//! Path checks: the containment test made on resolved paths, the shortened form of paths shown
//! in messages, and the file size limit.
use vstd::prelude::*;
use crate::error::ConversionError;
use crate::text::{concat, concat3, join, join_seq, owned, str_eq, views};

verus! {

/// The form in which a path is shown to the user: as it is when it has at most three
/// components, else `.../` followed by its last three components joined by the separator.
pub open spec fn display_form(display: Seq<char>, components: Seq<Seq<char>>, sep: Seq<char>) -> Seq<
    char,
> {
    if components.len() <= 3 {
        display
    } else {
        ".../"@ + join_seq(components.subrange(components.len() - 3, components.len() as int), sep)
    }
}

/// Sanitize a path for user-facing error messages.
///
/// `display` is the path as it is displayed, `components` its components (as
/// `Path::components` yields them) and `separator` the platform's path separator. A path of at
/// most three components is shown as it is; a longer one by its last three components only, so
/// that user names and other parts of the directory tree do not appear in messages.
pub fn sanitize_path_for_display(display: &str, components: &Vec<String>, separator: &str) -> (r:
    String)
    ensures
        r@ == display_form(display@, views(components@), separator@),
{
    let n = components.len();
    if n <= 3 {
        return owned(display);
    }
    let mut last: Vec<String> = Vec::new();
    let mut i: usize = n - 3;
    while i < n
        invariant
            n == components@.len(),
            n > 3,
            n - 3 <= i <= n,
            last@.len() == i - (n - 3),
            forall|k: int| 0 <= k < last@.len() ==> #[trigger] last@[k] == components@[n - 3 + k],
        decreases n - i,
    {
        last.push(components[i].clone());
        i = i + 1;
    }
    let joined = join(&last, separator);
    proof {
        assert(views(last@) =~= views(components@).subrange(n - 3, n as int));
        reveal_strlit(".../");
    }
    concat(".../", joined.as_str())
}

/// `base` is a leading run of the components of `path` (what `Path::starts_with` tests).
pub open spec fn starts_with_components(path: Seq<Seq<char>>, base: Seq<Seq<char>>) -> bool {
    base.len() <= path.len() && path.subrange(0, base.len() as int) == base
}

/// Whether the resolved path, given by its components, lies within the resolved base directory,
/// given by its components.
pub fn is_within_base(path: &Vec<String>, base: &Vec<String>) -> (r: bool)
    ensures
        r == starts_with_components(views(path@), views(base@)),
{
    let n = base.len();
    if n > path.len() {
        return false;
    }
    let ghost pv = views(path@);
    let ghost bv = views(base@);
    let mut i: usize = 0;
    while i < n
        invariant
            n == base@.len(),
            n <= path@.len(),
            pv == views(path@),
            bv == views(base@),
            i <= n,
            forall|k: int| 0 <= k < i ==> pv[k] == bv[k],
        decreases n - i,
    {
        if !str_eq(path[i].as_str(), base[i].as_str()) {
            assert(pv.subrange(0, n as int)[i as int] != bv[i as int]);
            return false;
        }
        i = i + 1;
    }
    assert(pv.subrange(0, n as int) =~= bv);
    true
}

/// Refuses a resolved path that escapes the resolved base directory.
pub fn check_within_base(path: &Vec<String>, base: &Vec<String>) -> (r: Result<(), ConversionError>)
    ensures
        r is Ok <==> starts_with_components(views(path@), views(base@)),
        r matches Err(e) ==> e matches ConversionError::Generic(m) && m@
            == "Security: Path escapes allowed directory"@,
{
    if is_within_base(path, base) {
        Ok(())
    } else {
        Err(ConversionError::Generic(owned("Security: Path escapes allowed directory")))
    }
}

/// A directory lies within itself.
pub proof fn lemma_base_within_itself(path: Seq<Seq<char>>)
    ensures
        starts_with_components(path, path),
{
    assert(path.subrange(0, path.len() as int) =~= path);
}

/// A path within a directory that lies within another directory lies within that other one.
pub proof fn lemma_within_is_transitive(path: Seq<Seq<char>>, dir: Seq<Seq<char>>, top: Seq<Seq<char>>)
    requires
        starts_with_components(path, dir),
        starts_with_components(dir, top),
    ensures
        starts_with_components(path, top),
{
    assert(path.subrange(0, top.len() as int) =~= dir.subrange(0, top.len() as int));
}

/// Appending components to a path within a directory keeps it within that directory.
pub proof fn lemma_extension_stays_within(path: Seq<Seq<char>>, base: Seq<Seq<char>>, more: Seq<
    Seq<char>,
>)
    requires
        starts_with_components(path, base),
    ensures
        starts_with_components(path + more, base),
{
    assert((path + more).subrange(0, base.len() as int) =~= path.subrange(0, base.len() as int));
}

/// The decimal digit for `d` (0 to 9).
pub open spec fn digit_char(d: nat) -> char {
    seq!['0', '1', '2', '3', '4', '5', '6', '7', '8', '9'][d as int]
}

/// The decimal digits of a number, most significant first, without leading zeros.
pub open spec fn digits_of(n: nat) -> Seq<char>
    decreases n,
{
    if n < 10 {
        seq![digit_char(n)]
    } else {
        digits_of(n / 10) + seq![digit_char(n % 10)]
    }
}

/// Decimal digits of an unsigned number, as `u64::to_string` writes them.
pub open spec fn decimal_text(n: u64) -> Seq<char> {
    digits_of(n as nat)
}

/// Calls `u64::to_string` (its `Display` implementation), which writes the number in decimal
/// digits, as `decimal_text` states.
#[verifier::external_body]
pub(crate) fn decimal(n: u64) -> (r: String)
    ensures
        r@ == decimal_text(n),
{
    n.to_string()
}

/// The message for a file above the size limit.
pub open spec fn too_large_message(display: Seq<char>, max_bytes: u64) -> Seq<char> {
    "File '"@ + display + "' exceeds maximum size ("@ + decimal_text(max_bytes / 1048576u64)
        + " MB). Use --max-file-size to increase."@
}

/// Validates that a file's size is within a specified limit: `size` bytes are refused when
/// above `max_bytes`. `display` is the path as shown in messages.
pub fn check_file_size(size: u64, max_bytes: u64, display: &str) -> (r: Result<(), ConversionError>)
    ensures
        r is Ok <==> size <= max_bytes,
        r matches Err(e) ==> e matches ConversionError::Generic(m) && m@ == too_large_message(
            display@,
            max_bytes,
        ),
{
    if size > max_bytes {
        let mb = decimal(max_bytes / 1048576u64);
        let head = concat3("File '", display, "' exceeds maximum size (");
        let tail = concat3(head.as_str(), mb.as_str(), " MB). Use --max-file-size to increase.");
        Err(ConversionError::Generic(tail))
    } else {
        Ok(())
    }
}

} // verus!
