//! The closed set of output formats and the selector that maps a
//! user-supplied token (case-insensitive, with synonyms) to one of them.

use vstd::prelude::*;

verus! {

/// The output formats the encoders support: raw dumps and per-language
/// constant declarations.
#[derive(Debug, Copy, Clone, PartialEq, Eq, Structural)]
pub enum Language {
    Binary,
    Hex,
    C,
    CDef,
    Rust,
    CSharp,
    Python,
    Javascript,
    Go,
    Java,
}

/// The code point of `c` with an ASCII upper-case letter folded to its
/// lower-case counterpart; every other character is left as it is.
pub open spec fn spec_lower_code(c: char) -> u32 {
    if 'A' as u32 <= c as u32 && c as u32 <= 'Z' as u32 {
        (c as u32 + 32) as u32
    } else {
        c as u32
    }
}

/// Character-wise equality of two texts up to ASCII case.
pub open spec fn spec_eq_ignore_case(a: Seq<char>, b: Seq<char>) -> bool {
    a.len() == b.len() && forall|i: int|
        0 <= i < a.len() ==> spec_lower_code(a[i]) == spec_lower_code(b[i])
}

/// The synonym table: which format a token selects, or `None` when the
/// token is unknown. Matching ignores ASCII case.
pub open spec fn spec_language_of(s: Seq<char>) -> Option<Language> {
    if spec_eq_ignore_case(s, "bin"@) || spec_eq_ignore_case(s, "binary"@) {
        Some(Language::Binary)
    } else if spec_eq_ignore_case(s, "hex"@) || spec_eq_ignore_case(s, "hexadecimal"@) {
        Some(Language::Hex)
    } else if spec_eq_ignore_case(s, "c"@) || spec_eq_ignore_case(s, "c++"@)
        || spec_eq_ignore_case(s, "cpp"@) {
        Some(Language::C)
    } else if spec_eq_ignore_case(s, "cdef"@) || spec_eq_ignore_case(s, "cdefine"@) {
        Some(Language::CDef)
    } else if spec_eq_ignore_case(s, "rs"@) || spec_eq_ignore_case(s, "rust"@) {
        Some(Language::Rust)
    } else if spec_eq_ignore_case(s, "c#"@) || spec_eq_ignore_case(s, "csharp"@) {
        Some(Language::CSharp)
    } else if spec_eq_ignore_case(s, "py"@) || spec_eq_ignore_case(s, "python"@)
        || spec_eq_ignore_case(s, "python3"@) {
        Some(Language::Python)
    } else if spec_eq_ignore_case(s, "js"@) || spec_eq_ignore_case(s, "javascript"@) {
        Some(Language::Javascript)
    } else if spec_eq_ignore_case(s, "go"@) || spec_eq_ignore_case(s, "golang"@) {
        Some(Language::Go)
    } else if spec_eq_ignore_case(s, "java"@) {
        Some(Language::Java)
    } else {
        None
    }
}

/// True exactly when `s` and `t` are the same text up to ASCII case.
fn eq_ignore_case(s: &str, t: &str) -> (r: bool)
    ensures
        r == spec_eq_ignore_case(s@, t@),
{
    let n = s.unicode_len();
    if n != t.unicode_len() {
        return false;
    }
    let mut i: usize = 0;
    while i < n
        invariant
            i <= n,
            n == s@.len(),
            n == t@.len(),
            forall|j: int| 0 <= j < i ==> spec_lower_code(s@[j]) == spec_lower_code(t@[j]),
        decreases n - i,
    {
        let a = s.get_char(i) as u32;
        let b = t.get_char(i) as u32;
        let la: u32 = if 65 <= a && a <= 90 { a + 32 } else { a };
        let lb: u32 = if 65 <= b && b <= 90 { b + 32 } else { b };
        if la != lb {
            proof {
                assert(spec_lower_code(s@[i as int]) != spec_lower_code(t@[i as int]));
            }
            return false;
        }
        i += 1;
    }
    true
}

impl Language {
    /// Select the format that `s` names, or report the unknown token.
    /// Matching is case-insensitive and accepts the synonyms of the table
    /// in `spec_language_of`.
    pub fn from_str(s: &str) -> (r: Result<Language, String>)
        ensures
            match r {
                Ok(l) => spec_language_of(s@) == Some(l),
                Err(e) => {
                    &&& spec_language_of(s@) is None
                    &&& e@ == "Invalid language: "@ + s@
                },
            },
    {
        if eq_ignore_case(s, "bin") || eq_ignore_case(s, "binary") {
            Ok(Language::Binary)
        } else if eq_ignore_case(s, "hex") || eq_ignore_case(s, "hexadecimal") {
            Ok(Language::Hex)
        } else if eq_ignore_case(s, "c") || eq_ignore_case(s, "c++") || eq_ignore_case(s, "cpp") {
            Ok(Language::C)
        } else if eq_ignore_case(s, "cdef") || eq_ignore_case(s, "cdefine") {
            Ok(Language::CDef)
        } else if eq_ignore_case(s, "rs") || eq_ignore_case(s, "rust") {
            Ok(Language::Rust)
        } else if eq_ignore_case(s, "c#") || eq_ignore_case(s, "csharp") {
            Ok(Language::CSharp)
        } else if eq_ignore_case(s, "py") || eq_ignore_case(s, "python") || eq_ignore_case(
            s,
            "python3",
        ) {
            Ok(Language::Python)
        } else if eq_ignore_case(s, "js") || eq_ignore_case(s, "javascript") {
            Ok(Language::Javascript)
        } else if eq_ignore_case(s, "go") || eq_ignore_case(s, "golang") {
            Ok(Language::Go)
        } else if eq_ignore_case(s, "java") {
            Ok(Language::Java)
        } else {
            let mut msg = String::from_str("Invalid language: ");
            msg.append(s);
            Err(msg)
        }
    }
}

} // verus!
