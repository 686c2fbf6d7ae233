//! Naming of this application's environment variables, and the parsing of
//! the environment-type switch.

use vstd::prelude::*;

use crate::groups::{chars_of, string_of};

verus! {

/// What `str::to_uppercase` returns for a given text.
pub uninterp spec fn upper_of(s: Seq<char>) -> Seq<char>;

/// Upper-case a string.
///
/// Relies on `str::to_uppercase`: the result depends on the characters alone.
#[verifier::external_body]
fn to_upper(s: &str) -> (r: String)
    ensures
        r@ == upper_of(s@),
{
    s.to_uppercase()
}

/// The full name of one of this application's environment variables: the
/// application prefix, a separator, and the upper-cased short name.
pub fn env_name(name: &str) -> (r: String)
    ensures
        r@ == "SHAREOXIDE_"@ + upper_of(name@),
{
    let mut out = crate::jar::string_copy("SHAREOXIDE_");
    let upper = to_upper(name);
    out.append(upper.as_str());
    out
}

/// Which kind of environment the process runs in.
#[derive(PartialEq, Eq, Structural, Clone, Copy, Debug)]
pub enum EnvironmentType {
    Development,
    Production,
}

/// A character with any ASCII upper-case letter lowered.
pub open spec fn ascii_lower_char(c: char) -> char {
    if 65 <= c as u32 && c as u32 <= 90 {
        (((c as u32) + 32) as u8) as char
    } else {
        c
    }
}

/// A text with every ASCII upper-case letter lowered.
pub open spec fn ascii_lower(s: Seq<char>) -> Seq<char> {
    s.map_values(|c: char| ascii_lower_char(c))
}

/// Lower-case the ASCII letters of a string.
fn ascii_lower_exec(s: &str) -> (r: String)
    ensures
        r@ == ascii_lower(s@),
{
    let chars = chars_of(s);
    let mut out: Vec<char> = Vec::new();
    let mut i: usize = 0;
    let n = chars.len();
    while i < n
        invariant
            n == chars@.len(),
            chars@ == s@,
            i <= n,
            out@ == ascii_lower(s@).take(i as int),
        decreases n - i,
    {
        let c = chars[i];
        let u = c as u32;
        if 65 <= u && u <= 90 {
            out.push(((u + 32) as u8) as char);
        } else {
            out.push(c);
        }
        proof {
            assert(out@ =~= ascii_lower(s@).take(i + 1 as int));
        }
        i += 1;
    }
    proof {
        assert(ascii_lower(s@).take(n as int) =~= ascii_lower(s@));
    }
    string_of(out)
}

/// The environment types by their accepted names, compared without regard
/// to ASCII case: `development`, `dev` and `d`; `production`, `prod` and `p`.
pub open spec fn environment_type_of(s: Seq<char>) -> Option<EnvironmentType> {
    let low = ascii_lower(s);
    if low == "development"@ || low == "dev"@ || low == "d"@ {
        Some(EnvironmentType::Development)
    } else if low == "production"@ || low == "prod"@ || low == "p"@ {
        Some(EnvironmentType::Production)
    } else {
        None
    }
}

/// Parse the environment-type switch.
pub fn parse_environment_type(s: &str) -> (r: Option<EnvironmentType>)
    ensures
        r == environment_type_of(s@),
{
    let low = ascii_lower_exec(s);
    if crate::jar::string_eq_str(&low, "development") || crate::jar::string_eq_str(&low, "dev")
        || crate::jar::string_eq_str(&low, "d") {
        Some(EnvironmentType::Development)
    } else if crate::jar::string_eq_str(&low, "production") || crate::jar::string_eq_str(
        &low,
        "prod",
    ) || crate::jar::string_eq_str(&low, "p") {
        Some(EnvironmentType::Production)
    } else {
        None
    }
}

} // verus!
