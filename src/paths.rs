//! Where things live on disk, and the rule for profile identifiers, which
//! serve as file name stems.

use vstd::prelude::*;
use crate::model::{CodexConfigStatus, CodexError};

verus! {

/// The path that `std::path::Path::join` makes of a base and a part.
pub uninterp spec fn joined(base: Seq<char>, part: Seq<char>) -> Seq<char>;

/// Relies on `std::path::Path::join`: the base with the part appended as a
/// further component, by the platform's rules.
#[verifier::external_body]
fn path_join(base: &str, part: &str) -> (r: String)
    ensures
        r@ == joined(base@, part@),
{
    std::path::Path::new(base).join(part).to_string_lossy().into_owned()
}

/// A character that may stand in a profile id.
pub open spec fn is_id_char(c: char) -> bool {
    ('a' <= c && c <= 'z') || ('A' <= c && c <= 'Z') || ('0' <= c && c <= '9') || c == '-' || c == '_'
}

/// A profile id: non-empty, ASCII letters, digits, `-` and `_` only.
pub open spec fn valid_profile_id(s: Seq<char>) -> bool {
    s.len() > 0 && forall|i: int| 0 <= i < s.len() ==> is_id_char(#[trigger] s[i])
}

/// Checks a profile id; refuses it as an invalid argument when it breaks
/// the rule.
pub fn validate_profile_id(id: &str) -> (r: Result<(), CodexError>)
    ensures
        r is Ok <==> valid_profile_id(id@),
        r is Err ==> r->Err_0 is InvalidArgument && r->Err_0->InvalidArgument_0@ == "Invalid profile id"@,
{
    let n = id.unicode_len();
    let mut i: usize = 0;
    while i < n
        invariant
            n == id@.len(),
            i <= n,
            forall|j: int| 0 <= j < i ==> is_id_char(#[trigger] id@[j]),
        decreases n - i,
    {
        let c = id.get_char(i);
        if !(('a' <= c && c <= 'z') || ('A' <= c && c <= 'Z') || ('0' <= c && c <= '9') || c == '-' || c == '_') {
            return Err(CodexError::InvalidArgument(String::from_str("Invalid profile id")));
        }
        i = i + 1;
    }
    if n == 0 {
        return Err(CodexError::InvalidArgument(String::from_str("Invalid profile id")));
    }
    Ok(())
}

/// `<home>/.droidgear/codex`: the library's own directory.
pub fn get_droidgear_codex_dir(home: &str) -> (r: String)
    ensures
        r@ == joined(joined(home@, ".droidgear"@), "codex"@),
{
    let d = path_join(home, ".droidgear");
    path_join(d.as_str(), "codex")
}

/// `<home>/.droidgear/codex/profiles`: one file per profile.
pub fn get_profiles_dir(home: &str) -> (r: String)
    ensures
        r@ == joined(joined(joined(home@, ".droidgear"@), "codex"@), "profiles"@),
{
    let d = get_droidgear_codex_dir(home);
    path_join(d.as_str(), "profiles")
}

/// `<home>/.droidgear/codex/active-profile.txt`: the active profile marker.
pub fn get_active_profile_path(home: &str) -> (r: String)
    ensures
        r@ == joined(joined(joined(home@, ".droidgear"@), "codex"@), "active-profile.txt"@),
{
    let d = get_droidgear_codex_dir(home);
    path_join(d.as_str(), "active-profile.txt")
}

/// The secret document of the tool, in its configuration directory.
pub fn get_codex_auth_path(codex_home: &str) -> (r: String)
    ensures
        r@ == joined(codex_home@, "auth.json"@),
{
    path_join(codex_home, "auth.json")
}

/// The structured configuration of the tool, in its configuration directory.
pub fn get_codex_config_path(codex_home: &str) -> (r: String)
    ensures
        r@ == joined(codex_home@, "config.toml"@),
{
    path_join(codex_home, "config.toml")
}

/// The file of a profile: `<id>.json` in the profiles directory, for a
/// valid id only.
pub fn get_profile_path(profiles_dir: &str, id: &str) -> (r: Result<String, CodexError>)
    ensures
        r is Ok <==> valid_profile_id(id@),
        r is Ok ==> r->Ok_0@ == joined(profiles_dir@, id@ + ".json"@),
        r is Err ==> r->Err_0 is InvalidArgument,
{
    match validate_profile_id(id) {
        Err(e) => Err(e),
        Ok(()) => {
            let name = String::from_str(id).concat(".json");
            Ok(path_join(profiles_dir, name.as_str()))
        },
    }
}

/// The status report of the tool's two files, given whether each exists.
pub fn get_codex_config_status(codex_home: &str, auth_exists: bool, config_exists: bool) -> (r: CodexConfigStatus)
    ensures
        r.auth_exists == auth_exists,
        r.config_exists == config_exists,
        r.auth_path@ == joined(codex_home@, "auth.json"@),
        r.config_path@ == joined(codex_home@, "config.toml"@),
{
    CodexConfigStatus {
        auth_exists,
        config_exists,
        auth_path: get_codex_auth_path(codex_home),
        config_path: get_codex_config_path(codex_home),
    }
}

} // verus!
