//! Credentials: four opaque secret strings, validated once, never rendered.

use vstd::prelude::*;

verus! {

/// A character with the Unicode `White_Space` property; a text consisting
/// only of these is treated as empty.
pub open spec fn is_space(c: char) -> bool {
    c == ' ' || c == '\t' || c == '\n' || c == '\u{b}' || c == '\u{c}' || c == '\r' || c
        == '\u{85}' || c == '\u{a0}' || c == '\u{1680}' || (0x2000 <= c as u32 && c as u32
        <= 0x200a) || c == '\u{2028}' || c == '\u{2029}' || c == '\u{202f}' || c == '\u{205f}'
        || c == '\u{3000}'
}

/// A text that is empty or all whitespace.
pub open spec fn spec_blank(s: Seq<char>) -> bool {
    forall|i: int| 0 <= i < s.len() ==> is_space(#[trigger] s[i])
}

/// Whether one character has the Unicode `White_Space` property.
pub fn is_space_exec(c: char) -> (r: bool)
    ensures
        r == is_space(c),
{
    c == ' ' || c == '\t' || c == '\n' || c == '\u{b}' || c == '\u{c}' || c == '\r' || c
        == '\u{85}' || c == '\u{a0}' || c == '\u{1680}' || (0x2000 <= c as u32 && c as u32
        <= 0x200a) || c == '\u{2028}' || c == '\u{2029}' || c == '\u{202f}' || c == '\u{205f}'
        || c == '\u{3000}'
}

/// Whether the text trims to nothing.
pub fn is_blank(s: &str) -> (r: bool)
    ensures
        r == spec_blank(s@),
{
    let cs = crate::strutil::chars_vec(s);
    let mut i: usize = 0;
    while i < cs.len()
        invariant
            cs@ == s@,
            i <= s@.len(),
            forall|j: int| 0 <= j < i ==> is_space(#[trigger] s@[j]),
        decreases s@.len() - i,
    {
        if !is_space_exec(cs[i]) {
            return false;
        }
        i = i + 1;
    }
    true
}

/// Four pre-provisioned credential strings. Immutable for the process
/// lifetime; no rendering of this type ever includes a field's value.
#[derive(Clone)]
pub struct Config {
    /// Consumer key.
    pub api_key: String,
    /// Consumer secret.
    pub api_key_secret: String,
    /// Access token.
    pub access_token: String,
    /// Access token secret.
    pub access_token_secret: String,
}

impl Config {
    /// Check that every credential field is non-empty after trimming;
    /// the first blank field, in declaration order, names the error.
    pub fn validate(&self) -> (r: Result<(), String>)
        ensures
            ({
                if spec_blank(self.api_key@) {
                    r matches Err(m) && m@ == "'api_key' is empty in config"@
                } else if spec_blank(self.api_key_secret@) {
                    r matches Err(m) && m@ == "'api_key_secret' is empty in config"@
                } else if spec_blank(self.access_token@) {
                    r matches Err(m) && m@ == "'access_token' is empty in config"@
                } else if spec_blank(self.access_token_secret@) {
                    r matches Err(m) && m@ == "'access_token_secret' is empty in config"@
                } else {
                    r is Ok
                }
            }),
    {
        if is_blank(self.api_key.as_str()) {
            return Err("'api_key' is empty in config".to_owned());
        }
        if is_blank(self.api_key_secret.as_str()) {
            return Err("'api_key_secret' is empty in config".to_owned());
        }
        if is_blank(self.access_token.as_str()) {
            return Err("'access_token' is empty in config".to_owned());
        }
        if is_blank(self.access_token_secret.as_str()) {
            return Err("'access_token_secret' is empty in config".to_owned());
        }
        Ok(())
    }

    /// A rendering for diagnostics whose contract shows that no secret can
    /// appear in it: the result is one fixed text, whatever the fields hold.
    pub fn redacted(&self) -> (r: String)
        ensures
            r@ == "Config { api_key: ***, api_key_secret: ***, access_token: ***, access_token_secret: *** }"@,
    {
        "Config { api_key: ***, api_key_secret: ***, access_token: ***, access_token_secret: *** }".to_owned()
    }
}

} // verus!
