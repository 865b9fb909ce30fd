//! Media file validation: existence, size ceiling and the fixed allow-list
//! of image formats, decided by the file's extension.

use vstd::prelude::*;
use crate::engine::XError;
use crate::numbers::dec_of;

verus! {

/// The size ceiling for an uploaded file, in bytes (5 MiB).
pub const MAX_MEDIA_SIZE: u64 = 5242880;

/// Position `k` carries the extension dot of a path: a `.` inside the final
/// path component, not its leading character, with no later dot.
pub open spec fn is_ext_split(s: Seq<char>, k: int) -> bool {
    &&& 0 < k < s.len()
    &&& s[k] == '.'
    &&& s[k - 1] != '/'
    &&& forall|j: int| k < j < s.len() ==> s[j] != '.' && s[j] != '/'
}

/// The extension of a path: the characters after the last dot of its final
/// component, when that dot neither leads the component nor is absent.
pub open spec fn spec_ext(s: Seq<char>) -> Option<Seq<char>> {
    if exists|k: int| is_ext_split(s, k) {
        Some(s.subrange((choose|k: int| is_ext_split(s, k)) + 1, s.len() as int))
    } else {
        None
    }
}

/// The extension, or nothing's worth of characters.
pub open spec fn ext_chars(s: Seq<char>) -> Seq<char> {
    match spec_ext(s) {
        Some(e) => e,
        None => Seq::empty(),
    }
}

/// ASCII lowercase of one character; others are unchanged.
pub open spec fn lower_char(c: char) -> char {
    if 65 <= c as u32 && c as u32 <= 90 {
        (((c as u32) + 32) as u8) as char
    } else {
        c
    }
}

/// ASCII lowercase of a text.
pub open spec fn lower_of(s: Seq<char>) -> Seq<char> {
    Seq::new(s.len(), |i: int| lower_char(s[i]))
}

/// The allowed image formats, by lowercased extension.
pub open spec fn mime_for(e: Seq<char>) -> Option<Seq<char>> {
    if e == "jpg"@ || e == "jpeg"@ {
        Some("image/jpeg"@)
    } else if e == "png"@ {
        Some("image/png"@)
    } else if e == "gif"@ {
        Some("image/gif"@)
    } else if e == "webp"@ {
        Some("image/webp"@)
    } else {
        None
    }
}

/// At most one position can carry the extension dot.
proof fn lemma_ext_split_unique(s: Seq<char>, k1: int, k2: int)
    requires
        is_ext_split(s, k1),
        is_ext_split(s, k2),
    ensures
        k1 == k2,
{
    if k1 < k2 {
        assert(s[k2] == '.');
    }
    if k2 < k1 {
        assert(s[k1] == '.');
    }
}

/// Extract a path's extension.
pub fn extension_of(path: &str) -> (r: Option<String>)
    ensures
        match r {
            Some(e) => spec_ext(path@) == Some(e@),
            None => spec_ext(path@) is None,
        },
{
    let cs = crate::strutil::chars_vec(path);
    let n = cs.len();
    let mut i: usize = n;
    while i > 0
        invariant
            cs@ == path@,
            n == path@.len(),
            i <= n,
            forall|j: int| i <= j < n ==> path@[j] != '.' && path@[j] != '/',
        decreases i,
    {
        let c = cs[i - 1];
        if c == '/' {
            proof {
                assert forall|k: int| !is_ext_split(path@, k) by {
                    if is_ext_split(path@, k) {
                        if k < i - 1 {
                            assert(path@[i - 1] == '/');
                        } else if k == i - 1 {
                            assert(path@[k] == '/');
                        } else {
                            assert(path@[k] != '.');
                        }
                    }
                }
            }
            return None;
        }
        if c == '.' {
            if i - 1 == 0 || cs[i - 2] == '/' {
                proof {
                    assert forall|k: int| !is_ext_split(path@, k) by {
                        if is_ext_split(path@, k) {
                            if k < i - 1 {
                                assert(path@[i - 1] == '.');
                            } else if k > i - 1 {
                                assert(path@[k] != '.');
                            }
                        }
                    }
                }
                return None;
            }
            let mut e = String::new();
            let mut j: usize = i;
            while j < n
                invariant
                    cs@ == path@,
                    n == path@.len(),
                    i <= j <= n,
                    e@ == path@.subrange(i as int, j as int),
                decreases n - j,
            {
                e.push(cs[j]);
                proof {
                    assert(path@.subrange(i as int, j + 1) =~= path@.subrange(
                        i as int,
                        j as int,
                    ).push(path@[j as int]));
                }
                j = j + 1;
            }
            proof {
                assert(is_ext_split(path@, i - 1));
                let k0 = choose|k: int| is_ext_split(path@, k);
                lemma_ext_split_unique(path@, k0, i - 1);
            }
            return Some(e);
        }
        i = i - 1;
    }
    proof {
        assert forall|k: int| !is_ext_split(path@, k) by {
            if is_ext_split(path@, k) {
                assert(path@[k] != '.');
            }
        }
    }
    None
}

/// ASCII-lowercase a text.
pub fn ascii_lower(s: &str) -> (r: String)
    ensures
        r@ == lower_of(s@),
{
    let cs = crate::strutil::chars_vec(s);
    let mut out = String::new();
    let mut i: usize = 0;
    while i < cs.len()
        invariant
            cs@ == s@,
            i <= s@.len(),
            out@ == lower_of(s@).take(i as int),
        decreases s@.len() - i,
    {
        let c = cs[i];
        let u = c as u32;
        if 65 <= u && u <= 90 {
            out.push(((u + 32) as u8) as char);
        } else {
            out.push(c);
        }
        proof {
            assert(out@ =~= lower_of(s@).take(i + 1));
        }
        i = i + 1;
    }
    proof {
        assert(lower_of(s@).take(s@.len() as int) =~= lower_of(s@));
    }
    out
}

/// Map a file path to its image format, by its lowercased extension; an
/// extension outside the allow-list is rejected, naming the allowed set.
pub fn mime_from_path(path: &str) -> (r: Result<String, XError>)
    ensures
        ({
            let el = lower_of(ext_chars(path@));
            match mime_for(el) {
                Some(m) => r matches Ok(s) && s@ == m,
                None => r matches Err(e) && e matches XError::Format { message } && message@
                    == "Unsupported image format '."@ + el + "'. Allowed: jpeg, png, gif, webp"@,
            }
        }),
{
    let el: String = match extension_of(path) {
        Some(e) => ascii_lower(e.as_str()),
        None => {
            proof {
                assert(lower_of(Seq::empty()) =~= Seq::<char>::empty());
            }
            String::new()
        },
    };
    if el.eq(&"jpg".to_owned()) || el.eq(&"jpeg".to_owned()) {
        return Ok("image/jpeg".to_owned());
    }
    if el.eq(&"png".to_owned()) {
        return Ok("image/png".to_owned());
    }
    if el.eq(&"gif".to_owned()) {
        return Ok("image/gif".to_owned());
    }
    if el.eq(&"webp".to_owned()) {
        return Ok("image/webp".to_owned());
    }
    let mut m = "Unsupported image format '.".to_owned();
    m.push_str(el.as_str());
    m.push_str("'. Allowed: jpeg, png, gif, webp");
    Err(XError::Format { message: m })
}

/// Validate a media file before any upload: it must exist, fit under the
/// size ceiling, and carry an allowed image extension — in that order,
/// stopping at the first failure. Returns the format on success.
pub fn media_precheck(path: &str, found: bool, size: u64) -> (r: Result<String, XError>)
    ensures
        ({
            let el = lower_of(ext_chars(path@));
            if !found {
                r matches Err(e) && e matches XError::Validation { message } && message@
                    == "File not found: "@ + path@
            } else if size > MAX_MEDIA_SIZE {
                r matches Err(e) && e matches XError::Validation { message } && message@
                    == "File too large: "@ + dec_of(size as nat) + " bytes (max 5MB)"@
            } else {
                match mime_for(el) {
                    Some(m) => r matches Ok(s) && s@ == m,
                    None => r matches Err(e) && e matches XError::Format { message } && message@
                        == "Unsupported image format '."@ + el
                        + "'. Allowed: jpeg, png, gif, webp"@,
                }
            }
        }),
{
    if !found {
        let mut m = "File not found: ".to_owned();
        m.push_str(path);
        return Err(XError::Validation { message: m });
    }
    if size > MAX_MEDIA_SIZE {
        let mut m = "File too large: ".to_owned();
        m.push_str(crate::numbers::u64_to_string(size).as_str());
        m.push_str(" bytes (max 5MB)");
        return Err(XError::Validation { message: m });
    }
    mime_from_path(path)
}

} // verus!
