//! The nickname handshake: what a client's answer to the prompt is worth.

use vstd::prelude::*;
use crate::text::{char_is_alnum, is_alnum, lowered, to_lower, trim, trimmed};

verus! {

/// Why an answer to the nickname prompt was refused.
#[derive(Debug, Clone, Copy, PartialEq, Eq, Structural)]
pub enum NickError {
    /// Nothing but whitespace.
    Empty,
    /// A character other than an ASCII letter or digit.
    NotAlphanumeric,
}

/// The nickname an answer stands for: trimmed, then lowercased.
pub open spec fn nick_of(line: Seq<char>) -> Seq<char> {
    lowered(trimmed(line))
}

/// A nickname is non-empty and made of ASCII letters and digits only.
pub open spec fn is_valid_nick(n: Seq<char>) -> bool {
    n.len() > 0 && forall|i: int| 0 <= i < n.len() ==> is_alnum(#[trigger] n[i])
}

/// The line that asks a client for its nickname.
pub fn nick_prompt() -> (r: String)
    ensures
        r@ == "Please enter your nick.\n> "@,
{
    String::from_str("Please enter your nick.\n> ")
}

impl NickError {
    /// The notice sent to the client before it is asked again.
    pub fn notice(&self) -> (r: String)
        ensures
            *self == NickError::Empty ==> r@ == "Nick can't be empty.\n"@,
            *self == NickError::NotAlphanumeric ==> r@ == "Nick must be alphanumeric.\n"@,
    {
        match self {
            NickError::Empty => String::from_str("Nick can't be empty.\n"),
            NickError::NotAlphanumeric => String::from_str("Nick must be alphanumeric.\n"),
        }
    }
}

/// Whether every character of `s` is an ASCII letter or digit.
fn all_alnum(s: &str) -> (r: bool)
    ensures
        r == forall|i: int| 0 <= i < s@.len() ==> is_alnum(#[trigger] s@[i]),
{
    let n = s.unicode_len();
    let mut i: usize = 0;
    while i < n
        invariant
            n == s@.len(),
            i <= n,
            forall|k: int| 0 <= k < i ==> is_alnum(#[trigger] s@[k]),
        decreases n - i,
    {
        if !char_is_alnum(s.get_char(i)) {
            return false;
        }
        i = i + 1;
    }
    true
}

/// Judges one answer to the nickname prompt. The answer is trimmed and
/// lowercased; it is accepted when what is left is a valid nickname.
/// Uniqueness is not decided here: the coordinator decides it at join time.
pub fn check_nick(line: &str) -> (r: Result<String, NickError>)
    ensures
        r is Ok <==> is_valid_nick(nick_of(line@)),
        r matches Ok(n) ==> n@ == nick_of(line@),
        r matches Ok(n) ==> forall|i: int| 0 <= i < n@.len() ==> !('A' <= #[trigger] n@[i] && n@[i] <= 'Z'),
        r == Err::<String, NickError>(NickError::Empty) <==> nick_of(line@).len() == 0,
        r == Err::<String, NickError>(NickError::NotAlphanumeric) <==> (nick_of(line@).len() > 0
            && !is_valid_nick(nick_of(line@))),
{
    let n = to_lower(trim(line));
    if n.as_str().unicode_len() == 0 {
        Err(NickError::Empty)
    } else if !all_alnum(n.as_str()) {
        Err(NickError::NotAlphanumeric)
    } else {
        Ok(n)
    }
}

} // verus!
