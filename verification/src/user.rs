//! The user record accepted by the create endpoint, and the structural
//! validation the handler runs before any store call.

use vstd::prelude::*;
use vstd::string::StrSliceExecFns;

verus! {

/// A candidate or persisted user record. `id` is absent on a create request;
/// the store assigns it on success.
#[derive(Debug, Clone)]
pub struct User {
    pub id: Option<String>,
    pub first_name: String,
    pub last_name: String,
    pub email: String,
}

/// `c` occurs somewhere in `s`.
pub open spec fn contains_char(s: Seq<char>, c: char) -> bool {
    exists|i: int| 0 <= i < s.len() && s[i] == c
}

impl User {
    /// A structurally valid create payload: both names are non-empty and the
    /// email carries an `@`. Anything finer than that is not checked here.
    pub open spec fn spec_valid(self) -> bool {
        &&& self.first_name@.len() > 0
        &&& self.last_name@.len() > 0
        &&& contains_char(self.email@, '@')
    }

    /// Checks structural validity of the payload.
    pub fn validate(&self) -> (r: bool)
        ensures
            r == self.spec_valid(),
    {
        if self.first_name.as_str().unicode_len() == 0 {
            return false;
        }
        if self.last_name.as_str().unicode_len() == 0 {
            return false;
        }
        let email = self.email.as_str();
        let n = email.unicode_len();
        let mut i: usize = 0;
        while i < n
            invariant
                self.first_name@.len() > 0,
                self.last_name@.len() > 0,
                email@ == self.email@,
                n == email@.len(),
                i <= n,
                forall|m: int| 0 <= m < i ==> email@[m] != '@',
            decreases n - i,
        {
            if email.get_char(i) == '@' {
                return true;
            }
            i = i + 1;
        }
        false
    }
}

} // verus!
