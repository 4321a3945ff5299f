use vstd::prelude::*;

verus! {

/// An ASCII letter (`a`..=`z` or `A`..=`Z`).
pub open spec fn is_ascii_letter(c: char) -> bool {
    ('a' <= c && c <= 'z') || ('A' <= c && c <= 'Z')
}

/// An ASCII digit (`0`..=`9`).
pub open spec fn is_ascii_digit(c: char) -> bool {
    '0' <= c && c <= '9'
}

/// An ASCII letter or digit.
pub open spec fn is_ascii_alnum(c: char) -> bool {
    is_ascii_letter(c) || is_ascii_digit(c)
}

/// A character that may follow the first character of an app name.
pub open spec fn is_app_name_tail_char(c: char) -> bool {
    is_ascii_alnum(c) || c == '_' || c == '-'
}

/// A valid app name (and Linux username): an ASCII letter followed by ASCII letters, digits,
/// dashes and underscores.
pub open spec fn is_valid_app_name(s: Seq<char>) -> bool {
    &&& s.len() > 0
    &&& is_ascii_letter(s[0])
    &&& forall|i: int| 1 <= i < s.len() ==> #[trigger] is_app_name_tail_char(s[i])
}

/// Why a string was refused as an app name.
#[derive(Clone, Copy, Debug, PartialEq, Eq)]
pub enum AppNameError {
    /// The name is empty or does not start with an ASCII letter.
    BadStart,
    /// The name contains a character other than ASCII letters, digits, `-` and `_`.
    BadChar,
}

/// The message that explains why a name was refused.
pub open spec fn app_name_error_message(e: AppNameError) -> Seq<char> {
    match e {
        AppNameError::BadStart => "the name should start with an alphabetic ASCII character"@,
        AppNameError::BadChar => "only alphanumeric ASCII characters, dashes (`-`), and underscores (`_`) are allowed"@,
    }
}

impl AppNameError {
    /// The message that explains the refusal.
    pub fn message(&self) -> (r: &'static str)
        ensures
            r@ == app_name_error_message(*self),
    {
        match self {
            AppNameError::BadStart => "the name should start with an alphabetic ASCII character",
            AppNameError::BadChar => "only alphanumeric ASCII characters, dashes (`-`), and underscores (`_`) are allowed",
        }
    }
}

/// Represents an app name on the server
///
/// App names are mapped to Linux users, and this type enforces that the string it carries is a
/// valid username.
#[derive(Debug)]
pub struct AppName {
    inner: String,
}

impl View for AppName {
    type V = Seq<char>;

    closed spec fn view(&self) -> Seq<char> {
        self.inner@
    }
}

impl Clone for AppName {
    fn clone(&self) -> (r: Self)
        ensures
            r@ == self@,
    {
        proof {
            use_type_invariant(self);
        }
        AppName { inner: self.inner.clone() }
    }
}

impl AppName {
    #[verifier::type_invariant]
    closed spec fn wf(self) -> bool {
        is_valid_app_name(self.inner@)
    }

    /// Every app name is a valid username.
    pub fn is_valid(&self) -> (b: bool)
        ensures
            b,
            is_valid_app_name(self@),
    {
        proof {
            use_type_invariant(self);
        }
        true
    }

    pub fn as_str(&self) -> (r: &str)
        ensures
            r@ == self@,
    {
        self.inner.as_str()
    }

    /// The name as text (what the name displays as).
    pub fn to_string(&self) -> (r: String)
        ensures
            r@ == self@,
    {
        self.inner.clone()
    }

    /// Parses an app name, refusing any string that is not a valid username.
    pub fn from_str(s: &str) -> (r: Result<AppName, AppNameError>)
        ensures
            r is Ok <==> is_valid_app_name(s@),
            r matches Ok(name) ==> name@ == s@,
            r matches Err(e) ==> (e == AppNameError::BadStart <==> !(s@.len() > 0 && is_ascii_letter(s@[0]))),
    {
        let n = s.unicode_len();
        if n == 0 || !is_letter(s.get_char(0)) {
            return Err(AppNameError::BadStart);
        }
        let mut i: usize = 1;
        while i < n
            invariant
                n == s@.len(),
                1 <= i <= n,
                is_ascii_letter(s@[0]),
                forall|j: int| 1 <= j < i ==> #[trigger] is_app_name_tail_char(s@[j]),
            decreases n - i,
        {
            let c = s.get_char(i);
            if !(is_letter(c) || ('0' <= c && c <= '9') || c == '_' || c == '-') {
                assert(!is_app_name_tail_char(s@[i as int]));
                return Err(AppNameError::BadChar);
            }
            i = i + 1;
        }
        let inner = String::from_str(s);
        assert(is_valid_app_name(inner@));
        Ok(AppName { inner })
    }
}

fn is_letter(c: char) -> (r: bool)
    ensures
        r == is_ascii_letter(c),
{
    ('a' <= c && c <= 'z') || ('A' <= c && c <= 'Z')
}

} // verus!

verus! {

/// A name is accepted exactly when it starts with an ASCII letter and every later character is
/// an ASCII letter, an ASCII digit, `_` or `-`.
pub proof fn lemma_app_name_chars(s: Seq<char>)
    ensures
        is_valid_app_name(s) <==> s.len() > 0 && (('a' <= s[0] && s[0] <= 'z') || ('A' <= s[0] && s[0] <= 'Z')) && forall|i: int|
            1 <= i < s.len() ==> ('a' <= #[trigger] s[i] && s[i] <= 'z') || ('A' <= s[i] && s[i] <= 'Z') || ('0' <= s[i]
                && s[i] <= '9') || s[i] == '_' || s[i] == '-',
{
    if is_valid_app_name(s) {
        assert forall|i: int| 1 <= i < s.len() implies ('a' <= #[trigger] s[i] && s[i] <= 'z') || ('A' <= s[i] && s[i] <= 'Z')
            || ('0' <= s[i] && s[i] <= '9') || s[i] == '_' || s[i] == '-' by {
            assert(is_app_name_tail_char(s[i]));
        }
    }
}

} // verus!
